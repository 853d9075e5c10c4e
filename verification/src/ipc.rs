//! The pipe protocol between the Explorer command and the running app, and the
//! command line that hands files to it.
use vstd::prelude::*;
use vstd::string::*;

use crate::text::{join3, same_text};
use crate::upload_state::{batch_entries, batch_queue, QueuedUpload, UploadTracker};

verus! {

/// The lower-case hexadecimal digit of `d`, for `d` below 16.
pub open spec fn lower_hex_digit(d: int) -> char {
    seq!['0', '1', '2', '3', '4', '5', '6', '7', '8', '9', 'a', 'b', 'c', 'd', 'e', 'f'][d]
}

/// One character as it stands inside a JSON string: `"` and `\` escaped with a
/// backslash, backspace, form feed, newline, carriage return and tab as `\b`,
/// `\f`, `\n`, `\r`, `\t`, the other characters below U+0020 as `\u00xx`, and
/// every other character as it is.
pub open spec fn json_char(c: char) -> Seq<char> {
    let v = c as u32;
    if c == '"' {
        seq!['\\', '"']
    } else if c == '\\' {
        seq!['\\', '\\']
    } else if v == 8 {
        seq!['\\', 'b']
    } else if v == 12 {
        seq!['\\', 'f']
    } else if v == 10 {
        seq!['\\', 'n']
    } else if v == 13 {
        seq!['\\', 'r']
    } else if v == 9 {
        seq!['\\', 't']
    } else if v < 0x20 {
        seq!['\\', 'u', '0', '0', lower_hex_digit((v / 16) as int), lower_hex_digit((v % 16) as int)]
    } else {
        seq![c]
    }
}

/// The characters of `s` as they stand inside a JSON string.
pub open spec fn json_chars(s: Seq<char>) -> Seq<char>
    decreases s.len(),
{
    if s.len() == 0 {
        Seq::empty()
    } else {
        json_chars(s.drop_last()) + json_char(s.last())
    }
}

/// The JSON string for `s`: its escaped characters between double quotes.
pub open spec fn json_string(s: Seq<char>) -> Seq<char> {
    seq!['"'] + json_chars(s) + seq!['"']
}

/// The JSON strings of `items`, separated by commas.
pub open spec fn json_items(items: Seq<Seq<char>>) -> Seq<char>
    decreases items.len(),
{
    if items.len() == 0 {
        Seq::empty()
    } else if items.len() == 1 {
        json_string(items[0])
    } else {
        json_items(items.drop_last()) + seq![','] + json_string(items.last())
    }
}

/// The compact JSON array of the strings `items`: `[` the strings, separated by
/// commas, `]`, with no spaces.
pub open spec fn json_string_list(items: Seq<Seq<char>>) -> Seq<char> {
    seq!['['] + json_items(items) + seq![']']
}

/// Calls `serde_json::to_string` on a list of strings. Trusted: the text is the
/// compact JSON array of those strings, escaped as serde_json's `ESCAPE` table and
/// `write_char_escape` escape them (`ser.rs`). Serialising strings does not
/// fail (serde_json fails only on a failing `Serialize` impl or a map with
/// non-string keys), so the error arm is never taken.
#[verifier::external_body]
fn json_list(items: &[String]) -> (r: String)
    ensures
        r@ == json_string_list(items@.map_values(|s: String| s@)),
{
    match serde_json::to_string(items) {
        Ok(text) => text,
        Err(_) => String::new(),
    }
}

/// The request that asks the running app to upload `files`: the JSON object
/// `{"action":"upload","files":[...]}`, with the files as a JSON array, ended by a newline.
pub open spec fn upload_request_text(files: Seq<Seq<char>>) -> Seq<char> {
    "{\"action\":\"upload\",\"files\":"@ + json_string_list(files) + "}\n"@
}

/// The bytes written to the pipe to ask for the upload of `files`.
pub fn upload_request_message(files: &[String]) -> (r: String)
    ensures
        r@ == upload_request_text(files@.map_values(|s: String| s@)),
{
    let list = json_list(files);
    join3("{\"action\":\"upload\",\"files\":", list.as_str(), "}\n")
}

/// A request read from the pipe.
#[derive(Debug, Clone, PartialEq, Eq)]
pub struct PipeMessage {
    pub action: String,
    pub files: Vec<String>,
}

/// The files that a pipe request asks to upload: those of an `upload` request;
/// any other action asks for nothing.
pub fn requested_uploads(message: PipeMessage) -> (r: Option<Vec<String>>)
    ensures
        message.action@ == "upload"@ ==> r == Some(message.files),
        message.action@ != "upload"@ ==> r is None,
{
    if same_text(message.action.as_str(), "upload") {
        Some(message.files)
    } else {
        None
    }
}

/// Starts tracking the uploads of `files`, unless there are none. Returns the
/// queued uploads, in the order of `files`, that are then to be uploaded one by one.
pub fn enqueue_batch(tracker: &mut UploadTracker, files: &[String]) -> (r: Option<Vec<QueuedUpload>>)
    requires
        old(tracker).wf(),
        old(tracker)@.next_id + files@.len() <= u64::MAX,
    ensures
        final(tracker).wf(),
        files@.len() == 0 ==> r is None && final(tracker)@ == old(tracker)@,
        files@.len() > 0 ==> (r matches Some(queued) && queued@.map_values(|q: QueuedUpload| q@)
            == batch_queue(old(tracker)@.next_id, files@) && final(tracker)@.next_id == old(
            tracker,
        )@.next_id + files@.len() && final(tracker)@.uploads == old(tracker)@.uploads
            + batch_entries(old(tracker)@.next_id, files@)),
{
    if files.len() == 0 {
        return None;
    }
    Some(tracker.begin_batch(files))
}

/// Whether what was read from the pipe holds a request to parse: an empty read
/// (a client that connected and wrote nothing) holds none.
pub fn holds_request(all_data: &[u8]) -> (r: bool)
    ensures
        r == (all_data@.len() > 0),
{
    all_data.len() > 0
}

/// Adds what one read from the pipe delivered to `all_data`: the first
/// `bytes_read` bytes of `buf`. Returns whether to read again, which is when the
/// read succeeded and delivered something.
pub fn absorb_chunk(all_data: &mut Vec<u8>, buf: &[u8], bytes_read: u32, read_failed: bool) -> (r:
    bool)
    requires
        bytes_read <= buf@.len(),
    ensures
        final(all_data)@ == old(all_data)@ + buf@.subrange(0, bytes_read as int),
        r == (!read_failed && bytes_read > 0),
{
    let n = bytes_read as usize;
    let mut i: usize = 0;
    while i < n
        invariant
            n == bytes_read,
            n <= buf@.len(),
            i <= n,
            all_data@ == old(all_data)@ + buf@.subrange(0, i as int),
        decreases n - i,
    {
        all_data.push(buf[i]);
        proof {
            assert(buf@.subrange(0, i + 1) == buf@.subrange(0, i as int).push(buf@[i as int]));
        }
        i = i + 1;
    }
    !read_failed && bytes_read > 0
}

/// The files that the command line hands over: everything after `--upload`,
/// when the program was started as `program --upload file...` with at least one file.
pub open spec fn upload_arguments(args: Seq<Seq<char>>) -> Option<Seq<Seq<char>>> {
    if args.len() >= 3 && args[1] == "--upload"@ {
        Some(args.subrange(2, args.len() as int))
    } else {
        None
    }
}

/// The files to hand to the running app, when the command line asks for an upload.
pub fn upload_args(args: &[String]) -> (r: Option<Vec<String>>)
    ensures
        match upload_arguments(args@.map_values(|s: String| s@)) {
            Some(files) => (r matches Some(v) && v@.map_values(|s: String| s@) == files),
            None => r is None,
        },
{
    let ghost texts = args@.map_values(|s: String| s@);
    if args.len() >= 3 && same_text(args[1].as_str(), "--upload") {
        let mut files: Vec<String> = Vec::new();
        let mut i: usize = 2;
        while i < args.len()
            invariant
                2 <= i <= args@.len(),
                texts == args@.map_values(|s: String| s@),
                files@.map_values(|s: String| s@) == texts.subrange(2, i as int),
            decreases args@.len() - i,
        {
            let ghost before = files@.map_values(|s: String| s@);
            files.push(args[i].clone());
            proof {
                assert(files@.map_values(|s: String| s@) == before.push(texts[i as int]));
                assert(texts.subrange(2, i + 1) == texts.subrange(2, i as int).push(
                    texts[i as int],
                ));
            }
            i = i + 1;
        }
        Some(files)
    } else {
        None
    }
}

/// Whenever the second argument is `--upload` and at least one more follows, every
/// argument after `--upload` is handed over, in order; in particular
/// `[program, --upload, file]` hands over `[file]`. Any other command line hands
/// over nothing.
pub proof fn lemma_upload_takes_every_file(args: Seq<Seq<char>>, program: Seq<char>, file: Seq<
    char,
>)
    ensures
        args.len() >= 3 && args[1] == "--upload"@ ==> (upload_arguments(args) matches Some(files)
            && files.len() == args.len() - 2 && forall|i: int|
            0 <= i < files.len() ==> #[trigger] files[i] == args[i + 2]),
        !(args.len() >= 3 && args[1] == "--upload"@) ==> upload_arguments(args) is None,
        upload_arguments(seq![program, "--upload"@, file]) == Some(seq![file]),
{
    let single = seq![program, "--upload"@, file];
    assert(single.subrange(2, 3) =~= seq![file]);
}

/// What the Explorer command does after an attempt to send its request.
#[derive(Debug, Clone, Copy, PartialEq, Eq, Structural)]
pub enum SendStep {
    /// Stop sending.
    Finish,
    /// Start the app, then send the request once more.
    LaunchAndResend,
}

/// After a first attempt that failed, the app is started and the request sent
/// once more; after a success, or after the second attempt, sending stops.
pub open spec fn step_after_send(attempt: u32, sent: bool) -> SendStep {
    if attempt == 0 && !sent {
        SendStep::LaunchAndResend
    } else {
        SendStep::Finish
    }
}

/// What to do after the attempt numbered `attempt` (from 0) to send the request,
/// which succeeded when `sent`.
pub fn after_send(attempt: u32, sent: bool) -> (r: SendStep)
    ensures
        r == step_after_send(attempt, sent),
{
    if attempt == 0 && !sent {
        SendStep::LaunchAndResend
    } else {
        SendStep::Finish
    }
}

/// The request is sent at most twice: whatever the second attempt gives, sending stops.
pub proof fn lemma_at_most_two_attempts(sent: bool)
    ensures
        step_after_send(1, sent) == SendStep::Finish,
{
}

} // verus!
