//! The Explorer command's identity and the text it writes to the registry:
//! its class id, the class id's registry form, the keys it registers under,
//! and wide (UTF-16) strings.
use vstd::prelude::*;
use vstd::string::*;

use crate::text::{join2, join3};
use crate::win_path::chars_of;

verus! {

/// The key of the Explorer verb that runs the command, for every file type.
pub const VERB_KEY: &'static str = "SOFTWARE\\Classes\\*\\shell\\OSSShare";

/// The context-menu handler key that older versions registered machine-wide.
pub const LEGACY_HANDLER_KEY: &'static str = "*\\shellex\\ContextMenuHandlers\\OSSShare";

/// The key under which the installer records where it put the app.
pub const INSTALL_KEY: &'static str = "SOFTWARE\\OSSShare";

/// The title of the Explorer command.
pub const MENU_TITLE: &'static str = "共享到 OSS";

/// The tooltip of the Explorer command.
pub const MENU_TOOLTIP: &'static str = "上传文件到阿里云 OSS 并生成共享链接";

/// The icon of the Explorer command.
pub const MENU_ICON: &'static str = "%SystemRoot%\\System32\\shell32.dll,-16817";

/// A class id, as the fields of a Windows `GUID`.
#[derive(Debug, Clone, Copy, PartialEq, Eq)]
pub struct Guid {
    pub data1: u32,
    pub data2: u16,
    pub data3: u16,
    pub data4: [u8; 8],
}

/// The fields that `windows::core::GUID::from_u128` takes from `v`: the top 32
/// bits, the next 16, the next 16, and the low 64 bits as big-endian bytes.
pub open spec fn guid_fields(v: u128) -> (u32, u16, u16, Seq<u8>) {
    (
        (v >> 96u128) as u32,
        ((v >> 80u128) & 0xffff) as u16,
        ((v >> 64u128) & 0xffff) as u16,
        seq![
            (v >> 56u128) as u8,
            (v >> 48u128) as u8,
            (v >> 40u128) as u8,
            (v >> 32u128) as u8,
            (v >> 24u128) as u8,
            (v >> 16u128) as u8,
            (v >> 8u128) as u8,
            v as u8,
        ],
    )
}

/// The class id written as the number `v`, split as `GUID::from_u128` splits it.
pub fn guid_from_u128(v: u128) -> (g: Guid)
    ensures
        (g.data1, g.data2, g.data3, g.data4@) == guid_fields(v),
{
    let low = v as u64;
    let g = Guid {
        data1: (v >> 96u128) as u32,
        data2: ((v >> 80u128) & 0xffff) as u16,
        data3: ((v >> 64u128) & 0xffff) as u16,
        data4: [
            (low >> 56u64) as u8,
            (low >> 48u64) as u8,
            (low >> 40u64) as u8,
            (low >> 32u64) as u8,
            (low >> 24u64) as u8,
            (low >> 16u64) as u8,
            (low >> 8u64) as u8,
            low as u8,
        ],
    };
    assert((low >> 56u64) as u8 == (v >> 56u128) as u8) by (bit_vector)
        requires
            low == v as u64,
    ;
    assert((low >> 48u64) as u8 == (v >> 48u128) as u8) by (bit_vector)
        requires
            low == v as u64,
    ;
    assert((low >> 40u64) as u8 == (v >> 40u128) as u8) by (bit_vector)
        requires
            low == v as u64,
    ;
    assert((low >> 32u64) as u8 == (v >> 32u128) as u8) by (bit_vector)
        requires
            low == v as u64,
    ;
    assert((low >> 24u64) as u8 == (v >> 24u128) as u8) by (bit_vector)
        requires
            low == v as u64,
    ;
    assert((low >> 16u64) as u8 == (v >> 16u128) as u8) by (bit_vector)
        requires
            low == v as u64,
    ;
    assert((low >> 8u64) as u8 == (v >> 8u128) as u8) by (bit_vector)
        requires
            low == v as u64,
    ;
    assert(low as u8 == v as u8) by (bit_vector)
        requires
            low == v as u64,
    ;
    assert(g.data4@ =~= guid_fields(v).3);
    g
}

/// The class id of the Explorer command, `{A1B2C3D4-E5F6-7890-ABCD-EF1234567890}`.
pub fn clsid_oss_share() -> (g: Guid)
    ensures
        (g.data1, g.data2, g.data3, g.data4@) == guid_fields(
            0xA1B2C3D4_E5F6_7890_ABCD_EF1234567890u128,
        ),
{
    guid_from_u128(0xA1B2C3D4_E5F6_7890_ABCD_EF1234567890u128)
}

/// The upper-case hexadecimal digit of `d`, for `d` below 16.
pub open spec fn hex_digit(d: int) -> char {
    "0123456789ABCDEF"@[d]
}

/// The last `width` upper-case hexadecimal digits of `v`, zero-padded; for
/// `v < 16^width` that is `v` written as `format!("{:0width$X}")` writes it.
pub open spec fn hex_text(v: nat, width: nat) -> Seq<char>
    decreases width,
{
    if width == 0 {
        Seq::empty()
    } else {
        hex_text(v / 16, (width - 1) as nat).push(hex_digit((v % 16) as int))
    }
}

/// The last `width` upper-case hexadecimal digits of `v`, zero-padded.
pub fn hex_upper(v: u64, width: usize) -> (r: String)
    ensures
        r@ == hex_text(v as nat, width as nat),
    decreases width,
{
    if width == 0 {
        return String::new();
    }
    let mut r = hex_upper(v / 16, width - 1);
    let d = (v % 16) as usize;
    let digits = "0123456789ABCDEF";
    proof {
        reveal_strlit("0123456789ABCDEF");
    }
    let digit = digits.substring_char(d, d + 1);
    let ghost before = r@;
    r.append(digit);
    assert(r@ =~= before.push(hex_digit(d as int)));
    r
}

/// The registry form of a class id: `{XXXXXXXX-XXXX-XXXX-XXXX-XXXXXXXXXXXX}` in
/// upper-case hexadecimal.
pub open spec fn guid_text(g: Guid) -> Seq<char> {
    "{"@ + hex_text(g.data1 as nat, 8) + "-"@ + hex_text(g.data2 as nat, 4) + "-"@ + hex_text(
        g.data3 as nat,
        4,
    ) + "-"@ + hex_text(g.data4@[0] as nat, 2) + hex_text(g.data4@[1] as nat, 2) + "-"@
        + hex_text(g.data4@[2] as nat, 2) + hex_text(g.data4@[3] as nat, 2) + hex_text(
        g.data4@[4] as nat,
        2,
    ) + hex_text(g.data4@[5] as nat, 2) + hex_text(g.data4@[6] as nat, 2) + hex_text(
        g.data4@[7] as nat,
        2,
    ) + "}"@
}

/// `hex_text` always has exactly `width` digits.
pub proof fn lemma_hex_text_len(v: nat, width: nat)
    ensures
        hex_text(v, width).len() == width,
    decreases width,
{
    if width > 0 {
        lemma_hex_text_len(v / 16, (width - 1) as nat);
    }
}

/// The registry form of a class id always has 38 characters: braces, 32 digits and 4 dashes.
pub proof fn lemma_guid_text_len(g: Guid)
    ensures
        guid_text(g).len() == 38,
{
    reveal_strlit("{");
    reveal_strlit("-");
    reveal_strlit("}");
    lemma_hex_text_len(g.data1 as nat, 8);
    lemma_hex_text_len(g.data2 as nat, 4);
    lemma_hex_text_len(g.data3 as nat, 4);
    assert forall|i: int| 0 <= i < 8 implies #[trigger] hex_text(g.data4@[i] as nat, 2).len() == 2 by {
        lemma_hex_text_len(g.data4@[i] as nat, 2);
    }
}

/// The registry form of `g`.
pub fn guid_string(g: &Guid) -> (r: String)
    ensures
        r@ == guid_text(*g),
{
    let mut r = String::from_str("{");
    let part = hex_upper(g.data1 as u64, 8);
    r.append(part.as_str());
    r.append("-");
    let part = hex_upper(g.data2 as u64, 4);
    r.append(part.as_str());
    r.append("-");
    let part = hex_upper(g.data3 as u64, 4);
    r.append(part.as_str());
    r.append("-");
    let ghost head = r@;
    let mut i: usize = 0;
    while i < 8
        invariant
            0 <= i <= 8,
            i <= 2 ==> r@ == head + byte_digits(g.data4@, 0, i as int),
            i > 2 ==> r@ == head + byte_digits(g.data4@, 0, 2) + "-"@ + byte_digits(
                g.data4@,
                2,
                i as int,
            ),
        decreases 8 - i,
    {
        let ghost before = r@;
        if i == 2 {
            r.append("-");
        }
        let part = hex_upper(g.data4[i] as u64, 2);
        r.append(part.as_str());
        proof {
            let h = hex_text(g.data4@[i as int] as nat, 2);
            if i < 2 {
                assert(r@ =~= head + byte_digits(g.data4@, 0, i + 1));
            } else if i == 2 {
                assert(byte_digits(g.data4@, 2, 3) =~= h);
                assert(r@ =~= head + byte_digits(g.data4@, 0, 2) + "-"@ + byte_digits(
                    g.data4@,
                    2,
                    3,
                ));
            } else {
                assert(r@ =~= head + byte_digits(g.data4@, 0, 2) + "-"@ + byte_digits(
                    g.data4@,
                    2,
                    i + 1,
                ));
            }
        }
        i = i + 1;
    }
    r.append("}");
    proof {
        reveal_with_fuel(byte_digits, 9);
        assert(r@ =~= guid_text(*g));
    }
    r
}

/// The two-digit forms of `bytes[from..to]`, one after another.
pub open spec fn byte_digits(bytes: Seq<u8>, from: int, to: int) -> Seq<char>
    decreases to - from,
{
    if to <= from {
        Seq::empty()
    } else {
        byte_digits(bytes, from, to - 1) + hex_text(bytes[to - 1] as nat, 2)
    }
}

/// The key under which the command's class is registered for the current user.
pub open spec fn class_key_text(guid: Seq<char>) -> Seq<char> {
    "SOFTWARE\\Classes\\CLSID\\"@ + guid
}

/// The key under which the class is registered for the current user.
pub fn class_key(guid: &str) -> (r: String)
    ensures
        r@ == class_key_text(guid@),
{
    join2("SOFTWARE\\Classes\\CLSID\\", guid)
}

/// The key that names the DLL serving the class.
pub open spec fn server_key_text(guid: Seq<char>) -> Seq<char> {
    class_key_text(guid) + "\\InProcServer32"@
}

/// The key that names the DLL serving the class.
pub fn server_key(guid: &str) -> (r: String)
    ensures
        r@ == server_key_text(guid@),
{
    join3("SOFTWARE\\Classes\\CLSID\\", guid, "\\InProcServer32")
}

/// The machine-wide class key that older versions registered.
pub open spec fn legacy_class_key_text(guid: Seq<char>) -> Seq<char> {
    "CLSID\\"@ + guid
}

/// The machine-wide class key that older versions registered.
pub fn legacy_class_key(guid: &str) -> (r: String)
    ensures
        r@ == legacy_class_key_text(guid@),
{
    join2("CLSID\\", guid)
}

/// The UTF-16 code units of one character.
pub open spec fn utf16_of(c: char) -> Seq<u16> {
    let v = c as u32 as int;
    if v < 0x10000 {
        seq![v as u16]
    } else {
        seq![(0xD800 + (v - 0x10000) / 0x400) as u16, (0xDC00 + (v - 0x10000) % 0x400) as u16]
    }
}

/// The UTF-16 code units of `s`.
pub open spec fn utf16_units(s: Seq<char>) -> Seq<u16>
    decreases s.len(),
{
    if s.len() == 0 {
        Seq::empty()
    } else {
        utf16_units(s.drop_last()) + utf16_of(s.last())
    }
}

/// `s` as a NUL-terminated wide string: its UTF-16 code units followed by 0.
pub fn wide_nul(s: &str) -> (r: Vec<u16>)
    ensures
        r@ == utf16_units(s@).push(0),
{
    let v = chars_of(s);
    let mut r: Vec<u16> = Vec::new();
    let mut i: usize = 0;
    while i < v.len()
        invariant
            v@ == s@,
            i <= v.len(),
            r@ == utf16_units(s@.subrange(0, i as int)),
        decreases v.len() - i,
    {
        let c = v[i];
        let code = c as u32;
        let ghost before = r@;
        if code < 0x10000 {
            r.push(code as u16);
        } else {
            let rest = code - 0x10000;
            r.push((0xD800 + rest / 0x400) as u16);
            r.push((0xDC00 + rest % 0x400) as u16);
        }
        proof {
            assert(s@.subrange(0, i + 1).drop_last() =~= s@.subrange(0, i as int));
            assert(r@ =~= before + utf16_of(c));
        }
        i = i + 1;
    }
    proof {
        assert(s@.subrange(0, v.len() as int) =~= s@);
    }
    r.push(0);
    r
}

/// The program that the installer put into `install_dir`.
pub open spec fn installed_exe_text(install_dir: Seq<char>) -> Seq<char> {
    install_dir + "\\oss-share.exe"@
}

/// The program that the installer put into `install_dir`.
pub fn installed_exe(install_dir: &str) -> (r: String)
    ensures
        r@ == installed_exe_text(install_dir@),
{
    join2(install_dir, "\\oss-share.exe")
}

/// The number of characters of a registry string that took `byte_count` bytes,
/// its terminating NUL left out.
pub fn registry_text_len(byte_count: u32) -> (r: usize)
    ensures
        r as int == if byte_count / 2 >= 1 {
            byte_count / 2 - 1
        } else {
            0
        },
{
    let units = (byte_count / 2) as usize;
    if units >= 1 {
        units - 1
    } else {
        0
    }
}

} // verus!
