use oss_share::win_path::file_name;

fn name(p: &str) -> Option<String> {
    file_name(p)
}

#[test]
fn file_name_of_drive_paths() {
    assert_eq!(name(r"C:\Users\alice\Desktop\report.pdf").as_deref(), Some("report.pdf"));
    assert_eq!(name(r"D:\images\photo.png").as_deref(), Some("photo.png"));
    assert_eq!(name("C:/tmp/mixed/seps.txt").as_deref(), Some("seps.txt"));
    assert_eq!(name("C:relative.txt").as_deref(), Some("relative.txt"));
    assert_eq!(name(r"C:\"), None);
    assert_eq!(name("C:"), None);
}

#[test]
fn file_name_skips_trailing_separators_and_dots() {
    assert_eq!(name(r"C:\dir\sub\").as_deref(), Some("sub"));
    assert_eq!(name(r"C:\dir\sub\.").as_deref(), Some("sub"));
    assert_eq!(name(r"dir\.\file").as_deref(), Some("file"));
    assert_eq!(name(r"C:\dir\.."), None);
    assert_eq!(name("."), None);
    assert_eq!(name(".."), None);
    assert_eq!(name(""), None);
}

#[test]
fn file_name_of_unc_and_device_paths() {
    assert_eq!(name(r"\\server\share\folder\a.txt").as_deref(), Some("a.txt"));
    assert_eq!(name(r"\\server\share"), None);
    assert_eq!(name(r"\\server\share\"), None);
    assert_eq!(name(r"\\server").as_deref(), Some("server"));
    assert_eq!(name(r"\\.\pipe\oss-share").as_deref(), Some("oss-share"));
    assert_eq!(name(r"\\.\COM1"), None);
}

#[test]
fn file_name_of_verbatim_paths() {
    assert_eq!(name(r"\\?\C:\dir\file.txt").as_deref(), Some("file.txt"));
    assert_eq!(name(r"\\?\C:\dir\a/b").as_deref(), Some("a/b"));
    assert_eq!(name(r"\\?\C:\dir\."), None);
    assert_eq!(name(r"\\?\UNC\server\share\x.txt").as_deref(), Some("x.txt"));
    assert_eq!(name(r"\\?\UNC\server\share"), None);
}

#[test]
fn file_name_of_plain_names() {
    assert_eq!(name("report.pdf").as_deref(), Some("report.pdf"));
    assert_eq!(name("名前.txt").as_deref(), Some("名前.txt"));
    assert_eq!(name(r"\rooted\x").as_deref(), Some("x"));
}
