use oss_share::shell::{
    INSTALL_KEY, LEGACY_HANDLER_KEY, MENU_ICON, MENU_TITLE, MENU_TOOLTIP, VERB_KEY,
    class_key, clsid_oss_share, guid_from_u128, guid_string, hex_upper, installed_exe,
    legacy_class_key, registry_text_len, server_key, wide_nul,
};

#[test]
fn clsid_string_form() {
    let g = clsid_oss_share();
    assert_eq!(g.data1, 0xA1B2C3D4);
    assert_eq!(g.data2, 0xE5F6);
    assert_eq!(g.data3, 0x7890);
    assert_eq!(g.data4, [0xAB, 0xCD, 0xEF, 0x12, 0x34, 0x56, 0x78, 0x90]);
    assert_eq!(guid_string(&g), "{A1B2C3D4-E5F6-7890-ABCD-EF1234567890}");
}

#[test]
fn guid_string_pads_with_zeros() {
    let g = guid_from_u128(0x0000000A_000B_000C_0001_020304050607);
    assert_eq!(guid_string(&g), "{0000000A-000B-000C-0001-020304050607}");
}

#[test]
fn hex_digits() {
    assert_eq!(hex_upper(255, 2), "FF");
    assert_eq!(hex_upper(10, 4), "000A");
    assert_eq!(hex_upper(0x1234, 2), "34");
    assert_eq!(hex_upper(7, 0), "");
}

#[test]
fn registry_keys() {
    let g = "{A1B2C3D4-E5F6-7890-ABCD-EF1234567890}";
    assert_eq!(class_key(g), r"SOFTWARE\Classes\CLSID\{A1B2C3D4-E5F6-7890-ABCD-EF1234567890}");
    assert_eq!(
        server_key(g),
        r"SOFTWARE\Classes\CLSID\{A1B2C3D4-E5F6-7890-ABCD-EF1234567890}\InProcServer32"
    );
    assert_eq!(legacy_class_key(g), r"CLSID\{A1B2C3D4-E5F6-7890-ABCD-EF1234567890}");
    assert_eq!(installed_exe(r"C:\Program Files\OSSShare"), r"C:\Program Files\OSSShare\oss-share.exe");
}

#[test]
fn wide_strings_are_utf16_with_nul() {
    let expected: Vec<u16> = "共享到 OSS 😀".encode_utf16().chain(std::iter::once(0)).collect();
    assert_eq!(wide_nul("共享到 OSS 😀"), expected);
    assert_eq!(wide_nul(""), vec![0]);
}

#[test]
fn registry_text_length() {
    assert_eq!(registry_text_len(0), 0);
    assert_eq!(registry_text_len(1), 0);
    assert_eq!(registry_text_len(2), 0);
    assert_eq!(registry_text_len(10), 4);
}

#[test]
fn registry_and_menu_texts() {
    assert_eq!(VERB_KEY, r"SOFTWARE\Classes\*\shell\OSSShare");
    assert_eq!(LEGACY_HANDLER_KEY, r"*\shellex\ContextMenuHandlers\OSSShare");
    assert_eq!(INSTALL_KEY, r"SOFTWARE\OSSShare");
    assert_eq!(MENU_TITLE, "共享到 OSS");
    assert_eq!(MENU_TOOLTIP, "上传文件到阿里云 OSS 并生成共享链接");
    assert_eq!(MENU_ICON, r"%SystemRoot%\System32\shell32.dll,-16817");
}
