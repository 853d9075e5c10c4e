use oss_share::tray::{action_tab, menu_action, navigate_script, TrayAction};

#[test]
fn menu_items_map_to_actions() {
    assert_eq!(menu_action("open_files"), TrayAction::ShowFiles);
    assert_eq!(menu_action("settings"), TrayAction::ShowSettings);
    assert_eq!(menu_action("quit"), TrayAction::Quit);
    assert_eq!(menu_action("other"), TrayAction::Ignore);
    assert_eq!(action_tab(TrayAction::ShowFiles), Some("files"));
    assert_eq!(action_tab(TrayAction::ShowSettings), Some("settings"));
    assert_eq!(action_tab(TrayAction::Quit), None);
}

#[test]
fn navigation_script_names_the_tab() {
    assert_eq!(
        navigate_script("files"),
        "window.__navigateTo && window.__navigateTo('files')"
    );
}
