use webkeylayer_backend::ui::tray::{admin_browser_url, tray_menu_entries, TrayAction};

#[test]
fn tray_menu_contains_required_actions() {
    let actions = tray_menu_entries(true)
        .into_iter()
        .map(|entry| entry.action)
        .collect::<Vec<_>>();

    assert_eq!(
        actions,
        vec![
            TrayAction::OpenAdmin,
            TrayAction::ToggleService,
            TrayAction::CopyStreamUrl,
            TrayAction::OpenLogs,
            TrayAction::Exit,
        ]
    );
}

#[test]
fn tray_menu_toggle_label_reflects_service_state() {
    let running = tray_menu_entries(true);
    let stopped = tray_menu_entries(false);

    assert_eq!(running[1].label, "停止服务");
    assert_eq!(stopped[1].label, "启动服务");
}

#[test]
fn admin_panel_opens_through_default_browser_url() {
    assert_eq!(
        admin_browser_url(8888),
        "http://127.0.0.1:8888/admin".to_string()
    );
}
