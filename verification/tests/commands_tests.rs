use switchhosts::app_menu::edit_submenu_position;
use switchhosts::commands::{basic_data, data_dir, default_config, empty_args_payload, route_menu_event, MenuRoute};
use switchhosts::http::{build_client, build_client_with, client_settings, proxy_url, user_agent, ClientError, ClientSettings, DEFAULT_TIMEOUT_SECS};
use switchhosts::version::version_label;
use switchhosts::json::bridge::parse_json;
use switchhosts::lifecycle::geometry_persist_due;

#[test]
fn basic_data_reply() {
    assert_eq!(basic_data(), parse_json(br#"{"list": [], "trashcan": [], "version": [4, 3, 0, 6140]}"#).unwrap());
}

#[test]
fn default_config_reply() {
    let expected = parse_json(
        br#"{
        "left_panel_show": true,
        "left_panel_width": 270,
        "use_system_window_frame": false,
        "write_mode": "append",
        "history_limit": 50,
        "locale": null,
        "theme": "light",
        "choice_mode": 2,
        "show_title_on_tray": false,
        "hide_at_launch": false,
        "send_usage_data": false,
        "cmd_after_hosts_apply": "",
        "remove_duplicate_records": false,
        "hide_dock_icon": false,
        "use_proxy": false,
        "proxy_protocol": "http",
        "proxy_host": "",
        "proxy_port": 0,
        "http_api_on": false,
        "http_api_only_local": true,
        "tray_mini_window": true,
        "multi_chose_folder_switch_all": false,
        "auto_download_update": true,
        "env": "PROD"
    }"#,
    )
    .unwrap();
    assert_eq!(default_config(), expected);
}

#[test]
fn data_dir_paths() {
    assert_eq!(data_dir(Some("/home/u")), "/home/u/.SwitchHosts");
    assert_eq!(data_dir(None), "~/.SwitchHosts");
}

#[test]
fn menu_routing() {
    assert_eq!(route_menu_event("tray-quit"), MenuRoute::Tray);
    assert_eq!(route_menu_event("popup_menu_item_12_3"), MenuRoute::Popup);
    assert_eq!(route_menu_event("app-find"), MenuRoute::Ignore);
    assert_eq!(route_menu_event("tray"), MenuRoute::Ignore);
    assert_eq!(empty_args_payload(), parse_json(br#"{"_args": []}"#).unwrap());
}

#[test]
fn proxy_urls() {
    assert_eq!(proxy_url(true, "http", "127.0.0.1", 8080), Some("http://127.0.0.1:8080".to_string()));
    assert_eq!(proxy_url(true, "socks5", " h ", 1), Some("socks5:// h :1".to_string()));
    assert_eq!(proxy_url(false, "http", "h", 8080), None);
    assert_eq!(proxy_url(true, "http", "   ", 8080), None);
    assert_eq!(proxy_url(true, "http", "h", 0), None);
}

#[test]
fn proxy_building() {
    assert!(build_client_with(&settings_with_proxy("http://127.0.0.1:8080")).is_ok());
    match build_client_with(&settings_with_proxy("::not a url::")) {
        Err(e) => assert!(e.to_text().starts_with("invalid proxy ::not a url::: ")),
        Ok(_) => panic!("refused"),
    }
}

#[test]
fn geometry_throttle() {
    assert!(!geometry_persist_due(1_000, 900));
    assert!(geometry_persist_due(1_100, 900));
    assert!(geometry_persist_due(1_000, 0));
    assert!(!geometry_persist_due(5, 100));
}

#[test]
fn find_goes_to_edit_submenu() {
    let titles = vec![Some("App".to_string()), None, Some("Edit".to_string()), Some("Edit".to_string())];
    assert_eq!(edit_submenu_position(&titles), Some(2));
    assert_eq!(edit_submenu_position(&vec![Some("File".into()), None]), None);
    assert_eq!(edit_submenu_position(&vec![]), None);
}

#[test]
fn version_and_user_agent() {
    assert_eq!(version_label(), "4.3.0");
    assert_eq!(user_agent(), "SwitchHosts/4.3.0 (Tauri; switchhosts)");
}

#[test]
fn client_settings_fix_timeout_agent_and_proxy() {
    let s = client_settings(true, "socks5", "10.0.0.1", 1080);
    assert_eq!(s.timeout_secs, 30);
    assert_eq!(DEFAULT_TIMEOUT_SECS, 30);
    assert_eq!(s.user_agent, "SwitchHosts/4.3.0 (Tauri; switchhosts)");
    assert_eq!(s.proxy.as_deref(), Some("socks5://10.0.0.1:1080"));
    assert_eq!(client_settings(false, "http", "10.0.0.1", 1080).proxy, None);
    assert_eq!(client_settings(true, "http", " ", 1080).proxy, None);
    assert_eq!(client_settings(true, "http", "10.0.0.1", 0).proxy, None);
}

fn settings_with_proxy(proxy: &str) -> ClientSettings {
    ClientSettings {
        timeout_secs: 30,
        user_agent: user_agent(),
        proxy: Some(proxy.to_string()),
    }
}

#[test]
fn proxy_urls_that_do_not_parse_are_refused() {
    assert!(build_client_with(&settings_with_proxy("http://127.0.0.1:8080")).is_ok());
    assert!(build_client_with(&settings_with_proxy("127.0.0.1:8080")).is_ok());
    match build_client_with(&settings_with_proxy("http://exa mple:8080")) {
        Err(e @ ClientError::InvalidProxy { .. }) => {
            let text = e.to_text();
            assert!(text.starts_with("invalid proxy http://exa mple:8080: "), "{text}");
        }
        _ => panic!("a space is no host"),
    }
}

#[test]
fn client_with_a_bad_proxy_is_not_built() {
    match build_client(true, "http", "exa mple", 8080) {
        Err(ClientError::InvalidProxy { url, .. }) => assert_eq!(url, "http://exa mple:8080"),
        _ => panic!("bad proxy host"),
    }
}

#[test]
fn client_without_proxy_or_with_a_good_one_is_built() {
    assert!(build_client(false, "http", "exa mple", 8080).is_ok());
    assert!(build_client(true, "http", "127.0.0.1", 8080).is_ok());
    assert!(build_client(true, "http", "  ", 8080).is_ok());
}
