//! What the renderer-facing commands compute: the startup data, the
//! default configuration, the data directory, and where a menu event goes.

use vstd::prelude::*;
use crate::json::model::{Json, JsonNumber, JsonValue, NumberView, array_view, group_json_view, object_view};
use crate::text::{concat, starts_with_seq, starts_with_str, string_of};
use crate::version::{VERSION_BUILD, VERSION_MAJOR, VERSION_MINOR, VERSION_PATCH};

verus! {

broadcast use group_json_view;

/// The application version the renderer is told, `[major, minor, patch, build]`
/// (`[4, 3, 0, 6140]`).
pub open spec fn app_version() -> Json {
    Json::Array(
        seq![
            Json::Number(NumberView::PosInt(VERSION_MAJOR)),
            Json::Number(NumberView::PosInt(VERSION_MINOR)),
            Json::Number(NumberView::PosInt(VERSION_PATCH)),
            Json::Number(NumberView::PosInt(VERSION_BUILD)),
        ],
    )
}

/// `{ "list": [], "trashcan": [], "version": [4, 3, 0, 6140] }`.
pub open spec fn basic_data_spec() -> Json {
    Json::Object(
        seq![
            ("list"@, Json::Array(Seq::empty())),
            ("trashcan"@, Json::Array(Seq::empty())),
            ("version"@, app_version()),
        ],
    )
}

/// The data the renderer asks for at startup.
pub fn basic_data() -> (r: JsonValue)
    ensures
        r@ == basic_data_spec(),
{
    let mut version: Vec<JsonValue> = Vec::new();
    version.push(JsonValue::Number(JsonNumber::from_u64(VERSION_MAJOR)));
    version.push(JsonValue::Number(JsonNumber::from_u64(VERSION_MINOR)));
    version.push(JsonValue::Number(JsonNumber::from_u64(VERSION_PATCH)));
    version.push(JsonValue::Number(JsonNumber::from_u64(VERSION_BUILD)));
    assert(array_view(version@) =~= app_version()->Array_0);
    let list: Vec<JsonValue> = Vec::new();
    let trash: Vec<JsonValue> = Vec::new();
    assert(array_view(list@) =~= Seq::<Json>::empty());
    assert(array_view(trash@) =~= Seq::<Json>::empty());
    let mut es: Vec<(String, JsonValue)> = Vec::new();
    es.push((string_of("list"), JsonValue::Array(list)));
    es.push((string_of("trashcan"), JsonValue::Array(trash)));
    es.push((string_of("version"), JsonValue::Array(version)));
    assert(object_view(es@) =~= basic_data_spec()->Object_0);
    JsonValue::Object(es)
}

/// The default configuration, as the renderer's `ConfigsType` has it.
pub open spec fn default_config_spec() -> Json {
    Json::Object(
        seq![
            ("left_panel_show"@, Json::Bool(true)),
            ("left_panel_width"@, Json::Number(NumberView::PosInt(270))),
            ("use_system_window_frame"@, Json::Bool(false)),
            ("write_mode"@, Json::Str("append"@)),
            ("history_limit"@, Json::Number(NumberView::PosInt(50))),
            ("locale"@, Json::Null),
            ("theme"@, Json::Str("light"@)),
            ("choice_mode"@, Json::Number(NumberView::PosInt(2))),
            ("show_title_on_tray"@, Json::Bool(false)),
            ("hide_at_launch"@, Json::Bool(false)),
            ("send_usage_data"@, Json::Bool(false)),
            ("cmd_after_hosts_apply"@, Json::Str(""@)),
            ("remove_duplicate_records"@, Json::Bool(false)),
            ("hide_dock_icon"@, Json::Bool(false)),
            ("use_proxy"@, Json::Bool(false)),
            ("proxy_protocol"@, Json::Str("http"@)),
            ("proxy_host"@, Json::Str(""@)),
            ("proxy_port"@, Json::Number(NumberView::PosInt(0))),
            ("http_api_on"@, Json::Bool(false)),
            ("http_api_only_local"@, Json::Bool(true)),
            ("tray_mini_window"@, Json::Bool(true)),
            ("multi_chose_folder_switch_all"@, Json::Bool(false)),
            ("auto_download_update"@, Json::Bool(true)),
            ("env"@, Json::Str("PROD"@)),
        ],
    )
}

pub fn default_config() -> (r: JsonValue)
    ensures
        r@ == default_config_spec(),
{
    let mut es: Vec<(String, JsonValue)> = Vec::new();
    es.push((string_of("left_panel_show"), JsonValue::Bool(true)));
    es.push((string_of("left_panel_width"), JsonValue::Number(JsonNumber::from_u64(270))));
    es.push((string_of("use_system_window_frame"), JsonValue::Bool(false)));
    es.push((string_of("write_mode"), JsonValue::Str(string_of("append"))));
    es.push((string_of("history_limit"), JsonValue::Number(JsonNumber::from_u64(50))));
    es.push((string_of("locale"), JsonValue::Null));
    es.push((string_of("theme"), JsonValue::Str(string_of("light"))));
    es.push((string_of("choice_mode"), JsonValue::Number(JsonNumber::from_u64(2))));
    es.push((string_of("show_title_on_tray"), JsonValue::Bool(false)));
    es.push((string_of("hide_at_launch"), JsonValue::Bool(false)));
    es.push((string_of("send_usage_data"), JsonValue::Bool(false)));
    es.push((string_of("cmd_after_hosts_apply"), JsonValue::Str(string_of(""))));
    es.push((string_of("remove_duplicate_records"), JsonValue::Bool(false)));
    es.push((string_of("hide_dock_icon"), JsonValue::Bool(false)));
    es.push((string_of("use_proxy"), JsonValue::Bool(false)));
    es.push((string_of("proxy_protocol"), JsonValue::Str(string_of("http"))));
    es.push((string_of("proxy_host"), JsonValue::Str(string_of(""))));
    es.push((string_of("proxy_port"), JsonValue::Number(JsonNumber::from_u64(0))));
    es.push((string_of("http_api_on"), JsonValue::Bool(false)));
    es.push((string_of("http_api_only_local"), JsonValue::Bool(true)));
    es.push((string_of("tray_mini_window"), JsonValue::Bool(true)));
    es.push((string_of("multi_chose_folder_switch_all"), JsonValue::Bool(false)));
    es.push((string_of("auto_download_update"), JsonValue::Bool(true)));
    es.push((string_of("env"), JsonValue::Str(string_of("PROD"))));
    assert(object_view(es@) =~= default_config_spec()->Object_0);
    JsonValue::Object(es)
}

/// `~/.SwitchHosts` under the home directory `home`, or the literal
/// `~/.SwitchHosts` when the home directory is unknown.
pub open spec fn data_dir_spec(home: Option<Seq<char>>) -> Seq<char> {
    match home {
        Some(h) => h + "/.SwitchHosts"@,
        None => "~/.SwitchHosts"@,
    }
}

pub fn data_dir(home: Option<&str>) -> (r: String)
    ensures
        r@ == data_dir_spec(match home {
            Some(h) => Some(h@),
            None => None,
        }),
{
    match home {
        Some(h) => concat(h, "/.SwitchHosts"),
        None => string_of("~/.SwitchHosts"),
    }
}

/// Where a native menu event goes.
#[derive(Debug, Clone, Copy, PartialEq, Eq)]
pub enum MenuRoute {
    /// A tray menu item, handled by the tray.
    Tray,
    /// A popup menu item, sent back to the renderer as the event of the
    /// same name.
    Popup,
    /// Anything else is dropped.
    Ignore,
}

pub open spec fn menu_route_spec(id: Seq<char>) -> MenuRoute {
    if starts_with_seq(id, "tray-"@) {
        MenuRoute::Tray
    } else if starts_with_seq(id, "popup_menu_item_"@) {
        MenuRoute::Popup
    } else {
        MenuRoute::Ignore
    }
}

pub fn route_menu_event(id: &str) -> (r: MenuRoute)
    ensures
        r == menu_route_spec(id@),
{
    if starts_with_str(id, "tray-") {
        MenuRoute::Tray
    } else if starts_with_str(id, "popup_menu_item_") {
        MenuRoute::Popup
    } else {
        MenuRoute::Ignore
    }
}

/// The payload of an event forwarded to the renderer with no arguments:
/// `{ "_args": [] }`.
pub fn empty_args_payload() -> (r: JsonValue)
    ensures
        r@ == Json::Object(seq![("_args"@, Json::Array(Seq::empty()))]),
{
    let args: Vec<JsonValue> = Vec::new();
    assert(array_view(args@) =~= Seq::<Json>::empty());
    let mut es: Vec<(String, JsonValue)> = Vec::new();
    es.push((string_of("_args"), JsonValue::Array(args)));
    assert(object_view(es@) =~= seq![("_args"@, Json::Array(Seq::empty()))]);
    JsonValue::Object(es)
}

} // verus!
