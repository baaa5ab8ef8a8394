use layer_sync::AllowListSource;
use layer_sync::Args;
use layer_sync::LogLevel;
use layer_sync::NodeInfo;
use layer_sync::configure_logger;
use layer_sync::current_application;
use layer_sync::decide;
use layer_sync::find_socket;
use layer_sync::get_white_list;
use layer_sync::is_socket_name;
use layer_sync::should_change_layer;

fn strings(names: &[&str]) -> Vec<String> {
    names.iter().map(|n| n.to_string()).collect()
}

#[test]
fn decide_no_focus_is_no_change() {
    let apps = strings(&["firefox", "alacritty"]);
    let r = decide(&"main".to_string(), &None, &None, &apps);
    assert_eq!(r, None);
    let allow = Some(strings(&["main"]));
    let r = decide(&"main".to_string(), &None, &allow, &apps);
    assert_eq!(r, None);
}

#[test]
fn decide_unlisted_layer_is_no_change() {
    let apps = strings(&["firefox"]);
    let allow = Some(strings(&["main", "browser"]));
    let r = decide(&"manual_override".to_string(), &Some("firefox".to_string()), &allow, &apps);
    assert_eq!(r, None);
}

#[test]
fn decide_recognized_app_is_selected() {
    let apps = strings(&["firefox", "alacritty"]);
    let allow = Some(strings(&["main", "firefox"]));
    let r = decide(&"main".to_string(), &Some("firefox".to_string()), &allow, &apps);
    assert_eq!(r, Some("firefox".to_string()));
    let r = decide(&"main".to_string(), &Some("firefox".to_string()), &None, &apps);
    assert_eq!(r, Some("firefox".to_string()));
}

#[test]
fn decide_unrecognized_app_falls_back_to_main() {
    let apps = strings(&["firefox"]);
    let r = decide(&"firefox".to_string(), &Some("unknown_app".to_string()), &None, &apps);
    assert_eq!(r, Some("main".to_string()));
}

#[test]
fn decide_twice_gives_the_same_answer() {
    let apps = strings(&["firefox"]);
    let allow = Some(strings(&["main"]));
    let current = "main".to_string();
    let focused = Some("firefox".to_string());
    let first = decide(&current, &focused, &allow, &apps);
    let second = decide(&current, &focused, &allow, &apps);
    assert_eq!(first, second);
    assert_eq!(first, Some("firefox".to_string()));
}

#[test]
fn should_change_layer_is_membership() {
    let apps = strings(&["firefox", "alacritty"]);
    assert!(should_change_layer(&"firefox".to_string(), &apps));
    assert!(!should_change_layer(&"unknown_app".to_string(), &apps));
    assert!(!should_change_layer(&"firefox".to_string(), &strings(&[])));
}

#[test]
fn white_list_unconfigured_is_unrestricted() {
    assert_eq!(get_white_list(AllowListSource::Unconfigured), None);
}

#[test]
fn white_list_unreadable_is_unrestricted() {
    assert_eq!(get_white_list(AllowListSource::Unreadable), None);
}

#[test]
fn white_list_file_lines_are_the_set() {
    let lines = strings(&["main", "browser"]);
    let r = get_white_list(AllowListSource::FileLines(lines.clone()));
    assert_eq!(r, Some(lines));
}

#[test]
fn white_list_dir_entries_are_the_set() {
    let names = strings(&["firefox", "alacritty"]);
    let r = get_white_list(AllowListSource::DirEntries(names.clone()));
    assert_eq!(r, Some(names));
}

fn args_with(debug: bool, trace: bool) -> Args {
    Args { port: 7070, debug, trace, white_list_file: None }
}

#[test]
fn log_level_default_is_info() {
    assert_eq!(configure_logger(&args_with(false, false)), LogLevel::Info);
}

#[test]
fn log_level_debug_flag_is_debug() {
    assert_eq!(configure_logger(&args_with(true, false)), LogLevel::Debug);
}

#[test]
fn log_level_trace_wins_over_debug() {
    assert_eq!(configure_logger(&args_with(false, true)), LogLevel::Trace);
    assert_eq!(configure_logger(&args_with(true, true)), LogLevel::Trace);
}

#[test]
fn default_args_use_the_default_port() {
    let args = Args::default();
    assert_eq!(args.port, 7070);
    assert!(!args.debug);
    assert!(!args.trace);
    assert_eq!(args.white_list_file, None);
}

fn node(focused: bool, app_id: Option<&str>, class: Option<&str>) -> NodeInfo {
    NodeInfo {
        focused,
        app_id: app_id.map(|a| a.to_string()),
        window_class: class.map(|c| c.to_string()),
    }
}

#[test]
fn focused_node_app_id_is_preferred() {
    let nodes = vec![
        node(false, Some("emacs"), None),
        node(true, Some("firefox"), Some("Firefox")),
        node(true, Some("later"), None),
    ];
    assert_eq!(current_application(&nodes), Some("firefox".to_string()));
}

#[test]
fn focused_node_falls_back_to_window_class() {
    let nodes = vec![node(false, None, Some("Emacs")), node(true, None, Some("XTerm"))];
    assert_eq!(current_application(&nodes), Some("XTerm".to_string()));
}

#[test]
fn no_focused_node_is_no_application() {
    let nodes = vec![node(false, Some("emacs"), None), node(false, None, Some("XTerm"))];
    assert_eq!(current_application(&nodes), None);
    assert_eq!(current_application(&Vec::new()), None);
}

#[test]
fn focused_node_without_identifiers_is_no_application() {
    let nodes = vec![node(true, None, None), node(false, Some("emacs"), None)];
    assert_eq!(current_application(&nodes), None);
}

#[test]
fn socket_names_need_the_prefix() {
    assert!(is_socket_name(&"sway-ipc.1000.42.sock".to_string()));
    assert!(is_socket_name(&"sway-ipc.".to_string()));
    assert!(!is_socket_name(&"sway-ipc".to_string()));
    assert!(!is_socket_name(&"wayland-1".to_string()));
    assert!(!is_socket_name(&"".to_string()));
}

#[test]
fn find_socket_takes_the_first_match() {
    let entries = strings(&["bus", "wayland-1", "sway-ipc.1000.7.sock", "sway-ipc.1000.8.sock"]);
    assert_eq!(find_socket(&entries), Some("sway-ipc.1000.7.sock".to_string()));
    assert_eq!(find_socket(&strings(&["bus", "wayland-1"])), None);
}
