use waybar_config::compositor::compositor_info;
use waybar_config::compositor::detect_from_environment;
use waybar_config::compositor::detect_from_processes;
use waybar_config::compositor::first_line_of;
use waybar_config::compositor::is_compositor_running;
use waybar_config::compositor::probe_candidates;
use waybar_config::compositor::resolve_compositor;
use waybar_config::compositor::session_type;
use waybar_config::compositor::version_from_output;
use waybar_config::compositor::Compositor;
use waybar_config::error::AppError;

#[test]
fn test_compositor_from_str() {
    assert_eq!(Compositor::from("hyprland"), Compositor::Hyprland);
    assert_eq!(Compositor::from("Hyprland"), Compositor::Hyprland);
    assert_eq!(Compositor::from("HYPRLAND"), Compositor::Hyprland);
    assert_eq!(Compositor::from("sway"), Compositor::Sway);
    assert_eq!(Compositor::from("river"), Compositor::River);
    assert_eq!(Compositor::from("dwl"), Compositor::Dwl);
    assert_eq!(Compositor::from("niri"), Compositor::Niri);
    assert_eq!(Compositor::from("unknown"), Compositor::Unknown);
    assert_eq!(Compositor::from("something"), Compositor::Unknown);
}

#[test]
fn from_lowercase_is_exact() {
    assert_eq!(Compositor::from_lowercase("sway"), Compositor::Sway);
    assert_eq!(Compositor::from_lowercase("Sway"), Compositor::Unknown);
    assert_eq!(Compositor::from_lowercase(""), Compositor::Unknown);
}

#[test]
fn names_and_knowledge() {
    assert_eq!(Compositor::Hyprland.as_str(), "hyprland");
    assert_eq!(Compositor::Niri.to_string(), "niri");
    assert_eq!(Compositor::Unknown.as_str(), "unknown");
    assert!(Compositor::Dwl.is_known());
    assert!(!Compositor::Unknown.is_known());
    assert_eq!(Compositor::Hyprland.process_name(), Some("Hyprland"));
    assert_eq!(Compositor::Unknown.process_name(), None);
}

#[test]
fn environment_decides_first() {
    assert_eq!(detect_from_environment(false, Some("sway"), None), Some(Compositor::Unknown));
    assert_eq!(detect_from_environment(true, Some("SWAY"), Some("niri")), Some(Compositor::Sway));
    assert_eq!(detect_from_environment(true, Some("GNOME"), Some("River")), Some(Compositor::River));
    assert_eq!(detect_from_environment(true, Some("GNOME"), None), None);
    assert_eq!(detect_from_environment(true, None, None), None);
}

#[test]
fn processes_are_probed_in_order() {
    let c = probe_candidates();
    assert_eq!(c.len(), 5);
    assert_eq!(c[0], Compositor::Hyprland);
    assert_eq!(detect_from_processes(&vec![Some(false), Some(true), Some(true)]), Compositor::Sway);
    assert_eq!(detect_from_processes(&vec![Some(false), None, Some(true)]), Compositor::Unknown);
    assert_eq!(detect_from_processes(&vec![Some(false); 5]), Compositor::Unknown);
    assert_eq!(detect_from_processes(&vec![]), Compositor::Unknown);
    assert_eq!(resolve_compositor(Some(Compositor::Dwl), &vec![Some(true)]), Compositor::Dwl);
    assert_eq!(resolve_compositor(None, &vec![Some(true)]), Compositor::Hyprland);
}

#[test]
fn info_and_running() {
    let info = compositor_info(Compositor::River, Some("0.3".to_string()), true);
    assert_eq!(info.name, "river");
    assert_eq!(info.version, Some("0.3".to_string()));
    assert_eq!(info.session_type, "wayland");
    assert_eq!(session_type(false), "x11");
    assert!(is_compositor_running("RIVER", Compositor::River));
    assert!(!is_compositor_running("sway", Compositor::River));
}

#[test]
fn version_line_is_read() {
    assert_eq!(first_line_of(""), None);
    assert_eq!(first_line_of("v1\r\nrest"), Some("v1".to_string()));
    assert_eq!(first_line_of("only"), Some("only".to_string()));
    assert_eq!(version_from_output("sway", true, "sway version 1.9\nmore").unwrap(), "sway version 1.9");
    assert_eq!(version_from_output("sway", true, "").unwrap(), "unknown");
    match version_from_output("niri", false, "x") {
        Err(AppError::Internal(m)) => assert_eq!(m, "Failed to get niri version"),
        _ => panic!("expected an internal error"),
    }
}
