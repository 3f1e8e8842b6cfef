use spotter::config::{UiConfig, WindowPosition};
use spotter::platform::{
    calculate_window_position, first_rejection, focused_workspace, needs_workspace,
    position_fits, sway_position_command, SwayCommandResult, SwayRect, SwayWorkspace,
};

#[test]
fn anchored_positions_use_window_geometry_and_offsets() {
    let workspace = SwayRect {
        x: 0,
        y: 0,
        width: 1920,
        height: 1080,
    };
    assert_eq!(
        calculate_window_position(WindowPosition::TopRight, workspace, 720, 100, 96, 72),
        (1104, 72)
    );
    assert_eq!(
        calculate_window_position(WindowPosition::BottomCenter, workspace, 720, 100, 0, 20),
        (600, 960)
    );
    assert_eq!(
        calculate_window_position(WindowPosition::Custom, workspace, 720, 100, -800, 50),
        (-800, 50)
    );
}

#[test]
fn sway_positioning_targets_only_the_current_process() {
    assert_eq!(
        sway_position_command(42, 720, 96, 72),
        r#"[app_id="dev.spotter.Launcher" title="^Spotter$" pid="42"] floating enable, resize set width 720 px, move absolute position 96 px 72 px"#
    );
}

#[test]
fn negative_coordinates_are_written_with_a_sign() {
    assert_eq!(
        sway_position_command(7, 320, -5, 0),
        r#"[app_id="dev.spotter.Launcher" title="^Spotter$" pid="7"] floating enable, resize set width 320 px, move absolute position -5 px 0 px"#
    );
}

#[test]
fn windows_stay_on_the_workspace() {
    let workspace = SwayRect {
        x: 100,
        y: 50,
        width: 800,
        height: 600,
    };
    assert_eq!(
        calculate_window_position(WindowPosition::BottomRight, workspace, 1000, 100, 10, 10),
        (100, 540)
    );
    assert_eq!(
        calculate_window_position(WindowPosition::Center, workspace, 200, 100, 0, 0),
        (400, 300)
    );
    assert!(position_fits(workspace, 200, 100, 0, 0));
    assert!(!position_fits(
        SwayRect {
            x: i32::MAX,
            y: 0,
            width: 10,
            height: 10
        },
        5,
        5,
        0,
        0
    ));
}

#[test]
fn the_first_focused_workspace_is_used() {
    let rect = |x| SwayRect {
        x,
        y: 0,
        width: 1,
        height: 1,
    };
    let workspaces = [
        SwayWorkspace {
            focused: false,
            rect: rect(1),
        },
        SwayWorkspace {
            focused: true,
            rect: rect(2),
        },
        SwayWorkspace {
            focused: true,
            rect: rect(3),
        },
    ];
    assert_eq!(focused_workspace(&workspaces), Some(rect(2)));
    assert_eq!(focused_workspace(&workspaces[..1]), None);
}

#[test]
fn the_first_rejected_command_reports_its_error() {
    let ok = SwayCommandResult {
        success: true,
        error: None,
    };
    let bad = SwayCommandResult {
        success: false,
        error: Some("no window".to_string()),
    };
    let silent = SwayCommandResult {
        success: false,
        error: None,
    };
    assert_eq!(first_rejection(&[ok.clone()]), None);
    assert_eq!(
        first_rejection(&[ok.clone(), bad.clone(), silent.clone()]),
        Some("no window".to_string())
    );
    assert_eq!(first_rejection(&[silent]), Some("unknown error".to_string()));
}

#[test]
fn custom_positions_need_no_workspace() {
    let mut ui = UiConfig::default();
    assert!(needs_workspace(&ui));
    ui.position = "custom".to_string();
    assert!(!needs_workspace(&ui));
}
