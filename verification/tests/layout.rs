use hyprland_identity::layout::{
    layout_from_monitors, logical_output_size_for_capture, logical_output_size_from_monitors,
    monitor_physical_and_logical_size, output_layout,
};
use hyprland_identity::records::{Monitor, OutputLayout, Workspace};
use hyprland_identity::refusal::{Query, Refusal};

fn monitor(x: i32, y: i32, width: u32, height: u32, scale: f64) -> Monitor {
    let scaled = |length: u32| (f64::from(length) / scale).round() as u32;
    Monitor {
        active_workspace: Workspace { id: 0 },
        x,
        y,
        width,
        height,
        scaled: (scale.is_finite() && scale > 0.0).then_some((scaled(width), scaled(height))),
        transform: 0,
    }
}

#[test]
fn output_layout_uses_logical_scaled_bounds() {
    let monitors = [
        monitor(384, 288, 1920, 1080, 1.25),
        monitor(1920, 0, 3840, 2160, 1.5),
    ];
    assert_eq!(
        layout_from_monitors(&monitors),
        Some(OutputLayout {
            x: 384,
            y: 0,
            width: 4096,
            height: 1440,
        })
    );
}

#[test]
fn output_layout_translates_negative_and_rotated_outputs() {
    let mut rotated = monitor(-1080, -200, 1920, 1080, 1.0);
    rotated.transform = 1;
    assert_eq!(
        layout_from_monitors(&[rotated, monitor(0, 0, 2560, 1440, 1.0)]),
        Some(OutputLayout {
            x: -1080,
            y: -200,
            width: 3640,
            height: 1920,
        })
    );
}

#[test]
fn physical_capture_size_maps_to_one_logical_output() {
    let monitors = [
        monitor(384, 288, 1920, 1080, 1.25),
        monitor(1920, 0, 3840, 2160, 1.5),
    ];
    assert_eq!(
        logical_output_size_from_monitors(&monitors, 1920, 1080),
        Some((1536, 864))
    );
    assert_eq!(
        logical_output_size_from_monitors(&monitors, 3840, 2160),
        Some((2560, 1440))
    );
    assert_eq!(
        logical_output_size_from_monitors(
            &[
                monitor(0, 0, 1920, 1080, 1.0),
                monitor(1920, 0, 1920, 1080, 1.0)
            ],
            1920,
            1080,
        ),
        None
    );
}

#[test]
fn unusable_outputs_do_not_count() {
    let unusable = [
        monitor(0, 0, 0, 1080, 1.0),
        monitor(0, 0, 1920, 0, 1.0),
        monitor(0, 0, 1920, 1080, 0.0),
        monitor(0, 0, 1920, 1080, -1.0),
        monitor(0, 0, 1920, 1080, f64::NAN),
        monitor(0, 0, 1920, 1080, f64::INFINITY),
        monitor(0, 0, 1, 1080, 4.0),
    ];
    for output in &unusable {
        assert_eq!(monitor_physical_and_logical_size(output), None);
    }
    assert_eq!(layout_from_monitors(&unusable), None);
    assert_eq!(layout_from_monitors(&[]), None);
    assert_eq!(logical_output_size_from_monitors(&unusable, 1920, 1080), None);
    assert_eq!(
        output_layout(true, Ok(unusable.to_vec())).unwrap_err().message(),
        "Hyprland reported no valid monitor layout"
    );
}

#[test]
fn layout_keeps_its_limits() {
    let wide = [
        monitor(i32::MIN, 0, 1, 1, 1.0),
        monitor(i32::MAX, 0, 1, 1, 1.0),
    ];
    assert_eq!(layout_from_monitors(&wide), None);
    let widest = [
        monitor(i32::MIN, 0, 1, 1, 1.0),
        monitor(i32::MAX - 1, 0, 1, 1, 1.0),
    ];
    assert_eq!(layout_from_monitors(&widest).unwrap().width, u32::MAX);
}

#[test]
fn layout_ignores_order_and_repetition() {
    let left = monitor(-100, 50, 100, 200, 1.0);
    let right = monitor(0, 0, 300, 100, 2.0);
    let expected = Some(OutputLayout { x: -100, y: 0, width: 250, height: 250 });
    assert_eq!(layout_from_monitors(&[left, right]), expected);
    assert_eq!(layout_from_monitors(&[right, left, right]), expected);
}

#[test]
fn layout_requests_depend_on_the_session() {
    let monitors = || Ok(vec![monitor(5, 6, 1920, 1080, 1.0)]);
    assert_eq!(output_layout(false, monitors()), Err(Refusal::NotHyprlandSession));
    assert_eq!(
        output_layout(true, Err(Refusal::QueryFailed(Query::Monitors))),
        Err(Refusal::QueryFailed(Query::Monitors))
    );
    assert_eq!(
        output_layout(true, monitors()),
        Ok(OutputLayout { x: 5, y: 6, width: 1920, height: 1080 })
    );
    assert_eq!(logical_output_size_for_capture(true, monitors(), 1920, 1080), Some((1920, 1080)));
    assert_eq!(logical_output_size_for_capture(false, monitors(), 1920, 1080), None);
    assert_eq!(
        logical_output_size_for_capture(true, Err(Refusal::QueryFailed(Query::Monitors)), 1, 1),
        None
    );
}

#[test]
fn rotated_outputs_are_captured_as_they_are_shown() {
    let mut rotated = monitor(0, 0, 3840, 2160, 1.5);
    rotated.transform = 3;
    assert_eq!(
        monitor_physical_and_logical_size(&rotated),
        Some(((2160, 3840), (1440, 2560)))
    );
    assert_eq!(logical_output_size_from_monitors(&[rotated], 3840, 2160), None);
    assert_eq!(logical_output_size_from_monitors(&[rotated], 2160, 3840), Some((1440, 2560)));
}
