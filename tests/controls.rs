use scop::controls::{Control, InputEvent, TransformState, ViewerInput};

#[test]
fn new_session_is_at_rest() {
    let v = ViewerInput::new(800, 600);
    assert_eq!(v.transform, TransformState::new());
    assert_eq!(v.transform.scale_x, 0);
    assert!(!v.transform.display_texture);
    assert!(!v.should_close);
    assert!(!v.is_held(Control::RotateXPlus));
    assert_eq!((v.width, v.height), (800, 600));
}

#[test]
fn held_controls_step_every_frame() {
    let mut v = ViewerInput::new(800, 600);
    v.apply_event(InputEvent::Press(Control::RotateXPlus));
    v.apply_event(InputEvent::Press(Control::MoveYMinus));
    v.apply_event(InputEvent::Press(Control::ScaleZPlus));
    v.apply_held();
    v.apply_held();
    v.apply_held();
    assert_eq!(v.transform.orientation_x, 3);
    assert_eq!(v.transform.position_y, -3);
    assert_eq!(v.transform.scale_z, 3);
    assert_eq!(v.transform.orientation_y, 0);
    v.apply_event(InputEvent::Release(Control::RotateXPlus));
    v.apply_held();
    assert_eq!(v.transform.orientation_x, 3);
    assert_eq!(v.transform.position_y, -4);
}

#[test]
fn opposite_controls_cancel() {
    let mut v = ViewerInput::new(800, 600);
    v.apply_event(InputEvent::Press(Control::RotateZPlus));
    v.apply_event(InputEvent::Press(Control::RotateZMinus));
    v.apply_held();
    assert_eq!(v.transform.orientation_z, 0);
}

#[test]
fn scale_is_not_clamped_at_zero() {
    let mut v = ViewerInput::new(800, 600);
    v.apply_event(InputEvent::Press(Control::ScaleXMinus));
    for _ in 0..50 {
        v.apply_held();
    }
    assert_eq!(v.transform.scale_x, -50);
}

#[test]
fn steps_stop_at_the_integer_limit() {
    let mut v = ViewerInput::new(800, 600);
    v.transform.position_x = i64::MAX;
    v.transform.position_z = i64::MIN;
    v.apply_event(InputEvent::Press(Control::MoveXPlus));
    v.apply_event(InputEvent::Press(Control::MoveZMinus));
    v.apply_held();
    assert_eq!(v.transform.position_x, i64::MAX);
    assert_eq!(v.transform.position_z, i64::MIN);
}

#[test]
fn texture_toggle_flips_on_press_only() {
    let mut v = ViewerInput::new(800, 600);
    v.apply_event(InputEvent::Press(Control::ToggleTexture));
    assert!(v.transform.display_texture);
    v.apply_event(InputEvent::Release(Control::ToggleTexture));
    assert!(v.transform.display_texture);
    v.apply_held();
    assert!(v.transform.display_texture);
    v.apply_event(InputEvent::Press(Control::ToggleTexture));
    assert!(!v.transform.display_texture);
}

#[test]
fn exit_press_ends_session() {
    let mut v = ViewerInput::new(800, 600);
    v.apply_event(InputEvent::Press(Control::MoveXPlus));
    assert!(!v.should_close);
    v.apply_event(InputEvent::Press(Control::Exit));
    assert!(v.should_close);
    v.apply_event(InputEvent::Release(Control::Exit));
    assert!(v.should_close);
}

#[test]
fn resize_with_zero_height_keeps_last_size() {
    let mut v = ViewerInput::new(800, 600);
    v.apply_event(InputEvent::Resize(1024, 768));
    assert_eq!((v.width, v.height), (1024, 768));
    v.apply_event(InputEvent::Resize(300, 0));
    assert_eq!((v.width, v.height), (1024, 768));
}
