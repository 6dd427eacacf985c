use nova::image::{frame_to_image, ColorKind, DepthKind, ImageError};
use nova::input::{apply_deadzone, ButtonState, GamepadAxis, GamepadButton, GamepadStick, Input, Key, MouseButton};
use nova::scaling::fit_canvas;

#[test]
fn button_goes_down_once() {
    let mut b = ButtonState::new();
    b.set_down(3);
    assert!(b.is_down(3) && b.is_pressed(3) && !b.is_up(3));
    b.clear();
    assert!(b.is_down(3) && !b.is_pressed(3));
    b.set_down(3);
    assert!(!b.is_pressed(3));
    b.set_up(3);
    assert!(b.is_up(3) && b.is_released(3));
    b.set_up(3);
    b.clear();
    assert!(!b.is_released(3));
}

#[test]
fn keys_and_mouse_buttons_are_tracked() {
    let mut input: Input<&str> = Input::new();
    input.key_down(Key::A);
    input.mouse_button_down(MouseButton::Left);
    assert!(input.is_key_down(Key::A) && input.is_key_pressed(Key::A));
    assert!(input.is_key_up(Key::B));
    assert!(input.is_mouse_button_pressed(MouseButton::Left));
    assert!(!input.is_mouse_button_down(MouseButton::Right));
    input.clear();
    input.key_up(Key::A);
    input.mouse_button_up(MouseButton::Left);
    assert!(input.is_key_released(Key::A) && !input.is_key_pressed(Key::A));
    assert!(input.is_mouse_button_released(MouseButton::Left));
    assert!(input.is_mouse_button_up(MouseButton::Left));
}

#[test]
fn gamepads_take_the_first_free_slot() {
    let mut input: Input<&str> = Input::new();
    assert_eq!(input.add_gamepad(10, "first"), 0);
    assert_eq!(input.add_gamepad(11, "second"), 1);
    input.remove_gamepad(10);
    assert_eq!(input.gamepad_slot(10), None);
    assert_eq!(input.add_gamepad(12, "third"), 0);
    assert_eq!(input.gamepad_slot(11), Some(1));
    input.gamepad_button_down(11, GamepadButton::A);
    assert!(input.is_gamepad_button_down(1, GamepadButton::A));
    assert!(input.is_gamepad_button_pressed(1, GamepadButton::A));
    assert!(input.is_gamepad_button_up(0, GamepadButton::A));
    input.gamepad_button_up(11, GamepadButton::A);
    assert!(input.is_gamepad_button_released(1, GamepadButton::A));
    input.gamepad_button_down(99, GamepadButton::B);
    assert!(!input.is_gamepad_button_down(0, GamepadButton::B));
}

#[test]
fn codes_tell_buttons_apart() {
    assert_ne!(Key::A.code(), Key::B.code());
    assert_eq!(Key::Space.code(), 0);
    assert_ne!(GamepadAxis::LeftStickX.code(), GamepadAxis::LeftStickY.code());
    assert_eq!(GamepadStick::RightStick.to_axes(), (GamepadAxis::RightStickX, GamepadAxis::RightStickY));
}

#[test]
fn deadzone_clears_small_readings() {
    assert_eq!(apply_deadzone(6553), 0);
    assert_eq!(apply_deadzone(-6553), 0);
    assert_eq!(apply_deadzone(6554), 6554);
    assert_eq!(apply_deadzone(-32768), -32768);
}

#[test]
fn canvas_scales_by_whole_factors_and_centers() {
    assert_eq!(fit_canvas(320, 180, 1280, 720), (0, 0, 4));
    assert_eq!(fit_canvas(320, 180, 1300, 800), (10, 40, 4));
    assert_eq!(fit_canvas(320, 180, 100, 100), (-110, -40, 1));
    assert_eq!(fit_canvas(320, 180, 1000, 200), (340, 10, 1));
}

#[test]
fn frames_must_be_eight_bit_rgba() {
    let px = vec![10, 20, 30, 128];
    assert_eq!(
        frame_to_image(1, 1, ColorKind::Rgb, DepthKind::Eight, px.clone(), false).err(),
        Some(ImageError::UnsupportedFormat)
    );
    assert_eq!(
        frame_to_image(1, 1, ColorKind::Rgba, DepthKind::Sixteen, px.clone(), false).err(),
        Some(ImageError::UnsupportedFormat)
    );
    assert_eq!(
        frame_to_image(2, 1, ColorKind::Rgba, DepthKind::Eight, px.clone(), false).err(),
        Some(ImageError::SizeMismatch)
    );
    let plain = frame_to_image(1, 1, ColorKind::Rgba, DepthKind::Eight, px.clone(), false).unwrap();
    assert_eq!(plain.pixels, px);
    let pre = frame_to_image(1, 1, ColorKind::Rgba, DepthKind::Eight, px, true).unwrap();
    assert_eq!(pre.pixels, vec![5, 10, 15, 128]);
    assert_eq!((pre.width, pre.height), (1, 1));
}
