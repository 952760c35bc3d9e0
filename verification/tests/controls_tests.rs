use camera_kelp::controls::{
    Controls, FrameKeys, FrameStart, WindKeys, DEFAULT_NEURAL_GAIN, DEFAULT_WIND,
    MAX_NEURAL_GAIN, MAX_WIND,
};

fn idle() -> FrameKeys {
    FrameKeys {
        window_open: true,
        escape_down: false,
        key1_pressed: false,
        key2_pressed: false,
        key3_pressed: false,
        key4_pressed: false,
        key5_pressed: false,
        key6_pressed: false,
        key7_pressed: false,
        key8_pressed: false,
        grid_pressed: false,
        audio_pressed: false,
        neural_pressed: false,
        gain_down_pressed: false,
        gain_up_pressed: false,
        left_mouse_down: false,
    }
}

fn no_wind() -> WindKeys {
    WindKeys { up_down: false, down_down: false, reset_pressed: false }
}

#[test]
fn start_up_settings() {
    let c = Controls::new(true);
    assert_eq!(c.camera_mode, 0);
    assert_eq!(c.warp_pattern, 0);
    assert_eq!(c.show_grid, 0);
    assert!(c.audio_enabled);
    assert_eq!(c.neural_enabled, 1);
    assert_eq!(c.neural_gain, DEFAULT_NEURAL_GAIN);
    assert_eq!(c.wind_strength, DEFAULT_WIND);
    assert!(!c.spawn_armed);
}

#[test]
fn escape_quits_without_changes() {
    let mut c = Controls::new(false);
    let before = c;
    let mut k = idle();
    k.escape_down = true;
    k.key3_pressed = true;
    k.grid_pressed = true;
    assert_eq!(c.begin_frame(&k), FrameStart { quit: true, spawn_at_mouse: false });
    assert_eq!(c, before);
    let mut closed = idle();
    closed.window_open = false;
    assert!(c.begin_frame(&closed).quit);
}

#[test]
fn number_keys_pick_mode_and_warp() {
    let mut c = Controls::new(false);
    let mut k = idle();
    k.key2_pressed = true;
    k.key7_pressed = true;
    c.begin_frame(&k);
    assert_eq!((c.camera_mode, c.warp_pattern), (1, 3));
    let mut k = idle();
    k.key1_pressed = true;
    k.key3_pressed = true;
    k.key4_pressed = true;
    k.key8_pressed = true;
    c.begin_frame(&k);
    assert_eq!((c.camera_mode, c.warp_pattern), (2, 4));
}

#[test]
fn toggles_flip_and_flip_back() {
    let mut c = Controls::new(true);
    let mut k = idle();
    k.grid_pressed = true;
    k.audio_pressed = true;
    k.neural_pressed = true;
    c.begin_frame(&k);
    assert_eq!((c.show_grid, c.audio_enabled, c.neural_enabled), (1, false, 0));
    c.begin_frame(&k);
    assert_eq!((c.show_grid, c.audio_enabled, c.neural_enabled), (0, true, 1));
}

#[test]
fn gain_steps_and_clamps() {
    let mut c = Controls::new(false);
    let mut down = idle();
    down.gain_down_pressed = true;
    let mut up = idle();
    up.gain_up_pressed = true;
    c.begin_frame(&down);
    assert_eq!(c.neural_gain, 60);
    c.begin_frame(&up);
    assert_eq!(c.neural_gain, 65);
    for _ in 0..40 {
        c.begin_frame(&down);
    }
    assert_eq!(c.neural_gain, 0);
    for _ in 0..60 {
        c.begin_frame(&up);
    }
    assert_eq!(c.neural_gain, MAX_NEURAL_GAIN);
    let mut both = idle();
    both.gain_down_pressed = true;
    both.gain_up_pressed = true;
    c.begin_frame(&both);
    assert_eq!(c.neural_gain, MAX_NEURAL_GAIN);
}

#[test]
fn one_portal_per_click() {
    let mut c = Controls::new(false);
    let mut held = idle();
    held.left_mouse_down = true;
    assert!(c.begin_frame(&held).spawn_at_mouse);
    assert!(!c.begin_frame(&held).spawn_at_mouse);
    assert!(!c.begin_frame(&held).spawn_at_mouse);
    assert!(!c.begin_frame(&idle()).spawn_at_mouse);
    assert!(c.begin_frame(&held).spawn_at_mouse);
}

#[test]
fn wind_steps_clamps_and_resets() {
    let mut c = Controls::new(false);
    let up = WindKeys { up_down: true, ..no_wind() };
    let down = WindKeys { down_down: true, ..no_wind() };
    assert!(!c.end_frame(&up));
    assert_eq!(c.wind_strength, 102);
    for _ in 0..200 {
        c.end_frame(&up);
    }
    assert_eq!(c.wind_strength, MAX_WIND);
    for _ in 0..200 {
        c.end_frame(&down);
    }
    assert_eq!(c.wind_strength, 0);
    let reset = WindKeys { up_down: true, down_down: false, reset_pressed: true };
    assert!(c.end_frame(&reset));
    assert_eq!(c.wind_strength, DEFAULT_WIND);
    c.end_frame(&no_wind());
    assert_eq!(c.wind_strength, DEFAULT_WIND);
}

#[test]
fn up_and_down_held_together_cancel() {
    let mut c = Controls::new(false);
    let both = WindKeys { up_down: true, down_down: true, reset_pressed: false };
    c.end_frame(&both);
    assert_eq!(c.wind_strength, DEFAULT_WIND);
}
