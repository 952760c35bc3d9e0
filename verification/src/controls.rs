//! The keyboard and mouse controls of the demo as a state machine: each
//! frame the loop hands over which keys are pressed and gets back the new
//! settings and what to do (quit, spawn a portal, reset the clock).
//!
//! The neural gain and the wind strength are kept in hundredths.

use vstd::prelude::*;

verus! {

/// Number of camera modes (keys 1-3).
pub const CAMERA_MODES: u32 = 3;

/// Number of warp patterns (keys 4-8).
pub const WARP_PATTERNS: u32 = 5;

/// Neural gain at start, in hundredths.
pub const DEFAULT_NEURAL_GAIN: u32 = 65;

/// Step of one press of `[` or `]`, in hundredths.
pub const NEURAL_GAIN_STEP: u32 = 5;

/// Highest neural gain, in hundredths.
pub const MAX_NEURAL_GAIN: u32 = 200;

/// Wind strength at start and after a reset, in hundredths.
pub const DEFAULT_WIND: u32 = 100;

/// Change of wind strength per frame while UP or DOWN is held, in hundredths.
pub const WIND_STEP: u32 = 2;

/// Highest wind strength, in hundredths.
pub const MAX_WIND: u32 = 300;

/// The settings the user steers.
#[derive(Clone, Copy, Debug, PartialEq, Eq, Structural)]
pub struct Controls {
    /// 0 centred and flipped, 1 zoomed out, 2 tight crop.
    pub camera_mode: u32,
    /// 0 sine ripples, 1 spiral vortex, 2 spherical bulge, 3 checkerboard
    /// twist, 4 hyperbolic flow.
    pub warp_pattern: u32,
    /// 1 when the grid overlay is shown, else 0.
    pub show_grid: u32,
    /// Whether the audio spectrum drives the effects.
    pub audio_enabled: bool,
    /// 1 when the neural overlay is on, else 0.
    pub neural_enabled: u32,
    /// Neural gain in hundredths, 0 to 2.00.
    pub neural_gain: u32,
    /// Wind strength in hundredths, 0 to 3.00.
    pub wind_strength: u32,
    /// Set while the left mouse button stays down after spawning a portal.
    pub spawn_armed: bool,
}

/// What was pressed at the start of a frame (`*_pressed` fields are fresh
/// presses, `left_mouse_down` the button's current state).
#[derive(Clone, Copy, Debug)]
pub struct FrameKeys {
    pub window_open: bool,
    pub escape_down: bool,
    pub key1_pressed: bool,
    pub key2_pressed: bool,
    pub key3_pressed: bool,
    pub key4_pressed: bool,
    pub key5_pressed: bool,
    pub key6_pressed: bool,
    pub key7_pressed: bool,
    pub key8_pressed: bool,
    pub grid_pressed: bool,
    pub audio_pressed: bool,
    pub neural_pressed: bool,
    pub gain_down_pressed: bool,
    pub gain_up_pressed: bool,
    pub left_mouse_down: bool,
}

/// What was pressed at the end of a frame: UP and DOWN held, R pressed.
#[derive(Clone, Copy, Debug)]
pub struct WindKeys {
    pub up_down: bool,
    pub down_down: bool,
    pub reset_pressed: bool,
}

/// What the frame loop has to do after the start-of-frame controls.
#[derive(Clone, Copy, Debug, PartialEq, Eq, Structural)]
pub struct FrameStart {
    /// Leave the loop: the window closed or Escape is down.
    pub quit: bool,
    /// Spawn a free portal under the mouse.
    pub spawn_at_mouse: bool,
}

/// Settings within their ranges.
pub open spec fn controls_wf(c: Controls) -> bool {
    &&& c.camera_mode < CAMERA_MODES
    &&& c.warp_pattern < WARP_PATTERNS
    &&& c.show_grid <= 1
    &&& c.neural_enabled <= 1
    &&& c.neural_gain <= MAX_NEURAL_GAIN
    &&& c.wind_strength <= MAX_WIND
}

/// Keys 1-3 pick the camera mode; the highest key pressed wins.
pub open spec fn next_camera_mode(mode: u32, k: FrameKeys) -> u32 {
    if k.key3_pressed {
        2
    } else if k.key2_pressed {
        1
    } else if k.key1_pressed {
        0
    } else {
        mode
    }
}

/// Keys 4-8 pick the warp pattern; the highest key pressed wins.
pub open spec fn next_warp(warp: u32, k: FrameKeys) -> u32 {
    if k.key8_pressed {
        4
    } else if k.key7_pressed {
        3
    } else if k.key6_pressed {
        2
    } else if k.key5_pressed {
        1
    } else if k.key4_pressed {
        0
    } else {
        warp
    }
}

/// A 0/1 flag flipped when `pressed`.
pub open spec fn toggled(flag: u32, pressed: bool) -> u32 {
    if pressed {
        if flag == 0 {
            1
        } else {
            0
        }
    } else {
        flag
    }
}

/// `[` lowers the gain by a step (not below 0), then `]` raises it by a
/// step (not above the maximum).
pub open spec fn next_gain(gain: u32, k: FrameKeys) -> u32 {
    let lowered = if k.gain_down_pressed {
        if gain >= NEURAL_GAIN_STEP {
            (gain - NEURAL_GAIN_STEP) as u32
        } else {
            0
        }
    } else {
        gain
    };
    if k.gain_up_pressed {
        if lowered + NEURAL_GAIN_STEP < MAX_NEURAL_GAIN {
            (lowered + NEURAL_GAIN_STEP) as u32
        } else {
            MAX_NEURAL_GAIN
        }
    } else {
        lowered
    }
}

/// Settings and actions after the start-of-frame keys. A quitting frame
/// changes nothing. A portal is spawned on the frame the left button goes
/// down, and not again until it has been released.
pub open spec fn frame_start(c: Controls, k: FrameKeys) -> (Controls, FrameStart) {
    if !k.window_open || k.escape_down {
        (c, FrameStart { quit: true, spawn_at_mouse: false })
    } else {
        (
            Controls {
                camera_mode: next_camera_mode(c.camera_mode, k),
                warp_pattern: next_warp(c.warp_pattern, k),
                show_grid: toggled(c.show_grid, k.grid_pressed),
                audio_enabled: if k.audio_pressed {
                    !c.audio_enabled
                } else {
                    c.audio_enabled
                },
                neural_enabled: toggled(c.neural_enabled, k.neural_pressed),
                neural_gain: next_gain(c.neural_gain, k),
                wind_strength: c.wind_strength,
                spawn_armed: k.left_mouse_down,
            },
            FrameStart { quit: false, spawn_at_mouse: k.left_mouse_down && !c.spawn_armed },
        )
    }
}

/// UP raises the wind by a step (not above the maximum), then DOWN lowers
/// it (not below 0), then R puts it back to the default.
pub open spec fn next_wind(wind: u32, k: WindKeys) -> u32 {
    let raised = if k.up_down {
        if wind + WIND_STEP < MAX_WIND {
            (wind + WIND_STEP) as u32
        } else {
            MAX_WIND
        }
    } else {
        wind
    };
    let lowered = if k.down_down {
        if raised >= WIND_STEP {
            (raised - WIND_STEP) as u32
        } else {
            0
        }
    } else {
        raised
    };
    if k.reset_pressed {
        DEFAULT_WIND
    } else {
        lowered
    }
}

fn camera_mode_after(mode: u32, keys: &FrameKeys) -> (m: u32)
    ensures
        m == next_camera_mode(mode, *keys),
{
    let mut mode = mode;
    if keys.key1_pressed {
        mode = 0;
    }
    if keys.key2_pressed {
        mode = 1;
    }
    if keys.key3_pressed {
        mode = 2;
    }
    mode
}

fn warp_after(warp: u32, keys: &FrameKeys) -> (w: u32)
    ensures
        w == next_warp(warp, *keys),
{
    let mut warp = warp;
    if keys.key4_pressed {
        warp = 0;
    }
    if keys.key5_pressed {
        warp = 1;
    }
    if keys.key6_pressed {
        warp = 2;
    }
    if keys.key7_pressed {
        warp = 3;
    }
    if keys.key8_pressed {
        warp = 4;
    }
    warp
}

fn toggle(flag: u32, pressed: bool) -> (f: u32)
    ensures
        f == toggled(flag, pressed),
{
    if pressed {
        if flag == 0 {
            1
        } else {
            0
        }
    } else {
        flag
    }
}

fn gain_after(gain: u32, keys: &FrameKeys) -> (g: u32)
    ensures
        g == next_gain(gain, *keys),
{
    let mut gain = gain;
    if keys.gain_down_pressed {
        gain = if gain >= NEURAL_GAIN_STEP {
            gain - NEURAL_GAIN_STEP
        } else {
            0
        };
    }
    if keys.gain_up_pressed {
        gain = if gain < MAX_NEURAL_GAIN - NEURAL_GAIN_STEP {
            gain + NEURAL_GAIN_STEP
        } else {
            MAX_NEURAL_GAIN
        };
    }
    gain
}

impl Controls {
    /// The settings at start-up: camera mode 0, sine ripples, no grid,
    /// neural overlay on at gain 0.65, wind 1.00, audio as given.
    pub fn new(audio_enabled: bool) -> (c: Self)
        ensures
            controls_wf(c),
            c == (Controls {
                camera_mode: 0,
                warp_pattern: 0,
                show_grid: 0,
                audio_enabled,
                neural_enabled: 1,
                neural_gain: DEFAULT_NEURAL_GAIN,
                wind_strength: DEFAULT_WIND,
                spawn_armed: false,
            }),
    {
        Controls {
            camera_mode: 0,
            warp_pattern: 0,
            show_grid: 0,
            audio_enabled,
            neural_enabled: 1,
            neural_gain: DEFAULT_NEURAL_GAIN,
            wind_strength: DEFAULT_WIND,
            spawn_armed: false,
        }
    }

    /// Applies the start-of-frame keys, in the order the loop reads them:
    /// quit check, camera mode, warp, grid, audio, neural overlay, gain,
    /// left mouse button.
    pub fn begin_frame(&mut self, keys: &FrameKeys) -> (act: FrameStart)
        ensures
            (*final(self), act) == frame_start(*old(self), *keys),
            controls_wf(*old(self)) ==> controls_wf(*final(self)),
    {
        if !keys.window_open || keys.escape_down {
            return FrameStart { quit: true, spawn_at_mouse: false };
        }
        self.camera_mode = camera_mode_after(self.camera_mode, keys);
        self.warp_pattern = warp_after(self.warp_pattern, keys);
        self.show_grid = toggle(self.show_grid, keys.grid_pressed);
        if keys.audio_pressed {
            self.audio_enabled = !self.audio_enabled;
        }
        self.neural_enabled = toggle(self.neural_enabled, keys.neural_pressed);
        self.neural_gain = gain_after(self.neural_gain, keys);
        let left_down = keys.left_mouse_down;
        let mut spawn_at_mouse = false;
        if left_down && !self.spawn_armed {
            spawn_at_mouse = true;
            self.spawn_armed = true;
        }
        if !left_down {
            self.spawn_armed = false;
        }
        FrameStart { quit: false, spawn_at_mouse }
    }

    /// Applies the end-of-frame keys: UP and DOWN step the wind, R resets
    /// it. Returns whether the animation clock is to be reset.
    pub fn end_frame(&mut self, keys: &WindKeys) -> (reset_clock: bool)
        ensures
            *final(self) == (Controls { wind_strength: next_wind(old(self).wind_strength, *keys), ..*old(self) }),
            reset_clock == keys.reset_pressed,
            controls_wf(*old(self)) ==> controls_wf(*final(self)),
    {
        if keys.up_down {
            self.wind_strength = if self.wind_strength < MAX_WIND - WIND_STEP {
                self.wind_strength + WIND_STEP
            } else {
                MAX_WIND
            };
        }
        if keys.down_down {
            self.wind_strength = if self.wind_strength >= WIND_STEP {
                self.wind_strength - WIND_STEP
            } else {
                0
            };
        }
        if keys.reset_pressed {
            self.wind_strength = DEFAULT_WIND;
        }
        keys.reset_pressed
    }
}

/// What each start-of-frame key does, field by field, on a frame that does
/// not quit:
/// - camera keys 1, 2, 3 select modes 0, 1, 2, the highest key pressed
///   winning, and no camera key keeps the mode;
/// - warp keys 4 to 8 select patterns 0 to 4 the same way;
/// - G flips the grid flag and only G changes it; A flips audio and only A
///   changes it; N flips the neural overlay and only N changes it;
/// - `[` alone lowers the gain one step (not below 0), `]` alone raises it
///   one step (not above the maximum), neither keeps it;
/// - the wind is untouched;
/// - a portal spawns exactly when the left button is down and was not down
///   on the previous frame, and the button's state is remembered.
pub proof fn lemma_frame_keys_effects(c: Controls, k: FrameKeys)
    requires
        controls_wf(c),
        k.window_open,
        !k.escape_down,
    ensures
        ({
            let (n, act) = frame_start(c, k);
            &&& !act.quit
            &&& k.key3_pressed ==> n.camera_mode == 2
            &&& k.key2_pressed && !k.key3_pressed ==> n.camera_mode == 1
            &&& k.key1_pressed && !k.key2_pressed && !k.key3_pressed ==> n.camera_mode == 0
            &&& !k.key1_pressed && !k.key2_pressed && !k.key3_pressed ==> n.camera_mode
                == c.camera_mode
            &&& k.key8_pressed ==> n.warp_pattern == 4
            &&& k.key7_pressed && !k.key8_pressed ==> n.warp_pattern == 3
            &&& k.key6_pressed && !k.key7_pressed && !k.key8_pressed ==> n.warp_pattern == 2
            &&& k.key5_pressed && !k.key6_pressed && !k.key7_pressed && !k.key8_pressed
                ==> n.warp_pattern == 1
            &&& k.key4_pressed && !k.key5_pressed && !k.key6_pressed && !k.key7_pressed
                && !k.key8_pressed ==> n.warp_pattern == 0
            &&& !k.key4_pressed && !k.key5_pressed && !k.key6_pressed && !k.key7_pressed
                && !k.key8_pressed ==> n.warp_pattern == c.warp_pattern
            &&& n.show_grid == (if k.grid_pressed {
                1 - c.show_grid
            } else {
                c.show_grid as int
            })
            &&& n.audio_enabled == (c.audio_enabled != k.audio_pressed)
            &&& n.neural_enabled == (if k.neural_pressed {
                1 - c.neural_enabled
            } else {
                c.neural_enabled as int
            })
            &&& k.gain_down_pressed && !k.gain_up_pressed ==> n.neural_gain == (if c.neural_gain
                >= 5 {
                c.neural_gain - 5
            } else {
                0
            })
            &&& k.gain_up_pressed && !k.gain_down_pressed ==> n.neural_gain == (if c.neural_gain
                <= 195 {
                c.neural_gain + 5
            } else {
                200
            })
            &&& !k.gain_up_pressed && !k.gain_down_pressed ==> n.neural_gain == c.neural_gain
            &&& n.wind_strength == c.wind_strength
            &&& act.spawn_at_mouse == (k.left_mouse_down && !c.spawn_armed)
            &&& n.spawn_armed == k.left_mouse_down
        }),
{
}

/// The camera mode and the warp pattern after a non-quitting frame are the
/// number of the highest key pressed in their group, counted from the
/// group's first key, or what they were.
pub proof fn lemma_number_keys_select(c: Controls, k: FrameKeys, key: int)
    requires
        k.window_open,
        !k.escape_down,
        1 <= key <= 8,
        key == 1 ==> k.key1_pressed,
        key == 2 ==> k.key2_pressed,
        key == 3 ==> k.key3_pressed,
        key == 4 ==> k.key4_pressed,
        key == 5 ==> k.key5_pressed,
        key == 6 ==> k.key6_pressed,
        key == 7 ==> k.key7_pressed,
        key == 8 ==> k.key8_pressed,
        key <= 3 ==> (key < 2 ==> !k.key2_pressed) && (key < 3 ==> !k.key3_pressed),
        key >= 4 ==> (key < 5 ==> !k.key5_pressed) && (key < 6 ==> !k.key6_pressed) && (key < 7
            ==> !k.key7_pressed) && (key < 8 ==> !k.key8_pressed),
    ensures
        key <= 3 ==> frame_start(c, k).0.camera_mode == key - 1,
        key >= 4 ==> frame_start(c, k).0.warp_pattern == key - 4,
{
}

/// Holding the left button down spawns one portal, not one per frame: after
/// a frame with the button down, the next frame with it still down spawns
/// nothing.
pub proof fn lemma_one_spawn_per_press(c: Controls, k1: FrameKeys, k2: FrameKeys)
    requires
        k1.left_mouse_down,
        k1.window_open && !k1.escape_down,
        k2.left_mouse_down,
    ensures
        !frame_start(frame_start(c, k1).0, k2).1.spawn_at_mouse,
{
}

/// Pressing the grid, audio or neural key on two frames in a row brings the
/// flag back to where it was.
pub proof fn lemma_toggles_undo(c: Controls, k1: FrameKeys, k2: FrameKeys)
    requires
        controls_wf(c),
        k1.window_open && !k1.escape_down,
        k2.window_open && !k2.escape_down,
        k1.grid_pressed && k2.grid_pressed,
        k1.audio_pressed && k2.audio_pressed,
        k1.neural_pressed && k2.neural_pressed,
    ensures
        frame_start(frame_start(c, k1).0, k2).0.show_grid == c.show_grid,
        frame_start(frame_start(c, k1).0, k2).0.audio_enabled == c.audio_enabled,
        frame_start(frame_start(c, k1).0, k2).0.neural_enabled == c.neural_enabled,
{
}

/// One step of gain up followed by one step down restores the gain, as long
/// as the step up did not hit the maximum.
pub proof fn lemma_gain_steps_undo(c: Controls, up: FrameKeys, down: FrameKeys)
    requires
        c.neural_gain + NEURAL_GAIN_STEP <= MAX_NEURAL_GAIN,
        up.window_open && !up.escape_down && up.gain_up_pressed && !up.gain_down_pressed,
        down.window_open && !down.escape_down && down.gain_down_pressed && !down.gain_up_pressed,
    ensures
        frame_start(frame_start(c, up).0, down).0.neural_gain == c.neural_gain,
{
}

/// A quitting frame leaves every setting as it was.
pub proof fn lemma_quit_changes_nothing(c: Controls, k: FrameKeys)
    requires
        !k.window_open || k.escape_down,
    ensures
        frame_start(c, k).0 == c,
        frame_start(c, k).1.quit,
{
}

/// Holding UP alone raises the wind by one step, up to the maximum; holding
/// DOWN alone lowers it by one step, down to 0.
pub proof fn lemma_wind_steps(wind: u32, k: WindKeys)
    requires
        !k.reset_pressed,
    ensures
        k.up_down && !k.down_down ==> next_wind(wind, k) == if wind + WIND_STEP < MAX_WIND {
            wind + WIND_STEP
        } else {
            MAX_WIND as int
        },
        k.down_down && !k.up_down ==> next_wind(wind, k) == if wind >= WIND_STEP {
            wind - WIND_STEP
        } else {
            0
        },
        !k.up_down && !k.down_down ==> next_wind(wind, k) == wind,
{
}

/// R always brings the wind back to its default, whatever UP and DOWN do on
/// the same frame.
pub proof fn lemma_reset_restores_wind(wind: u32, k: WindKeys)
    requires
        k.reset_pressed,
    ensures
        next_wind(wind, k) == DEFAULT_WIND,
{
}

} // verus!
