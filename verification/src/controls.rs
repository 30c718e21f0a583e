use vstd::prelude::*;

use crate::InteractionMode;

verus! {

/// The movement keys a player controller listens to.
#[derive(Debug, Clone, Copy, PartialEq, Eq, Structural)]
pub enum MovementKey {
    Forward,
    Backwards,
    Left,
    Right,
    Up,
    Down,
}

/// Which movement keys are held, and whether the controller takes input at all.
#[derive(Debug, Clone, Copy, PartialEq, Eq, Structural)]
pub struct MovementKeys {
    pub left_pressed: bool,
    pub right_pressed: bool,
    pub up_pressed: bool,
    pub down_pressed: bool,
    pub forward_pressed: bool,
    pub backwards_pressed: bool,
    pub enabled: bool,
}

/// No key is held.
pub open spec fn none_pressed(k: MovementKeys) -> bool {
    !k.left_pressed && !k.right_pressed && !k.up_pressed && !k.down_pressed && !k.forward_pressed
        && !k.backwards_pressed
}

/// The keys after `key` is pressed (`pressed`) or released, when input is taken.
pub open spec fn spec_handle_key(k: MovementKeys, key: MovementKey, pressed: bool) -> MovementKeys {
    if !k.enabled {
        k
    } else {
        match key {
            MovementKey::Forward => MovementKeys { forward_pressed: pressed, ..k },
            MovementKey::Backwards => MovementKeys { backwards_pressed: pressed, ..k },
            MovementKey::Left => MovementKeys { left_pressed: pressed, ..k },
            MovementKey::Right => MovementKeys { right_pressed: pressed, ..k },
            MovementKey::Up => MovementKeys { up_pressed: pressed, ..k },
            MovementKey::Down => MovementKeys { down_pressed: pressed, ..k },
        }
    }
}

/// The keys after switching input on or off; switching off releases every key.
pub open spec fn spec_toggle(k: MovementKeys) -> MovementKeys {
    if k.enabled {
        MovementKeys {
            left_pressed: false,
            right_pressed: false,
            up_pressed: false,
            down_pressed: false,
            forward_pressed: false,
            backwards_pressed: false,
            enabled: false,
        }
    } else {
        MovementKeys { enabled: true, ..k }
    }
}

/// The keys after a change of interaction mode: input goes on in the game and off in
/// any interface, toggling only when it changes.
pub open spec fn spec_handle_mode(k: MovementKeys, mode: InteractionMode) -> MovementKeys {
    if (mode == InteractionMode::Game) == k.enabled {
        k
    } else {
        spec_toggle(k)
    }
}

/// Following a mode leaves input on exactly in the game.
pub proof fn lemma_handle_mode_enables(k: MovementKeys, mode: InteractionMode)
    ensures
        spec_handle_mode(k, mode).enabled == (mode == InteractionMode::Game),
{
}

/// The direction along one axis: -1 when only the negative key is held, 1 when only the
/// positive one is, 0 otherwise.
pub open spec fn spec_axis(negative: bool, positive: bool) -> i8 {
    if negative && !positive {
        -1i8
    } else if positive && !negative {
        1i8
    } else {
        0i8
    }
}

/// The direction along one axis from its two keys.
pub fn axis(negative: bool, positive: bool) -> (d: i8)
    ensures
        d == spec_axis(negative, positive),
{
    match (negative, positive) {
        (true, false) => -1,
        (false, true) => 1,
        _ => 0,
    }
}

impl MovementKeys {
    /// Input switched on, no key held.
    pub fn new() -> (k: Self)
        ensures
            k.enabled,
            none_pressed(k),
    {
        MovementKeys {
            left_pressed: false,
            right_pressed: false,
            up_pressed: false,
            down_pressed: false,
            forward_pressed: false,
            backwards_pressed: false,
            enabled: true,
        }
    }

    /// Switch input on or off; switching off releases every key.
    pub fn toggle(&mut self)
        ensures
            *final(self) == spec_toggle(*old(self)),
    {
        if self.enabled {
            self.left_pressed = false;
            self.right_pressed = false;
            self.up_pressed = false;
            self.down_pressed = false;
            self.forward_pressed = false;
            self.backwards_pressed = false;
        }
        self.enabled = !self.enabled;
    }

    /// Whether input is taken.
    pub fn enabled(&self) -> (b: bool)
        ensures
            b == self.enabled,
    {
        self.enabled
    }

    /// Record a key press or release; ignored while input is off.
    pub fn handle_keypress(&mut self, key: MovementKey, pressed: bool)
        ensures
            *final(self) == spec_handle_key(*old(self), key, pressed),
    {
        if !self.enabled {
            return;
        }
        match key {
            MovementKey::Forward => self.forward_pressed = pressed,
            MovementKey::Backwards => self.backwards_pressed = pressed,
            MovementKey::Left => self.left_pressed = pressed,
            MovementKey::Right => self.right_pressed = pressed,
            MovementKey::Up => self.up_pressed = pressed,
            MovementKey::Down => self.down_pressed = pressed,
        }
    }

    /// Follow a change of interaction mode: input is on in the game and off in any interface.
    pub fn handle_mode(&mut self, mode: &InteractionMode)
        ensures
            *final(self) == spec_handle_mode(*old(self), *mode),
    {
        match mode {
            InteractionMode::Game => {
                if !self.enabled {
                    self.toggle();
                }
            },
            InteractionMode::UI | InteractionMode::Block(_) => {
                if self.enabled {
                    self.toggle();
                }
            },
        }
    }

    /// Sideways intent: -1 left, 1 right, 0 none.
    pub fn strafe(&self) -> (d: i8)
        ensures
            d == spec_axis(self.left_pressed, self.right_pressed),
    {
        axis(self.left_pressed, self.right_pressed)
    }

    /// Forward intent: -1 backwards, 1 forwards, 0 none.
    pub fn advance(&self) -> (d: i8)
        ensures
            d == spec_axis(self.backwards_pressed, self.forward_pressed),
    {
        axis(self.backwards_pressed, self.forward_pressed)
    }

    /// Vertical intent: -1 down, 1 up, 0 none.
    pub fn climb(&self) -> (d: i8)
        ensures
            d == spec_axis(self.down_pressed, self.up_pressed),
    {
        axis(self.down_pressed, self.up_pressed)
    }
}

/// While input is on, a key event sets exactly that key's flag to whether it is pressed:
/// Forward the forward flag, Backwards the backwards flag, Left the left flag, Right the
/// right flag, Up the up flag, Down the down flag. Every other flag, and the input switch,
/// stay as they were.
pub proof fn lemma_key_sets_its_flag(k: MovementKeys, key: MovementKey, pressed: bool)
    requires
        k.enabled,
    ensures
        ({
            let n = spec_handle_key(k, key, pressed);
            &&& n.enabled
            &&& n.forward_pressed == if key == MovementKey::Forward { pressed } else { k.forward_pressed }
            &&& n.backwards_pressed == if key == MovementKey::Backwards { pressed } else { k.backwards_pressed }
            &&& n.left_pressed == if key == MovementKey::Left { pressed } else { k.left_pressed }
            &&& n.right_pressed == if key == MovementKey::Right { pressed } else { k.right_pressed }
            &&& n.up_pressed == if key == MovementKey::Up { pressed } else { k.up_pressed }
            &&& n.down_pressed == if key == MovementKey::Down { pressed } else { k.down_pressed }
        }),
{
}

/// Holding one key alone moves the player its way: Up climbs (+1) and Down descends (-1),
/// Forward advances (+1) and Backwards retreats (-1), Right strafes +1 and Left -1; the
/// other two axes stay at 0.
pub proof fn lemma_single_key_direction(k: MovementKeys, key: MovementKey)
    requires
        k.enabled,
        none_pressed(k),
    ensures
        ({
            let n = spec_handle_key(k, key, true);
            let climb = spec_axis(n.down_pressed, n.up_pressed);
            let advance = spec_axis(n.backwards_pressed, n.forward_pressed);
            let strafe = spec_axis(n.left_pressed, n.right_pressed);
            &&& climb == if key == MovementKey::Up { 1i8 } else if key == MovementKey::Down { -1i8 } else { 0i8 }
            &&& advance == if key == MovementKey::Forward { 1i8 } else if key == MovementKey::Backwards { -1i8 } else { 0i8 }
            &&& strafe == if key == MovementKey::Right { 1i8 } else if key == MovementKey::Left { -1i8 } else { 0i8 }
        }),
{
}

/// Switching input off releases every key, and keys stay released while it is off.
pub proof fn lemma_disabled_holds_no_keys(k: MovementKeys, key: MovementKey, pressed: bool)
    requires
        k.enabled,
    ensures
        none_pressed(spec_toggle(k)),
        spec_handle_key(spec_toggle(k), key, pressed) == spec_toggle(k),
{
}

/// Switching input off then on again leaves it on with no key held.
pub proof fn lemma_toggle_twice(k: MovementKeys)
    requires
        k.enabled,
    ensures
        spec_toggle(spec_toggle(k)).enabled,
        none_pressed(spec_toggle(spec_toggle(k))),
{
}

/// Holding both keys of an axis cancels out.
pub proof fn lemma_opposite_keys_cancel(b: bool)
    ensures
        spec_axis(b, b) == 0,
{
}

} // verus!
