use vstd::prelude::*;
use crate::config::GameConfig;

verus! {

/// One frame's controller sample. The engine keeps two conditioned copies:
/// the previous raw sample and the consumable per-tick intents.
#[derive(Clone, Copy, Debug, PartialEq, Eq, Structural)]
pub struct Controller {
    pub left: bool,
    pub right: bool,
    pub rotate_right: bool,
    pub rotate_left: bool,
    pub hold: bool,
    pub soft_drop: bool,
    pub hard_drop: bool,
}

impl Default for Controller {
    fn default() -> (r: Controller)
        ensures
            r == Controller::released(),
    {
        Controller {
            left: false,
            right: false,
            rotate_right: false,
            rotate_left: false,
            hold: false,
            soft_drop: false,
            hard_drop: false,
        }
    }
}

impl Controller {
    /// The sample with every button up.
    pub open spec fn released() -> Controller {
        Controller {
            left: false,
            right: false,
            rotate_right: false,
            rotate_left: false,
            hold: false,
            soft_drop: false,
            hard_drop: false,
        }
    }
}

/// Edge-triggered consumable intent for one button: a release clears the
/// intent, a fresh press sets it, and a held button preserves whatever
/// consumption already happened this piece.
pub open spec fn spec_update_input(used: bool, prev: bool, current: bool) -> bool {
    if !current {
        false
    } else if !prev {
        true
    } else {
        used
    }
}

/// Updates one button's consumable intent from the previous and current raw
/// samples.
pub fn update_input(used: &mut bool, prev: bool, current: bool)
    ensures
        *final(used) == spec_update_input(*old(used), prev, current),
{
    if !current {
        *used = false;
    } else if !prev {
        *used = true;
    }
}

/// The whole per-tick input conditioning step: edge-triggering for every
/// button, the hard-drop rising edge, the level-held soft drop, and the
/// delayed-auto-shift / auto-repeat bookkeeping. Returns the new consumable
/// intents and the new auto-shift counter.
pub open spec fn spec_condition(
    used: Controller,
    prev: Controller,
    das: u32,
    cur: Controller,
    cfg: GameConfig,
) -> (Controller, u32) {
    let u1 = Controller {
        left: spec_update_input(used.left, prev.left, cur.left),
        right: spec_update_input(used.right, prev.right, cur.right),
        rotate_right: spec_update_input(used.rotate_right, prev.rotate_right, cur.rotate_right),
        rotate_left: spec_update_input(used.rotate_left, prev.rotate_left, cur.rotate_left),
        hold: spec_update_input(used.hold, prev.hold, cur.hold),
        soft_drop: cur.soft_drop,
        hard_drop: !prev.hard_drop && cur.hard_drop,
    };
    let switched = (cur.left != prev.left) && (cur.right != prev.right);
    if cur.left != cur.right && !switched {
        if u1.left || u1.right {
            // Movement is buffered: never let the charge fall below the
            // auto-repeat rate, or the piece would shift twice right after
            // spawning.
            if das > cfg.auto_repeat_rate {
                (u1, (das - 1) as u32)
            } else {
                (u1, das)
            }
        } else if das == 0 {
            (
                Controller { left: cur.left, right: cur.right, ..u1 },
                cfg.auto_repeat_rate,
            )
        } else {
            (u1, (das - 1) as u32)
        }
    } else {
        let u2 = Controller { left: false, right: false, ..u1 };
        let u3 = if cur.left && !prev.left {
            Controller { left: true, ..u2 }
        } else if cur.right && !prev.right {
            Controller { right: true, ..u2 }
        } else {
            u2
        };
        (u3, cfg.delayed_auto_shift)
    }
}

/// Applies the conditioning step in place.
#[verifier::rlimit(60)]
pub fn condition_input(used: &mut Controller, das: &mut u32, prev: Controller, cur: Controller, cfg: &GameConfig)
    ensures
        *final(used) == spec_condition(*old(used), prev, *old(das), cur, *cfg).0,
        *final(das) == spec_condition(*old(used), prev, *old(das), cur, *cfg).1,
{
    update_input(&mut used.left, prev.left, cur.left);
    update_input(&mut used.right, prev.right, cur.right);
    update_input(&mut used.rotate_right, prev.rotate_right, cur.rotate_right);
    update_input(&mut used.rotate_left, prev.rotate_left, cur.rotate_left);
    update_input(&mut used.soft_drop, prev.soft_drop, cur.soft_drop);
    update_input(&mut used.hold, prev.hold, cur.hold);
    used.hard_drop = !prev.hard_drop && cur.hard_drop;
    used.soft_drop = cur.soft_drop;

    let switched = (cur.left != prev.left) && (cur.right != prev.right);
    if cur.left != cur.right && !switched {
        if used.left || used.right {
            if *das > cfg.auto_repeat_rate {
                *das = *das - 1;
            }
        } else if *das == 0 {
            *das = cfg.auto_repeat_rate;
            used.left = cur.left;
            used.right = cur.right;
        } else {
            *das = *das - 1;
        }
    } else {
        *das = cfg.delayed_auto_shift;
        used.left = false;
        used.right = false;
        if cur.left && !prev.left {
            used.left = true;
        } else if cur.right && !prev.right {
            used.right = true;
        }
    }
}

} // verus!
