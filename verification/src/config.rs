use vstd::prelude::*;

verus! {

/// Immutable engine configuration. Delays are frame counts; `gravity` is the
/// integer accumulator reload value: the accumulator loses 100 units per
/// frame and the piece falls one cell each time `gravity` units are paid
/// back, so a smaller value means a faster fall.
#[derive(Clone, Copy, Debug)]
pub struct GameConfig {
    /// Frames between lock-end-or-clear-end and the next spawn.
    pub spawn_delay: u32,
    /// Frames held after a clearing lock before the spawn delay starts.
    pub line_clear_delay: u32,
    /// Initial auto-shift charge in frames.
    pub delayed_auto_shift: u32,
    /// Frames between shifts once the auto-shift has charged.
    pub auto_repeat_rate: u32,
    /// Gravity accumulator reload, in 1/100 cell units.
    pub gravity: i32,
    /// Frames per cell during soft drop.
    pub soft_drop_speed: u32,
    /// Frames allowed on-stack before an automatic lock.
    pub lock_delay: u32,
    /// Rotations/shifts after first touching the stack that force a lock.
    pub move_lock_rule: u32,
    /// Visible next pieces.
    pub next_queue_size: u32,
    /// Upper bound on garbage rows injected per settle.
    pub max_garbage_add: u32,
}

impl GameConfig {
    /// Machine-limit bounds: they keep every counter update inside its
    /// integer type and every delay loop terminating. A zero gravity reload
    /// or a zero lock delay would stall or underflow the frame step, and a
    /// game cannot run with an empty next queue.
    pub open spec fn wf(self) -> bool {
        &&& self.spawn_delay <= 0x1000000
        &&& self.line_clear_delay <= 0x1000000
        &&& self.delayed_auto_shift <= 0x1000000
        &&& self.auto_repeat_rate <= 0x1000000
        &&& 1 <= self.gravity <= 0x1000000
        &&& self.soft_drop_speed <= 0x1000
        &&& 1 <= self.lock_delay <= 0x1000000
        &&& self.move_lock_rule <= 0x1000000
        &&& 1 <= self.next_queue_size <= 0x1000000
        &&& self.max_garbage_add <= 0x1000000
    }

    /// The guideline-flavoured configuration `default` returns.
    pub open spec fn standard() -> GameConfig {
        GameConfig {
            spawn_delay: 7u32,
            line_clear_delay: 45u32,
            delayed_auto_shift: 12u32,
            auto_repeat_rate: 1u32,
            gravity: 4545i32,
            soft_drop_speed: 1u32,
            lock_delay: 30u32,
            move_lock_rule: 15u32,
            next_queue_size: 5u32,
            max_garbage_add: 10u32,
        }
    }
}

impl Default for GameConfig {
    fn default() -> (r: GameConfig)
        ensures
            r == GameConfig::standard(),
            r.wf(),
    {
        GameConfig {
            spawn_delay: 7,
            line_clear_delay: 45,
            delayed_auto_shift: 12,
            auto_repeat_rate: 1,
            gravity: 4545,
            soft_drop_speed: 1,
            lock_delay: 30,
            move_lock_rule: 15,
            next_queue_size: 5,
            max_garbage_add: 10,
        }
    }
}

} // verus!
