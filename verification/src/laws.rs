use vstd::prelude::*;
use crate::events::{has_held, has_placed, Event};
use crate::game::{tick_rel, Game};
use crate::input::Controller;

verus! {

/// A run of ticks: `gs` holds one more game than there are ticks, and each
/// tick is one `update`: `tick_rel` relates game `i`, sample `i`, game
/// `i + 1` and the events of tick `i`.
pub open spec fn is_trace(gs: Seq<Game>, cs: Seq<Controller>, evss: Seq<Seq<Event>>) -> bool {
    &&& gs.len() == cs.len() + 1
    &&& evss.len() == cs.len()
    &&& forall|i: int|
        0 <= i < cs.len() ==> #[trigger] tick_rel(gs[i], cs[i], gs[i + 1], evss[i])
}

/// The hold lockout survives any tick that does not lock a piece.
proof fn lemma_tick_keeps_hold(pre: Game, cur: Controller, post: Game, evs: Seq<Event>)
    requires
        tick_rel(pre, cur, post, evs),
        pre.did_hold,
        !has_placed(evs),
    ensures
        post.did_hold,
{
}

/// The lockout set at tick `lo` is still set at tick `hi` when no tick in
/// between locked a piece.
proof fn lemma_hold_sticky(
    gs: Seq<Game>,
    cs: Seq<Controller>,
    evss: Seq<Seq<Event>>,
    lo: int,
    hi: int,
)
    requires
        is_trace(gs, cs, evss),
        0 <= lo <= hi < gs.len(),
        gs[lo].did_hold,
        forall|k: int| lo <= k < hi ==> !has_placed(#[trigger] evss[k]),
    ensures
        gs[hi].did_hold,
    decreases hi - lo,
{
    if lo < hi {
        lemma_tick_keeps_hold(gs[lo], cs[lo], gs[lo + 1], evss[lo]);
        lemma_hold_sticky(gs, cs, evss, lo + 1, hi);
    }
}

/// At most one hold per piece: in any run of updates, two ticks that both
/// report a hold have a lock strictly between them, because a hold needs
/// the lockout clear and only a lock clears it. Holds are only reported by
/// falling-mode ticks, which the premises name.
pub proof fn lemma_at_most_one_held_between_locks(
    gs: Seq<Game>,
    cs: Seq<Controller>,
    evss: Seq<Seq<Event>>,
    a: int,
    b: int,
)
    requires
        is_trace(gs, cs, evss),
        0 <= a < b < evss.len(),
        gs[a].state is Falling,
        gs[b].state is Falling,
        has_held(evss[a]),
        has_held(evss[b]),
    ensures
        exists|k: int| a <= k < b && has_placed(#[trigger] evss[k]),
{
    if !(exists|k: int| a <= k < b && has_placed(#[trigger] evss[k])) {
        assert(tick_rel(gs[a], cs[a], gs[a + 1], evss[a]));
        assert(gs[a + 1].did_hold);
        lemma_hold_sticky(gs, cs, evss, a + 1, b);
        assert(tick_rel(gs[b], cs[b], gs[b + 1], evss[b]));
        assert(!gs[b].did_hold);
        assert(false);
    }
}

} // verus!
