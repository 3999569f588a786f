use vstd::prelude::*;
use crate::board::{
    lemma_garbage_fold_snoc, spec_attack, spec_cleared_grid, spec_dropped, spec_fits,
    spec_full_count, spec_garbage_fold, spec_garbage_fold_dead, spec_rotate, spec_spawn,
    spec_stamped, Board, LockResult,
};
use crate::config::GameConfig;
use crate::events::{
    at_most_one_held, has_held, has_move_event, has_placed, has_spawn_delay_start, is_held,
    is_move_event, is_placed, Event,
};
use crate::input::{condition_input, spec_condition, Controller};
use crate::piece::{spec_min_y, spec_moved, FallingPiece, TspinStatus};
use crate::rng::{rng_below, rng_one_in_three};

verus! {

/// The live payload of the `Falling` state: the active piece plus its
/// kinematic counters.
#[derive(Clone, Copy, Debug)]
pub struct FallingState {
    pub piece: FallingPiece,
    /// The lowest row any cell of this piece instance has ever reached.
    pub lowest_y: i32,
    /// Successful rotations and shifts since `lowest_y` last dropped.
    pub rotation_move_count: u32,
    /// Gravity accumulator, in 1/100 cell units.
    pub gravity: i32,
    /// Frames left on-stack before the automatic lock.
    pub lock_delay: u32,
    /// Frames left before the next soft-drop cell.
    pub soft_drop_delay: u32,
}

/// The engine's four operating modes.
#[derive(Clone, Copy, Debug)]
pub enum GameState {
    SpawnDelay(u32),
    LineClearDelay(u32),
    Falling(FallingState),
    GameOver,
}

/// One player's whole simulation: board, mode, configuration, conditioned
/// controller state and the two garbage counters. `garbage_queue` is rows
/// owed to us (the harness may raise it between ticks); `attacking` is rows
/// we will send at the next settle.
pub struct Game {
    pub board: Board,
    pub state: GameState,
    pub config: GameConfig,
    pub did_hold: bool,
    pub prev: Controller,
    pub used: Controller,
    pub das_delay: u32,
    pub garbage_queue: u32,
    pub attacking: u32,
}

impl Game {
    /// Validity of a falling payload against this game's board and config.
    pub open spec fn falling_wf(self, f: FallingState) -> bool {
        &&& f.piece.wf()
        &&& spec_fits(self.board, f.piece)
        &&& 0 <= f.gravity <= self.config.gravity
        &&& 1 <= f.lock_delay
    }

    /// The game invariant: a valid config, a full-size next queue, a mode
    /// payload within its bounds, and outgoing attack pending only while a
    /// line clear is being resolved.
    pub open spec fn wf(self) -> bool {
        &&& self.config.wf()
        &&& self.board.wf()
        &&& self.board.next_queue@.len() == self.config.next_queue_size
        &&& match self.state {
            GameState::SpawnDelay(n) => n <= self.config.spawn_delay,
            GameState::LineClearDelay(n) => n <= self.config.line_clear_delay,
            GameState::Falling(f) => self.falling_wf(f),
            GameState::GameOver => true,
        }
        &&& (self.attacking > 0 ==> self.state is LineClearDelay)
    }

    /// This game right after input conditioning, before the mode dispatch.
    pub open spec fn with_input(self, cur: Controller) -> Game {
        Game {
            used: spec_condition(self.used, self.prev, self.das_delay, cur, self.config).0,
            das_delay: spec_condition(self.used, self.prev, self.das_delay, cur, self.config).1,
            prev: cur,
            ..self
        }
    }
}

/// The drawn garbage columns: one per injected row, each a column index.
pub open spec fn garbage_cols_ok(cols: Vec<usize>, n: u32) -> bool {
    &&& cols@.len() == n
    &&& forall|j: int| 0 <= j < cols@.len() ==> #[trigger] cols@[j] < 10
}

/// The attack that survives the cancellation step.
pub open spec fn cancel_attack(g: Game) -> u32 {
    if g.attacking > g.garbage_queue {
        (g.attacking - g.garbage_queue) as u32
    } else {
        0u32
    }
}

/// The incoming garbage that survives the cancellation step.
pub open spec fn cancel_queue(g: Game) -> u32 {
    if g.attacking > g.garbage_queue {
        0u32
    } else {
        (g.garbage_queue - g.attacking) as u32
    }
}

/// How many garbage rows one settle injects.
pub open spec fn inject_count(g: Game) -> u32 {
    if cancel_queue(g) < g.config.max_garbage_add {
        cancel_queue(g)
    } else {
        g.config.max_garbage_add
    }
}

/// What the garbage reconciler did, relating the game before (`g`, whose
/// grid is `cells0`) and after (`post`) and the events it appended (`evs`).
/// First outgoing attack and incoming queue cancel; then either garbage rows
/// enter the grid one per drawn column (the columns are random draws, but
/// the grid is exactly their fold, and the game ends exactly when the fold
/// pushed a filled cell out of the top), or a remaining attack is sent.
pub open spec fn deal_rel(g: Game, cells0: Seq<bool>, post: Game, evs: Seq<Event>) -> bool {
    &&& post.config == g.config
    &&& post.prev == g.prev
    &&& post.used == g.used
    &&& post.das_delay == g.das_delay
    &&& post.did_hold == g.did_hold
    &&& post.attacking == 0
    &&& if cancel_queue(g) > 0 {
        &&& post.garbage_queue == cancel_queue(g) - inject_count(g)
        &&& exists|cols: Vec<usize>|
            #[trigger] garbage_cols_ok(cols, inject_count(g)) && post.board.cells@ == spec_garbage_fold(
                cells0,
                cols@,
            ) && (if spec_garbage_fold_dead(cells0, cols@) {
                evs =~= seq![Event::GarbageAdded(cols), Event::GameOver]
                    && post.state is GameOver
            } else {
                evs =~= seq![Event::GarbageAdded(cols)] && post.state == g.state
            })
    } else if cancel_attack(g) > 0 {
        &&& post.garbage_queue == 0
        &&& post.state == g.state
        &&& post.board.cells@ == cells0
        &&& evs =~= seq![Event::GarbageSent(cancel_attack(g))]
    } else {
        &&& post.garbage_queue == 0
        &&& post.state == g.state
        &&& post.board.cells@ == cells0
        &&& evs =~= Seq::<Event>::empty()
    }
}

/// What a hold tick does: the active kind enters the hold slot; whatever
/// was held before spawns instantly (or ends the game if it cannot), and an
/// empty slot sends the game to spawn delay instead.
pub open spec fn hold_rel(pre: Game, f: FallingState, post: Game, evs: Seq<Event>) -> bool {
    &&& post.board.hold_piece == Some(f.piece.kind)
    &&& post.board.cells == pre.board.cells
    &&& post.board.next_queue == pre.board.next_queue
    &&& post.did_hold
    &&& match pre.board.hold_piece {
        Some(k) => match spec_spawn(post.board, k) {
            Some(p) => {
                &&& post.state == GameState::Falling(
                    FallingState {
                        piece: p,
                        lowest_y: spec_min_y(p) as i32,
                        rotation_move_count: 0u32,
                        gravity: pre.config.gravity,
                        lock_delay: 30u32,
                        soft_drop_delay: 0u32,
                    },
                )
                &&& evs =~= seq![
                    Event::PieceHeld(f.piece.kind),
                    Event::PieceFalling(p, spec_dropped(post.board, p)),
                ]
            },
            None => {
                &&& post.state is GameOver
                &&& evs =~= seq![Event::PieceHeld(f.piece.kind), Event::GameOver]
            },
        },
        None => {
            &&& post.state == GameState::SpawnDelay(pre.config.spawn_delay)
            &&& evs =~= seq![Event::PieceHeld(f.piece.kind)]
        },
    }
}

/// What one tick in the `Falling` mode guarantees, whatever the board
/// answered: the hold discipline, the lock-delay reset discipline, the
/// 15-move forced lock, the garbage discipline and a terminal game-over
/// event.
pub open spec fn falling_rel(pre: Game, f: FallingState, post: Game, evs: Seq<Event>) -> bool {
    &&& at_most_one_held(evs)
    &&& (has_held(evs) ==> !pre.did_hold && post.did_hold && !has_placed(evs))
    &&& (pre.did_hold && !has_placed(evs) ==> post.did_hold)
    &&& (has_placed(evs) ==> !post.did_hold)
    &&& !has_spawn_delay_start(evs)
    &&& (post.attacking > 0 ==> post.state is LineClearDelay)
    &&& (post.state is GameOver ==> evs.len() >= 1 && evs[evs.len() - 1] is GameOver)
    &&& (has_move_event(evs) ==> (post.state matches GameState::Falling(f2) ==> f2.lock_delay
        == pre.config.lock_delay || f2.lock_delay + 1 == pre.config.lock_delay))
    &&& ((pre.did_hold || !pre.used.hold) && !pre.used.rotate_right && !pre.used.rotate_left
        && !pre.used.left && !pre.used.right && f.rotation_move_count >= pre.config.move_lock_rule
        && spec_min_y(spec_dropped(pre.board, f.piece)) >= f.lowest_y ==> has_placed(evs))
    &&& ((pre.did_hold || !pre.used.hold) && pre.used.hard_drop ==> has_placed(evs))
    &&& ((pre.did_hold || !pre.used.hold) ==> (post.state matches GameState::Falling(f2)
        ==> f2.rotation_move_count >= pre.config.move_lock_rule ==> spec_min_y(
        spec_dropped(post.board, f2.piece),
    ) < f2.lowest_y))
    &&& (post.state matches GameState::Falling(f2) ==> evs.len() >= 1 && evs[evs.len() - 1]
        == Event::PieceFalling(f2.piece, spec_dropped(post.board, f2.piece)))
    &&& (!pre.did_hold && pre.used.hold ==> hold_rel(pre, f, post, evs))
    &&& (post.used.rotate_right ==> pre.used.rotate_right)
    &&& (post.used.rotate_left ==> pre.used.rotate_left)
    &&& (post.used.left ==> pre.used.left)
    &&& (post.used.right ==> pre.used.right)
    &&& post.used.hard_drop == pre.used.hard_drop
    &&& post.used.soft_drop == pre.used.soft_drop
    &&& post.used.hold == pre.used.hold
    &&& post.prev == pre.prev
    &&& post.das_delay == pre.das_delay
    &&& post.config == pre.config
}

/// What the spawn tick guarantees: the queue advances by one and a fresh
/// piece enters its tail, so its length is conserved; the spawned piece is
/// the old queue head, falling with reset counters, or the game ends on a
/// block-out.
pub open spec fn spawn_rel(mid: Game, post: Game, evs: Seq<Event>) -> bool {
    let head = mid.board.next_queue@[0];
    &&& post.config == mid.config
    &&& post.prev == mid.prev
    &&& post.used == mid.used
    &&& post.das_delay == mid.das_delay
    &&& post.did_hold == mid.did_hold
    &&& post.garbage_queue == mid.garbage_queue
    &&& post.attacking == mid.attacking
    &&& post.board.cells == mid.board.cells
    &&& post.board.hold_piece == mid.board.hold_piece
    &&& post.board.next_queue@.len() == mid.board.next_queue@.len()
    &&& post.board.next_queue@ == mid.board.next_queue@.drop_first().push(
        post.board.next_queue@.last(),
    )
    &&& match spec_spawn(post.board, head) {
        Some(p) => {
            &&& post.state == GameState::Falling(
                FallingState {
                    piece: p,
                    lowest_y: spec_min_y(p) as i32,
                    rotation_move_count: 0u32,
                    gravity: mid.config.gravity,
                    lock_delay: 30u32,
                    soft_drop_delay: 0u32,
                },
            )
            &&& evs =~= seq![
                Event::PieceSpawned { new_in_queue: post.board.next_queue@.last() },
                Event::PieceFalling(p, spec_dropped(post.board, p)),
            ]
        },
        None => {
            &&& post.state is GameOver
            &&& evs =~= seq![Event::GameOver]
        },
    }
}

/// Everything one `update` guarantees, over the game before the tick
/// (`pre`), the raw sample (`cur`), the game after (`post`) and the emitted
/// events. Input conditioning is exact; the countdown modes are exact; the
/// spawn tick, the garbage settle and the falling tick are related by their
/// own relations; and the spawn-delay start marker is emitted exactly on
/// the first counted-down frame of a spawn delay.
pub open spec fn tick_rel(pre: Game, cur: Controller, post: Game, evs: Seq<Event>) -> bool {
    let mid = pre.with_input(cur);
    &&& post.config == pre.config
    &&& post.prev == cur
    &&& (pre.state is GameOver ==> post == mid && evs =~= seq![Event::GameOver])
    &&& (pre.state matches GameState::SpawnDelay(n) ==> {
        &&& (n > 0 ==> post == Game { state: GameState::SpawnDelay((n - 1) as u32), ..mid }
            && evs =~= (if n == pre.config.spawn_delay {
                seq![Event::SpawnDelayStart]
            } else {
                Seq::<Event>::empty()
            }))
        &&& (n == 0 ==> spawn_rel(mid, post, evs))
    })
    &&& (pre.state matches GameState::LineClearDelay(n) ==> {
        &&& (n > 0 ==> post == Game { state: GameState::LineClearDelay((n - 1) as u32), ..mid }
            && evs =~= Seq::<Event>::empty())
        &&& (n == 0 ==> evs.len() >= 1 && evs[0] == Event::EndOfLineClearDelay
            && post.board.next_queue == pre.board.next_queue
            && post.board.hold_piece == pre.board.hold_piece
            && deal_rel(
            Game { state: GameState::SpawnDelay(pre.config.spawn_delay), ..mid },
            mid.board.cells@,
            post,
            evs.drop_first(),
        ))
    })
    &&& (pre.state matches GameState::Falling(f) ==> falling_rel(mid, f, post, evs))
    &&& (has_spawn_delay_start(evs) <==> (pre.state matches GameState::SpawnDelay(n) && n > 0
        && n == pre.config.spawn_delay))
    &&& (post.attacking > 0 ==> post.state is LineClearDelay)
}

/// Saturating move counter bump; the counter is only ever compared against
/// the move-lock threshold, so saturation never loosens the rule.
fn bump(c: u32) -> (r: u32)
    ensures
        c < u32::MAX ==> r == c + 1,
        c == u32::MAX ==> r == c,
        r >= c,
{
    if c < u32::MAX {
        c + 1
    } else {
        c
    }
}

impl Game {
    /// A fresh game: an empty board with a primed next queue, everything
    /// zeroed, waiting out the first spawn delay.
    pub fn new<R: rand::Rng>(config: GameConfig, piece_rng: &mut R) -> (r: Game)
        requires
            config.wf(),
        ensures
            r.wf(),
            r.config == config,
            r.state == GameState::SpawnDelay(config.spawn_delay),
            !r.did_hold,
            r.garbage_queue == 0,
            r.attacking == 0,
            r.das_delay == config.delayed_auto_shift,
            r.prev == Controller::released(),
            r.used == Controller::released(),
            r.board.next_queue@.len() == config.next_queue_size,
            r.board.hold_piece is None,
            forall|i: int| 0 <= i < 400 ==> !r.board.cells@[i],
    {
        let mut board = Board::new();
        let mut i: u32 = 0;
        while i < config.next_queue_size
            invariant
                i <= config.next_queue_size,
                board.wf(),
                board.next_queue@.len() == i,
                board.hold_piece is None,
                forall|j: int| 0 <= j < 400 ==> !board.cells@[j],
            decreases config.next_queue_size - i,
        {
            let p = board.generate_next_piece(piece_rng);
            board.add_next_piece(p);
            i = i + 1;
        }
        Game {
            board,
            config,
            prev: Controller::default(),
            used: Controller::default(),
            did_hold: false,
            das_delay: config.delayed_auto_shift,
            state: GameState::SpawnDelay(config.spawn_delay),
            garbage_queue: 0,
            attacking: 0,
        }
    }

    /// Advances the simulation by one frame and reports everything that
    /// happened, in order.
    pub fn update<RA: rand::Rng, RB: rand::Rng>(
        &mut self,
        current: Controller,
        piece_rng: &mut RA,
        garbage_rng: &mut RB,
    ) -> (events: Vec<Event>)
        requires
            old(self).wf(),
        ensures
            final(self).wf(),
            tick_rel(*old(self), current, *final(self), events@),
    {
        condition_input(&mut self.used, &mut self.das_delay, self.prev, current, &self.config);
        self.prev = current;
        proof {
            assert(*self == old(self).with_input(current));
        }
        match self.state {
            GameState::SpawnDelay(n) => {
                if n == 0 {
                    self.tick_spawn(piece_rng)
                } else {
                    self.state = GameState::SpawnDelay(n - 1);
                    let mut events: Vec<Event> = Vec::new();
                    if n == self.config.spawn_delay {
                        events.push(Event::SpawnDelayStart);
                        proof {
                            assert(events@[0] is SpawnDelayStart);
                            assert(has_spawn_delay_start(events@));
                            assert(events@ =~= seq![Event::SpawnDelayStart]);
                        }
                    } else {
                        proof {
                            assert(events@ =~= Seq::<Event>::empty());
                        }
                    }
                    events
                }
            },
            GameState::LineClearDelay(n) => {
                if n == 0 {
                    self.state = GameState::SpawnDelay(self.config.spawn_delay);
                    proof {
                        assert(*self == Game {
                            state: GameState::SpawnDelay(old(self).config.spawn_delay),
                            ..old(self).with_input(current)
                        });
                    }
                    let mut events: Vec<Event> = Vec::new();
                    events.push(Event::EndOfLineClearDelay);
                    self.deal_garbage(&mut events, garbage_rng);
                    proof {
                        assert(events@.take(1)[0] == Event::EndOfLineClearDelay);
                        assert(events@[0] == Event::EndOfLineClearDelay);
                        assert(events@.drop_first() =~= events@.skip(1));
                    }
                    events
                } else {
                    self.state = GameState::LineClearDelay(n - 1);
                    let events: Vec<Event> = Vec::new();
                    proof {
                        assert(events@ =~= Seq::<Event>::empty());
                    }
                    events
                }
            },
            GameState::GameOver => {
                let mut events: Vec<Event> = Vec::new();
                events.push(Event::GameOver);
                proof {
                    assert(events@ =~= seq![Event::GameOver]);
                }
                events
            },
            GameState::Falling(f) => self.tick_falling(f, garbage_rng),
        }
    }

    /// The spawn tick: advance the queue, append a fresh random piece, and
    /// try to start the head piece falling; a refused spawn is a block-out.
    fn tick_spawn<R: rand::Rng>(&mut self, piece_rng: &mut R) -> (events: Vec<Event>)
        requires
            old(self).wf(),
            old(self).state matches GameState::SpawnDelay(n) && n == 0,
        ensures
            final(self).wf(),
            spawn_rel(*old(self), *final(self), events@),
            !has_spawn_delay_start(events@),
    {
        let next_piece = self.board.advance_queue().unwrap();
        let new_piece = self.board.generate_next_piece(piece_rng);
        self.board.add_next_piece(new_piece);
        match FallingPiece::spawn(next_piece, &self.board) {
            Some(spawned) => {
                proof {
                    spawned.lemma_cells_near();
                }
                let low = spawned.min_cell_y();
                self.state = GameState::Falling(
                    FallingState {
                        piece: spawned,
                        lowest_y: low,
                        rotation_move_count: 0,
                        gravity: self.config.gravity,
                        lock_delay: 30,
                        soft_drop_delay: 0,
                    },
                );
                let mut shadow = spawned;
                shadow.sonic_drop(&self.board);
                let mut events: Vec<Event> = Vec::new();
                events.push(Event::PieceSpawned { new_in_queue: new_piece });
                events.push(Event::PieceFalling(spawned, shadow));
                events
            },
            None => {
                self.state = GameState::GameOver;
                let mut events: Vec<Event> = Vec::new();
                events.push(Event::GameOver);
                events
            },
        }
    }

    /// Nets the pending attack against the incoming garbage queue, then
    /// either injects garbage rows (bounded per settle, at randomly drawn
    /// columns) or sends the surviving attack.
    #[verifier::rlimit(100)]
    #[verifier::spinoff_prover]
    fn deal_garbage<R: rand::Rng>(&mut self, events: &mut Vec<Event>, rng: &mut R)
        requires
            old(self).config.wf(),
            old(self).board.wf(),
        ensures
            final(self).config == old(self).config,
            final(self).board.wf(),
            final(self).board.next_queue == old(self).board.next_queue,
            final(self).board.hold_piece == old(self).board.hold_piece,
            final(events)@.len() >= old(events)@.len(),
            old(events)@ == final(events)@.take(old(events)@.len() as int),
            deal_rel(
                *old(self),
                old(self).board.cells@,
                *final(self),
                final(events)@.skip(old(events)@.len() as int),
            ),
            final(self).state is GameOver || final(self).state == old(self).state,
            forall|i: int| old(events)@.len() <= i < final(events)@.len() ==> !is_held(
                #[trigger] final(events)@[i],
            ) && !is_placed(final(events)@[i]) && !is_move_event(final(events)@[i])
                && !(final(events)@[i] is SpawnDelayStart),
            final(self).state is GameOver && !(old(self).state is GameOver) ==> final(events)@.len() > 0
                && final(events)@[final(events)@.len() - 1] is GameOver,
    {
        if self.attacking > self.garbage_queue {
            self.attacking = self.attacking - self.garbage_queue;
            self.garbage_queue = 0;
        } else {
            self.garbage_queue = self.garbage_queue - self.attacking;
            self.attacking = 0;
        }
        if self.garbage_queue > 0 {
            let mut dead = false;
            let mut col: usize = rng_below(rng, 10) as usize;
            let mut garbage_columns: Vec<usize> = Vec::new();
            let q1v: u32 = self.garbage_queue;
            let n: u32 = if self.garbage_queue < self.config.max_garbage_add {
                self.garbage_queue
            } else {
                self.config.max_garbage_add
            };
            let mut k: u32 = 0;
            while k < n
                invariant
                    k <= n,
                    n <= q1v,
                    col < 10,
                    garbage_columns@.len() == k,
                    forall|j: int| 0 <= j < k ==> #[trigger] garbage_columns@[j] < 10,
                    self.board.wf(),
                    self.board.next_queue == old(self).board.next_queue,
                    self.board.hold_piece == old(self).board.hold_piece,
                    self.config == old(self).config,
                    self.prev == old(self).prev,
                    self.used == old(self).used,
                    self.das_delay == old(self).das_delay,
                    self.did_hold == old(self).did_hold,
                    self.state == old(self).state,
                    self.attacking == 0,
                    self.garbage_queue == q1v,
                    self.board.cells@ == spec_garbage_fold(
                        old(self).board.cells@,
                        garbage_columns@,
                    ),
                    dead == spec_garbage_fold_dead(old(self).board.cells@, garbage_columns@),
                decreases n - k,
            {
                if rng_one_in_three(rng) {
                    col = rng_below(rng, 10) as usize;
                }
                let ghost cols_before = garbage_columns@;
                garbage_columns.push(col);
                let d = self.board.add_garbage(col);
                if d {
                    dead = true;
                }
                proof {
                    lemma_garbage_fold_snoc(old(self).board.cells@, cols_before, col);
                }
                k = k + 1;
            }
            self.garbage_queue = self.garbage_queue - n;
            let ghost len0 = old(events)@.len() as int;
            let ghost cols_snapshot = garbage_columns;
            events.push(Event::GarbageAdded(garbage_columns));
            if dead {
                events.push(Event::GameOver);
                self.state = GameState::GameOver;
            }
            proof {
                let delta = events@.skip(len0);
                assert(garbage_cols_ok(cols_snapshot, n));
                assert(old(events)@ =~= events@.take(len0));
                assert(self.board.cells@ == spec_garbage_fold(
                    old(self).board.cells@,
                    cols_snapshot@,
                ));
                assert(dead == spec_garbage_fold_dead(old(self).board.cells@, cols_snapshot@));
                if dead {
                    assert(delta =~= seq![Event::GarbageAdded(cols_snapshot), Event::GameOver]);
                } else {
                    assert(delta =~= seq![Event::GarbageAdded(cols_snapshot)]);
                }
                assert(garbage_cols_ok(cols_snapshot, inject_count(*old(self)))
                    && self.board.cells@ == spec_garbage_fold(
                    old(self).board.cells@,
                    cols_snapshot@,
                ) && (if spec_garbage_fold_dead(old(self).board.cells@, cols_snapshot@) {
                    events@.skip(len0) =~= seq![
                        Event::GarbageAdded(cols_snapshot),
                        Event::GameOver,
                    ] && self.state is GameOver
                } else {
                    events@.skip(len0) =~= seq![Event::GarbageAdded(cols_snapshot)] && self.state
                        == old(self).state
                }));
                assert(deal_rel(*old(self), old(self).board.cells@, *self, events@.skip(len0)));
            }
        } else if self.attacking > 0 {
            let a = self.attacking;
            let ghost len0 = old(events)@.len() as int;
            events.push(Event::GarbageSent(a));
            self.attacking = 0;
            proof {
                assert(old(events)@ =~= events@.take(len0));
                assert(events@.skip(len0) =~= seq![Event::GarbageSent(a)]);
            }
        } else {
            proof {
                assert(old(events)@ =~= events@.take(old(events)@.len() as int));
                assert(events@.skip(old(events)@.len() as int) =~= Seq::<Event>::empty());
            }
        }
    }

    /// Locks a piece: clears the hold lockout, resolves the lock through the
    /// board, and transitions to line-clear delay (clearing lock), spawn
    /// delay with an immediate garbage settle (plain lock) or game over
    /// (lock-out).
    fn lock<R: rand::Rng>(
        &mut self,
        falling: FallingState,
        events: &mut Vec<Event>,
        garbage_rng: &mut R,
        dist: Option<i32>,
    )
        requires
            old(self).config.wf(),
            old(self).board.wf(),
            old(self).board.next_queue@.len() == old(self).config.next_queue_size,
            falling.piece.wf(),
            spec_fits(old(self).board, falling.piece),
            old(self).attacking == 0,
        ensures
            final(self).wf(),
            !final(self).did_hold,
            final(self).config == old(self).config,
            final(self).prev == old(self).prev,
            final(self).used == old(self).used,
            final(self).das_delay == old(self).das_delay,
            final(events)@.len() > old(events)@.len(),
            old(events)@ == final(events)@.take(old(events)@.len() as int),
            final(events)@[old(events)@.len() as int] is PiecePlaced,
            forall|i: int| old(events)@.len() < i < final(events)@.len() ==> !is_held(
                #[trigger] final(events)@[i],
            ) && !is_move_event(final(events)@[i]) && !(final(events)@[i] is SpawnDelayStart),
            forall|i: int| old(events)@.len() <= i < final(events)@.len() ==> !is_held(
                #[trigger] final(events)@[i],
            ),
            final(self).state is GameOver ==> final(events)@.len() > 0
                && final(events)@[final(events)@.len() - 1] is GameOver,
            !(final(self).state is Falling),
            final(self).attacking > 0 ==> final(self).state is LineClearDelay,
            final(self).board.next_queue == old(self).board.next_queue,
            final(self).board.hold_piece == old(self).board.hold_piece,
            (final(events)@[old(events)@.len() as int] matches Event::PiecePlaced {
                piece: p,
                locked: l,
                hard_drop_distance: d,
            } && p == falling.piece && d == dist
                && l.locked_out == (spec_min_y(falling.piece) >= 20)
                && l.cleared_lines@.len() == spec_full_count(
                spec_stamped(old(self).board, falling.piece),
                40,
            ) && l.garbage_sent == spec_attack(l.cleared_lines@.len() as int, falling.piece.tspin)),
            spec_min_y(falling.piece) >= 20 ==> final(self).state is GameOver
                && final(events)@.len() == old(events)@.len() + 2
                && final(self).board.cells@ == spec_cleared_grid(
                spec_stamped(old(self).board, falling.piece),
            ) && final(self).attacking == 0 && final(self).garbage_queue == old(self).garbage_queue,
            spec_min_y(falling.piece) < 20 && spec_full_count(
                spec_stamped(old(self).board, falling.piece),
                40,
            ) == 0 ==> final(self).state !is GameOver ==> final(self).state == GameState::SpawnDelay(
                old(self).config.spawn_delay,
            ),
            spec_min_y(falling.piece) < 20 && spec_full_count(
                spec_stamped(old(self).board, falling.piece),
                40,
            ) == 0 ==> deal_rel(
                Game {
                    state: GameState::SpawnDelay(old(self).config.spawn_delay),
                    did_hold: false,
                    ..*old(self)
                },
                spec_cleared_grid(spec_stamped(old(self).board, falling.piece)),
                *final(self),
                final(events)@.skip(old(events)@.len() as int + 1),
            ),
            spec_min_y(falling.piece) < 20 && spec_full_count(
                spec_stamped(old(self).board, falling.piece),
                40,
            ) > 0 ==> final(self).state == GameState::LineClearDelay(
                old(self).config.line_clear_delay,
            ) && final(self).attacking == spec_attack(
                spec_full_count(spec_stamped(old(self).board, falling.piece), 40),
                falling.piece.tspin,
            ) && final(events)@.len() == old(events)@.len() + 1 && final(self).board.cells@
                == spec_cleared_grid(spec_stamped(old(self).board, falling.piece))
                && final(self).garbage_queue == old(self).garbage_queue,
    {
        self.did_hold = false;
        let ghost len0 = old(events)@.len() as int;
        let locked = self.board.lock_piece(falling.piece);
        let locked_out = locked.locked_out;
        let n_cleared = locked.cleared_lines.len();
        let sent = locked.garbage_sent;
        events.push(
            Event::PiecePlaced {
                piece: falling.piece,
                locked,
                hard_drop_distance: dist,
            },
        );
        proof {
            assert(events@[len0] is PiecePlaced);
        }
        if locked_out {
            self.state = GameState::GameOver;
            events.push(Event::GameOver);
            proof {
                assert(old(events)@ =~= events@.take(len0));
            }
        } else if n_cleared == 0 {
            self.state = GameState::SpawnDelay(self.config.spawn_delay);
            let ghost len1 = events@.len() as int;
            let ghost mid = *self;
            proof {
                assert(old(events)@ =~= events@.take(len0));
            }
            self.deal_garbage(events, garbage_rng);
            proof {
                assert(forall|i: int| 0 <= i < len1 ==> events@[i] == events@.take(len1)[i]);
                assert(events@[len0] is PiecePlaced);
                assert(old(events)@ =~= events@.take(len0));
                assert(events@.skip(len0 + 1) =~= events@.skip(len1));
                assert(deal_rel(mid, mid.board.cells@, *self, events@.skip(len1)));
                assert(mid.board.cells@ == spec_cleared_grid(
                    spec_stamped(old(self).board, falling.piece),
                ));
                let glit = Game {
                    state: GameState::SpawnDelay(old(self).config.spawn_delay),
                    did_hold: false,
                    ..*old(self)
                };
                assert(cancel_attack(glit) == cancel_attack(mid));
                assert(cancel_queue(glit) == cancel_queue(mid));
                assert(inject_count(glit) == inject_count(mid));
                if cancel_queue(mid) > 0 {
                    let cols = choose|cols: Vec<usize>|
                        #[trigger] garbage_cols_ok(cols, inject_count(mid)) && self.board.cells@
                            == spec_garbage_fold(mid.board.cells@, cols@) && (
                        if spec_garbage_fold_dead(mid.board.cells@, cols@) {
                            events@.skip(len1) =~= seq![
                                Event::GarbageAdded(cols),
                                Event::GameOver,
                            ] && self.state is GameOver
                        } else {
                            events@.skip(len1) =~= seq![Event::GarbageAdded(cols)] && self.state
                                == mid.state
                        });
                    assert(garbage_cols_ok(cols, inject_count(glit)));
                }
                assert(deal_rel(glit, mid.board.cells@, *self, events@.skip(len1)));
            }
        } else {
            self.attacking = self.attacking + sent;
            self.state = GameState::LineClearDelay(self.config.line_clear_delay);
            proof {
                assert(old(events)@ =~= events@.take(len0));
            }
        }
    }

    /// One rotation attempt: consumes the intent and resets the lock delay
    /// only when the board accepts the turn.
    fn try_rotate(&mut self, falling: &mut FallingState, events: &mut Vec<Event>, cwise: bool)
        requires
            old(self).config.wf(),
            old(self).board.wf(),
            old(falling).piece.wf(),
            spec_fits(old(self).board, old(falling).piece),
        ensures
            final(self).board == old(self).board,
            final(self).config == old(self).config,
            final(self).state == old(self).state,
            final(self).did_hold == old(self).did_hold,
            final(self).prev == old(self).prev,
            final(self).das_delay == old(self).das_delay,
            final(self).garbage_queue == old(self).garbage_queue,
            final(self).attacking == old(self).attacking,
            final(falling).piece.wf(),
            spec_fits(old(self).board, final(falling).piece),
            final(falling).lowest_y == old(falling).lowest_y,
            final(falling).soft_drop_delay == old(falling).soft_drop_delay,
            final(falling).gravity == old(falling).gravity,
            final(events)@.len() >= old(events)@.len(),
            old(events)@ == final(events)@.take(old(events)@.len() as int),
            forall|i: int| old(events)@.len() <= i < final(events)@.len() ==> is_move_event(
                #[trigger] final(events)@[i],
            ),
            final(events)@.len() > old(events)@.len() ==> final(falling).lock_delay
                == old(self).config.lock_delay && Some(final(falling).piece) == spec_rotate(
                old(self).board,
                old(falling).piece,
                cwise,
            ) && final(events)@ == old(events)@.push(
                if final(falling).piece.tspin != TspinStatus::NoSpin {
                    Event::PieceTSpined
                } else {
                    Event::PieceRotated
                },
            ) && final(self).used == (if cwise {
                Controller { rotate_right: false, ..old(self).used }
            } else {
                Controller { rotate_left: false, ..old(self).used }
            }) && final(falling).rotation_move_count >= old(falling).rotation_move_count,
            final(events)@.len() == old(events)@.len() ==> *final(falling) == *old(falling)
                && final(self).used == old(self).used,
            (if cwise { !old(self).used.rotate_right } else { !old(self).used.rotate_left })
                ==> *final(falling) == *old(falling) && final(self).used == old(self).used
                && final(events)@ == old(events)@,
    {
        let pressed = if cwise { self.used.rotate_right } else { self.used.rotate_left };
        if pressed {
            let turned = if cwise {
                falling.piece.cw(&self.board)
            } else {
                falling.piece.ccw(&self.board)
            };
            if turned {
                if cwise {
                    self.used.rotate_right = false;
                } else {
                    self.used.rotate_left = false;
                }
                falling.rotation_move_count = bump(falling.rotation_move_count);
                falling.lock_delay = self.config.lock_delay;
                let ghost len0 = events@.len() as int;
                if !(falling.piece.tspin == TspinStatus::NoSpin) {
                    events.push(Event::PieceTSpined);
                } else {
                    events.push(Event::PieceRotated);
                }
                proof {
                    assert(old(events)@ =~= events@.take(len0));
                }
            }
        }
    }

    /// One horizontal shift attempt: consumes the intent and resets the
    /// lock delay only when the board accepts the step.
    fn try_shift(&mut self, falling: &mut FallingState, events: &mut Vec<Event>, dx: i32)
        requires
            old(self).config.wf(),
            old(self).board.wf(),
            old(falling).piece.wf(),
            spec_fits(old(self).board, old(falling).piece),
            dx == -1 || dx == 1,
        ensures
            final(self).board == old(self).board,
            final(self).config == old(self).config,
            final(self).state == old(self).state,
            final(self).did_hold == old(self).did_hold,
            final(self).prev == old(self).prev,
            final(self).das_delay == old(self).das_delay,
            final(self).garbage_queue == old(self).garbage_queue,
            final(self).attacking == old(self).attacking,
            final(falling).piece.wf(),
            spec_fits(old(self).board, final(falling).piece),
            final(falling).lowest_y == old(falling).lowest_y,
            final(falling).soft_drop_delay == old(falling).soft_drop_delay,
            final(falling).gravity == old(falling).gravity,
            final(events)@.len() >= old(events)@.len(),
            old(events)@ == final(events)@.take(old(events)@.len() as int),
            forall|i: int| old(events)@.len() <= i < final(events)@.len() ==> is_move_event(
                #[trigger] final(events)@[i],
            ),
            final(events)@.len() > old(events)@.len() ==> final(falling).lock_delay
                == old(self).config.lock_delay && final(falling).piece == spec_moved(
                old(falling).piece,
                dx as int,
                0,
            ) && final(events)@ == old(events)@.push(Event::PieceMoved) && final(self).used == (
            if dx == -1 {
                Controller { left: false, ..old(self).used }
            } else {
                Controller { right: false, ..old(self).used }
            }) && final(falling).rotation_move_count >= old(falling).rotation_move_count,
            final(events)@.len() == old(events)@.len() ==> *final(falling) == *old(falling)
                && final(self).used == old(self).used,
            (if dx == -1 { !old(self).used.left } else { !old(self).used.right })
                ==> *final(falling) == *old(falling) && final(self).used == old(self).used
                && final(events)@ == old(events)@,
    {
        let pressed = if dx == -1 { self.used.left } else { self.used.right };
        if pressed {
            if falling.piece.shift(&self.board, dx, 0) {
                if dx == -1 {
                    self.used.left = false;
                } else {
                    self.used.right = false;
                }
                falling.rotation_move_count = bump(falling.rotation_move_count);
                falling.lock_delay = self.config.lock_delay;
                let ghost len0 = events@.len() as int;
                events.push(Event::PieceMoved);
                proof {
                    assert(old(events)@ =~= events@.take(len0));
                }
            }
        }
    }

    /// One frame of the falling mode, in the fixed order: hold, rotations,
    /// shifts, the lowest-row bookkeeping, the 15-move forced lock, hard
    /// drop, then either the lock-delay countdown on the stack or gravity
    /// and soft drop in the air, and finally the falling/shadow report.
    fn tick_falling<R: rand::Rng>(&mut self, f0: FallingState, garbage_rng: &mut R) -> (events:
        Vec<Event>)
        requires
            old(self).wf(),
            old(self).state matches GameState::Falling(g) && g == f0,
        ensures
            final(self).wf(),
            falling_rel(*old(self), f0, *final(self), events@),
            !has_spawn_delay_start(events@),
    {
        let mut falling = f0;
        let mut events: Vec<Event> = Vec::new();

        // Hold
        if !self.did_hold && self.used.hold {
            self.did_hold = true;
            events.push(Event::PieceHeld(falling.piece.kind));
            match self.board.hold(falling.piece.kind) {
                Some(piece) => {
                    // A piece was waiting in hold: it spawns instantly.
                    match FallingPiece::spawn(piece, &self.board) {
                        Some(spawned) => {
                            proof {
                                spawned.lemma_cells_near();
                            }
                            let low = spawned.min_cell_y();
                            falling = FallingState {
                                piece: spawned,
                                lowest_y: low,
                                rotation_move_count: 0,
                                gravity: self.config.gravity,
                                lock_delay: 30,
                                soft_drop_delay: 0,
                            };
                            self.state = GameState::Falling(falling);
                            let mut shadow = spawned;
                            shadow.sonic_drop(&self.board);
                            events.push(Event::PieceFalling(spawned, shadow));
                        },
                        None => {
                            // The held piece cannot spawn: block-out.
                            self.state = GameState::GameOver;
                            events.push(Event::GameOver);
                        },
                    }
                },
                None => {
                    // Nothing was held yet: the next piece spawns normally.
                    self.state = GameState::SpawnDelay(self.config.spawn_delay);
                },
            }
            return events;
        }

        self.tick_piece(f0, garbage_rng)
    }

    /// The non-hold part of a falling frame: rotations, shifts, the
    /// 15-move rule, hard drop, lock delay, gravity and soft drop.
    #[verifier::rlimit(100)]
    #[verifier::spinoff_prover]
    fn tick_piece<R: rand::Rng>(&mut self, f0: FallingState, garbage_rng: &mut R) -> (events:
        Vec<Event>)
        requires
            old(self).wf(),
            old(self).state matches GameState::Falling(g) && g == f0,
            old(self).did_hold || !old(self).used.hold,
        ensures
            final(self).wf(),
            falling_rel(*old(self), f0, *final(self), events@),
            !has_spawn_delay_start(events@),
            !has_held(events@),
    {
        let mut falling = f0;
        let mut events: Vec<Event> = Vec::new();
        let was_on_stack = self.board.on_stack(&falling.piece);
        // Rotate
        self.try_rotate(&mut falling, &mut events, true);
        let ghost e1 = events@;
        self.try_rotate(&mut falling, &mut events, false);
        let ghost e2 = events@;

        // Shift
        self.try_shift(&mut falling, &mut events, -1);
        let ghost e3 = events@;
        self.try_shift(&mut falling, &mut events, 1);
        proof {
            assert forall|i: int| 0 <= i < events@.len() implies is_move_event(
                #[trigger] events@[i],
            ) by {
                if i < e3.len() {
                    assert(events@[i] == events@.take(e3.len() as int)[i]);
                    if i < e2.len() {
                        assert(e3[i] == e3.take(e2.len() as int)[i]);
                        if i < e1.len() {
                            assert(e2[i] == e2.take(e1.len() as int)[i]);
                        }
                    }
                }
            }
        }

        // Reset of the 15-move rule when the piece reaches a new lowest row
        let low_y = falling.piece.min_cell_y();
        if low_y < falling.lowest_y {
            falling.rotation_move_count = 0;
            falling.lowest_y = low_y;
        }

        proof {
            crate::board::lemma_dropped_min_y(self.board, f0.piece);
            assert(has_move_event(events@) ==> falling.lock_delay == self.config.lock_delay);
        }
        self.tick_resolve(falling, was_on_stack, &mut events, garbage_rng);
        events
    }

    /// The forced-lock and descent part of a falling frame: the 15-move
    /// rule, hard drop, and otherwise the lock-delay or gravity step.
    #[verifier::rlimit(100)]
    #[verifier::spinoff_prover]
    fn tick_resolve<R: rand::Rng>(
        &mut self,
        falling: FallingState,
        was_on_stack: bool,
        events: &mut Vec<Event>,
        garbage_rng: &mut R,
    )
        requires
            old(self).wf(),
            old(self).state is Falling,
            falling.piece.wf(),
            spec_fits(old(self).board, falling.piece),
            1 <= falling.lock_delay,
            0 <= falling.gravity <= old(self).config.gravity,
            forall|i: int| 0 <= i < old(events)@.len() ==> is_move_event(
                #[trigger] old(events)@[i],
            ),
            has_move_event(old(events)@) ==> falling.lock_delay == old(self).config.lock_delay,
        ensures
            final(self).wf(),
            final(self).config == old(self).config,
            final(self).prev == old(self).prev,
            final(self).das_delay == old(self).das_delay,
            final(self).used == old(self).used,
            final(self).attacking > 0 ==> final(self).state is LineClearDelay,
            final(events)@.len() >= old(events)@.len(),
            old(events)@ == final(events)@.take(old(events)@.len() as int),
            forall|i: int| 0 <= i < final(events)@.len() ==> !is_held(
                #[trigger] final(events)@[i],
            ) && !(final(events)@[i] is SpawnDelayStart),
            has_placed(final(events)@) ==> !final(self).did_hold,
            !has_placed(final(events)@) ==> final(self).did_hold == old(self).did_hold
                && final(self).state is Falling,
            final(self).state is GameOver ==> final(events)@.len() >= 1
                && final(events)@[final(events)@.len() - 1] is GameOver,
            falling.rotation_move_count >= old(self).config.move_lock_rule && spec_min_y(
                spec_dropped(old(self).board, falling.piece),
            ) >= falling.lowest_y ==> has_placed(final(events)@),
            old(self).used.hard_drop ==> has_placed(final(events)@),
            has_move_event(final(events)@) ==> (final(self).state matches GameState::Falling(f2)
                ==> f2.lock_delay == old(self).config.lock_delay || f2.lock_delay + 1 == old(
                self,
            ).config.lock_delay),
            final(self).state matches GameState::Falling(f2) ==> final(self).board == old(
                self,
            ).board && final(events)@.len() >= 1 && final(events)@[final(events)@.len() - 1]
                == Event::PieceFalling(f2.piece, spec_dropped(final(self).board, f2.piece)),
            final(self).state matches GameState::Falling(f2) ==> (f2.rotation_move_count >= old(
                self,
            ).config.move_lock_rule ==> spec_min_y(spec_dropped(final(self).board, f2.piece))
                < f2.lowest_y),
    {
        let mut falling = falling;
        let ghost evs_after_moves = old(events)@;

        // The 15-move rule: too many moves force a lock, unless the piece
        // could still drop below every row it has reached.
        if falling.rotation_move_count >= self.config.move_lock_rule {
            let mut p = falling.piece;
            p.sonic_drop(&self.board);
            let low2 = p.min_cell_y();
            if low2 >= falling.lowest_y {
                let mut fl = falling;
                fl.piece = p;
                let ghost evs_before_lock = events@;
                self.lock(fl, events, garbage_rng, None);
                proof {
                    assert forall|i: int| 0 <= i < events@.len() implies !is_held(
                        #[trigger] events@[i],
                    ) && !(events@[i] is SpawnDelayStart) by {
                        if i < evs_before_lock.len() {
                            assert(events@[i] == events@.take(evs_before_lock.len() as int)[i]);
                            assert(events@[i] == evs_before_lock[i]);
                            if i < evs_after_moves.len() {
                                assert(is_move_event(evs_after_moves[i]));
                            }
                        }
                    }
                    assert(has_placed(events@));
                }
                return;
            }
        }

        // Hard drop
        if self.used.hard_drop {
            let y0 = falling.piece.y;
            falling.piece.sonic_drop(&self.board);
            let distance = y0 - falling.piece.y;
            let ghost evs_before_lock = events@;
            self.lock(falling, events, garbage_rng, Some(distance));
            proof {
                assert forall|i: int| 0 <= i < events@.len() implies !is_held(
                    #[trigger] events@[i],
                ) && !(events@[i] is SpawnDelayStart) by {
                    if i < evs_before_lock.len() {
                        assert(events@[i] == events@.take(evs_before_lock.len() as int)[i]);
                        assert(events@[i] == evs_before_lock[i]);
                    }
                }
                assert(has_placed(events@));
            }
            return;
        }

        self.tick_descend(falling, was_on_stack, events, garbage_rng);
    }

    /// The airborne part of a frame: gravity pays out in whole cells, then
    /// soft drop may add one more, and the lock delay stays fully charged.
    #[verifier::spinoff_prover]
    fn fall_step(&self, falling: &mut FallingState, events: &mut Vec<Event>)
        requires
            self.config.wf(),
            self.board.wf(),
            old(falling).piece.wf(),
            spec_fits(self.board, old(falling).piece),
            0 <= old(falling).gravity <= self.config.gravity,
        ensures
            final(falling).piece.wf(),
            spec_fits(self.board, final(falling).piece),
            final(falling).lock_delay == self.config.lock_delay,
            0 <= final(falling).gravity <= self.config.gravity,
            final(falling).rotation_move_count == old(falling).rotation_move_count,
            final(falling).lowest_y == old(falling).lowest_y,
            spec_dropped(self.board, final(falling).piece) == spec_dropped(
                self.board,
                old(falling).piece,
            ),
            final(events)@.len() >= old(events)@.len(),
            old(events)@ == final(events)@.take(old(events)@.len() as int),
            forall|i: int| old(events)@.len() <= i < final(events)@.len() ==> !is_held(
                #[trigger] final(events)@[i],
            ) && !(final(events)@[i] is SpawnDelayStart) && !is_placed(final(events)@[i]),
    {
        // Gravity
        falling.lock_delay = self.config.lock_delay;
        falling.gravity = falling.gravity - 100;
        let ghost f_snap = *falling;
        while falling.gravity < 0
            invariant
                self.config.wf(),
                self.board.wf(),
                falling.piece.wf(),
                spec_fits(self.board, falling.piece),
                falling.gravity < self.config.gravity,
                falling.lock_delay == f_snap.lock_delay,
                falling.soft_drop_delay == f_snap.soft_drop_delay,
                falling.rotation_move_count == f_snap.rotation_move_count,
                falling.lowest_y == f_snap.lowest_y,
                spec_dropped(self.board, falling.piece) == spec_dropped(
                    self.board,
                    f_snap.piece,
                ),
            decreases
                    (if falling.gravity < 0 {
                        0 - falling.gravity as int
                    } else {
                        0int
                    }),
        {
            falling.gravity = falling.gravity + self.config.gravity;
            let _moved = falling.piece.shift(&self.board, 0, -1);
        }

        let ghost len0 = old(events)@.len() as int;
        if self.board.on_stack(&falling.piece) {
            events.push(Event::StackTouched);
        } else if self.config.gravity > (self.config.soft_drop_speed as i32) * 100 {
            // Soft drop, when natural gravity is the slower of the two
            if self.used.soft_drop {
                if falling.soft_drop_delay == 0 {
                    let _moved = falling.piece.shift(&self.board, 0, -1);
                    falling.soft_drop_delay = self.config.soft_drop_speed;
                    falling.gravity = self.config.gravity;
                    events.push(Event::PieceMoved);
                    if self.board.on_stack(&falling.piece) {
                        events.push(Event::StackTouched);
                    }
                    events.push(Event::SoftDropped);
                } else {
                    falling.soft_drop_delay = falling.soft_drop_delay - 1;
                }
            } else {
                falling.soft_drop_delay = 0;
            }
        }
        proof {
            assert(old(events)@ =~= events@.take(len0));
        }
    }

    /// The descent phase of a falling frame: the lock-delay countdown on
    /// the stack, or gravity and soft drop in the air, and the final
    /// falling/shadow report.
    #[verifier::rlimit(100)]
    #[verifier::spinoff_prover]
    fn tick_descend<R: rand::Rng>(
        &mut self,
        f1: FallingState,
        was_on_stack: bool,
        events: &mut Vec<Event>,
        garbage_rng: &mut R,
    )
        requires
            old(self).wf(),
            old(self).state is Falling,
            f1.piece.wf(),
            spec_fits(old(self).board, f1.piece),
            1 <= f1.lock_delay,
            0 <= f1.gravity <= old(self).config.gravity,
            forall|i: int| 0 <= i < old(events)@.len() ==> is_move_event(
                #[trigger] old(events)@[i],
            ),
        ensures
            final(self).wf(),
            final(self).config == old(self).config,
            final(self).prev == old(self).prev,
            final(self).das_delay == old(self).das_delay,
            final(self).attacking > 0 ==> final(self).state is LineClearDelay,
            final(events)@.len() >= old(events)@.len(),
            old(events)@ == final(events)@.take(old(events)@.len() as int),
            forall|i: int| 0 <= i < final(events)@.len() ==> !is_held(
                #[trigger] final(events)@[i],
            ) && !(final(events)@[i] is SpawnDelayStart),
            has_placed(final(events)@) ==> !final(self).did_hold,
            !has_placed(final(events)@) ==> final(self).did_hold == old(self).did_hold
                && final(self).state is Falling,
            final(self).state matches GameState::Falling(f2) ==> f2.lock_delay
                == old(self).config.lock_delay || (f2.lock_delay + 1 == f1.lock_delay
                && (has_move_event(final(events)@) ==> has_move_event(old(events)@))),
            final(self).state is GameOver ==> final(events)@.len() >= 1
                && final(events)@[final(events)@.len() - 1] is GameOver,
            final(self).used == old(self).used,
            final(self).state matches GameState::Falling(f2) ==> final(self).board == old(
                self,
            ).board && final(events)@.len() >= 1 && final(events)@[final(events)@.len() - 1]
                == Event::PieceFalling(f2.piece, spec_dropped(final(self).board, f2.piece)),
            final(self).state matches GameState::Falling(f2) ==> f2.rotation_move_count
                == f1.rotation_move_count && f2.lowest_y == f1.lowest_y && spec_dropped(
                old(self).board,
                f2.piece,
            ) == spec_dropped(old(self).board, f1.piece),
    {
        let mut falling = f1;
        if self.board.on_stack(&falling.piece) {
            // Lock delay
            if !was_on_stack {
                events.push(Event::StackTouched);
            }
            falling.lock_delay = falling.lock_delay - 1;
            falling.gravity = self.config.gravity;
            if falling.lock_delay == 0 {
                let ghost evs_before_lock = events@;
                self.lock(falling, events, garbage_rng, None);
                proof {
                    assert forall|i: int| 0 <= i < events@.len() implies !is_held(
                        #[trigger] events@[i],
                    ) && !(events@[i] is SpawnDelayStart) by {
                        if i < evs_before_lock.len() {
                            assert(events@[i] == events@.take(evs_before_lock.len() as int)[i]);
                            assert(events@[i] == evs_before_lock[i]);
                            if i < old(events)@.len() {
                                assert(is_move_event(old(events)@[i]));
                            }
                        }
                    }
                    assert(has_placed(events@));
                }
                return;
            }
            proof {
                assert(falling.lock_delay >= 1);
            }
            self.state = GameState::Falling(falling);
        } else {
            self.fall_step(&mut falling, events);
            self.state = GameState::Falling(falling);
        }

        let mut shadow = falling.piece;
        shadow.sonic_drop(&self.board);
        events.push(Event::PieceFalling(falling.piece, shadow));
        proof {
            assert forall|i: int| 0 <= i < events@.len() implies !is_held(
                #[trigger] events@[i],
            ) && !(events@[i] is SpawnDelayStart) by {
                if i < old(events)@.len() {
                    assert(is_move_event(old(events)@[i]));
                }
            }
            if has_placed(events@) {
                let i = choose|i: int| 0 <= i < events@.len() && is_placed(#[trigger] events@[i]);
                if i < old(events)@.len() {
                    assert(is_move_event(old(events)@[i]));
                }
            }
            if has_move_event(events@) {
                let i = choose|i: int|
                    0 <= i < events@.len() && is_move_event(#[trigger] events@[i]);
                if i < old(events)@.len() {
                    assert(is_move_event(old(events)@[i]));
                    assert(has_move_event(old(events)@));
                }
            }
            assert(old(events)@ =~= events@.take(old(events)@.len() as int));
        }
    }
}


} // verus!
