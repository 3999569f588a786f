use battle::{
    Controller, Event, FallingPiece, FallingState, Game, GameConfig, GameState, Piece, TspinStatus,
};
use rand::rngs::StdRng;
use rand::SeedableRng;

fn cfg() -> GameConfig {
    GameConfig {
        spawn_delay: 0,
        line_clear_delay: 2,
        delayed_auto_shift: 10,
        auto_repeat_rate: 2,
        gravity: 10000,
        soft_drop_speed: 1,
        lock_delay: 30,
        move_lock_rule: 15,
        next_queue_size: 1,
        max_garbage_add: 10,
    }
}

fn tick(game: &mut Game, ctrl: Controller) -> Vec<Event> {
    let mut r1 = StdRng::seed_from_u64(11);
    let mut r2 = StdRng::seed_from_u64(12);
    game.update(ctrl, &mut r1, &mut r2)
}

fn held(left: bool, right: bool) -> Controller {
    Controller {
        left,
        right,
        ..Controller::default()
    }
}

fn fill_row_except(game: &mut Game, y: usize, holes: &[usize]) {
    for x in 0..10 {
        if !holes.contains(&x) {
            game.board.cells[y * 10 + x] = true;
        }
    }
}

#[test]
fn new_game_primes_queue_and_waits() {
    let mut rng = StdRng::seed_from_u64(1);
    let mut c = cfg();
    c.spawn_delay = 7;
    c.next_queue_size = 5;
    let game = Game::new(c, &mut rng);
    assert_eq!(game.board.next_queue.len(), 5);
    assert_eq!(game.garbage_queue, 0);
    assert!(matches!(game.state, GameState::SpawnDelay(7)));
    assert!(game.board.hold_piece.is_none());
    assert!(game.board.cells.iter().all(|c| !c));
}

#[test]
fn spawn_delay_start_on_first_countdown_frame() {
    let mut rng = StdRng::seed_from_u64(1);
    let mut c = cfg();
    c.spawn_delay = 3;
    let mut game = Game::new(c, &mut rng);
    let e0 = tick(&mut game, Controller::default());
    assert_eq!(e0, vec![Event::SpawnDelayStart]);
    let e1 = tick(&mut game, Controller::default());
    assert_eq!(e1, vec![]);
    let e2 = tick(&mut game, Controller::default());
    assert_eq!(e2, vec![]);
    let e3 = tick(&mut game, Controller::default());
    assert!(matches!(e3[0], Event::PieceSpawned { .. }));
}

#[test]
fn spawn_reports_queue_tail_and_conserves_length() {
    let mut rng = StdRng::seed_from_u64(3);
    let mut c = cfg();
    c.next_queue_size = 3;
    let mut game = Game::new(c, &mut rng);
    for _ in 0..3 {
        // spawn frame
        let evs = tick(&mut game, Controller::default());
        match &evs[0] {
            Event::PieceSpawned { new_in_queue } => {
                assert_eq!(game.board.next_queue.len(), 3);
                assert_eq!(*game.board.next_queue.last().unwrap(), *new_in_queue);
            }
            other => panic!("expected a spawn, got {:?}", other),
        }
        // drop it and return to spawn delay
        let evs = tick(
            &mut game,
            Controller {
                hard_drop: true,
                ..Controller::default()
            },
        );
        assert!(evs.iter().any(|e| matches!(e, Event::PiecePlaced { .. })));
    }
}

#[test]
fn hard_drop_locks_with_distance() {
    let mut rng = StdRng::seed_from_u64(5);
    let mut game = Game::new(cfg(), &mut rng);
    let _ = tick(&mut game, Controller::default()); // spawn at y = 20
    let evs = tick(
        &mut game,
        Controller {
            hard_drop: true,
            ..Controller::default()
        },
    );
    assert_eq!(evs.len(), 1);
    match &evs[0] {
        Event::PiecePlaced {
            hard_drop_distance,
            locked,
            ..
        } => {
            assert_eq!(*hard_drop_distance, Some(20));
            assert!(!locked.locked_out);
            assert!(locked.cleared_lines.is_empty());
        }
        other => panic!("expected a lock, got {:?}", other),
    }
    assert!(matches!(game.state, GameState::SpawnDelay(_)));
}

#[test]
fn lock_above_visible_field_is_game_over() {
    let mut rng = StdRng::seed_from_u64(7);
    let mut game = Game::new(cfg(), &mut rng);
    let _ = tick(&mut game, Controller::default()); // spawn at y = 20
    fill_row_except(&mut game, 19, &[]); // the piece rests right at spawn
    let evs = tick(
        &mut game,
        Controller {
            hard_drop: true,
            ..Controller::default()
        },
    );
    assert!(matches!(evs[0], Event::PiecePlaced { .. }));
    assert_eq!(*evs.last().unwrap(), Event::GameOver);
    assert!(matches!(game.state, GameState::GameOver));
    // terminality: every further tick reports exactly game over
    for _ in 0..3 {
        let evs = tick(&mut game, Controller::default());
        assert_eq!(evs, vec![Event::GameOver]);
    }
}

#[test]
fn blocked_spawn_is_game_over() {
    let mut rng = StdRng::seed_from_u64(9);
    let mut game = Game::new(cfg(), &mut rng);
    fill_row_except(&mut game, 20, &[]);
    fill_row_except(&mut game, 21, &[]);
    let evs = tick(&mut game, Controller::default());
    assert_eq!(evs, vec![Event::GameOver]);
    assert!(matches!(game.state, GameState::GameOver));
}

#[test]
fn idle_update_during_game_over_changes_nothing() {
    let mut rng = StdRng::seed_from_u64(13);
    let mut game = Game::new(cfg(), &mut rng);
    game.state = GameState::GameOver;
    let queue_before = game.board.next_queue.clone();
    let evs = tick(&mut game, Controller::default());
    assert_eq!(evs, vec![Event::GameOver]);
    assert_eq!(game.board.next_queue, queue_before);
    assert_eq!(game.garbage_queue, 0);
    assert_eq!(game.attacking, 0);
    assert_eq!(game.das_delay, cfg().delayed_auto_shift);
    assert_eq!(game.prev, Controller::default());
    assert!(!game.did_hold);
}

#[test]
fn hold_swaps_and_is_limited_to_one_per_piece() {
    let mut rng = StdRng::seed_from_u64(17);
    let mut game = Game::new(cfg(), &mut rng);
    let _ = tick(&mut game, Controller::default()); // spawn
    let kind0 = match game.state {
        GameState::Falling(f) => f.piece.kind,
        _ => panic!("expected a falling piece"),
    };
    let hold_ctrl = Controller {
        hold: true,
        ..Controller::default()
    };
    // first hold: nothing was held, the slot fills and the next piece spawns
    let evs = tick(&mut game, hold_ctrl);
    assert_eq!(evs, vec![Event::PieceHeld(kind0)]);
    assert_eq!(game.board.hold_piece, Some(kind0));
    assert!(game.did_hold);
    // a second hold before any lock is ignored: the hold stays consumed
    let _ = tick(&mut game, Controller::default()); // next piece spawns
    let evs = tick(&mut game, hold_ctrl);
    assert!(evs.iter().all(|e| !matches!(e, Event::PieceHeld(_))));
    // a lock re-arms the hold
    let evs = tick(
        &mut game,
        Controller {
            hard_drop: true,
            ..Controller::default()
        },
    );
    assert!(evs.iter().any(|e| matches!(e, Event::PiecePlaced { .. })));
    assert!(!game.did_hold);
    let _ = tick(&mut game, Controller::default()); // next piece spawns
    let kind2 = match game.state {
        GameState::Falling(f) => f.piece.kind,
        _ => panic!("expected a falling piece"),
    };
    // now holding swaps with the slot and the held piece spawns instantly
    let evs = tick(&mut game, hold_ctrl);
    assert!(matches!(evs[0], Event::PieceHeld(k) if k == kind2));
    match game.state {
        GameState::Falling(f) => assert_eq!(f.piece.kind, kind0),
        _ => panic!("expected the held piece to spawn"),
    }
    assert_eq!(game.board.hold_piece, Some(kind2));
}

#[test]
fn garbage_cancels_against_pending_attack() {
    let mut rng = StdRng::seed_from_u64(19);
    let mut game = Game::new(cfg(), &mut rng);
    game.state = GameState::LineClearDelay(0);
    game.attacking = 6;
    game.garbage_queue = 4;
    let evs = tick(&mut game, Controller::default());
    assert_eq!(
        evs,
        vec![Event::EndOfLineClearDelay, Event::GarbageSent(2)]
    );
    assert_eq!(game.garbage_queue, 0);
    assert_eq!(game.attacking, 0);
}

#[test]
fn line_clear_delay_gates_garbage() {
    let mut rng = StdRng::seed_from_u64(23);
    let mut game = Game::new(cfg(), &mut rng);
    game.board.next_queue[0] = Piece::I;
    game.garbage_queue = 4;
    fill_row_except(&mut game, 0, &[4]);
    let _ = tick(&mut game, Controller::default()); // spawn the I piece
    let evs = tick(
        &mut game,
        Controller {
            rotate_right: true,
            ..Controller::default()
        },
    );
    assert!(evs.contains(&Event::PieceRotated));
    let evs = tick(
        &mut game,
        Controller {
            hard_drop: true,
            ..Controller::default()
        },
    );
    // a vertical I in the hole clears exactly the bottom row
    match &evs[0] {
        Event::PiecePlaced { locked, .. } => {
            assert_eq!(locked.cleared_lines, vec![0]);
            assert_eq!(locked.garbage_sent, 0);
        }
        other => panic!("expected a lock, got {:?}", other),
    }
    assert!(evs.iter().all(|e| !matches!(e, Event::GarbageAdded(_))));
    assert!(matches!(game.state, GameState::LineClearDelay(2)));
    // no garbage while the clear delay runs
    assert_eq!(tick(&mut game, Controller::default()), vec![]);
    assert_eq!(tick(&mut game, Controller::default()), vec![]);
    // the delay ends and the garbage arrives in the same tick
    let evs = tick(&mut game, Controller::default());
    assert_eq!(evs[0], Event::EndOfLineClearDelay);
    match &evs[1] {
        Event::GarbageAdded(cols) => {
            assert_eq!(cols.len(), 4);
            assert!(cols.iter().all(|c| *c < 10));
        }
        other => panic!("expected garbage, got {:?}", other),
    }
    assert_eq!(game.garbage_queue, 0);
}

#[test]
fn t_spin_rotation_is_classified_and_scores() {
    let mut rng = StdRng::seed_from_u64(29);
    let mut game = Game::new(cfg(), &mut rng);
    fill_row_except(&mut game, 0, &[4]);
    fill_row_except(&mut game, 1, &[3, 4, 5]);
    fill_row_except(&mut game, 2, &[4, 5]);
    game.state = GameState::Falling(FallingState {
        piece: FallingPiece {
            kind: Piece::T,
            x: 4,
            y: 1,
            rotation: 1,
            tspin: TspinStatus::NoSpin,
        },
        lowest_y: 0,
        rotation_move_count: 0,
        gravity: 10000,
        lock_delay: 30,
        soft_drop_delay: 0,
    });
    let evs = tick(
        &mut game,
        Controller {
            rotate_right: true,
            ..Controller::default()
        },
    );
    assert!(evs.contains(&Event::PieceTSpined));
    let evs = tick(
        &mut game,
        Controller {
            hard_drop: true,
            ..Controller::default()
        },
    );
    match &evs[0] {
        Event::PiecePlaced { locked, piece, .. } => {
            assert_eq!(piece.tspin, TspinStatus::Full);
            assert_eq!(locked.cleared_lines, vec![0, 1]);
            assert_eq!(locked.garbage_sent, 4);
        }
        other => panic!("expected a lock, got {:?}", other),
    }
}

#[test]
fn das_charge_prevents_double_shift_on_spawn() {
    let mut rng = StdRng::seed_from_u64(31);
    let mut game = Game::new(cfg(), &mut rng);
    game.board.next_queue[0] = Piece::T;
    let mut moves_per_frame = Vec::new();
    for _ in 0..=30 {
        let evs = tick(&mut game, held(true, false));
        moves_per_frame.push(
            evs.iter()
                .filter(|e| matches!(e, Event::PieceMoved))
                .count(),
        );
    }
    // the buffered press shifts once; the charge never re-fires early
    let early: usize = moves_per_frame[..10].iter().sum();
    assert_eq!(early, 1);
    // a T piece can shift left three times before the wall stops it
    let total: usize = moves_per_frame.iter().sum();
    assert_eq!(total, 3);
    // auto-repeat never shifts on consecutive frames
    for w in moves_per_frame.windows(2) {
        assert!(w[0] + w[1] <= 1);
    }
}

#[test]
fn gravity_lands_and_lock_delay_locks() {
    let mut rng = StdRng::seed_from_u64(37);
    let mut c = cfg();
    c.gravity = 100; // one cell per frame
    c.lock_delay = 5;
    let mut game = Game::new(c, &mut rng);
    let mut touched = false;
    let mut placed = false;
    for _ in 0..60 {
        let evs = tick(&mut game, Controller::default());
        touched |= evs.contains(&Event::StackTouched);
        placed |= evs.iter().any(|e| matches!(e, Event::PiecePlaced { .. }));
        if placed {
            break;
        }
    }
    assert!(touched);
    assert!(placed);
}

#[test]
fn identical_seeds_and_inputs_replay_identically() {
    let mut ra = StdRng::seed_from_u64(41);
    let mut rb = StdRng::seed_from_u64(41);
    let mut c = cfg();
    c.gravity = 200;
    c.lock_delay = 8;
    c.next_queue_size = 4;
    let mut ga = Game::new(c, &mut ra);
    let mut gb = Game::new(c, &mut rb);
    ga.garbage_queue = 3;
    gb.garbage_queue = 3;
    for frame in 0u64..240 {
        let ctrl = Controller {
            left: frame % 7 == 1,
            right: frame % 11 == 2,
            rotate_right: frame % 13 == 3,
            rotate_left: frame % 17 == 4,
            soft_drop: frame % 5 == 0,
            hold: frame % 23 == 6,
            hard_drop: frame % 29 == 7,
        };
        let mut pa = StdRng::seed_from_u64(1000 + frame);
        let mut qa = StdRng::seed_from_u64(2000 + frame);
        let mut pb = StdRng::seed_from_u64(1000 + frame);
        let mut qb = StdRng::seed_from_u64(2000 + frame);
        let ea = ga.update(ctrl, &mut pa, &mut qa);
        let eb = gb.update(ctrl, &mut pb, &mut qb);
        assert_eq!(ea, eb);
    }
    assert_eq!(ga.garbage_queue, gb.garbage_queue);
    assert_eq!(ga.attacking, gb.attacking);
    assert_eq!(ga.board.cells, gb.board.cells);
}
