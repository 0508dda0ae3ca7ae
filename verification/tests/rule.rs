use falling_sand::random::{chance, chance_from, fraction, fraction_from};
use falling_sand::rule::{
    launch, sand_move, Draws, Move, Surroundings, Velocity, BURIED_SPREAD, CHANCE_SCALE,
    FALL_HOLD, FRACTION_SCALE, VELOCITY_SCALE,
};

fn closed() -> Surroundings {
    Surroundings {
        above: false,
        below: false,
        below_left: false,
        below_right: false,
        below2: false,
        shaft: false,
        left2: false,
        left2_below: false,
        right2: false,
        right2_below: false,
    }
}

fn open() -> Surroundings {
    Surroundings {
        above: true,
        below: true,
        below_left: true,
        below_right: true,
        below2: true,
        shaft: true,
        left2: true,
        left2_below: true,
        right2: true,
        right2_below: true,
    }
}

fn draws() -> Draws {
    Draws { fall: 0, spread: 0, fast: false, side: false, hop: false, drift: 0, plunge: 0 }
}

fn mirror_surroundings(s: Surroundings) -> Surroundings {
    Surroundings {
        below_left: s.below_right,
        below_right: s.below_left,
        left2: s.right2,
        left2_below: s.right2_below,
        right2: s.left2,
        right2_below: s.left2_below,
        ..s
    }
}

fn mirror_move(m: Move) -> Move {
    match m {
        Move::Shift { dx, dy } => Move::Shift { dx: -dx, dy },
        other => other,
    }
}

#[test]
fn thresholds_are_a_tenth_and_a_half() {
    assert_eq!(CHANCE_SCALE, 1 << 23);
    assert_eq!(FALL_HOLD, CHANCE_SCALE / 10);
    assert_eq!(BURIED_SPREAD, CHANCE_SCALE / 2);
    assert_eq!(FRACTION_SCALE, 1 << 52);
    assert_eq!(VELOCITY_SCALE, 1 << 53);
}

#[test]
fn enclosed_pixel_stays() {
    assert_eq!(sand_move(closed(), draws()), Move::Stay);
    let buried = Surroundings { above: true, ..closed() };
    assert_eq!(sand_move(buried, draws()), Move::Stay);
}

#[test]
fn falls_one_cell_when_only_below_is_open() {
    let s = Surroundings { below: true, ..closed() };
    assert_eq!(sand_move(s, draws()), Move::Shift { dx: 0, dy: 1 });
    let coin = Draws { fast: true, ..draws() };
    assert_eq!(sand_move(s, coin), Move::Shift { dx: 0, dy: 1 });
}

#[test]
fn falls_two_cells_on_heads_when_there_is_room() {
    let s = Surroundings { below: true, below2: true, ..closed() };
    assert_eq!(sand_move(s, Draws { fast: true, ..draws() }), Move::Shift { dx: 0, dy: 2 });
    assert_eq!(sand_move(s, Draws { fast: false, ..draws() }), Move::Shift { dx: 0, dy: 1 });
}

#[test]
fn detaches_over_an_open_shaft() {
    let s = Surroundings { below: true, below2: true, shaft: true, ..closed() };
    assert_eq!(sand_move(s, draws()), Move::Detach);
    assert_eq!(sand_move(s, Draws { fast: true, ..draws() }), Move::Detach);
}

#[test]
fn fall_past_an_open_diagonal_needs_more_than_a_tenth() {
    let s = Surroundings { below: true, below_left: true, above: true, ..closed() };
    let held = Draws { fall: FALL_HOLD, ..draws() };
    assert_eq!(sand_move(s, held), Move::Shift { dx: -1, dy: 1 });
    let released = Draws { fall: FALL_HOLD + 1, ..draws() };
    assert_eq!(sand_move(s, released), Move::Shift { dx: 0, dy: 1 });
}

#[test]
fn buried_pixel_spreads_on_more_than_a_half() {
    let s = Surroundings { below_right: true, ..closed() };
    assert_eq!(sand_move(s, Draws { spread: BURIED_SPREAD, ..draws() }), Move::Stay);
    assert_eq!(
        sand_move(s, Draws { spread: BURIED_SPREAD + 1, ..draws() }),
        Move::Shift { dx: 1, dy: 1 }
    );
    let free = Surroundings { above: true, ..s };
    assert_eq!(sand_move(free, draws()), Move::Shift { dx: 1, dy: 1 });
}

#[test]
fn both_diagonals_open_follow_the_coin() {
    let s = Surroundings { above: true, below_left: true, below_right: true, ..closed() };
    assert_eq!(sand_move(s, Draws { side: true, ..draws() }), Move::Shift { dx: 1, dy: 1 });
    assert_eq!(sand_move(s, Draws { side: false, ..draws() }), Move::Shift { dx: -1, dy: 1 });
}

#[test]
fn hop_needs_heads_an_open_cell_and_support_under_it() {
    let left = Surroundings { above: true, below_left: true, left2: true, ..closed() };
    let heads = Draws { hop: true, ..draws() };
    assert_eq!(sand_move(left, heads), Move::Shift { dx: -2, dy: 1 });
    assert_eq!(sand_move(left, draws()), Move::Shift { dx: -1, dy: 1 });
    let unsupported = Surroundings { left2_below: true, ..left };
    assert_eq!(sand_move(unsupported, heads), Move::Shift { dx: -1, dy: 1 });
    let walled = Surroundings { left2: false, ..left };
    assert_eq!(sand_move(walled, heads), Move::Shift { dx: -1, dy: 1 });

    let right = Surroundings { above: true, below_right: true, right2: true, ..closed() };
    assert_eq!(sand_move(right, heads), Move::Shift { dx: 2, dy: 1 });
    assert_eq!(sand_move(right, draws()), Move::Shift { dx: 1, dy: 1 });
}

#[test]
fn isolated_pixel_never_stays() {
    for fall in [0, FALL_HOLD, FALL_HOLD + 1, CHANCE_SCALE - 1] {
        for side in [false, true] {
            let m = sand_move(open(), Draws { fall, side, ..draws() });
            let expected = if fall > FALL_HOLD {
                Move::Detach
            } else if side {
                Move::Shift { dx: 1, dy: 1 }
            } else {
                Move::Shift { dx: -1, dy: 1 }
            };
            assert_eq!(m, expected);
        }
    }
}

#[test]
fn rule_is_mirror_symmetric_on_every_surrounding() {
    for bits in 0u32..1024 {
        let s = Surroundings {
            above: bits & 1 != 0,
            below: bits & 2 != 0,
            below_left: bits & 4 != 0,
            below_right: bits & 8 != 0,
            below2: bits & 16 != 0,
            shaft: bits & 32 != 0,
            left2: bits & 64 != 0,
            left2_below: bits & 128 != 0,
            right2: bits & 256 != 0,
            right2_below: bits & 512 != 0,
        };
        for coins in 0u32..32 {
            let d = Draws {
                fall: if coins & 1 != 0 { FALL_HOLD + 1 } else { FALL_HOLD },
                spread: if coins & 2 != 0 { BURIED_SPREAD + 1 } else { BURIED_SPREAD },
                fast: coins & 4 != 0,
                side: coins & 8 != 0,
                hop: coins & 16 != 0,
                drift: 0,
                plunge: 0,
            };
            let mirrored = Draws { side: !d.side, ..d };
            assert_eq!(sand_move(mirror_surroundings(s), mirrored), mirror_move(sand_move(s, d)));
        }
    }
}

#[test]
fn launch_velocity_is_exact() {
    assert_eq!(launch(0, 0), Velocity { x: -(1 << 51), y: 1 << 53 });
    assert_eq!(
        launch(FRACTION_SCALE - 1, FRACTION_SCALE - 1),
        Velocity { x: (1 << 51) - 1, y: (1 << 54) - 2 }
    );
    assert_eq!(launch(1 << 51, 1 << 51), Velocity { x: 0, y: 3 << 52 });
}

#[test]
fn random_words_become_fractions() {
    assert_eq!(chance_from(0), 0);
    assert_eq!(chance_from(511), 0);
    assert_eq!(chance_from(512), 1);
    assert_eq!(chance_from(u32::MAX), CHANCE_SCALE - 1);
    assert_eq!(fraction_from(0), 0);
    assert_eq!(fraction_from(4096), 1);
    assert_eq!(fraction_from(u64::MAX), FRACTION_SCALE - 1);
}

#[test]
fn draws_lie_in_their_ranges() {
    let rng = fastrand::Rng::with_seed(11);
    let mut low = 0;
    for _ in 0..1000 {
        let c = chance(&rng);
        assert!(c < CHANCE_SCALE);
        assert!(fraction(&rng) < FRACTION_SCALE);
        if c <= FALL_HOLD {
            low += 1;
        }
    }
    assert!(low > 0 && low < 500);
}
