use conway::checker::checker_frame;
use conway::game::State;
use conway::sim::Simulation;

#[test]
fn next_preserves_dimensions() {
    let state = State::from(vec![
        vec![false, true, false, true, false],
        vec![true, false, true, false, true],
        vec![false, false, true, true, false],
    ]);
    let next = state.next();
    assert_eq!(next.width, state.width);
    assert_eq!(next.height, state.height);
    assert_eq!(next.grid.len(), next.width * next.height);
}

#[test]
fn single_cell_dies() {
    let lone = State::from(vec![vec![true]]);
    assert_eq!(lone.check_neighbours((0, 0)), 0);
    let next = lone.next();
    assert_eq!(next.cell_at(0, 0), false);
}

#[test]
fn corner_cell_does_not_count_itself() {
    let corner = State::from(vec![
        vec![true, false, false],
        vec![false, false, false],
        vec![false, false, false],
    ]);
    assert_eq!(corner.check_neighbours((0, 0)), 0);
}

#[test]
fn block_is_a_fixed_point() {
    let block = State::from(vec![vec![true, true], vec![true, true]]);
    let next = block.next();
    let expected = State::from(vec![vec![true, true], vec![true, true]]);
    assert_eq!(next, expected);
}

#[test]
fn blinker_oscillates_with_period_two() {
    let vertical = State::from(vec![
        vec![false, true, false],
        vec![false, true, false],
        vec![false, true, false],
    ]);
    let horizontal = State::from(vec![
        vec![false, false, false],
        vec![true, true, true],
        vec![false, false, false],
    ]);
    let once = vertical.next();
    assert_eq!(once, horizontal);
    let twice = once.next();
    let expected = State::from(vec![
        vec![false, true, false],
        vec![false, true, false],
        vec![false, true, false],
    ]);
    assert_eq!(twice, expected);
}

#[test]
fn worked_example() {
    let state = State::from(vec![
        vec![false, false, true, true],
        vec![true, true, false, false],
        vec![true, true, false, false],
        vec![false, true, false, true],
    ]);
    assert_eq!(state.check_neighbours((1, 1)), 4);
    let expected = State::from(vec![
        vec![false, true, true, false],
        vec![true, false, false, false],
        vec![false, false, false, false],
        vec![true, true, true, false],
    ]);
    assert_eq!(state.next(), expected);
}

#[test]
fn zero_weight_gives_all_dead() {
    let state = State::random(0, 1_000_000, (8, 5));
    assert_eq!(state.width, 8);
    assert_eq!(state.height, 5);
    for r in 0..state.height {
        for c in 0..state.width {
            assert_eq!(state.cell_at(r, c), false);
        }
    }
}

#[test]
fn full_weight_gives_all_live() {
    let state = State::random(1_000_000, 1_000_000, (8, 5));
    assert_eq!(state.width, 8);
    assert_eq!(state.height, 5);
    for r in 0..state.height {
        for c in 0..state.width {
            assert_eq!(state.cell_at(r, c), true);
        }
    }
}

#[test]
fn render_uses_two_columns_per_cell() {
    let state = State::from(vec![vec![true, false]]);
    assert_eq!(state.render(), "##  \n");
    let block = State::from(vec![vec![true, true], vec![true, true]]);
    assert_eq!(block.render(), "####\n####\n");
}

#[test]
fn center_picks_the_middle() {
    let state = State::from(vec![
        vec![false, false, true, true],
        vec![true, true, false, false],
        vec![true, true, false, false],
        vec![false, true, false, true],
    ]);
    let view = state.center((2, 2));
    assert_eq!(view.width, 2);
    assert_eq!(view.height, 2);
    assert_eq!(view.cell_at(0, 0), true);
    assert_eq!(view.cell_at(0, 1), false);
    assert_eq!(view.cell_at(1, 0), true);
    assert_eq!(view.cell_at(1, 1), false);
}

#[test]
fn center_clamps_to_the_grid() {
    let state = State::from(vec![vec![true, false], vec![false, true]]);
    let view = state.center((100, 100));
    let expected = State::from(vec![vec![true, false], vec![false, true]]);
    assert_eq!(view, expected);
}

#[test]
fn centered_text_matches_the_viewport() {
    let state = State::from(vec![
        vec![false, false, true, true],
        vec![true, true, false, false],
        vec![true, true, false, false],
        vec![false, true, false, true],
    ]);
    assert_eq!(state.centered_text((2, 2)), "##  \n##  \n");
}

#[test]
fn tick_stops_on_the_flag() {
    let block = State::from(vec![vec![true, true], vec![true, true]]);
    let mut sim = Simulation::new(block);
    let frame = sim.tick(true, (2, 2));
    assert!(frame.is_none());
    let expected = State::from(vec![vec![true, true], vec![true, true]]);
    assert_eq!(sim.current, expected);
}

#[test]
fn tick_renders_and_advances() {
    let vertical = State::from(vec![
        vec![false, true, false],
        vec![false, true, false],
        vec![false, true, false],
    ]);
    let mut sim = Simulation::new(vertical);
    let frame = sim.tick(false, (3, 3));
    assert_eq!(frame.unwrap(), "  ##  \n  ##  \n  ##  \n");
    let horizontal = State::from(vec![
        vec![false, false, false],
        vec![true, true, true],
        vec![false, false, false],
    ]);
    assert_eq!(sim.current, horizontal);
}

#[test]
fn checker_frame_alternates() {
    let odd_start = " X".repeat(21) + " ";
    let even_start = "X ".repeat(21) + "X";

    let frame = checker_frame(1);
    let lines: Vec<&str> = frame.lines().collect();
    assert_eq!(lines.len(), 19);
    for (i, line) in lines.iter().enumerate() {
        if i % 2 == 0 {
            assert_eq!(*line, odd_start);
        } else {
            assert_eq!(*line, even_start);
        }
    }

    let other = checker_frame(0);
    let other_lines: Vec<&str> = other.lines().collect();
    assert_eq!(other_lines.len(), 19);
    for (i, line) in other_lines.iter().enumerate() {
        if i % 2 == 0 {
            assert_eq!(*line, even_start);
        } else {
            assert_eq!(*line, odd_start);
        }
    }
}
