use conway::game::State;

fn setup_states() -> Vec<State> {
    let grids = vec![
        vec![
            vec![false, false, true, true],
            vec![true, true, false, false],
            vec![true, true, false, false],
            vec![false, true, false, true],
        ],
        vec![
            vec![false, false, true, false],
            vec![false, false, true, false],
            vec![false, true, false, false],
        ],
    ];

    let mut states = vec![];
    for grid in grids {
        states.push(State::from(grid));
    }
    states
}

#[test]
fn state_check_neighbours_test() {
    let states = setup_states();
    let full_tests = vec![
        vec![
            ((0, 2), 2),
            ((0, 3), 1),
            ((1, 0), 3),
            ((1, 1), 4),
            ((2, 0), 4),
            ((2, 1), 4),
            ((3, 1), 2),
            ((3, 3), 0),
        ],
        vec![((0, 2), 1), ((1, 2), 2), ((2, 1), 1)],
    ];

    let iter = states.into_iter().zip(full_tests.into_iter());
    for (state, tests) in iter {
        for test in tests {
            let (cell, result) = test;
            assert_eq!(state.check_neighbours(cell), result);
        }
    }
}

#[test]
fn state_next_step_test() {
    let states = setup_states();
    let result_grids: Vec<Vec<Vec<bool>>> = vec![
        vec![
            vec![false, true, true, false],
            vec![true, false, false, false],
            vec![false, false, false, false],
            vec![true, true, true, false],
        ],
        vec![
            vec![false, false, false, false],
            vec![false, true, true, false],
            vec![false, false, false, false],
        ],
    ];
    let mut full_results = Vec::new();
    for grid in result_grids {
        full_results.push(State::from(grid));
    }

    let iter = states.into_iter().zip(full_results.into_iter());
    for (state, result) in iter {
        assert_eq!(state.next(), result);
    }
}

#[test]
fn state_index_test() {
    let states = setup_states();

    for state in states {
        for r in 0..state.height {
            for c in 0..state.width {
                assert_eq!(state.cell_at(r, c), state.grid[r * state.width + c]);
            }
        }
    }
}
