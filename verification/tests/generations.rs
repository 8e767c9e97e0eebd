use game_of_life::board::Board;
use game_of_life::board::LifeState;
use game_of_life::board::LifeState::{Alive, Dead};
use game_of_life::engine::{next_board_state, next_cell_state};

#[test]
fn static_states_work() {
    assert_eq!(
        Board {
            height: 4,
            width: 4,
            cells: vec![
                Dead, Dead, Dead, Dead, Dead, Alive, Alive, Dead, Dead, Alive, Alive, Dead,
                Dead, Dead, Dead, Dead,
            ],
        },
        next_board_state(&Board {
            height: 4,
            width: 4,
            cells: vec![
                Dead, Dead, Dead, Dead, Dead, Alive, Alive, Dead, Dead, Alive, Alive, Dead,
                Dead, Dead, Dead, Dead,
            ],
        })
    );
}

#[test]
fn oscillators_work() {
    assert_eq!(
        Board {
            height: 5,
            width: 5,
            cells: vec![
                Dead, Dead, Dead, Dead, Dead, Dead, Dead, Dead, Dead, Dead, Dead, Alive, Alive,
                Alive, Dead, Dead, Dead, Dead, Dead, Dead, Dead, Dead, Dead, Dead, Dead,
            ],
        },
        next_board_state(&Board {
            height: 5,
            width: 5,
            cells: vec![
                Dead, Dead, Dead, Dead, Dead, Dead, Dead, Alive, Dead, Dead, Dead, Dead, Alive,
                Dead, Dead, Dead, Dead, Alive, Dead, Dead, Dead, Dead, Dead, Dead, Dead,
            ],
        })
    );
}

#[test]
fn any_live_cell_with_fewer_than_two_live_neighbours_dies_as_if_by_underpopulation() {
    assert_eq!(
        LifeState::Dead,
        next_cell_state(Alive, (Dead, Dead, Dead, Dead, Dead, Dead, Dead, Dead))
    );
    assert_eq!(
        LifeState::Dead,
        next_cell_state(Alive, (Alive, Dead, Dead, Dead, Dead, Dead, Dead, Dead))
    );
    assert_eq!(
        LifeState::Dead,
        next_cell_state(Dead, (Alive, Dead, Dead, Dead, Dead, Dead, Dead, Dead))
    );
}

#[test]
fn any_live_cell_with_two_or_three_live_neighbours_lives_on_to_the_next_generation() {
    assert_eq!(
        LifeState::Alive,
        next_cell_state(Alive, (Alive, Alive, Alive, Dead, Dead, Dead, Dead, Dead))
    );
    assert_eq!(
        LifeState::Alive,
        next_cell_state(Alive, (Alive, Alive, Dead, Dead, Dead, Dead, Dead, Dead))
    );
    assert_eq!(
        LifeState::Dead,
        next_cell_state(Dead, (Alive, Alive, Dead, Dead, Dead, Dead, Dead, Dead))
    );
}

#[test]
fn any_live_cell_with_more_than_three_live_neighbours_dies_as_if_by_overpopulation() {
    assert_eq!(
        LifeState::Dead,
        next_cell_state(Alive, (Alive, Alive, Alive, Alive, Dead, Dead, Dead, Dead))
    );
    assert_eq!(
        LifeState::Dead,
        next_cell_state(Alive, (Alive, Alive, Alive, Alive, Alive, Dead, Dead, Dead))
    );
    assert_eq!(
        LifeState::Dead,
        next_cell_state(Dead, (Alive, Alive, Alive, Alive, Alive, Dead, Dead, Dead))
    );
}

#[test]
fn any_dead_cell_with_exactly_three_live_neighbours_becomes_a_live_cell_as_if_by_reproduction() {
    assert_eq!(
        LifeState::Alive,
        next_cell_state(Dead, (Alive, Alive, Alive, Dead, Dead, Dead, Dead, Dead))
    );
    assert_eq!(
        LifeState::Alive,
        next_cell_state(Alive, (Alive, Alive, Alive, Dead, Dead, Dead, Dead, Dead))
    );
}

#[test]
fn a_blinker_returns_after_two_steps() {
    let vertical = Board {
        height: 5,
        width: 5,
        cells: vec![
            Dead, Dead, Dead, Dead, Dead, Dead, Dead, Alive, Dead, Dead, Dead, Dead, Alive,
            Dead, Dead, Dead, Dead, Alive, Dead, Dead, Dead, Dead, Dead, Dead, Dead,
        ],
    };
    let horizontal = next_board_state(&vertical);
    // The vertical blinker is not a still life: one step changes it.
    assert_ne!(vertical, horizontal);
    // A second step restores the original pattern.
    assert_eq!(vertical, next_board_state(&horizontal));
}

#[test]
fn next_board_keeps_the_dimensions() {
    let board = Board {
        height: 2,
        width: 3,
        cells: vec![Alive, Dead, Alive, Dead, Alive, Dead],
    };
    let next = next_board_state(&board);
    assert_eq!(3, next.width);
    assert_eq!(2, next.height);
    assert_eq!(6, next.cells.len());
}

#[test]
fn exactly_two_live_neighbours_keeps_the_current_state() {
    assert_eq!(
        LifeState::Alive,
        next_cell_state(Alive, (Dead, Alive, Dead, Alive, Dead, Dead, Dead, Dead))
    );
    assert_eq!(
        LifeState::Dead,
        next_cell_state(Dead, (Dead, Alive, Dead, Alive, Dead, Dead, Dead, Dead))
    );
}

#[test]
fn eight_live_neighbours_kill_the_cell() {
    assert_eq!(
        LifeState::Dead,
        next_cell_state(Alive, (Alive, Alive, Alive, Alive, Alive, Alive, Alive, Alive))
    );
    assert_eq!(
        LifeState::Dead,
        next_cell_state(Dead, (Alive, Alive, Alive, Alive, Alive, Alive, Alive, Alive))
    );
}
