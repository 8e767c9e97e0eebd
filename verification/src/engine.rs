//! The transition engine: the life/death rule, applied independently and
//! simultaneously to every cell of a board to produce the next generation.

use vstd::prelude::*;

use crate::board::{
    bottom_index, bottom_left_index, bottom_right_index, get_bottom, get_bottom_left,
    get_bottom_right, get_left, get_right, get_top, get_top_left, get_top_right, left_index,
    right_index, top_index, top_left_index, top_right_index, Board, LifeState,
};

verus! {

/// The states of the eight neighbors of a cell, in the fixed order
/// (top-left, top, top-right, left, right, bottom-left, bottom,
/// bottom-right).
pub type Neighbours = (
    LifeState,
    LifeState,
    LifeState,
    LifeState,
    LifeState,
    LifeState,
    LifeState,
    LifeState,
);

/// 1 for a live cell, 0 for a dead one.
pub open spec fn alive_weight(c: LifeState) -> int {
    match c {
        LifeState::Alive => 1,
        LifeState::Dead => 0,
    }
}

/// How many of the eight neighbor states are `Alive`.
pub open spec fn alive_count(n: Neighbours) -> int {
    alive_weight(n.0) + alive_weight(n.1) + alive_weight(n.2) + alive_weight(n.3)
        + alive_weight(n.4) + alive_weight(n.5) + alive_weight(n.6) + alive_weight(n.7)
}

/// The life/death rule for one cell, given its current state and the number
/// of its live neighbors: more than three live neighbors kill the cell,
/// fewer than two kill it, exactly three makes it live whatever it was, and
/// exactly two leaves it unchanged.
pub open spec fn next_state_rule(current: LifeState, alive: int) -> LifeState {
    if alive > 3 {
        LifeState::Dead
    } else if alive < 2 {
        LifeState::Dead
    } else if alive == 3 {
        LifeState::Alive
    } else {
        current
    }
}

/// The neighbor states of cell `i` of `board`, in the fixed order of
/// `Neighbours`.
pub open spec fn neighbour_states(board: Board, i: int) -> Neighbours {
    let w: int = board.width as int;
    let h: int = board.height as int;
    (
        board.cells@[top_left_index(i, w, h)],
        board.cells@[top_index(i, w, h)],
        board.cells@[top_right_index(i, w, h)],
        board.cells@[left_index(i, w)],
        board.cells@[right_index(i, w, h)],
        board.cells@[bottom_left_index(i, w, h)],
        board.cells@[bottom_index(i, w, h)],
        board.cells@[bottom_right_index(i, w, h)],
    )
}

/// The state of cell `i` in the generation after `board`.
pub open spec fn step_cell(board: Board, i: int) -> LifeState {
    next_state_rule(board.cells@[i], alive_count(neighbour_states(board, i)))
}

/// Underpopulation: a live cell with zero or one live neighbors dies.
pub proof fn lemma_underpopulation(alive: int)
    requires
        0 <= alive <= 1,
    ensures
        next_state_rule(LifeState::Alive, alive) == LifeState::Dead,
{
}

/// Overpopulation: a live cell with four or more live neighbors dies.
pub proof fn lemma_overpopulation(alive: int)
    requires
        4 <= alive,
    ensures
        next_state_rule(LifeState::Alive, alive) == LifeState::Dead,
{
}

/// Survival: a live cell with exactly two or exactly three live neighbors
/// stays alive.
pub proof fn lemma_survival(alive: int)
    requires
        alive == 2 || alive == 3,
    ensures
        next_state_rule(LifeState::Alive, alive) == LifeState::Alive,
{
}

/// Birth: a dead cell with exactly three live neighbors becomes alive.
pub proof fn lemma_birth()
    ensures
        next_state_rule(LifeState::Dead, 3) == LifeState::Alive,
{
}

/// The states of the eight neighbors of cell `position`, read from `board`
/// with toroidal wrapping.
pub fn neighbours(position: usize, board: &Board) -> (r: Neighbours)
    requires
        board.well_formed(),
        position < board.area(),
    ensures
        r == neighbour_states(*board, position as int),
{
    (
        board.cells[get_top_left(position, board)],
        board.cells[get_top(position, board)],
        board.cells[get_top_right(position, board)],
        board.cells[get_left(position, board)],
        board.cells[get_right(position, board)],
        board.cells[get_bottom_left(position, board)],
        board.cells[get_bottom(position, board)],
        board.cells[get_bottom_right(position, board)],
    )
}

/// The next state of a single cell, from its current state and the states of
/// its eight neighbors.
pub fn next_cell_state(current: LifeState, neighbours: Neighbours) -> (r: LifeState)
    ensures
        r == next_state_rule(current, alive_count(neighbours)),
{
    let mut count: u8 = 0;
    if neighbours.0 == LifeState::Alive {
        count = count + 1;
    }
    if neighbours.1 == LifeState::Alive {
        count = count + 1;
    }
    if neighbours.2 == LifeState::Alive {
        count = count + 1;
    }
    if neighbours.3 == LifeState::Alive {
        count = count + 1;
    }
    if neighbours.4 == LifeState::Alive {
        count = count + 1;
    }
    if neighbours.5 == LifeState::Alive {
        count = count + 1;
    }
    if neighbours.6 == LifeState::Alive {
        count = count + 1;
    }
    if neighbours.7 == LifeState::Alive {
        count = count + 1;
    }

    if count > 3 {
        return LifeState::Dead;
    }

    if count < 2 {
        return LifeState::Dead;
    }

    // Never reached: `count > 3` above already returned for four or more.
    // Kept as a deliberate no-op so the overpopulation boundary stays
    // explicit in the branch structure.
    if count == 4 {
        return LifeState::Dead;
    }

    if count == 3 {
        return LifeState::Alive;
    }

    current
}

/// One synchronous generation step: a fresh board of the same dimensions in
/// which every cell holds the state the rule assigns it, each computed from
/// the *prior* generation only.
pub fn next_board_state(board: &Board) -> (r: Board)
    requires
        board.well_formed(),
    ensures
        r.width == board.width,
        r.height == board.height,
        r.well_formed(),
        r.cells@.len() == board.cells@.len(),
        forall|j: int| 0 <= j < board.cells@.len() ==> r.cells@[j] == step_cell(*board, j),
{
    let cells_in_board: usize = board.cells.len();
    let mut new_cells: Vec<LifeState> = Vec::new();

    for position in 0..cells_in_board
        invariant
            board.well_formed(),
            cells_in_board == board.cells@.len(),
            new_cells@.len() == position,
            forall|j: int| 0 <= j < position ==> new_cells@[j] == step_cell(*board, j),
    {
        let cell_neighbours = neighbours(position, board);
        let new_cell = next_cell_state(board.cells[position], cell_neighbours);
        new_cells.push(new_cell);
    }

    Board { width: board.width, height: board.height, cells: new_cells }
}

} // verus!
