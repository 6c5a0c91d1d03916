use life::{neighbors, next_step, Board, Cell};

fn live_count(board: &Board) -> usize {
    board
        .board()
        .iter()
        .map(|row| row.iter().filter(|c| **c == Cell::Alive).count())
        .sum()
}

#[test]
fn step_alive() {
    let board = vec![vec![Cell::Alive; 3]; 3];
    let mut board = Board::with_board(board);

    next_step(&mut board);

    let expected = vec![
        vec![Cell::Alive, Cell::Dead, Cell::Alive],
        vec![Cell::Dead, Cell::Dead, Cell::Dead],
        vec![Cell::Alive, Cell::Dead, Cell::Alive],
    ];

    assert_eq!(&expected, board.board());
}

#[test]
fn reproduction() {
    // Center cell should become alive
    let board = vec![
        vec![Cell::Alive, Cell::Dead, Cell::Alive],
        vec![Cell::Dead, Cell::Dead, Cell::Dead],
        vec![Cell::Dead, Cell::Dead, Cell::Alive],
    ];
    let mut board = Board::with_board(board);

    next_step(&mut board);

    let expected = vec![
        vec![Cell::Dead, Cell::Dead, Cell::Dead],
        vec![Cell::Dead, Cell::Alive, Cell::Dead],
        vec![Cell::Dead, Cell::Dead, Cell::Dead],
    ];

    assert_eq!(&expected, board.board());
}

#[test]
fn neighbors_count() {
    let view = vec![
        vec![Cell::Alive, Cell::Dead, Cell::Dead],
        vec![Cell::Alive, Cell::Dead, Cell::Alive],
        vec![Cell::Alive, Cell::Alive, Cell::Alive],
    ];

    assert_eq!(1, neighbors(&view, 0, 0));
    assert_eq!(3, neighbors(&view, 0, 1));
    assert_eq!(1, neighbors(&view, 0, 2));
    assert_eq!(3, neighbors(&view, 1, 0));
    assert_eq!(6, neighbors(&view, 1, 1));
    assert_eq!(2, neighbors(&view, 1, 2));
    assert_eq!(2, neighbors(&view, 2, 0));
    assert_eq!(4, neighbors(&view, 2, 1));
    assert_eq!(2, neighbors(&view, 2, 2));
}

#[test]
fn cell_weights() {
    assert_eq!(1, Cell::Alive.weight());
    assert_eq!(0, Cell::Dead.weight());
}

#[test]
fn random_board_has_requested_dimensions() {
    let board = Board::new(7, 5);
    assert_eq!(7, board.width());
    assert_eq!(5, board.height());
    assert_eq!(5, board.board().len());
    assert!(board.board().iter().all(|row| row.len() == 7));
    let cells: usize = board.board().iter().map(|row| row.len()).sum();
    assert_eq!(35, cells);
}

#[test]
fn random_board_leaves_a_cell_dead() {
    for _ in 0..50 {
        let board = Board::new(4, 3);
        assert!(live_count(&board) < 12);
    }
    for _ in 0..50 {
        let board = Board::new(1, 1);
        assert_eq!(0, live_count(&board));
    }
}

#[test]
fn random_board_seeds_some_cells() {
    // Each draw on a 2 × 1 grid seeds a live cell with probability 1/2.
    let seeded = (0..200).any(|_| live_count(&Board::new(2, 1)) > 0);
    assert!(seeded);
}

#[test]
fn with_board_dimensions() {
    let board = Board::with_board(vec![vec![Cell::Dead; 4]; 2]);
    assert_eq!(4, board.width());
    assert_eq!(2, board.height());
    let empty = Board::with_board(Vec::new());
    assert_eq!(0, empty.width());
    assert_eq!(0, empty.height());
}

#[test]
fn with_alive_cells_sets_exactly_the_listed_positions() {
    let positions = vec![(0, 1), (2, 3), (0, 1), (5, 0), (0, 9)];
    let board = Board::with_alive_cells(4, 3, &positions);
    assert_eq!(4, board.width());
    assert_eq!(3, board.height());
    let expected = vec![
        vec![Cell::Dead, Cell::Alive, Cell::Dead, Cell::Dead],
        vec![Cell::Dead, Cell::Dead, Cell::Dead, Cell::Dead],
        vec![Cell::Dead, Cell::Dead, Cell::Dead, Cell::Alive],
    ];
    assert_eq!(&expected, board.board());
    assert_eq!(2, live_count(&board));
}

#[test]
fn full_neighborhood_counts_eight() {
    let view = vec![vec![Cell::Alive; 3]; 3];
    assert_eq!(8, neighbors(&view, 1, 1));
    let mut view = vec![vec![Cell::Alive; 5]; 4];
    view[2][2] = Cell::Dead;
    assert_eq!(8, neighbors(&view, 2, 2));
}

#[test]
fn corner_does_not_wrap() {
    let mut view = vec![vec![Cell::Dead; 4]; 4];
    view[0][1] = Cell::Alive;
    view[1][0] = Cell::Alive;
    view[1][1] = Cell::Alive;
    assert_eq!(3, neighbors(&view, 0, 0));

    // Only the opposite edges are alive: nothing wraps around.
    let mut view = vec![vec![Cell::Dead; 4]; 4];
    for i in 0..4 {
        view[3][i] = Cell::Alive;
        view[i][3] = Cell::Alive;
    }
    assert_eq!(0, neighbors(&view, 0, 0));
}

#[test]
fn edge_cell_counts_five_at_most() {
    let view = vec![vec![Cell::Alive; 3]; 3];
    assert_eq!(5, neighbors(&view, 0, 1));
    assert_eq!(5, neighbors(&view, 1, 2));
    assert_eq!(3, neighbors(&view, 2, 2));
}

#[test]
fn step_on_copies_is_identical() {
    let rows = vec![
        vec![Cell::Dead, Cell::Alive, Cell::Dead, Cell::Dead],
        vec![Cell::Dead, Cell::Alive, Cell::Alive, Cell::Dead],
        vec![Cell::Alive, Cell::Dead, Cell::Alive, Cell::Alive],
    ];
    let mut a = Board::with_board(rows.clone());
    let mut b = Board::with_board(rows);
    next_step(&mut a);
    next_step(&mut b);
    assert_eq!(a.board(), b.board());
    assert_eq!(4, a.width());
    assert_eq!(3, a.height());
}

#[test]
fn blinker_oscillates() {
    let mut board = Board::with_board(vec![
        vec![Cell::Dead, Cell::Dead, Cell::Dead],
        vec![Cell::Alive, Cell::Alive, Cell::Alive],
        vec![Cell::Dead, Cell::Dead, Cell::Dead],
    ]);
    next_step(&mut board);
    let vertical = vec![
        vec![Cell::Dead, Cell::Alive, Cell::Dead],
        vec![Cell::Dead, Cell::Alive, Cell::Dead],
        vec![Cell::Dead, Cell::Alive, Cell::Dead],
    ];
    assert_eq!(&vertical, board.board());
    next_step(&mut board);
    assert_eq!(
        &vec![
            vec![Cell::Dead, Cell::Dead, Cell::Dead],
            vec![Cell::Alive, Cell::Alive, Cell::Alive],
            vec![Cell::Dead, Cell::Dead, Cell::Dead],
        ],
        board.board()
    );
}

#[test]
fn block_is_still() {
    let rows = vec![
        vec![Cell::Dead, Cell::Dead, Cell::Dead, Cell::Dead],
        vec![Cell::Dead, Cell::Alive, Cell::Alive, Cell::Dead],
        vec![Cell::Dead, Cell::Alive, Cell::Alive, Cell::Dead],
        vec![Cell::Dead, Cell::Dead, Cell::Dead, Cell::Dead],
    ];
    let mut board = Board::with_board(rows.clone());
    next_step(&mut board);
    assert_eq!(&rows, board.board());
}

#[test]
fn lonely_cell_dies() {
    // A single cell dies of underpopulation.
    let mut board = Board::with_board(vec![vec![Cell::Dead, Cell::Alive, Cell::Dead]]);
    next_step(&mut board);
    assert_eq!(&vec![vec![Cell::Dead; 3]], board.board());
}

#[test]
fn board_mut_writes_through() {
    let mut board = Board::with_board(vec![vec![Cell::Dead; 3]; 3]);
    board.board_mut()[1][0] = Cell::Alive;
    board.board_mut()[1][1] = Cell::Alive;
    board.board_mut()[1][2] = Cell::Alive;
    assert_eq!(Cell::Alive, board.board()[1][1]);
    next_step(&mut board);
    assert_eq!(Cell::Alive, board.board()[0][1]);
    assert_eq!(Cell::Dead, board.board()[1][0]);
}

#[test]
fn empty_board_steps_to_empty() {
    let mut board = Board::with_board(Vec::new());
    next_step(&mut board);
    assert!(board.board().is_empty());
}
