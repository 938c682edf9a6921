use chess_core::{Bishop, Black, King, Knight, Pawn, Queen, Rook, White};
use chess_core::{Board, BoardPiece, Color, Location, Piece, Shape, Sight};

fn loc(x: i128, y: i128) -> Location {
    Location::new(x, y).unwrap()
}

fn put(board: &mut Board, color: Color, shape: Shape, x: i128, y: i128) {
    board.raw_board().push(Piece { color, shape, location: loc(x, y) });
}

fn piece<'a>(board: &'a Board, x: i128, y: i128) -> BoardPiece<'a> {
    board.piece_at(loc(x, y)).unwrap()
}

#[test]
fn color_other_swaps_sides() {
    assert!(White.other() == Black);
    assert!(Black.other() == White);
}

#[test]
fn location_new_rejects_squares_off_the_board() {
    assert!(Location::new(-4, 3).is_some());
    assert!(Location::new(3, -4).is_some());
    assert!(Location::new(4, 0).is_none());
    assert!(Location::new(0, -5).is_none());
    let l = loc(2, -1);
    assert_eq!(l.x(), 2);
    assert_eq!(l.y(), -1);
}

#[test]
fn new_board_has_thirty_two_pieces_on_distinct_squares() {
    let board = Board::new();
    let all = board.pieces();
    assert_eq!(all.len(), 32);
    assert_eq!(all.iter().filter(|p| p.color() == White).count(), 16);
    assert_eq!(all.iter().filter(|p| p.color() == Black).count(), 16);
    for i in 0..all.len() {
        for j in 0..all.len() {
            if i != j {
                assert!(all[i].location() != all[j].location());
            }
        }
    }
}

#[test]
fn new_board_standard_arrangement() {
    let board = Board::new();
    for x in -4..=3 {
        let wp = piece(&board, x, -3);
        assert!(wp.color() == White && wp.shape() == Pawn);
        let bp = piece(&board, x, 2);
        assert!(bp.color() == Black && bp.shape() == Pawn);
    }
    let back = [Rook, Knight, Bishop, Queen, King, Bishop, Knight, Rook];
    for (i, shape) in back.iter().enumerate() {
        let x = i as i128 - 4;
        let w = piece(&board, x, -4);
        assert!(w.color() == White && w.shape() == *shape);
        let b = piece(&board, x, 3);
        assert!(b.color() == Black && b.shape() == *shape);
    }
    assert!(board.piece_at(loc(0, 0)).is_none());
    assert!(board.piece_at(loc(-4, -1)).is_none());
}

#[test]
fn blank_board_round_trip() {
    let mut board = Board::new_blank();
    assert!(board.piece_at(loc(1, 1)).is_none());
    put(&mut board, Black, Knight, 1, 1);
    let found = piece(&board, 1, 1);
    assert!(found.color() == Black && found.shape() == Knight && found.location() == loc(1, 1));
    assert!(board.piece_at(loc(1, 2)).is_none());
    board.raw_board().remove(0);
    assert!(board.piece_at(loc(1, 1)).is_none());
}

#[test]
fn pieces_keep_insertion_order() {
    let mut board = Board::new_blank();
    put(&mut board, White, Queen, 0, 0);
    put(&mut board, Black, Pawn, 1, 2);
    put(&mut board, White, King, -2, -4);
    let all = board.pieces();
    assert_eq!(all.len(), 3);
    assert!(all[0].shape() == Queen && all[1].shape() == Pawn && all[2].shape() == King);
    let again = board.pieces();
    assert_eq!(again.len(), 3);
}

#[test]
fn pieces_where_filters_in_order() {
    let board = Board::new();
    let white_rooks = board.pieces_where(|p: &Piece| p.color == White && p.shape == Rook);
    assert_eq!(white_rooks.len(), 2);
    assert!(white_rooks.iter().all(|p| p.color() == White && p.shape() == Rook));
    assert!(white_rooks[0].location().x() < white_rooks[1].location().x());
    let none = board.pieces_where(|p: &Piece| p.location == loc(0, 0));
    assert!(none.is_empty());
    assert!(std::ptr::eq(white_rooks[0].parent_board(), &board));
}

#[test]
fn no_shape_sees_its_own_square() {
    for shape in [Pawn, Rook, Knight, Bishop, Queen, King] {
        let mut board = Board::new_blank();
        put(&mut board, White, shape, 0, 0);
        let p = piece(&board, 0, 0);
        assert!(matches!(p.move_sight(loc(0, 0), false), Sight::CannotSee));
        assert!(matches!(p.attack_sight(loc(0, 0), false), Sight::CannotSee));
    }
}

#[test]
fn pawn_scenario() {
    let mut board = Board::new_blank();
    put(&mut board, White, Pawn, 0, -3);
    let p = piece(&board, 0, -3);
    assert!(matches!(p.move_sight(loc(0, -2), false), Sight::SeesEmpty));
    assert!(matches!(p.move_sight(loc(1, -2), false), Sight::CannotSee));
    assert!(matches!(p.move_sight(loc(-1, -2), false), Sight::CannotSee));
    assert!(matches!(p.attack_sight(loc(1, -2), false), Sight::SeesEmpty));
    assert!(matches!(p.attack_sight(loc(0, -2), false), Sight::CannotSee));
    assert!(matches!(p.move_sight(loc(0, -1), false), Sight::CannotSee));
    assert!(matches!(p.move_sight(loc(0, -4), false), Sight::CannotSee));
}

#[test]
fn pawn_attack_sees_occupant_and_black_moves_down() {
    let mut board = Board::new_blank();
    put(&mut board, White, Pawn, 0, -3);
    put(&mut board, Black, Knight, 1, -2);
    put(&mut board, Black, Pawn, 2, 2);
    let p = piece(&board, 0, -3);
    match p.attack_sight(loc(1, -2), false) {
        Sight::Sees(t) => assert!(t.shape() == Knight && t.color() == Black),
        _ => panic!("expected Sees"),
    }
    assert!(matches!(p.move_sight(loc(1, -2), false), Sight::CannotSee));
    let b = piece(&board, 2, 2);
    assert!(matches!(b.move_sight(loc(2, 1), false), Sight::SeesEmpty));
    assert!(matches!(b.move_sight(loc(2, 3), false), Sight::CannotSee));
    assert!(matches!(b.attack_sight(loc(3, 1), false), Sight::SeesEmpty));
    assert!(matches!(b.attack_sight(loc(1, 3), false), Sight::CannotSee));
}

#[test]
fn rook_lines_and_blocking() {
    let mut board = Board::new_blank();
    put(&mut board, White, Rook, 0, -4);
    {
        let r = piece(&board, 0, -4);
        assert!(matches!(r.move_sight(loc(0, 3), false), Sight::SeesEmpty));
        assert!(matches!(r.move_sight(loc(-4, -4), false), Sight::SeesEmpty));
        assert!(matches!(r.move_sight(loc(1, -3), false), Sight::CannotSee));
    }
    put(&mut board, Black, Pawn, 0, 0);
    {
        let r = piece(&board, 0, -4);
        assert!(matches!(r.move_sight(loc(0, 3), false), Sight::CannotSee));
        assert!(matches!(r.move_sight(loc(0, -1), false), Sight::SeesEmpty));
        match r.move_sight(loc(0, 0), false) {
            Sight::Sees(t) => assert!(t.shape() == Pawn),
            _ => panic!("expected Sees"),
        }
    }
    board.raw_board().pop();
    let r = piece(&board, 0, -4);
    assert!(matches!(r.move_sight(loc(0, 3), false), Sight::SeesEmpty));
}

#[test]
fn bishop_diagonals_and_blocking() {
    let mut board = Board::new_blank();
    put(&mut board, White, Bishop, -2, -4);
    {
        let b = piece(&board, -2, -4);
        assert!(matches!(b.move_sight(loc(3, 1), false), Sight::SeesEmpty));
        assert!(matches!(b.move_sight(loc(-4, -2), false), Sight::SeesEmpty));
        assert!(matches!(b.move_sight(loc(-2, 0), false), Sight::CannotSee));
        assert!(matches!(b.move_sight(loc(0, -3), false), Sight::CannotSee));
    }
    put(&mut board, White, Knight, 1, -1);
    {
        let b = piece(&board, -2, -4);
        assert!(matches!(b.move_sight(loc(3, 1), false), Sight::CannotSee));
        assert!(matches!(b.move_sight(loc(0, -2), false), Sight::SeesEmpty));
    }
    board.raw_board().pop();
    let b = piece(&board, -2, -4);
    assert!(matches!(b.move_sight(loc(3, 1), false), Sight::SeesEmpty));
}

#[test]
fn queen_combines_rook_and_bishop() {
    let mut board = Board::new_blank();
    put(&mut board, Black, Queen, -1, 3);
    put(&mut board, White, Pawn, -1, -1);
    put(&mut board, White, Pawn, 1, 1);
    let q = piece(&board, -1, 3);
    assert!(matches!(q.move_sight(loc(-1, 0), false), Sight::SeesEmpty));
    assert!(matches!(q.move_sight(loc(-1, -2), false), Sight::CannotSee));
    assert!(matches!(q.move_sight(loc(-1, -1), false), Sight::Sees(_)));
    assert!(matches!(q.move_sight(loc(-4, 0), false), Sight::SeesEmpty));
    assert!(matches!(q.move_sight(loc(2, 0), false), Sight::CannotSee));
    assert!(matches!(q.move_sight(loc(1, 1), false), Sight::Sees(_)));
    assert!(matches!(q.move_sight(loc(0, 1), false), Sight::CannotSee));
    assert!(matches!(q.attack_sight(loc(3, 3), false), Sight::SeesEmpty));
}

#[test]
fn knight_jumps_over_pieces() {
    let board = Board::new();
    let n = piece(&board, -3, -4);
    assert!(matches!(n.move_sight(loc(-2, -2), false), Sight::SeesEmpty));
    assert!(matches!(n.move_sight(loc(-4, -2), false), Sight::SeesEmpty));
    assert!(matches!(n.move_sight(loc(-1, -3), false), Sight::Sees(_)));
    assert!(matches!(n.move_sight(loc(-3, -2), false), Sight::CannotSee));
    assert!(matches!(n.move_sight(loc(-1, -2), false), Sight::CannotSee));
    assert!(matches!(n.attack_sight(loc(-2, -2), false), Sight::SeesEmpty));
}

#[test]
fn king_steps_one_square() {
    let mut board = Board::new_blank();
    put(&mut board, White, King, 0, 0);
    let k = piece(&board, 0, 0);
    for (x, y) in [(1, 1), (1, 0), (0, -1), (-1, -1), (-1, 1)] {
        assert!(matches!(k.move_sight(loc(x, y), true), Sight::SeesEmpty));
    }
    assert!(matches!(k.move_sight(loc(2, 0), false), Sight::CannotSee));
    assert!(matches!(k.move_sight(loc(1, 2), false), Sight::CannotSee));
}

#[test]
fn king_cannot_walk_into_attack() {
    let mut board = Board::new_blank();
    put(&mut board, White, King, 0, -4);
    put(&mut board, Black, Rook, 1, 3);
    put(&mut board, Black, King, 3, 3);
    let k = piece(&board, 0, -4);
    assert!(matches!(k.move_sight(loc(1, -4), true), Sight::IllegalSeesEmpty));
    assert!(matches!(k.move_sight(loc(1, -4), false), Sight::SeesEmpty));
    assert!(matches!(k.move_sight(loc(-1, -3), true), Sight::SeesEmpty));
    assert!(!k.move_sight(loc(1, -3), true).is_legal());
    assert!(k.move_sight(loc(1, -3), true).sees());
}

#[test]
fn king_capture_of_defended_piece_is_illegal() {
    let mut board = Board::new_blank();
    put(&mut board, White, King, 0, 0);
    put(&mut board, Black, Pawn, 1, 1);
    put(&mut board, Black, Bishop, 3, 3);
    put(&mut board, Black, King, -4, 3);
    let k = piece(&board, 0, 0);
    match k.move_sight(loc(1, 1), true) {
        Sight::IllegalSees(t) => assert!(t.shape() == Pawn),
        _ => panic!("expected IllegalSees"),
    }
    assert!(matches!(k.move_sight(loc(1, 1), false), Sight::Sees(_)));
}

#[test]
fn discovered_attack_makes_move_illegal() {
    let mut board = Board::new_blank();
    put(&mut board, White, King, 0, -4);
    put(&mut board, White, Bishop, 0, -2);
    put(&mut board, Black, Rook, 0, 3);
    put(&mut board, Black, King, 3, 3);
    let b = piece(&board, 0, -2);
    assert!(matches!(b.move_sight(loc(1, -1), true), Sight::IllegalSeesEmpty));
    assert!(matches!(b.move_sight(loc(1, -1), false), Sight::SeesEmpty));
    assert!(!b.move_sight(loc(-2, 0), true).is_legal());
}

#[test]
fn discovered_attack_through_diagonal_with_capture() {
    let mut board = Board::new_blank();
    put(&mut board, Black, King, 3, 3);
    put(&mut board, Black, Rook, 2, 2);
    put(&mut board, White, Queen, -2, -2);
    put(&mut board, White, Pawn, 2, -1);
    put(&mut board, White, King, -4, -4);
    let r = piece(&board, 2, 2);
    match r.move_sight(loc(2, -1), true) {
        Sight::IllegalSees(t) => assert!(t.shape() == Pawn && t.color() == White),
        _ => panic!("expected IllegalSees"),
    }
    assert!(matches!(r.move_sight(loc(2, -1), false), Sight::Sees(_)));
}

#[test]
fn blocking_move_stays_legal() {
    let mut board = Board::new_blank();
    put(&mut board, White, King, 0, -4);
    put(&mut board, White, Rook, 0, -2);
    put(&mut board, Black, Queen, 0, 3);
    put(&mut board, Black, King, 3, 3);
    let r = piece(&board, 0, -2);
    assert!(matches!(r.move_sight(loc(0, 0), true), Sight::SeesEmpty));
    match r.move_sight(loc(0, 3), true) {
        Sight::Sees(t) => assert!(t.shape() == Queen),
        _ => panic!("expected Sees"),
    }
    assert!(matches!(r.move_sight(loc(2, -2), true), Sight::IllegalSeesEmpty));
}

#[test]
fn rook_attacks_king_on_open_file() {
    let mut board = Board::new_blank();
    put(&mut board, White, Rook, 0, -4);
    put(&mut board, Black, King, 0, 3);
    let attackers = board.find_attackers_of(loc(0, 3), false, Some(White));
    assert_eq!(attackers.len(), 1);
    assert!(attackers[0].shape() == Rook && attackers[0].location() == loc(0, -4));
    assert!(board.find_attackers_of(loc(0, 3), false, Some(Black)).is_empty());
    let all = board.find_attackers_of(loc(0, 3), false, None);
    assert_eq!(all.len(), 1);
}

#[test]
fn find_attackers_respects_blocking_and_legality() {
    let mut board = Board::new_blank();
    put(&mut board, White, Rook, 0, -4);
    put(&mut board, White, Knight, 1, 1);
    put(&mut board, White, Pawn, 0, 2);
    put(&mut board, Black, King, 0, 3);
    put(&mut board, White, King, -4, -4);
    let attackers = board.find_attackers_of(loc(0, 3), false, Some(White));
    assert_eq!(attackers.len(), 1);
    assert!(attackers[0].shape() == Knight);
    board.raw_board().remove(2);
    let attackers = board.find_attackers_of(loc(0, 3), false, Some(White));
    assert_eq!(attackers.len(), 2);
    assert!(attackers[0].shape() == Rook && attackers[1].shape() == Knight);
    let legal = board.find_attackers_of(loc(0, 3), true, None);
    assert_eq!(legal.len(), 2);
    let squares = board.find_attackers_of(loc(-3, -3), false, None);
    assert_eq!(squares.len(), 1);
    assert!(squares[0].shape() == King);
}

#[test]
fn find_attackers_with_legality_drops_pinned_piece() {
    let mut board = Board::new_blank();
    put(&mut board, White, King, 0, -4);
    put(&mut board, White, Knight, 0, -3);
    put(&mut board, Black, Rook, 0, 3);
    put(&mut board, Black, King, 3, 3);
    put(&mut board, Black, Pawn, 1, -1);
    let free = board.find_attackers_of(loc(1, -1), false, Some(White));
    assert_eq!(free.len(), 1);
    let legal = board.find_attackers_of(loc(1, -1), true, Some(White));
    assert!(legal.is_empty());
}

#[test]
fn sight_helpers() {
    let mut board = Board::new_blank();
    put(&mut board, White, Rook, 0, 0);
    put(&mut board, Black, Pawn, 0, 2);
    let r = piece(&board, 0, 0);
    let sees = r.move_sight(loc(0, 2), false);
    assert!(sees.is_legal() && sees.sees());
    assert!(sees.piece_at().unwrap().shape() == Pawn);
    let empty = r.move_sight(loc(0, 1), false);
    assert!(empty.is_legal() && empty.sees() && empty.piece_at().is_none());
    let none = r.move_sight(loc(1, 1), false);
    assert!(!none.is_legal() && !none.sees() && none.piece_at().is_none());
    assert!(std::ptr::eq(r.parent_board(), &board));
}
