use chessnet::helper::{piece_to_code, Color, Piece};
use chessnet::move_piece::{find_move_to, Move};

#[test]
fn white_piece_codes() {
    assert_eq!(piece_to_code(Piece::Pawn(Color::White)), "wP");
    assert_eq!(piece_to_code(Piece::Knight(Color::White)), "wN");
    assert_eq!(piece_to_code(Piece::Bishop(Color::White)), "wB");
    assert_eq!(piece_to_code(Piece::Rook(Color::White)), "wR");
    assert_eq!(piece_to_code(Piece::Queen(Color::White)), "wQ");
    assert_eq!(piece_to_code(Piece::King(Color::White)), "wK");
}

#[test]
fn black_piece_codes() {
    assert_eq!(piece_to_code(Piece::Pawn(Color::Black)), "bP");
    assert_eq!(piece_to_code(Piece::Knight(Color::Black)), "bN");
    assert_eq!(piece_to_code(Piece::Bishop(Color::Black)), "bB");
    assert_eq!(piece_to_code(Piece::Rook(Color::Black)), "bR");
    assert_eq!(piece_to_code(Piece::Queen(Color::Black)), "bQ");
    assert_eq!(piece_to_code(Piece::King(Color::Black)), "bK");
}

#[test]
fn finds_first_move_to_square() {
    let moves = vec![
        Move { from: 12, to: 20 },
        Move { from: 12, to: 28 },
        Move { from: 11, to: 28 },
    ];
    assert_eq!(find_move_to(&moves, 28), Some(1));
    assert_eq!(find_move_to(&moves, 20), Some(0));
}

#[test]
fn reports_absent_destination() {
    let moves = vec![Move { from: 12, to: 20 }, Move { from: 12, to: 28 }];
    assert_eq!(find_move_to(&moves, 63), None);
    assert_eq!(find_move_to(&Vec::new(), 0), None);
}
