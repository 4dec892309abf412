//! The asset-code naming of chess pieces.
//!
//! The rules engine and the rendering layer are external collaborators;
//! what crosses from them into this crate is only the piece identity, so
//! it is modeled here as plain data. `piece_to_code` gives each piece the
//! two-character code (color letter, then piece letter) under which its
//! image asset is filed.

use vstd::prelude::*;

verus! {

use vstd::string::StringExecFns;

/// The color a piece belongs to.
#[derive(Clone, Copy, PartialEq, Eq, Structural, Debug)]
pub enum Color {
    White,
    Black,
}

/// A chess piece of a given color.
#[derive(Clone, Copy, PartialEq, Eq, Structural, Debug)]
pub enum Piece {
    Pawn(Color),
    Knight(Color),
    Bishop(Color),
    Rook(Color),
    Queen(Color),
    King(Color),
}

/// The code of a piece: its color letter followed by its piece letter.
pub open spec fn piece_code_spec(piece: Piece) -> Seq<char> {
    let color_char = match piece {
        Piece::Pawn(c) | Piece::Knight(c) | Piece::Bishop(c) | Piece::Rook(c) | Piece::Queen(c)
            | Piece::King(c) => if c == Color::White {
            'w'
        } else {
            'b'
        },
    };
    let kind_char = match piece {
        Piece::Pawn(_) => 'P',
        Piece::Knight(_) => 'N',
        Piece::Bishop(_) => 'B',
        Piece::Rook(_) => 'R',
        Piece::Queen(_) => 'Q',
        Piece::King(_) => 'K',
    };
    seq![color_char, kind_char]
}

/// Translates a piece into its two-character code.
pub fn piece_to_code(piece: Piece) -> (r: String)
    ensures
        r@ == piece_code_spec(piece),
{
    proof {
        reveal_strlit("wP");
        reveal_strlit("wN");
        reveal_strlit("wB");
        reveal_strlit("wR");
        reveal_strlit("wQ");
        reveal_strlit("wK");
        reveal_strlit("bP");
        reveal_strlit("bN");
        reveal_strlit("bB");
        reveal_strlit("bR");
        reveal_strlit("bQ");
        reveal_strlit("bK");
    }
    let code: &str = match piece {
        Piece::Pawn(Color::White) => "wP",
        Piece::Knight(Color::White) => "wN",
        Piece::Bishop(Color::White) => "wB",
        Piece::Rook(Color::White) => "wR",
        Piece::Queen(Color::White) => "wQ",
        Piece::King(Color::White) => "wK",
        Piece::Pawn(Color::Black) => "bP",
        Piece::Knight(Color::Black) => "bN",
        Piece::Bishop(Color::Black) => "bB",
        Piece::Rook(Color::Black) => "bR",
        Piece::Queen(Color::Black) => "bQ",
        Piece::King(Color::Black) => "bK",
    };
    proof {
        assert(code@ =~= piece_code_spec(piece));
    }
    String::from_str(code)
}

} // verus!
