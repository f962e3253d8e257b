//! The board model. A position is carried as its board-notation (FEN) text;
//! what a position means — which moves are legal, what playing a move yields —
//! is the `chess` crate's business and is reached only through the trusted
//! wrappers below.

use vstd::prelude::*;
use crate::msg::{Mv, Promotion};
use std::str::FromStr;
use chess::{Board, ChessMove, MoveGen, Piece, Rank, Square};
use std::str::from_utf8;

verus! {

/// Whether the `chess` crate accepts `f` as a board description.
pub uninterp spec fn fen_ok(f: Seq<u8>) -> bool;

/// The legal moves of the position `f`, in the `chess` crate's enumeration
/// order (a fixed order for a fixed position).
pub uninterp spec fn legal_of(f: Seq<u8>) -> Seq<Mv>;

/// The position reached by playing `m` on `f`, as the `chess` crate prints
/// it.
pub uninterp spec fn apply_of(f: Seq<u8>, m: Mv) -> Seq<u8>;

/// The standard initial position, as the `chess` crate prints it.
pub open spec fn start_fen() -> Seq<u8> {
    "rnbqkbnr/pppppppp/8/8/8/8/PPPPPPPP/RNBQKBNR w KQkq - 0 1"@.map_values(|c: char| c as u8)
}

/// Relies on `chess::Board::default` being the standard initial position,
/// on the crate's `Display` for `Board`, which prints board notation with
/// `0 1` counters, and on `chess::MoveGen`'s documentation, whose worked
/// example fixes the initial position's legal-move count at 20.
#[verifier::external_body]
pub fn start_fen_bytes() -> (r: Vec<u8>)
    ensures
        r@ == start_fen(),
        fen_ok(r@),
        legal_of(r@).len() == 20,
{
    format!("{}", Board::default()).into_bytes()
}

/// Relies on `chess::Board::from_str`, which returns `Ok` exactly on a
/// well-formed, reachable board description.
#[verifier::external_body]
pub fn fen_check(f: &[u8]) -> (r: bool)
    ensures
        r == fen_ok(f@),
{
    match from_utf8(f) {
        Ok(s) => Board::from_str(s).is_ok(),
        Err(_) => false,
    }
}

/// Relies on `chess::MoveGen::new_legal`, the legal-move enumeration, and on
/// `chess::ChessMove`'s square and promotion accessors; the enumeration is a
/// pure function of the position and every move it yields is on the board.
#[verifier::external_body]
pub fn legal_moves_fen(f: &[u8]) -> (v: Vec<Mv>)
    requires
        fen_ok(f@),
    ensures
        v@ == legal_of(f@),
        forall|i: int| 0 <= i < v@.len() ==> (#[trigger] v@[i]).wf(),
{
    let b = Board::from_str(from_utf8(f).unwrap()).unwrap();
    let mut v = Vec::new();
    for m in MoveGen::new_legal(&b) {
        let p = match m.get_promotion() {
            Some(Piece::Knight) => Promotion::Knight,
            Some(Piece::Bishop) => Promotion::Bishop,
            Some(Piece::Rook) => Promotion::Rook,
            Some(Piece::Queen) => Promotion::Queen,
            _ => Promotion::Nothing,
        };
        let (s, d) = (m.get_source(), m.get_dest());
        v.push(Mv { from_file: s.get_file().to_index() as u8, from_rank: s.get_rank().to_index() as u8, to_file: d.get_file().to_index() as u8, to_rank: d.get_rank().to_index() as u8, promo: p });
    }
    v
}

/// Relies on `chess::Board::make_move_new`, which plays a legal move and
/// yields the resulting position, and on `Display` for `Board`, whose output
/// `from_str` accepts back.
#[verifier::external_body]
pub fn apply_move_fen(f: &[u8], m: &Mv) -> (r: Vec<u8>)
    requires
        fen_ok(f@),
        legal_of(f@).contains(*m),
        m.wf(),
    ensures
        r@ == apply_of(f@, *m),
        fen_ok(r@),
{
    let b = Board::from_str(from_utf8(f).unwrap()).unwrap();
    let from = Square::make_square(Rank::from_index(m.from_rank as usize), chess::File::from_index(m.from_file as usize));
    let to = Square::make_square(Rank::from_index(m.to_rank as usize), chess::File::from_index(m.to_file as usize));
    let piece = match m.promo {
        Promotion::Knight => Some(Piece::Knight),
        Promotion::Bishop => Some(Piece::Bishop),
        Promotion::Rook => Some(Piece::Rook),
        Promotion::Queen => Some(Piece::Queen),
        Promotion::Nothing => None,
    };
    format!("{}", b.make_move_new(ChessMove::new(from, to, piece))).into_bytes()
}

/// The position reached from `f` by playing `ms[k..]` in order.
pub open spec fn apply_from(f: Seq<u8>, ms: Seq<Mv>, k: int) -> Seq<u8>
    decreases ms.len() - k,
{
    if k < 0 || k >= ms.len() {
        f
    } else {
        apply_from(apply_of(f, ms[k]), ms, k + 1)
    }
}

/// Whether each of `ms[k..]` in turn is legal in the position it is played
/// from, starting at `f`.
pub open spec fn legal_from(f: Seq<u8>, ms: Seq<Mv>, k: int) -> bool
    decreases ms.len() - k,
{
    k < 0 || k >= ms.len() || (legal_of(f).contains(ms[k]) && legal_from(
        apply_of(f, ms[k]),
        ms,
        k + 1,
    ))
}

/// The position reached from `f` by playing all of `ms` in order.
pub open spec fn apply_seq(f: Seq<u8>, ms: Seq<Mv>) -> Seq<u8> {
    apply_from(f, ms, 0)
}

/// Whether the whole move list `ms` is playable from `f`.
pub open spec fn moves_legal(f: Seq<u8>, ms: Seq<Mv>) -> bool {
    legal_from(f, ms, 0)
}

} // verus!
