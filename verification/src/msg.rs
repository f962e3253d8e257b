use vstd::prelude::*;

verus! {

/// A chess move in coordinate form: source and destination squares given as
/// file (0 = a .. 7 = h) and rank (0 = rank 1 .. 7 = rank 8), plus an
/// optional promotion piece.
#[derive(Clone, Copy, PartialEq, Eq, Structural, Debug)]
pub struct Mv {
    pub from_file: u8,
    pub from_rank: u8,
    pub to_file: u8,
    pub to_rank: u8,
    pub promo: Promotion,
}

/// The piece a pawn promotes to, if any.
#[derive(Clone, Copy, PartialEq, Eq, Structural, Debug)]
pub enum Promotion {
    Nothing,
    Knight,
    Bishop,
    Rook,
    Queen,
}

impl Mv {
    /// All square coordinates are on the board.
    pub open spec fn wf(self) -> bool {
        self.from_file < 8 && self.from_rank < 8 && self.to_file < 8 && self.to_rank < 8
    }
}

/// An evaluation reported by the subordinate engine, from the point of view
/// of the side to move in the analysed position: either centipawns or a
/// distance to mate.
#[derive(Clone, Copy, PartialEq, Eq, Structural, Debug)]
pub enum Score {
    Cp(i64),
    Mate(i64),
}

/// One protocol message, inbound or outbound. Lines that the relay does not
/// model parse to `Unknown` and are ignored.
pub enum Message {
    /// `position` command: either the standard start flag or an explicit
    /// board-notation (FEN) string, followed by a move list.
    SetPosition { startpos: bool, fen: Option<Vec<u8>>, moves: Vec<Mv> },
    /// `go` search request (any arguments are ignored by the relay).
    Go,
    /// `uci` identification request.
    Uci,
    /// `readyok` readiness acknowledgment.
    ReadyOk,
    /// `isready` readiness probe.
    IsReady,
    /// `quit` termination message.
    Quit,
    /// `uciok` protocol acknowledgment.
    UciOk,
    /// `id name ...` or `id author ...` identification reply.
    Id { name: Option<Vec<u8>>, author: Option<Vec<u8>> },
    /// `bestmove` reply naming a move.
    BestMove { mv: Mv },
    /// `info ... score ...` line carrying an evaluation.
    InfoScore { score: Score },
    /// Anything else.
    Unknown,
}

/// The mathematical shape of a `Message`: byte vectors become sequences.
pub enum MsgView {
    SetPosition { startpos: bool, fen: Option<Seq<u8>>, moves: Seq<Mv> },
    Go,
    Uci,
    ReadyOk,
    IsReady,
    Quit,
    UciOk,
    Id { name: Option<Seq<u8>>, author: Option<Seq<u8>> },
    BestMove { mv: Mv },
    InfoScore { score: Score },
    Unknown,
}

impl View for Message {
    type V = MsgView;

    open spec fn view(&self) -> MsgView {
        match self {
            Message::SetPosition { startpos, fen, moves } => MsgView::SetPosition {
                startpos: *startpos,
                fen: match fen {
                    Some(f) => Some(f@),
                    None => None,
                },
                moves: moves@,
            },
            Message::Go => MsgView::Go,
            Message::Uci => MsgView::Uci,
            Message::ReadyOk => MsgView::ReadyOk,
            Message::IsReady => MsgView::IsReady,
            Message::Quit => MsgView::Quit,
            Message::UciOk => MsgView::UciOk,
            Message::Id { name, author } => MsgView::Id {
                name: match name {
                    Some(n) => Some(n@),
                    None => None,
                },
                author: match author {
                    Some(a) => Some(a@),
                    None => None,
                },
            },
            Message::BestMove { mv } => MsgView::BestMove { mv: *mv },
            Message::InfoScore { score } => MsgView::InfoScore { score: *score },
            Message::Unknown => MsgView::Unknown,
        }
    }
}

} // verus!
