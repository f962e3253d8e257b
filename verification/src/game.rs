//! The protocol state machine: it owns the board, turns each inbound message
//! into the replies and board updates the protocol demands, and carries out
//! move decisions.

use vstd::prelude::*;
use crate::board::{
    apply_move_fen, apply_of, apply_seq, apply_from, fen_check, fen_ok, legal_from, legal_moves_fen,
    legal_of, moves_legal, start_fen, start_fen_bytes,
};
use crate::engine::{choose_random, EngineChoice, tag_of};
use crate::msg::{Message, MsgView, Mv, Score};
use crate::parse::{parse_line, tviews};
use crate::wire::{
    bestmove_bytes, bestmove_line, id_author_bytes, id_author_line, id_name_bytes, id_name_line,
    readyok_bytes, readyok_line, uciok_bytes, uciok_line,
};

verus! {

/// A fatal protocol inconsistency: the upstream broke its contract and the
/// relay must stop rather than play on from a wrong position.
#[derive(Clone, Copy, PartialEq, Eq, Structural, Debug)]
pub enum ProtoError {
    /// A position message carried both of its two forms, or neither.
    InconsistentPosition,
    /// A position message carried a board description the board library
    /// rejects.
    InvalidFen,
    /// A move was not legal in the position it was to be played from.
    IllegalMove,
    /// A move was requested but the position has no legal moves.
    NoLegalMoves,
}

/// What the caller must do after one inbound message is handled.
pub enum Reaction {
    /// Send these lines to the upstream client, in order.
    Replies(Vec<Vec<u8>>),
    /// Invoke the active strategy for a move decision.
    Decide,
    /// Stop reading: clean shutdown.
    Stop,
    /// Nothing: the message was a no-op.
    Silent,
    /// A fatal protocol inconsistency.
    Fatal(ProtoError),
}

/// The relay's name, as sent in the identification reply: `mallard_chess (`.
pub open spec fn name_prefix() -> Seq<u8> {
    seq![
        109u8,
        97,
        108,
        108,
        97,
        114,
        100,
        95,
        99,
        104,
        101,
        115,
        115,
        32,
        40,
    ]
}

/// The author tag sent in the identification reply.
pub open spec fn author_tag() -> Seq<u8> {
    seq![
        116u8,
        104,
        101,
        32,
        109,
        97,
        108,
        108,
        97,
        114,
        100,
        95,
        99,
        104,
        101,
        115,
        115,
        32,
        97,
        117,
        116,
        104,
        111,
        114,
        115,
    ]
}

/// The name the identification reply carries: the relay's name with the
/// active strategy's tag in parentheses.
pub open spec fn id_name_of(c: EngineChoice) -> Seq<u8> {
    name_prefix() + tag_of(c) + seq![41u8]
}

/// The three reply lines to an identification request, in order.
pub open spec fn uci_replies(c: EngineChoice) -> Seq<Seq<u8>> {
    seq![uciok_line(), id_name_line(id_name_of(c)), id_author_line(author_tag())]
}

fn name_prefix_bytes() -> (r: Vec<u8>)
    ensures
        r@ == name_prefix(),
{
    let mut v: Vec<u8> = Vec::new();
    v.push(109);
    v.push(97);
    v.push(108);
    v.push(108);
    v.push(97);
    v.push(114);
    v.push(100);
    v.push(95);
    v.push(99);
    v.push(104);
    v.push(101);
    v.push(115);
    v.push(115);
    v.push(32);
    v.push(40);
    proof {
        assert(v@ =~= name_prefix());
    }
    v
}

fn author_tag_bytes() -> (r: Vec<u8>)
    ensures
        r@ == author_tag(),
{
    let mut v: Vec<u8> = Vec::new();
    v.push(116);
    v.push(104);
    v.push(101);
    v.push(32);
    v.push(109);
    v.push(97);
    v.push(108);
    v.push(108);
    v.push(97);
    v.push(114);
    v.push(100);
    v.push(95);
    v.push(99);
    v.push(104);
    v.push(101);
    v.push(115);
    v.push(115);
    v.push(32);
    v.push(97);
    v.push(117);
    v.push(116);
    v.push(104);
    v.push(111);
    v.push(114);
    v.push(115);
    proof {
        assert(v@ =~= author_tag());
    }
    v
}

/// The game: the current position, replaced wholesale on every update.
pub struct Game {
    /// The current position in board notation.
    pub board: Vec<u8>,
}

/// What a position update resolved to: the base position of a `position`
/// message, before its move list.
pub open spec fn position_base(startpos: bool, fen: Option<Seq<u8>>) -> Option<Seq<u8>> {
    match (startpos, fen) {
        (true, None) => Some(start_fen()),
        (false, Some(f)) => if fen_ok(f) {
            Some(f)
        } else {
            None
        },
        _ => None,
    }
}

impl Game {
    /// The board text is a position the board library accepts.
    pub open spec fn wf(self) -> bool {
        fen_ok(self.board@)
    }

    /// A fresh game holds the standard initial position.
    pub fn new() -> (g: Game)
        ensures
            g.wf(),
            g.board@ == start_fen(),
    {
        Game { board: start_fen_bytes() }
    }

    /// The legal moves of the current position.
    pub fn moves(&self) -> (r: Vec<Mv>)
        requires
            self.wf(),
        ensures
            r@ == legal_of(self.board@),
            forall|i: int| 0 <= i < r@.len() ==> (#[trigger] r@[i]).wf(),
    {
        legal_moves_fen(self.board.as_slice())
    }

    /// Sets the position from a base and a move list, each move checked
    /// legal in the position it is played from. On any error the board is
    /// left as it was.
    fn set_position(&mut self, base: &[u8], moves: &Vec<Mv>) -> (r: Result<(), ProtoError>)
        requires
            fen_ok(base@),
        ensures
            moves_legal(base@, moves@) <==> r is Ok,
            r is Ok ==> final(self).board@ == apply_seq(base@, moves@) && final(self).wf(),
            r is Err ==> r == Err::<(), ProtoError>(ProtoError::IllegalMove) && !moves_legal(
                base@,
                moves@,
            ) && *final(self) == *old(self),
    {
        let ghost base0 = base@;
        let mut cur: Vec<u8> = Vec::new();
        crate::parse::extend_from(&mut cur, base);
        proof {
            assert(cur@ =~= base@);
        }
        let mut k: usize = 0;
        while k < moves.len()
            invariant
                k <= moves@.len(),
                base0 == base@,
                fen_ok(cur@),
                legal_from(base0, moves@, 0) == legal_from(cur@, moves@, k as int),
                apply_from(base0, moves@, 0) == apply_from(cur@, moves@, k as int),
                self == old(self),
            decreases moves@.len() - k,
        {
            let legal = legal_moves_fen(cur.as_slice());
            let m = moves[k];
            if !contains_mv(&legal, &m) {
                proof {
                    assert(!legal_of(cur@).contains(moves@[k as int]));
                    assert(!legal_from(cur@, moves@, k as int));
                    assert(!legal_from(base0, moves@, 0));
                    assert(!moves_legal(base@, moves@));
                }
                return Err(ProtoError::IllegalMove);
            }
            cur = apply_move_fen(cur.as_slice(), &m);
            k += 1;
        }
        self.board = cur;
        Ok(())
    }

    /// Handles one inbound message: returns what to send or do, and updates
    /// the board exactly as the message demands. A termination message stops
    /// the loop at any state; an identification request is answered with
    /// exactly the three documented replies in order, at any state; a
    /// readiness probe is answered with the readiness acknowledgment; a
    /// standard-start position message with a move list yields the position
    /// reached by playing those moves in order from the initial position.
    pub fn handle(&mut self, msg: Message, choice: EngineChoice) -> (r: Reaction)
        requires
            old(self).wf(),
        ensures
            final(self).wf(),
            msg@ is Quit ==> r is Stop && *final(self) == *old(self),
            msg@ is Go ==> r is Decide && *final(self) == *old(self),
            msg@ is Uci ==> *final(self) == *old(self) && match r {
                Reaction::Replies(v) => tviews(v@) == uci_replies(choice),
                _ => false,
            },
            msg@ is IsReady ==> *final(self) == *old(self) && match r {
                Reaction::Replies(v) => tviews(v@) == seq![readyok_line()],
                _ => false,
            },
            (msg@ is Unknown || msg@ is UciOk || msg@ is ReadyOk || msg@ is Id || msg@ is BestMove
                || msg@ is InfoScore) ==> r is Silent && *final(self) == *old(self),
            msg@ matches MsgView::SetPosition { startpos, fen, moves } ==> match position_base(
                startpos,
                fen,
            ) {
                Some(base) => {
                    &&& moves_legal(base, moves) ==> (r is Silent && final(self).board@
                        == apply_seq(base, moves))
                    &&& !moves_legal(base, moves) ==> (r == Reaction::Fatal(ProtoError::IllegalMove)
                        && *final(self) == *old(self))
                },
                None => *final(self) == *old(self) && match (startpos, fen) {
                    (false, Some(_)) => r == Reaction::Fatal(ProtoError::InvalidFen),
                    _ => r == Reaction::Fatal(ProtoError::InconsistentPosition),
                },
            },
    {
        match msg {
            Message::Quit => Reaction::Stop,
            Message::Go => Reaction::Decide,
            Message::Uci => {
                let mut name = name_prefix_bytes();
                let tag = choice.tag_bytes();
                crate::parse::extend_from(&mut name, tag.as_slice());
                name.push(41);
                proof {
                    assert(name@ =~= id_name_of(choice));
                }
                let author = author_tag_bytes();
                let mut replies: Vec<Vec<u8>> = Vec::new();
                replies.push(uciok_bytes());
                replies.push(id_name_bytes(name.as_slice()));
                replies.push(id_author_bytes(author.as_slice()));
                proof {
                    assert(tviews(replies@) =~= uci_replies(choice));
                }
                Reaction::Replies(replies)
            },
            Message::IsReady => {
                let mut replies: Vec<Vec<u8>> = Vec::new();
                replies.push(readyok_bytes());
                proof {
                    assert(tviews(replies@) =~= seq![readyok_line()]);
                }
                Reaction::Replies(replies)
            },
            Message::SetPosition { startpos, fen, moves } => {
                let base: Vec<u8> = match (startpos, &fen) {
                    (true, None) => start_fen_bytes(),
                    (false, Some(f)) => {
                        if fen_check(f.as_slice()) {
                            let mut copy: Vec<u8> = Vec::new();
                            crate::parse::extend_from(&mut copy, f.as_slice());
                            proof {
                                assert(copy@ =~= f@);
                            }
                            copy
                        } else {
                            return Reaction::Fatal(ProtoError::InvalidFen);
                        }
                    },
                    _ => {
                        return Reaction::Fatal(ProtoError::InconsistentPosition);
                    },
                };
                match self.set_position(base.as_slice(), &moves) {
                    Ok(()) => Reaction::Silent,
                    Err(e) => Reaction::Fatal(e),
                }
            },
            _ => Reaction::Silent,
        }
    }

    /// Decides a move by the Random strategy, applies it, and returns the
    /// best-move reply line. The chosen move is always a member of the
    /// legal-move enumeration of the position it is played in.
    pub fn decide_move_random(&mut self) -> (r: Result<Vec<u8>, ProtoError>)
        requires
            old(self).wf(),
        ensures
            final(self).wf(),
            legal_of(old(self).board@).len() == 0 ==> r == Err::<Vec<u8>, ProtoError>(
                ProtoError::NoLegalMoves,
            ) && *final(self) == *old(self),
            r matches Ok(line) ==> exists|i: int|
                {
                    &&& 0 <= i < legal_of(old(self).board@).len()
                    &&& line@ == bestmove_line(#[trigger] legal_of(old(self).board@)[i])
                    &&& final(self).board@ == apply_of(
                        old(self).board@,
                        legal_of(old(self).board@)[i],
                    )
                },
            legal_of(old(self).board@).len() > 0 ==> r is Ok,
    {
        let legal = legal_moves_fen(self.board.as_slice());
        match choose_random(&legal) {
            None => Err(ProtoError::NoLegalMoves),
            Some(m) => {
                let ghost b0 = self.board@;
                let ghost i = choose|i: int| 0 <= i < legal@.len() && legal@[i] == m;
                assert(legal@.contains(m));
                assert(legal_of(b0)[i] == m);
                self.board = apply_move_fen(self.board.as_slice(), &m);
                let line = bestmove_bytes(&m);
                Ok(line)
            },
        }
    }

    /// Applies an externally chosen move — the subordinate's reply for the
    /// pass-through strategy, or the Worstfish pick — after checking it is
    /// legal, and returns the best-move reply line.
    pub fn commit_move(&mut self, m: &Mv) -> (r: Result<Vec<u8>, ProtoError>)
        requires
            old(self).wf(),
        ensures
            final(self).wf(),
            legal_of(old(self).board@).contains(*m) ==> match r {
                Ok(line) => line@ == bestmove_line(*m) && final(self).board@ == apply_of(
                    old(self).board@,
                    *m,
                ),
                Err(_) => false,
            },
            !legal_of(old(self).board@).contains(*m) ==> r == Err::<Vec<u8>, ProtoError>(
                ProtoError::IllegalMove,
            ) && *final(self) == *old(self),
    {
        let legal = legal_moves_fen(self.board.as_slice());
        if !contains_mv(&legal, m) {
            return Err(ProtoError::IllegalMove);
        }
        let ghost i = choose|i: int| 0 <= i < legal@.len() && legal@[i] == *m;
        assert(legal@[i].wf());
        self.board = apply_move_fen(self.board.as_slice(), m);
        Ok(bestmove_bytes(m))
    }

    /// The Worstfish probe set: each legal move of the current position
    /// paired with the position it leads to, in enumeration order.
    pub fn candidate_positions(&self) -> (r: Vec<(Mv, Vec<u8>)>)
        requires
            self.wf(),
        ensures
            r@.len() == legal_of(self.board@).len(),
            forall|i: int|
                0 <= i < r@.len() ==> {
                    &&& (#[trigger] r@[i]).0 == legal_of(self.board@)[i]
                    &&& r@[i].1@ == apply_of(self.board@, legal_of(self.board@)[i])
                    &&& fen_ok(r@[i].1@)
                },
    {
        let legal = legal_moves_fen(self.board.as_slice());
        let mut out: Vec<(Mv, Vec<u8>)> = Vec::new();
        let mut i: usize = 0;
        while i < legal.len()
            invariant
                i <= legal@.len(),
                legal@ == legal_of(self.board@),
                self.wf(),
                forall|k: int| 0 <= k < legal@.len() ==> (#[trigger] legal@[k]).wf(),
                out@.len() == i,
                forall|k: int|
                    0 <= k < i ==> {
                        &&& (#[trigger] out@[k]).0 == legal_of(self.board@)[k]
                        &&& out@[k].1@ == apply_of(self.board@, legal_of(self.board@)[k])
                        &&& fen_ok(out@[k].1@)
                    },
            decreases legal@.len() - i,
        {
            let m = legal[i];
            assert(legal@.contains(m)) by {
                assert(legal@[i as int] == m);
            }
            let after = apply_move_fen(self.board.as_slice(), &m);
            out.push((m, after));
            i += 1;
        }
        out
    }
}

/// The evaluation carried by the last line of `ls` that is an `info` line
/// with a score.
pub open spec fn last_score(ls: Seq<Seq<u8>>) -> Option<Score>
    decreases ls.len(),
{
    if ls.len() == 0 {
        None
    } else {
        match crate::parse::msg_of(ls.last()) {
            MsgView::InfoScore { score } => Some(score),
            _ => last_score(ls.drop_last()),
        }
    }
}

/// The evaluation a finished analysis reported: the score on the last `info`
/// line, as the subordinate refines its judgment line by line.
pub fn eval_of_lines(lines: &Vec<Vec<u8>>) -> (r: Option<Score>)
    ensures
        r == last_score(tviews(lines@)),
{
    let ghost lv = tviews(lines@);
    let mut j: usize = lines.len();
    proof {
        assert(lv.subrange(0, lines@.len() as int) =~= lv);
    }
    while j > 0
        invariant
            j <= lines@.len(),
            lv == tviews(lines@),
            last_score(lv) == last_score(lv.subrange(0, j as int)),
        decreases j,
    {
        let msg = parse_line(lines[j - 1].as_slice());
        let ghost pre = lv.subrange(0, j as int);
        proof {
            assert(pre.last() == lv[j - 1]);
            assert(pre.drop_last() =~= lv.subrange(0, j as int - 1));
        }
        match msg {
            Message::InfoScore { score } => {
                return Some(score);
            },
            _ => {
                proof {
                    assert(!(msg@ is InfoScore));
                    assert(last_score(pre) == last_score(lv.subrange(0, j as int - 1)));
                }
                j -= 1;
            },
        }
    }
    proof {
        assert(lv.subrange(0, 0) =~= Seq::<Seq<u8>>::empty());
    }
    None
}

/// Whether `v` holds `m`.
pub fn contains_mv(v: &Vec<Mv>, m: &Mv) -> (r: bool)
    ensures
        r == v@.contains(*m),
{
    let mut i: usize = 0;
    while i < v.len()
        invariant
            i <= v@.len(),
            forall|j: int| 0 <= j < i ==> v@[j] != *m,
        decreases v@.len() - i,
    {
        if v[i] == *m {
            assert(v@.contains(*m)) by {
                assert(v@[i as int] == *m);
            }
            return true;
        }
        i += 1;
    }
    false
}

} // verus!
