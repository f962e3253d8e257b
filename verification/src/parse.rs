//! Line-oriented protocol parser: one inbound line of text becomes exactly
//! one `Message`, with unrecognized lines mapping to `Message::Unknown`.

use vstd::prelude::*;
use crate::msg::{Message, MsgView, Mv, Score};
use crate::notation::{mv_of_tok, parse_mv_token};

verus! {

/// Separator bytes: space, tab, carriage return, line feed.
pub open spec fn sp(b: u8) -> bool {
    b == 32 || b == 9 || b == 13 || b == 10
}

/// Splitting a line into whitespace-separated tokens, as a left fold over
/// the bytes: `done` are the finished tokens, `cur` the token being built.
pub open spec fn toks_acc(s: Seq<u8>, i: int, done: Seq<Seq<u8>>, cur: Seq<u8>) -> Seq<Seq<u8>>
    decreases s.len() - i,
{
    if i < 0 || i >= s.len() {
        if cur.len() > 0 {
            done.push(cur)
        } else {
            done
        }
    } else if sp(s[i]) {
        if cur.len() > 0 {
            toks_acc(s, i + 1, done.push(cur), seq![])
        } else {
            toks_acc(s, i + 1, done, seq![])
        }
    } else {
        toks_acc(s, i + 1, done, cur.push(s[i]))
    }
}

/// The tokens of a line.
pub open spec fn toks_of(s: Seq<u8>) -> Seq<Seq<u8>> {
    toks_acc(s, 0, seq![], seq![])
}

/// The views of a vector of byte vectors.
pub open spec fn tviews(v: Seq<Vec<u8>>) -> Seq<Seq<u8>> {
    Seq::new(v.len(), |i: int| v[i]@)
}

proof fn lemma_tviews_push(s: Seq<Vec<u8>>, v: Vec<u8>)
    ensures
        tviews(s.push(v)) == tviews(s).push(v@),
{
    assert(tviews(s.push(v)) =~= tviews(s).push(v@));
}

/// Splits a line into whitespace-separated tokens.
pub fn tokenize(line: &[u8]) -> (r: Vec<Vec<u8>>)
    ensures
        tviews(r@) == toks_of(line@),
{
    let mut done: Vec<Vec<u8>> = Vec::new();
    let mut cur: Vec<u8> = Vec::new();
    let mut i: usize = 0;
    proof {
        assert(tviews(done@) =~= Seq::<Seq<u8>>::empty());
        assert(cur@ =~= Seq::<u8>::empty());
    }
    while i < line.len()
        invariant
            i <= line.len(),
            toks_of(line@) == toks_acc(line@, i as int, tviews(done@), cur@),
        decreases line.len() - i,
    {
        let b = line[i];
        if b == 32 || b == 9 || b == 13 || b == 10 {
            if cur.len() > 0 {
                let ghost old_done = done@;
                let finished = cur;
                cur = Vec::new();
                done.push(finished);
                proof {
                    lemma_tviews_push(old_done, finished);
                    assert(cur@ =~= Seq::<u8>::empty());
                }
            } else {
                proof {
                    assert(cur@ =~= Seq::<u8>::empty());
                }
            }
        } else {
            cur.push(b);
        }
        i += 1;
    }
    if cur.len() > 0 {
        let ghost old_done = done@;
        done.push(cur);
        proof {
            lemma_tviews_push(old_done, done@.last());
        }
    }
    done
}

/// The command words the relay recognizes as a token classification.
#[derive(Clone, Copy, PartialEq, Eq, Structural, Debug)]
pub enum Word {
    Uci,
    UciOk,
    IsReady,
    ReadyOk,
    Quit,
    Go,
    Position,
    Startpos,
    Fen,
    Moves,
    Info,
    ScoreWord,
    CpWord,
    MateWord,
    BestMove,
    Other,
}

pub open spec fn w_uci() -> Seq<u8> {
    seq![117u8, 99, 105]
}

pub open spec fn w_uciok() -> Seq<u8> {
    seq![117u8, 99, 105, 111, 107]
}

pub open spec fn w_isready() -> Seq<u8> {
    seq![105u8, 115, 114, 101, 97, 100, 121]
}

pub open spec fn w_readyok() -> Seq<u8> {
    seq![114u8, 101, 97, 100, 121, 111, 107]
}

pub open spec fn w_quit() -> Seq<u8> {
    seq![113u8, 117, 105, 116]
}

pub open spec fn w_go() -> Seq<u8> {
    seq![103u8, 111]
}

pub open spec fn w_position() -> Seq<u8> {
    seq![112u8, 111, 115, 105, 116, 105, 111, 110]
}

pub open spec fn w_startpos() -> Seq<u8> {
    seq![115u8, 116, 97, 114, 116, 112, 111, 115]
}

pub open spec fn w_fen() -> Seq<u8> {
    seq![102u8, 101, 110]
}

pub open spec fn w_moves() -> Seq<u8> {
    seq![109u8, 111, 118, 101, 115]
}

pub open spec fn w_info() -> Seq<u8> {
    seq![105u8, 110, 102, 111]
}

pub open spec fn w_score() -> Seq<u8> {
    seq![115u8, 99, 111, 114, 101]
}

pub open spec fn w_cp() -> Seq<u8> {
    seq![99u8, 112]
}

pub open spec fn w_mate() -> Seq<u8> {
    seq![109u8, 97, 116, 101]
}

pub open spec fn w_bestmove() -> Seq<u8> {
    seq![98u8, 101, 115, 116, 109, 111, 118, 101]
}

/// Which command word a token is, if any.
pub open spec fn word_of(t: Seq<u8>) -> Word {
    if t == w_uci() {
        Word::Uci
    } else if t == w_uciok() {
        Word::UciOk
    } else if t == w_isready() {
        Word::IsReady
    } else if t == w_readyok() {
        Word::ReadyOk
    } else if t == w_quit() {
        Word::Quit
    } else if t == w_go() {
        Word::Go
    } else if t == w_position() {
        Word::Position
    } else if t == w_startpos() {
        Word::Startpos
    } else if t == w_fen() {
        Word::Fen
    } else if t == w_moves() {
        Word::Moves
    } else if t == w_info() {
        Word::Info
    } else if t == w_score() {
        Word::ScoreWord
    } else if t == w_cp() {
        Word::CpWord
    } else if t == w_mate() {
        Word::MateWord
    } else if t == w_bestmove() {
        Word::BestMove
    } else {
        Word::Other
    }
}

/// Classifies a token.
pub fn classify(t: &[u8]) -> (r: Word)
    ensures
        r == word_of(t@),
{
    let n = t.len();
    if n == 2 {
        if t[0] == 103 && t[1] == 111 {
            proof {
                assert(t@ =~= w_go());
            }
            return Word::Go;
        }
        if t[0] == 99 && t[1] == 112 {
            proof {
                assert(t@ =~= w_cp());
            }
            return Word::CpWord;
        }
    } else if n == 3 {
        if t[0] == 117 && t[1] == 99 && t[2] == 105 {
            proof {
                assert(t@ =~= w_uci());
            }
            return Word::Uci;
        }
        if t[0] == 102 && t[1] == 101 && t[2] == 110 {
            proof {
                assert(t@ =~= w_fen());
            }
            return Word::Fen;
        }
    } else if n == 4 {
        if t[0] == 113 && t[1] == 117 && t[2] == 105 && t[3] == 116 {
            proof {
                assert(t@ =~= w_quit());
            }
            return Word::Quit;
        }
        if t[0] == 105 && t[1] == 110 && t[2] == 102 && t[3] == 111 {
            proof {
                assert(t@ =~= w_info());
            }
            return Word::Info;
        }
        if t[0] == 109 && t[1] == 97 && t[2] == 116 && t[3] == 101 {
            proof {
                assert(t@ =~= w_mate());
            }
            return Word::MateWord;
        }
    } else if n == 5 {
        if t[0] == 117 && t[1] == 99 && t[2] == 105 && t[3] == 111 && t[4] == 107 {
            proof {
                assert(t@ =~= w_uciok());
            }
            return Word::UciOk;
        }
        if t[0] == 109 && t[1] == 111 && t[2] == 118 && t[3] == 101 && t[4] == 115 {
            proof {
                assert(t@ =~= w_moves());
            }
            return Word::Moves;
        }
        if t[0] == 115 && t[1] == 99 && t[2] == 111 && t[3] == 114 && t[4] == 101 {
            proof {
                assert(t@ =~= w_score());
            }
            return Word::ScoreWord;
        }
    } else if n == 7 {
        if t[0] == 105 && t[1] == 115 && t[2] == 114 && t[3] == 101 && t[4] == 97 && t[5] == 100
            && t[6] == 121 {
            proof {
                assert(t@ =~= w_isready());
            }
            return Word::IsReady;
        }
        if t[0] == 114 && t[1] == 101 && t[2] == 97 && t[3] == 100 && t[4] == 121 && t[5] == 111
            && t[6] == 107 {
            proof {
                assert(t@ =~= w_readyok());
            }
            return Word::ReadyOk;
        }
    } else if n == 8 {
        if t[0] == 112 && t[1] == 111 && t[2] == 115 && t[3] == 105 && t[4] == 116 && t[5] == 105
            && t[6] == 111 && t[7] == 110 {
            proof {
                assert(t@ =~= w_position());
            }
            return Word::Position;
        }
        if t[0] == 115 && t[1] == 116 && t[2] == 97 && t[3] == 114 && t[4] == 116 && t[5] == 112
            && t[6] == 111 && t[7] == 115 {
            proof {
                assert(t@ =~= w_startpos());
            }
            return Word::Startpos;
        }
        if t[0] == 98 && t[1] == 101 && t[2] == 115 && t[3] == 116 && t[4] == 109 && t[5] == 111
            && t[6] == 118 && t[7] == 101 {
            proof {
                assert(t@ =~= w_bestmove());
            }
            return Word::BestMove;
        }
    }
    Word::Other
}

/// Powers of ten.
pub open spec fn p10(k: int) -> int
    decreases k,
{
    if k <= 0 {
        1
    } else {
        10 * p10(k - 1)
    }
}

/// Whether every byte of `t` from position `i` on is a decimal digit.
pub open spec fn all_digits(t: Seq<u8>, i: int) -> bool
    decreases t.len() - i,
{
    if i < 0 || i >= t.len() {
        true
    } else {
        48 <= t[i] && t[i] <= 57 && all_digits(t, i + 1)
    }
}

/// The value of the digits of `t` from position `i` on, folded onto `acc`.
pub open spec fn digits_val(t: Seq<u8>, i: int, acc: int) -> int
    decreases t.len() - i,
{
    if i < 0 || i >= t.len() {
        acc
    } else {
        digits_val(t, i + 1, acc * 10 + (t[i] - 48))
    }
}

/// The integer a token denotes: an optional minus sign, then at most nine
/// decimal digits (more than enough for any evaluation the protocol carries).
pub open spec fn int_of_tok(t: Seq<u8>) -> Option<i64> {
    if 2 <= t.len() && t.len() <= 10 && t[0] == 45 && all_digits(t, 1) {
        Some((0 - digits_val(t, 1, 0)) as i64)
    } else if 1 <= t.len() && t.len() <= 9 && all_digits(t, 0) {
        Some(digits_val(t, 0, 0) as i64)
    } else {
        None
    }
}

proof fn lemma_digits_bound(t: Seq<u8>, i: int, j: int, acc: int)
    requires
        0 <= i <= j <= t.len(),
        0 <= acc < p10(j - i),
        all_digits(t, j),
    ensures
        0 <= digits_val(t, j, acc) < p10(t.len() - i),
    decreases t.len() - j,
{
    if j >= t.len() {
        lemma_p10_mono(j - i, t.len() - i);
    } else {
        assert(t[j] - 48 <= 9);
        assert(acc * 10 + (t[j] - 48) < p10(j - i) * 10) by {
            assert(acc * 10 <= (p10(j - i) - 1) * 10) by (nonlinear_arith)
                requires
                    acc <= p10(j - i) - 1,
            ;
        }
        lemma_digits_bound(t, i, j + 1, acc * 10 + (t[j] - 48));
    }
}

proof fn lemma_p10_mono(a: int, b: int)
    requires
        a <= b,
    ensures
        p10(a) <= p10(b),
        p10(a) >= 1,
    decreases b - a,
{
    if a < b {
        lemma_p10_mono(a, b - 1);
    } else {
        lemma_p10_pos(a);
    }
}

proof fn lemma_p10_pos(a: int)
    ensures
        p10(a) >= 1,
    decreases a,
{
    if a > 0 {
        lemma_p10_pos(a - 1);
    }
}

/// Reads the digits `t[start..]` as a number; `None` on a non-digit.
fn parse_digits(t: &[u8], start: usize) -> (r: Option<i64>)
    requires
        start < t@.len(),
        t@.len() - start <= 9,
    ensures
        all_digits(t@, start as int) ==> r is Some,
        !all_digits(t@, start as int) ==> r is None,
        r is Some ==> 0 <= r->Some_0 < 1000000000 && r->Some_0 as int == digits_val(
            t@,
            start as int,
            0,
        ),
{
    let mut acc: i64 = 0;
    let mut j: usize = start;
    proof {
        reveal_with_fuel(p10, 11);
    }
    while j < t.len()
        invariant
            start <= j <= t@.len(),
            t@.len() - start <= 9,
            all_digits(t@, start as int) == all_digits(t@, j as int),
            0 <= acc < p10(j - start),
            p10(9) == 1000000000,
            all_digits(t@, j as int) ==> digits_val(t@, start as int, 0) == digits_val(
                t@,
                j as int,
                acc as int,
            ),
        decreases t@.len() - j,
    {
        let b = t[j];
        if b < 48 || b > 57 {
            assert(!all_digits(t@, j as int));
            return None;
        }
        proof {
            lemma_p10_mono(j - start, 8);
            reveal_with_fuel(p10, 11);
        }
        acc = acc * 10 + (b - 48) as i64;
        j += 1;
        proof {
            lemma_p10_mono(j - start, 9);
        }
    }
    proof {
        lemma_p10_mono(j - start, 9);
    }
    Some(acc)
}

/// Reads an integer token.
pub fn parse_int_tok(t: &[u8]) -> (r: Option<i64>)
    ensures
        r == int_of_tok(t@),
{
    let n = t.len();
    if n >= 2 && t[0] == 45 {
        if n > 10 {
            return None;
        }
        match parse_digits(t, 1) {
            Some(v) => Some(-v),
            None => None,
        }
    } else if 1 <= n && n <= 9 {
        parse_digits(t, 0)
    } else {
        None
    }
}

/// The moves denoted by the tokens `ts[j..]`, if every one is a move.
pub open spec fn mvs_of_toks(ts: Seq<Seq<u8>>, j: int) -> Option<Seq<Mv>>
    decreases ts.len() - j,
{
    if j < 0 || j >= ts.len() {
        Some(seq![])
    } else {
        match mv_of_tok(ts[j]) {
            None => None,
            Some(m) => match mvs_of_toks(ts, j + 1) {
                None => None,
                Some(rest) => Some(seq![m] + rest),
            },
        }
    }
}

/// The first index at or after `j` whose token is the word `moves`, or the
/// token count if there is none.
pub open spec fn moves_idx(ts: Seq<Seq<u8>>, j: int) -> int
    decreases ts.len() - j,
{
    if j < 0 || j >= ts.len() {
        ts.len() as int
    } else if word_of(ts[j]) == Word::Moves {
        j
    } else {
        moves_idx(ts, j + 1)
    }
}

proof fn lemma_moves_idx_range(ts: Seq<Seq<u8>>, j: int)
    requires
        0 <= j <= ts.len(),
    ensures
        j <= moves_idx(ts, j) <= ts.len(),
    decreases ts.len() - j,
{
    if j < ts.len() && word_of(ts[j]) != Word::Moves {
        lemma_moves_idx_range(ts, j + 1);
    }
}

/// The board-notation fields `ts[i..end]` joined by single spaces, folded
/// onto `acc`.
pub open spec fn join_to(ts: Seq<Seq<u8>>, i: int, end: int, acc: Seq<u8>) -> Seq<u8>
    decreases end - i,
{
    if i < 0 || i >= end {
        acc
    } else if i >= ts.len() {
        acc
    } else {
        join_to(ts, i + 1, end, acc + seq![32u8] + ts[i])
    }
}

/// What a `position` line means.
pub open spec fn position_of_toks(ts: Seq<Seq<u8>>) -> MsgView {
    if ts.len() >= 2 && word_of(ts[1]) == Word::Startpos {
        if ts.len() == 2 {
            MsgView::SetPosition { startpos: true, fen: None, moves: seq![] }
        } else if word_of(ts[2]) == Word::Moves {
            match mvs_of_toks(ts, 3) {
                Some(ms) => MsgView::SetPosition { startpos: true, fen: None, moves: ms },
                None => MsgView::Unknown,
            }
        } else {
            MsgView::Unknown
        }
    } else if ts.len() >= 3 && word_of(ts[1]) == Word::Fen && moves_idx(ts, 2) > 2 {
        let end = moves_idx(ts, 2);
        let fen = join_to(ts, 3, end, ts[2]);
        if end == ts.len() {
            MsgView::SetPosition { startpos: false, fen: Some(fen), moves: seq![] }
        } else {
            match mvs_of_toks(ts, end + 1) {
                Some(ms) => MsgView::SetPosition { startpos: false, fen: Some(fen), moves: ms },
                None => MsgView::Unknown,
            }
        }
    } else if ts.len() >= 2 && word_of(ts[1]) == Word::Moves {
        match mvs_of_toks(ts, 2) {
            Some(ms) => MsgView::SetPosition { startpos: false, fen: None, moves: ms },
            None => MsgView::Unknown,
        }
    } else {
        MsgView::Unknown
    }
}

/// The first evaluation carried by the tokens `ts[j..]`: the word `score`
/// followed by `cp` or `mate` and an integer.
pub open spec fn info_score(ts: Seq<Seq<u8>>, j: int) -> Option<Score>
    decreases ts.len() - j,
{
    if j < 0 || j >= ts.len() {
        None
    } else if word_of(ts[j]) == Word::ScoreWord {
        if j + 2 < ts.len() {
            if word_of(ts[j + 1]) == Word::CpWord {
                match int_of_tok(ts[j + 2]) {
                    Some(v) => Some(Score::Cp(v)),
                    None => None,
                }
            } else if word_of(ts[j + 1]) == Word::MateWord {
                match int_of_tok(ts[j + 2]) {
                    Some(v) => Some(Score::Mate(v)),
                    None => None,
                }
            } else {
                None
            }
        } else {
            None
        }
    } else {
        info_score(ts, j + 1)
    }
}

/// What a token list means as a message.
pub open spec fn msg_of_toks(ts: Seq<Seq<u8>>) -> MsgView {
    if ts.len() == 0 {
        MsgView::Unknown
    } else {
        match word_of(ts[0]) {
            Word::Uci => MsgView::Uci,
            Word::UciOk => MsgView::UciOk,
            Word::IsReady => MsgView::IsReady,
            Word::ReadyOk => MsgView::ReadyOk,
            Word::Quit => MsgView::Quit,
            Word::Go => MsgView::Go,
            Word::Position => position_of_toks(ts),
            Word::Info => match info_score(ts, 1) {
                Some(s) => MsgView::InfoScore { score: s },
                None => MsgView::Unknown,
            },
            Word::BestMove => if ts.len() >= 2 {
                match mv_of_tok(ts[1]) {
                    Some(m) => MsgView::BestMove { mv: m },
                    None => MsgView::Unknown,
                }
            } else {
                MsgView::Unknown
            },
            _ => MsgView::Unknown,
        }
    }
}

/// What a line of text means as a message.
pub open spec fn msg_of(line: Seq<u8>) -> MsgView {
    msg_of_toks(toks_of(line))
}

/// Appends all of `src` to `dst`.
pub fn extend_from(dst: &mut Vec<u8>, src: &[u8])
    ensures
        final(dst)@ == old(dst)@ + src@,
{
    let mut i: usize = 0;
    while i < src.len()
        invariant
            i <= src@.len(),
            dst@ == old(dst)@ + src@.subrange(0, i as int),
        decreases src@.len() - i,
    {
        dst.push(src[i]);
        i += 1;
        proof {
            assert(old(dst)@ + src@.subrange(0, i as int) =~= (old(dst)@ + src@.subrange(
                0,
                i as int - 1,
            )).push(src@[i as int - 1]));
        }
    }
    proof {
        assert(src@.subrange(0, src@.len() as int) =~= src@);
    }
}

/// Reads the move tokens `ts[start..]`.
fn parse_mvs(ts: &Vec<Vec<u8>>, start: usize) -> (r: Option<Vec<Mv>>)
    requires
        start <= ts@.len(),
    ensures
        match r {
            Some(v) => mvs_of_toks(tviews(ts@), start as int) == Some(v@),
            None => mvs_of_toks(tviews(ts@), start as int) is None,
        },
{
    let ghost tsv = tviews(ts@);
    let mut acc: Vec<Mv> = Vec::new();
    let mut j: usize = start;
    while j < ts.len()
        invariant
            start <= j <= ts@.len(),
            tsv == tviews(ts@),
            match mvs_of_toks(tsv, j as int) {
                Some(rest) => mvs_of_toks(tsv, start as int) == Some(acc@ + rest),
                None => mvs_of_toks(tsv, start as int) is None,
            },
        decreases ts@.len() - j,
    {
        match parse_mv_token(ts[j].as_slice()) {
            None => {
                assert(mvs_of_toks(tsv, j as int) is None);
                return None;
            },
            Some(m) => {
                let ghost old_acc = acc@;
                acc.push(m);
                j += 1;
                proof {
                    if mvs_of_toks(tsv, j as int) is Some {
                        let rest = mvs_of_toks(tsv, j as int)->Some_0;
                        assert(old_acc + (seq![m] + rest) =~= acc@ + rest);
                    }
                }
            },
        }
    }
    proof {
        assert(mvs_of_toks(tsv, j as int) == Some(Seq::<Mv>::empty()));
        assert(acc@ + Seq::<Mv>::empty() =~= acc@);
    }
    Some(acc)
}

/// Reads one `position` line from its tokens.
fn parse_position(ts: &Vec<Vec<u8>>) -> (r: Message)
    requires
        ts@.len() >= 1,
        word_of(tviews(ts@)[0]) == Word::Position,
    ensures
        r@ == position_of_toks(tviews(ts@)),
{
    let ghost tsv = tviews(ts@);
    if ts.len() >= 2 {
        let w1 = classify(ts[1].as_slice());
        if w1 == Word::Startpos {
            if ts.len() == 2 {
                return Message::SetPosition { startpos: true, fen: None, moves: Vec::new() };
            }
            if classify(ts[2].as_slice()) == Word::Moves {
                match parse_mvs(ts, 3) {
                    Some(ms) => {
                        return Message::SetPosition { startpos: true, fen: None, moves: ms };
                    },
                    None => {
                        return Message::Unknown;
                    },
                }
            }
            return Message::Unknown;
        }
        if w1 == Word::Fen && ts.len() >= 3 {
            let mut end: usize = 2;
            while end < ts.len() && classify(ts[end].as_slice()) != Word::Moves
                invariant
                    2 <= end <= ts@.len(),
                    tsv == tviews(ts@),
                    moves_idx(tsv, 2) == moves_idx(tsv, end as int),
                decreases ts@.len() - end,
            {
                end += 1;
            }
            proof {
                lemma_moves_idx_range(tsv, end as int);
            }
            if end == 2 {
                return Message::Unknown;
            }
            let mut fen: Vec<u8> = Vec::new();
            extend_from(&mut fen, ts[2].as_slice());
            let mut i: usize = 3;
            proof {
                assert(Seq::<u8>::empty() + tsv[2] =~= tsv[2]);
            }
            while i < end
                invariant
                    3 <= i <= end <= ts@.len(),
                    tsv == tviews(ts@),
                    join_to(tsv, 3, end as int, tsv[2]) == join_to(tsv, i as int, end as int, fen@),
                decreases end - i,
            {
                let ghost old_fen = fen@;
                fen.push(32);
                extend_from(&mut fen, ts[i].as_slice());
                i += 1;
                proof {
                    assert(fen@ =~= old_fen + seq![32u8] + tsv[i as int - 1]);
                }
            }
            if end == ts.len() {
                return Message::SetPosition { startpos: false, fen: Some(fen), moves: Vec::new() };
            }
            match parse_mvs(ts, end + 1) {
                Some(ms) => {
                    return Message::SetPosition { startpos: false, fen: Some(fen), moves: ms };
                },
                None => {
                    return Message::Unknown;
                },
            }
        }
        if w1 == Word::Moves {
            match parse_mvs(ts, 2) {
                Some(ms) => {
                    return Message::SetPosition { startpos: false, fen: None, moves: ms };
                },
                None => {
                    return Message::Unknown;
                },
            }
        }
        return Message::Unknown;
    }
    Message::Unknown
}

/// Reads the evaluation out of an `info` line's tokens.
fn find_info_score(ts: &Vec<Vec<u8>>) -> (r: Option<Score>)
    requires
        ts@.len() >= 1,
    ensures
        r == info_score(tviews(ts@), 1),
{
    let ghost tsv = tviews(ts@);
    let mut j: usize = 1;
    while j < ts.len()
        invariant
            1 <= j <= ts@.len(),
            tsv == tviews(ts@),
            info_score(tsv, 1) == info_score(tsv, j as int),
        decreases ts@.len() - j,
    {
        if classify(ts[j].as_slice()) == Word::ScoreWord {
            if ts.len() - j > 2 {
                let kind = classify(ts[j + 1].as_slice());
                if kind == Word::CpWord {
                    match parse_int_tok(ts[j + 2].as_slice()) {
                        Some(v) => {
                            return Some(Score::Cp(v));
                        },
                        None => {
                            return None;
                        },
                    }
                }
                if kind == Word::MateWord {
                    match parse_int_tok(ts[j + 2].as_slice()) {
                        Some(v) => {
                            return Some(Score::Mate(v));
                        },
                        None => {
                            return None;
                        },
                    }
                }
                return None;
            }
            return None;
        }
        j += 1;
    }
    None
}

/// Parses one line of protocol text into a message. Lines the relay does
/// not model come back as `Message::Unknown`.
pub fn parse_line(line: &[u8]) -> (r: Message)
    ensures
        r@ == msg_of(line@),
{
    let ts = tokenize(line);
    let ghost tsv = tviews(ts@);
    if ts.len() == 0 {
        return Message::Unknown;
    }
    let w = classify(ts[0].as_slice());
    match w {
        Word::Uci => Message::Uci,
        Word::UciOk => Message::UciOk,
        Word::IsReady => Message::IsReady,
        Word::ReadyOk => Message::ReadyOk,
        Word::Quit => Message::Quit,
        Word::Go => Message::Go,
        Word::Position => parse_position(&ts),
        Word::Info => match find_info_score(&ts) {
            Some(s) => Message::InfoScore { score: s },
            None => Message::Unknown,
        },
        Word::BestMove => {
            if ts.len() >= 2 {
                match parse_mv_token(ts[1].as_slice()) {
                    Some(m) => Message::BestMove { mv: m },
                    None => Message::Unknown,
                }
            } else {
                Message::Unknown
            }
        },
        _ => Message::Unknown,
    }
}

} // verus!
