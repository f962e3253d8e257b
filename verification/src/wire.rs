//! Serializing outbound protocol messages to wire text, and the round-trip
//! law tying the serializer to the parser.

use vstd::prelude::*;
use crate::msg::{Mv, MsgView};
use crate::notation::{mv_tok, mv_token_bytes, lemma_mv_roundtrip, lemma_mv_tok_no_space};
use crate::parse::{
    sp, toks_acc, toks_of, msg_of, msg_of_toks, word_of, Word, w_uciok, w_readyok, w_bestmove,
    w_position, w_fen, w_go, extend_from,
};

verus! {

/// Decimal digits of a nonnegative number, most significant first.
pub open spec fn dec_of(n: int) -> Seq<u8>
    decreases n,
{
    if n < 10 {
        seq![(48 + n) as u8]
    } else {
        dec_of(n / 10).push((48 + n % 10) as u8)
    }
}

/// Appends the decimal digits of `n`.
pub fn push_dec(v: &mut Vec<u8>, n: u64)
    ensures
        final(v)@ == old(v)@ + dec_of(n as int),
    decreases n,
{
    if n < 10 {
        v.push(48 + n as u8);
        proof {
            assert(v@ =~= old(v)@ + dec_of(n as int));
        }
    } else {
        push_dec(v, n / 10);
        v.push(48 + (n % 10) as u8);
        proof {
            assert(v@ =~= old(v)@ + dec_of(n as int));
        }
    }
}

/// `id name ` prefix.
pub open spec fn id_name_prefix() -> Seq<u8> {
    seq![105u8, 100, 32, 110, 97, 109, 101, 32]
}

/// `id author ` prefix.
pub open spec fn id_author_prefix() -> Seq<u8> {
    seq![105u8, 100, 32, 97, 117, 116, 104, 111, 114, 32]
}

/// The `uciok` reply line.
pub open spec fn uciok_line() -> Seq<u8> {
    w_uciok()
}

/// The `readyok` readiness-acknowledgment line.
pub open spec fn readyok_line() -> Seq<u8> {
    w_readyok()
}

/// The `id name <name>` reply line.
pub open spec fn id_name_line(name: Seq<u8>) -> Seq<u8> {
    id_name_prefix() + name
}

/// The `id author <author>` reply line.
pub open spec fn id_author_line(author: Seq<u8>) -> Seq<u8> {
    id_author_prefix() + author
}

/// The `bestmove <move>` reply line.
pub open spec fn bestmove_line(m: Mv) -> Seq<u8> {
    w_bestmove() + seq![32u8] + mv_tok(m)
}

/// The `position fen <fen>` command line.
pub open spec fn position_fen_line(fen: Seq<u8>) -> Seq<u8> {
    w_position() + seq![32u8] + w_fen() + seq![32u8] + fen
}

/// The `go nodes <n>` command line.
pub open spec fn go_nodes_line(n: int) -> Seq<u8> {
    w_go() + seq![32u8, 110, 111, 100, 101, 115, 32] + dec_of(n)
}

/// Renders `uciok`.
pub fn uciok_bytes() -> (r: Vec<u8>)
    ensures
        r@ == uciok_line(),
{
    let mut v: Vec<u8> = Vec::new();
    v.push(117);
    v.push(99);
    v.push(105);
    v.push(111);
    v.push(107);
    proof {
        assert(v@ =~= uciok_line());
    }
    v
}

/// Renders `readyok`.
pub fn readyok_bytes() -> (r: Vec<u8>)
    ensures
        r@ == readyok_line(),
{
    let mut v: Vec<u8> = Vec::new();
    v.push(114);
    v.push(101);
    v.push(97);
    v.push(100);
    v.push(121);
    v.push(111);
    v.push(107);
    proof {
        assert(v@ =~= readyok_line());
    }
    v
}

/// Renders `id name <name>`.
pub fn id_name_bytes(name: &[u8]) -> (r: Vec<u8>)
    ensures
        r@ == id_name_line(name@),
{
    let mut v: Vec<u8> = Vec::new();
    v.push(105);
    v.push(100);
    v.push(32);
    v.push(110);
    v.push(97);
    v.push(109);
    v.push(101);
    v.push(32);
    proof {
        assert(v@ =~= id_name_prefix());
    }
    extend_from(&mut v, name);
    v
}

/// Renders `id author <author>`.
pub fn id_author_bytes(author: &[u8]) -> (r: Vec<u8>)
    ensures
        r@ == id_author_line(author@),
{
    let mut v: Vec<u8> = Vec::new();
    v.push(105);
    v.push(100);
    v.push(32);
    v.push(97);
    v.push(117);
    v.push(116);
    v.push(104);
    v.push(111);
    v.push(114);
    v.push(32);
    proof {
        assert(v@ =~= id_author_prefix());
    }
    extend_from(&mut v, author);
    v
}

/// Renders `bestmove <move>`.
pub fn bestmove_bytes(m: &Mv) -> (r: Vec<u8>)
    requires
        m.wf(),
    ensures
        r@ == bestmove_line(*m),
{
    let mut v: Vec<u8> = Vec::new();
    v.push(98);
    v.push(101);
    v.push(115);
    v.push(116);
    v.push(109);
    v.push(111);
    v.push(118);
    v.push(101);
    v.push(32);
    proof {
        assert(v@ =~= w_bestmove() + seq![32u8]);
    }
    let t = mv_token_bytes(m);
    extend_from(&mut v, t.as_slice());
    proof {
        assert(v@ =~= bestmove_line(*m));
    }
    v
}

/// Renders `position fen <fen>`.
pub fn position_fen_bytes(fen: &[u8]) -> (r: Vec<u8>)
    ensures
        r@ == position_fen_line(fen@),
{
    let mut v: Vec<u8> = Vec::new();
    v.push(112);
    v.push(111);
    v.push(115);
    v.push(105);
    v.push(116);
    v.push(105);
    v.push(111);
    v.push(110);
    v.push(32);
    v.push(102);
    v.push(101);
    v.push(110);
    v.push(32);
    proof {
        assert(v@ =~= w_position() + seq![32u8] + w_fen() + seq![32u8]);
    }
    extend_from(&mut v, fen);
    proof {
        assert(v@ =~= position_fen_line(fen@));
    }
    v
}

/// Renders `go nodes <n>`.
pub fn go_nodes_bytes(n: u64) -> (r: Vec<u8>)
    ensures
        r@ == go_nodes_line(n as int),
{
    let mut v: Vec<u8> = Vec::new();
    v.push(103);
    v.push(111);
    v.push(32);
    v.push(110);
    v.push(111);
    v.push(100);
    v.push(101);
    v.push(115);
    v.push(32);
    proof {
        assert(v@ =~= w_go() + seq![32u8, 110, 111, 100, 101, 115, 32]);
    }
    push_dec(&mut v, n);
    proof {
        assert(v@ =~= go_nodes_line(n as int));
    }
    v
}

/// A run of non-separator bytes is swallowed whole by the tokenizer fold.
proof fn lemma_toks_run(s: Seq<u8>, i: int, j: int, done: Seq<Seq<u8>>, cur: Seq<u8>)
    requires
        0 <= i <= j <= s.len(),
        forall|k: int| i <= k < j ==> !sp(#[trigger] s[k]),
    ensures
        toks_acc(s, i, done, cur) == toks_acc(s, j, done, cur + s.subrange(i, j)),
    decreases j - i,
{
    if i == j {
        assert(cur + s.subrange(i, j) =~= cur);
    } else {
        assert(!sp(s[i]));
        lemma_toks_run(s, i + 1, j, done, cur.push(s[i]));
        assert(cur.push(s[i]) + s.subrange(i + 1, j) =~= cur + s.subrange(i, j));
    }
}

/// Round trip: the text of a best-move reply parses back to the same move.
pub proof fn lemma_bestmove_roundtrip(m: Mv)
    requires
        m.wf(),
    ensures
        msg_of(bestmove_line(m)) == (MsgView::BestMove { mv: m }),
{
    let s = bestmove_line(m);
    let t = mv_tok(m);
    lemma_mv_tok_no_space(m);
    assert(s.len() == 9 + t.len());
    assert forall|k: int| 0 <= k < 8 implies !sp(#[trigger] s[k]) by {
        assert(s[k] == w_bestmove()[k]);
        if k == 0 {
            assert(!sp(s[0]));
        } else if k == 1 {
            assert(!sp(s[1]));
        } else if k == 2 {
            assert(!sp(s[2]));
        } else if k == 3 {
            assert(!sp(s[3]));
        } else if k == 4 {
            assert(!sp(s[4]));
        } else if k == 5 {
            assert(!sp(s[5]));
        } else if k == 6 {
            assert(!sp(s[6]));
        } else {
            assert(!sp(s[7]));
        }
    }
    assert(sp(s[8]));
    assert forall|k: int| 9 <= k < s.len() implies !sp(#[trigger] s[k]) by {
        assert(s[k] == t[k - 9]);
    }
    lemma_toks_run(s, 0, 8, seq![], seq![]);
    assert(Seq::<u8>::empty() + s.subrange(0, 8) =~= w_bestmove());
    assert(toks_of(s) == toks_acc(s, 8, seq![], w_bestmove()));
    assert(toks_acc(s, 8, seq![], w_bestmove()) == toks_acc(
        s,
        9,
        seq![w_bestmove()],
        Seq::<u8>::empty(),
    ));
    lemma_toks_run(s, 9, s.len() as int, seq![w_bestmove()], seq![]);
    assert(Seq::<u8>::empty() + s.subrange(9, s.len() as int) =~= t);
    assert(t.len() > 0);
    assert(toks_of(s) == seq![w_bestmove(), t]);
    assert(word_of(w_bestmove()) == Word::BestMove);
    lemma_mv_roundtrip(m);
    assert(msg_of_toks(seq![w_bestmove(), t]) == (MsgView::BestMove { mv: m }));
}

} // verus!
