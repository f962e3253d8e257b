//! Coordinate notation for moves: `e2e4`, `e7e8q`.

use vstd::prelude::*;
use crate::msg::{Mv, Promotion};

verus! {

/// The wire text of a move in coordinate notation.
pub open spec fn mv_tok(m: Mv) -> Seq<u8> {
    let base = seq![
        (97 + m.from_file) as u8,
        (49 + m.from_rank) as u8,
        (97 + m.to_file) as u8,
        (49 + m.to_rank) as u8,
    ];
    match m.promo {
        Promotion::Nothing => base,
        Promotion::Knight => base.push(110),
        Promotion::Bishop => base.push(98),
        Promotion::Rook => base.push(114),
        Promotion::Queen => base.push(113),
    }
}

pub open spec fn file_byte_ok(b: u8) -> bool {
    97 <= b && b <= 104
}

pub open spec fn rank_byte_ok(b: u8) -> bool {
    49 <= b && b <= 56
}

pub open spec fn promo_of_byte(b: u8) -> Option<Promotion> {
    if b == 110 {
        Some(Promotion::Knight)
    } else if b == 98 {
        Some(Promotion::Bishop)
    } else if b == 114 {
        Some(Promotion::Rook)
    } else if b == 113 {
        Some(Promotion::Queen)
    } else {
        None
    }
}

/// The move a token of coordinate notation denotes, if it is one.
pub open spec fn mv_of_tok(t: Seq<u8>) -> Option<Mv> {
    if (t.len() == 4 || t.len() == 5) && file_byte_ok(t[0]) && rank_byte_ok(t[1])
        && file_byte_ok(t[2]) && rank_byte_ok(t[3]) {
        let promo = if t.len() == 5 {
            promo_of_byte(t[4])
        } else {
            Some(Promotion::Nothing)
        };
        match promo {
            Some(p) => Some(
                Mv {
                    from_file: (t[0] - 97) as u8,
                    from_rank: (t[1] - 49) as u8,
                    to_file: (t[2] - 97) as u8,
                    to_rank: (t[3] - 49) as u8,
                    promo: p,
                },
            ),
            None => None,
        }
    } else {
        None
    }
}

/// Notation round trip: printing a well-formed move and reading the text
/// back yields the same move.
pub proof fn lemma_mv_roundtrip(m: Mv)
    requires
        m.wf(),
    ensures
        mv_of_tok(mv_tok(m)) == Some(m),
{
    let t = mv_tok(m);
    match m.promo {
        Promotion::Nothing => {
            assert(mv_of_tok(t) == Some(m));
        },
        Promotion::Knight => {
            assert(mv_of_tok(t) == Some(m));
        },
        Promotion::Bishop => {
            assert(mv_of_tok(t) == Some(m));
        },
        Promotion::Rook => {
            assert(mv_of_tok(t) == Some(m));
        },
        Promotion::Queen => {
            assert(mv_of_tok(t) == Some(m));
        },
    }
}

/// A well-formed move's token never contains a separator byte.
pub proof fn lemma_mv_tok_no_space(m: Mv)
    requires
        m.wf(),
    ensures
        forall|k: int| 0 <= k < mv_tok(m).len() ==> !crate::parse::sp(#[trigger] mv_tok(m)[k]),
        4 <= mv_tok(m).len() <= 5,
{
    let t = mv_tok(m);
    assert forall|k: int| 0 <= k < t.len() implies !crate::parse::sp(t[k]) by {
        if k == 4 {
            assert(!crate::parse::sp(t[4]));
        }
    }
}

/// Renders a move in coordinate notation.
pub fn mv_token_bytes(m: &Mv) -> (r: Vec<u8>)
    requires
        m.wf(),
    ensures
        r@ == mv_tok(*m),
{
    let mut v: Vec<u8> = Vec::new();
    v.push(97 + m.from_file);
    v.push(49 + m.from_rank);
    v.push(97 + m.to_file);
    v.push(49 + m.to_rank);
    match m.promo {
        Promotion::Nothing => (),
        Promotion::Knight => v.push(110),
        Promotion::Bishop => v.push(98),
        Promotion::Rook => v.push(114),
        Promotion::Queen => v.push(113),
    }
    proof {
        assert(v@ =~= mv_tok(*m));
    }
    v
}

/// Reads a move from a token of coordinate notation.
pub fn parse_mv_token(t: &[u8]) -> (r: Option<Mv>)
    ensures
        r == mv_of_tok(t@),
{
    if !(t.len() == 4 || t.len() == 5) {
        return None;
    }
    let b0 = t[0];
    let b1 = t[1];
    let b2 = t[2];
    let b3 = t[3];
    if !(97 <= b0 && b0 <= 104 && 49 <= b1 && b1 <= 56 && 97 <= b2 && b2 <= 104 && 49 <= b3
        && b3 <= 56) {
        return None;
    }
    let promo: Option<Promotion> = if t.len() == 5 {
        let b4 = t[4];
        if b4 == 110 {
            Some(Promotion::Knight)
        } else if b4 == 98 {
            Some(Promotion::Bishop)
        } else if b4 == 114 {
            Some(Promotion::Rook)
        } else if b4 == 113 {
            Some(Promotion::Queen)
        } else {
            None
        }
    } else {
        Some(Promotion::Nothing)
    };
    match promo {
        Some(p) => Some(
            Mv {
                from_file: b0 - 97,
                from_rank: b1 - 49,
                to_file: b2 - 97,
                to_rank: b3 - 49,
                promo: p,
            },
        ),
        None => None,
    }
}

} // verus!
