//! Strategy selection and the move-choice policies: Random (a uniformly
//! random legal move), Stockfish (pass the subordinate's choice through) and
//! Worstfish (the move the subordinate rates worst for us).

use vstd::prelude::*;
use crate::msg::{Mv, Score};

verus! {

/// A named move-choice strategy.
pub trait Engine {
    fn name(&self) -> &'static str;

    fn description(&self) -> &'static str;
}

/// Chooses moves uniformly at random among the legal ones.
pub struct RandomEngine;

/// Relays the subordinate engine's own choice unchanged.
pub struct StockfishEngine;

/// Chooses the move the subordinate engine rates worst.
pub struct WorstfishEngine;

impl Engine for RandomEngine {
    fn name(&self) -> &'static str {
        "Random"
    }

    fn description(&self) -> &'static str {
        "Plays a uniformly random legal move"
    }
}

impl Engine for StockfishEngine {
    fn name(&self) -> &'static str {
        "Stockfish"
    }

    fn description(&self) -> &'static str {
        "Relays the subordinate engine's choice unchanged"
    }
}

impl Engine for WorstfishEngine {
    fn name(&self) -> &'static str {
        "Worstfish"
    }

    fn description(&self) -> &'static str {
        "Plays the move the subordinate engine rates worst"
    }
}

/// Which strategy the relay runs.
#[derive(Clone, Copy, PartialEq, Eq, Structural, Debug)]
pub enum EngineChoice {
    Random,
    Stockfish,
    Worstfish,
}

/// Lower case for ASCII letters.
pub open spec fn lower(c: char) -> char {
    if 'A' <= c && c <= 'Z' {
        ((c as int) + 32) as char
    } else {
        c
    }
}

/// Equality of character sequences up to ASCII case.
pub open spec fn ci_eq(a: Seq<char>, b: Seq<char>) -> bool {
    a.len() == b.len() && forall|i: int| 0 <= i < a.len() ==> lower(a[i]) == lower(b[i])
}

/// The strategy a name denotes, matching case-insensitively against the
/// documented names and synonyms.
pub open spec fn choice_of_name(s: Seq<char>) -> Option<EngineChoice> {
    if ci_eq(s, "rand"@) || ci_eq(s, "random"@) {
        Some(EngineChoice::Random)
    } else if ci_eq(s, "boring"@) || ci_eq(s, "dummy"@) || ci_eq(s, "passthrough"@) || ci_eq(
        s,
        "stockfish"@,
    ) {
        Some(EngineChoice::Stockfish)
    } else if ci_eq(s, "worstfish"@) {
        Some(EngineChoice::Worstfish)
    } else {
        None
    }
}

fn lower_char(c: char) -> (r: char)
    ensures
        r == lower(c),
{
    if 'A' <= c && c <= 'Z' {
        (((c as u8) + 32) as char)
    } else {
        c
    }
}

/// Compares two names up to ASCII case.
fn eq_ignore_case(a: &str, b: &str) -> (r: bool)
    ensures
        r == ci_eq(a@, b@),
{
    let na = a.unicode_len();
    let nb = b.unicode_len();
    if na != nb {
        return false;
    }
    let mut i: usize = 0;
    while i < na
        invariant
            na == a@.len(),
            nb == b@.len(),
            na == nb,
            i <= na,
            forall|j: int| 0 <= j < i ==> lower(a@[j]) == lower(b@[j]),
        decreases na - i,
    {
        let ca = lower_char(a.get_char(i));
        let cb = lower_char(b.get_char(i));
        if ca != cb {
            return false;
        }
        i += 1;
    }
    true
}

impl EngineChoice {
    /// Resolves a strategy name, case-insensitively; an unrecognized name
    /// comes back unchanged as the error.
    pub fn try_from<'a>(name: &'a str) -> (r: Result<EngineChoice, &'a str>)
        ensures
            match r {
                Ok(c) => choice_of_name(name@) == Some(c),
                Err(e) => choice_of_name(name@) is None && e@ == name@,
            },
    {
        if eq_ignore_case(name, "rand") || eq_ignore_case(name, "random") {
            Ok(EngineChoice::Random)
        } else if eq_ignore_case(name, "boring") || eq_ignore_case(name, "dummy")
            || eq_ignore_case(name, "passthrough") || eq_ignore_case(name, "stockfish") {
            Ok(EngineChoice::Stockfish)
        } else if eq_ignore_case(name, "worstfish") {
            Ok(EngineChoice::Worstfish)
        } else {
            Err(name)
        }
    }

    /// Builds the chosen strategy.
    pub fn build(self) -> (r: Box<dyn Engine>) {
        match self {
            EngineChoice::Random => Box::new(RandomEngine),
            EngineChoice::Stockfish => Box::new(StockfishEngine),
            EngineChoice::Worstfish => Box::new(WorstfishEngine),
        }
    }

    /// The strategy's display tag, as used in the identification reply.
    pub fn tag_bytes(self) -> (r: Vec<u8>)
        ensures
            r@ == tag_of(self),
    {
        let mut v: Vec<u8> = Vec::new();
        match self {
            EngineChoice::Random => {
                v.push(82);
                v.push(97);
                v.push(110);
                v.push(100);
                v.push(111);
                v.push(109);
            },
            EngineChoice::Stockfish => {
                v.push(83);
                v.push(116);
                v.push(111);
                v.push(99);
                v.push(107);
                v.push(102);
                v.push(105);
                v.push(115);
                v.push(104);
            },
            EngineChoice::Worstfish => {
                v.push(87);
                v.push(111);
                v.push(114);
                v.push(115);
                v.push(116);
                v.push(102);
                v.push(105);
                v.push(115);
                v.push(104);
            },
        }
        proof {
            assert(v@ =~= tag_of(self));
        }
        v
    }
}

/// The display tag of a strategy: `Random`, `Stockfish` or `Worstfish`.
pub open spec fn tag_of(c: EngineChoice) -> Seq<u8> {
    match c {
        EngineChoice::Random => seq![82u8, 97, 110, 100, 111, 109],
        EngineChoice::Stockfish => seq![83u8, 116, 111, 99, 107, 102, 105, 115, 104],
        EngineChoice::Worstfish => seq![87u8, 111, 114, 115, 116, 102, 105, 115, 104],
    }
}

/// Relies on `rand::random_range`, which returns a value drawn uniformly
/// from the given nonempty range.
#[verifier::external_body]
fn random_below(n: usize) -> (r: usize)
    requires
        n > 0,
    ensures
        r < n,
{
    rand::random_range(0..n)
}

/// Picks one move uniformly at random; `None` exactly on an empty move set.
pub fn choose_random(moves: &Vec<Mv>) -> (r: Option<Mv>)
    ensures
        r is None <==> moves@.len() == 0,
        r is Some ==> moves@.contains(r->Some_0),
{
    if moves.len() == 0 {
        None
    } else {
        let i = random_below(moves.len());
        Some(moves[i])
    }
}

/// The comparison key of a reported evaluation. Centipawn scores count as
/// they stand (clamped within the finite band); a mate for the analysed side
/// is extreme low (best for the Worstfish policy, which is about to be
/// mated), a mate against it extreme high (worst: the relay would deliver
/// mate).
pub open spec fn score_key(s: Score) -> int {
    match s {
        Score::Cp(x) => if x < -1000000 {
            -1000000
        } else if x > 1000000 {
            1000000
        } else {
            x as int
        },
        Score::Mate(m) => if m > 0 {
            -2000000
        } else {
            2000000
        },
    }
}

/// Computes a reported evaluation's comparison key.
pub fn score_value(s: &Score) -> (r: i64)
    ensures
        r as int == score_key(*s),
{
    match s {
        Score::Cp(x) => {
            if *x < -1000000 {
                -1000000
            } else if *x > 1000000 {
                1000000
            } else {
                *x
            }
        },
        Score::Mate(m) => {
            if *m > 0 {
                -2000000
            } else {
                2000000
            }
        },
    }
}

/// Picks the candidate whose reported evaluation is minimal, ties broken by
/// enumeration order (the first minimum wins); `None` exactly on an empty
/// candidate set.
pub fn worst_pick(scores: &Vec<Score>) -> (r: Option<usize>)
    ensures
        r is None <==> scores@.len() == 0,
        r is Some ==> {
            let i = r->Some_0 as int;
            &&& 0 <= i < scores@.len()
            &&& forall|j: int|
                0 <= j < scores@.len() ==> score_key(#[trigger] scores@[j]) >= score_key(
                    scores@[i],
                )
            &&& forall|j: int| 0 <= j < i ==> score_key(#[trigger] scores@[j]) > score_key(
                scores@[i],
            )
        },
{
    if scores.len() == 0 {
        return None;
    }
    let mut best: usize = 0;
    let mut best_key: i64 = score_value(&scores[0]);
    let mut j: usize = 1;
    while j < scores.len()
        invariant
            1 <= j <= scores@.len(),
            best < j,
            best_key as int == score_key(scores@[best as int]),
            forall|k: int|
                0 <= k < j ==> score_key(#[trigger] scores@[k]) >= score_key(
                    scores@[best as int],
                ),
            forall|k: int|
                0 <= k < best ==> score_key(#[trigger] scores@[k]) > score_key(
                    scores@[best as int],
                ),
        decreases scores@.len() - j,
    {
        let key = score_value(&scores[j]);
        if key < best_key {
            best = j;
            best_key = key;
        }
        j += 1;
    }
    Some(best)
}

/// The Worstfish selection is deterministic: any two indices that are both
/// first minima of the same evaluation list are the same index.
pub proof fn lemma_worst_deterministic(scores: Seq<Score>, i1: int, i2: int)
    requires
        0 <= i1 < scores.len(),
        0 <= i2 < scores.len(),
        forall|j: int| 0 <= j < scores.len() ==> score_key(#[trigger] scores[j]) >= score_key(
            scores[i1],
        ),
        forall|j: int| 0 <= j < i1 ==> score_key(#[trigger] scores[j]) > score_key(scores[i1]),
        forall|j: int| 0 <= j < scores.len() ==> score_key(#[trigger] scores[j]) >= score_key(
            scores[i2],
        ),
        forall|j: int| 0 <= j < i2 ==> score_key(#[trigger] scores[j]) > score_key(scores[i2]),
    ensures
        i1 == i2,
{
    if i1 < i2 {
        assert(score_key(scores[i1]) > score_key(scores[i2]));
        assert(score_key(scores[i1]) >= score_key(scores[i2]));
        assert(score_key(scores[i2]) >= score_key(scores[i1]));
    } else if i2 < i1 {
        assert(score_key(scores[i2]) > score_key(scores[i1]));
        assert(score_key(scores[i1]) >= score_key(scores[i2]));
    }
}

} // verus!
