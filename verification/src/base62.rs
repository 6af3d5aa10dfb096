//! The service-id generator: a fixed-width odometer over the alphabet
//! `0-9`, `A-Z`, `a-z` (base 62, in that order).
//!
//! [`get_next_service_id`] steps an id to its successor: the rightmost
//! position that is not at the alphabet's last symbol advances by one and
//! everything to its right wraps to `0`. An id made only of the last symbol
//! has no successor — the id space is exhausted — and a character outside
//! the alphabet is an input error, never a panic.

use vstd::prelude::*;

use crate::errors::CircuitTemplateError;
use crate::text::{str_chars, string_from_chars};

verus! {

/// Position of `c` in the alphabet `0-9A-Za-z`, or `-1` when `c` is not in
/// it. The position order decides which id follows which.
pub open spec fn b62_index(c: char) -> int {
    let u = c as int;
    if 48 <= u && u <= 57 {
        u - 48
    } else if 65 <= u && u <= 90 {
        u - 55
    } else if 97 <= u && u <= 122 {
        u - 61
    } else {
        -1
    }
}

/// Whether `c` belongs to the id alphabet.
pub open spec fn is_b62(c: char) -> bool {
    b62_index(c) >= 0
}

/// The alphabet symbol at position `i`.
pub open spec fn b62_char(i: int) -> char
    recommends
        0 <= i < 62,
{
    if i < 10 {
        (i + 48) as char
    } else if i < 36 {
        (i + 55) as char
    } else {
        (i + 61) as char
    }
}

pub proof fn lemma_b62_char_index(i: int)
    requires
        0 <= i < 62,
    ensures
        b62_index(b62_char(i)) == i,
        is_b62(b62_char(i)),
{
}

/// Whether every character of `s` belongs to the alphabet.
pub open spec fn all_b62(s: Seq<char>) -> bool {
    forall|i: int| 0 <= i < s.len() ==> is_b62(#[trigger] s[i])
}

/// Whether every position of `s` holds the alphabet's last symbol, so that
/// no successor of `s` exists.
pub open spec fn all_max(s: Seq<char>) -> bool {
    forall|i: int| 0 <= i < s.len() ==> #[trigger] s[i] == 'z'
}

/// What stepping an id by one yields: its successor, exhaustion (the carry
/// ran past the leftmost position), or a character outside the alphabet.
pub enum IdStep {
    Next(Seq<char>),
    Exhausted,
    Invalid,
}

/// The successor of `s` in the odometer order. A character outside the
/// alphabet at any position makes the whole id invalid; a valid id steps
/// by [`spec_step_id`].
pub open spec fn spec_next_id(s: Seq<char>) -> IdStep {
    if !all_b62(s) {
        IdStep::Invalid
    } else {
        spec_step_id(s)
    }
}

/// The odometer step of a valid id, examined from the rightmost position
/// leftward: the rightmost position below the last symbol advances, every
/// position right of it wraps to `0`, and an id at the last symbol
/// everywhere is exhausted.
pub open spec fn spec_step_id(s: Seq<char>) -> IdStep
    recommends
        all_b62(s),
    decreases s.len(),
{
    if s.len() == 0 {
        IdStep::Exhausted
    } else if b62_index(s.last()) < 61 {
        IdStep::Next(s.drop_last().push(b62_char(b62_index(s.last()) + 1)))
    } else {
        match spec_step_id(s.drop_last()) {
            IdStep::Next(p) => IdStep::Next(p.push('0')),
            r => r,
        }
    }
}

/// The number that `s` denotes in base 62 (most significant character
/// first).
pub open spec fn id_value(s: Seq<char>) -> int
    decreases s.len(),
{
    if s.len() == 0 {
        0
    } else {
        id_value(s.drop_last()) * 62 + b62_index(s.last())
    }
}

/// A successor id has the same width as its predecessor, denotes exactly
/// the next number, and stays inside the alphabet.
pub proof fn lemma_next_id_step(s: Seq<char>)
    requires
        spec_next_id(s) matches IdStep::Next(t),
    ensures
        spec_next_id(s) matches IdStep::Next(t) ==> {
            &&& t.len() == s.len()
            &&& id_value(t) == id_value(s) + 1
            &&& all_b62(t)
        },
    decreases s.len(),
{
    let t = spec_next_id(s)->Next_0;
    assert(all_b62(s));
    assert(all_b62(s.drop_last())) by {
        assert forall|i: int| 0 <= i < s.len() - 1 implies is_b62(
            #[trigger] s.drop_last()[i],
        ) by {
            assert(s.drop_last()[i] == s[i]);
        }
    }
    if b62_index(s.last()) < 61 {
        let c = b62_char(b62_index(s.last()) + 1);
        lemma_b62_char_index(b62_index(s.last()) + 1);
        assert(t =~= s.drop_last().push(c));
        assert(t.drop_last() =~= s.drop_last());
        assert(t.last() == c);
        assert forall|i: int| 0 <= i < t.len() implies is_b62(#[trigger] t[i]) by {
            if i < t.len() - 1 {
                assert(t[i] == s[i]);
            }
        }
    } else {
        assert(spec_next_id(s.drop_last()) == spec_step_id(s.drop_last()));
        lemma_next_id_step(s.drop_last());
        let p = spec_step_id(s.drop_last())->Next_0;
        assert(t =~= p.push('0'));
        assert(t.drop_last() =~= p);
        assert(t.last() == '0');
        assert(b62_index('0') == 0);
        assert(id_value(t) == id_value(p) * 62);
        assert(id_value(p) * 62 == (id_value(s.drop_last()) + 1) * 62);
        assert forall|i: int| 0 <= i < t.len() implies is_b62(#[trigger] t[i]) by {
            if i < t.len() - 1 {
                assert(t[i] == p[i]);
            }
        }
    }
}

/// Exhaustion happens exactly on the ids made only of the alphabet's last
/// symbol.
pub proof fn lemma_next_id_exhausted(s: Seq<char>)
    requires
        all_b62(s),
    ensures
        spec_next_id(s) is Exhausted <==> all_max(s),
        !(spec_next_id(s) is Invalid),
    decreases s.len(),
{
    if s.len() > 0 {
        assert(is_b62(s.last()));
        assert(all_b62(s.drop_last())) by {
            assert forall|i: int| 0 <= i < s.len() - 1 implies is_b62(
                #[trigger] s.drop_last()[i],
            ) by {
                assert(s.drop_last()[i] == s[i]);
            }
        }
        lemma_next_id_exhausted(s.drop_last());
        assert(spec_next_id(s.drop_last()) == spec_step_id(s.drop_last()));
        if b62_index(s.last()) == 61 {
            assert(s.last() == 'z');
            if all_max(s.drop_last()) {
                assert forall|i: int| 0 <= i < s.len() implies #[trigger] s[i] == 'z' by {
                    if i < s.len() - 1 {
                        assert(s.drop_last()[i] == s[i]);
                    }
                }
            }
            if all_max(s) {
                assert forall|i: int| 0 <= i < s.len() - 1 implies #[trigger] s.drop_last()[i]
                    == 'z' by {
                    assert(s.drop_last()[i] == s[i]);
                }
            }
        } else {
            assert(s[s.len() - 1] != 'z');
        }
    }
}

/// Two alphabet characters with the same position are the same character.
pub proof fn lemma_b62_index_injective(c: char, d: char)
    requires
        is_b62(c),
        is_b62(d),
        b62_index(c) == b62_index(d),
    ensures
        c == d,
{
    assert(c as int == d as int);
}

/// Strict order of equal-width ids: the order of the leftmost position
/// where they differ, positions compared by their place in the alphabet.
pub open spec fn id_lt(a: Seq<char>, b: Seq<char>) -> bool
    recommends
        a.len() == b.len(),
    decreases a.len(),
{
    a.len() > 0 && {
        if b62_index(a[0]) < b62_index(b[0]) {
            true
        } else if a[0] == b[0] {
            id_lt(a.drop_first(), b.drop_first())
        } else {
            false
        }
    }
}

/// `62^n`, the number of ids of width `n`.
pub open spec fn pow62(n: nat) -> int
    decreases n,
{
    if n == 0 {
        1
    } else {
        62 * pow62((n - 1) as nat)
    }
}

/// Every valid id of width `n` denotes a number in `[0, 62^n)`.
pub proof fn lemma_id_value_bounds(s: Seq<char>)
    requires
        all_b62(s),
    ensures
        0 <= id_value(s) < pow62(s.len()),
    decreases s.len(),
{
    if s.len() > 0 {
        assert(all_b62(s.drop_last())) by {
            assert forall|i: int| 0 <= i < s.len() - 1 implies is_b62(
                #[trigger] s.drop_last()[i],
            ) by {
                assert(s.drop_last()[i] == s[i]);
            }
        }
        lemma_id_value_bounds(s.drop_last());
        assert(is_b62(s.last()));
        let v = id_value(s.drop_last());
        assert(v * 62 <= (pow62((s.len() - 1) as nat) - 1) * 62);
    }
}

/// A valid id's number is its first symbol's position scaled by the width
/// of the rest, plus the rest's number.
pub proof fn lemma_id_value_front(s: Seq<char>)
    requires
        s.len() > 0,
    ensures
        id_value(s) == b62_index(s[0]) * pow62((s.len() - 1) as nat) + id_value(s.drop_first()),
    decreases s.len(),
{
    if s.len() == 1 {
        assert(s.drop_last() =~= Seq::<char>::empty());
        assert(s.drop_first() =~= Seq::<char>::empty());
    } else {
        let t = s.drop_last();
        lemma_id_value_front(t);
        assert(t[0] == s[0]);
        assert(s.drop_first().drop_last() =~= t.drop_first());
        assert(s.drop_first().last() == s.last());
        let a = b62_index(s[0]);
        let p = pow62((s.len() - 2) as nat);
        assert(id_value(s) == (a * p + id_value(t.drop_first())) * 62 + b62_index(s.last()));
        assert((a * p + id_value(t.drop_first())) * 62 == a * (62 * p) + id_value(t.drop_first())
            * 62) by (nonlinear_arith);
        assert(id_value(s.drop_first()) == id_value(t.drop_first()) * 62 + b62_index(s.last()));
    }
}

/// For equal-width valid ids, the numeric order is the alphabet's
/// lexicographic order.
pub proof fn lemma_id_value_lt_lex(a: Seq<char>, b: Seq<char>)
    requires
        all_b62(a),
        all_b62(b),
        a.len() == b.len(),
        id_value(a) < id_value(b),
    ensures
        id_lt(a, b),
    decreases a.len(),
{
    assert(a.len() > 0) by {
        if a.len() == 0 {
            assert(id_value(a) == 0 && id_value(b) == 0);
        }
    }
    let p = pow62((a.len() - 1) as nat);
    let ia = b62_index(a[0]);
    let ib = b62_index(b[0]);
    lemma_id_value_front(a);
    lemma_id_value_front(b);
    assert(all_b62(a.drop_first()) && all_b62(b.drop_first())) by {
        assert forall|i: int| 0 <= i < a.len() - 1 implies is_b62(#[trigger] a.drop_first()[i])
            && is_b62(#[trigger] b.drop_first()[i]) by {
            assert(a.drop_first()[i] == a[i + 1]);
            assert(b.drop_first()[i] == b[i + 1]);
        }
    }
    lemma_id_value_bounds(a.drop_first());
    lemma_id_value_bounds(b.drop_first());
    if ia < ib {
    } else if ia == ib {
        lemma_b62_index_injective(a[0], b[0]);
        lemma_id_value_lt_lex(a.drop_first(), b.drop_first());
    } else {
        assert((ia - ib) * p >= p) by (nonlinear_arith)
            requires
                ia - ib >= 1,
                p >= 1,
        ;
        assert(ia * p - ib * p == (ia - ib) * p) by (nonlinear_arith);
        assert(false);
    }
}

/// The ids minted for a batch of `n` services whose first id is `start`:
/// `start` itself, then each successor in turn. `None` when any of the `n`
/// steps of the generator fails — the generator advances once per service,
/// the last service included.
pub open spec fn spec_id_chain(start: Seq<char>, n: nat) -> Option<Seq<Seq<char>>>
    decreases n,
{
    if n == 0 {
        Some(Seq::<Seq<char>>::empty())
    } else {
        match spec_next_id(start) {
            IdStep::Next(t) => match spec_id_chain(t, (n - 1) as nat) {
                Some(r) => Some(seq![start] + r),
                None => None,
            },
            _ => None,
        }
    }
}

/// Every id of a chain is valid, as wide as the start, and denotes the
/// start's number plus its position in the chain.
pub proof fn lemma_id_chain_values(start: Seq<char>, n: nat)
    requires
        all_b62(start),
        spec_id_chain(start, n) is Some,
    ensures
        spec_id_chain(start, n) matches Some(ids) ==> {
            &&& ids.len() == n
            &&& forall|i: int|
                0 <= i < n ==> (#[trigger] ids[i]).len() == start.len() && all_b62(ids[i])
                    && id_value(ids[i]) == id_value(start) + i
        },
    decreases n,
{
    if n > 0 {
        let t = spec_next_id(start)->Next_0;
        lemma_next_id_step(start);
        lemma_id_chain_values(t, (n - 1) as nat);
        let rest = spec_id_chain(t, (n - 1) as nat)->Some_0;
        let ids = spec_id_chain(start, n)->Some_0;
        assert forall|i: int| 0 <= i < n implies (#[trigger] ids[i]).len() == start.len()
            && all_b62(ids[i]) && id_value(ids[i]) == id_value(start) + i by {
            if i > 0 {
                assert(ids[i] == rest[i - 1]);
            }
        }
    }
}

/// Law: the `n` ids minted for a batch of `n` services are strictly
/// increasing in the alphabet's lexicographic order, and pairwise distinct.
pub proof fn lemma_id_batch_monotonic(start: Seq<char>, n: nat)
    requires
        all_b62(start),
        spec_id_chain(start, n) is Some,
    ensures
        spec_id_chain(start, n) matches Some(ids) ==> {
            &&& ids.len() == n
            &&& forall|i: int, j: int| 0 <= i < j < n ==> id_lt(#[trigger] ids[i], #[trigger] ids[j])
            &&& forall|i: int, j: int| 0 <= i < j < n ==> #[trigger] ids[i] != #[trigger] ids[j]
        },
{
    let ids = spec_id_chain(start, n)->Some_0;
    lemma_id_chain_values(start, n);
    assert forall|i: int, j: int| 0 <= i < j < n implies id_lt(#[trigger] ids[i], #[trigger] ids[j])
        && ids[i] != ids[j] by {
        lemma_id_value_lt_lex(ids[i], ids[j]);
    }
}

/// Position of `c` in the alphabet, or `None` when `c` is not in it.
pub fn b62_index_of(c: char) -> (r: Option<usize>)
    ensures
        r is Some <==> is_b62(c),
        r matches Some(i) ==> i == b62_index(c),
{
    let u = c as u32;
    if 48 <= u && u <= 57 {
        Some((u - 48) as usize)
    } else if 65 <= u && u <= 90 {
        Some((u - 55) as usize)
    } else if 97 <= u && u <= 122 {
        Some((u - 61) as usize)
    } else {
        None
    }
}

/// The alphabet symbol at position `i`.
pub fn b62_char_at(i: usize) -> (c: char)
    requires
        i < 62,
    ensures
        c == b62_char(i as int),
{
    if i < 10 {
        ((i + 48) as u8) as char
    } else if i < 36 {
        ((i + 55) as u8) as char
    } else {
        ((i + 61) as u8) as char
    }
}

/// `Seq` of `k` zeros, the wrapped tail of an id whose carry ran `k`
/// positions.
spec fn zeros(k: nat) -> Seq<char> {
    Seq::new(k, |i: int| '0')
}

/// `r` with `k` zeros appended when it holds a successor, `r` itself
/// otherwise.
spec fn with_zeros(r: IdStep, k: nat) -> IdStep {
    match r {
        IdStep::Next(p) => IdStep::Next(p + zeros(k)),
        other => other,
    }
}

/// The lexicographically next service id in the alphabet `0-9A-Za-z`,
/// stepping the rightmost position and carrying leftward. Every position of
/// the id is checked against the alphabet first.
///
/// Succeeds exactly when the odometer can step: the error distinguishes a
/// character outside the alphabet — at any position — from an exhausted id
/// space.
pub fn get_next_service_id(current_id: &str) -> (r: Result<String, CircuitTemplateError>)
    ensures
        r matches Ok(next) ==> spec_next_id(current_id@) == IdStep::Next(next@),
        r is Ok <==> spec_next_id(current_id@) is Next,
        r is Err && spec_next_id(current_id@) is Exhausted ==> r matches Err(
            CircuitTemplateError::IdSpaceExhausted,
        ),
        r is Err ==> (spec_next_id(current_id@) is Invalid <==> (r->Err_0 matches
            CircuitTemplateError::InvalidIdCharacter(_))),
{
    let ghost s = current_id@;
    let mut chars = str_chars(current_id);
    let n = chars.len();

    // Every position must hold an alphabet character before any step.
    let mut v: usize = 0;
    while v < n
        invariant
            s == current_id@,
            chars@ == s,
            n == s.len(),
            v <= n,
            forall|j: int| 0 <= j < v ==> is_b62(#[trigger] s[j]),
        decreases n - v,
    {
        let c = chars[v];
        if b62_index_of(c).is_none() {
            proof {
                assert(!all_b62(s));
                assert(spec_next_id(s) is Invalid);
            }
            return Err(
                CircuitTemplateError::InvalidIdCharacter(string_from_chars(&vec![c])),
            );
        }
        v += 1;
    }
    proof {
        assert(all_b62(s));
        assert(spec_next_id(s) == spec_step_id(s));
    }

    let mut i: usize = n;
    proof {
        assert(chars@ =~= s.take(n as int) + zeros(0));
        assert(with_zeros(spec_step_id(s.take(n as int)), 0) == spec_step_id(s)) by {
            match spec_step_id(s) {
                IdStep::Next(p) => {
                    assert(s.take(n as int) =~= s);
                    assert(p + zeros(0) =~= p);
                },
                _ => {
                    assert(s.take(n as int) =~= s);
                },
            }
        }
    }
    while i > 0
        invariant
            s == current_id@,
            all_b62(s),
            spec_next_id(s) == spec_step_id(s),
            n == s.len(),
            i <= n,
            chars@.len() == n,
            chars@ == s.take(i as int) + zeros((n - i) as nat),
            spec_step_id(s) == with_zeros(spec_step_id(s.take(i as int)), (n - i) as nat),
        decreases i,
    {
        let ghost prefix = s.take(i as int);
        proof {
            assert(prefix.len() == i);
            assert(prefix.drop_last() =~= s.take(i as int - 1));
            assert(prefix.last() == s[i as int - 1]);
            assert(chars@[i as int - 1] == s[i as int - 1]);
        }
        let c = chars[i - 1];
        let idx = match b62_index_of(c) {
            Some(idx) => idx,
            None => {
                proof {
                    assert(is_b62(s[i as int - 1]));
                    assert(false);
                }
                return Err(
                    CircuitTemplateError::InvalidIdCharacter(string_from_chars(&vec![c])),
                );
            },
        };
        if idx < 61 {
            let next_c = b62_char_at(idx + 1);
            chars.set(i - 1, next_c);
            proof {
                assert(spec_step_id(prefix) == IdStep::Next(
                    s.take(i as int - 1).push(b62_char(idx + 1)),
                ));
                assert(chars@ =~= s.take(i as int - 1).push(b62_char(idx + 1)) + zeros(
                    (n - i) as nat,
                ));
                match spec_step_id(s) {
                    IdStep::Next(t) => {
                        assert(t =~= chars@);
                    },
                    _ => {
                        assert(false);
                    },
                }
            }
            let out = string_from_chars(&chars);
            return Ok(out);
        } else {
            chars.set(i - 1, '0');
            proof {
                assert(b62_index(prefix.last()) == 61);
                assert(spec_step_id(prefix) == with_zeros(
                    spec_step_id(s.take(i as int - 1)),
                    1,
                )) by {
                    match spec_step_id(s.take(i as int - 1)) {
                        IdStep::Next(p) => {
                            assert(p.push('0') =~= p + zeros(1));
                        },
                        _ => {},
                    }
                }
                assert(with_zeros(
                    with_zeros(spec_step_id(s.take(i as int - 1)), 1),
                    (n - i) as nat,
                ) == with_zeros(
                    spec_step_id(s.take(i as int - 1)),
                    (n - i + 1) as nat,
                )) by {
                    match spec_step_id(s.take(i as int - 1)) {
                        IdStep::Next(p) => {
                            assert((p + zeros(1)) + zeros((n - i) as nat) =~= p + zeros(
                                (n - i + 1) as nat,
                            ));
                        },
                        _ => {},
                    }
                }
                assert(chars@ =~= s.take(i as int - 1) + zeros((n - i + 1) as nat));
            }
            i -= 1;
        }
    }
    proof {
        assert(s.take(0) =~= Seq::<char>::empty());
        assert(spec_step_id(s) is Exhausted);
    }
    Err(CircuitTemplateError::IdSpaceExhausted)
}

} // verus!
