//! Version strings: parsing into numeric components and ordering them.
use vstd::prelude::*;
use crate::text::{
    chars_of, parse_u32, parse_u32_exec, split_exec, split_on, strip_start, strip_start_exec, views,
    CharClass,
};

verus! {

/// The numeric components that parse, in order; pieces that are not a `u32`
/// are dropped.
pub open spec fn parsed_parts(pieces: Seq<Seq<char>>) -> Seq<u32>
    decreases pieces.len(),
{
    if pieces.len() == 0 {
        Seq::empty()
    } else {
        let prev = parsed_parts(pieces.drop_last());
        match parse_u32(pieces.last()) {
            Some(n) => prev.push(n),
            None => prev,
        }
    }
}

/// Every piece as a number, 0 for a piece that is not a `u32`.
pub open spec fn zeroed_parts(pieces: Seq<Seq<char>>) -> Seq<u32> {
    pieces.map_values(
        |p: Seq<char>|
            match parse_u32(p) {
                Some(n) => n,
                None => 0u32,
            },
    )
}

/// The separators of a dsh version string.
pub open spec fn dsh_version_separators() -> Seq<char> {
    seq!['.', '-', '+']
}

/// The components of a dsh version: leading `v`s dropped, split at `.`,
/// `-` and `+`, and every piece that is a `u32` kept.
pub open spec fn spec_parse_version(v: Seq<char>) -> Seq<u32> {
    parsed_parts(split_on(strip_start(v, CharClass::Exactly('v')), dsh_version_separators()))
}

/// The components of a release version: split at `.`, every piece as a
/// number and 0 where it is none.
pub open spec fn release_parts(v: Seq<char>) -> Seq<u32> {
    zeroed_parts(split_on(v, seq!['.']))
}

/// Lexicographic order on component lists, a proper prefix coming first.
pub open spec fn lex_less(a: Seq<u32>, b: Seq<u32>) -> bool
    decreases a.len(),
{
    if a.len() == 0 || b.len() == 0 {
        a.len() < b.len()
    } else if a[0] < b[0] {
        true
    } else if a[0] > b[0] {
        false
    } else {
        lex_less(a.drop_first(), b.drop_first())
    }
}

/// `a` is an older dsh version than `b`.
pub open spec fn spec_version_less(a: Seq<char>, b: Seq<char>) -> bool {
    lex_less(spec_parse_version(a), spec_parse_version(b))
}

/// Release `a` is newer than release `b`.
pub open spec fn spec_version_greater(a: Seq<char>, b: Seq<char>) -> bool {
    lex_less(release_parts(b), release_parts(a))
}

/// Parses a dsh version such as `v0.4.1-beta.2` into its numeric components.
pub fn parse_version(v: &str) -> (r: Vec<u32>)
    ensures
        r@ == spec_parse_version(v@),
{
    let chars = chars_of(v);
    let stripped = strip_start_exec(&chars, &CharClass::Exactly('v'));
    let mut seps: Vec<char> = Vec::new();
    seps.push('.');
    seps.push('-');
    seps.push('+');
    assert(seps@ =~= dsh_version_separators());
    let pieces = split_exec(&stripped, &seps);
    let ghost pv = views(pieces@);
    let mut r: Vec<u32> = Vec::new();
    let mut k: usize = 0;
    while k < pieces.len()
        invariant
            k <= pieces.len(),
            pv == views(pieces@),
            r@ == parsed_parts(pv.take(k as int)),
        decreases pieces.len() - k,
    {
        assert(pv.take(k + 1).drop_last() =~= pv.take(k as int));
        assert(pv[k as int] == pieces@[k as int]@);
        match parse_u32_exec(&pieces[k]) {
            Some(n) => r.push(n),
            None => {},
        }
        k += 1;
    }
    assert(pv.take(pv.len() as int) =~= pv);
    r
}

/// Component lists compared as [`lex_less`] does.
pub fn lex_less_exec(a: &Vec<u32>, b: &Vec<u32>) -> (r: bool)
    ensures
        r == lex_less(a@, b@),
{
    let mut i: usize = 0;
    assert(a@.skip(0) =~= a@);
    assert(b@.skip(0) =~= b@);
    while i < a.len() && i < b.len()
        invariant
            i <= a.len(),
            i <= b.len(),
            lex_less(a@, b@) == lex_less(a@.skip(i as int), b@.skip(i as int)),
        decreases a.len() - i,
    {
        let ghost sa = a@.skip(i as int);
        let ghost sb = b@.skip(i as int);
        assert(sa[0] == a@[i as int]);
        assert(sb[0] == b@[i as int]);
        if a[i] < b[i] {
            return true;
        }
        if a[i] > b[i] {
            return false;
        }
        assert(sa.drop_first() =~= a@.skip(i + 1));
        assert(sb.drop_first() =~= b@.skip(i + 1));
        i += 1;
    }
    a.len() < b.len()
}

/// Whether dsh version `a` is strictly older than `b` (current < latest
/// means an update is due).
pub fn version_less(a: &str, b: &str) -> (r: bool)
    ensures
        r == spec_version_less(a@, b@),
{
    let va = parse_version(a);
    let vb = parse_version(b);
    proof {
        assert(va@.skip(0) =~= va@);
        assert(vb@.skip(0) =~= vb@);
    }
    lex_less_exec(&va, &vb)
}

/// The components of a release version (see [`release_parts`]).
pub fn release_parts_exec(v: &str) -> (r: Vec<u32>)
    ensures
        r@ == release_parts(v@),
{
    let chars = chars_of(v);
    let mut seps: Vec<char> = Vec::new();
    seps.push('.');
    assert(seps@ =~= seq!['.']);
    let pieces = split_exec(&chars, &seps);
    let ghost pv = views(pieces@);
    let mut r: Vec<u32> = Vec::new();
    let mut k: usize = 0;
    while k < pieces.len()
        invariant
            k <= pieces.len(),
            pv == views(pieces@),
            r@ =~= zeroed_parts(pv.take(k as int)),
        decreases pieces.len() - k,
    {
        assert(pv[k as int] == pieces@[k as int]@);
        let n: u32 = match parse_u32_exec(&pieces[k]) {
            Some(n) => n,
            None => 0,
        };
        r.push(n);
        k += 1;
        assert(zeroed_parts(pv.take(k as int)) =~= zeroed_parts(pv.take(k - 1)).push(n));
    }
    assert(pv.take(pv.len() as int) =~= pv);
    r
}

/// Whether release `a` is strictly newer than release `b`.
pub fn version_greater(a: &str, b: &str) -> (r: bool)
    ensures
        r == spec_version_greater(a@, b@),
{
    let va = release_parts_exec(a);
    let vb = release_parts_exec(b);
    proof {
        assert(va@.skip(0) =~= va@);
        assert(vb@.skip(0) =~= vb@);
    }
    lex_less_exec(&vb, &va)
}

/* ---------------------------------------------------------------------
   Laws of the version order
   --------------------------------------------------------------------- */

/// No component list comes before itself.
pub proof fn lemma_lex_less_irreflexive(a: Seq<u32>)
    ensures
        !lex_less(a, a),
    decreases a.len(),
{
    if a.len() > 0 {
        lemma_lex_less_irreflexive(a.drop_first());
    }
}

/// Of two component lists at most one comes before the other.
pub proof fn lemma_lex_less_asymmetric(a: Seq<u32>, b: Seq<u32>)
    ensures
        !(lex_less(a, b) && lex_less(b, a)),
    decreases a.len(),
{
    if a.len() > 0 && b.len() > 0 && a[0] == b[0] {
        lemma_lex_less_asymmetric(a.drop_first(), b.drop_first());
    }
}

/// The order on component lists is transitive.
pub proof fn lemma_lex_less_transitive(a: Seq<u32>, b: Seq<u32>, c: Seq<u32>)
    requires
        lex_less(a, b),
        lex_less(b, c),
    ensures
        lex_less(a, c),
    decreases a.len(),
{
    if a.len() > 0 && b.len() > 0 && c.len() > 0 && a[0] == b[0] && b[0] == c[0] {
        lemma_lex_less_transitive(a.drop_first(), b.drop_first(), c.drop_first());
    }
}

/// Two different component lists are ordered one way or the other.
#[verifier::spinoff_prover]
pub proof fn lemma_lex_less_total(a: Seq<u32>, b: Seq<u32>)
    requires
        a != b,
    ensures
        lex_less(a, b) || lex_less(b, a),
    decreases a.len(),
{
    if a.len() > 0 && b.len() > 0 && a[0] == b[0] {
        if a.drop_first() =~= b.drop_first() {
            assert forall|i: int| 0 <= i < a.len() implies a[i] == b[i] by {
                if i > 0 {
                    assert(a[i] == a.drop_first()[i - 1]);
                    assert(b[i] == b.drop_first()[i - 1]);
                }
            }
            assert(a =~= b);
        } else {
            lemma_lex_less_total(a.drop_first(), b.drop_first());
        }
    } else if a.len() == 0 && b.len() == 0 {
        assert(a =~= b);
    }
}

/// "Older than" on dsh versions is a strict order: no version is older than
/// itself, never both ways, and transitive. So the update check never asks
/// to update a version to itself.
pub proof fn law_version_less_strict_order(a: Seq<char>, b: Seq<char>, c: Seq<char>)
    ensures
        !spec_version_less(a, a),
        !(spec_version_less(a, b) && spec_version_less(b, a)),
        spec_version_less(a, b) && spec_version_less(b, c) ==> spec_version_less(a, c),
{
    lemma_lex_less_irreflexive(spec_parse_version(a));
    lemma_lex_less_asymmetric(spec_parse_version(a), spec_parse_version(b));
    if spec_version_less(a, b) && spec_version_less(b, c) {
        lemma_lex_less_transitive(
            spec_parse_version(a),
            spec_parse_version(b),
            spec_parse_version(c),
        );
    }
}

/// "Newer than" on releases is a strict order, and two releases whose
/// components differ are always ordered one way or the other.
pub proof fn law_version_greater_strict_order(a: Seq<char>, b: Seq<char>, c: Seq<char>)
    ensures
        !spec_version_greater(a, a),
        !(spec_version_greater(a, b) && spec_version_greater(b, a)),
        spec_version_greater(a, b) && spec_version_greater(b, c) ==> spec_version_greater(a, c),
        release_parts(a) != release_parts(b) ==> spec_version_greater(a, b)
            || spec_version_greater(b, a),
{
    lemma_lex_less_irreflexive(release_parts(a));
    lemma_lex_less_asymmetric(release_parts(a), release_parts(b));
    if spec_version_greater(a, b) && spec_version_greater(b, c) {
        lemma_lex_less_transitive(release_parts(c), release_parts(b), release_parts(a));
    }
    if release_parts(a) != release_parts(b) {
        lemma_lex_less_total(release_parts(a), release_parts(b));
    }
}

/// `a` comes before `b` at their first difference: the components agree up
/// to some index where `a`'s is smaller, or `a` is a proper prefix of `b`.
pub open spec fn before_at_first_difference(a: Seq<u32>, b: Seq<u32>) -> bool {
    ||| exists|k: int|
        0 <= k < a.len() && k < b.len() && #[trigger] a.take(k) == b.take(k) && a[k] < b[k]
    ||| a.len() < b.len() && a == b.take(a.len() as int)
}

/// The lexicographic order is the order at the first difference.
pub proof fn lemma_lex_less_first_difference(a: Seq<u32>, b: Seq<u32>)
    ensures
        lex_less(a, b) == before_at_first_difference(a, b),
    decreases a.len(),
{
    if a.len() == 0 || b.len() == 0 {
        if a.len() == 0 {
            assert(a =~= b.take(0));
        }
        if before_at_first_difference(a, b) {
            if exists|k: int| 0 <= k < a.len() && k < b.len() && #[trigger] a.take(k) == b.take(k) && a[k] < b[k] {
                let k = choose|k: int| 0 <= k < a.len() && k < b.len() && #[trigger] a.take(k) == b.take(k) && a[k] < b[k];
            }
        }
    } else if a[0] < b[0] {
        assert(a.take(0) =~= b.take(0));
    } else if a[0] > b[0] {
        if exists|k: int| 0 <= k < a.len() && k < b.len() && #[trigger] a.take(k) == b.take(k) && a[k] < b[k] {
            let k = choose|k: int| 0 <= k < a.len() && k < b.len() && #[trigger] a.take(k) == b.take(k) && a[k] < b[k];
            if k > 0 {
                assert(a.take(k)[0] == b.take(k)[0]);
            }
        }
        if a.len() < b.len() && a == b.take(a.len() as int) {
            assert(b.take(a.len() as int)[0] == b[0]);
        }
    } else {
        let a1 = a.drop_first();
        let b1 = b.drop_first();
        lemma_lex_less_first_difference(a1, b1);
        if before_at_first_difference(a1, b1) {
            if exists|k: int| 0 <= k < a1.len() && k < b1.len() && #[trigger] a1.take(k) == b1.take(k) && a1[k] < b1[k] {
                let k = choose|k: int| 0 <= k < a1.len() && k < b1.len() && #[trigger] a1.take(k) == b1.take(k) && a1[k] < b1[k];
                assert(a.take(k + 1) =~= seq![a[0]] + a1.take(k));
                assert(b.take(k + 1) =~= seq![b[0]] + b1.take(k));
                assert(a.take(k + 1) == b.take(k + 1));
            } else {
                assert(a =~= seq![a[0]] + a1);
                assert(b.take(a.len() as int) =~= seq![b[0]] + b1.take(a1.len() as int));
            }
        }
        if before_at_first_difference(a, b) {
            if exists|k: int| 0 <= k < a.len() && k < b.len() && #[trigger] a.take(k) == b.take(k) && a[k] < b[k] {
                let k = choose|k: int| 0 <= k < a.len() && k < b.len() && #[trigger] a.take(k) == b.take(k) && a[k] < b[k];
                assert(k > 0);
                assert(a1.take(k - 1) =~= a.take(k).drop_first());
                assert(b1.take(k - 1) =~= b.take(k).drop_first());
                assert(a1[k - 1] == a[k]);
                assert(a1.take(k - 1) == b1.take(k - 1));
            } else {
                assert(a1 =~= b.take(a.len() as int).drop_first());
                assert(b1.take(a1.len() as int) =~= b.take(a.len() as int).drop_first());
            }
        }
    }
}

/// A dsh version is older than another exactly when, at their first
/// differing component, its component is smaller, or its components are a
/// proper prefix of the other's (`0.4` is older than `0.4.0`).
pub proof fn law_version_less_first_difference(a: Seq<char>, b: Seq<char>)
    ensures
        spec_version_less(a, b) == before_at_first_difference(
            spec_parse_version(a),
            spec_parse_version(b),
        ),
{
    lemma_lex_less_first_difference(spec_parse_version(a), spec_parse_version(b));
}

/// A release is newer than another exactly when, at their first differing
/// component (a part that is no number counting as 0), its component is
/// larger, or the other's components are a proper prefix of its own
/// (`1.2.0` is newer than `1.2`).
pub proof fn law_version_greater_first_difference(a: Seq<char>, b: Seq<char>)
    ensures
        spec_version_greater(a, b) == before_at_first_difference(release_parts(b), release_parts(a)),
{
    lemma_lex_less_first_difference(release_parts(b), release_parts(a));
}

} // verus!
