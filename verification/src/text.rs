//! Character-level helpers shared by the rest of the library.
//!
//! Text is handled as sequences of `char`s: `String`s are turned into
//! `Vec<char>` with [`chars_of`] and built back with [`string_from`].
use vstd::prelude::*;
use vstd::std_specs::iter::IteratorSpec;

verus! {

/* ---------------------------------------------------------------------
   Specifications
   --------------------------------------------------------------------- */

/// `p` occurs in `s` starting at character index `i`.
pub open spec fn occurs_at(s: Seq<char>, p: Seq<char>, i: int) -> bool {
    0 <= i && i + p.len() <= s.len() && s.subrange(i, i + p.len()) == p
}

pub open spec fn starts_with(s: Seq<char>, p: Seq<char>) -> bool {
    occurs_at(s, p, 0)
}

pub open spec fn ends_with(s: Seq<char>, p: Seq<char>) -> bool {
    p.len() <= s.len() && occurs_at(s, p, s.len() - p.len())
}

pub open spec fn contains(s: Seq<char>, p: Seq<char>) -> bool {
    exists|i: int| occurs_at(s, p, i)
}

/// `i` is the index of the first occurrence of `p` in `s`.
pub open spec fn first_occurrence(s: Seq<char>, p: Seq<char>, i: int) -> bool {
    occurs_at(s, p, i) && forall|j: int| 0 <= j < i ==> !occurs_at(s, p, j)
}

/// The characters with the Unicode `White_Space` property (what
/// `char::is_whitespace` tests).
pub open spec fn is_white_space(c: char) -> bool {
    ||| ('\u{9}' <= c && c <= '\u{d}')
    ||| c == ' '
    ||| c == '\u{85}'
    ||| c == '\u{a0}'
    ||| c == '\u{1680}'
    ||| ('\u{2000}' <= c && c <= '\u{200a}')
    ||| c == '\u{2028}'
    ||| c == '\u{2029}'
    ||| c == '\u{202f}'
    ||| c == '\u{205f}'
    ||| c == '\u{3000}'
}

pub open spec fn is_ascii_digit(c: char) -> bool {
    '0' <= c && c <= '9'
}

pub open spec fn is_ascii_alphabetic(c: char) -> bool {
    ('a' <= c && c <= 'z') || ('A' <= c && c <= 'Z')
}

pub open spec fn is_ascii_alphanumeric(c: char) -> bool {
    is_ascii_digit(c) || is_ascii_alphabetic(c)
}

pub open spec fn ascii_lower(c: char) -> char {
    if 'A' <= c && c <= 'Z' {
        ((c as u32) + 32) as char
    } else {
        c
    }
}

pub open spec fn lower_seq(s: Seq<char>) -> Seq<char> {
    s.map_values(|c: char| ascii_lower(c))
}

/// Equality up to ASCII case, as `str::eq_ignore_ascii_case` defines it.
pub open spec fn eq_ignore_ascii_case(a: Seq<char>, b: Seq<char>) -> bool {
    lower_seq(a) == lower_seq(b)
}

/// A class of characters that can be stripped from the ends of a text.
pub enum CharClass {
    /// Characters with the `White_Space` property.
    WhiteSpace,
    /// One given character.
    Exactly(char),
}

pub open spec fn in_class(c: char, k: CharClass) -> bool {
    match k {
        CharClass::WhiteSpace => is_white_space(c),
        CharClass::Exactly(x) => c == x,
    }
}

/// `s` without the characters of class `k` at its start.
pub open spec fn strip_start(s: Seq<char>, k: CharClass) -> Seq<char>
    decreases s.len(),
{
    if s.len() > 0 && in_class(s[0], k) {
        strip_start(s.drop_first(), k)
    } else {
        s
    }
}

/// `s` without the characters of class `k` at its end.
pub open spec fn strip_end(s: Seq<char>, k: CharClass) -> Seq<char>
    decreases s.len(),
{
    if s.len() > 0 && in_class(s.last(), k) {
        strip_end(s.drop_last(), k)
    } else {
        s
    }
}

/// What `str::trim` returns: `s` without leading and trailing white space.
pub open spec fn trim(s: Seq<char>) -> Seq<char> {
    strip_end(strip_start(s, CharClass::WhiteSpace), CharClass::WhiteSpace)
}

/// The pieces of `s` between the characters that occur in `seps`, as
/// `str::split` yields them: `n` separators give `n + 1` pieces, empty
/// pieces included.
pub open spec fn split_on(s: Seq<char>, seps: Seq<char>) -> Seq<Seq<char>>
    decreases s.len(),
{
    if s.len() == 0 {
        seq![Seq::<char>::empty()]
    } else {
        let prev = split_on(s.drop_last(), seps);
        if seps.contains(s.last()) {
            prev.push(Seq::<char>::empty())
        } else {
            prev.update(prev.len() - 1, prev.last().push(s.last()))
        }
    }
}

/// `str::split` always yields at least one piece.
pub proof fn lemma_split_on_nonempty(s: Seq<char>, seps: Seq<char>)
    ensures
        split_on(s, seps).len() >= 1,
    decreases s.len(),
{
    if s.len() > 0 {
        lemma_split_on_nonempty(s.drop_last(), seps);
    }
}

/// The character of a decimal digit.
pub open spec fn digit_char(d: nat) -> char {
    (48 + d) as char
}

/// The value of a decimal digit character.
pub open spec fn digit_value(c: char) -> nat {
    (c as int - 48) as nat
}

/// The decimal representation of `n`, without sign or leading zeros.
pub open spec fn decimal(n: nat) -> Seq<char>
    decreases n,
{
    if n < 10 {
        seq![digit_char(n)]
    } else {
        decimal(n / 10).push(digit_char(n % 10))
    }
}

pub open spec fn all_digits(s: Seq<char>) -> bool {
    forall|i: int| 0 <= i < s.len() ==> is_ascii_digit(#[trigger] s[i])
}

/// The number that a sequence of decimal digits denotes.
pub open spec fn digits_value(s: Seq<char>) -> nat
    decreases s.len(),
{
    if s.len() == 0 {
        0
    } else {
        digits_value(s.drop_last()) * 10 + digit_value(s.last())
    }
}

/// What `str::parse::<u32>` accepts and returns: an optional `+` followed by
/// one or more ASCII digits whose value fits in a `u32`.
pub open spec fn parse_u32(s: Seq<char>) -> Option<u32> {
    let d = if s.len() > 0 && s[0] == '+' { s.drop_first() } else { s };
    if d.len() > 0 && all_digits(d) && digits_value(d) <= u32::MAX {
        Some(digits_value(d) as u32)
    } else {
        None
    }
}

/// An optional string as plain text.
pub open spec fn opt_view(o: Option<String>) -> Option<Seq<char>> {
    match o {
        Some(s) => Some(s@),
        None => None,
    }
}

/// A result of strings as plain text.
pub open spec fn result_view(r: Result<String, String>) -> Result<Seq<char>, Seq<char>> {
    match r {
        Ok(s) => Ok(s@),
        Err(e) => Err(e@),
    }
}

/// The texts of a sequence of strings.
pub open spec fn string_views(v: Seq<String>) -> Seq<Seq<char>> {
    v.map_values(|s: String| s@)
}

/// The views of a sequence of character vectors.
pub open spec fn views(v: Seq<Vec<char>>) -> Seq<Seq<char>> {
    v.map_values(|x: Vec<char>| x@)
}

/* ---------------------------------------------------------------------
   Conversions between `String`/`&str` and `Vec<char>`
   --------------------------------------------------------------------- */

/// The characters of `s`, in order.
pub fn chars_of(s: &str) -> (v: Vec<char>)
    ensures
        v@ == s@,
{
    let mut v: Vec<char> = Vec::new();
    for c in it: s.chars()
        invariant
            v@ == it.seq().take(it.index() as int),
    {
        v.push(c);
    }
    v
}

/// Collects characters into a `String` (std's `FromIterator<&char>` for
/// `String`); the string holds exactly these characters, in order.
#[verifier::external_body]
pub(crate) fn string_from(v: &Vec<char>) -> (s: String)
    ensures
        s@ == v@,
{
    v.iter().collect()
}

/// A `String` holding exactly the characters of `s`.
pub fn lit(s: &str) -> (r: String)
    ensures
        r@ == s@,
{
    string_from(&chars_of(s))
}

/// `s` without leading and trailing white space, as a new `String`.
pub fn trimmed(s: &str) -> (r: String)
    ensures
        r@ == trim(s@),
{
    string_from(&trim_exec(&chars_of(s)))
}

/* ---------------------------------------------------------------------
   Executable helpers
   --------------------------------------------------------------------- */

pub fn to_ascii_lower(c: char) -> (r: char)
    ensures
        r == ascii_lower(c),
{
    if 'A' <= c && c <= 'Z' {
        let b: u8 = (c as u8) + 32;
        b as char
    } else {
        c
    }
}

pub fn is_white_space_exec(c: char) -> (r: bool)
    ensures
        r == is_white_space(c),
{
    ('\u{9}' <= c && c <= '\u{d}') || c == ' ' || c == '\u{85}' || c == '\u{a0}' || c
        == '\u{1680}' || ('\u{2000}' <= c && c <= '\u{200a}') || c == '\u{2028}' || c
        == '\u{2029}' || c == '\u{202f}' || c == '\u{205f}' || c == '\u{3000}'
}

pub fn in_class_exec(c: char, k: &CharClass) -> (r: bool)
    ensures
        r == in_class(c, *k),
{
    match k {
        CharClass::WhiteSpace => is_white_space_exec(c),
        CharClass::Exactly(x) => c == *x,
    }
}

/// The characters of `s` from `i` (inclusive) to `j` (exclusive).
pub fn slice(s: &Vec<char>, i: usize, j: usize) -> (r: Vec<char>)
    requires
        i <= j <= s.len(),
    ensures
        r@ == s@.subrange(i as int, j as int),
{
    let mut r: Vec<char> = Vec::new();
    let mut k = i;
    while k < j
        invariant
            i <= k <= j <= s.len(),
            r@ == s@.subrange(i as int, k as int),
        decreases j - k,
    {
        r.push(s[k]);
        k += 1;
    }
    r
}

/// `a` followed by `b`.
pub fn concat(a: &Vec<char>, b: &Vec<char>) -> (r: Vec<char>)
    ensures
        r@ == a@ + b@,
{
    let mut r = a.clone();
    let mut k: usize = 0;
    while k < b.len()
        invariant
            k <= b.len(),
            r@ == a@ + b@.subrange(0, k as int),
        decreases b.len() - k,
    {
        r.push(b[k]);
        k += 1;
    }
    r
}

pub fn occurs_at_exec(s: &Vec<char>, p: &Vec<char>, i: usize) -> (r: bool)
    ensures
        r == occurs_at(s@, p@, i as int),
{
    if i > s.len() || p.len() > s.len() - i {
        return false;
    }
    let mut k: usize = 0;
    while k < p.len()
        invariant
            k <= p.len(),
            i + p.len() <= s.len(),
            forall|j: int| 0 <= j < k ==> s@[i + j] == p@[j],
        decreases p.len() - k,
    {
        if s[i + k] != p[k] {
            assert(s@.subrange(i as int, i + p.len())[k as int] != p@[k as int]);
            return false;
        }
        k += 1;
    }
    assert(s@.subrange(i as int, i + p.len()) =~= p@);
    true
}

pub fn starts_with_exec(s: &Vec<char>, p: &Vec<char>) -> (r: bool)
    ensures
        r == starts_with(s@, p@),
{
    occurs_at_exec(s, p, 0)
}

pub fn ends_with_exec(s: &Vec<char>, p: &Vec<char>) -> (r: bool)
    ensures
        r == ends_with(s@, p@),
{
    if p.len() > s.len() {
        false
    } else {
        occurs_at_exec(s, p, s.len() - p.len())
    }
}

pub fn eq_exec(a: &Vec<char>, b: &Vec<char>) -> (r: bool)
    ensures
        r == (a@ == b@),
{
    if a.len() != b.len() {
        return false;
    }
    let r = occurs_at_exec(a, b, 0);
    assert(a@.subrange(0, a@.len() as int) =~= a@);
    r
}

/// The index of the first occurrence of `p` in `s`.
pub fn find(s: &Vec<char>, p: &Vec<char>) -> (r: Option<usize>)
    ensures
        match r {
            Some(i) => first_occurrence(s@, p@, i as int),
            None => !contains(s@, p@),
        },
{
    if p.len() > s.len() {
        return None;
    }
    let last = s.len() - p.len();
    let mut i: usize = 0;
    while i < last
        invariant
            i <= last,
            last + p.len() == s.len(),
            forall|j: int| 0 <= j < i ==> !occurs_at(s@, p@, j),
        decreases last - i,
    {
        if occurs_at_exec(s, p, i) {
            return Some(i);
        }
        i += 1;
    }
    if occurs_at_exec(s, p, last) {
        return Some(last);
    }
    None
}

pub fn contains_exec(s: &Vec<char>, p: &Vec<char>) -> (r: bool)
    ensures
        r == contains(s@, p@),
{
    match find(s, p) {
        Some(_) => true,
        None => false,
    }
}

/// The index of the first character of `s` that is not of class `k`
/// (`s.len()` when there is none).
fn strip_start_index(s: &Vec<char>, k: &CharClass) -> (i: usize)
    ensures
        i <= s.len(),
        strip_start(s@, *k) == s@.skip(i as int),
{
    let mut i: usize = 0;
    assert(s@.skip(0) =~= s@);
    while i < s.len() && in_class_exec(s[i], k)
        invariant
            i <= s.len(),
            strip_start(s@, *k) == strip_start(s@.skip(i as int), *k),
        decreases s.len() - i,
    {
        assert(s@.skip(i as int).drop_first() =~= s@.skip(i + 1));
        i += 1;
    }
    if i == s.len() {
        assert(s@.skip(i as int) =~= Seq::<char>::empty());
    }
    i
}

/// The length of `s` once the characters of class `k` at its end are gone.
fn strip_end_index(s: &Vec<char>, k: &CharClass) -> (j: usize)
    ensures
        j <= s.len(),
        strip_end(s@, *k) == s@.take(j as int),
{
    let mut j: usize = s.len();
    assert(s@.take(j as int) =~= s@);
    while j > 0 && in_class_exec(s[j - 1], k)
        invariant
            j <= s.len(),
            strip_end(s@, *k) == strip_end(s@.take(j as int), *k),
        decreases j,
    {
        assert(s@.take(j as int).drop_last() =~= s@.take(j - 1));
        j -= 1;
    }
    j
}

/// `s` without the characters of class `k` at its start.
pub fn strip_start_exec(s: &Vec<char>, k: &CharClass) -> (r: Vec<char>)
    ensures
        r@ == strip_start(s@, *k),
{
    let i = strip_start_index(s, k);
    let r = slice(s, i, s.len());
    assert(r@ =~= s@.skip(i as int));
    r
}

/// What `str::trim` returns.
pub fn trim_exec(s: &Vec<char>) -> (r: Vec<char>)
    ensures
        r@ == trim(s@),
{
    let a = strip_start_exec(s, &CharClass::WhiteSpace);
    let j = strip_end_index(&a, &CharClass::WhiteSpace);
    let r = slice(&a, 0, j);
    assert(r@ =~= a@.take(j as int));
    r
}

/// ASCII lower-case form of `s`.
pub fn lower_exec(s: &Vec<char>) -> (r: Vec<char>)
    ensures
        r@ == lower_seq(s@),
{
    let mut r: Vec<char> = Vec::new();
    let mut k: usize = 0;
    while k < s.len()
        invariant
            k <= s.len(),
            r@ =~= lower_seq(s@.subrange(0, k as int)),
        decreases s.len() - k,
    {
        r.push(to_ascii_lower(s[k]));
        k += 1;
        assert(lower_seq(s@.subrange(0, k as int)) =~= lower_seq(s@.subrange(0, k - 1)).push(
            ascii_lower(s@[k - 1]),
        ));
    }
    assert(s@.subrange(0, s@.len() as int) =~= s@);
    r
}

pub fn eq_ignore_ascii_case_exec(a: &Vec<char>, b: &Vec<char>) -> (r: bool)
    ensures
        r == eq_ignore_ascii_case(a@, b@),
{
    let la = lower_exec(a);
    let lb = lower_exec(b);
    eq_exec(&la, &lb)
}

/// The pieces of `s` between characters of `seps` (see [`split_on`]).
pub fn split_exec(s: &Vec<char>, seps: &Vec<char>) -> (r: Vec<Vec<char>>)
    ensures
        views(r@) == split_on(s@, seps@),
{
    let mut pieces: Vec<Vec<char>> = Vec::new();
    let mut cur: Vec<char> = Vec::new();
    let mut k: usize = 0;
    assert(s@.subrange(0, 0) =~= Seq::<char>::empty());
    assert(views(pieces@).push(cur@) =~= split_on(s@.subrange(0, 0), seps@));
    while k < s.len()
        invariant
            k <= s.len(),
            views(pieces@).push(cur@) =~= split_on(s@.subrange(0, k as int), seps@),
        decreases s.len() - k,
    {
        let c = s[k];
        let ghost pre = s@.subrange(0, k as int);
        assert(s@.subrange(0, k + 1).drop_last() =~= pre);
        let is_sep = contains_char(seps, c);
        if is_sep {
            let done = cur;
            pieces.push(done);
            cur = Vec::new();
        } else {
            cur.push(c);
        }
        k += 1;
        proof {
            assert(views(pieces@).push(cur@) =~= split_on(s@.subrange(0, k as int), seps@));
        }
    }
    pieces.push(cur);
    assert(s@.subrange(0, s@.len() as int) =~= s@);
    pieces
}

pub fn contains_char(s: &Vec<char>, c: char) -> (r: bool)
    ensures
        r == s@.contains(c),
{
    let mut k: usize = 0;
    while k < s.len()
        invariant
            k <= s.len(),
            forall|j: int| 0 <= j < k ==> s@[j] != c,
        decreases s.len() - k,
    {
        if s[k] == c {
            return true;
        }
        k += 1;
    }
    false
}

/// The decimal representation of `n`.
pub fn decimal_exec(n: u32) -> (r: Vec<char>)
    ensures
        r@ == decimal(n as nat),
    decreases n,
{
    let d: u8 = (n % 10) as u8;
    let c: char = (d + 48) as char;
    if n < 10 {
        let mut r: Vec<char> = Vec::new();
        r.push(c);
        assert(r@ =~= seq![digit_char(n as nat)]);
        r
    } else {
        let mut r = decimal_exec(n / 10);
        r.push(c);
        r
    }
}

pub proof fn lemma_digits_value_prefix(s: Seq<char>, i: int)
    requires
        all_digits(s),
        0 <= i <= s.len(),
    ensures
        digits_value(s.take(i)) <= digits_value(s),
    decreases s.len() - i,
{
    if i < s.len() {
        lemma_digits_value_prefix(s, i + 1);
        assert(s.take(i + 1).drop_last() =~= s.take(i));
        assert(is_ascii_digit(s[i]));
    } else {
        assert(s.take(i) =~= s);
    }
}

/// What `str::parse::<u32>` returns on `s`.
pub fn parse_u32_exec(s: &Vec<char>) -> (r: Option<u32>)
    ensures
        r == parse_u32(s@),
{
    let start: usize = if s.len() > 0 && s[0] == '+' {
        1
    } else {
        0
    };
    let ghost d = if s@.len() > 0 && s@[0] == '+' {
        s@.drop_first()
    } else {
        s@
    };
    assert(d =~= s@.skip(start as int));
    if start >= s.len() {
        assert(d.len() == 0);
        return None;
    }
    let mut k = start;
    while k < s.len()
        invariant
            start <= k <= s.len(),
            d =~= s@.skip(start as int),
            d == (if s@.len() > 0 && s@[0] == '+' { s@.drop_first() } else { s@ }),
            forall|j: int| start <= j < k ==> is_ascii_digit(#[trigger] s@[j]),
        decreases s.len() - k,
    {
        if !('0' <= s[k] && s[k] <= '9') {
            assert(d[k - start] == s@[k as int]);
            assert(!is_ascii_digit(d[k - start]));
            assert(!all_digits(d));
            return None;
        }
        k += 1;
    }
    assert(all_digits(d));
    let mut acc: u64 = 0;
    let mut k = start;
    while k < s.len()
        invariant
            start <= k <= s.len(),
            d =~= s@.skip(start as int),
            d == (if s@.len() > 0 && s@[0] == '+' { s@.drop_first() } else { s@ }),
            all_digits(d),
            acc as nat == digits_value(d.take(k - start)),
            acc <= u32::MAX,
        decreases s.len() - k,
    {
        assert(d[k - start] == s@[k as int]);
        assert(is_ascii_digit(d[k - start]));
        let v: u64 = (s[k] as u32 - 48) as u64;
        assert(d.take(k + 1 - start).drop_last() =~= d.take(k - start));
        assert(d.take(k + 1 - start).last() == s@[k as int]);
        let next = acc * 10 + v;
        assert(digits_value(d.take(k + 1 - start)) == next);
        if next > 4294967295 {
            proof {
                lemma_digits_value_prefix(d, k + 1 - start);
            }
            assert(digits_value(d) > u32::MAX);
            return None;
        }
        acc = next;
        k += 1;
    }
    assert(d.take(s.len() - start) =~= d);
    Some(acc as u32)
}

/// Stripping the start of `s` drops a run of characters of the class and
/// stops at the first one outside it; the index returned is where it stops.
pub proof fn lemma_strip_start_at(s: Seq<char>, k: CharClass) -> (a: int)
    ensures
        0 <= a <= s.len(),
        strip_start(s, k) == s.skip(a),
        forall|i: int| 0 <= i < a ==> in_class(#[trigger] s[i], k),
        a < s.len() ==> !in_class(s[a], k),
    decreases s.len(),
{
    if s.len() > 0 && in_class(s[0], k) {
        let t = s.drop_first();
        let a0 = lemma_strip_start_at(t, k);
        assert(t.skip(a0) =~= s.skip(a0 + 1));
        assert forall|i: int| 0 <= i < a0 + 1 implies in_class(#[trigger] s[i], k) by {
            if i > 0 {
                assert(s[i] == t[i - 1]);
            }
        }
        if a0 < t.len() {
            assert(s[a0 + 1] == t[a0]);
        }
        a0 + 1
    } else {
        assert(s.skip(0) =~= s);
        0
    }
}

/// Stripping the end of `s` drops a run of characters of the class and
/// stops at the last one outside it; the length returned is what is kept.
pub proof fn lemma_strip_end_at(s: Seq<char>, k: CharClass) -> (b: int)
    ensures
        0 <= b <= s.len(),
        strip_end(s, k) == s.take(b),
        forall|i: int| b <= i < s.len() ==> in_class(#[trigger] s[i], k),
        b > 0 ==> !in_class(s[b - 1], k),
    decreases s.len(),
{
    if s.len() > 0 && in_class(s.last(), k) {
        let t = s.drop_last();
        let b0 = lemma_strip_end_at(t, k);
        assert(t.take(b0) =~= s.take(b0));
        assert forall|i: int| b0 <= i < s.len() implies in_class(#[trigger] s[i], k) by {
            if i < t.len() {
                assert(s[i] == t[i]);
            }
        }
        if b0 > 0 {
            assert(s[b0 - 1] == t[b0 - 1]);
        }
        b0
    } else {
        assert(s.take(s.len() as int) =~= s);
        s.len() as int
    }
}

/// What trimming keeps is a stretch of `s` with only white space before
/// and after it, which itself neither starts nor ends with white space.
pub proof fn law_trim(s: Seq<char>)
    ensures
        exists|a: int, b: int|
            #![trigger s.subrange(a, b)]
            0 <= a <= b <= s.len() && trim(s) == s.subrange(a, b) && (forall|i: int|
                0 <= i < a ==> is_white_space(#[trigger] s[i])) && (forall|i: int|
                b <= i < s.len() ==> is_white_space(#[trigger] s[i])),
        trim(s).len() > 0 ==> !is_white_space(trim(s)[0]) && !is_white_space(
            trim(s)[trim(s).len() - 1],
        ),
{
    let a = lemma_strip_start_at(s, CharClass::WhiteSpace);
    let t = s.skip(a);
    let b0 = lemma_strip_end_at(t, CharClass::WhiteSpace);
    let b = a + b0;
    assert(t.take(b0) =~= s.subrange(a, b));
    assert forall|i: int| b <= i < s.len() implies is_white_space(#[trigger] s[i]) by {
        assert(s[i] == t[i - a]);
        assert(in_class(t[i - a], CharClass::WhiteSpace));
    }
    assert forall|i: int| 0 <= i < a implies is_white_space(#[trigger] s[i]) by {
        assert(in_class(s[i], CharClass::WhiteSpace));
    }
    if b0 > 0 {
        assert(trim(s)[0] == t[0]);
        assert(t[0] == s[a]);
        assert(trim(s)[b0 - 1] == t[b0 - 1]);
    }
}

/// The decimal form of a number is made of digits, without a leading zero
/// unless it is `0`, and reads back as that number.
pub proof fn law_decimal_reads_back(n: nat)
    ensures
        decimal(n).len() >= 1,
        all_digits(decimal(n)),
        digits_value(decimal(n)) == n,
        n > 0 ==> decimal(n)[0] != '0',
        n <= u32::MAX ==> parse_u32(decimal(n)) == Some(n as u32),
    decreases n,
{
    let c = digit_char(n % 10);
    assert(digit_value(c) == n % 10);
    assert(is_ascii_digit(c));
    if n >= 10 {
        law_decimal_reads_back(n / 10);
        let d = decimal(n / 10);
        let r = d.push(c);
        assert(r.drop_last() =~= d);
        assert forall|i: int| 0 <= i < r.len() implies is_ascii_digit(#[trigger] r[i]) by {
            if i < d.len() {
                assert(r[i] == d[i]);
            }
        }
        assert(r[0] == d[0]);
        assert(digits_value(r) == digits_value(d) * 10 + digit_value(c));
        assert((n / 10) * 10 + n % 10 == n) by (nonlinear_arith);
    } else {
        assert(seq![c].drop_last() =~= Seq::<char>::empty());
        assert(digits_value(Seq::<char>::empty()) == 0);
        assert(decimal(n) == seq![c]);
    }
    if n <= u32::MAX {
        assert(decimal(n)[0] != '+');
    }
}

} // verus!
