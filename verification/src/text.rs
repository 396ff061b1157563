//! Text helpers over the code points of a string.

use vstd::prelude::*;
use vstd::string::*;

verus! {

/// The code points of an optional string.
pub open spec fn optional_text(text: Option<String>) -> Option<Seq<char>> {
    match text {
        Some(t) => Some(t@),
        None => None,
    }
}

/// `pat` stands in `s` at code point offset `at`.
pub open spec fn occurs_at(s: Seq<char>, at: int, pat: Seq<char>) -> bool {
    0 <= at && at + pat.len() <= s.len() && s.subrange(at, at + pat.len()) == pat
}

/// Tells whether `pat` stands in `s` at code point offset `at`.
pub fn matches_at(s: &str, at: usize, pat: &str) -> (b: bool)
    ensures
        b == occurs_at(s@, at as int, pat@),
{
    let n: usize = s.unicode_len();
    let m: usize = pat.unicode_len();
    if at > n || m > n - at {
        return false;
    }
    let mut i: usize = 0;
    while i < m
        invariant
            n == s@.len(),
            m == pat@.len(),
            at <= n,
            m <= n - at,
            i <= m,
            forall|j: int| 0 <= j < i ==> s@[at + j] == pat@[j],
        decreases m - i,
    {
        if s.get_char(at + i) != pat.get_char(i) {
            proof {
                assert(s@.subrange(at as int, at + m)[i as int] == s@[at + i]);
            }
            return false;
        }
        i += 1;
    }
    proof {
        assert(s@.subrange(at as int, at + m) =~= pat@);
    }
    true
}

/// Tells whether the two strings hold the same code points.
pub fn str_equal(a: &str, b: &str) -> (r: bool)
    ensures
        r == (a@ == b@),
{
    let n: usize = a.unicode_len();
    let m: usize = b.unicode_len();
    if n != m {
        return false;
    }
    let r = matches_at(a, 0, b);
    proof {
        assert(a@.subrange(0, a@.len() as int) =~= a@);
    }
    r
}

/// Tells whether `s` begins with `prefix`.
pub fn starts_with(s: &str, prefix: &str) -> (r: bool)
    ensures
        r == prefix@.is_prefix_of(s@),
{
    matches_at(s, 0, prefix)
}

/// Tells whether `s` ends with `suffix`.
pub fn ends_with(s: &str, suffix: &str) -> (r: bool)
    ensures
        r == suffix@.is_suffix_of(s@),
{
    let n: usize = s.unicode_len();
    let m: usize = suffix.unicode_len();
    if m > n {
        return false;
    }
    matches_at(s, n - m, suffix)
}

/// The first offset at or after `from` at which `pat` stands in `s`.
pub open spec fn find_from(s: Seq<char>, pat: Seq<char>, from: int) -> Option<int>
    decreases s.len() - from,
{
    if from < 0 || from + pat.len() > s.len() {
        None
    } else if occurs_at(s, from, pat) {
        Some(from)
    } else if from >= s.len() {
        None
    } else {
        find_from(s, pat, from + 1)
    }
}

/// A match lies at or after the offset where the search began, and within
/// the text.
pub proof fn lemma_find_from_bounds(s: Seq<char>, pat: Seq<char>, from: int)
    ensures
        find_from(s, pat, from) matches Some(p) ==> from <= p && p + pat.len() <= s.len()
            && occurs_at(s, p, pat),
    decreases s.len() - from,
{
    if !(from < 0 || from + pat.len() > s.len()) && !occurs_at(s, from, pat) && from < s.len() {
        lemma_find_from_bounds(s, pat, from + 1);
    }
}

/// Where a search from `from` finds nothing before `to`, the part between them
/// does not hold the pattern.
pub proof fn lemma_find_from_none_in_part(s: Seq<char>, pat: Seq<char>, from: int, to: int)
    requires
        0 <= from <= to <= s.len(),
        match find_from(s, pat, from) {
            Some(p) => to <= p,
            None => true,
        },
        pat.len() > 0,
    ensures
        find_from(s.subrange(from, to), pat, 0) is None,
{
    let part = s.subrange(from, to);
    lemma_find_from_bounds(part, pat, 0);
    if find_from(part, pat, 0) is Some {
        let q = find_from(part, pat, 0)->0;
        assert(part.subrange(q, q + pat.len()) =~= s.subrange(from + q, from + q + pat.len()));
        assert(occurs_at(s, from + q, pat));
        lemma_find_from_first(s, pat, from, from + q);
    }
}

/// A search finds the pattern at or before any offset where it stands.
pub proof fn lemma_find_from_first(s: Seq<char>, pat: Seq<char>, from: int, at: int)
    requires
        0 <= from <= at,
        occurs_at(s, at, pat),
    ensures
        find_from(s, pat, from) matches Some(p) && p <= at,
    decreases at - from,
{
    if from < at && !occurs_at(s, from, pat) {
        lemma_find_from_first(s, pat, from + 1, at);
    }
}

/// Searches `s` for `pat`, starting at code point offset `from`.
pub fn find(s: &str, pat: &str, from: usize) -> (r: Option<usize>)
    ensures
        match r {
            Some(p) => find_from(s@, pat@, from as int) == Some(p as int) && from <= p && p
                + pat@.len() <= s@.len(),
            None => find_from(s@, pat@, from as int) is None,
        },
{
    let n: usize = s.unicode_len();
    let m: usize = pat.unicode_len();
    if m > n {
        return None;
    }
    let last: usize = n - m;
    let mut i: usize = from;
    while i <= last
        invariant
            n == s@.len(),
            m == pat@.len(),
            last == n - m,
            from <= i,
            find_from(s@, pat@, from as int) == find_from(s@, pat@, i as int),
        decreases last - i,
    {
        if matches_at(s, i, pat) {
            return Some(i);
        }
        if i == last {
            proof {
                assert(find_from(s@, pat@, i + 1) is None);
            }
            return None;
        }
        i += 1;
    }
    None
}

/// `a` comes before `b` from offset `i` on, comparing code point by code point.
pub open spec fn lex_lt_from(a: Seq<char>, b: Seq<char>, i: int) -> bool
    decreases a.len() - i,
{
    if i < 0 || i >= b.len() {
        false
    } else if i >= a.len() {
        true
    } else if a[i] != b[i] {
        (a[i] as int) < (b[i] as int)
    } else {
        lex_lt_from(a, b, i + 1)
    }
}

/// `a` comes before `b` in lexicographic order of code points, which is the
/// order of `str` and `String`.
pub open spec fn lex_lt(a: Seq<char>, b: Seq<char>) -> bool {
    lex_lt_from(a, b, 0)
}

/// `a` and `b` agree on their first `k` code points, and there `a` ends or
/// holds the smaller code point.
pub open spec fn parts_at(a: Seq<char>, b: Seq<char>, k: int) -> bool {
    &&& 0 <= k <= a.len()
    &&& k < b.len()
    &&& a.subrange(0, k) == b.subrange(0, k)
    &&& (k == a.len() || (a[k] as int) < (b[k] as int))
}

/// Where `a` comes before `b` from an offset up to which they agree, there is
/// a place at which they part.
pub proof fn lemma_lex_lt_from_parts(a: Seq<char>, b: Seq<char>, i: int)
    requires
        0 <= i <= a.len(),
        i <= b.len(),
        a.subrange(0, i) == b.subrange(0, i),
        lex_lt_from(a, b, i),
    ensures
        exists|k: int| parts_at(a, b, k),
    decreases a.len() - i,
{
    if i == a.len() || a[i] != b[i] {
        assert(parts_at(a, b, i));
    } else {
        assert(a.subrange(0, i + 1) =~= a.subrange(0, i).push(a[i]));
        assert(b.subrange(0, i + 1) =~= b.subrange(0, i).push(b[i]));
        lemma_lex_lt_from_parts(a, b, i + 1);
    }
}

/// Where `a` and `b` part at `k`, `a` comes before `b` from any offset up to
/// `k`.
pub proof fn lemma_parts_give_lex_lt_from(a: Seq<char>, b: Seq<char>, k: int, i: int)
    requires
        parts_at(a, b, k),
        0 <= i <= k,
    ensures
        lex_lt_from(a, b, i),
    decreases k - i,
{
    if i < k {
        assert(a.subrange(0, k)[i] == a[i]);
        assert(b.subrange(0, k)[i] == b[i]);
        lemma_parts_give_lex_lt_from(a, b, k, i + 1);
    }
}

/// `a` comes before `b` exactly where, after a common beginning, `a` ends
/// first or holds the smaller code point.
pub proof fn lemma_lex_lt_is_lexicographic(a: Seq<char>, b: Seq<char>)
    ensures
        lex_lt(a, b) <==> exists|k: int| parts_at(a, b, k),
{
    if lex_lt(a, b) {
        assert(a.subrange(0, 0) =~= b.subrange(0, 0));
        lemma_lex_lt_from_parts(a, b, 0);
    }
    if exists|k: int| parts_at(a, b, k) {
        let k = choose|k: int| parts_at(a, b, k);
        lemma_parts_give_lex_lt_from(a, b, k, 0);
    }
}

/// Tells whether `a` sorts strictly before `b`.
pub fn str_lt(a: &str, b: &str) -> (r: bool)
    ensures
        r == lex_lt(a@, b@),
{
    let n: usize = a.unicode_len();
    let m: usize = b.unicode_len();
    let mut i: usize = 0;
    while i < n && i < m
        invariant
            n == a@.len(),
            m == b@.len(),
            lex_lt(a@, b@) == lex_lt_from(a@, b@, i as int),
        decreases n - i,
    {
        let x: char = a.get_char(i);
        let y: char = b.get_char(i);
        if x != y {
            return (x as u32) < (y as u32);
        }
        i += 1;
    }
    i < m
}

/// The order is transitive from any offset on.
pub proof fn lemma_lex_lt_from_transitive(a: Seq<char>, b: Seq<char>, c: Seq<char>, i: int)
    requires
        lex_lt_from(a, b, i),
        lex_lt_from(b, c, i),
    ensures
        lex_lt_from(a, c, i),
    decreases a.len() - i,
{
    if 0 <= i < a.len() && i < b.len() && i < c.len() && a[i] == b[i] && b[i] == c[i] {
        lemma_lex_lt_from_transitive(a, b, c, i + 1);
    }
}

/// Lexicographic order is transitive.
pub proof fn lemma_lex_lt_transitive(a: Seq<char>, b: Seq<char>, c: Seq<char>)
    requires
        lex_lt(a, b),
        lex_lt(b, c),
    ensures
        lex_lt(a, c),
{
    lemma_lex_lt_from_transitive(a, b, c, 0);
}

/// From any offset on, no two strings come before each other.
pub proof fn lemma_lex_lt_from_asymmetric(a: Seq<char>, b: Seq<char>, i: int)
    requires
        lex_lt_from(a, b, i),
    ensures
        !lex_lt_from(b, a, i),
    decreases a.len() - i,
{
    if 0 <= i < a.len() && i < b.len() && a[i] == b[i] {
        lemma_lex_lt_from_asymmetric(a, b, i + 1);
    }
}

/// No string comes before itself, and no two come before each other.
pub proof fn lemma_lex_lt_asymmetric(a: Seq<char>, b: Seq<char>)
    ensures
        !(lex_lt(a, b) && lex_lt(b, a)),
        !lex_lt(a, a),
{
    if lex_lt(a, b) {
        lemma_lex_lt_from_asymmetric(a, b, 0);
    }
    if lex_lt(a, a) {
        lemma_lex_lt_from_asymmetric(a, a, 0);
    }
}

/// Of two different strings one comes before the other.
pub proof fn lemma_lex_lt_total(a: Seq<char>, b: Seq<char>)
    requires
        a != b,
    ensures
        lex_lt(a, b) || lex_lt(b, a),
{
    assert(a.subrange(0, 0) =~= b.subrange(0, 0));
    lemma_lex_lt_from_total(a, b, 0);
}

/// Of two different strings one comes before the other, from any offset up to
/// which they agree.
pub proof fn lemma_lex_lt_from_total(a: Seq<char>, b: Seq<char>, i: int)
    requires
        0 <= i,
        i <= a.len(),
        i <= b.len(),
        a.subrange(0, i) == b.subrange(0, i),
        a != b,
    ensures
        lex_lt_from(a, b, i) || lex_lt_from(b, a, i),
    decreases a.len() - i,
{
    if i < a.len() && i < b.len() && a[i] != b[i] {
        assert(a[i] as int != b[i] as int);
    } else if i < a.len() && i < b.len() {
        assert(a.subrange(0, i + 1) =~= a.subrange(0, i).push(a[i]));
        assert(b.subrange(0, i + 1) =~= b.subrange(0, i).push(b[i]));
        lemma_lex_lt_from_total(a, b, i + 1);
    } else if i == a.len() && i == b.len() {
        assert(a.subrange(0, i) =~= a);
        assert(b.subrange(0, i) =~= b);
    }
}

/// `c` is one of the ten ASCII digits.
pub open spec fn is_digit(c: char) -> bool {
    '0' as int <= c as int && c as int <= '9' as int
}

/// Every code point of `s` is an ASCII digit.
pub open spec fn all_digits(s: Seq<char>) -> bool {
    forall|i: int| 0 <= i < s.len() ==> is_digit(#[trigger] s[i])
}

/// The number that the digits of `s` write in base ten.
pub open spec fn decimal_value(s: Seq<char>) -> int
    decreases s.len(),
{
    if s.len() == 0 {
        0
    } else {
        decimal_value(s.drop_last()) * 10 + (s.last() as int - '0' as int)
    }
}

/// What a numeric field stands for: the number its ASCII digits write, and
/// zero where it is empty, holds anything else, or does not fit in 64 bits.
pub open spec fn number_or_zero(s: Seq<char>) -> int {
    if s.len() > 0 && all_digits(s) && decimal_value(s) <= u64::MAX {
        decimal_value(s)
    } else {
        0
    }
}

/// The number that up to three digits write.
pub proof fn lemma_short_number(s: Seq<char>)
    requires
        1 <= s.len() <= 3,
        all_digits(s),
    ensures
        s.len() == 1 ==> number_or_zero(s) == s[0] as int - '0' as int,
        s.len() == 2 ==> number_or_zero(s) == (s[0] as int - '0' as int) * 10 + (s[1] as int
            - '0' as int),
        s.len() == 3 ==> number_or_zero(s) == (s[0] as int - '0' as int) * 100 + (s[1] as int
            - '0' as int) * 10 + (s[2] as int - '0' as int),
{
    reveal_with_fuel(decimal_value, 4);
    assert(is_digit(s[0]));
    if s.len() >= 2 {
        assert(is_digit(s[1]));
        assert(s.drop_last()[0] == s[0]);
    }
    if s.len() == 3 {
        assert(is_digit(s[2]));
        assert(s.drop_last()[1] == s[1]);
        assert(s.drop_last().drop_last()[0] == s[0]);
    }
}

/// A longer digit string never writes a smaller number than its prefix.
pub proof fn lemma_decimal_prefix(s: Seq<char>, k: int)
    requires
        all_digits(s),
        0 <= k <= s.len(),
    ensures
        0 <= decimal_value(s.subrange(0, k)) <= decimal_value(s),
    decreases s.len(),
{
    if k == s.len() {
        assert(s.subrange(0, k) =~= s);
        if s.len() > 0 {
            lemma_decimal_prefix(s.drop_last(), k - 1);
            assert(is_digit(s[s.len() - 1]));
        }
    } else {
        assert(s.drop_last().subrange(0, k) =~= s.subrange(0, k));
        lemma_decimal_prefix(s.drop_last(), k);
        assert(is_digit(s[s.len() - 1]));
    }
}

/// Reads a decimal number, giving zero for a field that holds none.
pub fn parse_decimal(s: &str) -> (v: u64)
    ensures
        v as int == number_or_zero(s@),
{
    let n: usize = s.unicode_len();
    let mut acc: u64 = 0;
    let mut i: usize = 0;
    while i < n
        invariant
            n == s@.len(),
            i <= n,
            all_digits(s@.subrange(0, i as int)),
            acc as int == decimal_value(s@.subrange(0, i as int)),
        decreases n - i,
    {
        let c: char = s.get_char(i);
        let code: u32 = c as u32;
        if code < 48 || code > 57 {
            proof {
                assert(!is_digit(s@[i as int]));
            }
            return 0;
        }
        let d: u64 = (code - 48) as u64;
        proof {
            let next = s@.subrange(0, i + 1);
            assert(next.drop_last() =~= s@.subrange(0, i as int));
            assert(next.last() == c);
            assert(decimal_value(next) == acc * 10 + d);
            assert forall|j: int| 0 <= j < next.len() implies is_digit(#[trigger] next[j]) by {
                if j < i {
                    assert(next[j] == s@.subrange(0, i as int)[j]);
                }
            }
        }
        if acc > (u64::MAX - d) / 10 {
            proof {
                if all_digits(s@) {
                    lemma_decimal_prefix(s@, i + 1);
                }
            }
            return 0;
        }
        acc = acc * 10 + d;
        i += 1;
    }
    proof {
        assert(s@.subrange(0, n as int) =~= s@);
    }
    acc
}

/// `piece` written `n` times, with a comma between one and the next.
pub open spec fn repeat_joined(piece: Seq<char>, n: nat) -> Seq<char>
    decreases n,
{
    if n == 0 {
        Seq::empty()
    } else if n == 1 {
        piece
    } else {
        repeat_joined(piece, (n - 1) as nat) + seq![','] + piece
    }
}

/// Builds the layout that repeats `piece` `n` times, joined by commas.
pub fn repeat_layout(piece: &str, n: u64) -> (layout: String)
    ensures
        layout@ == repeat_joined(piece@, n as nat),
{
    let mut layout = String::new();
    let mut i: u64 = 0;
    while i < n
        invariant
            i <= n,
            layout@ == repeat_joined(piece@, i as nat),
        decreases n - i,
    {
        if i > 0 {
            proof {
                reveal_strlit(",");
                assert(","@ =~= seq![',']);
            }
            layout.append(",");
        }
        layout.append(piece);
        proof {
            assert(Seq::<char>::empty() + piece@ =~= piece@);
        }
        i += 1;
    }
    layout
}

/// How many comma-separated segments `s` has: one more than it has commas.
pub open spec fn segment_count(s: Seq<char>) -> nat
    decreases s.len(),
{
    if s.len() == 0 {
        1
    } else if s.last() == ',' {
        segment_count(s.drop_last()) + 1
    } else {
        segment_count(s.drop_last())
    }
}

/// Appending a text without commas adds no segment.
pub proof fn lemma_segment_count_append(s: Seq<char>, t: Seq<char>)
    requires
        !t.contains(','),
    ensures
        segment_count(s + t) == segment_count(s),
    decreases t.len(),
{
    if t.len() == 0 {
        assert(s + t =~= s);
    } else {
        assert(t.last() == t[t.len() - 1]);
        assert(t.contains(t[t.len() - 1]));
        assert((s + t).drop_last() =~= s + t.drop_last());
        assert forall|c: char| t.drop_last().contains(c) implies t.contains(c) by {
            let j = choose|j: int| 0 <= j < t.drop_last().len() && t.drop_last()[j] == c;
            assert(t[j] == c);
        }
        lemma_segment_count_append(s, t.drop_last());
    }
}

/// A descriptor without commas, repeated `n` times, gives `n` segments.
pub proof fn lemma_repeat_joined_segments(piece: Seq<char>, n: nat)
    requires
        n >= 1,
        !piece.contains(','),
    ensures
        segment_count(repeat_joined(piece, n)) == n,
    decreases n,
{
    if n == 1 {
        lemma_segment_count_append(Seq::empty(), piece);
        assert(Seq::<char>::empty() + piece =~= piece);
    } else {
        let before = repeat_joined(piece, (n - 1) as nat);
        lemma_repeat_joined_segments(piece, (n - 1) as nat);
        let with_comma = before + seq![','];
        assert(with_comma.drop_last() =~= before);
        assert(with_comma.last() == ',');
        lemma_segment_count_append(with_comma, piece);
    }
}

} // verus!
