//! Verified text helpers: character-exact string comparison, line splitting,
//! whitespace trimming, and decimal rendering of integers. These are the
//! primitives the parsing and workspace-naming logic is specified with.

use vstd::prelude::*;

verus! {

/// Character-for-character string comparison: true exactly when the two
/// strings have the same sequence of characters.
pub fn str_eq(a: &str, b: &str) -> (r: bool)
    ensures
        r == (a@ == b@),
{
    let na = a.unicode_len();
    let nb = b.unicode_len();
    if na != nb {
        return false;
    }
    let mut i: usize = 0;
    while i < na
        invariant
            na == a@.len(),
            nb == b@.len(),
            na == nb,
            i <= na,
            forall|j: int| 0 <= j < i ==> a@[j] == b@[j],
        decreases na - i,
    {
        if a.get_char(i) != b.get_char(i) {
            return false;
        }
        i += 1;
    }
    proof {
        assert(a@ =~= b@);
    }
    true
}

/// `s` with every leading occurrence of the prefix `p` removed, one after the
/// other.
pub open spec fn strip_prefix_all(s: Seq<char>, p: Seq<char>) -> Seq<char>
    decreases s.len(),
{
    if p.len() > 0 && s.len() >= p.len() && s.subrange(0, p.len() as int) == p {
        strip_prefix_all(s.subrange(p.len() as int, s.len() as int), p)
    } else {
        s
    }
}

/// Whether `s` begins with the characters of `p`.
pub fn str_starts_with(s: &str, p: &str) -> (r: bool)
    ensures
        r == (s@.len() >= p@.len() && s@.subrange(0, p@.len() as int) == p@),
{
    let n = s.unicode_len();
    let m = p.unicode_len();
    if n < m {
        return false;
    }
    let head = s.substring_char(0, m);
    str_eq(head, p)
}

/// `s` with every leading occurrence of the prefix `p` removed, one after the
/// other.
#[verifier::loop_isolation(false)]
pub fn strip_prefix_repeated<'a>(s: &'a str, p: &str) -> (r: &'a str)
    ensures
        r@ == strip_prefix_all(s@, p@),
{
    let plen = p.unicode_len();
    let mut cur: &str = s;
    while plen > 0 && str_starts_with(cur, p)
        invariant
            strip_prefix_all(s@, p@) == strip_prefix_all(cur@, p@),
            plen == p@.len(),
        decreases cur@.len(),
    {
        let n = cur.unicode_len();
        let next = cur.substring_char(plen, n);
        proof {
            assert(next@ == cur@.subrange(plen as int, cur@.len() as int));
        }
        cur = next;
    }
    cur
}

/// The characters the trimming helpers discard: ASCII whitespace.
pub open spec fn is_space(c: char) -> bool {
    c == ' ' || c == '\t' || c == '\r' || c == '\n'
}

/// `s` with leading whitespace removed.
pub open spec fn trim_left(s: Seq<char>) -> Seq<char>
    decreases s.len(),
{
    if s.len() > 0 && is_space(s[0]) {
        trim_left(s.drop_first())
    } else {
        s
    }
}

/// `s` with trailing whitespace removed.
pub open spec fn trim_right(s: Seq<char>) -> Seq<char>
    decreases s.len(),
{
    if s.len() > 0 && is_space(s.last()) {
        trim_right(s.drop_last())
    } else {
        s
    }
}

/// `s` with whitespace removed from both ends.
pub open spec fn trim_spec(s: Seq<char>) -> Seq<char> {
    trim_right(trim_left(s))
}

/// The pieces of `s` between occurrences of `sep`, in order. Never empty; a
/// string without `sep` yields one piece, itself.
pub open spec fn split_on(s: Seq<char>, sep: char) -> Seq<Seq<char>>
    decreases s.len(),
{
    if s.len() == 0 {
        seq![Seq::empty()]
    } else if s[0] == sep {
        seq![Seq::empty()] + split_on(s.drop_first(), sep)
    } else {
        let rest = split_on(s.drop_first(), sep);
        seq![seq![s[0]] + rest[0]] + rest.drop_first()
    }
}

/// A split always yields at least one piece.
pub proof fn lemma_split_len(s: Seq<char>, sep: char)
    ensures
        split_on(s, sep).len() >= 1,
    decreases s.len(),
{
    if s.len() == 0 {
    } else {
        lemma_split_len(s.drop_first(), sep);
    }
}

/// A string without the separator splits into exactly itself.
pub proof fn lemma_split_nosep(s: Seq<char>, sep: char)
    requires
        forall|j: int| 0 <= j < s.len() ==> s[j] != sep,
    ensures
        split_on(s, sep) =~~= seq![s],
    decreases s.len(),
{
    if s.len() == 0 {
        assert(split_on(s, sep) == seq![Seq::<char>::empty()]);
        assert(s =~= Seq::<char>::empty());
    } else {
        lemma_split_nosep(s.drop_first(), sep);
        let rest = split_on(s.drop_first(), sep);
        assert(rest == seq![s.drop_first()]);
        assert(seq![s[0]] + rest[0] =~= s);
        assert(rest.drop_first() =~= Seq::<Seq<char>>::empty());
        assert(split_on(s, sep) =~~= seq![s]);
    }
}

/// Splitting off the first piece: when the first occurrence of `sep` is at
/// `i0`, the split is the prefix before `i0` followed by the split of what
/// comes after it.
pub proof fn lemma_split_step(s: Seq<char>, sep: char, i0: int)
    requires
        0 <= i0 < s.len(),
        s[i0] == sep,
        forall|j: int| 0 <= j < i0 ==> s[j] != sep,
    ensures
        split_on(s, sep) =~~= seq![s.subrange(0, i0)] + split_on(
            s.subrange(i0 + 1, s.len() as int),
            sep,
        ),
    decreases i0,
{
    if i0 == 0 {
        assert(s.subrange(0, 0int) =~= Seq::<char>::empty());
        assert(s.subrange(1, s.len() as int) =~= s.drop_first());
    } else {
        let d = s.drop_first();
        assert(d[i0 - 1] == sep);
        assert(forall|j: int| 0 <= j < i0 - 1 ==> d[j] != sep);
        lemma_split_step(d, sep, i0 - 1);
        lemma_split_len(d.subrange(i0, d.len() as int), sep);
        let rest = split_on(d, sep);
        assert(rest[0] == d.subrange(0, i0 - 1));
        assert(seq![s[0]] + d.subrange(0, i0 - 1) =~= s.subrange(0, i0));
        assert(rest.drop_first() =~~= split_on(d.subrange(i0 - 1 + 1, d.len() as int), sep));
        assert(d.subrange(i0, d.len() as int) =~= s.subrange(i0 + 1, s.len() as int));
    }
}

/// The first piece of a split is the prefix before the first separator
/// (the whole string when no separator occurs before `i0 == s.len()`).
pub proof fn lemma_split_first(s: Seq<char>, sep: char, i0: int)
    requires
        0 <= i0 <= s.len(),
        i0 == s.len() || s[i0] == sep,
        forall|j: int| 0 <= j < i0 ==> s[j] != sep,
    ensures
        split_on(s, sep).len() >= 1,
        split_on(s, sep)[0] =~= s.subrange(0, i0),
{
    lemma_split_len(s, sep);
    if i0 == s.len() {
        lemma_split_nosep(s, sep);
        assert(s.subrange(0, i0) =~= s);
    } else {
        lemma_split_step(s, sep, i0);
    }
}

/// Leading whitespace up to `k` trims away: `trim_left` is the suffix of `s`
/// from the first non-space position `k`.
pub proof fn lemma_trim_left_at(s: Seq<char>, k: int)
    requires
        0 <= k <= s.len(),
        forall|j: int| 0 <= j < k ==> is_space(s[j]),
        k == s.len() || !is_space(s[k]),
    ensures
        trim_left(s) =~= s.subrange(k, s.len() as int),
    decreases k,
{
    if k == 0 {
        if s.len() == 0 || !is_space(s[0]) {
            assert(s.subrange(0, s.len() as int) =~= s);
        }
    } else {
        let d = s.drop_first();
        lemma_trim_left_at(d, k - 1);
        assert(d.subrange(k - 1, d.len() as int) =~= s.subrange(k, s.len() as int));
    }
}

/// Trailing whitespace from `k` on trims away: `trim_right` is the prefix of
/// `s` up to the last non-space position `k`.
pub proof fn lemma_trim_right_at(s: Seq<char>, k: int)
    requires
        0 <= k <= s.len(),
        forall|j: int| k <= j < s.len() ==> is_space(s[j]),
        k == 0 || !is_space(s[k - 1]),
    ensures
        trim_right(s) =~= s.subrange(0, k),
    decreases s.len(),
{
    if k == s.len() {
        if s.len() == 0 || !is_space(s.last()) {
            assert(s.subrange(0, s.len() as int) =~= s);
        }
    } else {
        let d = s.drop_last();
        assert(forall|j: int| k <= j < d.len() ==> is_space(d[j]));
        lemma_trim_right_at(d, k);
        assert(d.subrange(0, k) =~= s.subrange(0, k));
    }
}

/// Whether `c` is one of the characters trimming discards.
pub fn is_space_char(c: char) -> (r: bool)
    ensures
        r == is_space(c),
{
    c == ' ' || c == '\t' || c == '\r' || c == '\n'
}

/// `s` with ASCII whitespace removed from both ends.
#[verifier::loop_isolation(false)]
pub fn trim_str<'a>(s: &'a str) -> (r: &'a str)
    ensures
        r@ == trim_spec(s@),
{
    let n = s.unicode_len();
    let mut a: usize = 0;
    while a < n && is_space_char(s.get_char(a))
        invariant
            a <= n,
            forall|j: int| 0 <= j < a ==> is_space(s@[j]),
        decreases n - a,
    {
        a += 1;
    }
    proof {
        lemma_trim_left_at(s@, a as int);
    }
    let mut b: usize = n;
    while b > a && is_space_char(s.get_char(b - 1))
        invariant
            a <= b <= n,
            forall|j: int| b <= j < n ==> is_space(s@[j]),
        decreases b,
    {
        b -= 1;
    }
    proof {
        let t = s@.subrange(a as int, n as int);
        assert(forall|j: int| b - a <= j < t.len() ==> is_space(t[j]));
        lemma_trim_right_at(t, b - a);
        assert(t.subrange(0, b - a) =~= s@.subrange(a as int, b as int));
    }
    s.substring_char(a, b)
}

/// The pieces of `s` between occurrences of `sep`, in order, as owned
/// strings. Never empty; a string without `sep` yields one piece.
#[verifier::loop_isolation(false)]
pub fn split_str(s: &str, sep: char) -> (r: Vec<String>)
    ensures
        r.deep_view() =~~= split_on(s@, sep),
{
    let n = s.unicode_len();
    let mut out: Vec<String> = Vec::new();
    let mut start: usize = 0;
    let mut i: usize = 0;
    proof {
        assert(s@.subrange(0, n as int) =~= s@);
        assert(out.deep_view() =~~= Seq::<Seq<char>>::empty());
    }
    while i < n
        invariant
            start <= i <= n,
            forall|j: int| start <= j < i ==> s@[j] != sep,
            split_on(s@, sep) =~~= out.deep_view() + split_on(
                s@.subrange(start as int, n as int),
                sep,
            ),
        decreases n - i,
    {
        if s.get_char(i) == sep {
            let piece = s.substring_char(start, i).to_owned();
            proof {
                let t = s@.subrange(start as int, n as int);
                assert(t[i - start] == sep);
                assert(forall|j: int| 0 <= j < i - start ==> t[j] != sep);
                lemma_split_step(t, sep, i - start);
                assert(t.subrange(0, i - start) =~= s@.subrange(start as int, i as int));
                assert(t.subrange(i - start + 1, t.len() as int) =~= s@.subrange(
                    i + 1,
                    n as int,
                ));
            }
            out.push(piece);
            proof {
                assert(out.deep_view() =~~= out.deep_view().subrange(0, out.deep_view().len() - 1)
                    + seq![s@.subrange(start as int, i as int)]);
            }
            start = i + 1;
        }
        i += 1;
    }
    let last = s.substring_char(start, n).to_owned();
    proof {
        let t = s@.subrange(start as int, n as int);
        lemma_split_nosep(t, sep);
    }
    out.push(last);
    proof {
        assert(out.deep_view() =~~= out.deep_view().subrange(0, out.deep_view().len() - 1) + seq![
            s@.subrange(start as int, n as int),
        ]);
        assert(out.deep_view() =~~= split_on(s@, sep));
    }
    out
}

} // verus!
