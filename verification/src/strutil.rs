//! Character-sequence primitives: whitespace normalization ("tidying"),
//! delimiter search, splitting and joining, trimming, and substring search.
//!
//! Every executable function here is specified against a recursive spec
//! function over `Seq<char>`; the parser's functional model is built from
//! these same spec functions.

use vstd::prelude::*;

verus! {

/// A character survives tidying unless it is formatting whitespace
/// (newline or tab) inserted for readability.
pub open spec fn keeps(c: char) -> bool {
    c != '\n' && c != '\t'
}

/// The tidied form of a character sequence: the subsequence of characters
/// that are not newlines or tabs, in order.
pub open spec fn tidy_seq(s: Seq<char>) -> Seq<char>
    decreases s.len(),
{
    if s.len() == 0 {
        Seq::<char>::empty()
    } else {
        tidy_seq(s.drop_last()) + (if keeps(s.last()) {
            seq![s.last()]
        } else {
            Seq::<char>::empty()
        })
    }
}

/// Every character of a tidied sequence survives tidying.
pub proof fn lemma_tidy_all_kept(s: Seq<char>)
    ensures
        forall|i: int| 0 <= i < tidy_seq(s).len() ==> keeps(#[trigger] tidy_seq(s)[i]),
    decreases s.len(),
{
    if s.len() > 0 {
        lemma_tidy_all_kept(s.drop_last());
        let t = tidy_seq(s);
        let u = tidy_seq(s.drop_last());
        assert forall|i: int| 0 <= i < t.len() implies keeps(#[trigger] t[i]) by {
            if i < u.len() {
                assert(t[i] == u[i]);
            } else {
                assert(keeps(s.last()));
            }
        }
    }
}

/// Tidying a sequence whose characters all survive tidying is a no-op.
pub proof fn lemma_tidy_of_kept(s: Seq<char>)
    requires
        forall|i: int| 0 <= i < s.len() ==> keeps(#[trigger] s[i]),
    ensures
        tidy_seq(s) == s,
    decreases s.len(),
{
    if s.len() > 0 {
        lemma_tidy_of_kept(s.drop_last());
        assert(tidy_seq(s) =~= s);
    } else {
        assert(tidy_seq(s) =~= s);
    }
}

/// Tidying is idempotent: normalizing an already-tidy sequence changes
/// nothing.
pub proof fn lemma_tidy_idempotent(s: Seq<char>)
    ensures
        tidy_seq(tidy_seq(s)) == tidy_seq(s),
{
    lemma_tidy_all_kept(s);
    lemma_tidy_of_kept(tidy_seq(s));
}

/// Tidying distributes over concatenation.
pub proof fn lemma_tidy_add(a: Seq<char>, b: Seq<char>)
    ensures
        tidy_seq(a + b) == tidy_seq(a) + tidy_seq(b),
    decreases b.len(),
{
    if b.len() == 0 {
        assert(a + b =~= a);
        assert(tidy_seq(a) + tidy_seq(b) =~= tidy_seq(a));
    } else {
        lemma_tidy_add(a, b.drop_last());
        assert((a + b).drop_last() =~= a + b.drop_last());
        assert((a + b).last() == b.last());
        if keeps(b.last()) {
            assert(tidy_seq(a + b) =~= tidy_seq(a) + tidy_seq(b));
        } else {
            assert(tidy_seq(a + b) =~= tidy_seq(a) + tidy_seq(b));
        }
    }
}

/// A character absent from a sequence is absent from its tidied form.
pub proof fn lemma_tidy_no_char(s: Seq<char>, c: char)
    requires
        forall|i: int| 0 <= i < s.len() ==> #[trigger] s[i] != c,
    ensures
        forall|i: int| 0 <= i < tidy_seq(s).len() ==> #[trigger] tidy_seq(s)[i] != c,
    decreases s.len(),
{
    if s.len() > 0 {
        lemma_tidy_no_char(s.drop_last(), c);
        let t = tidy_seq(s);
        let u = tidy_seq(s.drop_last());
        assert forall|i: int| 0 <= i < t.len() implies #[trigger] t[i] != c by {
            if i < u.len() {
                assert(t[i] == u[i]);
            } else {
                assert(s.last() != c);
            }
        }
    }
}

/// Tidying never lengthens a sequence.
pub proof fn lemma_tidy_len_le(s: Seq<char>)
    ensures
        tidy_seq(s).len() <= s.len(),
    decreases s.len(),
{
    if s.len() > 0 {
        lemma_tidy_len_le(s.drop_last());
    }
}

/// Index of the first occurrence of `c` in `s`, if any.
pub open spec fn find_in(s: Seq<char>, c: char) -> Option<int>
    decreases s.len(),
{
    if s.len() == 0 {
        None
    } else if s[0] == c {
        Some(0)
    } else {
        match find_in(s.drop_first(), c) {
            None => None,
            Some(j) => Some(1 + j),
        }
    }
}

/// `find_in` returns the least index holding `c`, or `None` when `c` is
/// absent.
pub proof fn lemma_find_in_characterization(s: Seq<char>, c: char)
    ensures
        match find_in(s, c) {
            Some(i) => 0 <= i < s.len() && s[i] == c && forall|k: int|
                0 <= k < i ==> #[trigger] s[k] != c,
            None => forall|k: int| 0 <= k < s.len() ==> #[trigger] s[k] != c,
        },
    decreases s.len(),
{
    if s.len() > 0 && s[0] != c {
        lemma_find_in_characterization(s.drop_first(), c);
        let r = s.drop_first();
        match find_in(r, c) {
            Some(j) => {
                assert forall|k: int| 0 <= k < 1 + j implies #[trigger] s[k] != c by {
                    if k > 0 {
                        assert(r[k - 1] != c);
                    }
                }
            },
            None => {
                assert forall|k: int| 0 <= k < s.len() implies #[trigger] s[k] != c by {
                    if k > 0 {
                        assert(r[k - 1] != c);
                    }
                }
            },
        }
    }
}

/// The converse: a least index holding `c` is what `find_in` returns.
pub proof fn lemma_find_in_from_witness(s: Seq<char>, c: char, i: int)
    requires
        0 <= i < s.len(),
        s[i] == c,
        forall|k: int| 0 <= k < i ==> #[trigger] s[k] != c,
    ensures
        find_in(s, c) == Some(i),
    decreases s.len(),
{
    if i > 0 {
        let r = s.drop_first();
        assert forall|k: int| 0 <= k < i - 1 implies #[trigger] r[k] != c by {
            assert(s[k + 1] != c);
        }
        lemma_find_in_from_witness(r, c, i - 1);
    }
}

/// When `c` is nowhere in `s`, `find_in` finds nothing.
pub proof fn lemma_find_in_none(s: Seq<char>, c: char)
    requires
        forall|k: int| 0 <= k < s.len() ==> #[trigger] s[k] != c,
    ensures
        find_in(s, c) == Option::<int>::None,
    decreases s.len(),
{
    if s.len() > 0 {
        let r = s.drop_first();
        assert forall|k: int| 0 <= k < r.len() implies #[trigger] r[k] != c by {
            assert(s[k + 1] != c);
        }
        lemma_find_in_none(r, c);
    }
}

/// First index at or after `from` where `c` occurs in `s`.
pub fn find_char_from(s: &str, c: char, from: usize) -> (r: Option<usize>)
    requires
        from <= s@.len(),
    ensures
        match r {
            Some(i) => from <= i < s@.len() && s@[i as int] == c && forall|k: int|
                from <= k < i ==> #[trigger] s@[k] != c,
            None => forall|k: int| from <= k < s@.len() ==> #[trigger] s@[k] != c,
        },
{
    let n = s.unicode_len();
    let mut i: usize = from;
    while i < n
        invariant
            n == s@.len(),
            from <= i <= n,
            forall|k: int| from <= k < i ==> #[trigger] s@[k] != c,
        decreases n - i,
    {
        if s.get_char(i) == c {
            return Some(i);
        }
        i = i + 1;
    }
    None
}

/// Split `s` at every occurrence of the delimiter `d`.  Like Rust's
/// `str::split`, the result always holds at least one fragment, and
/// doubled or trailing delimiters yield empty fragments.
pub open spec fn split_seq(s: Seq<char>, d: char) -> Seq<Seq<char>>
    decreases s.len(),
{
    if s.len() == 0 {
        seq![Seq::<char>::empty()]
    } else {
        let rest = split_seq(s.drop_first(), d);
        if s[0] == d {
            seq![Seq::<char>::empty()] + rest
        } else {
            rest.update(0, seq![s[0]] + rest[0])
        }
    }
}

/// Join fragments with the delimiter `d` between consecutive fragments.
pub open spec fn join_seq(frags: Seq<Seq<char>>, d: char) -> Seq<char>
    decreases frags.len(),
{
    if frags.len() == 0 {
        Seq::<char>::empty()
    } else if frags.len() == 1 {
        frags[0]
    } else {
        frags[0] + seq![d] + join_seq(frags.drop_first(), d)
    }
}

/// Splitting yields at least one fragment.
pub proof fn lemma_split_nonempty(s: Seq<char>, d: char)
    ensures
        split_seq(s, d).len() >= 1,
    decreases s.len(),
{
    if s.len() > 0 {
        lemma_split_nonempty(s.drop_first(), d);
    }
}

/// Splitting on an absent delimiter yields the whole sequence as the one
/// fragment.
pub proof fn lemma_split_no_delim(s: Seq<char>, d: char)
    requires
        forall|k: int| 0 <= k < s.len() ==> #[trigger] s[k] != d,
    ensures
        split_seq(s, d) == seq![s],
    decreases s.len(),
{
    if s.len() > 0 {
        let r = s.drop_first();
        assert forall|k: int| 0 <= k < r.len() implies #[trigger] r[k] != d by {
            assert(s[k + 1] != d);
        }
        lemma_split_no_delim(r, d);
        assert(seq![s[0]] + r =~= s);
        assert(split_seq(s, d) =~= seq![s]);
    } else {
        assert(s =~= Seq::<char>::empty());
        assert(split_seq(s, d) =~= seq![s]);
    }
}

/// Splitting at the first delimiter: the fragment before it, then the
/// split of what follows it.
pub proof fn lemma_split_at_first(pre: Seq<char>, suf: Seq<char>, d: char)
    requires
        forall|k: int| 0 <= k < pre.len() ==> #[trigger] pre[k] != d,
    ensures
        split_seq(pre + seq![d] + suf, d) == seq![pre] + split_seq(suf, d),
    decreases pre.len(),
{
    let s = pre + seq![d] + suf;
    if pre.len() == 0 {
        assert(s =~= seq![d] + suf);
        assert(s[0] == d);
        assert(s.drop_first() =~= suf);
        assert(pre =~= Seq::<char>::empty());
        assert(split_seq(s, d) =~= seq![pre] + split_seq(suf, d));
    } else {
        let p = pre.drop_first();
        assert forall|k: int| 0 <= k < p.len() implies #[trigger] p[k] != d by {
            assert(pre[k + 1] != d);
        }
        lemma_split_at_first(p, suf, d);
        assert(s[0] == pre[0]);
        assert(s[0] != d);
        assert(s.drop_first() =~= p + seq![d] + suf);
        lemma_split_nonempty(suf, d);
        let rest = split_seq(s.drop_first(), d);
        assert(rest == seq![p] + split_seq(suf, d));
        assert(rest[0] == p);
        assert(seq![s[0]] + rest[0] =~= pre);
        assert(split_seq(s, d) =~= seq![pre] + split_seq(suf, d));
    }
}

/// Split and join are a lossless round trip: re-joining the fragments of
/// a split with the same delimiter reproduces the sequence exactly.
pub proof fn lemma_split_join_round_trip(s: Seq<char>, d: char)
    ensures
        join_seq(split_seq(s, d), d) == s,
    decreases s.len(),
{
    if s.len() == 0 {
        assert(join_seq(split_seq(s, d), d) =~= s);
    } else {
        let r = s.drop_first();
        lemma_split_join_round_trip(r, d);
        let rest = split_seq(r, d);
        lemma_split_nonempty(r, d);
        if s[0] == d {
            let whole = seq![Seq::<char>::empty()] + rest;
            assert(whole.len() >= 2);
            assert(whole.drop_first() =~= rest);
            assert(whole[0] + seq![d] + join_seq(rest, d) =~= s);
        } else {
            let whole = rest.update(0, seq![s[0]] + rest[0]);
            if rest.len() == 1 {
                assert(join_seq(whole, d) == whole[0]);
                assert(join_seq(rest, d) == rest[0]);
                assert(whole[0] =~= seq![s[0]] + join_seq(rest, d));
                assert(seq![s[0]] + r =~= s);
            } else {
                assert(whole.drop_first() =~= rest.drop_first());
                assert(join_seq(whole, d) == whole[0] + seq![d] + join_seq(
                    whole.drop_first(),
                    d,
                ));
                assert(join_seq(rest, d) == rest[0] + seq![d] + join_seq(
                    rest.drop_first(),
                    d,
                ));
                assert(whole[0] + seq![d] + join_seq(whole.drop_first(), d) =~= seq![s[0]]
                    + join_seq(rest, d));
                assert(seq![s[0]] + join_seq(rest, d) =~= s);
            }
        }
    }
}

/// No fragment of a split is longer than the split sequence.
pub proof fn lemma_split_fragment_len(s: Seq<char>, d: char, i: int)
    requires
        0 <= i < split_seq(s, d).len(),
    ensures
        split_seq(s, d)[i].len() <= s.len(),
    decreases s.len(),
{
    if s.len() > 0 {
        let rest = split_seq(s.drop_first(), d);
        lemma_split_nonempty(s.drop_first(), d);
        if s[0] == d {
            if i > 0 {
                lemma_split_fragment_len(s.drop_first(), d, i - 1);
            }
        } else {
            lemma_split_fragment_len(s.drop_first(), d, i);
        }
    }
}

/// The views of a sequence of string slices.
pub open spec fn views_of(q: Seq<&str>) -> Seq<Seq<char>> {
    q.map_values(|t: &str| t@)
}

/// Split the string `s` at every occurrence of the delimiter `d`.
pub fn split_str<'a>(s: &'a str, d: char) -> (r: Vec<&'a str>)
    ensures
        views_of(r@) == split_seq(s@, d),
{
    let n = s.unicode_len();
    let mut r: Vec<&'a str> = Vec::new();
    let mut start: usize = 0;
    proof {
        assert(s@.subrange(0, n as int) =~= s@);
        assert(views_of(r@) + split_seq(s@, d) =~= split_seq(s@, d));
    }
    loop
        invariant
            n == s@.len(),
            0 <= start <= n,
            views_of(r@) + split_seq(s@.subrange(start as int, n as int), d) == split_seq(
                s@,
                d,
            ),
        decreases n - start,
    {
        let ghost tail = s@.subrange(start as int, n as int);
        match find_char_from(s, d, start) {
            Some(j) => {
                let frag = s.substring_char(start, j);
                r.push(frag);
                proof {
                    let pre = s@.subrange(start as int, j as int);
                    let suf = s@.subrange(j + 1 as int, n as int);
                    assert forall|k: int| 0 <= k < pre.len() implies #[trigger] pre[k] != d by {
                        assert(s@[start + k] != d);
                    }
                    lemma_split_at_first(pre, suf, d);
                    assert(tail =~= pre + seq![d] + suf);
                    assert(views_of(r@) =~= views_of(r@.drop_last()).push(frag@));
                    assert(views_of(r@) + split_seq(suf, d) =~= views_of(r@.drop_last())
                        + split_seq(tail, d));
                }
                start = j + 1;
            },
            None => {
                let frag = s.substring_char(start, n);
                r.push(frag);
                proof {
                    assert forall|k: int| 0 <= k < tail.len() implies #[trigger] tail[k]
                        != d by {
                        assert(s@[start + k] != d);
                    }
                    lemma_split_no_delim(tail, d);
                    assert(views_of(r@) =~= views_of(r@.drop_last()).push(frag@));
                    assert(views_of(r@) =~= views_of(r@.drop_last()) + split_seq(tail, d));
                }
                return r;
            },
        }
    }
}

/// Whether `c` occurs anywhere in `s`.
pub open spec fn has_char(s: Seq<char>, c: char) -> bool {
    exists|i: int| 0 <= i < s.len() && s[i] == c
}

/// Whether the character `c` occurs in `s`.
pub fn contains_char(s: &str, c: char) -> (r: bool)
    ensures
        r == has_char(s@, c),
{
    match find_char_from(s, c, 0) {
        Some(i) => {
            proof {
                assert(s@[i as int] == c);
            }
            true
        },
        None => {
            proof {
                assert(!has_char(s@, c)) by {
                    if has_char(s@, c) {
                        let i = choose|i: int| 0 <= i < s@.len() && s@[i] == c;
                        assert(s@[i] != c);
                    }
                }
            }
            false
        },
    }
}

/// Whether `p` is a prefix of `s`.
pub open spec fn is_prefix_of(p: Seq<char>, s: Seq<char>) -> bool {
    p.len() <= s.len() && s.subrange(0, p.len() as int) == p
}

/// Whether the string `s` starts with the string `p`.
pub fn starts_with(s: &str, p: &str) -> (r: bool)
    ensures
        r == is_prefix_of(p@, s@),
{
    let np = p.unicode_len();
    let ns = s.unicode_len();
    if np > ns {
        proof {
            assert(!is_prefix_of(p@, s@));
        }
        return false;
    }
    let mut i: usize = 0;
    while i < np
        invariant
            np == p@.len(),
            ns == s@.len(),
            np <= ns,
            0 <= i <= np,
            forall|k: int| 0 <= k < i ==> #[trigger] s@[k] == p@[k],
        decreases np - i,
    {
        if s.get_char(i) != p.get_char(i) {
            proof {
                assert(s@.subrange(0, np as int)[i as int] != p@[i as int]);
            }
            return false;
        }
        i = i + 1;
    }
    proof {
        assert(s@.subrange(0, np as int) =~= p@);
    }
    true
}

/// Whether two strings hold the same characters.
pub fn str_eq(a: &str, b: &str) -> (r: bool)
    ensures
        r == (a@ == b@),
{
    let na = a.unicode_len();
    let nb = b.unicode_len();
    if na != nb {
        proof {
            assert(a@ != b@);
        }
        return false;
    }
    let mut i: usize = 0;
    while i < na
        invariant
            na == a@.len(),
            na == b@.len(),
            0 <= i <= na,
            forall|k: int| 0 <= k < i ==> #[trigger] a@[k] == b@[k],
        decreases na - i,
    {
        if a.get_char(i) != b.get_char(i) {
            return false;
        }
        i = i + 1;
    }
    proof {
        assert(a@ =~= b@);
    }
    true
}

/// Index of the occurrence number `n` (0-based) of `c` in `s`, if any.
pub open spec fn nth_in(s: Seq<char>, c: char, n: int) -> Option<int>
    decreases s.len(),
{
    if s.len() == 0 {
        None
    } else if s[0] == c && n <= 0 {
        Some(0)
    } else {
        let m = if s[0] == c {
            n - 1
        } else {
            n
        };
        match nth_in(s.drop_first(), c, m) {
            None => None,
            Some(j) => Some(1 + j),
        }
    }
}

/// The 0th occurrence is the first occurrence.
pub proof fn lemma_nth_zero(s: Seq<char>, c: char)
    ensures
        nth_in(s, c, 0) == find_in(s, c),
    decreases s.len(),
{
    if s.len() > 0 && s[0] != c {
        lemma_nth_zero(s.drop_first(), c);
    }
}

/// Without any occurrence of `c` there is no occurrence number `n`.
pub proof fn lemma_nth_none(s: Seq<char>, c: char, n: int)
    requires
        forall|k: int| 0 <= k < s.len() ==> #[trigger] s[k] != c,
    ensures
        nth_in(s, c, n) == Option::<int>::None,
    decreases s.len(),
{
    if s.len() > 0 {
        let r = s.drop_first();
        assert forall|k: int| 0 <= k < r.len() implies #[trigger] r[k] != c by {
            assert(s[k + 1] != c);
        }
        lemma_nth_none(r, c, n);
    }
}

/// Stepping past the first occurrence of `c` (at index `p`) lowers the
/// occurrence number sought by one.
pub proof fn lemma_nth_step(s: Seq<char>, c: char, n: int, p: int)
    requires
        0 <= p < s.len(),
        s[p] == c,
        forall|k: int| 0 <= k < p ==> #[trigger] s[k] != c,
        n >= 1,
    ensures
        nth_in(s, c, n) == match nth_in(s.subrange(p + 1, s.len() as int), c, n - 1) {
            None => None,
            Some(j) => Some(p + 1 + j),
        },
    decreases p,
{
    if p == 0 {
        assert(s.drop_first() =~= s.subrange(1, s.len() as int));
    } else {
        let r = s.drop_first();
        assert forall|k: int| 0 <= k < p - 1 implies #[trigger] r[k] != c by {
            assert(s[k + 1] != c);
        }
        lemma_nth_step(r, c, n, p - 1);
        assert(r.subrange(p, r.len() as int) =~= s.subrange(p + 1, s.len() as int));
    }
}

/// A found occurrence number is in bounds.
pub proof fn lemma_nth_in_bounds(s: Seq<char>, c: char, n: int)
    ensures
        nth_in(s, c, n) matches Some(i) ==> 0 <= i < s.len(),
    decreases s.len(),
{
    if s.len() > 0 && !(s[0] == c && n <= 0) {
        let m = if s[0] == c {
            n - 1
        } else {
            n
        };
        lemma_nth_in_bounds(s.drop_first(), c, m);
    }
}

/// Position of occurrence number `n` of `c` in `s`, falling back to the
/// last index (or 0 for an empty sequence) when there are not enough
/// occurrences.
pub open spec fn nth_or_last(s: Seq<char>, c: char, n: int) -> int {
    match nth_in(s, c, n) {
        Some(i) => i,
        None => if s.len() == 0 {
            0
        } else {
            s.len() - 1
        },
    }
}

/// Locate an empty path or query component: such a component arises from a
/// superfluous delimiter, and the occurrence number `split_count` of the
/// delimiter within the tidied region is the one to highlight.
pub fn find_empty_attr_index(tidy_attr: &str, split_count: usize, delimiter: char) -> (r:
    usize)
    ensures
        r as int == nth_or_last(tidy_attr@, delimiter, split_count as int),
{
    let n = tidy_attr.unicode_len();
    let mut base: usize = 0;
    let mut k: usize = split_count;
    proof {
        assert(tidy_attr@.subrange(0, n as int) =~= tidy_attr@);
    }
    loop
        invariant
            n == tidy_attr@.len(),
            0 <= base <= n,
            k >= 0,
            nth_in(tidy_attr@, delimiter, split_count as int) == match nth_in(
                tidy_attr@.subrange(base as int, n as int),
                delimiter,
                k as int,
            ) {
                None => None::<int>,
                Some(j) => Some(base + j),
            },
        decreases k,
    {
        let ghost tail = tidy_attr@.subrange(base as int, n as int);
        match find_char_from(tidy_attr, delimiter, base) {
            None => {
                proof {
                    assert forall|q: int| 0 <= q < tail.len() implies #[trigger] tail[q]
                        != delimiter by {
                        assert(tidy_attr@[base + q] != delimiter);
                    }
                    lemma_nth_none(tail, delimiter, k as int);
                }
                if n == 0 {
                    return 0;
                } else {
                    return n - 1;
                }
            },
            Some(j) => {
                proof {
                    assert(tail[j - base] == delimiter);
                    assert forall|q: int| 0 <= q < j - base implies #[trigger] tail[q]
                        != delimiter by {
                        assert(tidy_attr@[base + q] != delimiter);
                    }
                }
                if k == 0 {
                    proof {
                        lemma_nth_zero(tail, delimiter);
                        lemma_find_in_from_witness(tail, delimiter, j - base);
                    }
                    return j;
                }
                proof {
                    lemma_nth_step(tail, delimiter, k as int, j - base);
                    assert(tail.subrange(j - base + 1, tail.len() as int)
                        =~= tidy_attr@.subrange(j + 1 as int, n as int));
                }
                k = k - 1;
                base = j + 1;
            },
        }
    }
}

/// The Unicode white-space characters, as trimmed by `str::trim`.
pub open spec fn ws_char(c: char) -> bool {
    c == ' ' || c == '\t' || c == '\n' || c == '\r' || c == '\u{B}' || c == '\u{C}' || c
        == '\u{85}' || c == '\u{A0}' || c == '\u{1680}' || c == '\u{2000}' || c == '\u{2001}'
        || c == '\u{2002}' || c == '\u{2003}' || c == '\u{2004}' || c == '\u{2005}' || c
        == '\u{2006}' || c == '\u{2007}' || c == '\u{2008}' || c == '\u{2009}' || c
        == '\u{200A}' || c == '\u{2028}' || c == '\u{2029}' || c == '\u{202F}' || c
        == '\u{205F}' || c == '\u{3000}'
}

/// Whether `c` is a white-space character.
pub fn is_ws(c: char) -> (r: bool)
    ensures
        r == ws_char(c),
{
    c == ' ' || c == '\t' || c == '\n' || c == '\r' || c == '\u{B}' || c == '\u{C}' || c
        == '\u{85}' || c == '\u{A0}' || c == '\u{1680}' || c == '\u{2000}' || c == '\u{2001}'
        || c == '\u{2002}' || c == '\u{2003}' || c == '\u{2004}' || c == '\u{2005}' || c
        == '\u{2006}' || c == '\u{2007}' || c == '\u{2008}' || c == '\u{2009}' || c
        == '\u{200A}' || c == '\u{2028}' || c == '\u{2029}' || c == '\u{202F}' || c
        == '\u{205F}' || c == '\u{3000}'
}

/// Number of leading white-space characters.
pub open spec fn head_ws(s: Seq<char>) -> int
    decreases s.len(),
{
    if s.len() == 0 {
        0
    } else if !ws_char(s[0]) {
        0
    } else {
        1 + head_ws(s.drop_first())
    }
}

/// Number of trailing white-space characters.
pub open spec fn tail_ws(s: Seq<char>) -> int
    decreases s.len(),
{
    if s.len() == 0 {
        0
    } else if !ws_char(s.last()) {
        0
    } else {
        1 + tail_ws(s.drop_last())
    }
}

/// The sequence with leading and trailing white space removed.
pub open spec fn trim_seq(s: Seq<char>) -> Seq<char> {
    let i = head_ws(s);
    let j = s.len() - tail_ws(s);
    if i < j {
        s.subrange(i, j)
    } else {
        Seq::<char>::empty()
    }
}

/// A scan that stops at the first non-white-space character computes
/// `head_ws`.
pub proof fn lemma_head_ws_from_scan(s: Seq<char>, i: int)
    requires
        0 <= i <= s.len(),
        forall|k: int| 0 <= k < i ==> ws_char(#[trigger] s[k]),
        i < s.len() ==> !ws_char(s[i]),
    ensures
        head_ws(s) == i,
    decreases s.len(),
{
    if s.len() > 0 && ws_char(s[0]) {
        let r = s.drop_first();
        assert forall|k: int| 0 <= k < i - 1 implies ws_char(#[trigger] r[k]) by {
            assert(ws_char(s[k + 1]));
        }
        lemma_head_ws_from_scan(r, i - 1);
    }
}

/// A scan backwards that stops at the last non-white-space character
/// computes `tail_ws`.
pub proof fn lemma_tail_ws_from_scan(s: Seq<char>, j: int)
    requires
        0 <= j <= s.len(),
        forall|k: int| j <= k < s.len() ==> ws_char(#[trigger] s[k]),
        j > 0 ==> !ws_char(s[j - 1]),
    ensures
        tail_ws(s) == s.len() - j,
    decreases s.len(),
{
    if s.len() > 0 && ws_char(s.last()) {
        let r = s.drop_last();
        assert forall|k: int| j <= k < r.len() implies ws_char(#[trigger] r[k]) by {
            assert(ws_char(s[k]));
        }
        lemma_tail_ws_from_scan(r, j);
    }
}

/// Remove leading and trailing white space, as `str::trim` does.
pub fn trim<'a>(s: &'a str) -> (r: &'a str)
    ensures
        r@ == trim_seq(s@),
{
    let n = s.unicode_len();
    let mut i: usize = 0;
    while i < n && is_ws(s.get_char(i))
        invariant
            n == s@.len(),
            0 <= i <= n,
            forall|k: int| 0 <= k < i ==> ws_char(#[trigger] s@[k]),
        decreases n - i,
    {
        i = i + 1;
    }
    proof {
        lemma_head_ws_from_scan(s@, i as int);
    }
    let mut j: usize = n;
    while j > i && is_ws(s.get_char(j - 1))
        invariant
            n == s@.len(),
            i <= j <= n,
            i < n ==> !ws_char(s@[i as int]),
            i < n ==> i < j,
            forall|k: int| j <= k < n ==> ws_char(#[trigger] s@[k]),
        decreases j,
    {
        j = j - 1;
    }
    if i >= j {
        proof {
            assert(i == n);
            assert forall|k: int| 0 <= k < s@.len() implies ws_char(#[trigger] s@[k]) by {}
            lemma_tail_ws_from_scan(s@, 0);
        }
        let r = s.substring_char(0, 0);
        proof {
            assert(r@ =~= trim_seq(s@));
        }
        r
    } else {
        proof {
            assert(!ws_char(s@[j - 1]));
            lemma_tail_ws_from_scan(s@, j as int);
        }
        s.substring_char(i, j)
    }
}

/// `s` with every occurrence of `c` replaced by the sequence `rep`.
pub open spec fn replace_seq(s: Seq<char>, c: char, rep: Seq<char>) -> Seq<char>
    decreases s.len(),
{
    if s.len() == 0 {
        Seq::<char>::empty()
    } else {
        replace_seq(s.drop_last(), c, rep) + (if s.last() == c {
            rep
        } else {
            seq![s.last()]
        })
    }
}

/// Replace every occurrence of the character `c` in `s` with `rep`.
pub fn replace_char(s: &str, c: char, rep: &str) -> (r: String)
    ensures
        r@ == replace_seq(s@, c, rep@),
{
    let n = s.unicode_len();
    let mut out = String::new();
    let mut i: usize = 0;
    while i < n
        invariant
            n == s@.len(),
            0 <= i <= n,
            out@ == replace_seq(s@.subrange(0, i as int), c, rep@),
        decreases n - i,
    {
        let ch = s.get_char(i);
        if ch == c {
            out.append(rep);
        } else {
            let piece = s.substring_char(i, i + 1);
            out.append(piece);
        }
        proof {
            let pre = s@.subrange(0, i as int);
            let cur = s@.subrange(0, i + 1 as int);
            assert(cur.drop_last() =~= pre);
            assert(cur.last() == s@[i as int]);
            assert(out@ =~= replace_seq(cur, c, rep@));
        }
        i = i + 1;
    }
    proof {
        assert(s@.subrange(0, n as int) =~= s@);
    }
    out
}

/// Whether `c` is a decimal digit.
pub open spec fn digit_char(c: char) -> bool {
    '0' <= c && c <= '9'
}

/// Whether `s` is one or more decimal digits.
pub open spec fn all_digits1(s: Seq<char>) -> bool {
    s.len() >= 1 && forall|i: int| 0 <= i < s.len() ==> digit_char(#[trigger] s[i])
}

/// Whether the string is one or more decimal digits (`1*DIGIT`).
pub fn check_all_digits(s: &str) -> (r: bool)
    ensures
        r == all_digits1(s@),
{
    let n = s.unicode_len();
    if n == 0 {
        return false;
    }
    let mut i: usize = 0;
    while i < n
        invariant
            n == s@.len(),
            0 <= i <= n,
            forall|k: int| 0 <= k < i ==> digit_char(#[trigger] s@[k]),
        decreases n - i,
    {
        let c = s.get_char(i);
        if !('0' <= c && c <= '9') {
            return false;
        }
        i = i + 1;
    }
    true
}

/// Whether `s` matches the version format `1*DIGIT [ "." 1*DIGIT ]`.
pub open spec fn version_ok(s: Seq<char>) -> bool {
    all_digits1(s) || (exists|i: int|
        0 <= i < s.len() && s[i] == '.' && all_digits1(s.subrange(0, i)) && all_digits1(
            s.subrange(i + 1, s.len() as int),
        ))
}

/// Whether the string matches `1*DIGIT [ "." 1*DIGIT ]`: a major version,
/// optionally followed by a dot and a minor version.
pub fn check_version(s: &str) -> (r: bool)
    ensures
        r == version_ok(s@),
{
    let n = s.unicode_len();
    match find_char_from(s, '.', 0) {
        None => {
            let r = check_all_digits(s);
            proof {
                if !r {
                    assert forall|i: int|
                        !(0 <= i < s@.len() && s@[i] == '.' && all_digits1(
                            s@.subrange(0, i),
                        ) && all_digits1(s@.subrange(i + 1, s@.len() as int))) by {}
                }
            }
            r
        },
        Some(i) => {
            let major = s.substring_char(0, i);
            let minor = s.substring_char(i + 1, n);
            let r = check_all_digits(major) && check_all_digits(minor);
            proof {
                assert(!digit_char('.'));
                assert(!all_digits1(s@));
                if r {
                    assert(version_ok(s@));
                } else {
                    assert forall|w: int|
                        !(0 <= w < s@.len() && s@[w] == '.' && all_digits1(
                            s@.subrange(0, w),
                        ) && all_digits1(s@.subrange(w + 1, s@.len() as int))) by {
                        if 0 <= w < s@.len() && s@[w] == '.' {
                            if w < i {
                                assert(s@[w] != '.');
                            } else if w > i {
                                assert(s@.subrange(0, w)[i as int] == '.');
                            }
                        }
                    }
                }
            }
            r
        },
    }
}

/// Whether `p` occurs in `s` starting at index `i`.
pub open spec fn match_at(s: Seq<char>, p: Seq<char>, i: int) -> bool {
    0 <= i && i + p.len() <= s.len() && s.subrange(i, i + p.len() as int) == p
}

/// Index of the first occurrence of `p` as a contiguous subsequence of
/// `s`, if any.
pub open spec fn find_sub(s: Seq<char>, p: Seq<char>) -> Option<int>
    decreases s.len(),
{
    if p.len() > s.len() {
        None
    } else if s.subrange(0, p.len() as int) == p {
        Some(0)
    } else if s.len() == 0 {
        None
    } else {
        match find_sub(s.drop_first(), p) {
            None => None,
            Some(j) => Some(1 + j),
        }
    }
}

/// Matching one position further in `s` is matching in `s` without its
/// first character.
proof fn lemma_match_shift(s: Seq<char>, p: Seq<char>, k: int)
    requires
        s.len() >= 1,
        k >= 0,
    ensures
        match_at(s, p, k + 1) == match_at(s.drop_first(), p, k),
{
    if k + 1 + p.len() <= s.len() {
        assert(s.drop_first().subrange(k, k + p.len() as int) =~= s.subrange(
            k + 1,
            k + 1 + p.len() as int,
        ));
    }
}

/// A least match position is what `find_sub` returns.
pub proof fn lemma_find_sub_from_witness(s: Seq<char>, p: Seq<char>, i: int)
    requires
        match_at(s, p, i),
        forall|k: int| 0 <= k < i ==> !match_at(s, p, k),
    ensures
        find_sub(s, p) == Some(i),
    decreases i,
{
    if i == 0 {
        assert(s.subrange(0, p.len() as int) == p);
    } else {
        assert(!match_at(s, p, 0));
        assert(s.subrange(0, p.len() as int) != p);
        lemma_match_shift(s, p, i - 1);
        let r = s.drop_first();
        assert forall|k: int| 0 <= k < i - 1 implies !match_at(r, p, k) by {
            lemma_match_shift(s, p, k);
        }
        lemma_find_sub_from_witness(r, p, i - 1);
    }
}

/// Without any match position, `find_sub` finds nothing.
pub proof fn lemma_find_sub_none(s: Seq<char>, p: Seq<char>)
    requires
        forall|k: int| #![trigger match_at(s, p, k)] !match_at(s, p, k),
    ensures
        find_sub(s, p) == Option::<int>::None,
    decreases s.len(),
{
    assert(!match_at(s, p, 0));
    if p.len() <= s.len() {
        assert(s.subrange(0, p.len() as int) != p);
        if s.len() > 0 {
            let r = s.drop_first();
            assert forall|k: int| #![trigger match_at(r, p, k)] !match_at(r, p, k) by {
                if k >= 0 {
                    lemma_match_shift(s, p, k);
                }
            }
            lemma_find_sub_none(r, p);
        }
    }
}

/// A found occurrence is in bounds.
pub proof fn lemma_find_sub_bounds(s: Seq<char>, p: Seq<char>)
    ensures
        find_sub(s, p) matches Some(i) ==> 0 <= i && i + p.len() <= s.len(),
    decreases s.len(),
{
    if p.len() <= s.len() && s.subrange(0, p.len() as int) != p && s.len() > 0 {
        lemma_find_sub_bounds(s.drop_first(), p);
    }
}

/// Whether `p` occurs in `s` starting at character index `i`.
fn matches_at_index(s: &str, p: &str, i: usize) -> (r: bool)
    requires
        i + p@.len() <= s@.len(),
    ensures
        r == match_at(s@, p@, i as int),
{
    let ns = s.unicode_len();
    let np = p.unicode_len();
    let mut k: usize = 0;
    while k < np
        invariant
            ns == s@.len(),
            np == p@.len(),
            i + np <= ns,
            0 <= k <= np,
            forall|q: int| 0 <= q < k ==> #[trigger] s@[i + q] == p@[q],
        decreases np - k,
    {
        if s.get_char(i + k) != p.get_char(k) {
            proof {
                assert(s@.subrange(i as int, i + np as int)[k as int] != p@[k as int]);
            }
            return false;
        }
        k = k + 1;
    }
    proof {
        assert forall|q: int| 0 <= q < np implies s@.subrange(i as int, i + np as int)[q]
            == p@[q] by {
            assert(s@[i + q] == p@[q]);
        }
        assert(s@.subrange(i as int, i + np as int) =~= p@);
    }
    true
}

/// Index of the first occurrence of the string `p` within the string `s`,
/// if any.
pub fn find_first(s: &str, p: &str) -> (r: Option<usize>)
    ensures
        match r {
            Some(i) => find_sub(s@, p@) == Some(i as int),
            None => find_sub(s@, p@) is None,
        },
{
    let ns = s.unicode_len();
    let np = p.unicode_len();
    if np > ns {
        proof {
            assert forall|k: int| #![trigger match_at(s@, p@, k)] !match_at(s@, p@, k) by {}
            lemma_find_sub_none(s@, p@);
        }
        return None;
    }
    if np == 0 {
        proof {
            assert(s@.subrange(0, 0) =~= p@);
        }
        return Some(0);
    }
    let mut i: usize = 0;
    while i <= ns - np
        invariant
            ns == s@.len(),
            np == p@.len(),
            1 <= np <= ns,
            0 <= i <= ns - np + 1,
            forall|k: int| #![trigger match_at(s@, p@, k)] 0 <= k < i ==> !match_at(s@, p@, k),
        decreases ns - np + 1 - i,
    {
        if matches_at_index(s, p, i) {
            proof {
                lemma_find_sub_from_witness(s@, p@, i as int);
            }
            return Some(i);
        }
        i = i + 1;
    }
    proof {
        assert forall|k: int| #![trigger match_at(s@, p@, k)] !match_at(s@, p@, k) by {
            if 0 <= k < i {
            } else {
            }
        }
        lemma_find_sub_none(s@, p@);
    }
    None
}

/// Remove newline and tab formatting, establishing the basis for
/// reliable error-offset reporting.
pub fn tidy(maybe_messy: &str) -> (r: String)
    ensures
        r@ == tidy_seq(maybe_messy@),
{
    let n = maybe_messy.unicode_len();
    let mut out = String::new();
    let mut i: usize = 0;
    while i < n
        invariant
            n == maybe_messy@.len(),
            0 <= i <= n,
            out@ == tidy_seq(maybe_messy@.subrange(0, i as int)),
        decreases n - i,
    {
        let c = maybe_messy.get_char(i);
        if c != '\n' && c != '\t' {
            let piece = maybe_messy.substring_char(i, i + 1);
            out.append(piece);
        }
        proof {
            let pre = maybe_messy@.subrange(0, i as int);
            let cur = maybe_messy@.subrange(0, i + 1 as int);
            assert(cur.drop_last() =~= pre);
            assert(cur.last() == maybe_messy@[i as int]);
            if keeps(c) {
                assert(out@ =~= tidy_seq(cur));
            } else {
                assert(out@ =~= tidy_seq(cur));
            }
        }
        i = i + 1;
    }
    proof {
        assert(maybe_messy@.subrange(0, n as int) =~= maybe_messy@);
    }
    out
}

} // verus!
