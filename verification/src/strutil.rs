//! String utilities the resolvers share: first-occurrence substring search
//! and lexicographic ordering of character sequences.

use vstd::prelude::*;

verus! {

/// True when `d` occurs in `s` starting at character index `i`.
pub open spec fn is_match_at(s: Seq<char>, d: Seq<char>, i: int) -> bool {
    &&& 0 <= i
    &&& i + d.len() <= s.len()
    &&& s.subrange(i, i + d.len() as int) == d
}

/// Character index of the first occurrence of `d` in `s`, if `d` occurs at all.
pub open spec fn spec_find(s: Seq<char>, d: Seq<char>) -> Option<int>
    decreases s.len(),
{
    if d.len() > s.len() {
        None
    } else if s.subrange(0, d.len() as int) == d {
        Some(0)
    } else if s.len() == 0 {
        None
    } else {
        match spec_find(s.skip(1), d) {
            Some(i) => Some(i + 1),
            None => None,
        }
    }
}

/// `spec_find` returns the first match: a match where it points, and no match
/// anywhere earlier; `None` only when there is no match at all.
pub proof fn lemma_spec_find(s: Seq<char>, d: Seq<char>)
    ensures
        match spec_find(s, d) {
            Some(i) => is_match_at(s, d, i) && (forall|j: int| 0 <= j < i ==> !is_match_at(s, d, j)),
            None => forall|j: int| !is_match_at(s, d, j),
        },
    decreases s.len(),
{
    if d.len() > s.len() {
    } else if s.subrange(0, d.len() as int) == d {
    } else if s.len() == 0 {
    } else {
        lemma_spec_find(s.skip(1), d);
        assert forall|j: int| 1 <= j implies (is_match_at(s, d, j) == is_match_at(
            s.skip(1),
            d,
            j - 1,
        )) by {
            if j + d.len() <= s.len() {
                assert(s.skip(1).subrange(j - 1, j - 1 + d.len() as int) =~= s.subrange(
                    j,
                    j + d.len() as int,
                ));
            }
        }
        assert(!is_match_at(s, d, 0));
    }
}

/// Finds the character index of the first occurrence of `needle` in `hay`.
pub fn find_substr(hay: &str, needle: &str) -> (r: Option<usize>)
    ensures
        match r {
            Some(i) => spec_find(hay@, needle@) == Some(i as int),
            None => spec_find(hay@, needle@) is None,
        },
{
    proof {
        lemma_spec_find(hay@, needle@);
    }
    let n = hay.unicode_len();
    let m = needle.unicode_len();
    if m > n {
        return None;
    }
    if m == 0 {
        proof {
            assert(hay@.subrange(0, 0) =~= needle@);
        }
        return Some(0);
    }
    let mut i: usize = 0;
    while i <= n - m
        invariant
            1 <= m <= n,
            i <= n - m + 1,
            n == hay@.len(),
            m == needle@.len(),
            forall|j: int| 0 <= j < i ==> !is_match_at(hay@, needle@, j),
        decreases n - m + 1 - i,
    {
        let mut k: usize = 0;
        let mut ok = true;
        while k < m
            invariant
                i + m <= n,
                k <= m,
                n == hay@.len(),
                m == needle@.len(),
                ok ==> forall|t: int| 0 <= t < k ==> hay@[i + t] == needle@[t],
                !ok ==> !is_match_at(hay@, needle@, i as int),
            decreases m - k,
        {
            if hay.get_char(i + k) != needle.get_char(k) {
                proof {
                    if is_match_at(hay@, needle@, i as int) {
                        assert(hay@.subrange(i as int, i + m as int)[k as int] == needle@[
                            k as int
                        ]);
                    }
                }
                ok = false;
                k = m;
            } else {
                k = k + 1;
            }
        }
        if ok {
            proof {
                assert(hay@.subrange(i as int, i + m as int) =~= needle@);
                lemma_spec_find(hay@, needle@);
                match spec_find(hay@, needle@) {
                    Some(fi) => {
                        if fi < i {
                            assert(!is_match_at(hay@, needle@, fi));
                        } else if fi > i {
                            assert(!is_match_at(hay@, needle@, i as int));
                        }
                    },
                    None => {
                        assert(!is_match_at(hay@, needle@, i as int));
                    },
                }
            }
            return Some(i);
        }
        i = i + 1;
    }
    proof {
        assert forall|j: int| !is_match_at(hay@, needle@, j) by {
            if j > n - m {
                assert(!is_match_at(hay@, needle@, j));
            }
        }
        lemma_spec_find(hay@, needle@);
        if spec_find(hay@, needle@) is Some {
            let fi = spec_find(hay@, needle@)->Some_0;
            assert(!is_match_at(hay@, needle@, fi));
        }
    }
    None
}

/// Decides whether two string slices have equal contents.
pub fn str_eq(a: &str, b: &str) -> (r: bool)
    ensures
        r == (a@ == b@),
{
    let sa = a.to_owned();
    let sb = b.to_owned();
    sa == sb
}

/// Lexicographic order on character sequences, comparing code points.
pub open spec fn lex_le(a: Seq<char>, b: Seq<char>) -> bool
    decreases a.len(),
{
    if a.len() == 0 {
        true
    } else if b.len() == 0 {
        false
    } else if (a[0] as int) < (b[0] as int) {
        true
    } else if (a[0] as int) > (b[0] as int) {
        false
    } else {
        lex_le(a.skip(1), b.skip(1))
    }
}

/// `lex_le` is total: of any two sequences, one is less than or equal to the
/// other.
pub proof fn lemma_lex_le_total(a: Seq<char>, b: Seq<char>)
    ensures
        lex_le(a, b) || lex_le(b, a),
    decreases a.len(),
{
    if a.len() == 0 || b.len() == 0 {
    } else if (a[0] as int) == (b[0] as int) {
        lemma_lex_le_total(a.skip(1), b.skip(1));
    }
}

/// `lex_le` is transitive.
pub proof fn lemma_lex_le_trans(a: Seq<char>, b: Seq<char>, c: Seq<char>)
    requires
        lex_le(a, b),
        lex_le(b, c),
    ensures
        lex_le(a, c),
    decreases a.len(),
{
    if a.len() == 0 {
    } else {
        if (a[0] as int) == (b[0] as int) && (b[0] as int) == (c[0] as int) {
            lemma_lex_le_trans(a.skip(1), b.skip(1), c.skip(1));
        }
    }
}

/// Prepending a common prefix to two sequences does not change their order.
pub proof fn lemma_lex_le_common_prefix(p: Seq<char>, a: Seq<char>, b: Seq<char>)
    ensures
        lex_le(p + a, p + b) == lex_le(a, b),
    decreases p.len(),
{
    if p.len() == 0 {
        assert(p + a =~= a);
        assert(p + b =~= b);
    } else {
        assert((p + a).skip(1) =~= p.skip(1) + a);
        assert((p + b).skip(1) =~= p.skip(1) + b);
        lemma_lex_le_common_prefix(p.skip(1), a, b);
    }
}

/// Decides `lex_le` on two string slices.
pub fn str_lex_le(a: &str, b: &str) -> (r: bool)
    ensures
        r == lex_le(a@, b@),
{
    let an = a.unicode_len();
    let bn = b.unicode_len();
    proof {
        assert(a@.skip(0) =~= a@);
        assert(b@.skip(0) =~= b@);
    }
    let mut i: usize = 0;
    loop
        invariant
            i <= an,
            i <= bn,
            an == a@.len(),
            bn == b@.len(),
            lex_le(a@, b@) == lex_le(a@.skip(i as int), b@.skip(i as int)),
        decreases an - i,
    {
        proof {
            assert(a@.skip(i as int).len() == an - i);
            assert(b@.skip(i as int).len() == bn - i);
        }
        if i == an {
            return true;
        }
        if i == bn {
            return false;
        }
        let ca = a.get_char(i);
        let cb = b.get_char(i);
        proof {
            assert(a@.skip(i as int)[0] == ca);
            assert(b@.skip(i as int)[0] == cb);
        }
        if (ca as u32) < (cb as u32) {
            return true;
        }
        if (ca as u32) > (cb as u32) {
            return false;
        }
        proof {
            assert(a@.skip(i as int).skip(1) =~= a@.skip(i as int + 1));
            assert(b@.skip(i as int).skip(1) =~= b@.skip(i as int + 1));
        }
        i = i + 1;
    }
}

/// Index of the first occurrence of `c` in `s`, or the length of `s` when
/// `c` never occurs.
pub open spec fn first_index_of(s: Seq<char>, c: char) -> int
    decreases s.len(),
{
    if s.len() == 0 {
        0
    } else if s[0] == c {
        0
    } else {
        1 + first_index_of(s.skip(1), c)
    }
}

/// `first_index_of` points at the first occurrence: within bounds, at `c`
/// unless at the end, with no occurrence earlier.
pub proof fn lemma_first_index_of(s: Seq<char>, c: char)
    ensures
        0 <= first_index_of(s, c) <= s.len(),
        first_index_of(s, c) < s.len() ==> s[first_index_of(s, c)] == c,
        forall|k: int| 0 <= k < first_index_of(s, c) ==> s[k] != c,
    decreases s.len(),
{
    if s.len() == 0 {
    } else if s[0] == c {
    } else {
        lemma_first_index_of(s.skip(1), c);
        assert forall|k: int| 0 <= k < first_index_of(s, c) implies s[k] != c by {
            if k > 0 {
                assert(s.skip(1)[k - 1] == s[k]);
            }
        }
    }
}

/// Searching for a one-character needle finds exactly the first occurrence
/// of that character.
pub proof fn lemma_find_single_char(s: Seq<char>, c: char)
    ensures
        match spec_find(s, seq![c]) {
            Some(i) => i == first_index_of(s, c) && first_index_of(s, c) < s.len(),
            None => first_index_of(s, c) == s.len(),
        },
{
    lemma_spec_find(s, seq![c]);
    lemma_first_index_of(s, c);
    let fi = first_index_of(s, c);
    match spec_find(s, seq![c]) {
        Some(i) => {
            assert(s.subrange(i, i + 1) == seq![c]);
            assert(s[i] == s.subrange(i, i + 1)[0]);
            if fi < i {
                assert(s.subrange(fi, fi + 1) =~= seq![c]);
                assert(is_match_at(s, seq![c], fi));
            }
            if i < fi {
                assert(s[i] != c);
            }
        },
        None => {
            if fi < s.len() {
                assert(s.subrange(fi, fi + 1) =~= seq![c]);
                assert(is_match_at(s, seq![c], fi));
            }
        },
    }
}

} // verus!
