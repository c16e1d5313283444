//! Verified substring and character search over character sequences,
//! with the lemmas about occurrences in concatenations that the
//! profile-editing proofs need.
use vstd::prelude::*;

verus! {

/// `pat` occurs in `s` starting at index `i`.
pub open spec fn occurs_at(s: Seq<char>, pat: Seq<char>, i: int) -> bool {
    0 <= i && i + pat.len() <= s.len() && s.subrange(i, i + pat.len() as int) == pat
}

/// The first index at or after `i` where `pat` occurs in `s`.
pub open spec fn find_from(s: Seq<char>, pat: Seq<char>, i: nat) -> Option<int>
    decreases s.len() - i,
    when i <= s.len()
{
    if i + pat.len() > s.len() {
        None
    } else if s.subrange(i as int, i + pat.len() as int) == pat {
        Some(i as int)
    } else if pat.len() == 0 {
        Some(i as int)
    } else {
        find_from(s, pat, i + 1)
    }
}

/// The first index where `pat` occurs in `s`.
pub open spec fn find_pat(s: Seq<char>, pat: Seq<char>) -> Option<int> {
    find_from(s, pat, 0)
}

pub proof fn lemma_find_from_props(s: Seq<char>, pat: Seq<char>, i: nat)
    requires
        i <= s.len(),
    ensures
        match find_from(s, pat, i) {
            Some(j) => i <= j && occurs_at(s, pat, j) && (forall|k: int|
                i <= k < j ==> !occurs_at(s, pat, k)),
            None => forall|k: int| i <= k ==> !occurs_at(s, pat, k),
        },
    decreases s.len() - i,
{
    if i + pat.len() > s.len() {
        assert(forall|k: int| i <= k ==> !occurs_at(s, pat, k));
    } else if s.subrange(i as int, i + pat.len() as int) == pat {
        assert(occurs_at(s, pat, i as int));
    } else if pat.len() == 0 {
        assert(s.subrange(i as int, i as int) =~= pat);
    } else {
        lemma_find_from_props(s, pat, i + 1);
        assert(!occurs_at(s, pat, i as int));
    }
}

/// `find_pat` returns exactly the least occurrence.
pub proof fn lemma_find_pat_is(s: Seq<char>, pat: Seq<char>, m: int)
    requires
        occurs_at(s, pat, m),
        forall|k: int| 0 <= k < m ==> !occurs_at(s, pat, k),
    ensures
        find_pat(s, pat) == Some(m),
{
    lemma_find_from_props(s, pat, 0);
    match find_pat(s, pat) {
        Some(j) => {
            if j < m {
                assert(occurs_at(s, pat, j));
                assert(false);
            }
            if m < j {
                assert(!occurs_at(s, pat, m));
                assert(false);
            }
        },
        None => {
            assert(!occurs_at(s, pat, m));
            assert(false);
        },
    }
}

pub proof fn lemma_find_pat_none(s: Seq<char>, pat: Seq<char>)
    requires
        forall|k: int| 0 <= k ==> !occurs_at(s, pat, k),
    ensures
        find_pat(s, pat) is None,
{
    lemma_find_from_props(s, pat, 0);
    match find_pat(s, pat) {
        Some(j) => {
            assert(!occurs_at(s, pat, j));
            assert(false);
        },
        None => {},
    }
}

/// An occurrence wholly inside the left part of a concatenation is an
/// occurrence in the left part, and conversely.
pub proof fn lemma_occurs_left(a: Seq<char>, b: Seq<char>, pat: Seq<char>, j: int)
    requires
        0 <= j,
        j + pat.len() <= a.len(),
    ensures
        occurs_at(a + b, pat, j) <==> occurs_at(a, pat, j),
{
    assert((a + b).subrange(j, j + pat.len() as int) =~= a.subrange(j, j + pat.len() as int));
}

/// An occurrence in the right part of a concatenation, shifted.
pub proof fn lemma_occurs_right(a: Seq<char>, b: Seq<char>, pat: Seq<char>, j: int)
    requires
        0 <= j,
        j + pat.len() <= b.len(),
    ensures
        occurs_at(a + b, pat, a.len() + j) <==> occurs_at(b, pat, j),
{
    assert((a + b).subrange(a.len() + j, a.len() + j + pat.len() as int) =~= b.subrange(
        j,
        j + pat.len() as int,
    ));
}

/// If the left part ends with a newline and the pattern holds none, no
/// occurrence straddles the border of the concatenation.
pub proof fn lemma_no_straddle(a: Seq<char>, b: Seq<char>, pat: Seq<char>, j: int)
    requires
        a.len() > 0 ==> a[a.len() - 1] == '\n',
        forall|t: int| 0 <= t < pat.len() ==> pat[t] != '\n',
    ensures
        occurs_at(a + b, pat, j) ==> !(j < a.len() && j + pat.len() > a.len()),
{
    let s = a + b;
    if occurs_at(s, pat, j) && j < a.len() && j + pat.len() > a.len() {
        let t = a.len() - 1 - j;
        assert(pat[t] == s.subrange(j, j + pat.len() as int)[t]);
        assert(s[a.len() - 1] == '\n');
    }
}

/// Where the left part is clean of the pattern and ends with a newline,
/// searching the concatenation is searching the right part, shifted.
pub proof fn lemma_find_pat_append(a: Seq<char>, b: Seq<char>, pat: Seq<char>)
    requires
        pat.len() > 0,
        a.len() > 0 ==> a[a.len() - 1] == '\n',
        forall|t: int| 0 <= t < pat.len() ==> pat[t] != '\n',
        forall|k: int| 0 <= k ==> !occurs_at(a, pat, k),
    ensures
        find_pat(a + b, pat) == match find_pat(b, pat) {
            Some(j) => Some(a.len() + j),
            None => None,
        },
{
    let s = a + b;
    assert forall|k: int| 0 <= k < a.len() implies !occurs_at(s, pat, k) by {
        if occurs_at(s, pat, k) {
            if k + pat.len() <= a.len() {
                lemma_occurs_left(a, b, pat, k);
            } else {
                lemma_no_straddle(a, b, pat, k);
            }
        }
    }
    lemma_find_from_props(b, pat, 0);
    match find_pat(b, pat) {
        Some(j) => {
            lemma_occurs_right(a, b, pat, j);
            assert forall|k: int| 0 <= k < a.len() + j implies !occurs_at(s, pat, k) by {
                if k >= a.len() {
                    lemma_occurs_right(a, b, pat, k - a.len());
                }
            }
            lemma_find_pat_is(s, pat, a.len() + j);
        },
        None => {
            assert forall|k: int| 0 <= k implies !occurs_at(s, pat, k) by {
                if k >= a.len() && occurs_at(s, pat, k) {
                    if k + pat.len() <= s.len() {
                        lemma_occurs_right(a, b, pat, k - a.len());
                    }
                }
            }
            lemma_find_pat_none(s, pat);
        },
    }
}

/// The first occurrence of `pat` in `s`.
pub fn find_in(s: &Vec<char>, pat: &Vec<char>) -> (r: Option<usize>)
    requires
        pat@.len() > 0,
    ensures
        r matches Some(j) ==> find_pat(s@, pat@) == Some(j as int) && j + pat@.len() <= s@.len(),
        r is None ==> find_pat(s@, pat@) is None,
{
    let n = s.len();
    let m = pat.len();
    if m > n {
        proof {
            lemma_find_from_props(s@, pat@, 0);
        }
        return None;
    }
    let mut i: usize = 0;
    while i <= n - m
        invariant
            m == pat@.len(),
            n == s@.len(),
            0 < m <= n,
            i <= n - m + 1,
            find_from(s@, pat@, 0) == find_from(s@, pat@, i as nat),
        decreases n - i,
    {
        let mut j: usize = 0;
        let mut matched = true;
        while matched && j < m
            invariant
                m == pat@.len(),
                n == s@.len(),
                i + m <= n,
                j <= m,
                matched ==> s@.subrange(i as int, i + j as int) =~= pat@.subrange(0, j as int),
                !matched ==> s@.subrange(i as int, i + m as int) != pat@,
            decreases m - j,
        {
            if s[i + j] != pat[j] {
                proof {
                    let x = s@.subrange(i as int, i + m as int);
                    assert(x[j as int] == s@[i + j]);
                    assert(x != pat@);
                }
                matched = false;
            } else {
                proof {
                    assert(s@.subrange(i as int, i + j + 1 as int) =~= s@.subrange(
                        i as int,
                        i + j as int,
                    ).push(s@[i + j]));
                    assert(pat@.subrange(0, j + 1 as int) =~= pat@.subrange(0, j as int).push(
                        pat@[j as int],
                    ));
                }
            }
            j = j + 1;
        }
        if matched {
            proof {
                assert(s@.subrange(i as int, i + m as int) =~= pat@.subrange(0, m as int));
                assert(pat@.subrange(0, m as int) =~= pat@);
                assert(occurs_at(s@, pat@, i as int));
            }
            return Some(i);
        }
        i = i + 1;
    }
    proof {
        assert(find_from(s@, pat@, i as nat) is None);
    }
    None
}

/// The first index at or after `from` holding character `c`.
pub open spec fn find_char_spec(s: Seq<char>, from: nat, c: char) -> Option<int>
    decreases s.len() - from,
    when from <= s.len()
{
    if from >= s.len() {
        None
    } else if s[from as int] == c {
        Some(from as int)
    } else {
        find_char_spec(s, from + 1, c)
    }
}

pub proof fn lemma_find_char_props(s: Seq<char>, from: nat, c: char)
    requires
        from <= s.len(),
    ensures
        match find_char_spec(s, from, c) {
            Some(j) => from <= j < s.len() && s[j] == c && (forall|k: int|
                from <= k < j ==> s[k] != c),
            None => forall|k: int| from <= k < s.len() ==> s[k] != c,
        },
    decreases s.len() - from,
{
    if from < s.len() && s[from as int] != c {
        lemma_find_char_props(s, from + 1, c);
    }
}

/// The first index at or after `from` holding `c`.
pub fn find_char_from(s: &Vec<char>, from: usize, c: char) -> (r: Option<usize>)
    requires
        from <= s@.len(),
    ensures
        r matches Some(j) ==> find_char_spec(s@, from as nat, c) == Some(j as int) && j
            < s@.len(),
        r is None ==> find_char_spec(s@, from as nat, c) is None,
{
    let mut i: usize = from;
    while i < s.len()
        invariant
            from <= i <= s@.len(),
            find_char_spec(s@, from as nat, c) == find_char_spec(s@, i as nat, c),
        decreases s@.len() - i,
    {
        if s[i] == c {
            return Some(i);
        }
        i = i + 1;
    }
    None
}

/// The last index strictly before `before` holding character `c`.
pub open spec fn rfind_char_spec(s: Seq<char>, before: nat, c: char) -> Option<int>
    decreases before,
    when before <= s.len()
{
    if before == 0 {
        None
    } else if s[before - 1] == c {
        Some(before - 1)
    } else {
        rfind_char_spec(s, (before - 1) as nat, c)
    }
}

pub proof fn lemma_rfind_char_props(s: Seq<char>, before: nat, c: char)
    requires
        before <= s.len(),
    ensures
        match rfind_char_spec(s, before, c) {
            Some(j) => 0 <= j < before && s[j] == c && (forall|k: int|
                j < k < before ==> s[k] != c),
            None => forall|k: int| 0 <= k < before ==> s[k] != c,
        },
    decreases before,
{
    if before > 0 && s[before - 1] != c {
        lemma_rfind_char_props(s, (before - 1) as nat, c);
    }
}

/// The last index strictly before `before` holding `c`.
pub fn rfind_char_before(s: &Vec<char>, before: usize, c: char) -> (r: Option<usize>)
    requires
        before <= s@.len(),
    ensures
        r matches Some(j) ==> rfind_char_spec(s@, before as nat, c) == Some(j as int) && j
            < before,
        r is None ==> rfind_char_spec(s@, before as nat, c) is None,
{
    let mut i: usize = before;
    while i > 0
        invariant
            i <= before <= s@.len(),
            rfind_char_spec(s@, before as nat, c) == rfind_char_spec(s@, i as nat, c),
        decreases i,
    {
        if s[i - 1] == c {
            return Some(i - 1);
        }
        i = i - 1;
    }
    None
}

} // verus!
