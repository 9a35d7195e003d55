//! Character-level helpers on text: whitespace trimming and marker search.

use vstd::prelude::*;

verus! {

/// Unicode `White_Space`, the set that `str::trim` removes.
pub open spec fn is_space(c: char) -> bool {
    let v = c as u32;
    (0x09 <= v <= 0x0D) || v == 0x20 || v == 0x85 || v == 0xA0 || v == 0x1680 || (0x2000 <= v
        <= 0x200A) || v == 0x2028 || v == 0x2029 || v == 0x202F || v == 0x205F || v == 0x3000
}

pub open spec fn trim_start_spec(s: Seq<char>) -> Seq<char>
    decreases s.len(),
{
    if s.len() > 0 && is_space(s[0]) {
        trim_start_spec(s.drop_first())
    } else {
        s
    }
}

pub open spec fn trim_end_spec(s: Seq<char>) -> Seq<char>
    decreases s.len(),
{
    if s.len() > 0 && is_space(s.last()) {
        trim_end_spec(s.drop_last())
    } else {
        s
    }
}

/// The text without its leading and trailing whitespace.
pub open spec fn trim_spec(s: Seq<char>) -> Seq<char> {
    trim_end_spec(trim_start_spec(s))
}

/// `m` occurs in `t` starting at position `i`.
pub open spec fn occurs_at(t: Seq<char>, m: Seq<char>, i: int) -> bool {
    0 <= i && i + m.len() <= t.len() && t.subrange(i, i + m.len()) == m
}

/// The last position at or before `k` where `m` occurs in `t`.
pub open spec fn last_occurrence_upto(t: Seq<char>, m: Seq<char>, k: int) -> Option<int>
    decreases k + 1,
{
    if k < 0 {
        None
    } else if occurs_at(t, m, k) {
        Some(k)
    } else {
        last_occurrence_upto(t, m, k - 1)
    }
}

/// The last position where `m` occurs in `t`.
pub open spec fn last_occurrence(t: Seq<char>, m: Seq<char>) -> Option<int> {
    last_occurrence_upto(t, m, t.len() - m.len())
}

/// The first position at or after `k` where `m` occurs in `t`.
pub open spec fn first_occurrence_from(t: Seq<char>, m: Seq<char>, k: int) -> Option<int>
    decreases t.len() + 1 - k,
{
    if k < 0 || k + m.len() > t.len() {
        None
    } else if occurs_at(t, m, k) {
        Some(k)
    } else {
        first_occurrence_from(t, m, k + 1)
    }
}

/// Whether `c` is Unicode whitespace.
pub fn is_space_char(c: char) -> (r: bool)
    ensures
        r == is_space(c),
{
    let v = c as u32;
    (0x09 <= v && v <= 0x0D) || v == 0x20 || v == 0x85 || v == 0xA0 || v == 0x1680 || (0x2000
        <= v && v <= 0x200A) || v == 0x2028 || v == 0x2029 || v == 0x202F || v == 0x205F || v
        == 0x3000
}

/// The characters of a string, in order.
pub fn chars_of(s: &str) -> (r: Vec<char>)
    ensures
        r@ == s@,
{
    let mut v: Vec<char> = Vec::new();
    for c in it: s.chars()
        invariant
            it.seq() == s@,
            v@ == it.seq().subrange(0, it.index() as int),
    {
        v.push(c);
    }
    v
}


/// Where the trimmed text starts and ends within `v`.
pub fn trim_bounds(v: &Vec<char>) -> (r: (usize, usize))
    ensures
        r.0 <= r.1 <= v@.len(),
        v@.subrange(r.0 as int, r.1 as int) == trim_spec(v@),
{
    let n: usize = v.len();
    let mut lo: usize = 0;
    assert(v@.subrange(0, n as int) =~= v@);
    while lo < n && is_space_char(v[lo])
        invariant
            n == v@.len(),
            lo <= n,
            trim_start_spec(v@.subrange(lo as int, n as int)) == trim_start_spec(v@),
        decreases n - lo,
    {
        assert(v@.subrange(lo as int, n as int).drop_first() =~= v@.subrange(lo + 1, n as int));
        lo = lo + 1;
    }
    assert(trim_start_spec(v@.subrange(lo as int, n as int)) == v@.subrange(lo as int, n as int));
    let mut hi: usize = n;
    while hi > lo && is_space_char(v[hi - 1])
        invariant
            n == v@.len(),
            lo <= hi <= n,
            trim_end_spec(v@.subrange(lo as int, hi as int)) == trim_spec(v@),
        decreases hi,
    {
        assert(v@.subrange(lo as int, hi as int).drop_last() =~= v@.subrange(lo as int, hi - 1));
        hi = hi - 1;
    }
    (lo, hi)
}

fn matches_at(t: &Vec<char>, m: &Vec<char>, i: usize) -> (r: bool)
    requires
        i + m@.len() <= t@.len(),
    ensures
        r == occurs_at(t@, m@, i as int),
{
    let n: usize = t.len();
    let mut j: usize = 0;
    while j < m.len()
        invariant
            n == t@.len(),
            i + m@.len() <= t@.len(),
            j <= m@.len(),
            forall|k: int| 0 <= k < j ==> t@[i + k] == m@[k],
        decreases m@.len() - j,
    {
        if t[i + j] != m[j] {
            assert(t@.subrange(i as int, i + m@.len())[j as int] != m@[j as int]);
            return false;
        }
        j = j + 1;
    }
    assert(t@.subrange(i as int, i + m@.len()) =~= m@);
    true
}

/// The last position where `m` occurs in `t`.
pub fn rfind(t: &Vec<char>, m: &Vec<char>) -> (r: Option<usize>)
    ensures
        match r {
            Some(i) => last_occurrence(t@, m@) == Some(i as int),
            None => last_occurrence(t@, m@) is None,
        },
        r matches Some(i) ==> occurs_at(t@, m@, i as int),
{
    proof {
        lemma_last_occurs(t@, m@, t@.len() - m@.len());
    }
    if m.len() > t.len() {
        return None;
    }
    let mut k: usize = t.len() - m.len();
    loop
        invariant
            m@.len() <= t@.len(),
            k <= t@.len() - m@.len(),
            last_occurrence(t@, m@) == last_occurrence_upto(t@, m@, k as int),
        decreases k,
    {
        if matches_at(t, m, k) {
            return Some(k);
        }
        if k == 0 {
            assert(last_occurrence_upto(t@, m@, -1) is None);
            return None;
        }
        k = k - 1;
    }
}

/// The first position at or after `from` where `m` occurs in `t`.
pub fn find_from(t: &Vec<char>, m: &Vec<char>, from: usize) -> (r: Option<usize>)
    ensures
        match r {
            Some(i) => first_occurrence_from(t@, m@, from as int) == Some(i as int),
            None => first_occurrence_from(t@, m@, from as int) is None,
        },
        r matches Some(i) ==> from <= i && occurs_at(t@, m@, i as int),
{
    proof {
        lemma_first_occurs(t@, m@, from as int);
    }
    let mut k: usize = from;
    while k <= t.len() && m.len() <= t.len() - k
        invariant
            from <= k,
            first_occurrence_from(t@, m@, from as int) == first_occurrence_from(t@, m@, k as int),
        decreases t@.len() + 1 - k,
    {
        if matches_at(t, m, k) {
            return Some(k);
        }
        proof {
            if m@.len() == 0 {
                assert(t@.subrange(k as int, k as int) =~= m@);
            }
        }
        k = k + 1;
    }
    None
}

proof fn lemma_last_occurs(t: Seq<char>, m: Seq<char>, k: int)
    ensures
        last_occurrence_upto(t, m, k) matches Some(i) ==> i <= k && occurs_at(t, m, i),
    decreases k + 1,
{
    if k >= 0 && !occurs_at(t, m, k) {
        lemma_last_occurs(t, m, k - 1);
    }
}

proof fn lemma_first_occurs(t: Seq<char>, m: Seq<char>, k: int)
    ensures
        first_occurrence_from(t, m, k) matches Some(i) ==> k <= i && occurs_at(t, m, i),
    decreases t.len() + 1 - k,
{
    if k >= 0 && k + m.len() <= t.len() && !occurs_at(t, m, k) {
        lemma_first_occurs(t, m, k + 1);
    }
}

proof fn lemma_trim_start_push(s: Seq<char>, c: char)
    requires
        is_space(c),
    ensures
        trim_start_spec(s.push(c)) == (if trim_start_spec(s).len() > 0 {
            trim_start_spec(s).push(c)
        } else {
            Seq::<char>::empty()
        }),
    decreases s.len(),
{
    if s.len() > 0 && is_space(s[0]) {
        assert(s.push(c).drop_first() =~= s.drop_first().push(c));
        lemma_trim_start_push(s.drop_first(), c);
        assert(trim_start_spec(s) == trim_start_spec(s.drop_first()));
        assert(trim_start_spec(s.push(c)) == trim_start_spec(s.drop_first().push(c)));
    } else if s.len() == 0 {
        assert(s.push(c).drop_first() =~= Seq::<char>::empty());
        assert(trim_start_spec(Seq::<char>::empty()) == Seq::<char>::empty());
        assert(trim_start_spec(s.push(c)) == trim_start_spec(s.push(c).drop_first()));
    } else {
        assert(s.push(c)[0] == s[0]);
    }
}

/// Appending a whitespace character leaves the trimmed text unchanged.
pub proof fn lemma_trim_push_space(s: Seq<char>, c: char)
    requires
        is_space(c),
    ensures
        trim_spec(s.push(c)) == trim_spec(s),
{
    lemma_trim_start_push(s, c);
    let ts = trim_start_spec(s);
    if ts.len() > 0 {
        assert(ts.push(c).drop_last() =~= ts);
    } else {
        assert(trim_end_spec(ts) == ts);
    }
}

} // verus!
