//! Plain-text primitives shared by the prompt compiler and the response
//! reducer: literal substring occurrence, whitespace trimming, and the
//! complete-line prefix used when a reply is cut at a stop marker.
use vstd::prelude::*;

verus! {

/// A literal (non-fuzzy) occurrence of `m` in `s` starting at index `i`.
pub open spec fn occurs_at(s: Seq<char>, m: Seq<char>, i: int) -> bool {
    &&& 0 <= i
    &&& i + m.len() <= s.len()
    &&& s.subrange(i, i + m.len()) == m
}

/// `m` occurs somewhere in `s` as a literal substring.
pub open spec fn has_occurrence(s: Seq<char>, m: Seq<char>) -> bool {
    exists|i: int| occurs_at(s, m, i)
}

/// `i` is the leftmost occurrence of `m` in `s`.
pub open spec fn is_first_occurrence(s: Seq<char>, m: Seq<char>, i: int) -> bool {
    &&& occurs_at(s, m, i)
    &&& forall|j: int| 0 <= j < i ==> !occurs_at(s, m, j)
}

/// The index of the leftmost occurrence of `m` in `s`; meaningful only when
/// `has_occurrence(s, m)` holds (see `lemma_first_occurrence_exists`).
pub open spec fn first_occurrence(s: Seq<char>, m: Seq<char>) -> int {
    choose|i: int| is_first_occurrence(s, m, i)
}

/// Below any occurrence there is a leftmost one.
pub proof fn lemma_first_occurrence_from(s: Seq<char>, m: Seq<char>, i: int)
    requires
        occurs_at(s, m, i),
    ensures
        exists|j: int| 0 <= j <= i && is_first_occurrence(s, m, j),
    decreases i,
{
    if exists|j: int| 0 <= j < i && occurs_at(s, m, j) {
        let j = choose|j: int| 0 <= j < i && occurs_at(s, m, j);
        lemma_first_occurrence_from(s, m, j);
    } else {
        assert(is_first_occurrence(s, m, i));
    }
}

/// When `m` occurs at all, `first_occurrence` names its leftmost occurrence.
pub proof fn lemma_first_occurrence_exists(s: Seq<char>, m: Seq<char>)
    requires
        has_occurrence(s, m),
    ensures
        is_first_occurrence(s, m, first_occurrence(s, m)),
        0 <= first_occurrence(s, m),
        first_occurrence(s, m) + m.len() <= s.len(),
{
    let i = choose|i: int| occurs_at(s, m, i);
    lemma_first_occurrence_from(s, m, i);
    assert(exists|j: int| is_first_occurrence(s, m, j));
}

/// The leftmost occurrence is unique.
pub proof fn lemma_first_occurrence_unique(s: Seq<char>, m: Seq<char>, i: int)
    requires
        is_first_occurrence(s, m, i),
    ensures
        first_occurrence(s, m) == i,
{
    assert(has_occurrence(s, m));
    lemma_first_occurrence_exists(s, m);
    let f = first_occurrence(s, m);
    if f < i {
        assert(!occurs_at(s, m, f));
    } else if i < f {
        assert(!occurs_at(s, m, i));
    }
}

/// Appending text on the right cannot create or destroy an occurrence that
/// lies wholly inside the existing text.
pub proof fn lemma_occurs_at_append(s: Seq<char>, t: Seq<char>, m: Seq<char>, i: int)
    requires
        0 <= i,
        i + m.len() <= s.len(),
    ensures
        occurs_at(s + t, m, i) == occurs_at(s, m, i),
{
    assert((s + t).subrange(i, i + m.len()) =~= s.subrange(i, i + m.len()));
}

/// The blank characters removed from the ends of a finished reply.
pub open spec fn is_blank(c: char) -> bool {
    c == ' ' || c == '\n' || c == '\t' || c == '\r'
}

pub open spec fn trim_start(s: Seq<char>) -> Seq<char>
    decreases s.len(),
{
    if s.len() == 0 {
        s
    } else if is_blank(s.first()) {
        trim_start(s.drop_first())
    } else {
        s
    }
}

pub open spec fn trim_end(s: Seq<char>) -> Seq<char>
    decreases s.len(),
{
    if s.len() == 0 {
        s
    } else if is_blank(s.last()) {
        trim_end(s.drop_last())
    } else {
        s
    }
}

/// `s` with leading and trailing blank characters removed.
pub open spec fn trim_spec(s: Seq<char>) -> Seq<char> {
    trim_end(trim_start(s))
}

/// Length of the longest prefix of `s` that ends in a newline (0 when `s`
/// holds no newline): a reply cut at a stop marker is pared back to whole
/// lines, dropping the trailing partial line.
pub open spec fn complete_lines_len(s: Seq<char>) -> int
    decreases s.len(),
{
    if s.len() == 0 {
        0
    } else if s.last() == '\n' {
        s.len() as int
    } else {
        complete_lines_len(s.drop_last())
    }
}

/// The longest prefix of `s` made of whole (newline-terminated) lines.
pub open spec fn complete_lines(s: Seq<char>) -> Seq<char> {
    s.take(complete_lines_len(s))
}

pub proof fn lemma_complete_lines_len_bounds(s: Seq<char>)
    ensures
        0 <= complete_lines_len(s) <= s.len(),
    decreases s.len(),
{
    if s.len() == 0 {
    } else if s.last() == '\n' {
    } else {
        lemma_complete_lines_len_bounds(s.drop_last());
    }
}

/// Concatenation of a sequence of text fragments, in order.
pub open spec fn concat_text(ts: Seq<Seq<char>>) -> Seq<char>
    decreases ts.len(),
{
    if ts.len() == 0 {
        Seq::empty()
    } else {
        concat_text(ts.drop_last()) + ts.last()
    }
}

/// Appending one fragment appends its text.
pub proof fn lemma_concat_text_push(ts: Seq<Seq<char>>, x: Seq<char>)
    ensures
        concat_text(ts.push(x)) == concat_text(ts) + x,
{
    assert(ts.push(x).drop_last() =~= ts);
    assert(ts.push(x).last() == x);
}

/// `concat_text` distributes over appending fragment sequences.
pub proof fn lemma_concat_text_append(a: Seq<Seq<char>>, b: Seq<Seq<char>>)
    ensures
        concat_text(a + b) == concat_text(a) + concat_text(b),
    decreases b.len(),
{
    if b.len() == 0 {
        assert(a + b =~= a);
        assert(concat_text(a) + concat_text(b) =~= concat_text(a));
    } else {
        assert((a + b).drop_last() =~= a + b.drop_last());
        lemma_concat_text_append(a, b.drop_last());
        assert(concat_text(a + b) == concat_text(a) + concat_text(b.drop_last()) + b.last());
        assert(concat_text(a) + concat_text(b.drop_last()) + b.last() =~= concat_text(a) + (
        concat_text(b.drop_last()) + b.last()));
    }
}

/// True exactly when `m` occurs in `v` at index `j`.
pub fn occurs_here(v: &Vec<char>, m: &Vec<char>, j: usize) -> (r: bool)
    requires
        j + m@.len() <= v@.len(),
    ensures
        r == occurs_at(v@, m@, j as int),
{
    let vlen = v.len();
    let mut t: usize = 0;
    while t < m.len()
        invariant
            vlen == v@.len(),
            j + m@.len() <= v@.len(),
            0 <= t <= m@.len(),
            forall|k: int| 0 <= k < t ==> v@[j + k] == m@[k],
        decreases m@.len() - t,
    {
        if v[j + t] != m[t] {
            proof {
                assert(v@.subrange(j as int, j + m@.len())[t as int] == v@[j + t]);
            }
            return false;
        }
        t += 1;
    }
    proof {
        assert(v@.subrange(j as int, j + m@.len()) =~= m@);
    }
    true
}

/// Length of the longest whole-lines prefix of `v`.
pub fn complete_len(v: &Vec<char>) -> (j: usize)
    ensures
        j == complete_lines_len(v@),
{
    let mut j: usize = v.len();
    proof {
        assert(v@.take(v@.len() as int) =~= v@);
    }
    while j > 0 && v[j - 1] != '\n'
        invariant
            0 <= j <= v@.len(),
            complete_lines_len(v@) == complete_lines_len(v@.take(j as int)),
        decreases j,
    {
        proof {
            assert(v@.take(j as int).drop_last() =~= v@.take(j - 1));
        }
        j -= 1;
    }
    proof {
        if j == 0 {
            assert(v@.take(0) =~= Seq::<char>::empty());
        }
    }
    j
}

pub fn is_blank_char(c: char) -> (r: bool)
    ensures
        r == is_blank(c),
{
    c == ' ' || c == '\n' || c == '\t' || c == '\r'
}

/// Relies on std's `String::push`: appends exactly the given character at the
/// end of the string.
#[verifier::external_body]
fn push_char(s: &mut String, c: char)
    ensures
        final(s)@ == old(s)@.push(c),
{
    s.push(c);
}

/// The characters of `v@.take(end)` with leading and trailing blanks removed,
/// collected into a `String`.
pub fn trimmed_string(v: &Vec<char>, end: usize) -> (s: String)
    requires
        end <= v@.len(),
    ensures
        s@ == trim_spec(v@.take(end as int)),
{
    let ghost w = v@.take(end as int);
    proof {
        assert(w.skip(0) =~= w);
    }
    let mut lo: usize = 0;
    while lo < end && is_blank_char(v[lo])
        invariant
            end <= v@.len(),
            w == v@.take(end as int),
            0 <= lo <= end,
            trim_start(w) == trim_start(w.skip(lo as int)),
        decreases end - lo,
    {
        proof {
            assert(w.skip(lo as int).drop_first() =~= w.skip(lo + 1));
        }
        lo += 1;
    }
    proof {
        if lo == end {
            assert(w.skip(lo as int) =~= Seq::<char>::empty());
        }
        assert(trim_start(w) == w.skip(lo as int));
        assert(w.skip(lo as int) =~= w.subrange(lo as int, end as int));
    }
    let mut hi: usize = end;
    while hi > lo && is_blank_char(v[hi - 1])
        invariant
            end <= v@.len(),
            w == v@.take(end as int),
            0 <= lo <= hi <= end,
            trim_end(w.subrange(lo as int, end as int)) == trim_end(
                w.subrange(lo as int, hi as int),
            ),
        decreases hi,
    {
        proof {
            assert(w.subrange(lo as int, hi as int).drop_last() =~= w.subrange(lo as int, hi - 1));
        }
        hi -= 1;
    }
    proof {
        assert(trim_spec(w) == w.subrange(lo as int, hi as int));
    }
    let mut s = String::new();
    let mut k: usize = lo;
    while k < hi
        invariant
            end <= v@.len(),
            w == v@.take(end as int),
            lo <= k <= hi <= end,
            s@ == w.subrange(lo as int, k as int),
        decreases hi - k,
    {
        push_char(&mut s, v[k]);
        proof {
            assert(w.subrange(lo as int, k + 1) =~= w.subrange(lo as int, k as int).push(
                w[k as int],
            ));
        }
        k += 1;
    }
    s
}

/// The characters of `s`, in order, as a vector.
pub fn str_chars(s: &str) -> (v: Vec<char>)
    ensures
        v@ == s@,
{
    let n = s.unicode_len();
    let mut v: Vec<char> = Vec::new();
    let mut k: usize = 0;
    while k < n
        invariant
            n == s@.len(),
            0 <= k <= n,
            v@ == s@.take(k as int),
        decreases n - k,
    {
        let c = s.get_char(k);
        v.push(c);
        proof {
            assert(s@.take(k + 1) =~= s@.take(k as int).push(s@[k as int]));
        }
        k += 1;
    }
    proof {
        assert(s@.take(n as int) =~= s@);
    }
    v
}

} // verus!
