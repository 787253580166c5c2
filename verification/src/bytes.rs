use vstd::prelude::*;

verus! {

/// ASCII whitespace, as the request tokenizer and `trim` understand it:
/// space and the control characters HT, LF, VT, FF, CR.
pub open spec fn is_space(b: u8) -> bool {
    b == 32 || (9 <= b && b <= 13)
}

pub fn byte_is_space(b: u8) -> (r: bool)
    ensures
        r == is_space(b),
{
    b == 32 || (9 <= b && b <= 13)
}

/// ASCII lower-casing of a single byte; bytes outside A-Z pass unchanged.
pub open spec fn lower(b: u8) -> u8 {
    if 65 <= b && b <= 90 {
        (b + 32) as u8
    } else {
        b
    }
}

pub open spec fn lower_seq(s: Seq<u8>) -> Seq<u8> {
    s.map_values(|b: u8| lower(b))
}

pub fn lower_byte(b: u8) -> (r: u8)
    ensures
        r == lower(b),
{
    if 65 <= b && b <= 90 {
        b + 32
    } else {
        b
    }
}

/// Copy of `v[a..b]`.
pub fn sub_vec(v: &Vec<u8>, a: usize, b: usize) -> (r: Vec<u8>)
    requires
        a <= b <= v@.len(),
    ensures
        r@ == v@.subrange(a as int, b as int),
{
    let mut r: Vec<u8> = Vec::new();
    let mut i: usize = a;
    while i < b
        invariant
            a <= i <= b <= v@.len(),
            r@ == v@.subrange(a as int, i as int),
        decreases b - i,
    {
        r.push(v[i]);
        proof {
            assert(v@.subrange(a as int, i + 1 as int) =~= v@.subrange(a as int, i as int).push(
                v@[i as int],
            ));
        }
        i += 1;
    }
    r
}

/// Whether the pattern `p` occurs in `s` starting at position `i`.
pub open spec fn match_at(s: Seq<u8>, i: int, p: Seq<u8>) -> bool {
    0 <= i && i + p.len() <= s.len() && s.subrange(i, i + p.len()) == p
}

pub fn has_at(v: &Vec<u8>, i: usize, p: &Vec<u8>) -> (r: bool)
    requires
        i <= v@.len(),
    ensures
        r == match_at(v@, i as int, p@),
{
    if v.len() - i < p.len() {
        return false;
    }
    let mut k: usize = 0;
    while k < p.len()
        invariant
            0 <= k <= p@.len(),
            i + p@.len() <= v@.len(),
            v@.len() <= usize::MAX,
            forall|j: int| 0 <= j < k ==> v@[i + j] == p@[j],
        decreases p@.len() - k,
    {
        if v[i + k] != p[k] {
            proof {
                assert(v@.subrange(i as int, i + p@.len())[k as int] == v@[i + k]);
            }
            return false;
        }
        k += 1;
    }
    proof {
        assert(v@.subrange(i as int, i + p@.len()) =~= p@);
    }
    true
}

/// The sequence with leading ASCII whitespace removed.
pub open spec fn trim_start(s: Seq<u8>) -> Seq<u8>
    decreases s.len(),
{
    if s.len() > 0 && is_space(s.first()) {
        trim_start(s.drop_first())
    } else {
        s
    }
}

/// The sequence with trailing ASCII whitespace removed.
pub open spec fn trim_end(s: Seq<u8>) -> Seq<u8>
    decreases s.len(),
{
    if s.len() > 0 && is_space(s.last()) {
        trim_end(s.drop_last())
    } else {
        s
    }
}

/// The sequence with whitespace removed from both ends.
pub open spec fn trim(s: Seq<u8>) -> Seq<u8> {
    trim_end(trim_start(s))
}

proof fn lemma_trim_start_at(s: Seq<u8>, lo: int)
    requires
        0 <= lo <= s.len(),
        forall|j: int| 0 <= j < lo ==> is_space(s[j]),
        lo < s.len() ==> !is_space(s[lo]),
    ensures
        trim_start(s) == s.subrange(lo, s.len() as int),
    decreases lo,
{
    if lo == 0 {
        if s.len() == 0 || !is_space(s.first()) {
            assert(s.subrange(0, s.len() as int) =~= s);
        }
    } else {
        let t = s.drop_first();
        assert(forall|j: int| 0 <= j < lo - 1 ==> is_space(t[j]));
        lemma_trim_start_at(t, lo - 1);
        assert(t.subrange(lo - 1, t.len() as int) =~= s.subrange(lo, s.len() as int));
    }
}

proof fn lemma_trim_end_at(s: Seq<u8>, hi: int)
    requires
        0 <= hi <= s.len(),
        forall|j: int| hi <= j < s.len() ==> is_space(s[j]),
        hi > 0 ==> !is_space(s[hi - 1]),
    ensures
        trim_end(s) == s.subrange(0, hi),
    decreases s.len(),
{
    if hi == s.len() {
        if s.len() == 0 || !is_space(s.last()) {
            assert(s.subrange(0, hi) =~= s);
        }
    } else {
        let t = s.drop_last();
        lemma_trim_end_at(t, hi);
        assert(t.subrange(0, hi) =~= s.subrange(0, hi));
    }
}

pub fn trim_vec(v: &Vec<u8>) -> (r: Vec<u8>)
    ensures
        r@ == trim(v@),
{
    let mut lo: usize = 0;
    while lo < v.len() && byte_is_space(v[lo])
        invariant
            0 <= lo <= v@.len(),
            forall|j: int| 0 <= j < lo ==> is_space(v@[j]),
        decreases v@.len() - lo,
    {
        lo += 1;
    }
    proof {
        lemma_trim_start_at(v@, lo as int);
    }
    if lo == v.len() {
        // all whitespace
        proof {
            assert(v@.subrange(lo as int, v@.len() as int) =~= Seq::<u8>::empty());
        }
        let r: Vec<u8> = Vec::new();
        return r;
    }
    let mut hi: usize = v.len();
    while hi > lo && byte_is_space(v[hi - 1])
        invariant
            lo <= hi <= v@.len(),
            forall|j: int| hi <= j < v@.len() ==> is_space(v@[j]),
        decreases hi,
    {
        hi -= 1;
    }
    proof {
        let t = v@.subrange(lo as int, v@.len() as int);
        lemma_trim_end_at(t, hi - lo);
        assert(t.subrange(0, hi - lo) =~= v@.subrange(lo as int, hi as int));
    }
    sub_vec(v, lo, hi)
}

/// The line with one trailing carriage return removed, if it has one.
pub open spec fn strip_cr(s: Seq<u8>) -> Seq<u8> {
    if s.len() > 0 && s.last() == 13 {
        s.drop_last()
    } else {
        s
    }
}

pub fn strip_cr_vec(v: &Vec<u8>) -> (r: Vec<u8>)
    ensures
        r@ == strip_cr(v@),
{
    if v.len() > 0 && v[v.len() - 1] == 13 {
        proof {
            assert(v@.subrange(0, v@.len() - 1) =~= v@.drop_last());
        }
        sub_vec(v, 0, v.len() - 1)
    } else {
        proof {
            assert(v@.subrange(0, v@.len() as int) =~= v@);
        }
        sub_vec(v, 0, v.len())
    }
}

/// Equality of the byte contents of two vectors.
pub fn vecs_equal(a: &Vec<u8>, b: &Vec<u8>) -> (r: bool)
    ensures
        r == (a@ == b@),
{
    if a.len() != b.len() {
        return false;
    }
    let r = has_at(a, 0, b);
    proof {
        assert(a@.subrange(0, b@.len() as int) =~= a@);
    }
    r
}

/// Whether `v` begins with `p`.
pub fn starts_with(v: &Vec<u8>, p: &Vec<u8>) -> (r: bool)
    ensures
        r == p@.is_prefix_of(v@),
{
    let r = has_at(v, 0, p);
    proof {
        if match_at(v@, 0, p@) {
            assert(p@ =~= v@.take(p@.len() as int));
        }
        if p@.is_prefix_of(v@) {
            assert(v@.subrange(0, p@.len() as int) =~= p@);
        }
    }
    r
}

/// Leftmost non-overlapping split of `s` on the separator `p`, as std's
/// `split` yields the pieces: the scan stands at `i`, the piece being read
/// began at `start`. Empty pieces are kept.
pub open spec fn split_scan(s: Seq<u8>, p: Seq<u8>, start: int, i: int) -> Seq<Seq<u8>>
    decreases s.len() - i,
{
    if p.len() == 0 || !(0 <= start <= i <= s.len()) {
        seq![]
    } else if i + p.len() > s.len() {
        seq![s.subrange(start, s.len() as int)]
    } else if s.subrange(i, i + p.len()) == p {
        seq![s.subrange(start, i)] + split_scan(s, p, i + p.len(), i + p.len())
    } else {
        split_scan(s, p, start, i + 1)
    }
}

/// The pieces of `s` split on `p`.
pub open spec fn split_on(s: Seq<u8>, p: Seq<u8>) -> Seq<Seq<u8>> {
    split_scan(s, p, 0, 0)
}

pub fn split_vec(v: &Vec<u8>, p: &Vec<u8>) -> (r: Vec<Vec<u8>>)
    requires
        p@.len() >= 1,
    ensures
        r@.map_values(|x: Vec<u8>| x@) == split_on(v@, p@),
{
    let mut r: Vec<Vec<u8>> = Vec::new();
    let mut start: usize = 0;
    let mut i: usize = 0;
    while p.len() <= v.len() - i && i < v.len()
        invariant
            0 <= start <= i <= v@.len(),
            1 <= p@.len(),
            split_on(v@, p@) == r@.map_values(|x: Vec<u8>| x@) + split_scan(
                v@,
                p@,
                start as int,
                i as int,
            ),
        decreases v@.len() - i,
    {
        if has_at(v, i, p) {
            let ghost m0 = r@.map_values(|x: Vec<u8>| x@);
            let piece = sub_vec(v, start, i);
            r.push(piece);
            proof {
                assert(r@.map_values(|x: Vec<u8>| x@) =~= m0.push(v@.subrange(
                    start as int,
                    i as int,
                )));
                assert(m0 + (seq![v@.subrange(start as int, i as int)] + split_scan(
                    v@,
                    p@,
                    i + p@.len(),
                    i + p@.len(),
                )) =~= r@.map_values(|x: Vec<u8>| x@) + split_scan(
                    v@,
                    p@,
                    i + p@.len(),
                    i + p@.len(),
                ));
            }
            i = i + p.len();
            start = i;
        } else {
            i = i + 1;
        }
    }
    let ghost m0 = r@.map_values(|x: Vec<u8>| x@);
    let last = sub_vec(v, start, v.len());
    r.push(last);
    proof {
        assert(split_scan(v@, p@, start as int, i as int) =~= seq![v@.subrange(
            start as int,
            v@.len() as int,
        )]);
        assert(r@.map_values(|x: Vec<u8>| x@) =~= m0 + seq![v@.subrange(
            start as int,
            v@.len() as int,
        )]);
    }
    r
}

/// The first piece that begins with `p`, scanning left to right.
pub open spec fn first_with_prefix(lines: Seq<Seq<u8>>, p: Seq<u8>) -> Option<Seq<u8>>
    decreases lines.len(),
{
    if lines.len() == 0 {
        None
    } else if p.is_prefix_of(lines.first()) {
        Some(lines.first())
    } else {
        first_with_prefix(lines.drop_first(), p)
    }
}

proof fn lemma_first_with_prefix_skip(lines: Seq<Seq<u8>>, p: Seq<u8>, k: int)
    requires
        0 <= k <= lines.len(),
        forall|j: int| 0 <= j < k ==> !p.is_prefix_of(#[trigger] lines[j]),
    ensures
        first_with_prefix(lines, p) == first_with_prefix(lines.skip(k), p),
    decreases k,
{
    if k == 0 {
        assert(lines.skip(0) =~= lines);
    } else {
        assert(!p.is_prefix_of(lines[0]));
        lemma_first_with_prefix_skip(lines.drop_first(), p, k - 1);
        assert(lines.drop_first().skip(k - 1) =~= lines.skip(k));
    }
}

/// Index of the first line beginning with `p`, matching `first_with_prefix`
/// on the lines' contents.
pub fn find_line_with_prefix(lines: &Vec<Vec<u8>>, p: &Vec<u8>) -> (r: Option<usize>)
    ensures
        match r {
            Some(k) => k < lines@.len() && p@.is_prefix_of(lines@[k as int]@)
                && first_with_prefix(lines@.map_values(|x: Vec<u8>| x@), p@) == Some(
                lines@[k as int]@,
            ),
            None => first_with_prefix(lines@.map_values(|x: Vec<u8>| x@), p@) is None,
        },
{
    let ghost ls = lines@.map_values(|x: Vec<u8>| x@);
    let mut k: usize = 0;
    while k < lines.len()
        invariant
            0 <= k <= lines@.len(),
            ls == lines@.map_values(|x: Vec<u8>| x@),
            forall|j: int| 0 <= j < k ==> !p@.is_prefix_of(#[trigger] ls[j]),
        decreases lines@.len() - k,
    {
        if has_at(&lines[k], 0, p) {
            proof {
                lemma_first_with_prefix_skip(ls, p@, k as int);
                assert(ls.skip(k as int).first() == ls[k as int]);
            }
            return Some(k);
        }
        proof {
            assert(ls[k as int] == lines@[k as int]@);
        }
        k += 1;
    }
    proof {
        lemma_first_with_prefix_skip(ls, p@, k as int);
        assert(ls.skip(k as int).len() == 0);
    }
    None
}

} // verus!
