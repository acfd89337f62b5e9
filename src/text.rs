//! Small verified operations on text.
use vstd::prelude::*;
use vstd::std_specs::iter::IteratorSpec;
use vstd::string::*;

verus! {

broadcast use vstd::string::group_string_axioms;

/// The characters of `s`, in order.
pub fn chars_of(s: &str) -> (r: Vec<char>)
    ensures
        r@ == s@,
{
    let mut out: Vec<char> = Vec::new();
    let mut it = s.chars();
    loop
        invariant
            it.obeys_prophetic_iter_laws(),
            out@ + it.remaining() == s@,
            it.decrease() is Some,
        ensures
            out@ == s@,
        decreases it.decrease()->0,
    {
        match it.next() {
            Some(c) => {
                out.push(c);
            },
            None => {
                assert(out@ + it.remaining() =~= out@);
                break;
            },
        }
    }
    out
}

/// Whether two texts hold the same characters.
pub fn text_eq(a: &str, b: &str) -> (r: bool)
    ensures
        r == (a@ == b@),
{
    a.to_owned() == b.to_owned()
}

/// The index of the first `c` in `s` at or after `i`; the length of `s` where there is none.
pub open spec fn index_of(s: Seq<char>, c: char, i: int) -> int
    decreases s.len() - i,
{
    if i < 0 || i >= s.len() {
        s.len() as int
    } else if s[i] == c {
        i
    } else {
        index_of(s, c, i + 1)
    }
}

pub proof fn lemma_index_of_bounds(s: Seq<char>, c: char, i: int)
    requires
        0 <= i,
    ensures
        i <= index_of(s, c, i) <= s.len() || (i > s.len() && index_of(s, c, i) == s.len()),
        index_of(s, c, i) < s.len() ==> s[index_of(s, c, i)] == c,
    decreases s.len() - i,
{
    if i < s.len() && s[i] != c {
        lemma_index_of_bounds(s, c, i + 1);
    }
}

/// The index of the first `c` in `cs` at or after `from`.
pub fn find_char(cs: &Vec<char>, c: char, from: usize) -> (r: usize)
    requires
        from <= cs@.len(),
    ensures
        r as int == index_of(cs@, c, from as int),
        from <= r <= cs@.len(),
{
    let mut i = from;
    while i < cs.len() && cs[i] != c
        invariant
            from <= i <= cs@.len(),
            index_of(cs@, c, from as int) == index_of(cs@, c, i as int),
        decreases cs@.len() - i,
    {
        i = i + 1;
    }
    i
}

/// The characters `from..to` of `s`.
pub fn slice_text(s: &str, from: usize, to: usize) -> (r: String)
    requires
        from <= to <= s@.len(),
    ensures
        r@ == s@.subrange(from as int, to as int),
{
    s.substring_char(from, to).to_owned()
}

/// `s` without each leading repetition of `p`.
pub open spec fn strip_prefix_all(s: Seq<char>, p: Seq<char>) -> Seq<char>
    decreases s.len(),
{
    if p.len() > 0 && s.len() >= p.len() && s.take(p.len() as int) == p {
        strip_prefix_all(s.skip(p.len() as int), p)
    } else {
        s
    }
}

/// Whether `p` stands in `cs` at `at`.
fn occurs_at(cs: &Vec<char>, p: &Vec<char>, at: usize) -> (r: bool)
    requires
        at <= cs@.len(),
    ensures
        r == (cs@.len() - at >= p@.len() && cs@.subrange(at as int, at + p@.len()) == p@),
{
    if cs.len() - at < p.len() {
        return false;
    }
    let n = cs.len();
    let mut k: usize = 0;
    while k < p.len()
        invariant
            n == cs@.len(),
            cs@.len() - at >= p@.len(),
            at + p@.len() <= cs@.len(),
            0 <= k <= p@.len(),
            forall|m: int| 0 <= m < k ==> cs@[at + m] == p@[m],
        decreases p@.len() - k,
    {
        assert(at + k < cs@.len());
        if cs[at + k] != p[k] {
            assert(cs@.subrange(at as int, at + p@.len())[k as int] != p@[k as int]);
            return false;
        }
        k = k + 1;
    }
    assert(cs@.subrange(at as int, at + p@.len()) =~= p@);
    true
}

/// The characters `from..to` of `s`, without each leading repetition of `p`.
pub fn trim_start_text(s: &str, cs: &Vec<char>, from: usize, to: usize, p: &str) -> (r: String)
    requires
        cs@ == s@,
        from <= to <= s@.len(),
    ensures
        r@ == strip_prefix_all(s@.subrange(from as int, to as int), p@),
{
    let pc = chars_of(p);
    let sub = chars_of(s.substring_char(from, to));
    let mut i: usize = 0;
    let n = sub.len();
    assert(sub@.skip(0) =~= sub@);
    while pc.len() > 0 && occurs_at(&sub, &pc, i)
        invariant
            n == sub@.len(),
            from <= to <= s@.len(),
            pc@ == p@,
            sub@ == s@.subrange(from as int, to as int),
            0 <= i <= sub@.len(),
            strip_prefix_all(sub@, p@) == strip_prefix_all(sub@.skip(i as int), p@),
        decreases sub@.len() - i,
    {
        assert(sub@.skip(i as int).take(p@.len() as int) =~= sub@.subrange(i as int, i + p@.len()));
        assert(sub@.skip(i as int).skip(p@.len() as int) =~= sub@.skip(i + p@.len()));
        assert(sub@.len() - i >= p@.len());
        assert(i + pc@.len() <= sub@.len());
        i = i + pc.len();
    }
    proof {
        if pc@.len() > 0 && sub@.len() - i >= p@.len() {
            assert(sub@.skip(i as int).take(p@.len() as int) =~= sub@.subrange(i as int, i + p@.len()));
        }
    }
    slice_text(s, from + i, to)
}

} // verus!
