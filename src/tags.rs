//! Ordering tag names: semantic versions first, newest first, then the rest.
use vstd::prelude::*;
use vstd::string::*;
use std::cmp::Ordering;
use crate::text::chars_of;

verus! {

broadcast use vstd::seq_lib::group_to_multiset_ensures, vstd::seq_lib::to_multiset_insert;

/// Whether `s` is a semantic version, as semver reads it.
pub uninterp spec fn semver_valid(s: Seq<char>) -> bool;

/// How two semantic versions compare, by semver's order.
pub uninterp spec fn semver_cmp(a: Seq<char>, b: Seq<char>) -> Ordering;

/// Relies on `semver::Version::parse`: whether the text parses as a version.
#[verifier::external_body]
fn version_parses(s: &str) -> (r: bool)
    ensures
        r == semver_valid(s@),
{
    semver::Version::parse(s).is_ok()
}

/// Relies on `semver::Version::parse` and on `Ord::cmp` of `semver::Version`,
/// which, as `Ord` requires, answers the swapped question with the reversed
/// order.
#[verifier::external_body]
fn version_cmp(a: &str, b: &str) -> (r: Ordering)
    requires
        semver_valid(a@),
        semver_valid(b@),
    ensures
        r == semver_cmp(a@, b@),
        (r == Ordering::Greater) == (semver_cmp(b@, a@) == Ordering::Less),
        (r == Ordering::Less) == (semver_cmp(b@, a@) == Ordering::Greater),
{
    semver::Version::parse(a).unwrap().cmp(&semver::Version::parse(b).unwrap())
}

/// `s` without its leading `v` characters.
pub open spec fn strip_v(s: Seq<char>) -> Seq<char>
    decreases s.len(),
{
    if s.len() > 0 && s[0] == 'v' {
        strip_v(s.drop_first())
    } else {
        s
    }
}

/// Whether a tag names a semantic version, with or without leading `v`.
pub open spec fn is_version_tag(t: Seq<char>) -> bool {
    semver_valid(strip_v(t))
}

/// Plain lexical order on characters.
pub open spec fn lex_lt(a: Seq<char>, b: Seq<char>) -> bool
    decreases a.len(),
{
    if a.len() == 0 {
        b.len() > 0
    } else if b.len() == 0 {
        false
    } else if a[0] != b[0] {
        a[0] < b[0]
    } else {
        lex_lt(a.drop_first(), b.drop_first())
    }
}

/// Whether tag `a` goes before tag `b`: versions before other tags, newer
/// versions before older ones, other tags in descending lexical order.
pub open spec fn tag_before(a: Seq<char>, b: Seq<char>) -> bool {
    if is_version_tag(a) && is_version_tag(b) {
        semver_cmp(strip_v(a), strip_v(b)) == Ordering::Greater
    } else if is_version_tag(a) {
        true
    } else if is_version_tag(b) {
        false
    } else {
        lex_lt(b, a)
    }
}

/// No tag is followed by one that should go before it.
pub open spec fn tags_ordered(s: Seq<Seq<char>>) -> bool {
    forall|k: int| 0 <= k < s.len() - 1 ==> !tag_before(#[trigger] s[k + 1], s[k])
}

pub open spec fn texts(v: Seq<String>) -> Seq<Seq<char>> {
    v.map_values(|t: String| t@)
}

proof fn lemma_lex_lt_asymmetric(a: Seq<char>, b: Seq<char>)
    ensures
        lex_lt(a, b) ==> !lex_lt(b, a),
    decreases a.len(),
{
    if a.len() > 0 && b.len() > 0 && a[0] == b[0] {
        lemma_lex_lt_asymmetric(a.drop_first(), b.drop_first());
    }
}

/// The text of `s` without its leading `v` characters.
pub fn trim_v(s: &str) -> (r: String)
    ensures
        r@ == strip_v(s@),
{
    let n = s.unicode_len();
    let mut i: usize = 0;
    assert(s@.skip(0) =~= s@);
    while i < n && s.get_char(i) == 'v'
        invariant
            n == s@.len(),
            0 <= i <= n,
            strip_v(s@) == strip_v(s@.skip(i as int)),
        decreases n - i,
    {
        assert(s@.skip(i as int).drop_first() =~= s@.skip(i + 1));
        i = i + 1;
    }
    proof {
        if i < n {
            assert(s@.skip(i as int)[0] == s@[i as int]);
        }
    }
    s.substring_char(i, n).to_owned()
}

/// Whether `a` comes before `b` in plain lexical order.
pub fn lex_less(a: &Vec<char>, b: &Vec<char>) -> (r: bool)
    ensures
        r == lex_lt(a@, b@),
{
    let mut i: usize = 0;
    assert(a@.skip(0) =~= a@);
    assert(b@.skip(0) =~= b@);
    while i < a.len() && i < b.len() && a[i] == b[i]
        invariant
            0 <= i <= a.len(),
            i <= b.len(),
            lex_lt(a@, b@) == lex_lt(a@.skip(i as int), b@.skip(i as int)),
        decreases a.len() - i,
    {
        assert(a@.skip(i as int).drop_first() =~= a@.skip(i + 1));
        assert(b@.skip(i as int).drop_first() =~= b@.skip(i + 1));
        i = i + 1;
    }
    proof {
        if i < a.len() {
            assert(a@.skip(i as int)[0] == a@[i as int]);
        }
        if i < b.len() {
            assert(b@.skip(i as int)[0] == b@[i as int]);
        }
    }
    if i == a.len() {
        i < b.len()
    } else if i == b.len() {
        false
    } else {
        a[i] < b[i]
    }
}

/// A tag with what its ordering reads of it.
struct TagKey {
    text: String,
    chars: Vec<char>,
    stripped: String,
    version: bool,
}

impl TagKey {
    spec fn wf(&self) -> bool {
        &&& self.chars@ == self.text@
        &&& self.stripped@ == strip_v(self.text@)
        &&& self.version == is_version_tag(self.text@)
    }

    fn new(text: String) -> (r: TagKey)
        ensures
            r.wf(),
            r.text == text,
    {
        let chars = chars_of(text.as_str());
        let stripped = trim_v(text.as_str());
        let version = version_parses(stripped.as_str());
        TagKey { text, chars, stripped, version }
    }

    /// Whether this tag goes before `other`; where both are versions, also
    /// that `other` does not go before this one.
    fn before(&self, other: &TagKey) -> (r: bool)
        requires
            self.wf(),
            other.wf(),
        ensures
            r == tag_before(self.text@, other.text@),
            r ==> !tag_before(other.text@, self.text@),
    {
        if self.version && other.version {
            match version_cmp(self.stripped.as_str(), other.stripped.as_str()) {
                Ordering::Greater => true,
                _ => false,
            }
        } else if self.version {
            true
        } else if other.version {
            false
        } else {
            proof {
                lemma_lex_lt_asymmetric(other.text@, self.text@);
            }
            lex_less(&other.chars, &self.chars)
        }
    }
}

spec fn key_texts(v: Seq<TagKey>) -> Seq<Seq<char>> {
    v.map_values(|k: TagKey| k.text@)
}

/// Orders tags: those that parse as semantic versions (a leading `v` aside)
/// first, newest first; then the others, in descending lexical order.
pub fn sort_tags(tags: Vec<String>) -> (r: Vec<String>)
    ensures
        texts(r@).to_multiset() == texts(tags@).to_multiset(),
        tags_ordered(texts(r@)),
{
    let ghost input = texts(tags@);
    let mut sorted: Vec<TagKey> = Vec::new();
    let mut rest = tags;

    let ghost total = rest@.len();
    // Taking from the back keeps each step a single `pop`.
    while rest.len() > 0
        invariant
            texts(rest@) == input.take(rest@.len() as int),
            rest@.len() <= input.len(),
            input.len() == total,
            forall|i: int| 0 <= i < sorted@.len() ==> (#[trigger] sorted@[i]).wf(),
            key_texts(sorted@).to_multiset() == input.skip(rest@.len() as int).to_multiset(),
            tags_ordered(key_texts(sorted@)),
        decreases rest@.len(),
    {
        let ghost before_rest = rest@;
        let t = rest.pop().unwrap();
        let ghost n = before_rest.len() as int;
        proof {
            assert(texts(before_rest)[n - 1] == t@);
            assert(texts(rest@) =~= input.take(n - 1));
            assert(input.skip(n - 1) =~= input.skip(n).insert(0, t@));
        }
        let key = TagKey::new(t);
        let mut j: usize = 0;
        while j < sorted.len() && !key.before(&sorted[j])
            invariant
                0 <= j <= sorted@.len(),
                key.wf(),
                forall|i: int| 0 <= i < sorted@.len() ==> (#[trigger] sorted@[i]).wf(),
                forall|m: int| 0 <= m < j ==> !tag_before(key.text@, #[trigger] sorted@[m].text@),
            decreases sorted@.len() - j,
        {
            j = j + 1;
        }
        let ghost old_sorted = sorted@;
        let ghost x = key.text@;
        proof {
            if j < sorted@.len() {
                assert(tag_before(x, sorted@[j as int].text@));
                assert(!tag_before(sorted@[j as int].text@, x));
            }
        }
        sorted.insert(j, key);
        proof {
            let ks = key_texts(sorted@);
            let ko = key_texts(old_sorted);
            assert(ks =~= ko.insert(j as int, x));
            assert forall|i: int| 0 <= i < sorted@.len() implies (#[trigger] sorted@[i]).wf() by {
                if i < j {
                    assert(sorted@[i] == old_sorted[i]);
                } else if i > j {
                    assert(sorted@[i] == old_sorted[i - 1]);
                }
            }
            assert forall|k: int| 0 <= k < ks.len() - 1 implies !tag_before(#[trigger] ks[k + 1], ks[k]) by {
                if k + 1 < j {
                    assert(ks[k + 1] == ko[k + 1] && ks[k] == ko[k]);
                    assert(!tag_before(ko[k + 1], ko[k]));
                } else if k + 1 == j {
                    assert(ko[k] == old_sorted[k].text@);
                    assert(ks[k + 1] == x && ks[k] == ko[k]);
                    assert(!tag_before(x, old_sorted[k].text@));
                } else if k == j {
                    assert(ko[k] == old_sorted[k].text@);
                    assert(ks[k] == x && ks[k + 1] == ko[k]);
                } else {
                    assert(ks[k + 1] == ko[k] && ks[k] == ko[k - 1]);
                    assert(!tag_before(ko[(k - 1) + 1], ko[k - 1]));
                }
            }
        }

    }
    assert(input.skip(0) =~= input);
    let mut out: Vec<String> = Vec::new();
    let mut i: usize = 0;
    while i < sorted.len()
        invariant
            0 <= i <= sorted@.len(),
            texts(out@) == key_texts(sorted@).take(i as int),
        decreases sorted@.len() - i,
    {
        assert(key_texts(sorted@)[i as int] == sorted@[i as int].text@);
        let ghost prev = out@;
        let c: String = sorted[i].text.clone();
        assert(c@ == sorted@[i as int].text@);
        out.push(c);
        assert(out@ == prev.push(c));
        assert(texts(out@) =~= texts(prev).push(c@));
        assert(texts(out@) =~= key_texts(sorted@).take(i + 1));
        i = i + 1;
    }
    assert(key_texts(sorted@).take(i as int) =~= key_texts(sorted@));
    out
}

proof fn lemma_lex_ge_transitive(a: Seq<char>, b: Seq<char>, c: Seq<char>)
    requires
        !lex_lt(a, b),
        !lex_lt(b, c),
    ensures
        !lex_lt(a, c),
    decreases a.len(),
{
    if a.len() > 0 && b.len() > 0 && c.len() > 0 && a[0] == b[0] && b[0] == c[0] {
        lemma_lex_ge_transitive(a.drop_first(), b.drop_first(), c.drop_first());
    }
}

/// In an ordered list of tags every version comes before every other tag.
pub proof fn lemma_ordered_versions_first(s: Seq<Seq<char>>, i: int, j: int)
    requires
        tags_ordered(s),
        0 <= i < j < s.len(),
        is_version_tag(s[j]),
    ensures
        is_version_tag(s[i]),
{
    lemma_versions_first(s, i, j);
}

/// In an ordered list of tags each version is at least as new as the one after it.
pub proof fn lemma_ordered_versions_newest_first(s: Seq<Seq<char>>, k: int)
    requires
        tags_ordered(s),
        0 <= k < s.len() - 1,
        is_version_tag(s[k]),
        is_version_tag(s[k + 1]),
    ensures
        semver_cmp(strip_v(s[k + 1]), strip_v(s[k])) != Ordering::Greater,
{
    assert(!tag_before(s[k + 1], s[k]));
}

/// In an ordered list of tags the tags that are no versions stand in
/// descending lexical order.
pub proof fn lemma_ordered_others_descending(s: Seq<Seq<char>>, i: int, j: int)
    requires
        tags_ordered(s),
        0 <= i < j < s.len(),
        !is_version_tag(s[i]),
        !is_version_tag(s[j]),
    ensures
        !lex_lt(s[i], s[j]),
{
    lemma_others_descending(s, i, j);
}

proof fn lemma_versions_first(s: Seq<Seq<char>>, i: int, j: int)
    requires
        tags_ordered(s),
        0 <= i < j < s.len(),
        is_version_tag(s[j]),
    ensures
        is_version_tag(s[i]),
    decreases j - i,
{
    assert(!tag_before(s[(j - 1) + 1], s[j - 1]));
    if i < j - 1 {
        lemma_versions_first(s, i, j - 1);
    }
}

proof fn lemma_others_descending(s: Seq<Seq<char>>, i: int, j: int)
    requires
        tags_ordered(s),
        0 <= i < j < s.len(),
        !is_version_tag(s[i]),
        !is_version_tag(s[j]),
    ensures
        !lex_lt(s[i], s[j]),
    decreases j - i,
{
    assert(!tag_before(s[(j - 1) + 1], s[j - 1]));
    if i < j - 1 {
        if is_version_tag(s[j - 1]) {
            lemma_versions_first(s, i, j - 1);
        }
        lemma_others_descending(s, i, j - 1);
        lemma_lex_ge_transitive(s[i], s[j - 1], s[j]);
    }
}

} // verus!
