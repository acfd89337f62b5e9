//! The structured values that requests and responses are made of.
use vstd::prelude::*;
use crate::text::{chars_of, text_eq};

verus! {

broadcast use vstd::std_specs::vec::group_vec_axioms;

/// The mathematical model of a JSON value.
pub enum Json {
    Null,
    Bool(bool),
    /// A number, kept as the text that denotes it.
    Number(Seq<char>),
    Str(Seq<char>),
    Array(Seq<Json>),
    /// Members in order; the keys are distinct.
    Object(Seq<(Seq<char>, Json)>),
}

/// A JSON value. Numbers keep their literal text, so that a value read from a
/// request is written back exactly as it came.
pub enum JsonValue {
    Null,
    Bool(bool),
    Number(String),
    Str(String),
    Array(Vec<JsonValue>),
    Object(Vec<(String, JsonValue)>),
}

impl View for JsonValue {
    type V = Json;

    open spec fn view(&self) -> Json {
        model_of(*self)
    }
}

/// The model of a value.
pub open spec fn model_of(v: JsonValue) -> Json
    decreases v,
{
    match v {
        JsonValue::Null => Json::Null,
        JsonValue::Bool(b) => Json::Bool(b),
        JsonValue::Number(n) => Json::Number(n@),
        JsonValue::Str(s) => Json::Str(s@),
        JsonValue::Array(items) => Json::Array(view_items(items@)),
        JsonValue::Object(fields) => Json::Object(view_fields(fields@)),
    }
}

/// The models of a sequence of values.
pub open spec fn view_items(s: Seq<JsonValue>) -> Seq<Json>
    decreases s,
{
    if s.len() == 0 {
        Seq::empty()
    } else {
        seq![model_of(s[0])] + view_items(s.drop_first())
    }
}

/// The models of a sequence of members.
pub open spec fn view_fields(s: Seq<(String, JsonValue)>) -> Seq<(Seq<char>, Json)>
    decreases s,
{
    if s.len() == 0 {
        Seq::empty()
    } else {
        seq![(s[0].0@, model_of(s[0].1))] + view_fields(s.drop_first())
    }
}

pub proof fn lemma_view_items(s: Seq<JsonValue>)
    ensures
        view_items(s).len() == s.len(),
        forall|i: int| 0 <= i < s.len() ==> #[trigger] view_items(s)[i] == s[i]@,
    decreases s.len(),
{
    if s.len() > 0 {
        lemma_view_items(s.drop_first());
        assert forall|i: int| 0 <= i < s.len() implies #[trigger] view_items(s)[i] == s[i]@ by {
            if i > 0 {
                assert(view_items(s)[i] == view_items(s.drop_first())[i - 1]);
            }
        }
    }
}

pub proof fn lemma_view_fields(s: Seq<(String, JsonValue)>)
    ensures
        view_fields(s).len() == s.len(),
        forall|i: int| 0 <= i < s.len() ==> #[trigger] view_fields(s)[i] == (s[i].0@, s[i].1@),
    decreases s.len(),
{
    if s.len() > 0 {
        lemma_view_fields(s.drop_first());
        assert forall|i: int| 0 <= i < s.len() implies #[trigger] view_fields(s)[i] == (s[i].0@, s[i].1@) by {
            if i > 0 {
                assert(view_fields(s)[i] == view_fields(s.drop_first())[i - 1]);
            }
        }
    }
}

/// The value of the first member of `fields` named `key`.
pub open spec fn member(fields: Seq<(Seq<char>, Json)>, key: Seq<char>) -> Option<Json>
    decreases fields.len(),
{
    if fields.len() == 0 {
        None
    } else if fields[0].0 == key {
        Some(fields[0].1)
    } else {
        member(fields.drop_first(), key)
    }
}

pub open spec fn is_digit(c: char) -> bool {
    '0' <= c <= '9'
}

pub open spec fn all_digits(s: Seq<char>) -> bool {
    forall|i: int| 0 <= i < s.len() ==> is_digit(#[trigger] s[i])
}

/// The number that a string of decimal digits denotes.
pub open spec fn digits_value(s: Seq<char>) -> nat
    decreases s.len(),
{
    if s.len() == 0 {
        0
    } else {
        digits_value(s.drop_last()) * 10 + (s.last() as u32 - '0' as u32) as nat
    }
}

impl Json {
    /// The member named `key`, where `self` is an object that has one.
    pub open spec fn get(self, key: Seq<char>) -> Option<Json> {
        match self {
            Json::Object(fields) => member(fields, key),
            _ => None,
        }
    }

    /// The member named `key`, or null where there is none.
    pub open spec fn at(self, key: Seq<char>) -> Json {
        match self.get(key) {
            Some(v) => v,
            None => Json::Null,
        }
    }

    pub open spec fn str_of(self) -> Option<Seq<char>> {
        match self {
            Json::Str(s) => Some(s),
            _ => None,
        }
    }

    /// The value of a number that is a non-negative integer within `u64`.
    pub open spec fn u64_of(self) -> Option<nat> {
        match self {
            Json::Number(t) => if t.len() > 0 && all_digits(t) && digits_value(t) <= u64::MAX {
                Some(digits_value(t))
            } else {
                None
            },
            _ => None,
        }
    }
}

proof fn lemma_digits_value_prefix(s: Seq<char>, k: int)
    requires
        all_digits(s),
        0 <= k <= s.len(),
    ensures
        digits_value(s.subrange(0, k)) <= digits_value(s),
    decreases s.len(),
{
    if k < s.len() {
        let t = s.drop_last();
        assert(all_digits(t)) by {
            assert forall|i: int| 0 <= i < t.len() implies is_digit(#[trigger] t[i]) by {
                assert(t[i] == s[i]);
            }
        }
        lemma_digits_value_prefix(t, k);
        assert(t.subrange(0, k) =~= s.subrange(0, k));
        assert(is_digit(s[s.len() - 1]));
    } else {
        assert(s.subrange(0, k) =~= s);
    }
}

impl JsonValue {
    /// The member named `key`, where `self` is an object that has one.
    pub fn get(&self, key: &str) -> (r: Option<&JsonValue>)
        ensures
            match r {
                Some(v) => self@.get(key@) == Some(v@),
                None => self@.get(key@) is None,
            },
    {
        match self {
            JsonValue::Object(fields) => {
                let ghost all = self@->Object_0;
                proof {
                    lemma_view_fields(fields@);
                    assert(all.subrange(0, all.len() as int) =~= all);
                }
                let mut i: usize = 0;
                while i < fields.len()
                    invariant
                        0 <= i <= fields.len(),
                        self@ == Json::Object(all),
                        all.len() == fields.len(),
                        forall|j: int| 0 <= j < fields.len() ==> #[trigger] all[j] == (fields[j].0@, fields[j].1@),
                        member(all, key@) == member(all.subrange(i as int, all.len() as int), key@),
                    decreases fields.len() - i,
                {
                    let ghost rest = all.subrange(i as int, all.len() as int);
                    assert(rest[0] == all[i as int]);
                    if text_eq(fields[i].0.as_str(), key) {
                        assert(member(rest, key@) == Some(fields[i as int].1@));
                        return Some(&fields[i].1);
                    }
                    assert(rest.drop_first() =~= all.subrange(i + 1, all.len() as int));
                    i = i + 1;
                }
                None
            },
            _ => None,
        }
    }

    /// The text of a string value.
    pub fn as_str(&self) -> (r: Option<&str>)
        ensures
            match r {
                Some(s) => self@.str_of() == Some(s@),
                None => self@.str_of() is None,
            },
    {
        match self {
            JsonValue::Str(s) => Some(s.as_str()),
            _ => None,
        }
    }

    /// The value of a number that is a non-negative integer within `u64`.
    pub fn as_u64(&self) -> (r: Option<u64>)
        ensures
            match r {
                Some(n) => self@.u64_of() == Some(n as nat),
                None => self@.u64_of() is None,
            },
    {
        match self {
            JsonValue::Number(text) => {
                assert(self@ == Json::Number(text@));
                let cs = chars_of(text.as_str());
                if cs.len() == 0 {
                    return None;
                }
                let mut acc: u64 = 0;
                let mut i: usize = 0;
                while i < cs.len()
                    invariant
                        0 <= i <= cs.len(),
                        cs@ == text@,
                        self@ == Json::Number(text@),
                        all_digits(cs@.subrange(0, i as int)),
                        acc as nat == digits_value(cs@.subrange(0, i as int)),
                    decreases cs.len() - i,
                {
                    let c = cs[i];
                    let ghost pre = cs@.subrange(0, i as int);
                    let ghost next = cs@.subrange(0, i + 1);
                    assert(next.drop_last() =~= pre);
                    if !('0' <= c && c <= '9') {
                        assert(!all_digits(cs@)) by {
                            assert(!is_digit(cs@[i as int]));
                        }
                        assert(!all_digits(text@));
                        return None;
                    }
                    let d: u64 = (c as u32 - '0' as u32) as u64;
                    assert(all_digits(next)) by {
                        assert forall|j: int| 0 <= j < next.len() implies is_digit(#[trigger] next[j]) by {
                            if j < i {
                                assert(next[j] == pre[j]);
                            }
                        }
                    }
                    match acc.checked_mul(10) {
                        Some(m) => match m.checked_add(d) {
                            Some(v) => {
                                acc = v;
                            },
                            None => {
                                proof {
                                    if all_digits(cs@) {
                                        lemma_digits_value_prefix(cs@, i + 1);
                                    }
                                }
                                return None;
                            },
                        },
                        None => {
                            proof {
                                if all_digits(cs@) {
                                    lemma_digits_value_prefix(cs@, i + 1);
                                }
                            }
                            return None;
                        },
                    }
                    i = i + 1;
                }
                assert(cs@.subrange(0, i as int) =~= cs@);
                Some(acc)
            },
            _ => None,
        }
    }
}

/// Appends the member `key: v` to `fields`.
pub fn push_member(fields: &mut Vec<(String, JsonValue)>, key: &str, v: JsonValue)
    ensures
        final(fields)@.len() == old(fields)@.len() + 1,
        view_fields(final(fields)@) == view_fields(old(fields)@).push((key@, v@)),
{
    let ghost pre = fields@;
    let ghost m = v@;
    fields.push((key.to_owned(), v));
    proof {
        lemma_view_fields(pre);
        lemma_view_fields(fields@);
        assert(view_fields(fields@) =~= view_fields(pre).push((key@, m)));
    }
}

/// Appends `v` to `items`.
pub fn push_item(items: &mut Vec<JsonValue>, v: JsonValue)
    ensures
        final(items)@.len() == old(items)@.len() + 1,
        view_items(final(items)@) == view_items(old(items)@).push(v@),
{
    let ghost pre = items@;
    let ghost m = v@;
    items.push(v);
    proof {
        lemma_view_items(pre);
        lemma_view_items(items@);
        assert(view_items(items@) =~= view_items(pre).push(m));
    }
}

/// A string value holding `s`.
pub fn text_value(s: &str) -> (r: JsonValue)
    ensures
        r@ == Json::Str(s@),
{
    JsonValue::Str(s.to_owned())
}

/// The model of an optional value.
pub open spec fn opt_view(o: Option<JsonValue>) -> Option<Json> {
    match o {
        Some(v) => Some(v@),
        None => None,
    }
}

pub open spec fn digit_char(d: nat) -> char {
    if d == 0 { '0' } else if d == 1 { '1' } else if d == 2 { '2' } else if d == 3 { '3' }
    else if d == 4 { '4' } else if d == 5 { '5' } else if d == 6 { '6' } else if d == 7 { '7' }
    else if d == 8 { '8' } else { '9' }
}

/// The decimal digits of `n`.
pub open spec fn decimal(n: nat) -> Seq<char>
    decreases n,
{
    if n < 10 {
        seq![digit_char(n)]
    } else {
        decimal(n / 10).push(digit_char(n % 10))
    }
}

fn digit_text(d: u64) -> (r: &'static str)
    requires
        d < 10,
    ensures
        r@ == seq![digit_char(d as nat)],
{
    proof {
        reveal_strlit("0");
        reveal_strlit("1");
        reveal_strlit("2");
        reveal_strlit("3");
        reveal_strlit("4");
        reveal_strlit("5");
        reveal_strlit("6");
        reveal_strlit("7");
        reveal_strlit("8");
        reveal_strlit("9");
    }
    let r = if d == 0 { "0" } else if d == 1 { "1" } else if d == 2 { "2" } else if d == 3 { "3" }
    else if d == 4 { "4" } else if d == 5 { "5" } else if d == 6 { "6" } else if d == 7 { "7" }
    else if d == 8 { "8" } else { "9" };
    assert(r@ =~= seq![digit_char(d as nat)]);
    r
}

/// The decimal text of `n`.
pub fn decimal_text(n: u64) -> (r: String)
    ensures
        r@ == decimal(n as nat),
    decreases n,
{
    if n < 10 {
        digit_text(n).to_owned()
    } else {
        let mut s = decimal_text(n / 10);
        s.append(digit_text(n % 10));
        s
    }
}

/// A number value for `n`.
pub fn number_value(n: u64) -> (r: JsonValue)
    ensures
        r@ == Json::Number(decimal(n as nat)),
{
    JsonValue::Number(decimal_text(n))
}

} // verus!
