//! JSON values as the protocol carries them, with their mathematical model.
use vstd::prelude::*;

verus! {

/// The model of a JSON value: text as character sequences, arrays and objects
/// as sequences (an object keeps its members in order, duplicates included).
pub enum Json {
    Null,
    Bool(bool),
    Number(Seq<char>),
    Str(Seq<char>),
    Array(Seq<Json>),
    Object(Seq<(Seq<char>, Json)>),
}

/// A JSON value. A number is held as the text of its literal, so that it is
/// written back exactly as it was read.
#[derive(Debug, PartialEq)]
pub enum JsonValue {
    Null,
    Bool(bool),
    Number(String),
    Str(String),
    Array(Vec<JsonValue>),
    Object(Vec<(String, JsonValue)>),
}

impl View for JsonValue {
    type V = Json;

    open spec fn view(&self) -> Json
        decreases self,
    {
        match self {
            JsonValue::Null => Json::Null,
            JsonValue::Bool(b) => Json::Bool(*b),
            JsonValue::Number(n) => Json::Number(n@),
            JsonValue::Str(s) => Json::Str(s@),
            JsonValue::Array(items) => Json::Array(items_view(items@)),
            JsonValue::Object(members) => Json::Object(members_view(members@)),
        }
    }
}

/// The models of a sequence of values.
pub open spec fn items_view(s: Seq<JsonValue>) -> Seq<Json>
    decreases s,
{
    if s.len() == 0 {
        Seq::empty()
    } else {
        items_view(s.drop_last()).push(s.last()@)
    }
}

/// The models of a sequence of object members.
pub open spec fn members_view(s: Seq<(String, JsonValue)>) -> Seq<(Seq<char>, Json)>
    decreases s,
{
    if s.len() == 0 {
        Seq::empty()
    } else {
        members_view(s.drop_last()).push((s.last().0@, s.last().1@))
    }
}

pub proof fn lemma_items_view(s: Seq<JsonValue>)
    ensures
        items_view(s).len() == s.len(),
        forall|i: int| 0 <= i < s.len() ==> #[trigger] items_view(s)[i] == s[i]@,
    decreases s.len(),
{
    if s.len() > 0 {
        lemma_items_view(s.drop_last());
        assert(items_view(s) == items_view(s.drop_last()).push(s.last()@));
    } else {
        assert(items_view(s) == Seq::<Json>::empty());
    }
}

pub proof fn lemma_members_view(s: Seq<(String, JsonValue)>)
    ensures
        members_view(s).len() == s.len(),
        forall|i: int|
            0 <= i < s.len() ==> #[trigger] members_view(s)[i] == (s[i].0@, s[i].1@),
    decreases s.len(),
{
    if s.len() > 0 {
        lemma_members_view(s.drop_last());
        assert(members_view(s) == members_view(s.drop_last()).push((s.last().0@, s.last().1@)));
    } else {
        assert(members_view(s) == Seq::<(Seq<char>, Json)>::empty());
    }
}

pub proof fn lemma_items_view_push(s: Seq<JsonValue>, x: JsonValue)
    ensures
        items_view(s.push(x)) == items_view(s).push(x@),
{
    assert(s.push(x).drop_last() == s);
}

pub proof fn lemma_members_view_push(s: Seq<(String, JsonValue)>, x: (String, JsonValue))
    ensures
        members_view(s.push(x)) == members_view(s).push((x.0@, x.1@)),
{
    assert(s.push(x).drop_last() == s);
}

/// Whether two texts hold the same characters.
pub fn text_eq(a: &str, b: &str) -> (r: bool)
    ensures
        r == (a@ == b@),
{
    let n = a.unicode_len();
    if n != b.unicode_len() {
        return false;
    }
    let mut i: usize = 0;
    while i < n
        invariant
            n == a@.len() == b@.len(),
            i <= n,
            a@.subrange(0, i as int) == b@.subrange(0, i as int),
        decreases n - i,
    {
        if a.get_char(i) != b.get_char(i) {
            return false;
        }
        assert(a@.subrange(0, i + 1) == a@.subrange(0, i as int).push(a@[i as int]));
        assert(b@.subrange(0, i + 1) == b@.subrange(0, i as int).push(b@[i as int]));
        i = i + 1;
    }
    assert(a@ == a@.subrange(0, n as int));
    assert(b@ == b@.subrange(0, n as int));
    true
}

/// The value of the first member of `ms` whose key is `k`.
pub open spec fn lookup(ms: Seq<(Seq<char>, Json)>, k: Seq<char>) -> Option<Json>
    decreases ms.len(),
{
    if ms.len() == 0 {
        None
    } else if ms[0].0 == k {
        Some(ms[0].1)
    } else {
        lookup(ms.drop_first(), k)
    }
}

/// The value of the first member of `ms` whose key is `key`.
pub fn member<'a>(ms: &'a Vec<(String, JsonValue)>, key: &str) -> (r: Option<&'a JsonValue>)
    ensures
        match r {
            Some(v) => lookup(members_view(ms@), key@) == Some(v@),
            None => lookup(members_view(ms@), key@) is None,
        },
{
    let ghost mv = members_view(ms@);
    proof {
        lemma_members_view(ms@);
    }
    let n = ms.len();
    let mut i: usize = 0;
    assert(mv.subrange(0, n as int) == mv);
    while i < n
        invariant
            n == ms@.len() == mv.len(),
            i <= n,
            mv == members_view(ms@),
            forall|j: int| 0 <= j < n ==> #[trigger] mv[j] == (ms@[j].0@, ms@[j].1@),
            lookup(mv, key@) == lookup(mv.subrange(i as int, n as int), key@),
        decreases n - i,
    {
        let ghost sub = mv.subrange(i as int, n as int);
        assert(sub[0] == mv[i as int]);
        if text_eq(ms[i].0.as_str(), key) {
            return Some(&ms[i].1);
        }
        assert(sub.drop_first() == mv.subrange(i + 1, n as int));
        i = i + 1;
    }
    None
}

/// A text as a JSON string literal: quoted, with the characters that JSON
/// requires escaped.
pub uninterp spec fn json_quoted(s: Seq<char>) -> Seq<char>;

/// Relies on serde_json's `Display` for `Value::String`, which writes the
/// text as a JSON string literal, quoted and escaped.
#[verifier::external_body]
fn quoted(s: &str) -> (r: String)
    ensures
        r@ == json_quoted(s@),
{
    serde_json::Value::String(s.to_owned()).to_string()
}

/// The compact JSON text of a value: no whitespace between tokens, members
/// in order, numbers as their literal text.
pub open spec fn text_of(j: Json) -> Seq<char>
    decreases j,
{
    match j {
        Json::Null => "null"@,
        Json::Bool(b) => if b {
            "true"@
        } else {
            "false"@
        },
        Json::Number(n) => n,
        Json::Str(s) => json_quoted(s),
        Json::Array(xs) => "["@ + items_text(xs) + "]"@,
        Json::Object(ms) => "{"@ + members_text(ms) + "}"@,
    }
}

/// The texts of the values, separated by commas.
pub open spec fn items_text(xs: Seq<Json>) -> Seq<char>
    decreases xs,
{
    if xs.len() == 0 {
        Seq::empty()
    } else if xs.len() == 1 {
        text_of(xs[0])
    } else {
        items_text(xs.drop_last()) + ","@ + text_of(xs.last())
    }
}

/// The texts of the members, each `"key":value`, separated by commas.
pub open spec fn members_text(ms: Seq<(Seq<char>, Json)>) -> Seq<char>
    decreases ms,
{
    if ms.len() == 0 {
        Seq::empty()
    } else if ms.len() == 1 {
        json_quoted(ms[0].0) + ":"@ + text_of(ms[0].1)
    } else {
        members_text(ms.drop_last()) + ","@ + json_quoted(ms.last().0) + ":"@ + text_of(
            ms.last().1,
        )
    }
}

proof fn lemma_items_text_step(s: Seq<Json>, i: int)
    requires
        0 <= i < s.len(),
    ensures
        items_text(s.subrange(0, i + 1)) == items_text(s.subrange(0, i)) + (if i == 0 {
            Seq::<char>::empty()
        } else {
            ","@
        }) + text_of(s[i]),
{
    let t = s.subrange(0, i + 1);
    assert(t.drop_last() == s.subrange(0, i));
    if i == 0 {
        assert(items_text(s.subrange(0, 0)) == Seq::<char>::empty());
        assert(items_text(t) == text_of(s[0]));
        assert(Seq::<char>::empty() + Seq::<char>::empty() + text_of(s[0]) == text_of(s[0]));
    }
}

proof fn lemma_members_text_step(s: Seq<(Seq<char>, Json)>, i: int)
    requires
        0 <= i < s.len(),
    ensures
        members_text(s.subrange(0, i + 1)) == members_text(s.subrange(0, i)) + (if i == 0 {
            Seq::<char>::empty()
        } else {
            ","@
        }) + json_quoted(s[i].0) + ":"@ + text_of(s[i].1),
{
    let t = s.subrange(0, i + 1);
    assert(t.drop_last() == s.subrange(0, i));
    if i == 0 {
        assert(members_text(s.subrange(0, 0)) == Seq::<char>::empty());
        let e = Seq::<char>::empty();
        let x = json_quoted(s[0].0) + ":"@ + text_of(s[0].1);
        assert(e + e + json_quoted(s[0].0) + ":"@ + text_of(s[0].1) == x);
    }
}

impl JsonValue {
    /// Appends the compact JSON text of this value to `out`.
    pub fn write_to(&self, out: &mut String)
        ensures
            final(out)@ == old(out)@ + text_of(self@),
        decreases self@,
    {
        match self {
            JsonValue::Null => out.append("null"),
            JsonValue::Bool(b) => if *b {
                out.append("true")
            } else {
                out.append("false")
            },
            JsonValue::Number(n) => out.append(n.as_str()),
            JsonValue::Str(s) => {
                let q = quoted(s.as_str());
                out.append(q.as_str());
            },
            JsonValue::Array(items) => {
                let ghost start = out@;
                let ghost iv = items_view(items@);
                proof {
                    lemma_items_view(items@);
                }
                out.append("[");
                let mut i: usize = 0;
                assert(iv.subrange(0, 0) == Seq::<Json>::empty());
                while i < items.len()
                    invariant
                        i <= items@.len(),
                        self@ == Json::Array(iv),
                        iv == items_view(items@),
                        iv.len() == items@.len(),
                        forall|j: int| 0 <= j < items@.len() ==> #[trigger] iv[j] == items@[j]@,
                        out@ == start + "["@ + items_text(iv.subrange(0, i as int)),
                    decreases items@.len() - i,
                {
                    proof {
                        lemma_items_text_step(iv, i as int);
                        let ghost sv = self@;
                        assert(decreases_to!(sv => sv->Array_0));
                        assert(decreases_to!(iv => iv[i as int]));
                    }
                    if i > 0 {
                        out.append(",");
                    }
                    items[i].write_to(out);
                    i = i + 1;
                }
                out.append("]");
                assert(iv.subrange(0, iv.len() as int) == iv);
            },
            JsonValue::Object(ms) => {
                let ghost start = out@;
                let ghost mv = members_view(ms@);
                proof {
                    lemma_members_view(ms@);
                }
                out.append("{");
                let mut i: usize = 0;
                assert(mv.subrange(0, 0) == Seq::<(Seq<char>, Json)>::empty());
                while i < ms.len()
                    invariant
                        i <= ms@.len(),
                        self@ == Json::Object(mv),
                        mv == members_view(ms@),
                        mv.len() == ms@.len(),
                        forall|j: int|
                            0 <= j < ms@.len() ==> #[trigger] mv[j] == (ms@[j].0@, ms@[j].1@),
                        out@ == start + "{"@ + members_text(mv.subrange(0, i as int)),
                    decreases ms@.len() - i,
                {
                    proof {
                        lemma_members_text_step(mv, i as int);
                        let ghost sv = self@;
                        let ghost m = mv[i as int];
                        assert(decreases_to!(sv => sv->Object_0));
                        assert(decreases_to!(mv => m));
                        assert(decreases_to!(m => m.1));
                    }
                    if i > 0 {
                        out.append(",");
                    }
                    let q = quoted(ms[i].0.as_str());
                    out.append(q.as_str());
                    out.append(":");
                    ms[i].1.write_to(out);
                    i = i + 1;
                }
                out.append("}");
                assert(mv.subrange(0, mv.len() as int) == mv);
            },
        }
    }

    /// The compact JSON text of this value.
    pub fn to_text(&self) -> (r: String)
        ensures
            r@ == text_of(self@),
    {
        let mut out = String::new();
        self.write_to(&mut out);
        assert(out@ == Seq::<char>::empty() + text_of(self@));
        assert(Seq::<char>::empty() + text_of(self@) == text_of(self@));
        out
    }

    /// A copy of this value.
    pub fn duplicate(&self) -> (r: JsonValue)
        ensures
            r@ == self@,
        decreases self@,
    {
        match self {
            JsonValue::Null => JsonValue::Null,
            JsonValue::Bool(b) => JsonValue::Bool(*b),
            JsonValue::Number(n) => JsonValue::Number(n.clone()),
            JsonValue::Str(s) => JsonValue::Str(s.clone()),
            JsonValue::Array(items) => {
                proof {
                    lemma_items_view(items@);
                }
                let mut out: Vec<JsonValue> = Vec::new();
                let mut i: usize = 0;
                while i < items.len()
                    invariant
                        i <= items@.len(),
                        self@ == Json::Array(items_view(items@)),
                        items_view(items@).len() == items@.len(),
                        forall|j: int|
                            0 <= j < items@.len() ==> #[trigger] items_view(items@)[j]
                                == items@[j]@,
                        items_view(out@) == items_view(items@.subrange(0, i as int)),
                    decreases items@.len() - i,
                {
                    assert(decreases_to!(items_view(items@) => items_view(items@)[i as int]));
                    assert(items_view(items@)[i as int] == items@[i as int]@);
                    let ghost sv = self@;
                    assert(decreases_to!(sv => sv->Array_0));
                    assert(decreases_to!(self@ => items@[i as int]@));
                    let c = items[i].duplicate();
                    proof {
                        lemma_items_view_push(out@, c);
                        assert(items@.subrange(0, i + 1) == items@.subrange(0, i as int).push(
                            items@[i as int],
                        ));
                        lemma_items_view_push(items@.subrange(0, i as int), items@[i as int]);
                    }
                    out.push(c);
                    i = i + 1;
                }
                assert(items@.subrange(0, items@.len() as int) == items@);
                JsonValue::Array(out)
            },
            JsonValue::Object(ms) => {
                proof {
                    lemma_members_view(ms@);
                }
                let mut out: Vec<(String, JsonValue)> = Vec::new();
                let mut i: usize = 0;
                while i < ms.len()
                    invariant
                        i <= ms@.len(),
                        self@ == Json::Object(members_view(ms@)),
                        members_view(ms@).len() == ms@.len(),
                        forall|j: int|
                            0 <= j < ms@.len() ==> #[trigger] members_view(ms@)[j] == (
                                ms@[j].0@,
                                ms@[j].1@,
                            ),
                        members_view(out@) == members_view(ms@.subrange(0, i as int)),
                    decreases ms@.len() - i,
                {
                    let ghost m = members_view(ms@)[i as int];
                    assert(decreases_to!(members_view(ms@) => m));
                    assert(decreases_to!(m => m.1));
                    let ghost sv = self@;
                    assert(decreases_to!(sv => sv->Object_0));
                    assert(decreases_to!(self@ => ms@[i as int].1@));
                    let c = (ms[i].0.clone(), ms[i].1.duplicate());
                    proof {
                        lemma_members_view_push(out@, c);
                        assert(ms@.subrange(0, i + 1) == ms@.subrange(0, i as int).push(
                            ms@[i as int],
                        ));
                        lemma_members_view_push(ms@.subrange(0, i as int), ms@[i as int]);
                    }
                    out.push(c);
                    i = i + 1;
                }
                assert(ms@.subrange(0, ms@.len() as int) == ms@);
                JsonValue::Object(out)
            },
        }
    }
}

} // verus!
