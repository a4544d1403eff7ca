//! Decoding an action whose tag travels beside its payload rather than in it.
use crate::json::{lookup, member, members_view, text_eq, Json, JsonValue};
use vstd::prelude::*;

verus! {

/// The form that an action's parameters take.
#[derive(Debug, PartialEq)]
pub enum PayloadShape {
    /// No parameters: the payload is `null`.
    Unit,
    /// An object that holds each of the named fields (others are ignored).
    Fields(Vec<String>),
    /// A single value of any form.
    Value,
}

/// One action of the closed set that a host knows how to decode.
#[derive(Debug, PartialEq)]
pub struct ActionCase {
    pub name: String,
    pub shape: PayloadShape,
}

/// A payload as it arrived, with what the lenient reader made of its text.
#[derive(Debug, PartialEq)]
pub enum Payload {
    /// The action came without parameters.
    Absent,
    /// The parameters' text, and the value read from it or the reader's error.
    Text { text: String, parsed: Result<JsonValue, String> },
}

/// An action resolved against the closed set, its payload in the case's shape.
#[derive(Debug, PartialEq)]
pub struct DecodedAction {
    /// The position of the case in the set.
    pub index: usize,
    pub name: String,
    pub value: JsonValue,
}

/// Why an action could not be decoded.
#[derive(Debug, PartialEq)]
pub enum DecodeError {
    /// No case of the set has this name.
    UnknownAction(String),
    /// The payload could not be read, or is not in the case's shape.
    Malformed(String),
}

pub enum ShapeModel {
    Unit,
    Fields(Seq<Seq<char>>),
    Value,
}

pub struct CaseModel {
    pub name: Seq<char>,
    pub shape: ShapeModel,
}

pub enum PayloadModel {
    Absent,
    Text { text: Seq<char>, parsed: Result<Json, Seq<char>> },
}

pub struct DecodedModel {
    pub index: int,
    pub name: Seq<char>,
    pub value: Json,
}

pub enum DecodeErrorModel {
    UnknownAction(Seq<char>),
    Malformed(Seq<char>),
}

impl View for PayloadShape {
    type V = ShapeModel;

    open spec fn view(&self) -> ShapeModel {
        match self {
            PayloadShape::Unit => ShapeModel::Unit,
            PayloadShape::Fields(fs) => ShapeModel::Fields(fs@.map_values(|f: String| f@)),
            PayloadShape::Value => ShapeModel::Value,
        }
    }
}

impl View for ActionCase {
    type V = CaseModel;

    open spec fn view(&self) -> CaseModel {
        CaseModel { name: self.name@, shape: self.shape@ }
    }
}

impl View for Payload {
    type V = PayloadModel;

    open spec fn view(&self) -> PayloadModel {
        match self {
            Payload::Absent => PayloadModel::Absent,
            Payload::Text { text, parsed } => PayloadModel::Text {
                text: text@,
                parsed: match parsed {
                    Ok(v) => Ok(v@),
                    Err(e) => Err(e@),
                },
            },
        }
    }
}

impl View for DecodedAction {
    type V = DecodedModel;

    open spec fn view(&self) -> DecodedModel {
        DecodedModel { index: self.index as int, name: self.name@, value: self.value@ }
    }
}

impl View for DecodeError {
    type V = DecodeErrorModel;

    open spec fn view(&self) -> DecodeErrorModel {
        match self {
            DecodeError::UnknownAction(n) => DecodeErrorModel::UnknownAction(n@),
            DecodeError::Malformed(m) => DecodeErrorModel::Malformed(m@),
        }
    }
}

pub open spec fn cases_view(cases: Seq<ActionCase>) -> Seq<CaseModel> {
    cases.map_values(|c: ActionCase| c@)
}

pub open spec fn decode_result_view(r: Result<DecodedAction, DecodeError>) -> Result<
    DecodedModel,
    DecodeErrorModel,
> {
    match r {
        Ok(a) => Ok(a@),
        Err(e) => Err(e@),
    }
}

/// Whether `c` is white space in the sense of Unicode's `White_Space`
/// property, as `char::is_whitespace` documents it.
pub open spec fn is_white_space(c: char) -> bool {
    ('\u{9}' <= c && c <= '\u{d}') || c == ' ' || c == '\u{85}' || c == '\u{a0}' || c
        == '\u{1680}' || ('\u{2000}' <= c && c <= '\u{200a}') || c == '\u{2028}' || c
        == '\u{2029}' || c == '\u{202f}' || c == '\u{205f}' || c == '\u{3000}'
}

/// A text with all of its white space removed.
pub open spec fn without_white_space(t: Seq<char>) -> Seq<char>
    decreases t.len(),
{
    if t.len() == 0 {
        Seq::empty()
    } else if is_white_space(t.last()) {
        without_white_space(t.drop_last())
    } else {
        without_white_space(t.drop_last()).push(t.last())
    }
}

/// Whether a payload text says "no parameters": nothing but white space, or
/// an empty object.
pub open spec fn effectively_empty(t: Seq<char>) -> bool {
    let n = without_white_space(t);
    n.len() == 0 || n == seq!['{', '}']
}

/// The position of the first case named `d`.
pub open spec fn find_case(cases: Seq<CaseModel>, d: Seq<char>) -> Option<int>
    decreases cases.len(),
{
    if cases.len() == 0 {
        None
    } else if cases.last().name == d && find_case(cases.drop_last(), d) is None {
        Some(cases.len() - 1)
    } else {
        find_case(cases.drop_last(), d)
    }
}

/// The first of the fields `fs` that members `ms` lack.
pub open spec fn first_missing(fs: Seq<Seq<char>>, ms: Seq<(Seq<char>, Json)>) -> Option<Seq<char>>
    decreases fs.len(),
{
    if fs.len() == 0 {
        None
    } else if lookup(ms, fs[0]) is None {
        Some(fs[0])
    } else {
        first_missing(fs.drop_first(), ms)
    }
}

pub open spec fn missing_field_message(f: Seq<char>) -> Seq<char> {
    "missing field `"@ + f + "`"@
}

/// What is wrong with value `v` as a payload of shape `s`, if anything.
pub open spec fn shape_error(s: ShapeModel, v: Json) -> Option<Seq<char>> {
    match s {
        ShapeModel::Unit => if v == Json::Null {
            None
        } else {
            Some("invalid type: expected null"@)
        },
        ShapeModel::Fields(fs) => match v {
            Json::Object(ms) => match first_missing(fs, ms) {
                Some(f) => Some(missing_field_message(f)),
                None => None,
            },
            _ => Some("invalid type: expected an object"@),
        },
        ShapeModel::Value => None,
    }
}

/// Decoding value `v` as the payload of the case named `d`.
pub open spec fn decode_value(cases: Seq<CaseModel>, d: Seq<char>, v: Json) -> Result<
    DecodedModel,
    DecodeErrorModel,
> {
    match find_case(cases, d) {
        None => Err(DecodeErrorModel::UnknownAction(d)),
        Some(i) => match shape_error(cases[i].shape, v) {
            None => Ok(DecodedModel { index: i, name: d, value: v }),
            Some(m) => Err(DecodeErrorModel::Malformed(m)),
        },
    }
}

/// Decoding the action named `d` with payload `p`: an absent payload is the
/// unit value `null`; a payload that fails, whether its text could not be read
/// or its value is not in shape, is retried as the unit value when its text is
/// effectively empty, and otherwise (or when the retry fails too) gives the
/// first error.
pub open spec fn decode_spec(cases: Seq<CaseModel>, d: Seq<char>, p: PayloadModel) -> Result<
    DecodedModel,
    DecodeErrorModel,
> {
    match p {
        PayloadModel::Absent => decode_value(cases, d, Json::Null),
        PayloadModel::Text { text, parsed } => {
            let first = match parsed {
                Ok(v) => decode_value(cases, d, v),
                Err(e) => Err(DecodeErrorModel::Malformed(e)),
            };
            match first {
                Ok(a) => Ok(a),
                Err(e) => if effectively_empty(text) {
                    match decode_value(cases, d, Json::Null) {
                        Ok(a) => Ok(a),
                        Err(_) => Err(e),
                    }
                } else {
                    Err(e)
                },
            }
        },
    }
}

/// A name that no case carries is reported as an unknown action, whatever
/// the payload, as long as the payload is absent or its text could be read.
pub proof fn lemma_unknown_action(cases: Seq<CaseModel>, d: Seq<char>, p: PayloadModel)
    requires
        forall|j: int| 0 <= j < cases.len() ==> (#[trigger] cases[j]).name != d,
        p is Absent || p->parsed is Ok,
    ensures
        decode_spec(cases, d, p) == Err::<DecodedModel, DecodeErrorModel>(
            DecodeErrorModel::UnknownAction(d),
        ),
{
    lemma_find_case(cases, d);
}

/// For an action without parameters, a payload text that is blank or an
/// empty object decodes as the unit value, whatever the lenient reader made
/// of it.
pub proof fn lemma_empty_payload_is_unit(
    cases: Seq<CaseModel>,
    d: Seq<char>,
    text: Seq<char>,
    parsed: Result<Json, Seq<char>>,
)
    requires
        find_case(cases, d) is Some,
        cases[find_case(cases, d)->0].shape is Unit,
        effectively_empty(text),
    ensures
        decode_spec(cases, d, PayloadModel::Text { text, parsed }) == Ok::<
            DecodedModel,
            DecodeErrorModel,
        >(DecodedModel { index: find_case(cases, d)->0, name: d, value: Json::Null }),
{
}

proof fn lemma_find_case(cases: Seq<CaseModel>, d: Seq<char>)
    ensures
        match find_case(cases, d) {
            None => forall|j: int| 0 <= j < cases.len() ==> (#[trigger] cases[j]).name != d,
            Some(i) => 0 <= i < cases.len() && cases[i].name == d && forall|j: int|
                0 <= j < i ==> (#[trigger] cases[j]).name != d,
        },
    decreases cases.len(),
{
    if cases.len() > 0 {
        lemma_find_case(cases.drop_last(), d);
        assert(forall|j: int| 0 <= j < cases.len() - 1 ==> cases.drop_last()[j] == cases[j]);
    }
}

fn is_ws(c: char) -> (r: bool)
    ensures
        r == is_white_space(c),
{
    ('\u{9}' <= c && c <= '\u{d}') || c == ' ' || c == '\u{85}' || c == '\u{a0}' || c
        == '\u{1680}' || ('\u{2000}' <= c && c <= '\u{200a}') || c == '\u{2028}' || c
        == '\u{2029}' || c == '\u{202f}' || c == '\u{205f}' || c == '\u{3000}'
}

/// Whether a payload text is nothing but white space, or an empty object.
pub fn is_effectively_empty(t: &str) -> (r: bool)
    ensures
        r == effectively_empty(t@),
{
    let n = t.unicode_len();
    let mut kept: Vec<char> = Vec::new();
    let mut i: usize = 0;
    while i < n
        invariant
            n == t@.len(),
            i <= n,
            kept@ == without_white_space(t@.subrange(0, i as int)),
        decreases n - i,
    {
        let c = t.get_char(i);
        proof {
            let p = t@.subrange(0, i + 1);
            assert(p.drop_last() == t@.subrange(0, i as int));
            assert(p.last() == c);
        }
        if !is_ws(c) {
            kept.push(c);
        }
        i = i + 1;
    }
    assert(t@.subrange(0, n as int) == t@);
    let m = kept.len();
    if m == 0 {
        true
    } else if m == 2 && kept[0] == '{' && kept[1] == '}' {
        assert(kept@ == seq!['{', '}']);
        true
    } else {
        assert(kept@.len() != 2 || kept@[0] != '{' || kept@[1] != '}');
        false
    }
}

/// The position of the first case named `d`.
pub fn find_case_index(cases: &Vec<ActionCase>, d: &str) -> (r: Option<usize>)
    ensures
        match r {
            Some(i) => find_case(cases_view(cases@), d@) == Some(i as int),
            None => find_case(cases_view(cases@), d@) is None,
        },
{
    let ghost cs = cases_view(cases@);
    proof {
        lemma_find_case(cs, d@);
    }
    let mut i: usize = 0;
    while i < cases.len()
        invariant
            i <= cases@.len() == cs.len(),
            cs == cases_view(cases@),
            forall|j: int| 0 <= j < i ==> (#[trigger] cs[j]).name != d@,
        decreases cases@.len() - i,
    {
        if text_eq(cases[i].name.as_str(), d) {
            assert(cs[i as int].name == d@);
            proof {
                lemma_find_case(cs, d@);
            }
            return Some(i);
        }
        i = i + 1;
    }
    proof {
        lemma_find_case(cs, d@);
    }
    None
}

/// The first of the fields `fs` that members `ms` lack.
fn first_missing_field(fs: &Vec<String>, ms: &Vec<(String, JsonValue)>) -> (r: Option<String>)
    ensures
        match r {
            Some(f) => first_missing(fs@.map_values(|f: String| f@), members_view(ms@)) == Some(
                f@,
            ),
            None => first_missing(fs@.map_values(|f: String| f@), members_view(ms@)) is None,
        },
{
    let ghost names = fs@.map_values(|f: String| f@);
    let ghost mv = members_view(ms@);
    let n = fs.len();
    let mut i: usize = 0;
    assert(names.subrange(0, n as int) == names);
    while i < n
        invariant
            n == fs@.len() == names.len(),
            i <= n,
            names == fs@.map_values(|f: String| f@),
            mv == members_view(ms@),
            first_missing(names, mv) == first_missing(names.subrange(i as int, n as int), mv),
        decreases n - i,
    {
        let ghost sub = names.subrange(i as int, n as int);
        assert(sub[0] == fs@[i as int]@);
        if member(ms, fs[i].as_str()).is_none() {
            return Some(fs[i].clone());
        }
        assert(sub.drop_first() == names.subrange(i + 1, n as int));
        i = i + 1;
    }
    None
}

/// What is wrong with `v` as a payload of shape `s`, if anything.
fn shape_problem(s: &PayloadShape, v: &JsonValue) -> (r: Option<String>)
    ensures
        match r {
            Some(m) => shape_error(s@, v@) == Some(m@),
            None => shape_error(s@, v@) is None,
        },
{
    match s {
        PayloadShape::Unit => match v {
            JsonValue::Null => None,
            _ => Some(String::from_str("invalid type: expected null")),
        },
        PayloadShape::Fields(fs) => match v {
            JsonValue::Object(ms) => match first_missing_field(fs, ms) {
                Some(f) => {
                    let mut m = String::from_str("missing field `");
                    m.append(f.as_str());
                    m.append("`");
                    Some(m)
                },
                None => None,
            },
            _ => Some(String::from_str("invalid type: expected an object")),
        },
        PayloadShape::Value => None,
    }
}

/// Decodes value `v` as the payload of the case named `d`.
pub fn decode_value_as(cases: &Vec<ActionCase>, d: &str, v: JsonValue) -> (r: Result<
    DecodedAction,
    DecodeError,
>)
    ensures
        decode_result_view(r) == decode_value(cases_view(cases@), d@, v@),
{
    match find_case_index(cases, d) {
        None => Err(DecodeError::UnknownAction(String::from_str(d))),
        Some(i) => {
            proof {
                lemma_find_case(cases_view(cases@), d@);
            }
            assert(cases_view(cases@)[i as int] == cases@[i as int]@);
            match shape_problem(&cases[i].shape, &v) {
                None => Ok(DecodedAction { index: i, name: String::from_str(d), value: v }),
                Some(m) => Err(DecodeError::Malformed(m)),
            }
        },
    }
}

/// Decodes the action named `discriminant` from its payload: see
/// `decode_spec` for the whole rule.
pub fn decode(cases: &Vec<ActionCase>, discriminant: &str, payload: Payload) -> (r: Result<
    DecodedAction,
    DecodeError,
>)
    ensures
        decode_result_view(r) == decode_spec(cases_view(cases@), discriminant@, payload@),
{
    match payload {
        Payload::Absent => decode_value_as(cases, discriminant, JsonValue::Null),
        Payload::Text { text, parsed } => {
            let first = match parsed {
                Ok(v) => decode_value_as(cases, discriminant, v),
                Err(e) => Err(DecodeError::Malformed(e)),
            };
            match first {
                Ok(a) => Ok(a),
                Err(e) => if is_effectively_empty(text.as_str()) {
                    match decode_value_as(cases, discriminant, JsonValue::Null) {
                        Ok(a) => Ok(a),
                        Err(_) => Err(e),
                    }
                } else {
                    Err(e)
                },
            }
        },
    }
}

} // verus!
