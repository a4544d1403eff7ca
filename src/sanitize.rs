//! Stripping a structural schema of the metadata that the wire does not need.
use crate::json::{
    items_view, lemma_items_view, lemma_items_view_push, lemma_members_view,
    lemma_members_view_push, members_view, text_eq, Json, JsonValue,
};
use vstd::prelude::*;

verus! {

/// Metadata keys that are removed from every schema node.
pub open spec fn is_meta_key(k: Seq<char>) -> bool {
    k == "title"@ || k == "description"@
}

/// Keys whose value is a single schema.
pub open spec fn is_schema_key(k: Seq<char>) -> bool {
    k == "additionalProperties"@ || k == "propertyNames"@ || k == "contains"@
        || k == "additionalItems"@ || k == "not"@ || k == "if"@ || k == "then"@ || k == "else"@
}

/// Keys whose value maps names to schemas.
pub open spec fn is_schema_map_key(k: Seq<char>) -> bool {
    k == "properties"@ || k == "patternProperties"@
}

/// Keys whose value is a list of schemas.
pub open spec fn is_schema_list_key(k: Seq<char>) -> bool {
    k == "allOf"@ || k == "anyOf"@ || k == "oneOf"@
}

/// A schema node with its metadata removed, at every depth reachable through
/// the schema keywords.
pub open spec fn clean_node(j: Json) -> Json
    decreases j, 0int,
{
    match j {
        Json::Object(ms) => Json::Object(clean_members(ms)),
        _ => j,
    }
}

/// The members of a schema node, metadata dropped and sub-schemas cleaned.
pub open spec fn clean_members(ms: Seq<(Seq<char>, Json)>) -> Seq<(Seq<char>, Json)>
    decreases ms, 0int,
{
    if ms.len() == 0 {
        Seq::empty()
    } else {
        let rest = clean_members(ms.drop_last());
        let k = ms.last().0;
        if is_meta_key(k) {
            rest
        } else {
            rest.push((k, clean_child(k, ms.last().1)))
        }
    }
}

/// The value of member `k` of a schema node, cleaned as the keyword says.
pub open spec fn clean_child(k: Seq<char>, v: Json) -> Json
    decreases v, 1int,
{
    if is_schema_key(k) {
        clean_node(v)
    } else if is_schema_map_key(k) {
        match v {
            Json::Object(ms) => Json::Object(clean_map(ms)),
            _ => v,
        }
    } else if is_schema_list_key(k) {
        match v {
            Json::Array(xs) => Json::Array(clean_list(xs)),
            _ => v,
        }
    } else if k == "items"@ {
        match v {
            Json::Array(xs) => Json::Array(clean_list(xs)),
            _ => clean_node(v),
        }
    } else {
        v
    }
}

/// A list of schemas, each cleaned.
pub open spec fn clean_list(xs: Seq<Json>) -> Seq<Json>
    decreases xs, 0int,
{
    if xs.len() == 0 {
        Seq::empty()
    } else {
        clean_list(xs.drop_last()).push(clean_node(xs.last()))
    }
}

/// A map from names to schemas, each schema cleaned and each name kept.
pub open spec fn clean_map(ms: Seq<(Seq<char>, Json)>) -> Seq<(Seq<char>, Json)>
    decreases ms, 0int,
{
    if ms.len() == 0 {
        Seq::empty()
    } else {
        clean_map(ms.drop_last()).push((ms.last().0, clean_node(ms.last().1)))
    }
}

/// Whether member `(k, v)` of the root stays: the meta-schema reference, the
/// metadata and a type that admits only `null` are dropped.
pub open spec fn root_keeps(k: Seq<char>, v: Json) -> bool {
    k != "$schema"@ && !is_meta_key(k) && !(k == "type"@ && v == Json::Str("null"@))
}

/// The members of the root, sanitized.
pub open spec fn root_members(ms: Seq<(Seq<char>, Json)>) -> Seq<(Seq<char>, Json)>
    decreases ms,
{
    if ms.len() == 0 {
        Seq::empty()
    } else {
        let rest = root_members(ms.drop_last());
        let k = ms.last().0;
        let v = ms.last().1;
        if root_keeps(k, v) {
            rest.push((k, clean_child(k, v)))
        } else {
            rest
        }
    }
}

/// A schema document as it goes on the wire.
pub open spec fn sanitized(j: Json) -> Json {
    match j {
        Json::Object(ms) => Json::Object(root_members(ms)),
        _ => j,
    }
}

pub proof fn lemma_clean_node_idempotent(j: Json)
    ensures
        clean_node(clean_node(j)) == clean_node(j),
    decreases j, 0int,
{
    if let Json::Object(ms) = j {
        lemma_clean_members_idempotent(ms);
    }
}

pub proof fn lemma_clean_members_idempotent(ms: Seq<(Seq<char>, Json)>)
    ensures
        clean_members(clean_members(ms)) == clean_members(ms),
    decreases ms, 0int,
{
    if ms.len() > 0 {
        let rest = clean_members(ms.drop_last());
        lemma_clean_members_idempotent(ms.drop_last());
        let k = ms.last().0;
        if !is_meta_key(k) {
            let c = clean_child(k, ms.last().1);
            lemma_clean_child_idempotent(k, ms.last().1);
            let r = rest.push((k, c));
            assert(r.drop_last() == rest);
        }
    }
}

pub proof fn lemma_clean_child_idempotent(k: Seq<char>, v: Json)
    ensures
        clean_child(k, clean_child(k, v)) == clean_child(k, v),
    decreases v, 1int,
{
    if is_schema_key(k) {
        lemma_clean_node_idempotent(v);
    } else if is_schema_map_key(k) {
        if let Json::Object(ms) = v {
            lemma_clean_map_idempotent(ms);
        }
    } else if is_schema_list_key(k) {
        if let Json::Array(xs) = v {
            lemma_clean_list_idempotent(xs);
        }
    } else if k == "items"@ {
        match v {
            Json::Array(xs) => lemma_clean_list_idempotent(xs),
            _ => lemma_clean_node_idempotent(v),
        }
    }
}

pub proof fn lemma_clean_list_idempotent(xs: Seq<Json>)
    ensures
        clean_list(clean_list(xs)) == clean_list(xs),
    decreases xs, 0int,
{
    if xs.len() > 0 {
        lemma_clean_list_idempotent(xs.drop_last());
        lemma_clean_node_idempotent(xs.last());
        let r = clean_list(xs);
        assert(r.drop_last() == clean_list(xs.drop_last()));
    }
}

pub proof fn lemma_clean_map_idempotent(ms: Seq<(Seq<char>, Json)>)
    ensures
        clean_map(clean_map(ms)) == clean_map(ms),
    decreases ms, 0int,
{
    if ms.len() > 0 {
        lemma_clean_map_idempotent(ms.drop_last());
        lemma_clean_node_idempotent(ms.last().1);
        let r = clean_map(ms);
        assert(r.drop_last() == clean_map(ms.drop_last()));
    }
}

/// The key `type` is no schema keyword.
proof fn lemma_type_is_plain_key()
    ensures
        !is_schema_key("type"@),
        !is_schema_map_key("type"@),
        !is_schema_list_key("type"@),
        "type"@ != "items"@,
{
    reveal_strlit("type");
    reveal_strlit("additionalProperties");
    reveal_strlit("propertyNames");
    reveal_strlit("contains");
    reveal_strlit("additionalItems");
    reveal_strlit("not");
    reveal_strlit("if");
    reveal_strlit("then");
    reveal_strlit("else");
    reveal_strlit("properties");
    reveal_strlit("patternProperties");
    reveal_strlit("allOf");
    reveal_strlit("anyOf");
    reveal_strlit("oneOf");
    reveal_strlit("items");
    assert("type"@[1] != "then"@[1]);
    assert("type"@[0] != "else"@[0]);
    assert("type"@.len() != "not"@.len());
}

proof fn lemma_root_members_idempotent(ms: Seq<(Seq<char>, Json)>)
    ensures
        root_members(root_members(ms)) == root_members(ms),
    decreases ms,
{
    if ms.len() > 0 {
        let rest = root_members(ms.drop_last());
        lemma_root_members_idempotent(ms.drop_last());
        let k = ms.last().0;
        let v = ms.last().1;
        if root_keeps(k, v) {
            let c = clean_child(k, v);
            lemma_clean_child_idempotent(k, v);
            let r = rest.push((k, c));
            assert(r.drop_last() == rest);
            if k == "type"@ {
                lemma_type_is_plain_key();
            }
        }
    }
}

/// Sanitizing a schema twice gives what sanitizing it once gives.
pub proof fn lemma_sanitized_idempotent(j: Json)
    ensures
        sanitized(sanitized(j)) == sanitized(j),
{
    if let Json::Object(ms) = j {
        lemma_root_members_idempotent(ms);
    }
}

fn is_meta(k: &str) -> (r: bool)
    ensures
        r == is_meta_key(k@),
{
    text_eq(k, "title") || text_eq(k, "description")
}

fn is_schema(k: &str) -> (r: bool)
    ensures
        r == is_schema_key(k@),
{
    text_eq(k, "additionalProperties") || text_eq(k, "propertyNames") || text_eq(k, "contains")
        || text_eq(k, "additionalItems") || text_eq(k, "not") || text_eq(k, "if") || text_eq(
        k,
        "then",
    ) || text_eq(k, "else")
}

fn is_schema_map(k: &str) -> (r: bool)
    ensures
        r == is_schema_map_key(k@),
{
    text_eq(k, "properties") || text_eq(k, "patternProperties")
}

fn is_schema_list(k: &str) -> (r: bool)
    ensures
        r == is_schema_list_key(k@),
{
    text_eq(k, "allOf") || text_eq(k, "anyOf") || text_eq(k, "oneOf")
}

fn clean_node_exec(v: JsonValue) -> (r: JsonValue)
    ensures
        r@ == clean_node(v@),
    decreases v@, 0int,
{
    match v {
        JsonValue::Object(ms) => JsonValue::Object(clean_members_exec(ms)),
        other => other,
    }
}

fn clean_members_exec(ms: Vec<(String, JsonValue)>) -> (r: Vec<(String, JsonValue)>)
    ensures
        members_view(r@) == clean_members(members_view(ms@)),
    decreases members_view(ms@), 0int,
{
    let ghost orig = ms@;
    proof {
        lemma_members_view(orig);
    }
    let mut rest = ms;
    let mut out: Vec<(String, JsonValue)> = Vec::new();
    let mut i: usize = 0;
    let n = rest.len();
    assert(n == orig.len());
    while rest.len() > 0
        invariant
            i <= orig.len() <= usize::MAX,
            rest@ == orig.subrange(i as int, orig.len() as int),
            members_view(orig).len() == orig.len(),
            forall|j: int|
                0 <= j < orig.len() ==> #[trigger] members_view(orig)[j] == (
                    orig[j].0@,
                    orig[j].1@,
                ),
            members_view(out@) == clean_members(members_view(orig.subrange(0, i as int))),
            orig == ms@,
        decreases rest.len(),
    {
        let (k, v) = rest.remove(0);
        proof {
            assert(orig[i as int] == (k, v));
            assert(orig.subrange(0, i + 1) == orig.subrange(0, i as int).push((k, v)));
            lemma_members_view_push(orig.subrange(0, i as int), (k, v));
            let mv = members_view(orig.subrange(0, i as int));
            assert(mv.push((k@, v@)).drop_last() == mv);
        }
        if !is_meta(k.as_str()) {
            proof {
                let m = members_view(orig)[i as int];
                assert(decreases_to!(members_view(orig) => m));
                assert(decreases_to!(m => m.1));
                assert(decreases_to!(members_view(orig) => v@));
            }
            let c = clean_child_exec(&k, v);
            proof {
                lemma_members_view_push(out@, (k, c));
            }
            out.push((k, c));
        }
        i = i + 1;
    }
    proof {
        assert(orig.subrange(0, orig.len() as int) == orig);
    }
    out
}

fn clean_child_exec(k: &String, v: JsonValue) -> (r: JsonValue)
    ensures
        r@ == clean_child(k@, v@),
    decreases v@, 1int,
{
    if is_schema(k.as_str()) {
        clean_node_exec(v)
    } else if is_schema_map(k.as_str()) {
        match v {
            JsonValue::Object(ms) => JsonValue::Object(clean_map_exec(ms)),
            other => other,
        }
    } else if is_schema_list(k.as_str()) {
        match v {
            JsonValue::Array(xs) => JsonValue::Array(clean_list_exec(xs)),
            other => other,
        }
    } else if text_eq(k.as_str(), "items") {
        match v {
            JsonValue::Array(xs) => JsonValue::Array(clean_list_exec(xs)),
            other => clean_node_exec(other),
        }
    } else {
        v
    }
}

fn clean_list_exec(xs: Vec<JsonValue>) -> (r: Vec<JsonValue>)
    ensures
        items_view(r@) == clean_list(items_view(xs@)),
    decreases items_view(xs@), 0int,
{
    let ghost orig = xs@;
    proof {
        lemma_items_view(orig);
    }
    let mut rest = xs;
    let mut out: Vec<JsonValue> = Vec::new();
    let mut i: usize = 0;
    let n = rest.len();
    assert(n == orig.len());
    while rest.len() > 0
        invariant
            i <= orig.len() <= usize::MAX,
            rest@ == orig.subrange(i as int, orig.len() as int),
            items_view(orig).len() == orig.len(),
            forall|j: int| 0 <= j < orig.len() ==> #[trigger] items_view(orig)[j] == orig[j]@,
            items_view(out@) == clean_list(items_view(orig.subrange(0, i as int))),
            orig == xs@,
        decreases rest.len(),
    {
        let x = rest.remove(0);
        proof {
            assert(orig[i as int] == x);
            assert(orig.subrange(0, i + 1) == orig.subrange(0, i as int).push(x));
            lemma_items_view_push(orig.subrange(0, i as int), x);
            let iv = items_view(orig.subrange(0, i as int));
            assert(iv.push(x@).drop_last() == iv);
            assert(decreases_to!(items_view(orig) => items_view(orig)[i as int]));
            assert(decreases_to!(items_view(orig) => x@));
        }
        let c = clean_node_exec(x);
        proof {
            lemma_items_view_push(out@, c);
        }
        out.push(c);
        i = i + 1;
    }
    proof {
        assert(orig.subrange(0, orig.len() as int) == orig);
    }
    out
}

fn clean_map_exec(ms: Vec<(String, JsonValue)>) -> (r: Vec<(String, JsonValue)>)
    ensures
        members_view(r@) == clean_map(members_view(ms@)),
    decreases members_view(ms@), 0int,
{
    let ghost orig = ms@;
    proof {
        lemma_members_view(orig);
    }
    let mut rest = ms;
    let mut out: Vec<(String, JsonValue)> = Vec::new();
    let mut i: usize = 0;
    let n = rest.len();
    assert(n == orig.len());
    while rest.len() > 0
        invariant
            i <= orig.len() <= usize::MAX,
            rest@ == orig.subrange(i as int, orig.len() as int),
            members_view(orig).len() == orig.len(),
            forall|j: int|
                0 <= j < orig.len() ==> #[trigger] members_view(orig)[j] == (
                    orig[j].0@,
                    orig[j].1@,
                ),
            members_view(out@) == clean_map(members_view(orig.subrange(0, i as int))),
            orig == ms@,
        decreases rest.len(),
    {
        let (k, v) = rest.remove(0);
        proof {
            assert(orig[i as int] == (k, v));
            assert(orig.subrange(0, i + 1) == orig.subrange(0, i as int).push((k, v)));
            lemma_members_view_push(orig.subrange(0, i as int), (k, v));
            let mv = members_view(orig.subrange(0, i as int));
            assert(mv.push((k@, v@)).drop_last() == mv);
            let m = members_view(orig)[i as int];
            assert(decreases_to!(members_view(orig) => m));
            assert(decreases_to!(m => m.1));
            assert(decreases_to!(members_view(orig) => v@));
        }
        let c = clean_node_exec(v);
        proof {
            lemma_members_view_push(out@, (k, c));
        }
        out.push((k, c));
        i = i + 1;
    }
    proof {
        assert(orig.subrange(0, orig.len() as int) == orig);
    }
    out
}

/// Whether a value is the string `null`.
fn is_null_type(v: &JsonValue) -> (r: bool)
    ensures
        r == (v@ == Json::Str("null"@)),
{
    match v {
        JsonValue::Str(s) => text_eq(s.as_str(), "null"),
        _ => false,
    }
}

/// Sanitizes a schema document: drops its meta-schema reference, the title and
/// description of every schema node, and a root type that admits only `null`.
pub fn sanitize(schema: JsonValue) -> (r: JsonValue)
    ensures
        r@ == sanitized(schema@),
{
    match schema {
        JsonValue::Object(ms) => {
            let ghost orig = ms@;
            proof {
                lemma_members_view(orig);
            }
            let mut rest = ms;
            let mut out: Vec<(String, JsonValue)> = Vec::new();
            let mut i: usize = 0;
            let n = rest.len();
            assert(n == orig.len());
            while rest.len() > 0
                invariant
                    i <= orig.len() <= usize::MAX,
                    rest@ == orig.subrange(i as int, orig.len() as int),
                    members_view(orig).len() == orig.len(),
                    forall|j: int|
                        0 <= j < orig.len() ==> #[trigger] members_view(orig)[j] == (
                            orig[j].0@,
                            orig[j].1@,
                        ),
                    members_view(out@) == root_members(members_view(orig.subrange(0, i as int))),
                decreases rest.len(),
            {
                let (k, v) = rest.remove(0);
                proof {
                    assert(orig[i as int] == (k, v));
                    assert(orig.subrange(0, i + 1) == orig.subrange(0, i as int).push((k, v)));
                    lemma_members_view_push(orig.subrange(0, i as int), (k, v));
                    let mv = members_view(orig.subrange(0, i as int));
                    assert(mv.push((k@, v@)).drop_last() == mv);
                }
                let keep = !text_eq(k.as_str(), "$schema") && !is_meta(k.as_str()) && !(text_eq(
                    k.as_str(),
                    "type",
                ) && is_null_type(&v));
                if keep {
                    let c = clean_child_exec(&k, v);
                    proof {
                        lemma_members_view_push(out@, (k, c));
                    }
                    out.push((k, c));
                }
                i = i + 1;
            }
            proof {
                assert(orig.subrange(0, orig.len() as int) == orig);
            }
            JsonValue::Object(out)
        },
        other => other,
    }
}

} // verus!
