//! The starting values of the argument form that a tool's JSON schema describes.
use vstd::prelude::*;
use crate::json::{Json, JsonNumber, json_get, as_str, into_member};
use crate::text::str_eq;

verus! {

/// Position of the first member named `key`.
pub open spec fn first_index(fields: Seq<(String, Json)>, key: Seq<char>) -> Option<int>
    decreases fields.len(),
{
    if fields.len() == 0 {
        None
    } else if fields.last().0@ == key && first_index(fields.drop_last(), key) is None {
        Some(fields.len() - 1)
    } else {
        first_index(fields.drop_last(), key)
    }
}

/// `first_index` finds a member with that name, before which none has it.
pub proof fn lemma_first_index(fields: Seq<(String, Json)>, key: Seq<char>)
    ensures
        first_index(fields, key) matches Some(i) ==> 0 <= i < fields.len() && fields[i].0@ == key
            && forall|j: int| 0 <= j < i ==> fields[j].0@ != key,
        first_index(fields, key) is None ==> forall|j: int| 0 <= j < fields.len() ==> fields[j].0@ != key,
    decreases fields.len(),
{
    if fields.len() > 0 {
        let rest = fields.drop_last();
        lemma_first_index(rest, key);
        assert forall|j: int| 0 <= j < rest.len() implies #[trigger] rest[j] == fields[j] by {}
        match first_index(rest, key) {
            Some(i) => {
                assert(first_index(fields, key) == Some(i));
                assert forall|j: int| 0 <= j < i implies fields[j].0@ != key by {
                    assert(rest[j] == fields[j]);
                }
            },
            None => {
                assert forall|j: int| 0 <= j < fields.len() - 1 implies fields[j].0@ != key by {
                    assert(rest[j] == fields[j]);
                }
            },
        }
    }
}

/// Whether `d` is the starting value of a form field whose schema is `prop`: its
/// `default` when it has one, else by its `type`: an empty string, zero, `false`, the
/// starting values of a nested object, or null.
pub open spec fn field_default_ok(prop: Json, d: Json) -> bool
    decreases prop, 1int,
{
    match json_get(prop, "default"@) {
        Some(x) => d == x,
        None => {
            let t = as_str(json_get(prop, "type"@));
            if t == Some("string"@) {
                d matches Json::Str(s) && s@.len() == 0
            } else if t == Some("number"@) || t == Some("integer"@) {
                d == Json::Number(JsonNumber::PosInt(0))
            } else if t == Some("boolean"@) {
                d == Json::Bool(false)
            } else if t == Some("object"@) {
                form_defaults_ok(prop, d)
            } else {
                d == Json::Null
            }
        },
    }
}

/// Whether `out` pairs each property of `props`, in order, with its starting value.
pub open spec fn props_defaults_ok(props: Seq<(String, Json)>, out: Seq<(String, Json)>) -> bool
    decreases props, 0int,
{
    if props.len() == 0 {
        out.len() == 0
    } else {
        &&& out.len() == props.len()
        &&& out[0].0@ == props[0].0@
        &&& field_default_ok(props[0].1, out[0].1)
        &&& props_defaults_ok(props.subrange(1, props.len() as int), out.subrange(1, out.len() as int))
    }
}

/// Whether `r` is the form value a schema starts with: an object with one member per
/// entry of the schema's `properties` object, in order; an empty object when the
/// schema has no such object.
pub open spec fn form_defaults_ok(schema: Json, r: Json) -> bool
    decreases schema, 0int,
{
    match schema {
        Json::Object(fields) => match first_index(fields@, "properties"@) {
            Some(pi) => if 0 <= pi < fields@.len() {
                match fields@[pi].1 {
                    Json::Object(props) => r matches Json::Object(out) && props_defaults_ok(props@, out@),
                    _ => r matches Json::Object(out) && out@.len() == 0,
                }
            } else {
                r matches Json::Object(out) && out@.len() == 0
            },
            None => r matches Json::Object(out) && out@.len() == 0,
        },
        _ => r matches Json::Object(out) && out@.len() == 0,
    }
}

/// `props_defaults_ok` member by member.
pub proof fn lemma_props_defaults_ok(props: Seq<(String, Json)>, out: Seq<(String, Json)>)
    ensures
        props_defaults_ok(props, out) <==> (out.len() == props.len() && forall|i: int|
            0 <= i < props.len() ==> #[trigger] out[i].0@ == props[i].0@ && field_default_ok(props[i].1, out[i].1)),
    decreases props.len(),
{
    if props.len() > 0 && out.len() == props.len() {
        let p1 = props.subrange(1, props.len() as int);
        let o1 = out.subrange(1, out.len() as int);
        lemma_props_defaults_ok(p1, o1);
        assert forall|i: int| 0 <= i < p1.len() implies #[trigger] p1[i] == props[i + 1] && o1[i] == out[i + 1] by {}
        if forall|i: int| 0 <= i < props.len() ==> #[trigger] out[i].0@ == props[i].0@ && field_default_ok(props[i].1, out[i].1) {
            assert forall|i: int| 0 <= i < p1.len() implies #[trigger] o1[i].0@ == p1[i].0@ && field_default_ok(p1[i].1, o1[i].1) by {
                assert(out[i + 1].0@ == props[i + 1].0@);
            }
            assert(out[0].0@ == props[0].0@ && field_default_ok(props[0].1, out[0].1));
            assert(props_defaults_ok(p1, o1));
            assert(props_defaults_ok(props, out));
        }
        if props_defaults_ok(props, out) {
            assert forall|i: int| 0 <= i < props.len() implies #[trigger] out[i].0@ == props[i].0@ && field_default_ok(props[i].1, out[i].1) by {
                if i > 0 {
                    assert(o1[i - 1].0@ == p1[i - 1].0@);
                }
            }
        }
    }
}

fn find_first(fields: &Vec<(String, Json)>, key: &str) -> (r: Option<usize>)
    ensures
        match r {
            Some(i) => first_index(fields@, key@) == Some(i as int),
            None => first_index(fields@, key@) is None,
        },
{
    proof {
        lemma_first_index(fields@, key@);
    }
    let mut i: usize = 0;
    while i < fields.len()
        invariant
            i <= fields@.len(),
            forall|j: int| 0 <= j < i ==> fields@[j].0@ != key@,
        decreases fields.len() - i,
    {
        if str_eq(fields[i].0.as_str(), key) {
            proof {
                lemma_first_index(fields@, key@);
                if let Some(k) = first_index(fields@, key@) {
                    if k < i {
                        assert(fields@[k].0@ != key@);
                    }
                    if k > i {
                        assert(fields@[i as int].0@ != key@);
                    }
                } else {
                    assert(fields@[i as int].0@ != key@);
                }
            }
            return Some(i);
        }
        i = i + 1;
    }
    proof {
        lemma_first_index(fields@, key@);
        if let Some(k) = first_index(fields@, key@) {
            assert(fields@[k].0@ != key@);
        }
    }
    None
}

/// The starting value of the argument form for a tool whose parameters `schema`
/// describes: an object with each property's `default`, or a value by its `type`.
pub fn build_form_defaults(schema: Json) -> (r: Json)
    ensures
        form_defaults_ok(schema, r),
    decreases schema,
{
    let ghost orig = schema;
    let fields = match schema {
        Json::Object(f) => f,
        _ => {
            return Json::Object(Vec::new());
        },
    };
    let ghost fs = fields@;
    proof {
        lemma_first_index(fs, "properties"@);
    }
    let pi = match find_first(&fields, "properties") {
        Some(i) => i,
        None => {
            return Json::Object(Vec::new());
        },
    };
    let mut fields = fields;
    let (_, pv) = fields.remove(pi);
    assert(pv == fs[pi as int].1);
    let mut props = match pv {
        Json::Object(p) => p,
        _ => {
            return Json::Object(Vec::new());
        },
    };
    let ghost props0 = props@;
    let ghost n = props0.len();
    assert(n == props.len());
    let mut out: Vec<(String, Json)> = Vec::new();
    let mut i: usize = 0;
    assert(props0.subrange(0, n as int) =~= props0);
    while props.len() > 0
        invariant
            orig == schema,
            n == props0.len(),
            n <= usize::MAX,
            i <= n,
            props@ == props0.subrange(i as int, n as int),
            out@.len() == i,
            forall|j: int| 0 <= j < i ==> #[trigger] out@[j].0@ == props0[j].0@ && field_default_ok(props0[j].1, out@[j].1),
            orig matches Json::Object(fv) && fv@ == fs,
            0 <= pi < fs.len(),
            fs[pi as int].1 matches Json::Object(pvv) && pvv@ == props0,
        decreases props.len(),
    {
        assert(props@.len() == n - i);
        assert(props@[0] == props0[i as int]);
        let (key, prop) = props.remove(0);
        assert(prop == props0[i as int].1);
        let has_default = match prop.get("default") {
            Some(_) => true,
            None => false,
        };
        let d = if has_default {
            match into_member(prop, "default") {
                Some(x) => x,
                None => Json::Null,
            }
        } else {
            let kind: u8 = match prop.get("type") {
                Some(t) => match t.as_str() {
                    Some(t) => if str_eq(t, "string") {
                        1
                    } else if str_eq(t, "number") || str_eq(t, "integer") {
                        2
                    } else if str_eq(t, "boolean") {
                        3
                    } else if str_eq(t, "object") {
                        4
                    } else {
                        0
                    },
                    None => 0,
                },
                None => 0,
            };
            if kind == 1 {
                Json::Str(String::new())
            } else if kind == 2 {
                Json::Number(JsonNumber::PosInt(0))
            } else if kind == 3 {
                Json::Bool(false)
            } else if kind == 4 {
                assert(decreases_to!(orig => prop)) by {
                    if let Json::Object(fv) = orig {
                        if let Json::Object(pvv) = fs[pi as int].1 {
                            assert(decreases_to!(orig => fv));
                            assert(decreases_to!(fv => fv@));
                            assert(decreases_to!(fs => fs[pi as int]));
                            assert(decreases_to!(fs[pi as int] => fs[pi as int].1));
                            assert(decreases_to!(fs[pi as int].1 => pvv));
                            assert(decreases_to!(pvv => pvv@));
                            assert(decreases_to!(props0 => props0[i as int]));
                            assert(decreases_to!(props0[i as int] => props0[i as int].1));
                        }
                    }
                }
                build_form_defaults(prop)
            } else {
                Json::Null
            }
        };
        out.push((key, d));
        i = i + 1;
        assert(props@ =~= props0.subrange(i as int, n as int));
    }
    proof {
        lemma_props_defaults_ok(props0, out@);
        assert(i == n);
        assert(props_defaults_ok(props0, out@));
        assert(first_index(fs, "properties"@) == Some(pi as int));
    }
    let r = Json::Object(out);
    assert(form_defaults_ok(orig, r));
    r
}

} // verus!
