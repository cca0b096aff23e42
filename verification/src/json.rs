//! The JSON renderer: a canonical indented form.
//!
//! Containers always span multiple lines: `[` or `{`, then each element
//! on its own line one level deeper, `,` between elements, and the
//! closing bracket on its own line at the current level — also when the
//! container is empty, so an empty array still renders as `[`, a
//! newline, the indentation, `]`. Strings are double-quoted and escaped;
//! numbers, booleans and null are written verbatim. Keys are tagged
//! [`Role::Key`], string values [`Role::StringLiteral`].

use vstd::prelude::*;
use vstd::string::StringExecFns;

use crate::text::{spaces, nl_ind, json_quote, quote, lemma_spaces_step};
use crate::value::{
    Value, Role, Span, SpanModel, plain, tagged, vspans, spans_text, spans_text_to, push_plain,
    push_plain_str, push_tagged, spans_to_plain,
};

verus! {

/// The spans of the JSON rendering of `v` at nesting level `depth`.
pub open spec fn json_spans(depth: nat, v: Value) -> Seq<SpanModel>
    decreases v, 0int,
{
    match v {
        Value::Null => seq![plain("null"@)],
        Value::Bool(b) => seq![plain(if b {
            "true"@
        } else {
            "false"@
        })],
        Value::Number(n) => seq![plain(n@)],
        Value::Text(s) => seq![tagged(Role::StringLiteral, json_quote(s@))],
        Value::Sequence(arr) => seq![plain("["@)] + json_elems_to(depth, arr, arr.len() as int)
            + seq![plain(nl_ind(depth)), plain("]"@)],
        Value::Mapping(obj) => seq![plain("{"@)] + json_members_to(depth, obj, obj.len() as int)
            + seq![plain(nl_ind(depth)), plain("}"@)],
    }
}

/// The spans of the first `i` elements of a JSON array at level `depth`:
/// for each element a newline and one deeper indentation, the element,
/// and a comma unless it is the array's last element.
pub open spec fn json_elems_to(depth: nat, arr: Vec<Value>, i: int) -> Seq<SpanModel>
    decreases arr, i,
    via json_elems_to_dec
{
    if i <= 0 || i > arr.len() {
        Seq::empty()
    } else {
        json_elems_to(depth, arr, i - 1) + seq![plain(nl_ind((depth + 1) as nat))] + json_spans(
            (depth + 1) as nat,
            arr[i - 1],
        ) + (if i == arr.len() {
            Seq::<SpanModel>::empty()
        } else {
            seq![plain(","@)]
        })
    }
}

#[via_fn]
proof fn json_elems_to_dec(depth: nat, arr: Vec<Value>, i: int) {
    if 0 < i && i <= arr.len() {
        assert(decreases_to!(arr => arr[i - 1]));
    }
}

/// The spans of the first `i` members of a JSON object at level `depth`:
/// for each member a newline and one deeper indentation, the quoted key
/// tagged as a key, `: `, the value, and a comma unless it is the last
/// member.
pub open spec fn json_members_to(depth: nat, obj: Vec<(String, Value)>, i: int) -> Seq<SpanModel>
    decreases obj, i,
    via json_members_to_dec
{
    if i <= 0 || i > obj.len() {
        Seq::empty()
    } else {
        json_members_to(depth, obj, i - 1) + seq![
            plain(nl_ind((depth + 1) as nat)),
            tagged(Role::Key, json_quote(obj[i - 1].0@)),
            plain(": "@),
        ] + json_spans((depth + 1) as nat, obj[i - 1].1) + (if i == obj.len() {
            Seq::<SpanModel>::empty()
        } else {
            seq![plain(","@)]
        })
    }
}

#[via_fn]
proof fn json_members_to_dec(depth: nat, obj: Vec<(String, Value)>, i: int) {
    if 0 < i && i <= obj.len() {
        assert(decreases_to!(obj => obj[i - 1]));
        assert(decreases_to!(obj[i - 1] => obj[i - 1].1));
    }
}

#[verifier::loop_isolation(false)]
fn write_json(out: &mut Vec<Span>, ind: &String, Ghost(depth): Ghost<nat>, v: &Value)
    requires
        ind@ == spaces(2 * depth),
    ensures
        vspans(final(out)@) == vspans(old(out)@) + json_spans(depth, *v),
    decreases *v,
{
    match v {
        Value::Null => {
            push_plain_str(out, "null");
        },
        Value::Bool(b) => {
            if *b {
                push_plain_str(out, "true");
            } else {
                push_plain_str(out, "false");
            }
        },
        Value::Number(n) => {
            push_plain_str(out, n.as_str());
        },
        Value::Text(s) => {
            let q = quote(s.as_str());
            push_tagged(out, Role::StringLiteral, q);
        },
        Value::Sequence(arr) => {
            push_plain_str(out, "[");
            let mut child: String = ind.clone();
            child.append("  ");
            proof {
                lemma_spaces_step(2 * depth);
                assert(child@ == spaces(2 * ((depth + 1) as nat)));
            }
            let mut i: usize = 0;
            while i < arr.len()
                invariant
                    i <= arr.len(),
                    ind@ == spaces(2 * depth),
                    child@ == spaces(2 * ((depth + 1) as nat)),
                    vspans(out@) == vspans(old(out)@) + seq![plain("["@)] + json_elems_to(
                        depth,
                        *arr,
                        i as int,
                    ),
                decreases arr.len() - i,
            {
                let mut t: String = "\n".to_owned();
                t.append(child.as_str());
                push_plain(out, t);
                proof {
                    assert(decreases_to!(*v => v->Sequence_0));
                    assert(v->Sequence_0 == *arr);
                    assert(decreases_to!(*arr => (*arr)[i as int]));
                }
                write_json(out, &child, Ghost((depth + 1) as nat), &arr[i]);
                if i + 1 != arr.len() {
                    push_plain_str(out, ",");
                }
                proof {
                    assert(vspans(out@) =~= vspans(old(out)@) + seq![plain("["@)] + json_elems_to(
                        depth,
                        *arr,
                        i as int + 1,
                    ));
                }
                i = i + 1;
            }
            let mut t2: String = "\n".to_owned();
            t2.append(ind.as_str());
            push_plain(out, t2);
            push_plain_str(out, "]");
            proof {
                assert(vspans(out@) =~= vspans(old(out)@) + json_spans(depth, *v));
            }
        },
        Value::Mapping(obj) => {
            push_plain_str(out, "{");
            let mut child: String = ind.clone();
            child.append("  ");
            proof {
                lemma_spaces_step(2 * depth);
                assert(child@ == spaces(2 * ((depth + 1) as nat)));
            }
            let mut i: usize = 0;
            while i < obj.len()
                invariant
                    i <= obj.len(),
                    ind@ == spaces(2 * depth),
                    child@ == spaces(2 * ((depth + 1) as nat)),
                    vspans(out@) == vspans(old(out)@) + seq![plain("{"@)] + json_members_to(
                        depth,
                        *obj,
                        i as int,
                    ),
                decreases obj.len() - i,
            {
                let mut t: String = "\n".to_owned();
                t.append(child.as_str());
                push_plain(out, t);
                let kv = &obj[i];
                let q = quote(kv.0.as_str());
                push_tagged(out, Role::Key, q);
                push_plain_str(out, ": ");
                proof {
                    assert(decreases_to!(*v => v->Mapping_0));
                    assert(v->Mapping_0 == *obj);
                    assert(decreases_to!(*obj => (*obj)[i as int]));
                    assert(decreases_to!((*obj)[i as int] => (*obj)[i as int].1));
                }
                write_json(out, &child, Ghost((depth + 1) as nat), &kv.1);
                if i + 1 != obj.len() {
                    push_plain_str(out, ",");
                }
                proof {
                    assert(vspans(out@) =~= vspans(old(out)@) + seq![plain("{"@)]
                        + json_members_to(depth, *obj, i as int + 1));
                }
                i = i + 1;
            }
            let mut t2: String = "\n".to_owned();
            t2.append(ind.as_str());
            push_plain(out, t2);
            push_plain_str(out, "}");
            proof {
                assert(vspans(out@) =~= vspans(old(out)@) + json_spans(depth, *v));
            }
        },
    }
}

/// Renders `v` as canonical indented JSON, starting at nesting level 0.
/// The output spans are exactly [`json_spans`]`(0, v)`; rendering is a
/// pure function of the tree, so two renderings of one tree are
/// identical.
pub fn render_json(v: &Value) -> (out: Vec<Span>)
    ensures
        vspans(out@) == json_spans(0, *v),
{
    let mut out: Vec<Span> = Vec::new();
    let ind = String::new();
    proof {
        assert(ind@ =~= spaces(0));
        assert(vspans(out@) =~= Seq::<SpanModel>::empty());
    }
    write_json(&mut out, &ind, Ghost(0 as nat), v);
    proof {
        assert(vspans(out@) =~= json_spans(0, *v));
    }
    out
}

/// The plain (uncoloured) JSON rendering of `v`: the concatenated texts
/// of [`render_json`]'s spans.
pub fn render_json_plain(v: &Value) -> (r: String)
    ensures
        r@ == spans_text(json_spans(0, *v)),
{
    let spans = render_json(v);
    spans_to_plain(&spans)
}

/// A number or boolean value renders in JSON to exactly the text it
/// holds: the number's original source text verbatim, a boolean as
/// `true` or `false`.
pub proof fn lemma_json_scalar_verbatim(depth: nat, v: Value)
    requires
        v is Number || v is Bool,
    ensures
        v matches Value::Number(n) ==> spans_text(json_spans(depth, v)) == n@,
        v matches Value::Bool(b) ==> spans_text(json_spans(depth, v)) == (if b {
            "true"@
        } else {
            "false"@
        }),
{
    let s = json_spans(depth, v);
    assert(spans_text_to(s, 0) == Seq::<char>::empty());
    assert(spans_text_to(s, 1) =~= s[0].1);
}

} // verus!
