//! The TOML renderer.
//!
//! Arrays always render inline, `[e1, e2, …]`; a mapping inside an
//! inline array renders as an inline table `{ k = v, … }`. Null-valued
//! members are dropped silently, both inline and in tables. A non-inline
//! mapping is split into its flat members (value neither a mapping nor
//! an array of mappings), emitted first as `key = value` lines, and its
//! nested members, each emitted after a blank line: a nested mapping
//! under a `[context.key]` header — omitted when every member of that
//! mapping is itself nested — and a nested array of mappings as one
//! `[[context.key]]` header per element. A null value outside every
//! container has no TOML form and is a distinct, named error.

use vstd::prelude::*;
use vstd::string::StrSliceExecFns;
use vstd::string::StringExecFns;

use crate::text::{json_quote, quote, ascii_digit};
use crate::value::{
    Value, Role, Span, SpanModel, plain, tagged, vspans, spans_text, push_plain_str, push_tagged,
    spans_to_plain,
};

verus! {

/// A character allowed in a bare TOML key: ASCII letters, digits, `_`
/// and `-`.
pub open spec fn bare_key_char(c: char) -> bool {
    ascii_digit(c) || (0x41 <= (c as u32) && (c as u32) <= 0x5a) || (0x61 <= (c as u32) && (
    c as u32) <= 0x7a) || c == '_' || c == '-'
}

/// Whether `s` may stand as a bare TOML key.
pub open spec fn bare_key(s: Seq<char>) -> bool {
    s.len() > 0 && forall|i: int| 0 <= i < s.len() ==> bare_key_char(#[trigger] s[i])
}

/// The printed form of a TOML key: bare if it matches the bare-key
/// alphabet, otherwise double-quoted.
pub open spec fn toml_key_text(s: Seq<char>) -> Seq<char> {
    if bare_key(s) {
        s
    } else {
        json_quote(s)
    }
}

/// The printed form of a TOML key, as [`toml_key_text`] states it.
#[verifier::loop_isolation(false)]
pub fn toml_key(s: &str) -> (r: String)
    ensures
        r@ == toml_key_text(s@),
{
    let n = s.unicode_len();
    let mut bare: bool = n > 0;
    let mut i: usize = 0;
    while i < n
        invariant
            i <= n,
            n == s@.len(),
            bare == (n > 0 && forall|j: int| 0 <= j < i ==> bare_key_char(#[trigger] s@[j])),
        decreases n - i,
    {
        let c = s.get_char(i);
        let u = c as u32;
        let ok = (u >= 0x30 && u <= 0x39) || (u >= 0x41 && u <= 0x5a) || (u >= 0x61 && u <= 0x7a)
            || c == '_' || c == '-';
        bare = bare && ok;
        i = i + 1;
    }
    if bare {
        s.to_owned()
    } else {
        quote(s)
    }
}

/// Whether `v` is an array whose every element is a mapping — the shape
/// that renders as `[[section]]` table headers.
pub open spec fn is_object_array(v: Value) -> bool {
    v matches Value::Sequence(arr) && (forall|i: int|
        0 <= i < arr.len() ==> (#[trigger] arr[i]) is Mapping)
}

/// Whether a member value is hoisted out of its table: a mapping, or an
/// array of mappings.
pub open spec fn should_nest(v: Value) -> bool {
    v is Mapping || is_object_array(v)
}

/// A member that is emitted inside the current table: not dropped as
/// null, and not hoisted.
pub open spec fn is_flat_member(v: Value) -> bool {
    !(v is Null) && !should_nest(v)
}

/// A member that is hoisted below the current table: not dropped as
/// null, and a mapping or array of mappings.
pub open spec fn is_nested_member(v: Value) -> bool {
    !(v is Null) && should_nest(v)
}

/// An array value renders as TOML `[[section]]` table entries iff every
/// one of its elements is a mapping; with even one non-mapping element
/// the member is flat and the whole array renders inline instead.
pub proof fn lemma_array_of_tables_iff(arr: Vec<Value>)
    ensures
        is_nested_member(Value::Sequence(arr)) <==> (forall|i: int|
            0 <= i < arr@.len() ==> (#[trigger] arr@[i]) is Mapping),
        is_flat_member(Value::Sequence(arr)) <==> exists|i: int|
            0 <= i < arr@.len() && !((#[trigger] arr@[i]) is Mapping),
{
}

/// The spans of a TOML scalar: booleans and numbers verbatim, strings
/// double-quoted and tagged as string literals.
pub open spec fn toml_scalar(v: Value) -> Seq<SpanModel> {
    match v {
        Value::Bool(b) => seq![plain(if b {
            "true"@
        } else {
            "false"@
        })],
        Value::Number(n) => seq![plain(n@)],
        Value::Text(s) => seq![tagged(Role::StringLiteral, json_quote(s@))],
        _ => Seq::empty(),
    }
}

/// Whether any of the first `j` elements is not null (so a separator is
/// owed before the next inline element).
pub open spec fn any_nonnull_elem(arr: Vec<Value>, j: int) -> bool {
    exists|t: int| 0 <= t < j && !((#[trigger] arr[t]) is Null)
}

/// Whether any of the first `j` members has a non-null value.
pub open spec fn any_nonnull_member(obj: Vec<(String, Value)>, j: int) -> bool {
    exists|t: int| 0 <= t < j && !((#[trigger] obj[t]).1 is Null)
}

/// The spans of the inline TOML form of `v`: arrays as `[e1, e2, …]`,
/// mappings as `{ k = v, … }`, null members dropped, scalars as
/// [`toml_scalar`].
pub open spec fn toml_inline(v: Value) -> Seq<SpanModel>
    decreases v, 0int, 0int,
{
    match v {
        Value::Sequence(arr) => seq![plain("["@)] + toml_inline_elems_to(arr, arr.len() as int)
            + seq![plain("]"@)],
        Value::Mapping(obj) => seq![plain("{"@)] + toml_inline_members_to(obj, obj.len() as int) + (
        if any_nonnull_member(obj, obj.len() as int) {
            seq![plain(" "@)]
        } else {
            Seq::<SpanModel>::empty()
        }) + seq![plain("}"@)],
        _ => toml_scalar(v),
    }
}

/// The spans of the first `i` elements of an inline array: null elements
/// dropped, `, ` between the elements that remain.
pub open spec fn toml_inline_elems_to(arr: Vec<Value>, i: int) -> Seq<SpanModel>
    decreases arr, i, 0int,
    via toml_inline_elems_to_dec
{
    if i <= 0 || i > arr.len() {
        Seq::empty()
    } else {
        toml_inline_elems_to(arr, i - 1) + (if arr[i - 1] is Null {
            Seq::<SpanModel>::empty()
        } else {
            (if any_nonnull_elem(arr, i - 1) {
                seq![plain(", "@)]
            } else {
                Seq::<SpanModel>::empty()
            }) + toml_inline(arr[i - 1])
        })
    }
}

#[via_fn]
proof fn toml_inline_elems_to_dec(arr: Vec<Value>, i: int) {
    if 0 < i && i <= arr.len() {
        assert(decreases_to!(arr => arr[i - 1]));
    }
}

/// The spans of the first `i` members of an inline table: null members
/// dropped, for each member a key span carrying one leading space, then
/// ` = ` and the member's inline value, `,` between members.
pub open spec fn toml_inline_members_to(obj: Vec<(String, Value)>, i: int) -> Seq<SpanModel>
    decreases obj, i, 0int,
    via toml_inline_members_to_dec
{
    if i <= 0 || i > obj.len() {
        Seq::empty()
    } else {
        toml_inline_members_to(obj, i - 1) + (if obj[i - 1].1 is Null {
            Seq::<SpanModel>::empty()
        } else {
            (if any_nonnull_member(obj, i - 1) {
                seq![plain(","@)]
            } else {
                Seq::<SpanModel>::empty()
            }) + seq![tagged(Role::Key, " "@ + toml_key_text(obj[i - 1].0@)), plain(" = "@)]
                + toml_inline(obj[i - 1].1)
        })
    }
}

#[via_fn]
proof fn toml_inline_members_to_dec(obj: Vec<(String, Value)>, i: int) {
    if 0 < i && i <= obj.len() {
        assert(decreases_to!(obj => obj[i - 1]));
        assert(decreases_to!(obj[i - 1] => obj[i - 1].1));
    }
}

/// The spans of a flat member's value: an array inline, a scalar as
/// itself.
pub open spec fn toml_flat_value(v: Value) -> Seq<SpanModel>
    decreases v, 1int, 0int,
{
    if v is Sequence {
        toml_inline(v)
    } else {
        toml_scalar(v)
    }
}

/// Whether any of the first `j` members is flat.
pub open spec fn any_flat_to(obj: Vec<(String, Value)>, j: int) -> bool {
    exists|t: int| 0 <= t < j && is_flat_member((#[trigger] obj[t]).1)
}

/// Whether any of the first `j` members is nested.
pub open spec fn any_nested_to(obj: Vec<(String, Value)>, j: int) -> bool {
    exists|t: int| 0 <= t < j && is_nested_member((#[trigger] obj[t]).1)
}

/// Whether any member of `obj` is not itself hoisted — exactly when a
/// `[section]` header is written for `obj`, and omitted when `obj` is a
/// pure pass-through container of sub-tables.
pub open spec fn any_direct_member(obj: Vec<(String, Value)>) -> bool {
    exists|t: int| 0 <= t < obj.len() && !should_nest((#[trigger] obj[t]).1)
}

/// The spans of the first `i` members' flat part: for each flat member,
/// its key, ` = ` and its inline value, with a newline before every flat
/// member but the first.
pub open spec fn toml_flat_to(obj: Vec<(String, Value)>, i: int) -> Seq<SpanModel>
    decreases obj, i, 2int,
    via toml_flat_to_dec
{
    if i <= 0 || i > obj.len() {
        Seq::empty()
    } else {
        toml_flat_to(obj, i - 1) + (if is_flat_member(obj[i - 1].1) {
            (if any_flat_to(obj, i - 1) {
                seq![plain("\n"@)]
            } else {
                Seq::<SpanModel>::empty()
            }) + seq![tagged(Role::Key, toml_key_text(obj[i - 1].0@)), plain(" = "@)]
                + toml_flat_value(obj[i - 1].1)
        } else {
            Seq::<SpanModel>::empty()
        })
    }
}

#[via_fn]
proof fn toml_flat_to_dec(obj: Vec<(String, Value)>, i: int) {
    if 0 < i && i <= obj.len() {
        assert(decreases_to!(obj => obj[i - 1]));
        assert(decreases_to!(obj[i - 1] => obj[i - 1].1));
    }
}

/// The spans of the TOML rendering of `v` under the dotted-header
/// context `ctx`: arrays inline, scalars as themselves, a mapping as its
/// flat members followed by its nested members. A null value has no
/// TOML form; the renderer reports it instead of producing spans.
pub open spec fn toml_spans(ctx: Seq<char>, v: Value) -> Seq<SpanModel>
    decreases v, 3int, 0int,
{
    match v {
        Value::Sequence(_) => toml_inline(v),
        Value::Mapping(obj) => toml_flat_to(obj, obj.len() as int) + toml_nested_to(
            ctx,
            obj,
            obj.len() as int,
        ),
        Value::Null => Seq::empty(),
        _ => toml_scalar(v),
    }
}

/// The spans of the first `i` members' nested part. Each nested member
/// is preceded by a blank line unless nothing was emitted before it; a
/// nested mapping gets a `[ctx.key]` header unless all its members are
/// themselves nested, then its own rendering under the extended context;
/// a nested array of mappings gets one `[[ctx.key]]` entry per element.
pub open spec fn toml_nested_to(ctx: Seq<char>, obj: Vec<(String, Value)>, i: int) -> Seq<
    SpanModel,
>
    decreases obj, i, 1int,
    via toml_nested_to_dec
{
    if i <= 0 || i > obj.len() {
        Seq::empty()
    } else {
        toml_nested_to(ctx, obj, i - 1) + (if is_nested_member(obj[i - 1].1) {
            (if any_flat_to(obj, obj.len() as int) || any_nested_to(obj, i - 1) {
                seq![plain("\n\n"@)]
            } else {
                Seq::<SpanModel>::empty()
            }) + (match obj[i - 1].1 {
                Value::Mapping(inner) => (if any_direct_member(inner) {
                    seq![
                        tagged(
                            Role::SectionHeader,
                            "["@ + ctx + toml_key_text(obj[i - 1].0@) + "]\n"@,
                        ),
                    ]
                } else {
                    Seq::<SpanModel>::empty()
                }) + toml_spans(ctx + toml_key_text(obj[i - 1].0@) + "."@, obj[i - 1].1),
                Value::Sequence(arr) => toml_tables_to(
                    ctx + toml_key_text(obj[i - 1].0@),
                    arr,
                    arr.len() as int,
                ),
                _ => Seq::empty(),
            })
        } else {
            Seq::<SpanModel>::empty()
        })
    }
}

#[via_fn]
proof fn toml_nested_to_dec(ctx: Seq<char>, obj: Vec<(String, Value)>, i: int) {
    if 0 < i && i <= obj.len() {
        assert(decreases_to!(obj => obj[i - 1]));
        assert(decreases_to!(obj[i - 1] => obj[i - 1].1));
        if obj[i - 1].1 is Sequence {
            assert(decreases_to!(obj[i - 1].1 => obj[i - 1].1->Sequence_0));
        }
    }
}

/// The spans of the first `j` elements of a nested array of mappings
/// under the accumulated name `k`: for each element a `[[k]]` header —
/// followed by a newline when the element mapping is nonempty — then the
/// element as a table under the context `k.`, with a blank line between
/// successive elements.
pub open spec fn toml_tables_to(k: Seq<char>, arr: Vec<Value>, j: int) -> Seq<SpanModel>
    decreases arr, j, 2int,
    via toml_tables_to_dec
{
    if j <= 0 || j > arr.len() {
        Seq::empty()
    } else {
        toml_tables_to(k, arr, j - 1) + (if j - 1 > 0 {
            seq![plain("\n\n"@)]
        } else {
            Seq::<SpanModel>::empty()
        }) + seq![tagged(Role::SectionHeader, "[["@ + k + "]]"@)] + (if arr[j - 1] matches
            Value::Mapping(inner) && inner.len() > 0 {
            seq![plain("\n"@)]
        } else {
            Seq::<SpanModel>::empty()
        }) + toml_spans(k + "."@, arr[j - 1])
    }
}

#[via_fn]
proof fn toml_tables_to_dec(k: Seq<char>, arr: Vec<Value>, j: int) {
    if 0 < j && j <= arr.len() {
        assert(decreases_to!(arr => arr[j - 1]));
    }
}

/// A null-valued member contributes nothing at all to a TOML table —
/// no line, no separator, no blank-line artifact — whether the table is
/// rendered inline or not; likewise a null element of an inline array.
pub proof fn lemma_toml_null_member_dropped(
    ctx: Seq<char>,
    obj: Vec<(String, Value)>,
    arr: Vec<Value>,
    j: int,
)
    requires
        0 <= j,
        j < obj@.len() ==> obj@[j].1 is Null,
        j < arr@.len() ==> arr@[j] is Null,
    ensures
        j < obj@.len() ==> toml_flat_to(obj, j + 1) == toml_flat_to(obj, j),
        j < obj@.len() ==> toml_nested_to(ctx, obj, j + 1) == toml_nested_to(ctx, obj, j),
        j < obj@.len() ==> toml_inline_members_to(obj, j + 1) == toml_inline_members_to(obj, j),
        j < arr@.len() ==> toml_inline_elems_to(arr, j + 1) == toml_inline_elems_to(arr, j),
{
    if j < obj@.len() {
        assert(toml_flat_to(obj, j + 1) =~= toml_flat_to(obj, j));
        assert(toml_nested_to(ctx, obj, j + 1) =~= toml_nested_to(ctx, obj, j));
        assert(toml_inline_members_to(obj, j + 1) =~= toml_inline_members_to(obj, j));
    }
    if j < arr@.len() {
        assert(toml_inline_elems_to(arr, j + 1) =~= toml_inline_elems_to(arr, j));
    }
}

/// A nested mapping's `[section]` header is written exactly when some
/// member of that mapping is not itself nested: a mapping whose every
/// member is hoisted further down is a pure pass-through container and
/// gets no header of its own, only its sub-tables' headers.
pub proof fn lemma_toml_pass_through_header_omitted(
    ctx: Seq<char>,
    obj: Vec<(String, Value)>,
    j: int,
)
    requires
        0 <= j < obj@.len(),
        obj@[j].1 is Mapping,
    ensures
        ({
            let k = ctx + toml_key_text(obj@[j].0@);
            let sep: Seq<SpanModel> = if any_flat_to(obj, obj@.len() as int) || any_nested_to(
                obj,
                j,
            ) {
                seq![plain("\n\n"@)]
            } else {
                Seq::<SpanModel>::empty()
            };
            let header: Seq<SpanModel> = if any_direct_member(obj@[j].1->Mapping_0) {
                seq![tagged(Role::SectionHeader, "["@ + k + "]\n"@)]
            } else {
                Seq::<SpanModel>::empty()
            };
            toml_nested_to(ctx, obj, j + 1) == toml_nested_to(ctx, obj, j) + sep + header
                + toml_spans(k + "."@, obj@[j].1)
        }),
{
    let k = ctx + toml_key_text(obj@[j].0@);
    let sep: Seq<SpanModel> = if any_flat_to(obj, obj@.len() as int) || any_nested_to(obj, j) {
        seq![plain("\n\n"@)]
    } else {
        Seq::<SpanModel>::empty()
    };
    let header: Seq<SpanModel> = if any_direct_member(obj@[j].1->Mapping_0) {
        seq![tagged(Role::SectionHeader, "["@ + k + "]\n"@)]
    } else {
        Seq::<SpanModel>::empty()
    };
    assert(toml_nested_to(ctx, obj, j + 1) =~~= toml_nested_to(ctx, obj, j) + sep + header
        + toml_spans(k + "."@, obj@[j].1));
}

/// The one failure TOML rendering can report: a null value outside
/// every container, which TOML cannot represent.
#[derive(Debug, Clone, Copy, PartialEq, Eq, Structural)]
pub enum TomlError {
    NullValue,
}

impl TomlError {
    /// The error's message.
    pub fn message(&self) -> (m: String)
        ensures
            m@ == "can't convert null to TOML"@,
    {
        "can't convert null to TOML".to_owned()
    }
}

fn is_null(v: &Value) -> (r: bool)
    ensures
        r == (*v is Null),
{
    matches!(v, Value::Null)
}

#[verifier::loop_isolation(false)]
fn exec_should_nest(v: &Value) -> (r: bool)
    ensures
        r == should_nest(*v),
{
    match v {
        Value::Mapping(_) => true,
        Value::Sequence(arr) => {
            let mut i: usize = 0;
            while i < arr.len()
                invariant
                    i <= arr.len(),
                    forall|j: int| 0 <= j < i ==> (#[trigger] arr@[j]) is Mapping,
                decreases arr.len() - i,
            {
                match &arr[i] {
                    Value::Mapping(_) => {},
                    _ => {
                        return false;
                    },
                }
                i = i + 1;
            }
            true
        },
        _ => false,
    }
}

#[verifier::loop_isolation(false)]
fn exec_any_direct_member(obj: &Vec<(String, Value)>) -> (r: bool)
    ensures
        r == any_direct_member(*obj),
{
    let mut i: usize = 0;
    while i < obj.len()
        invariant
            i <= obj.len(),
            forall|j: int| 0 <= j < i ==> should_nest((#[trigger] obj@[j]).1),
        decreases obj.len() - i,
    {
        if !exec_should_nest(&obj[i].1) {
            return true;
        }
        i = i + 1;
    }
    false
}

fn write_toml_scalar(out: &mut Vec<Span>, v: &Value)
    requires
        *v is Bool || *v is Number || *v is Text,
    ensures
        vspans(final(out)@) == vspans(old(out)@) + toml_scalar(*v),
{
    match v {
        Value::Bool(b) => {
            if *b {
                push_plain_str(out, "true");
            } else {
                push_plain_str(out, "false");
            }
        },
        Value::Number(n) => {
            push_plain_str(out, n.as_str());
        },
        Value::Text(s) => {
            let q = quote(s.as_str());
            push_tagged(out, Role::StringLiteral, q);
        },
        _ => {
            proof {
                assert(false);
            }
        },
    }
}

#[verifier::loop_isolation(false)]
fn write_toml_inline(out: &mut Vec<Span>, v: &Value)
    requires
        !(*v is Null),
    ensures
        vspans(final(out)@) == vspans(old(out)@) + toml_inline(*v),
    decreases *v,
{
    match v {
        Value::Sequence(arr) => {
            push_plain_str(out, "[");
            let mut first: bool = true;
            let mut i: usize = 0;
            while i < arr.len()
                invariant
                    i <= arr.len(),
                    first == !any_nonnull_elem(*arr, i as int),
                    vspans(out@) == vspans(old(out)@) + seq![plain("["@)] + toml_inline_elems_to(
                        *arr,
                        i as int,
                    ),
                decreases arr.len() - i,
            {
                let e = &arr[i];
                if !is_null(e) {
                    if !first {
                        push_plain_str(out, ", ");
                    }
                    proof {
                        assert(decreases_to!(*v => v->Sequence_0));
                        assert(decreases_to!(*arr => (*arr)[i as int]));
                    }
                    write_toml_inline(out, e);
                    first = false;
                }
                proof {
                    assert(vspans(out@) =~= vspans(old(out)@) + seq![plain("["@)]
                        + toml_inline_elems_to(*arr, i as int + 1));
                    assert(!first == any_nonnull_elem(*arr, i as int + 1));
                }
                i = i + 1;
            }
            push_plain_str(out, "]");
            proof {
                assert(vspans(out@) =~= vspans(old(out)@) + toml_inline(*v));
            }
        },
        Value::Mapping(obj) => {
            push_plain_str(out, "{");
            let mut first: bool = true;
            let mut i: usize = 0;
            while i < obj.len()
                invariant
                    i <= obj.len(),
                    first == !any_nonnull_member(*obj, i as int),
                    vspans(out@) == vspans(old(out)@) + seq![plain("{"@)] + toml_inline_members_to(
                        *obj,
                        i as int,
                    ),
                decreases obj.len() - i,
            {
                let kv = &obj[i];
                if !is_null(&kv.1) {
                    if !first {
                        push_plain_str(out, ",");
                    }
                    let mut kt: String = " ".to_owned();
                    let key = toml_key(kv.0.as_str());
                    kt.append(key.as_str());
                    push_tagged(out, Role::Key, kt);
                    push_plain_str(out, " = ");
                    proof {
                        assert(decreases_to!(*v => v->Mapping_0));
                        assert(decreases_to!(*obj => (*obj)[i as int]));
                        assert(decreases_to!((*obj)[i as int] => (*obj)[i as int].1));
                    }
                    write_toml_inline(out, &kv.1);
                    first = false;
                }
                proof {
                    assert(vspans(out@) =~= vspans(old(out)@) + seq![plain("{"@)]
                        + toml_inline_members_to(*obj, i as int + 1));
                    assert(!first == any_nonnull_member(*obj, i as int + 1));
                }
                i = i + 1;
            }
            if !first {
                push_plain_str(out, " ");
            }
            push_plain_str(out, "}");
            proof {
                assert(vspans(out@) =~= vspans(old(out)@) + toml_inline(*v));
            }
        },
        _ => {
            write_toml_scalar(out, v);
            proof {
                assert(vspans(out@) =~= vspans(old(out)@) + toml_inline(*v));
            }
        },
    }
}

#[verifier::loop_isolation(false)]
fn write_toml_tables(out: &mut Vec<Span>, k: &String, arr: &Vec<Value>)
    requires
        forall|i: int| 0 <= i < arr@.len() ==> (#[trigger] arr@[i]) is Mapping,
    ensures
        vspans(final(out)@) == vspans(old(out)@) + toml_tables_to(k@, *arr, arr@.len() as int),
    decreases *arr,
{
    let ghost kk = k@;
    let mut ctx3 = k.clone();
    ctx3.append(".");
    let mut t: usize = 0;
    while t < arr.len()
        invariant
            t <= arr.len(),
            ctx3@ == kk + "."@,
            vspans(out@) == vspans(old(out)@) + toml_tables_to(kk, *arr, t as int),
        decreases arr.len() - t,
    {
        if t > 0 {
            push_plain_str(out, "\n\n");
        }
        let mut h: String = "[[".to_owned();
        h.append(k.as_str());
        h.append("]]");
        push_tagged(out, Role::SectionHeader, h);
        let e = &arr[t];
        match e {
            Value::Mapping(inner) => {
                if inner.len() > 0 {
                    push_plain_str(out, "\n");
                }
                proof {
                    assert(decreases_to!(*arr => (*arr)[t as int]));
                }
                write_toml(out, &ctx3, e);
            },
            _ => {
                proof {
                    assert(false);
                }
            },
        }
        proof {
            assert(vspans(out@) =~= vspans(old(out)@) + toml_tables_to(kk, *arr, t as int + 1));
        }
        t = t + 1;
    }
}

#[verifier::loop_isolation(false)]
#[verifier::rlimit(60)]
fn write_toml(out: &mut Vec<Span>, ctx: &String, v: &Value)
    requires
        !(*v is Null),
    ensures
        vspans(final(out)@) == vspans(old(out)@) + toml_spans(ctx@, *v),
    decreases *v,
{
    match v {
        Value::Sequence(_) => {
            write_toml_inline(out, v);
        },
        Value::Mapping(obj) => {
            let mut has_flat: bool = false;
            let mut i: usize = 0;
            while i < obj.len()
                invariant
                    i <= obj.len(),
                    has_flat == any_flat_to(*obj, i as int),
                    vspans(out@) == vspans(old(out)@) + toml_flat_to(*obj, i as int),
                decreases obj.len() - i,
            {
                let kv = &obj[i];
                let flat = !is_null(&kv.1) && !exec_should_nest(&kv.1);
                if flat {
                    if has_flat {
                        push_plain_str(out, "\n");
                    }
                    let key = toml_key(kv.0.as_str());
                    push_tagged(out, Role::Key, key);
                    push_plain_str(out, " = ");
                    match &kv.1 {
                        Value::Sequence(_) => {
                            proof {
                                assert(decreases_to!(*v => v->Mapping_0));
                                assert(decreases_to!(*obj => (*obj)[i as int]));
                                assert(decreases_to!((*obj)[i as int] => (*obj)[i as int].1));
                            }
                            write_toml_inline(out, &kv.1);
                        },
                        _ => {
                            write_toml_scalar(out, &kv.1);
                        },
                    }
                    has_flat = true;
                }
                proof {
                    assert(vspans(out@) =~= vspans(old(out)@) + toml_flat_to(
                        *obj,
                        i as int + 1,
                    ));
                    assert(has_flat == any_flat_to(*obj, i as int + 1));
                }
                i = i + 1;
            }
            let ghost flat_full = toml_flat_to(*obj, obj@.len() as int);
            let mut seen_nested: bool = false;
            let mut j: usize = 0;
            while j < obj.len()
                invariant
                    j <= obj.len(),
                    has_flat == any_flat_to(*obj, obj@.len() as int),
                    seen_nested == any_nested_to(*obj, j as int),
                    vspans(out@) == vspans(old(out)@) + flat_full + toml_nested_to(
                        ctx@,
                        *obj,
                        j as int,
                    ),
                decreases obj.len() - j,
            {
                let kv = &obj[j];
                let nested = !is_null(&kv.1) && exec_should_nest(&kv.1);
                if nested {
                    if has_flat || seen_nested {
                        push_plain_str(out, "\n\n");
                    }
                    let mut k: String = ctx.clone();
                    let key = toml_key(kv.0.as_str());
                    k.append(key.as_str());
                    match &kv.1 {
                        Value::Mapping(inner) => {
                            if exec_any_direct_member(inner) {
                                let mut h: String = "[".to_owned();
                                h.append(k.as_str());
                                h.append("]\n");
                                push_tagged(out, Role::SectionHeader, h);
                            }
                            let mut ctx2 = k.clone();
                            ctx2.append(".");
                            proof {
                                assert(decreases_to!(*v => v->Mapping_0));
                                assert(decreases_to!(*obj => (*obj)[j as int]));
                                assert(decreases_to!((*obj)[j as int] => (*obj)[j as int].1));
                            }
                            write_toml(out, &ctx2, &kv.1);
                        },
                        Value::Sequence(arr) => {
                            proof {
                                assert(decreases_to!(*v => v->Mapping_0));
                                assert(decreases_to!(*obj => (*obj)[j as int]));
                                assert(decreases_to!((*obj)[j as int] => (*obj)[j as int].1));
                                assert(decreases_to!((*obj)[j as int].1 => (*obj)[j as int].1->Sequence_0));
                            }
                            write_toml_tables(out, &k, arr);
                        },
                        _ => {
                            proof {
                                assert(false);
                            }
                        },
                    }
                    seen_nested = true;
                }
                proof {
                    assert(vspans(out@) =~~= vspans(old(out)@) + flat_full + toml_nested_to(
                        ctx@,
                        *obj,
                        j as int + 1,
                    ));
                    assert(seen_nested == any_nested_to(*obj, j as int + 1));
                }
                j = j + 1;
            }
            proof {
                assert(vspans(out@) =~= vspans(old(out)@) + toml_spans(ctx@, *v));
            }
        },
        _ => {
            write_toml_scalar(out, v);
            proof {
                assert(vspans(out@) =~= vspans(old(out)@) + toml_spans(ctx@, *v));
            }
        },
    }
}

/// Renders `v` as TOML at the top level (empty header context).
///
/// Fails with [`TomlError::NullValue`] exactly when `v` is itself null —
/// TOML has no representation for a null outside a container, while a
/// null inside a container is silently dropped. On success the output
/// spans are exactly [`toml_spans`] of `v` under the empty context;
/// rendering is a pure function of the tree.
pub fn render_toml(v: &Value) -> (r: Result<Vec<Span>, TomlError>)
    ensures
        r is Err <==> *v is Null,
        r matches Ok(out) ==> vspans(out@) == toml_spans(Seq::empty(), *v),
{
    if is_null(v) {
        return Err(TomlError::NullValue);
    }
    let mut out: Vec<Span> = Vec::new();
    let ctx = String::new();
    proof {
        assert(vspans(out@) =~= Seq::<SpanModel>::empty());
    }
    write_toml(&mut out, &ctx, v);
    proof {
        assert(ctx@ =~= Seq::<char>::empty());
        assert(vspans(out@) =~= toml_spans(Seq::empty(), *v));
    }
    Ok(out)
}

/// The plain (uncoloured) TOML rendering of `v`, or the null error.
pub fn render_toml_plain(v: &Value) -> (r: Result<String, TomlError>)
    ensures
        r is Err <==> *v is Null,
        r matches Ok(s) ==> s@ == spans_text(toml_spans(Seq::empty(), *v)),
{
    match render_toml(v) {
        Ok(spans) => Ok(spans_to_plain(&spans)),
        Err(e) => Err(e),
    }
}

} // verus!
