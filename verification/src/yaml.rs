//! The YAML renderer: block-style layout with flow-style empty
//! containers and careful scalar quoting.
//!
//! A string scalar that contains a newline and consists only of
//! printable ASCII plus newlines becomes a block literal (`|`). Any
//! other string goes through the flow-scalar rule: it may stay bare only
//! if it is entirely printable ASCII, does not begin with whitespace, a
//! digit or a YAML indicator character, contains neither `": "` nor
//! `" #"`, and does not end in whitespace; otherwise it is double-quoted
//! with the JSON-style escaping, which is also a valid YAML scalar.
//! Keys always go through the flow rule and are tagged [`Role::Key`].

use vstd::prelude::*;
use vstd::string::StrSliceExecFns;
use vstd::string::StringExecFns;

use crate::text::{
    spaces, nl_ind, json_quote, quote, lemma_spaces_step, all_printable, all_printable_exec,
    all_printable_or_nl, all_printable_or_nl_exec, ascii_digit, unicode_ws, is_ws_char, has_pair,
    has_pair_exec, has_char, has_char_exec,
};
use crate::value::{
    Value, Role, Span, SpanModel, plain, tagged, vspans, spans_text, spans_text_to, push_plain,
    push_plain_str, push_tagged, spans_to_plain,
};

verus! {

/// A character that may not begin a bare YAML flow scalar: whitespace,
/// an ASCII digit, or one of the YAML indicator characters.
pub open spec fn unsafe_first(c: char) -> bool {
    unicode_ws(c) || ascii_digit(c) || c == '-' || c == '?' || c == ':' || c == ',' || c == '['
        || c == ']' || c == '{' || c == '}' || c == '#' || c == '&' || c == '*' || c == '!' || c
        == '|' || c == '>' || c == '\'' || c == '"' || c == '%' || c == '@' || c == '`' || c == '+'
        || c == '.'
}

/// The four conditions under which a string may stand bare as a YAML
/// flow scalar: nonempty printable ASCII; a safe first character; no
/// `": "` and no `" #"` inside; no trailing whitespace.
pub open spec fn yaml_safe(s: Seq<char>) -> bool {
    &&& s.len() > 0
    &&& all_printable(s)
    &&& !unsafe_first(s[0])
    &&& !has_pair(s, ':', ' ')
    &&& !has_pair(s, ' ', '#')
    &&& !unicode_ws(s[s.len() - 1])
}

/// The flow-scalar form of `s`: bare iff safe, else double-quoted.
pub open spec fn yaml_flow(s: Seq<char>) -> Seq<char> {
    if yaml_safe(s) {
        s
    } else {
        json_quote(s)
    }
}

/// Whether `c` may not begin a bare flow scalar.
pub fn is_unsafe_first_char(c: char) -> (r: bool)
    ensures
        r == unsafe_first(c),
{
    let u = c as u32;
    is_ws_char(c) || (u >= 0x30 && u <= 0x39) || c == '-' || c == '?' || c == ':' || c == ',' || c
        == '[' || c == ']' || c == '{' || c == '}' || c == '#' || c == '&' || c == '*' || c == '!'
        || c == '|' || c == '>' || c == '\'' || c == '"' || c == '%' || c == '@' || c == '`' || c
        == '+' || c == '.'
}

/// The flow-scalar form of `s`: `s` itself iff it meets all of
/// [`yaml_safe`]'s conditions, otherwise its double-quoted escape.
pub fn yaml_flow_string(s: &str) -> (r: String)
    ensures
        r@ == yaml_flow(s@),
{
    let n = s.unicode_len();
    let safe: bool = if n == 0 {
        false
    } else {
        all_printable_exec(s) && !is_unsafe_first_char(s.get_char(0)) && !has_pair_exec(
            s,
            ':',
            ' ',
        ) && !has_pair_exec(s, ' ', '#') && !is_ws_char(s.get_char(n - 1))
    };
    if safe {
        s.to_owned()
    } else {
        quote(s)
    }
}

/// Every string that fails one of the flow-scalar safety conditions is
/// emitted double-quoted, never bare.
pub proof fn lemma_yaml_unsafe_quoted(s: Seq<char>)
    requires
        !yaml_safe(s),
    ensures
        yaml_flow(s) == json_quote(s),
        yaml_flow(s)[0] == '"',
{
}

/// Every string that meets all four flow-scalar safety conditions is
/// emitted bare, exactly as it is.
pub proof fn lemma_yaml_safe_bare(s: Seq<char>)
    requires
        yaml_safe(s),
    ensures
        yaml_flow(s) == s,
{
}

/// `line` with one trailing carriage return removed, if it has one.
pub open spec fn strip_tail_cr(line: Seq<char>) -> Seq<char> {
    if line.len() > 0 && line[line.len() - 1] == '\r' {
        line.drop_last()
    } else {
        line
    }
}

/// The lines of `s` from position `i` on, with `cur` the part of the
/// current line read so far: lines are split at `\n`, a line's trailing
/// `\r` is dropped, and a final piece is a line only if it is nonempty.
pub open spec fn split_lines_from(s: Seq<char>, i: int, cur: Seq<char>) -> Seq<Seq<char>>
    decreases s.len() - i,
{
    if i < 0 || i >= s.len() {
        if cur.len() == 0 {
            Seq::empty()
        } else {
            seq![cur]
        }
    } else if s[i] == '\n' {
        seq![strip_tail_cr(cur)] + split_lines_from(s, i + 1, Seq::empty())
    } else {
        split_lines_from(s, i + 1, cur.push(s[i]))
    }
}

/// The lines of `s`, as `str::lines` yields them.
pub open spec fn split_lines(s: Seq<char>) -> Seq<Seq<char>> {
    split_lines_from(s, 0, Seq::empty())
}

/// The first `i` lines of a block literal's body: each line preceded by
/// a newline and the indentation of level `depth`.
pub open spec fn block_lines_text(depth: nat, lines: Seq<Seq<char>>, i: int) -> Seq<char>
    decreases i,
{
    if i <= 0 {
        Seq::empty()
    } else {
        block_lines_text(depth, lines, i - 1) + nl_ind(depth) + lines[i - 1]
    }
}

/// The block-literal form of `s` at level `depth`: a `|` header, an
/// explicit indent indicator `2` if the first line starts with
/// whitespace, then every line on its own line, indented by `depth`
/// levels.
pub open spec fn yaml_block(depth: nat, s: Seq<char>) -> Seq<char> {
    "|"@ + (if s.len() > 0 && unicode_ws(s[0]) {
        "2"@
    } else {
        Seq::empty()
    }) + block_lines_text(depth, split_lines(s), split_lines(s).len() as int)
}

proof fn lemma_block_lines_text_push(depth: nat, lines: Seq<Seq<char>>, x: Seq<char>, i: int)
    requires
        i <= lines.len(),
    ensures
        block_lines_text(depth, lines.push(x), i) == block_lines_text(depth, lines, i),
    decreases i,
{
    if i > 0 {
        lemma_block_lines_text_push(depth, lines, x, i - 1);
    }
}

#[verifier::loop_isolation(false)]
fn yaml_block_with_indent(ind: &String, Ghost(depth): Ghost<nat>, s: &str) -> (r: String)
    requires
        ind@ == spaces(2 * depth),
    ensures
        r@ == yaml_block(depth, s@),
{
    let n = s.unicode_len();
    let mut r: String = "|".to_owned();
    if n > 0 && is_ws_char(s.get_char(0)) {
        r.append("2");
    }
    let ghost header = r@;
    let ghost lines = split_lines(s@);
    let mut emitted: Ghost<Seq<Seq<char>>> = Ghost(Seq::empty());
    let mut start: usize = 0;
    let mut i: usize = 0;
    proof {
        assert(s@.subrange(0, 0) =~= Seq::<char>::empty());
        assert(r@ =~= header + block_lines_text(depth, emitted@, emitted@.len() as int));
    }
    while i < n
        invariant
            n == s@.len(),
            start <= i <= n,
            r@ == header + block_lines_text(depth, emitted@, emitted@.len() as int),
            lines == emitted@ + split_lines_from(s@, i as int, s@.subrange(start as int, i as int)),
        decreases n - i,
    {
        let c = s.get_char(i);
        if c == '\n' {
            let ghost cur = s@.subrange(start as int, i as int);
            let end: usize = if i > start && s.get_char(i - 1) == '\r' {
                i - 1
            } else {
                i
            };
            let piece = s.substring_char(start, end);
            proof {
                if i > start && s@[i as int - 1] == '\r' {
                    assert(piece@ =~= strip_tail_cr(cur));
                } else {
                    assert(piece@ =~= strip_tail_cr(cur));
                }
            }
            r.append("\n");
            r.append(ind.as_str());
            r.append(piece);
            proof {
                lemma_block_lines_text_push(depth, emitted@, strip_tail_cr(cur),
                    emitted@.len() as int);
                assert(emitted@.push(strip_tail_cr(cur))[emitted@.len() as int]
                    == strip_tail_cr(cur));
            }
            emitted = Ghost(emitted@.push(strip_tail_cr(cur)));
            proof {
                assert(r@ =~= header + block_lines_text(depth, emitted@, emitted@.len() as int));
                assert(s@.subrange(i as int + 1, i as int + 1) =~= Seq::<char>::empty());
                assert(lines =~= emitted@ + split_lines_from(
                    s@,
                    i as int + 1,
                    s@.subrange(i as int + 1, i as int + 1),
                ));
            }
            start = i + 1;
        } else {
            proof {
                assert(s@.subrange(start as int, i as int).push(s@[i as int]) =~= s@.subrange(
                    start as int,
                    i as int + 1,
                ));
            }
        }
        i = i + 1;
    }
    if start < n {
        let ghost cur = s@.subrange(start as int, n as int);
        let piece = s.substring_char(start, n);
        r.append("\n");
        r.append(ind.as_str());
        r.append(piece);
        proof {
            lemma_block_lines_text_push(depth, emitted@, cur, emitted@.len() as int);
            assert(emitted@.push(cur)[emitted@.len() as int] == cur);
            assert(lines =~= emitted@.push(cur));
            assert(r@ =~= header + block_lines_text(depth, lines, lines.len() as int));
        }
    } else {
        proof {
            assert(s@.subrange(start as int, n as int).len() == 0);
            assert(lines =~= emitted@);
        }
    }
    proof {
        assert(r@ == yaml_block(depth, s@));
    }
    r
}

/// The block-literal form of `s` at nesting level `depth`, as
/// [`yaml_block`] states it: `|`, an indent indicator when the first
/// line starts with whitespace, then each line of `s` indented by
/// `depth` levels.
pub fn yaml_block_string(depth: usize, s: &str) -> (r: String)
    ensures
        r@ == yaml_block(depth as nat, s@),
{
    let ind = indent_of(depth);
    yaml_block_with_indent(&ind, Ghost(depth as nat), s)
}

/// The indentation of nesting level `depth`: twice that many spaces.
fn indent_of(depth: usize) -> (r: String)
    ensures
        r@ == spaces((2 * depth) as nat),
{
    let mut r = String::new();
    let mut d: usize = 0;
    while d < depth
        invariant
            d <= depth,
            r@ == spaces((2 * d) as nat),
        decreases depth - d,
    {
        r.append("  ");
        proof {
            lemma_spaces_step((2 * d) as nat);
        }
        d = d + 1;
    }
    r
}

/// The YAML scalar form of `s` at level `depth`: a block literal if `s`
/// contains a newline and is otherwise printable ASCII, else the flow
/// form.
pub open spec fn yaml_scalar(depth: nat, s: Seq<char>) -> Seq<char> {
    if has_char(s, '\n') && all_printable_or_nl(s) {
        yaml_block(depth, s)
    } else {
        yaml_flow(s)
    }
}

fn yaml_string_with_indent(ind: &String, Ghost(depth): Ghost<nat>, s: &str) -> (r: String)
    requires
        ind@ == spaces(2 * depth),
    ensures
        r@ == yaml_scalar(depth, s@),
{
    if has_char_exec(s, '\n') && all_printable_or_nl_exec(s) {
        yaml_block_with_indent(ind, Ghost(depth), s)
    } else {
        yaml_flow_string(s)
    }
}

/// The YAML scalar form of `s` at nesting level `depth`, as
/// [`yaml_scalar`] states it.
pub fn yaml_string(depth: usize, s: &str) -> (r: String)
    ensures
        r@ == yaml_scalar(depth as nat, s@),
{
    let ind = indent_of(depth);
    yaml_string_with_indent(&ind, Ghost(depth as nat), s)
}

/// The single leading space a scalar or empty container gets when it
/// stands as the value of a mapping key.
pub open spec fn yaml_pre(obj_value: bool) -> Seq<SpanModel> {
    if obj_value {
        seq![plain(" "@)]
    } else {
        Seq::empty()
    }
}

/// The spans of the YAML rendering of `v` at nesting level `depth`.
/// `obj_value` says whether `v` stands as the value of a mapping key.
pub open spec fn yaml_spans(depth: nat, obj_value: bool, v: Value) -> Seq<SpanModel>
    decreases v, 0int,
{
    match v {
        Value::Null => yaml_pre(obj_value) + seq![plain("null"@)],
        Value::Bool(b) => yaml_pre(obj_value) + seq![plain(if b {
            "true"@
        } else {
            "false"@
        })],
        Value::Number(n) => yaml_pre(obj_value) + seq![plain(n@)],
        Value::Text(s) => yaml_pre(obj_value) + seq![
            tagged(Role::StringLiteral, yaml_scalar(depth, s@)),
        ],
        Value::Sequence(arr) => if arr.len() == 0 {
            yaml_pre(obj_value) + seq![plain("[]"@)]
        } else {
            yaml_elems_to(depth, obj_value, arr, arr.len() as int)
        },
        Value::Mapping(obj) => if obj.len() == 0 {
            yaml_pre(obj_value) + seq![plain("{}"@)]
        } else {
            yaml_members_to(depth, obj_value, obj, obj.len() as int)
        },
    }
}

/// The spans of the first `i` elements of a nonempty YAML sequence: each
/// element on its own line at the current depth (the first stays on the
/// present line unless the sequence is a mapping value), prefixed by
/// `- `, the element itself one level deeper.
pub open spec fn yaml_elems_to(depth: nat, obj_value: bool, arr: Vec<Value>, i: int) -> Seq<
    SpanModel,
>
    decreases arr, i,
    via yaml_elems_to_dec
{
    if i <= 0 || i > arr.len() {
        Seq::empty()
    } else {
        yaml_elems_to(depth, obj_value, arr, i - 1) + (if i - 1 > 0 || obj_value {
            seq![plain(nl_ind(depth))]
        } else {
            Seq::<SpanModel>::empty()
        }) + seq![plain("- "@)] + yaml_spans((depth + 1) as nat, false, arr[i - 1])
    }
}

#[via_fn]
proof fn yaml_elems_to_dec(depth: nat, obj_value: bool, arr: Vec<Value>, i: int) {
    if 0 < i && i <= arr.len() {
        assert(decreases_to!(arr => arr[i - 1]));
    }
}

/// The spans of the first `i` members of a nonempty YAML mapping: each
/// key on its own line at the current depth (the first stays on the
/// present line unless the mapping is itself a mapping value), the key
/// through the flow-scalar rule and tagged as a key, then `:`, then the
/// value one level deeper, marked as a mapping value.
pub open spec fn yaml_members_to(
    depth: nat,
    obj_value: bool,
    obj: Vec<(String, Value)>,
    i: int,
) -> Seq<SpanModel>
    decreases obj, i,
    via yaml_members_to_dec
{
    if i <= 0 || i > obj.len() {
        Seq::empty()
    } else {
        yaml_members_to(depth, obj_value, obj, i - 1) + (if i - 1 > 0 || obj_value {
            seq![plain(nl_ind(depth))]
        } else {
            Seq::<SpanModel>::empty()
        }) + seq![tagged(Role::Key, yaml_flow(obj[i - 1].0@)), plain(":"@)] + yaml_spans(
            (depth + 1) as nat,
            true,
            obj[i - 1].1,
        )
    }
}

#[via_fn]
proof fn yaml_members_to_dec(depth: nat, obj_value: bool, obj: Vec<(String, Value)>, i: int) {
    if 0 < i && i <= obj.len() {
        assert(decreases_to!(obj => obj[i - 1]));
        assert(decreases_to!(obj[i - 1] => obj[i - 1].1));
    }
}

#[verifier::loop_isolation(false)]
fn write_yaml(out: &mut Vec<Span>, ind: &String, Ghost(depth): Ghost<nat>, obj_value: bool, v: &Value)
    requires
        ind@ == spaces(2 * depth),
    ensures
        vspans(final(out)@) == vspans(old(out)@) + yaml_spans(depth, obj_value, *v),
    decreases *v,
{
    match v {
        Value::Null => {
            if obj_value {
                push_plain_str(out, " ");
            }
            push_plain_str(out, "null");
            proof {
                assert(vspans(out@) =~= vspans(old(out)@) + yaml_spans(depth, obj_value, *v));
            }
        },
        Value::Bool(b) => {
            if obj_value {
                push_plain_str(out, " ");
            }
            if *b {
                push_plain_str(out, "true");
            } else {
                push_plain_str(out, "false");
            }
            proof {
                assert(vspans(out@) =~= vspans(old(out)@) + yaml_spans(depth, obj_value, *v));
            }
        },
        Value::Number(n) => {
            if obj_value {
                push_plain_str(out, " ");
            }
            push_plain_str(out, n.as_str());
            proof {
                assert(vspans(out@) =~= vspans(old(out)@) + yaml_spans(depth, obj_value, *v));
            }
        },
        Value::Text(s) => {
            if obj_value {
                push_plain_str(out, " ");
            }
            let t = yaml_string_with_indent(ind, Ghost(depth), s.as_str());
            push_tagged(out, Role::StringLiteral, t);
            proof {
                assert(vspans(out@) =~= vspans(old(out)@) + yaml_spans(depth, obj_value, *v));
            }
        },
        Value::Sequence(arr) => {
            if arr.len() == 0 {
                if obj_value {
                    push_plain_str(out, " ");
                }
                push_plain_str(out, "[]");
                proof {
                    assert(vspans(out@) =~= vspans(old(out)@) + yaml_spans(depth, obj_value, *v));
                }
            } else {
                let mut child: String = ind.clone();
                child.append("  ");
                proof {
                    lemma_spaces_step(2 * depth);
                    assert(child@ == spaces(2 * ((depth + 1) as nat)));
                }
                let mut i: usize = 0;
                while i < arr.len()
                    invariant
                        i <= arr.len(),
                        vspans(out@) == vspans(old(out)@) + yaml_elems_to(
                            depth,
                            obj_value,
                            *arr,
                            i as int,
                        ),
                    decreases arr.len() - i,
                {
                    if i > 0 || obj_value {
                        let mut t: String = "\n".to_owned();
                        t.append(ind.as_str());
                        push_plain(out, t);
                    }
                    push_plain_str(out, "- ");
                    proof {
                        assert(decreases_to!(*v => v->Sequence_0));
                        assert(decreases_to!(*arr => (*arr)[i as int]));
                    }
                    write_yaml(out, &child, Ghost((depth + 1) as nat), false, &arr[i]);
                    proof {
                        assert(vspans(out@) =~= vspans(old(out)@) + yaml_elems_to(
                            depth,
                            obj_value,
                            *arr,
                            i as int + 1,
                        ));
                    }
                    i = i + 1;
                }
            }
        },
        Value::Mapping(obj) => {
            if obj.len() == 0 {
                if obj_value {
                    push_plain_str(out, " ");
                }
                push_plain_str(out, "{}");
                proof {
                    assert(vspans(out@) =~= vspans(old(out)@) + yaml_spans(depth, obj_value, *v));
                }
            } else {
                let mut child: String = ind.clone();
                child.append("  ");
                proof {
                    lemma_spaces_step(2 * depth);
                    assert(child@ == spaces(2 * ((depth + 1) as nat)));
                }
                let mut i: usize = 0;
                while i < obj.len()
                    invariant
                        i <= obj.len(),
                        vspans(out@) == vspans(old(out)@) + yaml_members_to(
                            depth,
                            obj_value,
                            *obj,
                            i as int,
                        ),
                    decreases obj.len() - i,
                {
                    if i > 0 || obj_value {
                        let mut t: String = "\n".to_owned();
                        t.append(ind.as_str());
                        push_plain(out, t);
                    }
                    let kv = &obj[i];
                    let k = yaml_flow_string(kv.0.as_str());
                    push_tagged(out, Role::Key, k);
                    push_plain_str(out, ":");
                    proof {
                        assert(decreases_to!(*v => v->Mapping_0));
                        assert(decreases_to!(*obj => (*obj)[i as int]));
                        assert(decreases_to!((*obj)[i as int] => (*obj)[i as int].1));
                    }
                    write_yaml(out, &child, Ghost((depth + 1) as nat), true, &kv.1);
                    proof {
                        assert(vspans(out@) =~= vspans(old(out)@) + yaml_members_to(
                            depth,
                            obj_value,
                            *obj,
                            i as int + 1,
                        ));
                    }
                    i = i + 1;
                }
            }
        },
    }
}

/// Renders `v` as YAML, starting at nesting level 0 and not as a
/// mapping value. The output spans are exactly [`yaml_spans`]`(0,
/// false, v)`; rendering is a pure function of the tree.
pub fn render_yaml(v: &Value) -> (out: Vec<Span>)
    ensures
        vspans(out@) == yaml_spans(0, false, *v),
{
    let mut out: Vec<Span> = Vec::new();
    let ind = String::new();
    proof {
        assert(ind@ =~= spaces(0));
        assert(vspans(out@) =~= Seq::<SpanModel>::empty());
    }
    write_yaml(&mut out, &ind, Ghost(0 as nat), false, v);
    proof {
        assert(vspans(out@) =~= yaml_spans(0, false, *v));
    }
    out
}

/// The plain (uncoloured) YAML rendering of `v`.
pub fn render_yaml_plain(v: &Value) -> (r: String)
    ensures
        r@ == spans_text(yaml_spans(0, false, *v)),
{
    let spans = render_yaml(v);
    spans_to_plain(&spans)
}

/// An empty sequence standing as a mapping value renders in YAML as the
/// flow form on the key's own line: one space, then `[]`.
pub proof fn lemma_yaml_empty_seq_flow(depth: nat, arr: Vec<Value>)
    requires
        arr@.len() == 0,
    ensures
        spans_text(yaml_spans(depth, true, Value::Sequence(arr))) == " []"@,
{
    reveal_strlit(" ");
    reveal_strlit("[]");
    reveal_strlit(" []");
    let s = yaml_spans(depth, true, Value::Sequence(arr));
    assert(s == seq![plain(" "@), plain("[]"@)]);
    assert(spans_text_to(s, 0) == Seq::<char>::empty());
    assert(spans_text_to(s, 1) =~= " "@);
    assert(spans_text(s) =~= " []"@);
}

} // verus!
