use prettyprint::json::render_json_plain;
use prettyprint::toml::{render_toml, render_toml_plain};
use prettyprint::value::{spans_to_plain, style_of, ColorName, Role, Span, Value};
use prettyprint::yaml::render_yaml_plain;

fn text(s: &str) -> Value {
    Value::Text(s.to_string())
}

fn num(s: &str) -> Value {
    Value::Number(s.to_string())
}

fn pair(k: &str, v: Value) -> (String, Value) {
    (k.to_string(), v)
}

fn colorize(spans: &[Span]) -> String {
    let mut out = String::new();
    for span in spans {
        match span.role {
            Some(role) => {
                let (color, bold) = style_of(role);
                if bold {
                    out.push_str("\x1b[1m");
                }
                let code = match color {
                    ColorName::Blue => "\x1b[34m",
                    ColorName::Green => "\x1b[32m",
                    ColorName::Red => "\x1b[31m",
                };
                out.push_str(code);
                out.push_str(&span.text);
                out.push_str("\x1b[0m");
            }
            None => out.push_str(&span.text),
        }
    }
    out
}

fn strip_ansi(s: &str) -> String {
    let mut out = String::new();
    let mut chars = s.chars();
    while let Some(c) = chars.next() {
        if c == '\x1b' {
            for d in chars.by_ref() {
                if d == 'm' {
                    break;
                }
            }
        } else {
            out.push(c);
        }
    }
    out
}

fn sample_tree() -> Value {
    Value::Mapping(vec![
        pair("a", Value::Sequence(vec![num("1"), text("x")])),
        pair("b", Value::Mapping(vec![])),
        pair("c", Value::Bool(true)),
    ])
}

#[test]
fn json_nested_layout() {
    let v = sample_tree();
    assert_eq!(
        render_json_plain(&v),
        "{\n  \"a\": [\n    1,\n    \"x\"\n  ],\n  \"b\": {\n  },\n  \"c\": true\n}"
    );
}

#[test]
fn json_empty_containers_multiline() {
    assert_eq!(render_json_plain(&Value::Sequence(vec![])), "[\n]");
    assert_eq!(render_json_plain(&Value::Mapping(vec![])), "{\n}");
}

#[test]
fn json_renders_twice_identically() {
    let v = sample_tree();
    assert_eq!(render_json_plain(&v), render_json_plain(&v));
    assert_eq!(prettyprint::json::render_json(&v), prettyprint::json::render_json(&v));
    assert_eq!(render_yaml_plain(&v), render_yaml_plain(&v));
    assert_eq!(render_toml_plain(&v).unwrap(), render_toml_plain(&v).unwrap());
}

#[test]
fn stripping_color_equals_plain_render() {
    let v = sample_tree();
    let json_spans = prettyprint::json::render_json(&v);
    assert_eq!(strip_ansi(&colorize(&json_spans)), spans_to_plain(&json_spans));
    assert_eq!(strip_ansi(&colorize(&json_spans)), render_json_plain(&v));
    let yaml_spans = prettyprint::yaml::render_yaml(&v);
    assert_eq!(strip_ansi(&colorize(&yaml_spans)), render_yaml_plain(&v));
    let toml_spans = render_toml(&v).unwrap();
    assert_eq!(strip_ansi(&colorize(&toml_spans)), render_toml_plain(&v).unwrap());
}

#[test]
fn json_scalars_verbatim() {
    assert_eq!(render_json_plain(&num("1.5e10")), "1.5e10");
    assert_eq!(render_json_plain(&num("0.30000000000000004")), "0.30000000000000004");
    assert_eq!(render_json_plain(&num("1.00")), "1.00");
    assert_eq!(render_json_plain(&Value::Bool(true)), "true");
    assert_eq!(render_json_plain(&Value::Bool(false)), "false");
    assert_eq!(render_json_plain(&Value::Null), "null");
}

#[test]
fn yaml_scalars_and_mapping() {
    let v = Value::Mapping(vec![
        pair("a", num("1")),
        pair("b", Value::Sequence(vec![num("1"), num("2")])),
        pair("c", Value::Mapping(vec![pair("d", text("x"))])),
    ]);
    assert_eq!(render_yaml_plain(&v), "a: 1\nb:\n  - 1\n  - 2\nc:\n  d: x");
}

#[test]
fn yaml_empty_sequence_as_mapping_value_is_flow() {
    let v = Value::Mapping(vec![pair("key", Value::Sequence(vec![]))]);
    assert_eq!(render_yaml_plain(&v), "key: []");
    let w = Value::Mapping(vec![pair("key", Value::Mapping(vec![]))]);
    assert_eq!(render_yaml_plain(&w), "key: {}");
}

#[test]
fn yaml_top_level_sequence() {
    let v = Value::Sequence(vec![num("1"), text("ok")]);
    assert_eq!(render_yaml_plain(&v), "- 1\n- ok");
}

#[test]
fn yaml_multiline_string_as_block_literal() {
    let v = Value::Mapping(vec![pair("k", text("line1\nline2"))]);
    assert_eq!(render_yaml_plain(&v), "k: |\n  line1\n  line2");
}

#[test]
fn yaml_multiline_with_unprintable_is_quoted() {
    let v = Value::Mapping(vec![pair("k", text("a\nb\u{1}"))]);
    assert_eq!(render_yaml_plain(&v), "k: \"a\\nb\\u0001\"");
}

#[test]
fn toml_null_members_are_dropped() {
    let v = Value::Mapping(vec![pair("a", Value::Null), pair("b", num("1"))]);
    assert_eq!(render_toml_plain(&v).unwrap(), "b = 1");
}

#[test]
fn toml_pass_through_table_header_omitted() {
    let v = Value::Mapping(vec![pair(
        "outer",
        Value::Mapping(vec![pair("inner", Value::Mapping(vec![pair("z", num("1"))]))]),
    )]);
    assert_eq!(render_toml_plain(&v).unwrap(), "[outer.inner]\nz = 1");
}

#[test]
fn toml_header_kept_when_table_has_direct_member() {
    let v = Value::Mapping(vec![pair(
        "outer",
        Value::Mapping(vec![
            pair("inner", Value::Mapping(vec![pair("z", num("1"))])),
            pair("w", num("2")),
        ]),
    )]);
    assert_eq!(render_toml_plain(&v).unwrap(), "[outer]\nw = 2\n\n[outer.inner]\nz = 1");
}

#[test]
fn toml_mixed_array_renders_inline() {
    let v = Value::Mapping(vec![pair(
        "k",
        Value::Sequence(vec![num("1"), Value::Mapping(vec![pair("a", num("1"))])]),
    )]);
    assert_eq!(render_toml_plain(&v).unwrap(), "k = [1, { a = 1 }]");
}

#[test]
fn toml_array_of_tables() {
    let v = Value::Mapping(vec![pair(
        "k",
        Value::Sequence(vec![
            Value::Mapping(vec![pair("a", num("1"))]),
            Value::Mapping(vec![pair("b", num("2"))]),
        ]),
    )]);
    assert_eq!(render_toml_plain(&v).unwrap(), "[[k]]\na = 1\n\n[[k]]\nb = 2");
}

#[test]
fn toml_inline_array_drops_nulls() {
    let v = Value::Sequence(vec![Value::Null, num("1"), Value::Null, num("2")]);
    assert_eq!(render_toml_plain(&v).unwrap(), "[1, 2]");
}

#[test]
fn toml_flat_then_nested_with_blank_line() {
    let v = Value::Mapping(vec![
        pair("a", num("1")),
        pair("x", Value::Mapping(vec![pair("y", num("2"))])),
    ]);
    assert_eq!(render_toml_plain(&v).unwrap(), "a = 1\n\n[x]\ny = 2");
}

#[test]
fn toml_top_level_null_is_an_error() {
    let r = render_toml(&Value::Null);
    assert!(r.is_err());
    assert_eq!(r.unwrap_err().message(), "can't convert null to TOML");
    assert!(render_toml(&num("1")).is_ok());
}

#[test]
fn toml_top_level_string_is_quoted() {
    assert_eq!(render_toml_plain(&text("hi")).unwrap(), "\"hi\"");
}

#[test]
fn toml_empty_array_is_an_empty_table_list() {
    // an empty array is vacuously an array of tables: no entries at all
    let v = Value::Mapping(vec![pair("k", Value::Sequence(vec![]))]);
    assert_eq!(render_toml_plain(&v).unwrap(), "");
    let w = Value::Mapping(vec![pair("a", num("1")), pair("k", Value::Sequence(vec![]))]);
    assert_eq!(render_toml_plain(&w).unwrap(), "a = 1\n\n");
    assert_eq!(render_toml_plain(&Value::Mapping(vec![])).unwrap(), "");
}

#[test]
fn toml_table_element_drops_null_member() {
    let v = Value::Mapping(vec![pair(
        "k",
        Value::Sequence(vec![Value::Mapping(vec![
            pair("a", Value::Null),
            pair("b", num("1")),
        ])]),
    )]);
    assert_eq!(render_toml_plain(&v).unwrap(), "[[k]]\nb = 1");
}

#[test]
fn toml_inline_table_with_only_nulls_is_empty_braces() {
    let v = Value::Mapping(vec![pair(
        "k",
        Value::Sequence(vec![num("1"), Value::Mapping(vec![pair("a", Value::Null)])]),
    )]);
    assert_eq!(render_toml_plain(&v).unwrap(), "k = [1, {}]");
}

#[test]
fn toml_quoted_key_in_header() {
    let v = Value::Mapping(vec![pair("a b", Value::Mapping(vec![pair("z", num("1"))]))]);
    assert_eq!(render_toml_plain(&v).unwrap(), "[\"a b\"]\nz = 1");
}

#[test]
fn yaml_unsafe_key_is_quoted() {
    let v = Value::Mapping(vec![pair("3abc", num("1"))]);
    assert_eq!(render_yaml_plain(&v), "\"3abc\": 1");
}

#[test]
fn json_key_with_escapes() {
    let v = Value::Mapping(vec![pair("a\"b", num("1"))]);
    assert_eq!(render_json_plain(&v), "{\n  \"a\\\"b\": 1\n}");
}

#[test]
fn error_spans_shape() {
    let spans = prettyprint::value::error_spans("boom");
    assert_eq!(spans.len(), 2);
    assert_eq!(spans[0].role, Some(Role::ErrorLabel));
    assert_eq!(spans[0].text, "error");
    assert_eq!(spans[1].role, None);
    assert_eq!(spans[1].text, ": boom\n");
}

#[test]
fn style_table_is_fixed() {
    assert_eq!(style_of(Role::Key), (ColorName::Blue, false));
    assert_eq!(style_of(Role::StringLiteral), (ColorName::Green, false));
    assert_eq!(style_of(Role::SectionHeader), (ColorName::Blue, true));
    assert_eq!(style_of(Role::ErrorLabel), (ColorName::Red, true));
}
