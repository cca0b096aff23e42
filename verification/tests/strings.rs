use prettyprint::text::quote;
use prettyprint::toml::toml_key;
use prettyprint::yaml::{yaml_block_string, yaml_flow_string, yaml_string};

#[test]
fn safe_flow_scalars_stay_bare() {
    assert_eq!(yaml_flow_string("ok"), "ok");
    assert_eq!(yaml_flow_string("hello"), "hello");
    assert_eq!(yaml_flow_string("abc123x"), "abc123x");
    assert_eq!(yaml_flow_string("true-ish"), "true-ish");
}

#[test]
fn unsafe_flow_scalars_are_quoted() {
    assert_eq!(yaml_flow_string("3abc"), "\"3abc\"");
    assert_eq!(yaml_flow_string(""), "\"\"");
    assert_eq!(yaml_flow_string(" leading"), "\" leading\"");
    assert_eq!(yaml_flow_string("trailing "), "\"trailing \"");
    assert_eq!(yaml_flow_string("-dash"), "\"-dash\"");
    assert_eq!(yaml_flow_string("a: b"), "\"a: b\"");
    assert_eq!(yaml_flow_string("a #b"), "\"a #b\"");
    assert_eq!(yaml_flow_string("café"), "\"café\"");
    assert_eq!(yaml_flow_string("a\nb"), "\"a\\nb\"");
}

#[test]
fn colon_without_space_is_safe() {
    assert_eq!(yaml_flow_string("a:b"), "a:b");
}

#[test]
fn block_string_layout() {
    assert_eq!(yaml_block_string(0, "a\nb"), "|\na\nb");
    assert_eq!(yaml_block_string(1, "a\nb"), "|\n  a\n  b");
    assert_eq!(yaml_block_string(1, " x\ny"), "|2\n   x\n  y");
    assert_eq!(yaml_block_string(0, "a\n"), "|\na");
    assert_eq!(yaml_block_string(0, "a\n\nb"), "|\na\n\nb");
    assert_eq!(yaml_block_string(0, "a\r\nb"), "|\na\nb");
}

#[test]
fn yaml_string_picks_block_or_flow() {
    assert_eq!(yaml_string(0, "a\nb"), "|\na\nb");
    assert_eq!(yaml_string(0, "plain"), "plain");
    assert_eq!(yaml_string(0, "3abc"), "\"3abc\"");
}

#[test]
fn quoting_matches_reference_serializer() {
    for s in ["", "plain", "a\"b\\c", "tab\there", "nl\nhere", "\u{1}\u{1f}", "café ☕"] {
        let expected = serde_json::Value::String(s.to_string()).to_string();
        assert_eq!(quote(s), expected);
    }
}

#[test]
fn quote_escapes() {
    assert_eq!(quote("a\"b"), "\"a\\\"b\"");
    assert_eq!(quote("a\\b"), "\"a\\\\b\"");
    assert_eq!(quote("a\u{8}\u{c}\r"), "\"a\\b\\f\\r\"");
    assert_eq!(quote("\u{1}"), "\"\\u0001\"");
    assert_eq!(quote("\u{1f}"), "\"\\u001f\"");
}

#[test]
fn toml_keys_bare_or_quoted() {
    assert_eq!(toml_key("abc_-09"), "abc_-09");
    assert_eq!(toml_key("AZaz09"), "AZaz09");
    assert_eq!(toml_key("a b"), "\"a b\"");
    assert_eq!(toml_key(""), "\"\"");
    assert_eq!(toml_key("k.v"), "\"k.v\"");
}
