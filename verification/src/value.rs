//! The value model and the output model shared by all three renderers.
//!
//! A [`Value`] is the input: a tagged tree of nulls, booleans, numbers
//! (kept as their original source text), strings, sequences and mappings.
//! A renderer's output is a list of [`Span`]s: pieces of text, each
//! optionally tagged with a semantic [`Role`]. The plain rendering of a
//! tree is the concatenation of the span texts; the colours a terminal
//! sink gives to the tagged spans never change that text.

use vstd::prelude::*;
use vstd::string::StringExecFns;

verus! {

/// A dynamically-typed value tree.
///
/// `Number` stores the exact textual form the number had in the source,
/// so rendering never reformats (or loses precision of) a numeric
/// literal. `Mapping` keys are expected to be unique within one mapping,
/// and their order is exactly the order in which members are emitted.
#[derive(Debug, PartialEq)]
pub enum Value {
    Null,
    Bool(bool),
    Number(String),
    Text(String),
    Sequence(Vec<Value>),
    Mapping(Vec<(String, Value)>),
}

/// A semantic colour role: a tag on a span of output text, not a
/// concrete colour. Roles are resolved to colours only by a
/// terminal-capable sink.
#[derive(Debug, Clone, Copy, PartialEq, Eq, Structural)]
pub enum Role {
    Key,
    StringLiteral,
    SectionHeader,
    ErrorLabel,
}

/// A concrete foreground colour a role resolves to.
#[derive(Debug, Clone, Copy, PartialEq, Eq, Structural)]
pub enum ColorName {
    Blue,
    Green,
    Red,
}

/// One piece of rendered output: text, optionally tagged with a role.
#[derive(Debug, Clone, PartialEq)]
pub struct Span {
    pub role: Option<Role>,
    pub text: String,
}

/// The mathematical model of a span: its role and the text it carries.
pub type SpanModel = (Option<Role>, Seq<char>);

impl View for Span {
    type V = SpanModel;

    open spec fn view(&self) -> SpanModel {
        (self.role, self.text@)
    }
}

/// A span of untagged text.
pub open spec fn plain(t: Seq<char>) -> SpanModel {
    (None::<Role>, t)
}

/// A span of text tagged with role `r`.
pub open spec fn tagged(r: Role, t: Seq<char>) -> SpanModel {
    (Some(r), t)
}

/// The model of a span list: each span replaced by its model.
pub open spec fn vspans(s: Seq<Span>) -> Seq<SpanModel> {
    s.map_values(|sp: Span| sp@)
}

/// The concatenation of the texts of the first `i` spans.
pub open spec fn spans_text_to(s: Seq<SpanModel>, i: int) -> Seq<char>
    decreases i,
{
    if i <= 0 {
        Seq::empty()
    } else {
        spans_text_to(s, i - 1) + s[i - 1].1
    }
}

/// The plain text of a span list: all span texts concatenated, in order.
pub open spec fn spans_text(s: Seq<SpanModel>) -> Seq<char> {
    spans_text_to(s, s.len() as int)
}

/// The same span list with every colour role removed.
pub open spec fn strip_roles(s: Seq<SpanModel>) -> Seq<SpanModel> {
    s.map_values(|sp: SpanModel| plain(sp.1))
}

proof fn lemma_strip_roles_text_to(s: Seq<SpanModel>, i: int)
    requires
        i <= s.len(),
    ensures
        spans_text_to(strip_roles(s), i) == spans_text_to(s, i),
    decreases i,
{
    if i > 0 {
        lemma_strip_roles_text_to(s, i - 1);
    }
}

/// Colour styling never changes the text: stripping every role from a
/// rendered span list leaves its plain text exactly as it was, so a
/// colourized rendering and a plain rendering of the same tree carry the
/// same characters.
pub proof fn lemma_no_color_equivalence(s: Seq<SpanModel>)
    ensures
        spans_text(strip_roles(s)) == spans_text(s),
{
    lemma_strip_roles_text_to(s, s.len() as int);
}

/// Appends an untagged span holding the text of `t`.
pub fn push_plain_str(out: &mut Vec<Span>, t: &str)
    ensures
        vspans(final(out)@) == vspans(old(out)@) + seq![plain(t@)],
{
    let text: String = t.to_owned();
    out.push(Span { role: None, text: text });
    proof {
        assert(vspans(out@) =~= vspans(old(out)@) + seq![plain(t@)]);
    }
}

/// Appends an untagged span holding the text `t`.
pub fn push_plain(out: &mut Vec<Span>, t: String)
    ensures
        vspans(final(out)@) == vspans(old(out)@) + seq![plain(t@)],
{
    let ghost tv = t@;
    out.push(Span { role: None, text: t });
    proof {
        assert(vspans(out@) =~= vspans(old(out)@) + seq![plain(tv)]);
    }
}

/// Appends a span holding the text `t` tagged with role `r`.
pub fn push_tagged(out: &mut Vec<Span>, r: Role, t: String)
    ensures
        vspans(final(out)@) == vspans(old(out)@) + seq![tagged(r, t@)],
{
    let ghost tv = t@;
    out.push(Span { role: Some(r), text: t });
    proof {
        assert(vspans(out@) =~= vspans(old(out)@) + seq![tagged(r, tv)]);
    }
}

/// The plain rendering of a span list: every span text, concatenated in
/// order, with the roles ignored.
pub fn spans_to_plain(spans: &Vec<Span>) -> (r: String)
    ensures
        r@ == spans_text(vspans(spans@)),
{
    let mut r = String::new();
    let mut i: usize = 0;
    while i < spans.len()
        invariant
            i <= spans.len(),
            r@ == spans_text_to(vspans(spans@), i as int),
        decreases spans.len() - i,
    {
        let sp = &spans[i];
        r.append(sp.text.as_str());
        proof {
            assert(vspans(spans@)[i as int] == spans@[i as int]@);
        }
        i = i + 1;
    }
    r
}

/// The fixed role-to-style table: each role's foreground colour and
/// whether it is bold.
pub open spec fn spec_style_of(r: Role) -> (ColorName, bool) {
    match r {
        Role::Key => (ColorName::Blue, false),
        Role::StringLiteral => (ColorName::Green, false),
        Role::SectionHeader => (ColorName::Blue, true),
        Role::ErrorLabel => (ColorName::Red, true),
    }
}

/// Resolves a role to its concrete style, by the fixed table:
/// keys are blue, string literals green, section headers bold blue and
/// error labels bold red.
pub fn style_of(r: Role) -> (s: (ColorName, bool))
    ensures
        s == spec_style_of(r),
{
    match r {
        Role::Key => (ColorName::Blue, false),
        Role::StringLiteral => (ColorName::Green, false),
        Role::SectionHeader => (ColorName::Blue, true),
        Role::ErrorLabel => (ColorName::Red, true),
    }
}

/// The spans of an error report: the word `error` tagged as an error
/// label, then an untagged `: `, the message, and a final newline.
pub fn error_spans(msg: &str) -> (out: Vec<Span>)
    ensures
        vspans(out@) == seq![
            tagged(Role::ErrorLabel, "error"@),
            plain(": "@ + msg@ + "\n"@),
        ],
{
    let mut out: Vec<Span> = Vec::new();
    let label: String = "error".to_owned();
    push_tagged(&mut out, Role::ErrorLabel, label);
    let mut rest: String = ": ".to_owned();
    rest.append(msg);
    rest.append("\n");
    push_plain(&mut out, rest);
    proof {
        assert(vspans(out@) =~= seq![
            tagged(Role::ErrorLabel, "error"@),
            plain(": "@ + msg@ + "\n"@),
        ]);
    }
    out
}

} // verus!
