//! The template compiler: token trees to a markup tree, and the tree to output operations.

pub mod generate;
pub mod literal;
pub mod ops;
pub mod parse;
pub mod syntax;

use crate::escape::{escaped, is_safe, lemma_escaped_is_safe};
use crate::html::generate::{
    markup_as_string_push_operations, spec_close, spec_lower, spec_lower_attr, spec_lower_from,
    spec_lower_node, spec_open,
};
use crate::html::literal::{literal_value, LitValueView};
use crate::html::ops::{ops_view, Op, OpView};
use crate::html::parse::{
    parse_nodes, spec_next, spec_parse_literal, spec_parse_literal_seq, spec_parse_nodes,
    ParseError, ParseErrorView,
};
use crate::html::syntax::{
    InterpValueType, InterpValueView, MarkupIdView, MarkupLitView, MarkupView, TagAttributeView,
};
use crate::render::{
    joined, lemma_render_concat, lemma_render_one, lookup, named_value, render_with_capacity,
    spec_render,
    spec_render_op, spec_render_pieces, Bindings, BindingView, RenderError, ValueView,
};
use crate::spread::syntax::ImplTagsView;
use crate::token::{lexed, tokenize, tokens_view, Token, TokenView};
use vstd::prelude::*;
use vstd::string::*;

verus! {

/// How many bytes of output are expected for one byte of template.
pub const SIZE_MULTIPLIER: usize = 5;

/// The name of the output buffer in generated code.
pub const OUT_ID: &'static str = "__lfml_output";

/// The tag that a shorthand attribute at the start of a statement belongs to.
pub const UNNAMED_TAG: &'static str = "div";

/// The name of the output buffer in generated code.
pub fn output_ident() -> (out: String)
    ensures
        out@ == OUT_ID@,
{
    String::from_str(OUT_ID)
}

/// Why a template was not compiled.
#[derive(Debug, PartialEq, Eq)]
pub enum CompileError {
    /// The text could not be split into tokens.
    Lex,
    /// The tokens are no template.
    Parse(ParseError),
}

pub enum CompileErrorView {
    Lex,
    Parse(ParseErrorView),
}

impl View for CompileError {
    type V = CompileErrorView;

    open spec fn view(&self) -> CompileErrorView {
        match self {
            CompileError::Lex => CompileErrorView::Lex,
            CompileError::Parse(e) => CompileErrorView::Parse(e@),
        }
    }
}

/// A compiled template: its operations, and the capacity to start the output buffer with.
#[derive(Debug, PartialEq, Eq)]
pub struct Template {
    pub size_hint: usize,
    pub ops: Vec<Op>,
}

/// The operations that the tokens `tokens` compile to.
pub open spec fn spec_compile_tokens(tokens: Seq<TokenView>) -> Result<Seq<OpView>, ParseErrorView> {
    match spec_parse_nodes(tokens, 0) {
        Ok(nodes) => Ok(spec_lower(nodes)),
        Err(e) => Err(e),
    }
}

/// The operations that the template text `text` compiles to.
pub open spec fn spec_compile(text: Seq<char>) -> Result<Seq<OpView>, CompileErrorView> {
    match lexed(text) {
        None => Err(CompileErrorView::Lex),
        Some(tokens) => match spec_compile_tokens(tokens) {
            Ok(ops) => Ok(ops),
            Err(e) => Err(CompileErrorView::Parse(e)),
        },
    }
}

/// The starting capacity for the output of a template of `len` bytes: `SIZE_MULTIPLIER`
/// times the length, or the largest number there is where that is too large.
pub open spec fn spec_size_hint(len: nat) -> int {
    if len * SIZE_MULTIPLIER <= usize::MAX {
        len * SIZE_MULTIPLIER
    } else {
        usize::MAX as int
    }
}

/// Compiles a template given as token trees: parses them and lowers the tree.
pub fn compile_tokens(input: &Vec<Token>) -> (out: Result<Vec<Op>, ParseError>)
    ensures
        match spec_compile_tokens(tokens_view(input@)) {
            Ok(ops) => out matches Ok(v) && ops_view(v@) == ops,
            Err(e) => out matches Err(x) && x@ == e,
        },
{
    match parse_nodes(input) {
        Err(e) => Err(e),
        Ok(nodes) => {
            let mut ops: Vec<Op> = Vec::new();
            markup_as_string_push_operations(&nodes, &mut ops);
            assert(ops_view(ops@) =~= spec_lower(crate::html::syntax::markups_view(nodes@)));
            Ok(ops)
        },
    }
}

/// Compiles a template given as text.
pub fn generate_markup_expr(input: &str) -> (out: Result<Template, CompileError>)
    ensures
        match spec_compile(input@) {
            Ok(ops) => out matches Ok(t) && ops_view(t.ops@) == ops && t.size_hint
                == spec_size_hint(input.len() as nat),
            Err(e) => out matches Err(x) && x@ == e,
        },
{
    let len = input.len();
    let size_hint = if len <= usize::MAX / SIZE_MULTIPLIER {
        len * SIZE_MULTIPLIER
    } else {
        usize::MAX
    };
    match tokenize(input) {
        Err(_) => Err(CompileError::Lex),
        Ok(tokens) => match compile_tokens(&tokens) {
            Ok(ops) => Ok(Template { size_hint, ops }),
            Err(e) => Err(CompileError::Parse(e)),
        },
    }
}

impl Template {
    /// Renders the template with the bindings `bindings`, into a buffer that starts with
    /// the capacity `size_hint`.
    pub fn render(&self, bindings: &Bindings) -> (out: Result<String, RenderError>)
        ensures
            match spec_render(ops_view(self.ops@), seq![bindings@]) {
                Ok(text) => out matches Ok(s) && s@ == text,
                Err(e) => out == Err::<String, RenderError>(e),
            },
    {
        render_with_capacity(&self.ops, bindings, self.size_hint)
    }
}

/// Compiling is a function of the template text: the same text gives the same
/// operations, or the same error.
pub proof fn lemma_compile_deterministic(first: Seq<char>, second: Seq<char>)
    requires
        first == second,
    ensures
        spec_compile(first) == spec_compile(second),
{
}

/// A string literal is escaped once, when it is parsed: the template that consists of
/// the literal compiles to one append of the escaped value, rendering puts out exactly that
/// text, and the text holds no raw special character.
pub proof fn lemma_string_literal_is_escaped_once(
    repr: Seq<char>,
    value: Seq<char>,
    frames: Seq<Seq<BindingView>>,
)
    requires
        literal_value(repr) == LitValueView::Str(value),
    ensures
        spec_compile_tokens(seq![TokenView::Literal(repr)]) == Ok::<Seq<OpView>, ParseErrorView>(
            seq![OpView::Push(escaped(value))],
        ),
        spec_render(seq![OpView::Push(escaped(value))], frames) == Ok::<Seq<char>, RenderError>(
            escaped(value),
        ),
        is_safe(escaped(value)),
{
    let ts = seq![TokenView::Literal(repr)];
    let lit = MarkupLitView::Basic(escaped(value));
    assert(spec_parse_literal(ts, 0) == Ok::<Option<(MarkupLitView, int)>, ParseErrorView>(
        Some((lit, 1)),
    ));
    assert(spec_parse_literal(ts, 1) == Ok::<Option<(MarkupLitView, int)>, ParseErrorView>(None));
    reveal_with_fuel(spec_parse_literal_seq, 3);
    assert(seq![lit] + Seq::<MarkupLitView>::empty() =~= seq![lit]);
    assert(spec_parse_literal_seq(ts, 0) == Ok::<(Seq<MarkupLitView>, int), ParseErrorView>(
        (seq![lit], 1),
    ));
    let node = MarkupView::LiteralSequence(seq![lit]);
    assert(spec_next(ts, 0) == Some(Ok::<(MarkupView, int), ParseErrorView>((node, 1))));
    assert(spec_next(ts, 1) is None);
    reveal_with_fuel(spec_parse_nodes, 3);
    assert(seq![node] + Seq::<MarkupView>::empty() =~= seq![node]);
    assert(spec_parse_nodes(ts, 0) == Ok::<Seq<MarkupView>, ParseErrorView>(seq![node]));
    reveal_with_fuel(crate::html::syntax::literals_text, 3);
    assert(seq![lit].drop_last() =~= Seq::<MarkupLitView>::empty());
    assert(crate::html::syntax::literals_text(seq![lit]) =~= escaped(value));
    reveal_with_fuel(spec_lower_from, 3);
    assert(spec_lower(seq![node]) =~= seq![OpView::Push(escaped(value))]);
    lemma_render_one(OpView::Push(escaped(value)), frames);
    lemma_escaped_is_safe(value);
}

/// A tag that closes itself is lowered to its opening operation and nothing else.
pub proof fn lemma_self_closing_tag(
    tag: MarkupIdView,
    attrs: Seq<TagAttributeView>,
    frames: Seq<Seq<BindingView>>,
)
    ensures
        spec_lower_node(MarkupView::Tag { tag, attrs, inner: None }) == seq![spec_open(tag, attrs)],
        spec_render(spec_lower_node(MarkupView::Tag { tag, attrs, inner: None }), frames)
            == spec_render_op(spec_open(tag, attrs), frames),
{
    lemma_render_one(spec_open(tag, attrs), frames);
}

/// A tag with a body, be it empty, is lowered to its opening operation, the operations of
/// its children and the append of its closing tag; rendered, it puts out the opening
/// tag, the children and the closing tag, in this order.
pub proof fn lemma_tag_with_body(
    tag: MarkupIdView,
    attrs: Seq<TagAttributeView>,
    children: Seq<MarkupView>,
    frames: Seq<Seq<BindingView>>,
)
    ensures
        spec_lower_node(MarkupView::Tag { tag, attrs, inner: Some(children) }) == seq![
            spec_open(tag, attrs),
        ] + spec_lower(children) + seq![spec_close(tag)],
        spec_render(
            spec_lower_node(MarkupView::Tag { tag, attrs, inner: Some(children) }),
            frames,
        ) == joined(
            spec_render_op(spec_open(tag, attrs), frames),
            joined(
                spec_render(spec_lower(children), frames),
                Ok(seq!['<', '/'] + tag.text() + seq!['>']),
            ),
        ),
{
    let open = seq![spec_open(tag, attrs)];
    let inner = spec_lower(children);
    let close = seq![spec_close(tag)];
    assert((open + inner) + close =~= open + (inner + close));
    lemma_render_concat(open, inner + close, frames);
    lemma_render_concat(inner, close, frames);
    lemma_render_one(spec_open(tag, attrs), frames);
    lemma_render_one(spec_close(tag), frames);
}

/// The text that one attribute puts out.
pub open spec fn attr_rendering(attr: TagAttributeView, frames: Seq<Seq<BindingView>>) -> Result<
    Seq<char>,
    RenderError,
> {
    spec_render_pieces(spec_lower_attr(attr), 0, frames)
}

/// A toggle attribute puts out a space and its name where its condition holds, and
/// nothing, not even the space, where it does not.
pub proof fn lemma_toggle_attribute(
    name: MarkupIdView,
    condition: Seq<TokenView>,
    on: bool,
    frames: Seq<Seq<BindingView>>,
)
    requires
        lookup(frames, condition) == Some(ValueView::Flag(on)),
    ensures
        attr_rendering(
            TagAttributeView::Interpolated {
                kind: InterpValueView::Toggle { name },
                value: condition,
            },
            frames,
        ) == Ok::<Seq<char>, RenderError>(
            if on {
                seq![' '] + name.text()
            } else {
                Seq::empty()
            },
        ),
{
    reveal_with_fuel(spec_render_pieces, 2);
    if on {
        assert((seq![' '] + name.text()) + Seq::<char>::empty() =~= seq![' '] + name.text());
    } else {
        assert(Seq::<char>::empty() + Seq::<char>::empty() =~= Seq::<char>::empty());
    }
}

/// An optional attribute puts out a space, its name and its escaped value in quotes where
/// the value is present, and nothing, not even the space, where it is absent.
pub proof fn lemma_optional_attribute(
    name: MarkupIdView,
    value: Seq<TokenView>,
    present: Option<Seq<char>>,
    frames: Seq<Seq<BindingView>>,
)
    requires
        lookup(frames, value) == Some(
            match present {
                Some(text) => ValueView::Text(text),
                None => ValueView::Absent,
            },
        ),
    ensures
        attr_rendering(
            TagAttributeView::Interpolated {
                kind: InterpValueView::NameValue { name, wrapper: InterpValueType::Optional },
                value,
            },
            frames,
        ) == Ok::<Seq<char>, RenderError>(
            match present {
                Some(text) => named_value(name.text(), escaped(text)),
                None => Seq::empty(),
            },
        ),
{
    reveal_with_fuel(spec_render_pieces, 2);
    match present {
        Some(text) => {
            let shown = named_value(name.text(), escaped(text));
            assert(shown + Seq::<char>::empty() =~= shown);
        },
        None => {
            assert(Seq::<char>::empty() + Seq::<char>::empty() =~= Seq::<char>::empty());
        },
    }
}

/// A spread of an optional bundle that is absent puts out nothing. A spread of a bundle
/// that is present, on a tag that the bundle allows, puts out the bundle's serialization
/// and nothing else; on a tag that it does not allow, the rendering fails.
pub proof fn lemma_spread_attribute(
    tag: MarkupIdView,
    wrapper: InterpValueType,
    value: Seq<TokenView>,
    present: Option<(Seq<char>, ImplTagsView)>,
    frames: Seq<Seq<BindingView>>,
)
    requires
        lookup(frames, value) == Some(
            match present {
                Some((raw, tags)) => ValueView::Attrs { raw, tags },
                None => ValueView::Absent,
            },
        ),
        present is None ==> wrapper == InterpValueType::Optional,
    ensures
        attr_rendering(
            TagAttributeView::Interpolated { kind: InterpValueView::Spread { tag, wrapper }, value },
            frames,
        ) == match present {
            Some((raw, tags)) => if tags.allows(tag.text()) {
                Ok::<Seq<char>, RenderError>(raw)
            } else {
                Err::<Seq<char>, RenderError>(RenderError::NoAccessor)
            },
            None => Ok::<Seq<char>, RenderError>(Seq::empty()),
        },
{
    reveal_with_fuel(spec_render_pieces, 2);
    match present {
        Some((raw, tags)) => {
            assert(raw + Seq::<char>::empty() =~= raw);
        },
        None => {
            assert(Seq::<char>::empty() + Seq::<char>::empty() =~= Seq::<char>::empty());
        },
    }
}

} // verus!
