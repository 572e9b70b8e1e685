//! The items of a signature: parameters, flags and the rest parameter.
//!
//! A signature is written `[ (parameter | flag | rest | <eol>)* ]`, where
//!
//! - a parameter is `name (<?>)? (<:> type)? (<?>)? item_end`: the `?` that
//!   makes it optional may stand before the type or behind it,
//! - a flag is `--name (-shortform)? (<:> type)? item_end`,
//! - the rest parameter is `...name (<:> type)? item_end`,
//! - and an item ends with `(<,>)? (#comment)? (<eol>)?`.

use crate::errors::{first_error, first_of, ParseError, ParseErrorView};
use crate::lex::{lex, lexed, Token, TokenContents, TokenContentsView, TokenView};
use crate::name_map::{lemma_deep_entries, upsert};
use crate::parse_lib::{
    And2, And3, IfSuccessThen, Maybe, Parse, ParseResult, Parsed, WithSpan,
};
use crate::primitives::{
    Comma, Comment, DoublePoint, FlagName, FlagShortName, OptionalModifier, ParameterName,
    RestName, Shape, EOL,
};
use crate::shape::SyntaxShape;
use crate::signature::{
    help_flag, NamedType, PositionalType, PositionalTypeView, Signature, SignatureView,
};
use crate::span::{Span, Spanned};
use crate::text::{
    byte_len, chars_of, has_prefix, lemma_byte_len_bounds, starts_with, string_between,
};
use crate::token_split::{
    lex_split_baseline_tokens_on, lex_split_shortflag_from_longflag, separator_split,
    shortflag_split,
};
use vstd::prelude::*;

verus! {

/// What an item says about itself in a comment.
pub type Description = String;

/// Whether the text of `token` may begin the rest parameter.
pub open spec fn rest_like(token: TokenView) -> bool {
    match token.contents {
        TokenContentsView::Baseline(s) => has_prefix(s, seq!['.', '.', '.']),
        _ => false,
    }
}

/// Whether the text of `token` may begin a flag.
pub open spec fn flag_like(token: TokenView) -> bool {
    match token.contents {
        TokenContentsView::Baseline(s) => has_prefix(s, seq!['-']),
        _ => false,
    }
}

/// Returns true if the token may be the rest parameter: a baseline token that
/// begins with `...`.
pub fn is_rest(token: &Token) -> (b: bool)
    ensures
        b == rest_like(token.deep_view()),
{
    match &token.contents {
        TokenContents::Baseline(item) => {
            let cs = chars_of(item.as_str());
            let mut dots: Vec<char> = Vec::new();
            dots.push('.');
            dots.push('.');
            dots.push('.');
            assert(dots@ =~= seq!['.', '.', '.']);
            starts_with(&cs, &dots)
        },
        _ => false,
    }
}

/// True for flags in short or long form: a baseline token that begins with
/// `-`. False otherwise.
pub fn is_flag(token: &Token) -> (b: bool)
    ensures
        b == flag_like(token.deep_view()),
{
    match &token.contents {
        TokenContents::Baseline(item) => {
            let cs = chars_of(item.as_str());
            let mut dash: Vec<char> = Vec::new();
            dash.push('-');
            assert(dash@ =~= seq!['-']);
            starts_with(&cs, &dash)
        },
        _ => false,
    }
}

/// A positional parameter as it was written.
#[derive(Debug, PartialEq, Eq)]
pub struct Parameter {
    pub pos_type: PositionalType,
    pub desc: Option<Description>,
    pub span: Span,
}

/// [`Parameter`] with text as character sequences.
pub struct ParameterView {
    pub pos_type: PositionalTypeView,
    pub desc: Option<Seq<char>>,
    pub span: Span,
}

impl DeepView for Parameter {
    type V = ParameterView;

    open spec fn deep_view(&self) -> ParameterView {
        ParameterView {
            pos_type: self.pos_type.deep_view(),
            desc: self.desc.deep_view(),
            span: self.span,
        }
    }
}

impl ParameterView {
    /// The parameter that stands in where none could be parsed.
    pub open spec fn error() -> ParameterView {
        ParameterView {
            pos_type: PositionalTypeView::Optional("Internal Error"@, SyntaxShape::Any),
            desc: Some(
                "Wanted to parse a parameter, but no input present. Please report this error!"@,
            ),
            span: Span::spec_unknown(),
        }
    }

    /// The parameter that the parts of a parameter item make up: optional if
    /// the `?` is there, of any shape if no type is given.
    pub open spec fn from_parts(
        parts: Spanned<(Seq<char>, Option<()>, Option<SyntaxShape>)>,
        comment: Option<Seq<char>>,
    ) -> ParameterView {
        let (name, optional, ty) = parts.item;
        let shape = match ty {
            Some(s) => s,
            None => SyntaxShape::Any,
        };
        ParameterView {
            pos_type: if optional is Some {
                PositionalTypeView::Optional(name, shape)
            } else {
                PositionalTypeView::Mandatory(name, shape)
            },
            desc: comment,
            span: parts.span,
        }
    }
}

impl Parameter {
    pub fn new(pos_type: PositionalType, desc: Option<Description>, span: Span) -> (p: Parameter)
        ensures
            p == (Parameter { pos_type, desc, span }),
    {
        Parameter { pos_type, desc, span }
    }

    /// The parameter that stands in where none could be parsed.
    pub fn error() -> (p: Parameter)
        ensures
            p.deep_view() == ParameterView::error(),
    {
        Parameter::new(
            PositionalType::optional("Internal Error", SyntaxShape::Any),
            Some(
                "Wanted to parse a parameter, but no input present. Please report this error!".to_owned(),
            ),
            Span::unknown(),
        )
    }

    /// The parameter that the parts of a parameter item make up.
    pub fn from_parts(
        parts: Spanned<(String, Option<()>, Option<SyntaxShape>)>,
        comment: Option<String>,
    ) -> (p: Parameter)
        ensures
            p.deep_view() == ParameterView::from_parts(parts.deep_view(), comment.deep_view()),
    {
        let span = parts.span;
        let (name, optional, ty) = parts.item;
        let shape = match ty {
            Some(s) => s,
            None => SyntaxShape::Any,
        };
        let pos_type = if optional.is_some() {
            PositionalType::Optional(name, shape)
        } else {
            PositionalType::Mandatory(name, shape)
        };
        Parameter::new(pos_type, comment, span)
    }
}

/// A flag as it was written.
#[derive(Debug, PartialEq, Eq)]
pub struct Flag {
    pub long_name: String,
    pub named_type: NamedType,
    pub desc: Option<Description>,
    pub span: Span,
}

/// [`Flag`] with text as character sequences.
pub struct FlagView {
    pub long_name: Seq<char>,
    pub named_type: NamedType,
    pub desc: Option<Seq<char>>,
    pub span: Span,
}

impl DeepView for Flag {
    type V = FlagView;

    open spec fn deep_view(&self) -> FlagView {
        FlagView {
            long_name: self.long_name@,
            named_type: self.named_type,
            desc: self.desc.deep_view(),
            span: self.span,
        }
    }
}

impl FlagView {
    /// The flag that stands in where none could be parsed.
    pub open spec fn error() -> FlagView {
        FlagView {
            long_name: "Internal Error"@,
            named_type: NamedType::Switch(None),
            desc: Some("Wanted to parse a flag, but no input present. Please report this error!"@),
            span: Span::spec_unknown(),
        }
    }

    /// The flag that the parts of a flag item make up: a switch if no type is
    /// given, else a flag that may be given with a value of that type.
    pub open spec fn from_parts(
        parts: Spanned<(Seq<char>, Option<char>, Option<SyntaxShape>)>,
        comment: Option<Seq<char>>,
    ) -> FlagView {
        let (name, shortform, ty) = parts.item;
        FlagView {
            long_name: name,
            named_type: match ty {
                Some(shape) => NamedType::Optional(shortform, shape),
                None => NamedType::Switch(shortform),
            },
            desc: comment,
            span: parts.span,
        }
    }
}

impl Flag {
    pub fn new(
        long_name: String,
        named_type: NamedType,
        desc: Option<Description>,
        span: Span,
    ) -> (f: Flag)
        ensures
            f == (Flag { long_name, named_type, desc, span }),
    {
        Flag { long_name, named_type, desc, span }
    }

    /// The flag that stands in where none could be parsed.
    pub fn error() -> (f: Flag)
        ensures
            f.deep_view() == FlagView::error(),
    {
        Flag::new(
            "Internal Error".to_owned(),
            NamedType::Switch(None),
            Some(
                "Wanted to parse a flag, but no input present. Please report this error!".to_owned(),
            ),
            Span::unknown(),
        )
    }

    /// The flag that the parts of a flag item make up.
    pub fn from_parts(
        parts: Spanned<(String, Option<char>, Option<SyntaxShape>)>,
        comment: Option<String>,
    ) -> (f: Flag)
        ensures
            f.deep_view() == FlagView::from_parts(parts.deep_view(), comment.deep_view()),
    {
        let span = parts.span;
        let (name, shortform, ty) = parts.item;
        let named_type = match ty {
            Some(shape) => NamedType::Optional(shortform, shape),
            None => NamedType::Switch(shortform),
        };
        Flag::new(name, named_type, comment, span)
    }
}

/// A type annotation, `: type`. Once the `:` is there, the type must follow.
pub struct OptionalType {}

type TypeAnnotation = IfSuccessThen<DoublePoint, Shape>;

impl Parse for OptionalType {
    type Output = Option<SyntaxShape>;

    open spec fn name() -> Seq<char> {
        "type"@
    }

    open spec fn fallback() -> Option<SyntaxShape> {
        Some(SyntaxShape::Any)
    }

    open spec fn outcome(tokens: Seq<TokenView>, i: int) -> Parsed<Option<SyntaxShape>> {
        let r = IfSuccessThen::<DoublePoint, Shape>::outcome(tokens, i);
        match r.value {
            Some((_, shape)) => Parsed { value: Some(shape), i: r.i, err: r.err },
            None => Parsed { value: None, i, err: None },
        }
    }

    proof fn lemma_cursor(tokens: Seq<TokenView>, i: int) {
        IfSuccessThen::<DoublePoint, Shape>::lemma_cursor(tokens, i);
    }

    fn parse(tokens: &[Token], i: usize) -> (res: ParseResult<Option<SyntaxShape>>) {
        let r = TypeAnnotation::parse(tokens, i);
        match r.value {
            Some((_, shape)) => ParseResult::new(Some(shape), r.i, r.err),
            None => ParseResult::new(None, i, None),
        }
    }

    fn display_name() -> (s: String) {
        "type".to_owned()
    }

    fn default_error_value() -> (v: Option<SyntaxShape>) {
        let v = Some(SyntaxShape::Any);
        assert(v.deep_view() == v);
        v
    }
}

/// The end of an item, `(<,>)? (#comment)? (<eol>)?`. Its value is the
/// comment, if there is one.
pub struct ItemEnd {}

type ItemEndParts = And2<Maybe<Comma>, And2<Maybe<Comment>, Maybe<EOL>>>;

impl Parse for ItemEnd {
    type Output = Option<Description>;

    open spec fn name() -> Seq<char> {
        "item end"@
    }

    open spec fn fallback() -> Option<Seq<char>> {
        None
    }

    open spec fn outcome(tokens: Seq<TokenView>, i: int) -> Parsed<Option<Seq<char>>> {
        let r = And2::<Maybe<Comma>, And2<Maybe<Comment>, Maybe<EOL>>>::outcome(tokens, i);
        Parsed { value: r.value.1.0, i: r.i, err: r.err }
    }

    proof fn lemma_cursor(tokens: Seq<TokenView>, i: int) {
        And2::<Maybe<Comma>, And2<Maybe<Comment>, Maybe<EOL>>>::lemma_cursor(tokens, i);
    }

    fn parse(tokens: &[Token], i: usize) -> (res: ParseResult<Option<Description>>) {
        let r = ItemEndParts::parse(tokens, i);
        let (_, (comment, _)) = r.value;
        ParseResult::new(comment, r.i, r.err)
    }

    fn display_name() -> (s: String) {
        "item end".to_owned()
    }

    fn default_error_value() -> (v: Option<Description>) {
        None
    }
}

/// The rest parameter, `...name (<:> type)? item_end`. Its value is the shape
/// (any shape if no type is given) and the comment (empty if there is none).
pub struct Rest;

type RestParts = And2<RestName, And2<OptionalType, ItemEnd>>;

impl Parse for Rest {
    type Output = (SyntaxShape, Description);

    open spec fn name() -> Seq<char> {
        "Rest item"@
    }

    open spec fn fallback() -> (SyntaxShape, Seq<char>) {
        (SyntaxShape::Any, Seq::empty())
    }

    open spec fn outcome(tokens: Seq<TokenView>, i: int) -> Parsed<(SyntaxShape, Seq<char>)> {
        let r = And2::<RestName, And2<OptionalType, ItemEnd>>::outcome(tokens, i);
        Parsed {
            value: (
                match r.value.1.0 {
                    Some(s) => s,
                    None => SyntaxShape::Any,
                },
                match r.value.1.1 {
                    Some(c) => c,
                    None => Seq::empty(),
                },
            ),
            i: r.i,
            err: r.err,
        }
    }

    proof fn lemma_cursor(tokens: Seq<TokenView>, i: int) {
        And2::<RestName, And2<OptionalType, ItemEnd>>::lemma_cursor(tokens, i);
    }

    fn parse(tokens: &[Token], i: usize) -> (res: ParseResult<(SyntaxShape, Description)>) {
        let r = RestParts::parse(tokens, i);
        let (_, (ty, comment)) = r.value;
        let shape = match ty {
            Some(s) => s,
            None => SyntaxShape::Any,
        };
        let desc = match comment {
            Some(c) => c,
            None => String::new(),
        };
        let v = (shape, desc);
        assert(v.deep_view() == (shape, desc@));
        ParseResult::new(v, r.i, r.err)
    }

    fn display_name() -> (s: String) {
        "Rest item".to_owned()
    }

    fn default_error_value() -> (v: (SyntaxShape, Description)) {
        let v = (SyntaxShape::Any, String::new());
        assert(v.deep_view() == (SyntaxShape::Any, Seq::<char>::empty()));
        v
    }
}

type ParameterParts = And2<
    WithSpan<
        And2<And3<ParameterName, Maybe<OptionalModifier>, OptionalType>, Maybe<OptionalModifier>>,
    >,
    ItemEnd,
>;

/// The modifier of a parameter: the `?` before its type or, where none
/// stands there, the one behind it.
pub open spec fn either_modifier(before: Option<()>, after: Option<()>) -> Option<()> {
    if before is Some {
        before
    } else {
        after
    }
}

/// The parts of a parameter, with the two places of the `?` taken together.
pub open spec fn parameter_parts(
    read: Spanned<((Seq<char>, Option<()>, Option<SyntaxShape>), Option<()>)>,
) -> Spanned<(Seq<char>, Option<()>, Option<SyntaxShape>)> {
    Spanned {
        item: (read.item.0.0, either_modifier(read.item.0.1, read.item.1), read.item.0.2),
        span: read.span,
    }
}

impl Parse for Parameter {
    type Output = Parameter;

    open spec fn name() -> Seq<char> {
        "parameter item"@
    }

    open spec fn fallback() -> ParameterView {
        ParameterView::error()
    }

    open spec fn outcome(tokens: Seq<TokenView>, i: int) -> Parsed<ParameterView> {
        let r = And2::<
            WithSpan<
                And2<
                    And3<ParameterName, Maybe<OptionalModifier>, OptionalType>,
                    Maybe<OptionalModifier>,
                >,
            >,
            ItemEnd,
        >::outcome(tokens, i);
        Parsed {
            value: ParameterView::from_parts(parameter_parts(r.value.0), r.value.1),
            i: r.i,
            err: r.err,
        }
    }

    proof fn lemma_cursor(tokens: Seq<TokenView>, i: int) {
        And2::<
            WithSpan<
                And2<
                    And3<ParameterName, Maybe<OptionalModifier>, OptionalType>,
                    Maybe<OptionalModifier>,
                >,
            >,
            ItemEnd,
        >::lemma_cursor(tokens, i);
    }

    fn parse(tokens: &[Token], i: usize) -> (res: ParseResult<Parameter>) {
        let r = ParameterParts::parse(tokens, i);
        let ghost read = r.value.0.deep_view();
        let (parts, comment) = r.value;
        let span = parts.span;
        let ((name, before, ty), after) = parts.item;
        assert(read.item == ((name@, before, ty), after));
        let optional = if before.is_some() {
            before
        } else {
            after
        };
        let taken = Spanned { item: (name, optional, ty), span };
        assert(taken.deep_view() == parameter_parts(read));
        ParseResult::new(Parameter::from_parts(taken, comment), r.i, r.err)
    }

    fn display_name() -> (s: String) {
        "parameter item".to_owned()
    }

    fn default_error_value() -> (v: Parameter) {
        Parameter::error()
    }
}

type FlagParts = And2<WithSpan<And3<FlagName, Maybe<FlagShortName>, OptionalType>>, ItemEnd>;

impl Parse for Flag {
    type Output = Flag;

    open spec fn name() -> Seq<char> {
        "flag item"@
    }

    open spec fn fallback() -> FlagView {
        FlagView::error()
    }

    open spec fn outcome(tokens: Seq<TokenView>, i: int) -> Parsed<FlagView> {
        let r = And2::<
            WithSpan<And3<FlagName, Maybe<FlagShortName>, OptionalType>>,
            ItemEnd,
        >::outcome(tokens, i);
        Parsed { value: FlagView::from_parts(r.value.0, r.value.1), i: r.i, err: r.err }
    }

    proof fn lemma_cursor(tokens: Seq<TokenView>, i: int) {
        And2::<
            WithSpan<And3<FlagName, Maybe<FlagShortName>, OptionalType>>,
            ItemEnd,
        >::lemma_cursor(tokens, i);
    }

    fn parse(tokens: &[Token], i: usize) -> (res: ParseResult<Flag>) {
        let r = FlagParts::parse(tokens, i);
        let (parts, comment) = r.value;
        ParseResult::new(Flag::from_parts(parts, comment), r.i, r.err)
    }

    fn display_name() -> (s: String) {
        "flag item".to_owned()
    }

    fn default_error_value() -> (v: Flag) {
        Flag::error()
    }
}

/// The description that a missing comment stands for: the empty text.
pub open spec fn desc_or_empty(desc: Option<Seq<char>>) -> Seq<char> {
    match desc {
        Some(d) => d,
        None => Seq::empty(),
    }
}

/// The positional entries of a signature that `params` give, in order.
pub open spec fn positional_of(params: Seq<ParameterView>) -> Seq<(PositionalTypeView, Seq<char>)> {
    Seq::new(params.len(), |i: int| (params[i].pos_type, desc_or_empty(params[i].desc)))
}

/// The flags of a signature after `flags` were added to `named`, one after the
/// other: a later flag of the same name takes the place of an earlier one.
pub open spec fn named_of(
    named: Seq<(Seq<char>, (NamedType, Seq<char>))>,
    flags: Seq<FlagView>,
) -> Seq<(Seq<char>, (NamedType, Seq<char>))>
    decreases flags.len(),
{
    if flags.len() == 0 {
        named
    } else {
        upsert(
            named_of(named, flags.drop_last()),
            flags.last().long_name,
            (flags.last().named_type, desc_or_empty(flags.last().desc)),
        )
    }
}

/// The signature called `name` that the items make up: the parameters in
/// their order, the flags behind `--help`, and the rest parameter.
pub open spec fn signature_of(
    name: Seq<char>,
    params: Seq<ParameterView>,
    flags: Seq<FlagView>,
    rest: Option<(SyntaxShape, Seq<char>)>,
) -> SignatureView {
    SignatureView {
        name,
        usage: Seq::empty(),
        positional: positional_of(params),
        rest_positional: rest,
        named: named_of(seq![help_flag()], flags),
        is_filter: false,
    }
}

fn text_or_empty(desc: &Option<String>) -> (d: String)
    ensures
        d@ == desc_or_empty(desc.deep_view()),
{
    match desc {
        Some(d) => d.clone(),
        None => String::new(),
    }
}

/// Assembles the signature called `name` from its items. Parameters keep
/// their order; a comment that is missing gives an empty description.
pub fn to_signature(
    name: &str,
    params: Vec<Parameter>,
    flags: Vec<Flag>,
    rest: Option<(SyntaxShape, Description)>,
) -> (sign: Signature)
    ensures
        sign.deep_view() == signature_of(
            name@,
            params.deep_view(),
            flags.deep_view(),
            rest.deep_view(),
        ),
{
    let mut sign = Signature::new(name);
    let mut i: usize = 0;
    assert(positional_of(params.deep_view().take(0)) =~= Seq::empty());
    while i < params.len()
        invariant
            i <= params.len(),
            sign.deep_view() == (SignatureView {
                positional: positional_of(params.deep_view().take(i as int)),
                ..SignatureView::new(name@)
            }),
        decreases params.len() - i,
    {
        let param = &params[i];
        let ghost before = sign.positional.deep_view();
        let entry = (param.pos_type.clone(), text_or_empty(&param.desc));
        assert(entry.deep_view() == (entry.0.deep_view(), entry.1@));
        sign.positional.push(entry);
        assert(sign.positional.deep_view() =~= before.push(entry.deep_view()));
        assert(positional_of(params.deep_view().take(i + 1)) =~= positional_of(
            params.deep_view().take(i as int),
        ).push(entry.deep_view()));
        i += 1;
    }
    assert(params.deep_view().take(params.len() as int) =~= params.deep_view());
    let mut j: usize = 0;
    assert(flags.deep_view().take(0) =~= Seq::<FlagView>::empty());
    while j < flags.len()
        invariant
            j <= flags.len(),
            sign.deep_view() == (SignatureView {
                named: named_of(seq![help_flag()], flags.deep_view().take(j as int)),
                ..signature_of(name@, params.deep_view(), Seq::empty(), None)
            }),
        decreases flags.len() - j,
    {
        let flag = &flags[j];
        let value = (flag.named_type, text_or_empty(&flag.desc));
        assert(value.deep_view() == (value.0, value.1@));
        proof {
            lemma_deep_entries(sign.named.entries(), flag.long_name@, value);
            assert(flags.deep_view().take(j + 1).drop_last() =~= flags.deep_view().take(j as int));
        }
        sign.named.insert(flag.long_name.clone(), value);
        j += 1;
    }
    assert(flags.deep_view().take(flags.len() as int) =~= flags.deep_view());
    sign.rest_positional = rest;
    sign
}

/// What the items of a signature add up to.
pub struct Items {
    pub params: Seq<ParameterView>,
    pub flags: Seq<FlagView>,
    pub rest: Option<(SyntaxShape, Seq<char>)>,
    pub err: Option<ParseErrorView>,
}

/// Where the walk over the items goes on after an item that was parsed from
/// `i` and left the cursor at `next`: at `next`, but at least one token on.
pub open spec fn step_to(i: int, next: int) -> int {
    if next > i {
        next
    } else {
        i + 1
    }
}

/// One item of a signature, or an end of line between items.
pub enum ItemView {
    Skip,
    Flag(FlagView),
    Rest((SyntaxShape, Seq<char>)),
    Param(ParameterView),
}

/// What stands at one place of a signature: the item, the error that parsing
/// it gave, and where the walk goes on.
pub struct ItemStep {
    pub item: ItemView,
    pub err: Option<ParseErrorView>,
    pub next: int,
}

/// What stands at index `i` of the tokens. An end of line is skipped. A token
/// that begins with `-` starts a flag, one that begins with `...` the rest
/// parameter, any other a parameter.
pub open spec fn item_at(tokens: Seq<TokenView>, i: int) -> ItemStep
    recommends
        0 <= i < tokens.len(),
{
    if tokens[i].contents is EOL {
        ItemStep { item: ItemView::Skip, err: None, next: i + 1 }
    } else if flag_like(tokens[i]) {
        let r = <Flag as Parse>::outcome(tokens, i);
        ItemStep { item: ItemView::Flag(r.value), err: r.err, next: step_to(i, r.i) }
    } else if rest_like(tokens[i]) {
        let r = Rest::outcome(tokens, i);
        ItemStep { item: ItemView::Rest(r.value), err: r.err, next: step_to(i, r.i) }
    } else {
        let r = <Parameter as Parse>::outcome(tokens, i);
        ItemStep { item: ItemView::Param(r.value), err: r.err, next: step_to(i, r.i) }
    }
}

/// The items `tail` with the item of `step` in front.
pub open spec fn items_cons(step: ItemStep, tail: Items) -> Items {
    let err = first_of(step.err, tail.err);
    match step.item {
        ItemView::Skip => tail,
        ItemView::Flag(f) => Items { flags: seq![f] + tail.flags, err, ..tail },
        ItemView::Rest(r) => Items {
            rest: if tail.rest is Some {
                tail.rest
            } else {
                Some(r)
            },
            err,
            ..tail
        },
        ItemView::Param(p) => Items { params: seq![p] + tail.params, err, ..tail },
    }
}

/// The items that the tokens from index `i` on hold. Of several rest
/// parameters the last one counts; of several errors the first.
pub open spec fn items_from(tokens: Seq<TokenView>, i: int) -> Items
    decreases tokens.len() - i,
{
    if i < 0 || i >= tokens.len() {
        Items { params: Seq::empty(), flags: Seq::empty(), rest: None, err: None }
    } else {
        let step = item_at(tokens, i);
        if i < step.next {
            items_cons(step, items_from(tokens, step.next))
        } else {
            Items { params: Seq::empty(), flags: Seq::empty(), rest: None, err: None }
        }
    }
}

/// One item of a signature, or an end of line between items.
#[derive(Debug, PartialEq, Eq)]
pub enum Item {
    Skip,
    Flag(Flag),
    Rest((SyntaxShape, Description)),
    Param(Parameter),
}

impl DeepView for Item {
    type V = ItemView;

    open spec fn deep_view(&self) -> ItemView {
        match *self {
            Item::Skip => ItemView::Skip,
            Item::Flag(f) => ItemView::Flag(f.deep_view()),
            Item::Rest(r) => ItemView::Rest((r.0, r.1@)),
            Item::Param(p) => ItemView::Param(p.deep_view()),
        }
    }
}

/// Parses what stands at index `i`.
pub fn parse_item(tokens: &[Token], i: usize) -> (r: (Item, Option<ParseError>, usize))
    requires
        i < tokens.len(),
    ensures
        r.0.deep_view() == item_at(tokens.deep_view(), i as int).item,
        r.1.deep_view() == item_at(tokens.deep_view(), i as int).err,
        r.2 == item_at(tokens.deep_view(), i as int).next,
        i < r.2 <= tokens.len(),
{
    let ghost all = tokens.deep_view();
    assert(all[i as int] == tokens@[i as int].deep_view());
    if tokens[i].contents.is_eol() {
        (Item::Skip, None, i + 1)
    } else if is_flag(&tokens[i]) {
        let r = <Flag as Parse>::parse(tokens, i);
        proof {
            <Flag as Parse>::lemma_cursor(all, i as int);
        }
        let next = if r.i > i {
            r.i
        } else {
            i + 1
        };
        (Item::Flag(r.value), r.err, next)
    } else if is_rest(&tokens[i]) {
        let r = Rest::parse(tokens, i);
        proof {
            Rest::lemma_cursor(all, i as int);
        }
        let next = if r.i > i {
            r.i
        } else {
            i + 1
        };
        let v = r.value;
        assert(v.deep_view() == (v.0, v.1@));
        (Item::Rest(v), r.err, next)
    } else {
        let r = <Parameter as Parse>::parse(tokens, i);
        proof {
            <Parameter as Parse>::lemma_cursor(all, i as int);
        }
        let next = if r.i > i {
            r.i
        } else {
            i + 1
        };
        (Item::Param(r.value), r.err, next)
    }
}

/// The error for a signature that does not stand between `[` and `]`.
pub open spec fn bracket_error(text: Seq<char>, span: Span) -> Option<ParseErrorView> {
    if text.len() >= 2 && text[0] == '[' && text.last() == ']' {
        None
    } else {
        Some(
            ParseErrorView::Mismatch {
                expected: "definition signature"@,
                actual: Spanned { item: text, span },
            },
        )
    }
}

/// The text between the first and the last character of `text`.
pub open spec fn interior(text: Seq<char>) -> Seq<char> {
    if text.len() >= 2 {
        text.subrange(1, text.len() - 1)
    } else {
        Seq::empty()
    }
}

/// The characters at which a baseline token of a signature is cut.
pub open spec fn separators() -> Seq<char> {
    seq![',', ':', '?']
}

/// The tokens of the signature text `text` that stands at `span`.
pub open spec fn signature_tokens(text: Seq<char>, span: Span) -> Seq<TokenView> {
    shortflag_split(separator_split(lexed(interior(text), span.start + 1).tokens, separators()))
}

/// The signature called `name` that the text `text` at `span` declares, and
/// the first error met: a missing bracket, then an error of the lexer, then
/// the errors of the items in their order.
pub open spec fn parsed_signature(name: Seq<char>, text: Seq<char>, span: Span) -> (
    SignatureView,
    Option<ParseErrorView>,
) {
    let items = items_from(signature_tokens(text, span), 0);
    (
        signature_of(name, items.params, items.flags, items.rest),
        first_of(
            first_of(bracket_error(text, span), lexed(interior(text), span.start + 1).err),
            items.err,
        ),
    )
}

/// Parses the signature `signature_vec`, written `[ ... ]`, of the command
/// called `name`.
///
/// The result is always a signature: what cannot be parsed is left out or
/// replaced, and the first error met is handed back beside it.
pub fn parse_signature(name: &str, signature_vec: &Spanned<String>) -> (res: (
    Signature,
    Option<ParseError>,
))
    requires
        signature_vec.span.start + 1 + byte_len(interior(signature_vec.item@)) <= usize::MAX,
    ensures
        res.0.deep_view() == parsed_signature(name@, signature_vec.item@, signature_vec.span).0,
        res.1.deep_view() == parsed_signature(name@, signature_vec.item@, signature_vec.span).1,
{
    let cs = chars_of(signature_vec.item.as_str());
    let mut err: Option<ParseError> = None;
    if !(cs.len() >= 2 && cs[0] == '[' && cs[cs.len() - 1] == ']') {
        err = Some(
            ParseError::mismatch("definition signature".to_owned(), signature_vec.clone()),
        );
    }
    let string = if cs.len() >= 2 {
        string_between(&cs, 1, cs.len() - 1)
    } else {
        String::new()
    };
    proof {
        lemma_byte_len_bounds(interior(signature_vec.item@));
    }
    let (tokens, error) = lex(string.as_str(), signature_vec.span.start() + 1);
    err = first_error(err, error);

    let mut seps: Vec<char> = Vec::new();
    seps.push(',');
    seps.push(':');
    seps.push('?');
    assert(seps@ =~= separators());
    let tokens = lex_split_baseline_tokens_on(tokens, seps.as_slice());
    let tokens = lex_split_shortflag_from_longflag(tokens);
    let ghost all = tokens.deep_view();
    assert(all == signature_tokens(signature_vec.item@, signature_vec.span));
    let ghost whole = items_from(all, 0);
    let ghost first = err.deep_view();

    let mut parameters: Vec<Parameter> = Vec::new();
    let mut flags: Vec<Flag> = Vec::new();
    let mut rest: Option<(SyntaxShape, Description)> = None;
    let mut i: usize = 0;
    assert(parameters.deep_view() =~= Seq::<ParameterView>::empty());
    assert(flags.deep_view() =~= Seq::<FlagView>::empty());
    while i < tokens.len()
        invariant
            i <= tokens.len(),
            all == tokens.deep_view(),
            parameters.deep_view() + items_from(all, i as int).params == whole.params,
            flags.deep_view() + items_from(all, i as int).flags == whole.flags,
            whole.rest == (if items_from(all, i as int).rest is Some {
                items_from(all, i as int).rest
            } else {
                rest.deep_view()
            }),
            first_of(first, whole.err) == first_of(err.deep_view(), items_from(all, i as int).err),
        decreases tokens.len() - i,
    {
        let ghost here = items_from(all, i as int);
        let (item, error, next) = parse_item(tokens.as_slice(), i);
        let ghost tail = items_from(all, next as int);
        assert(here == items_cons(item_at(all, i as int), tail));
        err = first_error(err, error);
        match item {
            Item::Skip => {},
            Item::Flag(flag) => {
                let ghost before = flags.deep_view();
                let ghost fv = flag.deep_view();
                flags.push(flag);
                assert(flags.deep_view() =~= before.push(fv));
                assert(flags.deep_view() + tail.flags =~= before + here.flags);
            },
            Item::Rest(rest_) => {
                assert(rest_.deep_view() == (rest_.0, rest_.1@));
                rest = Some(rest_);
            },
            Item::Param(parameter) => {
                let ghost before = parameters.deep_view();
                let ghost pv = parameter.deep_view();
                parameters.push(parameter);
                assert(parameters.deep_view() =~= before.push(pv));
                assert(parameters.deep_view() + tail.params =~= before + here.params);
            },
        }
        i = next;
    }
    assert(parameters.deep_view() + Seq::<ParameterView>::empty() =~= parameters.deep_view());
    assert(flags.deep_view() + Seq::<FlagView>::empty() =~= flags.deep_view());
    let signature = to_signature(name, parameters, flags, rest);
    (signature, err)
}

} // verus!
