//! The colours in which the parts of a command line are shown.

use crate::span::{Span, Spanned};
use vstd::prelude::*;
use vstd::string::{StrSliceExecFns, StringSliceAdditionalSpecFns};

verus! {

/// A colour of the terminal.
#[derive(Clone, Copy, Debug, PartialEq, Eq, Structural)]
pub enum Color {
    Black,
    Red,
    Green,
    Yellow,
    Blue,
    Purple,
    Cyan,
    White,
    /// One of the 256 colours of the terminal's table.
    Fixed(u8),
    /// A colour by its red, green and blue parts.
    RGB(u8, u8, u8),
}

/// How a piece of text is shown.
#[derive(Clone, Copy, Debug, PartialEq, Eq, Structural)]
pub struct Style {
    pub foreground: Option<Color>,
    pub background: Option<Color>,
    pub is_bold: bool,
}

impl Style {
    pub open spec fn spec_new() -> Style {
        Style { foreground: None, background: None, is_bold: false }
    }

    /// The style that changes nothing.
    #[verifier::when_used_as_spec(spec_new)]
    pub fn new() -> (s: Style)
        ensures
            s == Style::spec_new(),
    {
        Style { foreground: None, background: None, is_bold: false }
    }

    /// This style with the text in `color`.
    pub fn fg(self, color: Color) -> (s: Style)
        ensures
            s == (Style { foreground: Some(color), ..self }),
    {
        Style { foreground: Some(color), ..self }
    }

    /// This style on a ground of `color`.
    pub fn on(self, color: Color) -> (s: Style)
        ensures
            s == (Style { background: Some(color), ..self }),
    {
        Style { background: Some(color), ..self }
    }

    /// This style in bold.
    pub fn bold(self) -> (s: Style)
        ensures
            s == (Style { is_bold: true, ..self }),
    {
        Style { is_bold: true, ..self }
    }
}

impl Color {
    pub open spec fn spec_normal(self) -> Style {
        Style { foreground: Some(self), background: None, is_bold: false }
    }

    pub open spec fn spec_bold(self) -> Style {
        Style { foreground: Some(self), background: None, is_bold: true }
    }

    /// Text in this colour.
    #[verifier::when_used_as_spec(spec_normal)]
    pub fn normal(self) -> (s: Style)
        ensures
            s == self.spec_normal(),
    {
        Style { foreground: Some(self), background: None, is_bold: false }
    }

    /// Bold text in this colour.
    #[verifier::when_used_as_spec(spec_bold)]
    pub fn bold(self) -> (s: Style)
        ensures
            s == self.spec_bold(),
    {
        Style { foreground: Some(self), background: None, is_bold: true }
    }
}

/// A delimiter that encloses something.
#[derive(Clone, Copy, Debug, PartialEq, Eq, Structural)]
pub enum Delimiter {
    Paren,
    Brace,
    Square,
}

/// What a piece of a command line is.
#[derive(Clone, Copy, Debug, PartialEq, Eq, Structural)]
pub enum FlatShape {
    OpenDelimiter(Delimiter),
    CloseDelimiter(Delimiter),
    ItVariable,
    Keyword,
    Variable,
    Identifier,
    Type,
    Operator,
    DotDot,
    Dot,
    InternalCommand,
    ExternalCommand,
    ExternalWord,
    BareMember,
    StringMember,
    String,
    Path,
    GlobPattern,
    Word,
    Pipe,
    Flag,
    ShorthandFlag,
    Int,
    Decimal,
    Whitespace,
    Separator,
    Comment,
    Garbage,
    /// A number with a unit, each with its own place.
    Size { number: Span, unit: Span },
}

/// The styles for one piece of a command line: one style for the whole
/// piece, or for a size one for the number and one for the unit.
pub open spec fn styled(shape: Spanned<FlatShape>, whole: Style, number: Style, unit: Style) -> Seq<
    Spanned<Style>,
> {
    match shape.item {
        FlatShape::Size { number: n, unit: u } => seq![
            Spanned { item: number, span: n },
            Spanned { item: unit, span: u },
        ],
        _ => seq![Spanned { item: whole, span: shape.span }],
    }
}

/// A choice of styles for the pieces of a command line.
pub trait Palette {
    /// The style in which this palette shows a piece that is `shape`; for a
    /// size, the style of the number.
    spec fn style_of(&self, shape: FlatShape) -> Style;

    /// The style in which this palette shows the unit of a size.
    spec fn unit_style(&self) -> Style;

    /// The styles for the piece `shape`, each with the place it is for.
    fn styles_for_shape(&self, shape: &Spanned<FlatShape>) -> (r: Vec<Spanned<Style>>)
        ensures
            r@ == styled(*shape, self.style_of(shape.item), self.style_of(shape.item), self.unit_style()),
    ;
}

fn single_style_span(style: Style, span: Span) -> (r: Vec<Spanned<Style>>)
    ensures
        r@ == seq![Spanned { item: style, span }],
{
    let mut r: Vec<Spanned<Style>> = Vec::new();
    r.push(Spanned { item: style, span });
    assert(r@ =~= seq![Spanned { item: style, span }]);
    r
}

fn size_styles(number: Style, at: Span, unit: Style, unit_at: Span) -> (r: Vec<Spanned<Style>>)
    ensures
        r@ == seq![Spanned { item: number, span: at }, Spanned { item: unit, span: unit_at }],
{
    let mut r: Vec<Spanned<Style>> = Vec::new();
    r.push(Spanned { item: number, span: at });
    r.push(Spanned { item: unit, span: unit_at });
    assert(r@ =~= seq![Spanned { item: number, span: at }, Spanned { item: unit, span: unit_at }]);
    r
}

/// The palette that is used where none is chosen.
pub struct DefaultPalette {}

/// The style in which the default palette shows a piece that is `shape`.
pub open spec fn default_style(shape: FlatShape) -> Style {
    match shape {
        FlatShape::OpenDelimiter(_) => Color::White.normal(),
        FlatShape::CloseDelimiter(_) => Color::White.normal(),
        FlatShape::ItVariable => Color::Purple.bold(),
        FlatShape::Keyword => Color::Purple.bold(),
        FlatShape::Variable => Color::Purple.normal(),
        FlatShape::Identifier => Color::Purple.normal(),
        FlatShape::Type => Color::Blue.bold(),
        FlatShape::Operator => Color::Yellow.normal(),
        FlatShape::DotDot => Color::Yellow.bold(),
        FlatShape::Dot => Color::White.normal(),
        FlatShape::InternalCommand => Color::Cyan.bold(),
        FlatShape::ExternalCommand => Color::Cyan.normal(),
        FlatShape::ExternalWord => Color::Green.bold(),
        FlatShape::BareMember => Color::Yellow.bold(),
        FlatShape::StringMember => Color::Yellow.bold(),
        FlatShape::String => Color::Green.normal(),
        FlatShape::Path => Color::Cyan.normal(),
        FlatShape::GlobPattern => Color::Cyan.bold(),
        FlatShape::Word => Color::Green.normal(),
        FlatShape::Pipe => Color::Purple.bold(),
        FlatShape::Flag => Color::Blue.bold(),
        FlatShape::ShorthandFlag => Color::Blue.bold(),
        FlatShape::Int => Color::Purple.bold(),
        FlatShape::Decimal => Color::Purple.bold(),
        FlatShape::Whitespace => Color::White.normal(),
        FlatShape::Separator => Color::White.normal(),
        FlatShape::Comment => Color::Green.bold(),
        FlatShape::Garbage => Style {
            foreground: Some(Color::White),
            background: Some(Color::Red),
            is_bold: false,
        },
        FlatShape::Size { .. } => Color::Purple.bold(),
    }
}

impl Palette for DefaultPalette {
    open spec fn style_of(&self, shape: FlatShape) -> Style {
        default_style(shape)
    }

    open spec fn unit_style(&self) -> Style {
        Color::Cyan.bold()
    }

    fn styles_for_shape(&self, shape: &Spanned<FlatShape>) -> (r: Vec<Spanned<Style>>) {
        match &shape.item {
            FlatShape::OpenDelimiter(_) => single_style_span(Color::White.normal(), shape.span),
            FlatShape::CloseDelimiter(_) => single_style_span(Color::White.normal(), shape.span),
            FlatShape::ItVariable | FlatShape::Keyword => {
                single_style_span(Color::Purple.bold(), shape.span)
            },
            FlatShape::Variable | FlatShape::Identifier => {
                single_style_span(Color::Purple.normal(), shape.span)
            },
            FlatShape::Type => single_style_span(Color::Blue.bold(), shape.span),
            FlatShape::Operator => single_style_span(Color::Yellow.normal(), shape.span),
            FlatShape::DotDot => single_style_span(Color::Yellow.bold(), shape.span),
            FlatShape::Dot => single_style_span(Style::new().fg(Color::White), shape.span),
            FlatShape::InternalCommand => single_style_span(Color::Cyan.bold(), shape.span),
            FlatShape::ExternalCommand => single_style_span(Color::Cyan.normal(), shape.span),
            FlatShape::ExternalWord => single_style_span(Color::Green.bold(), shape.span),
            FlatShape::BareMember => single_style_span(Color::Yellow.bold(), shape.span),
            FlatShape::StringMember => single_style_span(Color::Yellow.bold(), shape.span),
            FlatShape::String => single_style_span(Color::Green.normal(), shape.span),
            FlatShape::Path => single_style_span(Color::Cyan.normal(), shape.span),
            FlatShape::GlobPattern => single_style_span(Color::Cyan.bold(), shape.span),
            FlatShape::Word => single_style_span(Color::Green.normal(), shape.span),
            FlatShape::Pipe => single_style_span(Color::Purple.bold(), shape.span),
            FlatShape::Flag => single_style_span(Color::Blue.bold(), shape.span),
            FlatShape::ShorthandFlag => single_style_span(Color::Blue.bold(), shape.span),
            FlatShape::Int => single_style_span(Color::Purple.bold(), shape.span),
            FlatShape::Decimal => single_style_span(Color::Purple.bold(), shape.span),
            FlatShape::Whitespace | FlatShape::Separator => {
                single_style_span(Color::White.normal(), shape.span)
            },
            FlatShape::Comment => single_style_span(Color::Green.bold(), shape.span),
            FlatShape::Garbage => {
                single_style_span(Style::new().fg(Color::White).on(Color::Red), shape.span)
            },
            FlatShape::Size { number, unit } => size_styles(
                Color::Purple.bold(),
                *number,
                Color::Cyan.bold(),
                *unit,
            ),
        }
    }
}

/// The colours of a theme, one for each kind of piece.
#[derive(Clone, Copy, Debug, PartialEq, Eq, Structural)]
pub struct Theme {
    pub open_delimiter: Color,
    pub close_delimiter: Color,
    pub type_: Color,
    pub identifier: Color,
    pub it_variable: Color,
    pub variable: Color,
    pub operator: Color,
    pub dot: Color,
    pub dot_dot: Color,
    pub internal_command: Color,
    pub external_command: Color,
    pub external_word: Color,
    pub bare_member: Color,
    pub string_member: Color,
    pub string: Color,
    pub path: Color,
    pub word: Color,
    pub keyword: Color,
    pub pipe: Color,
    pub glob_pattern: Color,
    pub flag: Color,
    pub shorthand_flag: Color,
    pub integer: Color,
    pub decimal: Color,
    pub garbage: Color,
    pub whitespace: Color,
    pub separator: Color,
    pub comment: Color,
    pub size_number: Color,
    pub size_unit: Color,
}

/// A palette whose colours come from a theme.
#[derive(Debug, PartialEq, Eq)]
pub struct ThemedPallet {
    theme: Theme,
}

/// The style in which the palette of the theme `theme` shows a piece that is
/// `shape`.
pub open spec fn themed_style(theme: Theme, shape: FlatShape) -> Style {
    match shape {
        FlatShape::OpenDelimiter(_) => theme.open_delimiter.normal(),
        FlatShape::CloseDelimiter(_) => theme.close_delimiter.normal(),
        FlatShape::ItVariable => theme.it_variable.bold(),
        FlatShape::Keyword => theme.keyword.bold(),
        FlatShape::Variable => theme.variable.normal(),
        FlatShape::Identifier => theme.identifier.normal(),
        FlatShape::Type => theme.type_.bold(),
        FlatShape::Operator => theme.operator.normal(),
        FlatShape::DotDot => theme.dot_dot.bold(),
        FlatShape::Dot => theme.dot.normal(),
        FlatShape::InternalCommand => theme.internal_command.bold(),
        FlatShape::ExternalCommand => theme.external_command.normal(),
        FlatShape::ExternalWord => theme.external_word.bold(),
        FlatShape::BareMember => theme.bare_member.bold(),
        FlatShape::StringMember => theme.string_member.bold(),
        FlatShape::String => theme.string.normal(),
        FlatShape::Path => theme.path.normal(),
        FlatShape::GlobPattern => theme.glob_pattern.bold(),
        FlatShape::Word => theme.word.normal(),
        FlatShape::Pipe => theme.pipe.bold(),
        FlatShape::Flag => theme.flag.bold(),
        FlatShape::ShorthandFlag => theme.shorthand_flag.bold(),
        FlatShape::Int => theme.integer.bold(),
        FlatShape::Decimal => theme.decimal.bold(),
        FlatShape::Whitespace => theme.whitespace.normal(),
        FlatShape::Separator => theme.separator.normal(),
        FlatShape::Comment => theme.comment.bold(),
        FlatShape::Garbage => Style {
            foreground: Some(theme.garbage),
            background: Some(Color::Red),
            is_bold: false,
        },
        FlatShape::Size { .. } => theme.size_number.bold(),
    }
}

impl ThemedPallet {
    pub closed spec fn theme(&self) -> Theme {
        self.theme
    }

    /// The palette with the colours of `theme`.
    pub fn from_theme(theme: Theme) -> (p: ThemedPallet)
        ensures
            p.theme() == theme,
    {
        ThemedPallet { theme }
    }
}

impl Palette for ThemedPallet {
    open spec fn style_of(&self, shape: FlatShape) -> Style {
        themed_style(self.theme(), shape)
    }

    open spec fn unit_style(&self) -> Style {
        self.theme().size_unit.bold()
    }

    fn styles_for_shape(&self, shape: &Spanned<FlatShape>) -> (r: Vec<Spanned<Style>>) {
        match &shape.item {
            FlatShape::OpenDelimiter(_) => {
                single_style_span(self.theme.open_delimiter.normal(), shape.span)
            },
            FlatShape::CloseDelimiter(_) => {
                single_style_span(self.theme.close_delimiter.normal(), shape.span)
            },
            FlatShape::ItVariable => single_style_span(self.theme.it_variable.bold(), shape.span),
            FlatShape::Keyword => single_style_span(self.theme.keyword.bold(), shape.span),
            FlatShape::Variable => single_style_span(self.theme.variable.normal(), shape.span),
            FlatShape::Identifier => single_style_span(self.theme.identifier.normal(), shape.span),
            FlatShape::Type => single_style_span(self.theme.type_.bold(), shape.span),
            FlatShape::Operator => single_style_span(self.theme.operator.normal(), shape.span),
            FlatShape::DotDot => single_style_span(self.theme.dot_dot.bold(), shape.span),
            FlatShape::Dot => single_style_span(Style::new().fg(self.theme.dot), shape.span),
            FlatShape::InternalCommand => {
                single_style_span(self.theme.internal_command.bold(), shape.span)
            },
            FlatShape::ExternalCommand => {
                single_style_span(self.theme.external_command.normal(), shape.span)
            },
            FlatShape::ExternalWord => {
                single_style_span(self.theme.external_word.bold(), shape.span)
            },
            FlatShape::BareMember => single_style_span(self.theme.bare_member.bold(), shape.span),
            FlatShape::StringMember => {
                single_style_span(self.theme.string_member.bold(), shape.span)
            },
            FlatShape::String => single_style_span(self.theme.string.normal(), shape.span),
            FlatShape::Path => single_style_span(self.theme.path.normal(), shape.span),
            FlatShape::GlobPattern => single_style_span(self.theme.glob_pattern.bold(), shape.span),
            FlatShape::Word => single_style_span(self.theme.word.normal(), shape.span),
            FlatShape::Pipe => single_style_span(self.theme.pipe.bold(), shape.span),
            FlatShape::Flag => single_style_span(self.theme.flag.bold(), shape.span),
            FlatShape::ShorthandFlag => {
                single_style_span(self.theme.shorthand_flag.bold(), shape.span)
            },
            FlatShape::Int => single_style_span(self.theme.integer.bold(), shape.span),
            FlatShape::Decimal => single_style_span(self.theme.decimal.bold(), shape.span),
            FlatShape::Whitespace => single_style_span(self.theme.whitespace.normal(), shape.span),
            FlatShape::Separator => single_style_span(self.theme.separator.normal(), shape.span),
            FlatShape::Comment => single_style_span(self.theme.comment.bold(), shape.span),
            FlatShape::Garbage => single_style_span(
                Style::new().fg(self.theme.garbage).on(Color::Red),
                shape.span,
            ),
            FlatShape::Size { number, unit } => size_styles(
                self.theme.size_number.bold(),
                *number,
                self.theme.size_unit.bold(),
                *unit,
            ),
        }
    }
}

/// Why a text is not the name of a colour.
#[derive(Clone, Copy, Debug, PartialEq, Eq, Structural)]
pub enum ColorError {
    /// The text has fewer than six bytes.
    TooShort,
    /// The byte is neither a digit nor a small letter.
    InvalidCharacter(u8),
}

/// The number that the byte `character` stands for: its place among the
/// digits, or ten more than its place among the small letters.
pub open spec fn numeral(character: u8) -> Option<u8> {
    if 0x30 <= character <= 0x39 {
        Some((character - 0x30) as u8)
    } else if 0x61 <= character <= 0x7a {
        Some((character - 0x57) as u8)
    } else {
        None
    }
}

/// The number that the byte `character` stands for.
pub fn numerical_value(character: u8) -> (r: Result<u8, ColorError>)
    ensures
        match r {
            Ok(v) => numeral(character) == Some(v),
            Err(e) => numeral(character) is None && e == ColorError::InvalidCharacter(character),
        },
{
    if 0x30 <= character && character <= 0x39 {
        Ok(character - 0x30)
    } else if 0x61 <= character && character <= 0x7a {
        Ok(character - 0x57)
    } else {
        Err(ColorError::InvalidCharacter(character))
    }
}

/// The byte that two numerals make: the first shifted up by four bits, joined
/// with the second.
pub open spec fn joined(upper: u8, lower: u8) -> u8 {
    (upper << 4) | lower
}

/// The byte that the two characters at `at` and `at + 1` of `bytes` stand
/// for.
pub open spec fn byte_at(bytes: Seq<u8>, at: int) -> Result<u8, ColorError> {
    if at + 1 >= bytes.len() {
        Err(ColorError::TooShort)
    } else {
        match numeral(bytes[at]) {
            None => Err(ColorError::InvalidCharacter(bytes[at])),
            Some(upper) => match numeral(bytes[at + 1]) {
                None => Err(ColorError::InvalidCharacter(bytes[at + 1])),
                Some(lower) => Ok(joined(upper, lower)),
            },
        }
    }
}

/// The byte that the two characters at `at` and `at + 1` of `bytes` stand
/// for.
pub fn xtoi(bytes: &Vec<u8>, at: usize) -> (r: Result<u8, ColorError>)
    requires
        at < usize::MAX,
    ensures
        r == byte_at(bytes@, at as int),
{
    if at + 1 >= bytes.len() {
        return Err(ColorError::TooShort);
    }
    let upper = match numerical_value(bytes[at]) {
        Ok(v) => v,
        Err(e) => {
            return Err(e);
        },
    };
    let lower = match numerical_value(bytes[at + 1]) {
        Ok(v) => v,
        Err(e) => {
            return Err(e);
        },
    };
    Ok((upper << 4) | lower)
}

/// The colour that the first six bytes of `bytes` name: two characters each
/// for red, green and blue.
pub open spec fn color_named(bytes: Seq<u8>) -> Result<Color, ColorError> {
    match byte_at(bytes, 0) {
        Err(e) => Err(e),
        Ok(r) => match byte_at(bytes, 2) {
            Err(e) => Err(e),
            Ok(g) => match byte_at(bytes, 4) {
                Err(e) => Err(e),
                Ok(b) => Ok(Color::RGB(r, g, b)),
            },
        },
    }
}

/// The colour that the text `s` names.
pub fn to_color(s: &str) -> (r: Result<Color, ColorError>)
    ensures
        r == color_named(s.spec_bytes()),
{
    let bytes = s.as_bytes_vec();
    let r = match xtoi(&bytes, 0) {
        Ok(v) => v,
        Err(e) => {
            return Err(e);
        },
    };
    let g = match xtoi(&bytes, 2) {
        Ok(v) => v,
        Err(e) => {
            return Err(e);
        },
    };
    let b = match xtoi(&bytes, 4) {
        Ok(v) => v,
        Err(e) => {
            return Err(e);
        },
    };
    Ok(Color::RGB(r, g, b))
}

} // verus!
