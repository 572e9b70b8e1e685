//! What the configuration says of how tables are drawn.

use crate::name_map::{lookup, NameMap};
use crate::palette::Color;
use crate::scope::lemma_lookup_deep;
use crate::text::same_text;
use crate::value::{cell, lemma_row_view, UntaggedValue, UntaggedValueView, Value, ValueView};
use vstd::prelude::*;

verus! {

/// Where text stands in its cell.
#[derive(Clone, Copy, Debug, PartialEq, Eq, Structural)]
pub enum Alignment {
    Left,
    Center,
    Right,
}

/// The lines with which a table is drawn.
#[derive(Clone, Copy, Debug, PartialEq, Eq, Structural)]
pub enum TableTheme {
    Basic,
    Compact,
    Light,
    Thin,
    WithLove,
    CompactDouble,
    Rounded,
    Reinforced,
    Heavy,
    /// No lines at all.
    Blank,
}

/// How the text of a cell is shown.
#[derive(Clone, Copy, Debug, PartialEq, Eq, Structural)]
pub struct TextStyle {
    pub alignment: Alignment,
    pub is_bold: Option<bool>,
    pub color: Option<Color>,
}

/// The settings of the configuration, by name.
#[derive(Debug, PartialEq, Eq)]
pub struct NuConfig {
    pub vars: NameMap<Value>,
}

/// What a configuration says of how tables are drawn.
pub trait ConfigExtensions {
    spec fn spec_table_mode(&self) -> TableTheme;

    spec fn spec_disabled_indexes(&self) -> bool;

    spec fn spec_header_style(&self) -> TextStyle;

    /// The lines with which tables are drawn.
    fn table_mode(&self) -> (t: TableTheme)
        ensures
            t == self.spec_table_mode(),
    ;

    /// Whether the column of row numbers is left out.
    fn disabled_indexes(&self) -> (b: bool)
        ensures
            b == self.spec_disabled_indexes(),
    ;

    /// How the headers are shown.
    fn header_style(&self) -> (s: TextStyle)
        ensures
            s == self.spec_header_style(),
    ;
}

/// The alignment that the setting `v` asks for: left for `l` or `left`, right
/// for `r` or `right`, and centered for anything else.
pub open spec fn alignment_of(v: Option<ValueView>) -> Alignment {
    match v {
        Some(v) => match v.text() {
            Some(t) => if t == "l"@ || t == "left"@ {
                Alignment::Left
            } else if t == "r"@ || t == "right"@ {
                Alignment::Right
            } else {
                Alignment::Center
            },
            None => Alignment::Center,
        },
        None => Alignment::Center,
    }
}

/// The alignment of the headers that the setting asks for.
pub fn header_alignment_from_value(align_value: Option<&Value>) -> (a: Alignment)
    ensures
        a == alignment_of(align_value.deep_view()),
{
    match align_value {
        Some(v) => match v.as_string() {
            Ok(s) => {
                if same_text(s.as_str(), "l") || same_text(s.as_str(), "left") {
                    Alignment::Left
                } else if same_text(s.as_str(), "r") || same_text(s.as_str(), "right") {
                    Alignment::Right
                } else {
                    Alignment::Center
                }
            },
            Err(_) => Alignment::Center,
        },
        None => Alignment::Center,
    }
}

/// The cell `subkey` of the setting `key`, if that setting is a row that has
/// such a cell.
pub open spec fn setting_in(
    vars: Seq<(Seq<char>, ValueView)>,
    key: Seq<char>,
    subkey: Seq<char>,
) -> Option<ValueView> {
    match lookup(vars, key) {
        Some(v) => match v.value {
            UntaggedValueView::Row(entries) => cell(entries, subkey),
            _ => None,
        },
        None => None,
    }
}

/// The cell `subkey` of the setting `key`.
pub fn get_color_from_key_and_subkey(config: &NuConfig, key: &str, subkey: &str) -> (r: Option<
    Value,
>)
    ensures
        r.deep_view() == setting_in(config.vars.deep_view(), key@, subkey@),
{
    proof {
        lemma_lookup_deep(config.vars.entries(), key@);
    }
    match config.vars.get(key) {
        Some(config_vars) => match &config_vars.value {
            UntaggedValue::Row(d) => {
                proof {
                    lemma_row_view(*d, config_vars.tag);
                }
                match d.get_data(subkey) {
                    Some(value) => Some(value.clone()),
                    None => None,
                }
            },
            _ => None,
        },
        None => None,
    }
}

/// Whether the setting `v` asks for bold: it does unless it is the truth
/// value `false`.
pub open spec fn bold_of(v: Option<ValueView>) -> bool {
    match v {
        Some(v) => v.truth() != Some(false),
        None => true,
    }
}

/// Whether the headers are bold.
pub fn header_bold_from_value(bold_value: Option<&Value>) -> (b: bool)
    ensures
        b == bold_of(bold_value.deep_view()),
{
    match bold_value {
        Some(x) => match x.as_bool() {
            Ok(b) => b,
            Err(_) => true,
        },
        None => true,
    }
}

/// The lines that the name `m` stands for; compact ones for a name that is
/// not known.
pub open spec fn theme_named(m: Seq<char>) -> TableTheme {
    if m == "basic"@ {
        TableTheme::Basic
    } else if m == "compact"@ {
        TableTheme::Compact
    } else if m == "light"@ {
        TableTheme::Light
    } else if m == "thin"@ {
        TableTheme::Thin
    } else if m == "with_love"@ {
        TableTheme::WithLove
    } else if m == "compact_double"@ {
        TableTheme::CompactDouble
    } else if m == "rounded"@ {
        TableTheme::Rounded
    } else if m == "reinforced"@ {
        TableTheme::Reinforced
    } else if m == "heavy"@ {
        TableTheme::Heavy
    } else if m == "none"@ {
        TableTheme::Blank
    } else {
        TableTheme::Compact
    }
}

/// The lines with which tables are drawn: those that the setting
/// `table_mode` names, and compact ones if it names none.
pub open spec fn table_mode_of(vars: Seq<(Seq<char>, ValueView)>) -> TableTheme {
    match lookup(vars, "table_mode"@) {
        Some(mode) => match mode.text() {
            Some(m) => theme_named(m),
            None => TableTheme::Compact,
        },
        None => TableTheme::Compact,
    }
}

/// The lines with which tables are drawn.
pub fn table_mode(config: &NuConfig) -> (t: TableTheme)
    ensures
        t == table_mode_of(config.vars.deep_view()),
{
    proof {
        lemma_lookup_deep(config.vars.entries(), "table_mode"@);
    }
    match config.vars.get("table_mode") {
        Some(mode) => match mode.as_string() {
            Ok(m) => {
                let m = m.as_str();
                if same_text(m, "basic") {
                    TableTheme::Basic
                } else if same_text(m, "compact") {
                    TableTheme::Compact
                } else if same_text(m, "light") {
                    TableTheme::Light
                } else if same_text(m, "thin") {
                    TableTheme::Thin
                } else if same_text(m, "with_love") {
                    TableTheme::WithLove
                } else if same_text(m, "compact_double") {
                    TableTheme::CompactDouble
                } else if same_text(m, "rounded") {
                    TableTheme::Rounded
                } else if same_text(m, "reinforced") {
                    TableTheme::Reinforced
                } else if same_text(m, "heavy") {
                    TableTheme::Heavy
                } else if same_text(m, "none") {
                    TableTheme::Blank
                } else {
                    TableTheme::Compact
                }
            },
            Err(_) => TableTheme::Compact,
        },
        None => TableTheme::Compact,
    }
}

/// Whether the column of row numbers is left out: only if the setting
/// `disable_table_indexes` is the truth value `true`.
pub open spec fn disabled_indexes_of(vars: Seq<(Seq<char>, ValueView)>) -> bool {
    match lookup(vars, "disable_table_indexes"@) {
        Some(x) => x.truth() == Some(true),
        None => false,
    }
}

/// Whether the column of row numbers is left out.
pub fn disabled_indexes(config: &NuConfig) -> (b: bool)
    ensures
        b == disabled_indexes_of(config.vars.deep_view()),
{
    proof {
        lemma_lookup_deep(config.vars.entries(), "disable_table_indexes"@);
    }
    match config.vars.get("disable_table_indexes") {
        Some(x) => match x.as_bool() {
            Ok(b) => b,
            Err(_) => false,
        },
        None => false,
    }
}

/// The colour that the name `s` stands for; white for a name that is not
/// known.
pub open spec fn color_named(s: Seq<char>) -> Color {
    if s == "g"@ || s == "green"@ {
        Color::Green
    } else if s == "r"@ || s == "red"@ {
        Color::Red
    } else if s == "u"@ || s == "blue"@ {
        Color::Blue
    } else if s == "b"@ || s == "black"@ {
        Color::Black
    } else if s == "y"@ || s == "yellow"@ {
        Color::Yellow
    } else if s == "p"@ || s == "purple"@ {
        Color::Purple
    } else if s == "c"@ || s == "cyan"@ {
        Color::Cyan
    } else {
        Color::White
    }
}

/// The colour that the name `s` stands for.
pub fn lookup_color(s: &str) -> (c: Color)
    ensures
        c == color_named(s@),
{
    if same_text(s, "g") || same_text(s, "green") {
        Color::Green
    } else if same_text(s, "r") || same_text(s, "red") {
        Color::Red
    } else if same_text(s, "u") || same_text(s, "blue") {
        Color::Blue
    } else if same_text(s, "b") || same_text(s, "black") {
        Color::Black
    } else if same_text(s, "y") || same_text(s, "yellow") {
        Color::Yellow
    } else if same_text(s, "p") || same_text(s, "purple") {
        Color::Purple
    } else if same_text(s, "c") || same_text(s, "cyan") {
        Color::Cyan
    } else {
        Color::White
    }
}

/// How the headers are shown, by the cells `header_color`, `header_bold` and
/// `header_align` of the setting `color_config`: green, bold and centered
/// where nothing is said.
pub open spec fn header_style_of(vars: Seq<(Seq<char>, ValueView)>) -> TextStyle {
    TextStyle {
        alignment: match setting_in(vars, "color_config"@, "header_align"@) {
            Some(a) => alignment_of(Some(a)),
            None => Alignment::Center,
        },
        is_bold: Some(
            match setting_in(vars, "color_config"@, "header_bold"@) {
                Some(b) => bold_of(Some(b)),
                None => true,
            },
        ),
        color: Some(
            match setting_in(vars, "color_config"@, "header_color"@) {
                Some(s) => match s.text() {
                    Some(name) => color_named(name),
                    None => Color::Green,
                },
                None => Color::Green,
            },
        ),
    }
}

impl ConfigExtensions for NuConfig {
    open spec fn spec_table_mode(&self) -> TableTheme {
        table_mode_of(self.vars.deep_view())
    }

    open spec fn spec_disabled_indexes(&self) -> bool {
        disabled_indexes_of(self.vars.deep_view())
    }

    open spec fn spec_header_style(&self) -> TextStyle {
        header_style_of(self.vars.deep_view())
    }

    fn header_style(&self) -> (s: TextStyle) {
        let head_color = get_color_from_key_and_subkey(self, "color_config", "header_color");
        let head_color_style = match head_color {
            Some(s) => match s.as_string() {
                Ok(name) => lookup_color(name.as_str()),
                Err(_) => Color::Green,
            },
            None => Color::Green,
        };
        let head_bold = get_color_from_key_and_subkey(self, "color_config", "header_bold");
        let head_bold_bool = match head_bold {
            Some(b) => header_bold_from_value(Some(&b)),
            None => true,
        };
        let head_align = get_color_from_key_and_subkey(self, "color_config", "header_align");
        let head_alignment = match head_align {
            Some(a) => header_alignment_from_value(Some(&a)),
            None => Alignment::Center,
        };
        TextStyle {
            alignment: head_alignment,
            is_bold: Some(head_bold_bool),
            color: Some(head_color_style),
        }
    }

    fn table_mode(&self) -> (t: TableTheme) {
        table_mode(self)
    }

    fn disabled_indexes(&self) -> (b: bool) {
        disabled_indexes(self)
    }
}

} // verus!
