//! The declared parameters and flags of a command.

use crate::name_map::{lemma_deep_entries, upsert, NameMap};
use crate::shape::SyntaxShape;
use vstd::prelude::*;

verus! {

/// A positional parameter: its name, the shape of its argument, and whether
/// the argument may be left out.
#[derive(Debug, PartialEq, Eq)]
pub enum PositionalType {
    /// The argument must be given.
    Mandatory(String, SyntaxShape),
    /// The argument may be left out.
    Optional(String, SyntaxShape),
}

/// [`PositionalType`] with the name as a character sequence.
pub enum PositionalTypeView {
    Mandatory(Seq<char>, SyntaxShape),
    Optional(Seq<char>, SyntaxShape),
}

impl DeepView for PositionalType {
    type V = PositionalTypeView;

    open spec fn deep_view(&self) -> PositionalTypeView {
        match *self {
            PositionalType::Mandatory(name, shape) => PositionalTypeView::Mandatory(name@, shape),
            PositionalType::Optional(name, shape) => PositionalTypeView::Optional(name@, shape),
        }
    }
}

impl Clone for PositionalType {
    fn clone(&self) -> (res: Self)
        ensures
            res == *self,
    {
        match self {
            PositionalType::Mandatory(name, shape) => PositionalType::Mandatory(
                name.clone(),
                *shape,
            ),
            PositionalType::Optional(name, shape) => PositionalType::Optional(name.clone(), *shape),
        }
    }
}

impl PositionalTypeView {
    pub open spec fn name(self) -> Seq<char> {
        match self {
            PositionalTypeView::Mandatory(name, _) => name,
            PositionalTypeView::Optional(name, _) => name,
        }
    }

    pub open spec fn syntax_type(self) -> SyntaxShape {
        match self {
            PositionalTypeView::Mandatory(_, shape) => shape,
            PositionalTypeView::Optional(_, shape) => shape,
        }
    }
}

impl PositionalType {
    /// A parameter whose argument must be given.
    pub fn mandatory(name: &str, ty: SyntaxShape) -> (p: PositionalType)
        ensures
            p.deep_view() == PositionalTypeView::Mandatory(name@, ty),
    {
        PositionalType::Mandatory(name.to_owned(), ty)
    }

    /// A parameter whose argument may be left out.
    pub fn optional(name: &str, ty: SyntaxShape) -> (p: PositionalType)
        ensures
            p.deep_view() == PositionalTypeView::Optional(name@, ty),
    {
        PositionalType::Optional(name.to_owned(), ty)
    }

    /// The parameter's name.
    pub fn name(&self) -> (n: &str)
        ensures
            n@ == self.deep_view().name(),
    {
        match self {
            PositionalType::Mandatory(name, _) => name.as_str(),
            PositionalType::Optional(name, _) => name.as_str(),
        }
    }

    /// The shape that the parameter's argument must have.
    pub fn syntax_type(&self) -> (s: SyntaxShape)
        ensures
            s == self.deep_view().syntax_type(),
    {
        match self {
            PositionalType::Mandatory(_, shape) => *shape,
            PositionalType::Optional(_, shape) => *shape,
        }
    }
}

/// A flag: its one-letter form, if it has one, and what it takes.
#[derive(Clone, Copy, Debug, PartialEq, Eq, Structural)]
pub enum NamedType {
    /// A flag that is present or absent and takes no value.
    Switch(Option<char>),
    /// A flag that must be given, with a value of the shape.
    Mandatory(Option<char>, SyntaxShape),
    /// A flag that may be given, with a value of the shape.
    Optional(Option<char>, SyntaxShape),
}

impl DeepView for NamedType {
    type V = NamedType;

    open spec fn deep_view(&self) -> NamedType {
        *self
    }
}

impl NamedType {
    pub open spec fn spec_get_short(&self) -> Option<char> {
        match *self {
            NamedType::Switch(s) => s,
            NamedType::Mandatory(s, _) => s,
            NamedType::Optional(s, _) => s,
        }
    }

    /// The flag's one-letter form.
    #[verifier::when_used_as_spec(spec_get_short)]
    pub fn get_short(&self) -> (s: Option<char>)
        ensures
            s == self.spec_get_short(),
    {
        match self {
            NamedType::Switch(s) => *s,
            NamedType::Mandatory(s, _) => *s,
            NamedType::Optional(s, _) => *s,
        }
    }
}

/// The parameters and flags that a command declares.
#[derive(Debug, PartialEq, Eq)]
pub struct Signature {
    /// The command's name.
    pub name: String,
    /// One line on what the command does.
    pub usage: String,
    /// The positional parameters, each with its description, in declaration
    /// order.
    pub positional: Vec<(PositionalType, String)>,
    /// The parameter that takes all further positional arguments, if any.
    pub rest_positional: Option<(SyntaxShape, String)>,
    /// The flags by their long names, each with its description.
    pub named: NameMap<(NamedType, String)>,
    /// Whether the command works on its input item by item.
    pub is_filter: bool,
}

/// [`Signature`] with text as character sequences.
pub struct SignatureView {
    pub name: Seq<char>,
    pub usage: Seq<char>,
    pub positional: Seq<(PositionalTypeView, Seq<char>)>,
    pub rest_positional: Option<(SyntaxShape, Seq<char>)>,
    pub named: Seq<(Seq<char>, (NamedType, Seq<char>))>,
    pub is_filter: bool,
}

impl DeepView for Signature {
    type V = SignatureView;

    open spec fn deep_view(&self) -> SignatureView {
        SignatureView {
            name: self.name@,
            usage: self.usage@,
            positional: self.positional.deep_view(),
            rest_positional: self.rest_positional.deep_view(),
            named: self.named.deep_view(),
            is_filter: self.is_filter,
        }
    }
}

/// The flag that every signature has from the start.
pub open spec fn help_flag() -> (Seq<char>, (NamedType, Seq<char>)) {
    ("help"@, (NamedType::Switch(Some('h')), "Display this help message"@))
}

impl SignatureView {
    /// The signature of a command called `name` that declares nothing.
    pub open spec fn new(name: Seq<char>) -> SignatureView {
        SignatureView {
            name,
            usage: Seq::empty(),
            positional: Seq::empty(),
            rest_positional: None,
            named: seq![help_flag()],
            is_filter: false,
        }
    }

    pub open spec fn with_positional(self, p: PositionalTypeView, desc: Seq<char>) -> SignatureView {
        SignatureView { positional: self.positional.push((p, desc)), ..self }
    }

    pub open spec fn with_named(self, name: Seq<char>, ty: NamedType, desc: Seq<char>) -> SignatureView {
        SignatureView { named: upsert(self.named, name, (ty, desc)), ..self }
    }

    pub open spec fn with_rest(self, ty: SyntaxShape, desc: Seq<char>) -> SignatureView {
        SignatureView { rest_positional: Some((ty, desc)), ..self }
    }

    pub open spec fn described(self, usage: Seq<char>) -> SignatureView {
        SignatureView { usage, ..self }
    }

    pub open spec fn filtered(self) -> SignatureView {
        SignatureView { is_filter: true, ..self }
    }
}

impl Signature {
    /// The signature of a command called `name` that declares nothing but the
    /// `--help` switch.
    pub fn new(name: &str) -> (s: Signature)
        ensures
            s.deep_view() == SignatureView::new(name@),
    {
        let mut named: NameMap<(NamedType, String)> = NameMap::new();
        let ghost before = named.entries();
        let desc = "Display this help message".to_owned();
        let key = "help".to_owned();
        named.insert(key, (NamedType::Switch(Some('h')), desc));
        proof {
            lemma_deep_entries(before, "help"@, (NamedType::Switch(Some('h')), desc));
            assert(named.deep_view() =~= seq![help_flag()]);
        }
        let s = Signature {
            name: name.to_owned(),
            usage: String::new(),
            positional: Vec::new(),
            rest_positional: None,
            named,
            is_filter: false,
        };
        assert(s.positional.deep_view() =~= Seq::empty());
        s
    }

    /// Starts a signature for the command called `name`.
    pub fn build(name: &str) -> (s: Signature)
        ensures
            s.deep_view() == SignatureView::new(name@),
    {
        Signature::new(name)
    }

    /// Sets the line that says what the command does.
    pub fn desc(self, usage: &str) -> (s: Signature)
        ensures
            s.deep_view() == self.deep_view().described(usage@),
    {
        let mut s = self;
        s.usage = usage.to_owned();
        s
    }

    fn push_positional(self, p: PositionalType, desc: &str) -> (s: Signature)
        ensures
            s.deep_view() == self.deep_view().with_positional(p.deep_view(), desc@),
    {
        let mut s = self;
        let ghost before = s.positional.deep_view();
        let d = desc.to_owned();
        s.positional.push((p, d));
        assert(s.positional.deep_view() =~= before.push((p.deep_view(), desc@)));
        s
    }

    fn put_named(self, name: &str, ty: NamedType, desc: &str) -> (s: Signature)
        ensures
            s.deep_view() == self.deep_view().with_named(name@, ty, desc@),
    {
        let mut s = self;
        let ghost before = s.named.entries();
        let d = desc.to_owned();
        proof {
            lemma_deep_entries(before, name@, (ty, d));
        }
        let mut named = NameMap::new();
        std::mem::swap(&mut s.named, &mut named);
        named.insert(name.to_owned(), (ty, d));
        s.named = named;
        s
    }

    /// Adds a positional parameter whose argument must be given.
    pub fn required(self, name: &str, ty: SyntaxShape, desc: &str) -> (s: Signature)
        ensures
            s.deep_view() == self.deep_view().with_positional(
                PositionalTypeView::Mandatory(name@, ty),
                desc@,
            ),
    {
        self.push_positional(PositionalType::mandatory(name, ty), desc)
    }

    /// Adds a positional parameter whose argument may be left out.
    pub fn optional(self, name: &str, ty: SyntaxShape, desc: &str) -> (s: Signature)
        ensures
            s.deep_view() == self.deep_view().with_positional(
                PositionalTypeView::Optional(name@, ty),
                desc@,
            ),
    {
        self.push_positional(PositionalType::optional(name, ty), desc)
    }

    /// Adds a flag that may be given, with a value of shape `ty`.
    pub fn named(self, name: &str, ty: SyntaxShape, desc: &str, short: Option<char>) -> (s:
        Signature)
        ensures
            s.deep_view() == self.deep_view().with_named(
                name@,
                NamedType::Optional(short, ty),
                desc@,
            ),
    {
        self.put_named(name, NamedType::Optional(short, ty), desc)
    }

    /// Adds a flag that must be given, with a value of shape `ty`.
    pub fn required_named(
        self,
        name: &str,
        ty: SyntaxShape,
        desc: &str,
        short: Option<char>,
    ) -> (s: Signature)
        ensures
            s.deep_view() == self.deep_view().with_named(
                name@,
                NamedType::Mandatory(short, ty),
                desc@,
            ),
    {
        self.put_named(name, NamedType::Mandatory(short, ty), desc)
    }

    /// Adds a flag that takes no value.
    pub fn switch(self, name: &str, desc: &str, short: Option<char>) -> (s: Signature)
        ensures
            s.deep_view() == self.deep_view().with_named(name@, NamedType::Switch(short), desc@),
    {
        self.put_named(name, NamedType::Switch(short), desc)
    }

    /// Sets the parameter that takes all further positional arguments.
    pub fn rest(self, ty: SyntaxShape, desc: &str) -> (s: Signature)
        ensures
            s.deep_view() == self.deep_view().with_rest(ty, desc@),
    {
        let mut s = self;
        s.rest_positional = Some((ty, desc.to_owned()));
        s
    }

    /// Marks the command as one that works on its input item by item.
    pub fn filter(self) -> (s: Signature)
        ensures
            s.deep_view() == self.deep_view().filtered(),
    {
        let mut s = self;
        s.is_filter = true;
        s
    }
}

} // verus!
