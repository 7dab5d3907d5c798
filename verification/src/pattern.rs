//! The compiled form of a template: literal text and typed placeholders.

use vstd::prelude::*;
use crate::strutil::str_eq;

verus! {

/// The nine placeholder kinds the template language knows.
#[derive(Clone, Copy, PartialEq, Eq, Structural, Debug)]
pub enum PlaceholderType {
    Text,
    Message,
    Span,
    Target,
    Level,
    File,
    Line,
    Fields,
    DateTime,
}

/// A property value of a placeholder; the literal's syntactic form in the
/// template determines the variant. A decimal literal keeps its text, since
/// no placeholder ever computes with one.
#[derive(Debug, PartialEq)]
pub enum PlaceholderValue {
    String(String),
    Boolean(bool),
    Integer(i32),
    Float(String),
}

/// The mathematical value of a [`PlaceholderValue`].
pub ghost enum PlaceholderValueView {
    Str(Seq<char>),
    Bool(bool),
    Int(i32),
    Float(Seq<char>),
}

impl View for PlaceholderValue {
    type V = PlaceholderValueView;

    open spec fn view(&self) -> PlaceholderValueView {
        match self {
            PlaceholderValue::String(s) => PlaceholderValueView::Str(s@),
            PlaceholderValue::Boolean(b) => PlaceholderValueView::Bool(*b),
            PlaceholderValue::Integer(v) => PlaceholderValueView::Int(*v),
            PlaceholderValue::Float(t) => PlaceholderValueView::Float(t@),
        }
    }
}

/// The mathematical value of a [`Placeholder`]: its kind, its named
/// properties in first-insertion order, and its bare flags.
pub ghost struct PlaceholderView {
    pub ty: PlaceholderType,
    pub props: Seq<(Seq<char>, PlaceholderValueView)>,
    pub flags: Seq<Seq<char>>,
}

/// The views of a property list.
pub open spec fn spec_props_view(v: Seq<(String, PlaceholderValue)>) -> Seq<(
    Seq<char>,
    PlaceholderValueView,
)> {
    Seq::new(v.len(), |i: int| (v[i].0@, v[i].1@))
}

/// The views of a list of strings.
pub open spec fn spec_strs_view(v: Seq<String>) -> Seq<Seq<char>> {
    Seq::new(v.len(), |i: int| v[i]@)
}

/// The views of a list of pattern items.
pub open spec fn spec_items_view(v: Seq<PatternItem>) -> Seq<PatternItemView> {
    Seq::new(v.len(), |i: int| v[i]@)
}

/// One placeholder of a template: a kind, named typed properties, and
/// bare flags.
#[derive(Debug, PartialEq)]
pub struct Placeholder {
    ty: PlaceholderType,
    properties: Vec<(String, PlaceholderValue)>,
    flags: Vec<String>,
}

impl View for Placeholder {
    type V = PlaceholderView;

    closed spec fn view(&self) -> PlaceholderView {
        PlaceholderView {
            ty: self.ty,
            props: spec_props_view(self.properties@),
            flags: spec_strs_view(self.flags@),
        }
    }
}

/// The value of the first property with the given name, if any.
pub open spec fn spec_prop(
    props: Seq<(Seq<char>, PlaceholderValueView)>,
    name: Seq<char>,
) -> Option<PlaceholderValueView>
    decreases props.len(),
{
    if props.len() == 0 {
        None
    } else if props[0].0 == name {
        Some(props[0].1)
    } else {
        spec_prop(props.drop_first(), name)
    }
}

/// The named property where it exists and is text.
pub open spec fn spec_str_prop(ph: PlaceholderView, name: Seq<char>) -> Option<Seq<char>> {
    match spec_prop(ph.props, name) {
        Some(PlaceholderValueView::Str(s)) => Some(s),
        _ => None,
    }
}

/// The named property where it exists and is a boolean.
pub open spec fn spec_bool_prop(ph: PlaceholderView, name: Seq<char>) -> Option<bool> {
    match spec_prop(ph.props, name) {
        Some(PlaceholderValueView::Bool(b)) => Some(b),
        _ => None,
    }
}

/// The named property where it exists and is an integer.
pub open spec fn spec_int_prop(ph: PlaceholderView, name: Seq<char>) -> Option<i32> {
    match spec_prop(ph.props, name) {
        Some(PlaceholderValueView::Int(v)) => Some(v),
        _ => None,
    }
}

/// The named property where it exists and is a decimal, as its text.
pub open spec fn spec_float_prop(ph: PlaceholderView, name: Seq<char>) -> Option<Seq<char>> {
    match spec_prop(ph.props, name) {
        Some(PlaceholderValueView::Float(t)) => Some(t),
        _ => None,
    }
}

proof fn lemma_prop_at(
    props: Seq<(Seq<char>, PlaceholderValueView)>,
    name: Seq<char>,
    i: int,
)
    requires
        0 <= i < props.len(),
        props[i].0 == name,
        forall|j: int| 0 <= j < i ==> props[j].0 != name,
    ensures
        spec_prop(props, name) == Some(props[i].1),
    decreases i,
{
    if i > 0 {
        lemma_prop_at(props.drop_first(), name, i - 1);
    }
}

proof fn lemma_prop_absent(props: Seq<(Seq<char>, PlaceholderValueView)>, name: Seq<char>)
    requires
        forall|j: int| 0 <= j < props.len() ==> props[j].0 != name,
    ensures
        spec_prop(props, name) is None,
    decreases props.len(),
{
    if props.len() > 0 {
        lemma_prop_absent(props.drop_first(), name);
    }
}

impl Placeholder {
    /// A placeholder of the given kind, properties and flags.
    pub fn new(
        ty: PlaceholderType,
        props: Vec<(String, PlaceholderValue)>,
        flags: Vec<String>,
    ) -> (r: Self)
        ensures
            r@.ty == ty,
            r@.props == spec_props_view(props@),
            r@.flags == spec_strs_view(flags@),
    {
        Self { ty, properties: props, flags }
    }

    /// The placeholder's kind.
    pub fn ty(&self) -> (r: &PlaceholderType)
        ensures
            *r == self@.ty,
    {
        &self.ty
    }

    /// The first property with the given name, if any.
    pub fn property(&self, name: &str) -> (r: Option<&PlaceholderValue>)
        ensures
            match r {
                Some(v) => spec_prop(self@.props, name@) == Some(v@),
                None => spec_prop(self@.props, name@) is None,
            },
    {
        let n = self.properties.len();
        let mut i: usize = 0;
        while i < n
            invariant
                i <= n,
                n == self.properties@.len(),
                forall|j: int| 0 <= j < i ==> self@.props[j].0 != name@,
            decreases n - i,
        {
            if str_eq(self.properties[i].0.as_str(), name) {
                proof {
                    lemma_prop_at(self@.props, name@, i as int);
                }
                return Some(&self.properties[i].1);
            }
            proof {
                assert(self@.props[i as int].0 != name@);
            }
            i += 1;
        }
        proof {
            lemma_prop_absent(self@.props, name@);
        }
        None
    }

    /// The named property as text, where it exists and is text.
    pub fn str(&self, name: &str) -> (r: Option<&str>)
        ensures
            match r {
                Some(s) => spec_str_prop(self@, name@) == Some(s@),
                None => spec_str_prop(self@, name@) is None,
            },
    {
        match self.property(name) {
            Some(PlaceholderValue::String(s)) => Some(s.as_str()),
            _ => None,
        }
    }

    /// The named property as a boolean, where it exists and is one.
    pub fn bool(&self, name: &str) -> (r: Option<bool>)
        ensures
            r == spec_bool_prop(self@, name@),
    {
        match self.property(name) {
            Some(PlaceholderValue::Boolean(b)) => Some(*b),
            _ => None,
        }
    }

    /// The named property as an integer, where it exists and is one.
    pub fn integer(&self, name: &str) -> (r: Option<i32>)
        ensures
            r == spec_int_prop(self@, name@),
    {
        match self.property(name) {
            Some(PlaceholderValue::Integer(v)) => Some(*v),
            _ => None,
        }
    }

    /// The named property as a decimal's text, where it exists and is one.
    pub fn float(&self, name: &str) -> (r: Option<&str>)
        ensures
            match r {
                Some(t) => spec_float_prop(self@, name@) == Some(t@),
                None => spec_float_prop(self@, name@) is None,
            },
    {
        match self.property(name) {
            Some(PlaceholderValue::Float(t)) => Some(t.as_str()),
            _ => None,
        }
    }

    /// All properties, in first-insertion order.
    pub fn properties(&self) -> (r: &Vec<(String, PlaceholderValue)>)
        ensures
            spec_props_view(r@) == self@.props,
    {
        &self.properties
    }

    /// All bare flags, in template order.
    pub fn flags(&self) -> (r: &Vec<String>)
        ensures
            spec_strs_view(r@) == self@.flags,
    {
        &self.flags
    }

    /// Exact, case-sensitive membership of a bare flag.
    pub fn flag(&self, flag: &str) -> (r: bool)
        ensures
            r == self@.flags.contains(flag@),
    {
        let n = self.flags.len();
        let mut i: usize = 0;
        while i < n
            invariant
                i <= n,
                n == self.flags@.len(),
                forall|j: int| 0 <= j < i ==> self@.flags[j] != flag@,
            decreases n - i,
        {
            if str_eq(self.flags[i].as_str(), flag) {
                proof {
                    assert(self@.flags[i as int] == flag@);
                }
                return true;
            }
            proof {
                assert(self@.flags[i as int] != flag@);
            }
            i += 1;
        }
        false
    }
}

/// One compiled item of a template: literal text, or a placeholder.
#[derive(Debug, PartialEq)]
pub enum PatternItem {
    Text(String),
    Placeholder(Placeholder),
}

/// The mathematical value of a [`PatternItem`].
pub ghost enum PatternItemView {
    Text(Seq<char>),
    Placeholder(PlaceholderView),
}

impl View for PatternItem {
    type V = PatternItemView;

    open spec fn view(&self) -> PatternItemView {
        match self {
            PatternItem::Text(t) => PatternItemView::Text(t@),
            PatternItem::Placeholder(p) => PatternItemView::Placeholder(p@),
        }
    }
}

/// The immutable, ordered, compiled form of a template string.
#[derive(Debug, PartialEq)]
pub struct Pattern {
    items: Vec<PatternItem>,
}

impl View for Pattern {
    type V = Seq<PatternItemView>;

    closed spec fn view(&self) -> Seq<PatternItemView> {
        spec_items_view(self.items@)
    }
}

impl Pattern {
    /// A pattern made of the given items.
    pub fn new(items: Vec<PatternItem>) -> (r: Self)
        ensures
            r@ == spec_items_view(items@),
    {
        Self { items }
    }

    /// The pattern's items, in template order.
    pub fn items(&self) -> (r: &Vec<PatternItem>)
        ensures
            r@.len() == self@.len(),
            forall|i: int| 0 <= i < r@.len() ==> #[trigger] r@[i]@ == self@[i],
    {
        &self.items
    }

    /// The pattern's items, giving up the pattern.
    pub fn into_inner(self) -> (r: Vec<PatternItem>)
        ensures
            r@.len() == self@.len(),
            forall|i: int| 0 <= i < r@.len() ==> #[trigger] r@[i]@ == self@[i],
    {
        self.items
    }
}

/// Whether `c` may stand in a placeholder or argument name: an ASCII
/// letter, digit or underscore.
pub open spec fn spec_is_ident_char(c: char) -> bool {
    ||| 'a' <= c && c <= 'z'
    ||| 'A' <= c && c <= 'Z'
    ||| '0' <= c && c <= '9'
    ||| c == '_'
}

/// The ASCII-lowercased form of a character.
pub open spec fn spec_lower_char(c: char) -> char {
    if 'A' <= c && c <= 'Z' {
        ((c as u8) + 32) as char
    } else {
        c
    }
}

/// The ASCII-lowercased form of a character sequence.
pub open spec fn spec_lower(s: Seq<char>) -> Seq<char> {
    s.map_values(|c: char| spec_lower_char(c))
}

/// The placeholder kind a name denotes, compared without regard to ASCII
/// case; `None` for an unknown name.
pub open spec fn spec_type_from(s: Seq<char>) -> Option<PlaceholderType> {
    let l = spec_lower(s);
    if l == "text"@ {
        Some(PlaceholderType::Text)
    } else if l == "message"@ {
        Some(PlaceholderType::Message)
    } else if l == "span"@ {
        Some(PlaceholderType::Span)
    } else if l == "target"@ {
        Some(PlaceholderType::Target)
    } else if l == "level"@ {
        Some(PlaceholderType::Level)
    } else if l == "file"@ {
        Some(PlaceholderType::File)
    } else if l == "line"@ {
        Some(PlaceholderType::Line)
    } else if l == "fields"@ {
        Some(PlaceholderType::Fields)
    } else if l == "datetime"@ {
        Some(PlaceholderType::DateTime)
    } else {
        None
    }
}

fn lower_char(c: char) -> (r: char)
    ensures
        r == spec_lower_char(c),
{
    if 'A' <= c && c <= 'Z' {
        ((c as u8) + 32) as char
    } else {
        c
    }
}

fn lower_str(s: &str) -> (r: String)
    ensures
        r@ == spec_lower(s@),
{
    let cs = crate::strutil::str_chars(s);
    let n = cs.len();
    let mut out: Vec<char> = Vec::new();
    let mut i: usize = 0;
    while i < n
        invariant
            i <= n,
            n == cs@.len(),
            cs@ == s@,
            out@ == spec_lower(s@).take(i as int),
        decreases n - i,
    {
        out.push(lower_char(cs[i]));
        proof {
            assert(out@ =~= spec_lower(s@).take(i + 1 as int));
        }
        i += 1;
    }
    proof {
        assert(spec_lower(s@).take(n as int) =~= spec_lower(s@));
    }
    crate::strutil::chars_to_string(&out)
}

impl PlaceholderType {
    /// The kind a name denotes, without regard to ASCII case; `None` for
    /// an unknown name.
    pub fn from_str(v: &str) -> (r: Option<PlaceholderType>)
        ensures
            r == spec_type_from(v@),
    {
        let l = lower_str(v);
        proof {
            reveal_strlit("text");
            reveal_strlit("message");
            reveal_strlit("span");
            reveal_strlit("target");
            reveal_strlit("level");
            reveal_strlit("file");
            reveal_strlit("line");
            reveal_strlit("fields");
            reveal_strlit("datetime");
        }
        if str_eq(l.as_str(), "text") {
            Some(PlaceholderType::Text)
        } else if str_eq(l.as_str(), "message") {
            Some(PlaceholderType::Message)
        } else if str_eq(l.as_str(), "span") {
            Some(PlaceholderType::Span)
        } else if str_eq(l.as_str(), "target") {
            Some(PlaceholderType::Target)
        } else if str_eq(l.as_str(), "level") {
            Some(PlaceholderType::Level)
        } else if str_eq(l.as_str(), "file") {
            Some(PlaceholderType::File)
        } else if str_eq(l.as_str(), "line") {
            Some(PlaceholderType::Line)
        } else if str_eq(l.as_str(), "fields") {
            Some(PlaceholderType::Fields)
        } else if str_eq(l.as_str(), "datetime") {
            Some(PlaceholderType::DateTime)
        } else {
            None
        }
    }
}

} // verus!
