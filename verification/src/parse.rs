//! The template parser: compiles a template string into a [`Pattern`].
//!
//! The language: literal text, interrupted by placeholders of the form
//! `$kind` or `$kind(arg, name=value, ...)`. An argument without `=` is a
//! bare flag; a value is single-quoted text, a bare integer, a decimal, or
//! `true`/`false`. An unknown placeholder kind drops that one placeholder;
//! malformed syntax fails the whole parse with the offending position.

use vstd::prelude::*;
use crate::pattern::{
    Pattern, PatternItem, PatternItemView, Placeholder, PlaceholderType, PlaceholderValue,
    PlaceholderValueView, spec_type_from, spec_is_ident_char, spec_props_view, spec_strs_view,
    spec_items_view,
};
use crate::numfmt::push_char;
use crate::strutil::{str_chars, str_eq};

verus! {

/// Why a parse failed.
#[derive(Clone, Copy, PartialEq, Eq, Structural, Debug)]
pub enum ParseErrorKind {
    /// A quoted value was still open at the end of the template.
    UnterminatedQuote,
    /// An argument list was still open at the end of the template.
    UnterminatedArgs,
    /// A bare numeric value was malformed or out of range.
    InvalidNumber,
    /// A bare word value was neither `true` nor `false`.
    InvalidLiteral,
    /// A character that cannot stand at its position.
    UnexpectedChar,
}

/// A parse failure: what went wrong, and the character position at which
/// it was discovered.
#[derive(Clone, Copy, PartialEq, Eq, Structural, Debug)]
pub struct ParseError {
    pos: usize,
    kind: ParseErrorKind,
}

/// The mathematical value of a [`ParseError`].
pub ghost struct ParseErrView {
    pub pos: int,
    pub kind: ParseErrorKind,
}

impl View for ParseError {
    type V = ParseErrView;

    closed spec fn view(&self) -> ParseErrView {
        ParseErrView { pos: self.pos as int, kind: self.kind }
    }
}

impl ParseError {
    /// The character position at which the failure was discovered.
    pub fn position(&self) -> (r: usize)
        ensures
            r as int == self@.pos,
    {
        self.pos
    }

    /// What went wrong.
    pub fn kind(&self) -> (r: ParseErrorKind)
        ensures
            r == self@.kind,
    {
        self.kind
    }
}

/// A placeholder still being gathered: its name, and the properties and
/// flags seen so far.
struct PartialPh {
    name: String,
    props: Vec<(String, PlaceholderValue)>,
    flags: Vec<String>,
}

/// The mathematical value of a [`PartialPh`].
pub ghost struct PartialView {
    pub name: Seq<char>,
    pub props: Seq<(Seq<char>, PlaceholderValueView)>,
    pub flags: Seq<Seq<char>>,
}

impl View for PartialPh {
    type V = PartialView;

    closed spec fn view(&self) -> PartialView {
        PartialView {
            name: self.name@,
            props: spec_props_view(self.props@),
            flags: spec_strs_view(self.flags@),
        }
    }
}

/// Where the parser stands between two characters.
enum Mode {
    /// In literal text, with the run gathered so far.
    Txt { acc: String },
    /// After `$`, gathering the placeholder name.
    Name { acc: String },
    /// Inside `(...)`, before an argument.
    ArgStart { ph: PartialPh },
    /// Gathering an argument name.
    Ident { ph: PartialPh, acc: String },
    /// After an argument name, before `=`, `,` or `)`.
    AfterIdent { ph: PartialPh, name: String },
    /// After `name=`, before the value.
    ValueStart { ph: PartialPh, name: String },
    /// Inside a quoted value.
    Quote { ph: PartialPh, name: String, acc: String },
    /// Inside a bare numeric value.
    Num { ph: PartialPh, name: String, acc: String },
    /// Inside a bare word value.
    Word { ph: PartialPh, name: String, acc: String },
    /// After a value, before `,` or `)`.
    AfterValue { ph: PartialPh },
}

/// The mathematical value of a [`Mode`].
pub ghost enum ModeView {
    Txt(Seq<char>),
    Name(Seq<char>),
    ArgStart(PartialView),
    Ident(PartialView, Seq<char>),
    AfterIdent(PartialView, Seq<char>),
    ValueStart(PartialView, Seq<char>),
    Quote(PartialView, Seq<char>, Seq<char>),
    Num(PartialView, Seq<char>, Seq<char>),
    Word(PartialView, Seq<char>, Seq<char>),
    AfterValue(PartialView),
}

impl View for Mode {
    type V = ModeView;

    closed spec fn view(&self) -> ModeView {
        match self {
            Mode::Txt { acc } => ModeView::Txt(acc@),
            Mode::Name { acc } => ModeView::Name(acc@),
            Mode::ArgStart { ph } => ModeView::ArgStart(ph@),
            Mode::Ident { ph, acc } => ModeView::Ident(ph@, acc@),
            Mode::AfterIdent { ph, name } => ModeView::AfterIdent(ph@, name@),
            Mode::ValueStart { ph, name } => ModeView::ValueStart(ph@, name@),
            Mode::Quote { ph, name, acc } => ModeView::Quote(ph@, name@, acc@),
            Mode::Num { ph, name, acc } => ModeView::Num(ph@, name@, acc@),
            Mode::Word { ph, name, acc } => ModeView::Word(ph@, name@, acc@),
            Mode::AfterValue { ph } => ModeView::AfterValue(ph@),
        }
    }
}

/// The whole parser state: the items finished so far, and where the
/// parser stands.
pub ghost struct StView {
    pub items: Seq<PatternItemView>,
    pub mode: ModeView,
}

/// One step of the parser: go on in a new state, or fail.
pub ghost enum StepView {
    Cont(StView),
    Fail(ParseErrView),
}

/// The views of a vector of pattern items.
pub open spec fn spec_items(v: Seq<PatternItem>) -> Seq<PatternItemView> {
    spec_items_view(v)
}

/// Whitespace between argument tokens.
pub open spec fn spec_is_ws(c: char) -> bool {
    c == ' ' || c == '\t' || c == '\n' || c == '\r'
}

/// An ASCII decimal digit.
pub open spec fn spec_is_digit(c: char) -> bool {
    '0' <= c && c <= '9'
}

/// A finished literal run: appended as a text item unless empty.
pub open spec fn spec_flush_text(items: Seq<PatternItemView>, acc: Seq<char>) -> Seq<
    PatternItemView,
> {
    if acc.len() > 0 {
        items.push(PatternItemView::Text(acc))
    } else {
        items
    }
}

/// A finished placeholder: appended under its recognized kind, dropped
/// where the name denotes no kind.
pub open spec fn spec_close(
    items: Seq<PatternItemView>,
    name: Seq<char>,
    props: Seq<(Seq<char>, PlaceholderValueView)>,
    flags: Seq<Seq<char>>,
) -> Seq<PatternItemView> {
    match spec_type_from(name) {
        Some(ty) => items.push(
            PatternItemView::Placeholder(
                crate::pattern::PlaceholderView { ty, props, flags },
            ),
        ),
        None => items,
    }
}

/// Setting a property: the first entry with the name takes the new value;
/// a new name gains an entry at the end.
pub open spec fn spec_insert(
    props: Seq<(Seq<char>, PlaceholderValueView)>,
    name: Seq<char>,
    v: PlaceholderValueView,
) -> Seq<(Seq<char>, PlaceholderValueView)>
    decreases props.len(),
{
    if props.len() == 0 {
        seq![(name, v)]
    } else if props[0].0 == name {
        seq![(props[0].0, v)] + props.drop_first()
    } else {
        seq![props[0]] + spec_insert(props.drop_first(), name, v)
    }
}

/// The numeric digits of a sequence read as a number.
pub open spec fn spec_digits_val(s: Seq<char>) -> nat
    decreases s.len(),
{
    if s.len() == 0 {
        0
    } else {
        spec_digits_val(s.drop_last()) * 10 + ((s.last() as int - 48) as nat)
    }
}

/// Whether every character is an ASCII digit.
pub open spec fn spec_all_digits(s: Seq<char>) -> bool {
    forall|i: int| 0 <= i < s.len() ==> spec_is_digit(#[trigger] s[i])
}

/// The index of the first `.`, or `-1` where there is none.
pub open spec fn spec_dot_index(s: Seq<char>) -> int
    decreases s.len(),
{
    if s.len() == 0 {
        -1
    } else if s[0] == '.' {
        0
    } else {
        let r = spec_dot_index(s.drop_first());
        if r == -1 {
            -1
        } else {
            1 + r
        }
    }
}

/// The value a bare numeric literal denotes: an integer within `i32`
/// range, or a decimal (kept as text) with digits on both sides of one
/// point; anything else is invalid.
pub open spec fn spec_num_value(s: Seq<char>) -> Option<PlaceholderValueView> {
    let neg = s.len() > 0 && s[0] == '-';
    let body = if neg {
        s.drop_first()
    } else {
        s
    };
    if body.len() > 0 && spec_all_digits(body) {
        let v = spec_digits_val(body);
        if neg {
            if v <= 2147483648 {
                Some(PlaceholderValueView::Int((-(v as int)) as i32))
            } else {
                None
            }
        } else {
            if v <= 2147483647 {
                Some(PlaceholderValueView::Int(v as i32))
            } else {
                None
            }
        }
    } else {
        let k = spec_dot_index(body);
        if 0 < k && k < body.len() - 1 && spec_all_digits(body.take(k)) && spec_all_digits(
            body.skip(k + 1),
        ) {
            Some(PlaceholderValueView::Float(s))
        } else {
            None
        }
    }
}

/// The value a bare word literal denotes: a boolean, or nothing.
pub open spec fn spec_word_value(s: Seq<char>) -> Option<bool> {
    if s == "true"@ {
        Some(true)
    } else if s == "false"@ {
        Some(false)
    } else {
        None
    }
}

/// One parser step on the character `c` standing at position `pos`.
pub open spec fn spec_step(st: StView, c: char, pos: int) -> StepView {
    match st.mode {
        ModeView::Txt(acc) => if c == '$' {
            StepView::Cont(
                StView { items: spec_flush_text(st.items, acc), mode: ModeView::Name(Seq::empty()) },
            )
        } else {
            StepView::Cont(StView { items: st.items, mode: ModeView::Txt(acc.push(c)) })
        },
        ModeView::Name(acc) => if spec_is_ident_char(c) {
            StepView::Cont(StView { items: st.items, mode: ModeView::Name(acc.push(c)) })
        } else if c == '(' {
            StepView::Cont(
                StView {
                    items: st.items,
                    mode: ModeView::ArgStart(
                        PartialView { name: acc, props: Seq::empty(), flags: Seq::empty() },
                    ),
                },
            )
        } else if c == '$' {
            StepView::Cont(
                StView {
                    items: spec_close(st.items, acc, Seq::empty(), Seq::empty()),
                    mode: ModeView::Name(Seq::empty()),
                },
            )
        } else {
            StepView::Cont(
                StView {
                    items: spec_close(st.items, acc, Seq::empty(), Seq::empty()),
                    mode: ModeView::Txt(seq![c]),
                },
            )
        },
        ModeView::ArgStart(ph) => if spec_is_ws(c) {
            StepView::Cont(StView { items: st.items, mode: ModeView::ArgStart(ph) })
        } else if c == ')' {
            StepView::Cont(
                StView {
                    items: spec_close(st.items, ph.name, ph.props, ph.flags),
                    mode: ModeView::Txt(Seq::empty()),
                },
            )
        } else if spec_is_ident_char(c) {
            StepView::Cont(StView { items: st.items, mode: ModeView::Ident(ph, seq![c]) })
        } else {
            StepView::Fail(ParseErrView { pos, kind: ParseErrorKind::UnexpectedChar })
        },
        ModeView::Ident(ph, acc) => if spec_is_ident_char(c) {
            StepView::Cont(StView { items: st.items, mode: ModeView::Ident(ph, acc.push(c)) })
        } else if c == '=' {
            StepView::Cont(StView { items: st.items, mode: ModeView::ValueStart(ph, acc) })
        } else if spec_is_ws(c) {
            StepView::Cont(StView { items: st.items, mode: ModeView::AfterIdent(ph, acc) })
        } else if c == ',' {
            StepView::Cont(
                StView {
                    items: st.items,
                    mode: ModeView::ArgStart(
                        PartialView { name: ph.name, props: ph.props, flags: ph.flags.push(acc) },
                    ),
                },
            )
        } else if c == ')' {
            StepView::Cont(
                StView {
                    items: spec_close(st.items, ph.name, ph.props, ph.flags.push(acc)),
                    mode: ModeView::Txt(Seq::empty()),
                },
            )
        } else {
            StepView::Fail(ParseErrView { pos, kind: ParseErrorKind::UnexpectedChar })
        },
        ModeView::AfterIdent(ph, name) => if spec_is_ws(c) {
            StepView::Cont(StView { items: st.items, mode: ModeView::AfterIdent(ph, name) })
        } else if c == '=' {
            StepView::Cont(StView { items: st.items, mode: ModeView::ValueStart(ph, name) })
        } else if c == ',' {
            StepView::Cont(
                StView {
                    items: st.items,
                    mode: ModeView::ArgStart(
                        PartialView { name: ph.name, props: ph.props, flags: ph.flags.push(name) },
                    ),
                },
            )
        } else if c == ')' {
            StepView::Cont(
                StView {
                    items: spec_close(st.items, ph.name, ph.props, ph.flags.push(name)),
                    mode: ModeView::Txt(Seq::empty()),
                },
            )
        } else {
            StepView::Fail(ParseErrView { pos, kind: ParseErrorKind::UnexpectedChar })
        },
        ModeView::ValueStart(ph, name) => if spec_is_ws(c) {
            StepView::Cont(StView { items: st.items, mode: ModeView::ValueStart(ph, name) })
        } else if c == '\'' {
            StepView::Cont(
                StView { items: st.items, mode: ModeView::Quote(ph, name, Seq::empty()) },
            )
        } else if spec_is_digit(c) || c == '-' {
            StepView::Cont(StView { items: st.items, mode: ModeView::Num(ph, name, seq![c]) })
        } else if spec_is_ident_char(c) {
            StepView::Cont(StView { items: st.items, mode: ModeView::Word(ph, name, seq![c]) })
        } else {
            StepView::Fail(ParseErrView { pos, kind: ParseErrorKind::UnexpectedChar })
        },
        ModeView::Quote(ph, name, acc) => if c == '\'' {
            StepView::Cont(
                StView {
                    items: st.items,
                    mode: ModeView::AfterValue(
                        PartialView {
                            name: ph.name,
                            props: spec_insert(ph.props, name, PlaceholderValueView::Str(acc)),
                            flags: ph.flags,
                        },
                    ),
                },
            )
        } else {
            StepView::Cont(StView { items: st.items, mode: ModeView::Quote(ph, name, acc.push(c)) })
        },
        ModeView::Num(ph, name, acc) => if spec_is_digit(c) || c == '.' {
            StepView::Cont(StView { items: st.items, mode: ModeView::Num(ph, name, acc.push(c)) })
        } else if spec_is_ws(c) || c == ',' || c == ')' {
            match spec_num_value(acc) {
                Some(v) => {
                    let ph2 = PartialView {
                        name: ph.name,
                        props: spec_insert(ph.props, name, v),
                        flags: ph.flags,
                    };
                    if spec_is_ws(c) {
                        StepView::Cont(StView { items: st.items, mode: ModeView::AfterValue(ph2) })
                    } else if c == ',' {
                        StepView::Cont(StView { items: st.items, mode: ModeView::ArgStart(ph2) })
                    } else {
                        StepView::Cont(
                            StView {
                                items: spec_close(st.items, ph2.name, ph2.props, ph2.flags),
                                mode: ModeView::Txt(Seq::empty()),
                            },
                        )
                    }
                },
                None => StepView::Fail(ParseErrView { pos, kind: ParseErrorKind::InvalidNumber }),
            }
        } else {
            StepView::Fail(ParseErrView { pos, kind: ParseErrorKind::InvalidNumber })
        },
        ModeView::Word(ph, name, acc) => if spec_is_ident_char(c) {
            StepView::Cont(StView { items: st.items, mode: ModeView::Word(ph, name, acc.push(c)) })
        } else if spec_is_ws(c) || c == ',' || c == ')' {
            match spec_word_value(acc) {
                Some(b) => {
                    let ph2 = PartialView {
                        name: ph.name,
                        props: spec_insert(ph.props, name, PlaceholderValueView::Bool(b)),
                        flags: ph.flags,
                    };
                    if spec_is_ws(c) {
                        StepView::Cont(StView { items: st.items, mode: ModeView::AfterValue(ph2) })
                    } else if c == ',' {
                        StepView::Cont(StView { items: st.items, mode: ModeView::ArgStart(ph2) })
                    } else {
                        StepView::Cont(
                            StView {
                                items: spec_close(st.items, ph2.name, ph2.props, ph2.flags),
                                mode: ModeView::Txt(Seq::empty()),
                            },
                        )
                    }
                },
                None => StepView::Fail(ParseErrView { pos, kind: ParseErrorKind::InvalidLiteral }),
            }
        } else {
            StepView::Fail(ParseErrView { pos, kind: ParseErrorKind::InvalidLiteral })
        },
        ModeView::AfterValue(ph) => if spec_is_ws(c) {
            StepView::Cont(StView { items: st.items, mode: ModeView::AfterValue(ph) })
        } else if c == ',' {
            StepView::Cont(StView { items: st.items, mode: ModeView::ArgStart(ph) })
        } else if c == ')' {
            StepView::Cont(
                StView {
                    items: spec_close(st.items, ph.name, ph.props, ph.flags),
                    mode: ModeView::Txt(Seq::empty()),
                },
            )
        } else {
            StepView::Fail(ParseErrView { pos, kind: ParseErrorKind::UnexpectedChar })
        },
    }
}

/// What the parser yields at the end of the input.
pub open spec fn spec_finish(st: StView, len: int) -> Result<Seq<PatternItemView>, ParseErrView> {
    match st.mode {
        ModeView::Txt(acc) => Ok(spec_flush_text(st.items, acc)),
        ModeView::Name(acc) => Ok(spec_close(st.items, acc, Seq::empty(), Seq::empty())),
        ModeView::Quote(_, _, _) => Err(
            ParseErrView { pos: len, kind: ParseErrorKind::UnterminatedQuote },
        ),
        _ => Err(ParseErrView { pos: len, kind: ParseErrorKind::UnterminatedArgs }),
    }
}

/// The parser run from position `i` in state `st` to the end of `s`.
pub open spec fn spec_run(s: Seq<char>, i: int, st: StView) -> Result<
    Seq<PatternItemView>,
    ParseErrView,
>
    decreases s.len() - i,
{
    if i < 0 || i >= s.len() {
        spec_finish(st, s.len() as int)
    } else {
        match spec_step(st, s[i], i) {
            StepView::Cont(st2) => spec_run(s, i + 1, st2),
            StepView::Fail(e) => Err(e),
        }
    }
}

/// What parsing a whole template yields: the compiled items, or the first
/// failure.
pub open spec fn spec_parse(s: Seq<char>) -> Result<Seq<PatternItemView>, ParseErrView> {
    spec_run(s, 0, StView { items: Seq::empty(), mode: ModeView::Txt(Seq::empty()) })
}

/// Parsing is a pure function of the template text: equal templates
/// compile to structurally identical item sequences (or to the same
/// failure).
pub proof fn lemma_parse_deterministic(s1: Seq<char>, s2: Seq<char>)
    requires
        s1 == s2,
    ensures
        spec_parse(s1) == spec_parse(s2),
{
}

fn is_ident_char(c: char) -> (r: bool)
    ensures
        r == spec_is_ident_char(c),
{
    ('a' <= c && c <= 'z') || ('A' <= c && c <= 'Z') || ('0' <= c && c <= '9') || c == '_'
}

fn is_ws(c: char) -> (r: bool)
    ensures
        r == spec_is_ws(c),
{
    c == ' ' || c == '\t' || c == '\n' || c == '\r'
}

fn is_digit(c: char) -> (r: bool)
    ensures
        r == spec_is_digit(c),
{
    '0' <= c && c <= '9'
}

fn char_string(c: char) -> (r: String)
    ensures
        r@ == seq![c],
{
    let mut s = String::new();
    push_char(&mut s, c);
    proof {
        assert(s@ =~= seq![c]);
    }
    s
}

fn flush_text(items: &mut Vec<PatternItem>, acc: String)
    ensures
        spec_items(final(items)@) == spec_flush_text(spec_items(old(items)@), acc@),
{
    let ghost pre = spec_items(items@);
    let ghost av = acc@;
    if !acc.as_str().is_empty() {
        items.push(PatternItem::Text(acc));
        proof {
            assert(spec_items(items@) =~= pre.push(PatternItemView::Text(av)));
        }
    } else {
        proof {
            assert(spec_items(items@) =~= spec_flush_text(pre, av));
        }
    }
}

fn close_placeholder(
    items: &mut Vec<PatternItem>,
    name: &str,
    props: Vec<(String, PlaceholderValue)>,
    flags: Vec<String>,
)
    ensures
        spec_items(final(items)@) == spec_close(
            spec_items(old(items)@),
            name@,
            spec_props_view(props@),
            spec_strs_view(flags@),
        ),
{
    let ghost pre = spec_items(items@);
    let ghost pv = spec_props_view(props@);
    let ghost fv = spec_strs_view(flags@);
    match PlaceholderType::from_str(name) {
        Some(ty) => {
            let ph = Placeholder::new(ty, props, flags);
            proof {
                assert(ph@ == crate::pattern::PlaceholderView { ty, props: pv, flags: fv });
            }
            items.push(PatternItem::Placeholder(ph));
            proof {
                assert(spec_items(items@) =~= pre.push(
                    PatternItemView::Placeholder(
                        crate::pattern::PlaceholderView { ty, props: pv, flags: fv },
                    ),
                ));
            }
        },
        None => {
            proof {
                assert(spec_items(items@) =~= spec_close(pre, name@, pv, fv));
            }
        },
    }
}

fn close_partial(items: &mut Vec<PatternItem>, ph: PartialPh)
    ensures
        spec_items(final(items)@) == spec_close(
            spec_items(old(items)@),
            ph@.name,
            ph@.props,
            ph@.flags,
        ),
{
    let PartialPh { name, props, flags } = ph;
    close_placeholder(items, name.as_str(), props, flags);
}

proof fn lemma_insert_at(
    props: Seq<(Seq<char>, PlaceholderValueView)>,
    name: Seq<char>,
    v: PlaceholderValueView,
    i: int,
)
    requires
        0 <= i < props.len(),
        props[i].0 == name,
        forall|j: int| 0 <= j < i ==> props[j].0 != name,
    ensures
        spec_insert(props, name, v) == props.update(i, (props[i].0, v)),
    decreases i,
{
    if i == 0 {
        assert(spec_insert(props, name, v) =~= props.update(0, (props[0].0, v)));
    } else {
        lemma_insert_at(props.drop_first(), name, v, i - 1);
        assert(spec_insert(props, name, v) =~= props.update(i, (props[i].0, v)));
    }
}

proof fn lemma_insert_absent(
    props: Seq<(Seq<char>, PlaceholderValueView)>,
    name: Seq<char>,
    v: PlaceholderValueView,
)
    requires
        forall|j: int| 0 <= j < props.len() ==> props[j].0 != name,
    ensures
        spec_insert(props, name, v) == props.push((name, v)),
    decreases props.len(),
{
    if props.len() == 0 {
        assert(spec_insert(props, name, v) =~= props.push((name, v)));
    } else {
        lemma_insert_absent(props.drop_first(), name, v);
        assert(spec_insert(props, name, v) =~= props.push((name, v)));
    }
}

fn insert_prop(ph: &mut PartialPh, name: String, v: PlaceholderValue)
    ensures
        final(ph)@.name == old(ph)@.name,
        final(ph)@.flags == old(ph)@.flags,
        final(ph)@.props == spec_insert(old(ph)@.props, name@, v@),
{
    let ghost op = ph@.props;
    let n = ph.props.len();
    let mut i: usize = 0;
    let mut found = false;
    while i < n && !found
        invariant
            i <= n,
            n == ph.props@.len(),
            op == ph@.props,
            forall|j: int| 0 <= j < i ==> op[j].0 != name@,
            found ==> i < n && op[i as int].0 == name@,
        decreases n - i, (if found { 0int } else { 1int }),
    {
        if str_eq(ph.props[i].0.as_str(), name.as_str()) {
            found = true;
        } else {
            proof {
                assert(op[i as int].0 != name@);
            }
            i += 1;
        }
    }
    if found {
        let ghost vv = v@;
        let (k, _old) = ph.props.remove(i);
        ph.props.insert(i, (k, v));
        proof {
            assert(ph@.props =~~= op.update(i as int, (op[i as int].0, vv)));
            lemma_insert_at(op, name@, vv, i as int);
        }
    } else {
        let ghost vv = v@;
        ph.props.push((name, v));
        proof {
            assert(ph@.props =~~= op.push((name@, vv)));
            lemma_insert_absent(op, name@, vv);
        }
    }
}

proof fn lemma_dot_at(s: Seq<char>, k: int)
    requires
        0 <= k < s.len(),
        s[k] == '.',
        forall|j: int| 0 <= j < k ==> s[j] != '.',
    ensures
        spec_dot_index(s) == k,
    decreases k,
{
    if k > 0 {
        lemma_dot_at(s.drop_first(), k - 1);
    }
}

proof fn lemma_dot_absent(s: Seq<char>)
    requires
        forall|j: int| 0 <= j < s.len() ==> s[j] != '.',
    ensures
        spec_dot_index(s) == -1,
    decreases s.len(),
{
    if s.len() > 0 {
        lemma_dot_absent(s.drop_first());
    }
}

fn parse_number(acc: &String) -> (r: Option<PlaceholderValue>)
    ensures
        match r {
            Some(v) => spec_num_value(acc@) == Some(v@),
            None => spec_num_value(acc@) is None,
        },
{
    let cs = str_chars(acc.as_str());
    let n = cs.len();
    if n == 0 {
        return None;
    }
    let neg = cs[0] == '-';
    let start: usize = if neg {
        1
    } else {
        0
    };
    let ghost body = if neg {
        acc@.drop_first()
    } else {
        acc@
    };
    proof {
        assert(body =~= cs@.skip(start as int));
    }
    if start == n {
        proof {
            lemma_dot_absent(body);
        }
        return None;
    }
    // Find the first point, if any.
    let mut i: usize = start;
    let mut founddot = false;
    while i < n && !founddot
        invariant
            start <= i <= n,
            n == cs@.len(),
            forall|j: int| start <= j < i ==> cs@[j] != '.',
            founddot ==> i < n && cs@[i as int] == '.',
        decreases n - i, (if founddot { 0int } else { 1int }),
    {
        if cs[i] == '.' {
            founddot = true;
        } else {
            i += 1;
        }
    }
    if !founddot {
        // No point: an integer, if all digits and in range.
        proof {
            assert(forall|j: int| 0 <= j < body.len() ==> body[j] == cs@[j + start]);
            lemma_dot_absent(body);
        }
        let mut v: u64 = 0;
        let mut j: usize = start;
        while j < n
            invariant
                start <= j <= n,
                n == cs@.len(),
                start < n,
                cs@ == acc@,
                neg == (cs@.len() > 0 && cs@[0] == '-'),
                start == (if neg { 1int } else { 0int }),
                body == (if neg { acc@.drop_first() } else { acc@ }),
                body == cs@.skip(start as int),
                body.len() == n - start,
                spec_dot_index(body) == -1,
                forall|m: int| 0 <= m < body.len() ==> body[m] == cs@[m + start],
                spec_all_digits(body.take(j - start)),
                spec_digits_val(body.take(j - start)) <= 2147483648 ==> v == spec_digits_val(
                    body.take(j - start),
                ),
                spec_digits_val(body.take(j - start)) > 2147483648 ==> v > 2147483648,
                v <= 21474836489,
            decreases n - j,
        {
            let c = cs[j];
            if !(c >= '0' && c <= '9') {
                proof {
                    assert(body[j - start] == c);
                    assert(!spec_all_digits(body));
                }
                return None;
            }
            let d: u64 = ((c as u8) - 48) as u64;
            proof {
                let pre = body.take(j - start);
                let post = body.take(j + 1 - start);
                assert(post.drop_last() =~= pre);
                assert(post.last() == c);
                assert(spec_digits_val(post) == spec_digits_val(pre) * 10 + (c as int - 48));
                assert(spec_all_digits(post));
            }
            if v <= 2147483648 {
                v = v * 10 + d;
            } else {
                v = 3000000000;
            }
            j += 1;
        }
        proof {
            assert(body.take(n - start) =~= body);
        }
        if neg {
            if v <= 2147483648 {
                if v == 2147483648 {
                    Some(PlaceholderValue::Integer(i32::MIN))
                } else {
                    Some(PlaceholderValue::Integer(-(v as i32)))
                }
            } else {
                None
            }
        } else {
            if v <= 2147483647 {
                Some(PlaceholderValue::Integer(v as i32))
            } else {
                None
            }
        }
    } else {
        // A point at position i: a decimal, if digits stand on both sides.
        let d = i;
        proof {
            assert(body[d - start] == '.');
            assert(forall|j: int| 0 <= j < d - start ==> body[j] == cs@[j + start] && body[j]
                != '.');
            lemma_dot_at(body, d - start);
            assert(!spec_all_digits(body)) by {
                assert(body[d - start] == '.');
                assert(!spec_is_digit('.'));
            }
        }
        if d == start {
            return None;
        }
        if d + 1 == n {
            return None;
        }
        // Digits before the point.
        let mut j: usize = start;
        while j < d
            invariant
                start <= j <= d,
                d < n,
                n == cs@.len(),
                cs@ == acc@,
                neg == (cs@.len() > 0 && cs@[0] == '-'),
                start == (if neg { 1int } else { 0int }),
                body == (if neg { acc@.drop_first() } else { acc@ }),
                body == cs@.skip(start as int),
                body.len() == n - start,
                body[d - start] == '.',
                spec_dot_index(body) == d - start,
                forall|m: int| 0 <= m < body.len() ==> body[m] == cs@[m + start],
                forall|m: int| 0 <= m < j - start ==> spec_is_digit(#[trigger] body[m]),
            decreases d - j,
        {
            let c = cs[j];
            if !(c >= '0' && c <= '9') {
                proof {
                    assert(body.take(d - start)[j - start] == c);
                    assert(!spec_all_digits(body.take(d - start)));
                }
                return None;
            }
            j += 1;
        }
        // Digits after the point.
        let mut k: usize = d + 1;
        while k < n
            invariant
                d + 1 <= k <= n,
                d >= start,
                d + 1 < n,
                n == cs@.len(),
                cs@ == acc@,
                neg == (cs@.len() > 0 && cs@[0] == '-'),
                start == (if neg { 1int } else { 0int }),
                body == (if neg { acc@.drop_first() } else { acc@ }),
                body == cs@.skip(start as int),
                body.len() == n - start,
                body[d - start] == '.',
                spec_dot_index(body) == d - start,
                forall|m: int| 0 <= m < body.len() ==> body[m] == cs@[m + start],
                forall|m: int| d + 1 - start <= m < k - start ==> spec_is_digit(
                    #[trigger] body[m],
                ),
            decreases n - k,
        {
            let c = cs[k];
            if !(c >= '0' && c <= '9') {
                proof {
                    assert(body.skip(d + 1 - start)[k - (d + 1)] == c);
                    assert(!spec_all_digits(body.skip(d + 1 - start)));
                }
                return None;
            }
            k += 1;
        }
        proof {
            let kk = d - start;
            assert(spec_dot_index(body) == kk);
            assert(spec_all_digits(body.take(kk))) by {
                assert(forall|m: int| 0 <= m < kk ==> body.take(kk)[m] == body[m]);
            }
            assert(spec_all_digits(body.skip(kk + 1))) by {
                assert(forall|m: int|
                    0 <= m < body.skip(kk + 1).len() ==> #[trigger] body.skip(kk + 1)[m] == body[m
                        + kk + 1]);
            }
        }
        Some(PlaceholderValue::Float(acc.clone()))
    }
}

#[verifier::rlimit(60)]
fn step(items: &mut Vec<PatternItem>, mode: Mode, c: char, pos: usize) -> (r: Result<
    Mode,
    ParseError,
>)
    ensures
        ({
            let st0 = StView { items: spec_items(old(items)@), mode: mode@ };
            match spec_step(st0, c, pos as int) {
                StepView::Cont(st1) => match r {
                    Ok(m) => m@ == st1.mode && spec_items(final(items)@) == st1.items,
                    Err(_) => false,
                },
                StepView::Fail(e) => match r {
                    Ok(_) => false,
                    Err(pe) => pe@ == e,
                },
            }
        }),
{
    match mode {
        Mode::Txt { mut acc } => {
            if c == '$' {
                flush_text(items, acc);
                Ok(Mode::Name { acc: String::new() })
            } else {
                push_char(&mut acc, c);
                Ok(Mode::Txt { acc })
            }
        },
        Mode::Name { mut acc } => {
            if is_ident_char(c) {
                push_char(&mut acc, c);
                Ok(Mode::Name { acc })
            } else if c == '(' {
                let ph = PartialPh { name: acc, props: Vec::new(), flags: Vec::new() };
                proof {
                    assert(ph@.props =~= Seq::<(Seq<char>, PlaceholderValueView)>::empty());
                    assert(ph@.flags =~= Seq::<Seq<char>>::empty());
                }
                Ok(Mode::ArgStart { ph })
            } else if c == '$' {
                let props: Vec<(String, PlaceholderValue)> = Vec::new();
                let flags: Vec<String> = Vec::new();
                proof {
                    assert(spec_props_view(props@) =~= Seq::<(
                        Seq<char>,
                        PlaceholderValueView,
                    )>::empty());
                    assert(spec_strs_view(flags@) =~= Seq::<Seq<char>>::empty());
                }
                close_placeholder(items, acc.as_str(), props, flags);
                Ok(Mode::Name { acc: String::new() })
            } else {
                let props: Vec<(String, PlaceholderValue)> = Vec::new();
                let flags: Vec<String> = Vec::new();
                proof {
                    assert(spec_props_view(props@) =~= Seq::<(
                        Seq<char>,
                        PlaceholderValueView,
                    )>::empty());
                    assert(spec_strs_view(flags@) =~= Seq::<Seq<char>>::empty());
                }
                close_placeholder(items, acc.as_str(), props, flags);
                Ok(Mode::Txt { acc: char_string(c) })
            }
        },
        Mode::ArgStart { ph } => {
            if is_ws(c) {
                Ok(Mode::ArgStart { ph })
            } else if c == ')' {
                close_partial(items, ph);
                Ok(Mode::Txt { acc: String::new() })
            } else if is_ident_char(c) {
                Ok(Mode::Ident { ph, acc: char_string(c) })
            } else {
                Err(ParseError { pos, kind: ParseErrorKind::UnexpectedChar })
            }
        },
        Mode::Ident { mut ph, mut acc } => {
            if is_ident_char(c) {
                push_char(&mut acc, c);
                Ok(Mode::Ident { ph, acc })
            } else if c == '=' {
                Ok(Mode::ValueStart { ph, name: acc })
            } else if is_ws(c) {
                Ok(Mode::AfterIdent { ph, name: acc })
            } else if c == ',' {
                let ghost pf = ph@.flags;
                let ghost av = acc@;
                ph.flags.push(acc);
                proof {
                    assert(ph@.flags =~= pf.push(av));
                }
                Ok(Mode::ArgStart { ph })
            } else if c == ')' {
                let ghost pf = ph@.flags;
                let ghost av = acc@;
                ph.flags.push(acc);
                proof {
                    assert(ph@.flags =~= pf.push(av));
                }
                close_partial(items, ph);
                Ok(Mode::Txt { acc: String::new() })
            } else {
                Err(ParseError { pos, kind: ParseErrorKind::UnexpectedChar })
            }
        },
        Mode::AfterIdent { mut ph, name } => {
            if is_ws(c) {
                Ok(Mode::AfterIdent { ph, name })
            } else if c == '=' {
                Ok(Mode::ValueStart { ph, name })
            } else if c == ',' {
                let ghost pf = ph@.flags;
                let ghost av = name@;
                ph.flags.push(name);
                proof {
                    assert(ph@.flags =~= pf.push(av));
                }
                Ok(Mode::ArgStart { ph })
            } else if c == ')' {
                let ghost pf = ph@.flags;
                let ghost av = name@;
                ph.flags.push(name);
                proof {
                    assert(ph@.flags =~= pf.push(av));
                }
                close_partial(items, ph);
                Ok(Mode::Txt { acc: String::new() })
            } else {
                Err(ParseError { pos, kind: ParseErrorKind::UnexpectedChar })
            }
        },
        Mode::ValueStart { ph, name } => {
            if is_ws(c) {
                Ok(Mode::ValueStart { ph, name })
            } else if c == '\'' {
                Ok(Mode::Quote { ph, name, acc: String::new() })
            } else if is_digit(c) || c == '-' {
                Ok(Mode::Num { ph, name, acc: char_string(c) })
            } else if is_ident_char(c) {
                Ok(Mode::Word { ph, name, acc: char_string(c) })
            } else {
                Err(ParseError { pos, kind: ParseErrorKind::UnexpectedChar })
            }
        },
        Mode::Quote { mut ph, name, mut acc } => {
            if c == '\'' {
                insert_prop(&mut ph, name, PlaceholderValue::String(acc));
                Ok(Mode::AfterValue { ph })
            } else {
                push_char(&mut acc, c);
                Ok(Mode::Quote { ph, name, acc })
            }
        },
        Mode::Num { mut ph, name, mut acc } => {
            if is_digit(c) || c == '.' {
                push_char(&mut acc, c);
                Ok(Mode::Num { ph, name, acc })
            } else if is_ws(c) || c == ',' || c == ')' {
                match parse_number(&acc) {
                    Some(v) => {
                        insert_prop(&mut ph, name, v);
                        if is_ws(c) {
                            Ok(Mode::AfterValue { ph })
                        } else if c == ',' {
                            Ok(Mode::ArgStart { ph })
                        } else {
                            close_partial(items, ph);
                            Ok(Mode::Txt { acc: String::new() })
                        }
                    },
                    None => Err(ParseError { pos, kind: ParseErrorKind::InvalidNumber }),
                }
            } else {
                Err(ParseError { pos, kind: ParseErrorKind::InvalidNumber })
            }
        },
        Mode::Word { mut ph, name, mut acc } => {
            if is_ident_char(c) {
                push_char(&mut acc, c);
                Ok(Mode::Word { ph, name, acc })
            } else if is_ws(c) || c == ',' || c == ')' {
                match parse_word(&acc) {
                    Some(b) => {
                        insert_prop(&mut ph, name, PlaceholderValue::Boolean(b));
                        if is_ws(c) {
                            Ok(Mode::AfterValue { ph })
                        } else if c == ',' {
                            Ok(Mode::ArgStart { ph })
                        } else {
                            close_partial(items, ph);
                            Ok(Mode::Txt { acc: String::new() })
                        }
                    },
                    None => Err(ParseError { pos, kind: ParseErrorKind::InvalidLiteral }),
                }
            } else {
                Err(ParseError { pos, kind: ParseErrorKind::InvalidLiteral })
            }
        },
        Mode::AfterValue { ph } => {
            if is_ws(c) {
                Ok(Mode::AfterValue { ph })
            } else if c == ',' {
                Ok(Mode::ArgStart { ph })
            } else if c == ')' {
                close_partial(items, ph);
                Ok(Mode::Txt { acc: String::new() })
            } else {
                Err(ParseError { pos, kind: ParseErrorKind::UnexpectedChar })
            }
        },
    }
}

impl Pattern {
    /// Compiles a template string.
    ///
    /// Returns the compiled pattern exactly as [`spec_parse`] describes it:
    /// literal runs kept verbatim, each recognized placeholder with its
    /// typed properties and flags, each unknown placeholder kind dropped;
    /// or the first failure, with its kind and position.
    pub fn try_parse(s: &str) -> (r: Result<Pattern, ParseError>)
        ensures
            match r {
                Ok(p) => match spec_parse(s@) {
                    Ok(iv) => p@ == iv,
                    Err(_) => false,
                },
                Err(e) => match spec_parse(s@) {
                    Ok(_) => false,
                    Err(ev) => e@ == ev,
                },
            },
    {
        let cs = str_chars(s);
        let n = cs.len();
        let mut items: Vec<PatternItem> = Vec::new();
        let mut mode = Mode::Txt { acc: String::new() };
        proof {
            assert(spec_items(items@) =~= Seq::<PatternItemView>::empty());
        }
        let mut i: usize = 0;
        while i < n
            invariant
                i <= n,
                n == cs@.len(),
                cs@ == s@,
                spec_run(s@, i as int, StView { items: spec_items(items@), mode: mode@ })
                    == spec_parse(s@),
            decreases n - i,
        {
            let c = cs[i];
            let ghost st0 = StView { items: spec_items(items@), mode: mode@ };
            match step(&mut items, mode, c, i) {
                Ok(m) => {
                    mode = m;
                    proof {
                        match spec_step(st0, c, i as int) {
                            StepView::Cont(st1) => {
                                assert(st1 == StView {
                                    items: spec_items(items@),
                                    mode: mode@,
                                });
                            },
                            StepView::Fail(_) => {
                                assert(false);
                            },
                        }
                    }
                },
                Err(e) => {
                    proof {
                        match spec_step(st0, c, i as int) {
                            StepView::Cont(_) => {
                                assert(false);
                            },
                            StepView::Fail(ev) => {
                                assert(spec_parse(s@) == Err::<Seq<PatternItemView>, _>(ev));
                            },
                        }
                    }
                    return Err(e);
                },
            }
            i += 1;
        }
        proof {
            assert(spec_parse(s@) == spec_finish(
                StView { items: spec_items(items@), mode: mode@ },
                s@.len() as int,
            ));
        }
        match mode {
            Mode::Txt { acc } => {
                flush_text(&mut items, acc);
                let p = Pattern::new(items);
                proof {
                    assert(p@ =~= spec_items(items@));
                }
                Ok(p)
            },
            Mode::Name { acc } => {
                let props: Vec<(String, PlaceholderValue)> = Vec::new();
                let flags: Vec<String> = Vec::new();
                proof {
                    assert(spec_props_view(props@) =~= Seq::<(
                        Seq<char>,
                        PlaceholderValueView,
                    )>::empty());
                    assert(spec_strs_view(flags@) =~= Seq::<Seq<char>>::empty());
                }
                close_placeholder(&mut items, acc.as_str(), props, flags);
                let p = Pattern::new(items);
                proof {
                    assert(p@ =~= spec_items(items@));
                }
                Ok(p)
            },
            Mode::Quote { .. } => Err(
                ParseError { pos: n, kind: ParseErrorKind::UnterminatedQuote },
            ),
            _ => Err(ParseError { pos: n, kind: ParseErrorKind::UnterminatedArgs }),
        }
    }
}

fn parse_word(acc: &String) -> (r: Option<bool>)
    ensures
        r == spec_word_value(acc@),
{
    proof {
        reveal_strlit("true");
        reveal_strlit("false");
    }
    if str_eq(acc.as_str(), "true") {
        Some(true)
    } else if str_eq(acc.as_str(), "false") {
        Some(false)
    } else {
        None
    }
}

} // verus!
