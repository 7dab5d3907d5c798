//! The renderer: resolves a compiled pattern against one event's data.

use vstd::prelude::*;
use vstd::string::StrSliceExecFns;
use std::fmt::Write;
use chrono::{Datelike, Timelike};
use crate::fields::{
    FieldsView, FieldsVisitor, spec_fields_wf, spec_format_values, spec_message_text,
};
use crate::numfmt::{push_char, spec_udec, u64_to_string};
use crate::pattern::{
    Pattern, PatternItem, PatternItemView, Placeholder, PlaceholderType, PlaceholderView,
    spec_int_prop, spec_str_prop,
};
use crate::strutil::str_eq;

verus! {

/// One reading of the system clock, split into plain calendar fields.
#[derive(Clone, Copy, Debug)]
pub struct ClockStamp {
    pub year: i32,
    pub month: u8,
    pub day: u8,
    pub hour: u8,
    pub minute: u8,
    pub second: u8,
    pub micros: u32,
}

/// The documented field ranges of a clock reading: month 1 to 12, day 1
/// to 31, hour below 24, minute and second below 60, microseconds below
/// two million (values above one million standing for a leap second).
pub open spec fn spec_clock_ranges(st: ClockStamp) -> bool {
    &&& 1 <= st.month <= 12
    &&& 1 <= st.day <= 31
    &&& st.hour < 24
    &&& st.minute < 60
    &&& st.second < 60
    &&& st.micros < 2000000
}

/// Whether chrono's strftime parser accepts a format string: a function
/// of the string alone.
pub uninterp spec fn strftime_ok(fmt: Seq<char>) -> bool;

/// Relies on `std::time::SystemTime::now` with `duration_since` and on
/// `chrono::DateTime::from_timestamp` with the `Datelike`/`Timelike`
/// accessors: every step is fallible without panicking (`Local::now`
/// would `expect` a post-epoch clock and `unwrap` the local-offset
/// lookup, so the reading is taken as universal time), and the accessors'
/// documented ranges bound the fields. `None` where the system clock
/// stands before the Unix epoch or beyond chrono's range.
#[verifier::external_body]
fn now_parts() -> (r: Option<ClockStamp>)
    ensures
        match r {
            Some(st) => spec_clock_ranges(st),
            None => true,
        },
{
    let dur = std::time::SystemTime::now().duration_since(std::time::UNIX_EPOCH).ok()?;
    let now = chrono::DateTime::from_timestamp(i64::try_from(dur.as_secs()).ok()?, dur.subsec_nanos())?;
    Some(ClockStamp {
        year: now.year(),
        month: now.month() as u8,
        day: now.day() as u8,
        hour: now.hour() as u8,
        minute: now.minute() as u8,
        second: now.second() as u8,
        micros: now.timestamp_subsec_micros(),
    })
}

/// Relies on the same fallible clock reading and on `DateTime::format`:
/// writing the delayed format yields the time rendered under `fmt`, and
/// chrono's formatter returns an error, absorbed as `None`, exactly for a
/// format string its strftime parser refuses. The rendered text depends
/// on the clock, so only the format's acceptance is promised.
#[verifier::external_body]
fn format_now(fmt: &str) -> (r: Option<String>)
    ensures
        r is Some ==> strftime_ok(fmt@),
{
    let dur = std::time::SystemTime::now().duration_since(std::time::UNIX_EPOCH).ok()?;
    let now = chrono::DateTime::from_timestamp(i64::try_from(dur.as_secs()).ok()?, dur.subsec_nanos())?;
    let mut s = String::new();
    match write!(s, "{}", now.format(fmt)) {
        Ok(_) => Some(s),
        Err(_) => None,
    }
}

/// `n` zeros.
pub open spec fn spec_zeros(n: int) -> Seq<char>
    decreases n,
{
    if n <= 0 {
        Seq::empty()
    } else {
        spec_zeros(n - 1).push('0')
    }
}

/// `digits` left-padded with zeros to width `w`.
pub open spec fn spec_zero_pad(digits: Seq<char>, w: int) -> Seq<char> {
    spec_zeros(w - digits.len()) + digits
}

/// A year as at least four digits, the sign kept in front.
pub open spec fn spec_year_text(y: int) -> Seq<char> {
    if y < 0 {
        seq!['-'] + spec_zero_pad(spec_udec((-y) as nat), 4)
    } else {
        spec_zero_pad(spec_udec(y as nat), 4)
    }
}

/// The default text of a clock reading: date, time and microseconds, each
/// field zero-padded.
pub open spec fn spec_stamp_text(st: ClockStamp) -> Seq<char> {
    spec_year_text(st.year as int) + seq!['-'] + spec_zero_pad(spec_udec(st.month as nat), 2)
        + seq!['-'] + spec_zero_pad(spec_udec(st.day as nat), 2) + seq![' '] + spec_zero_pad(
        spec_udec(st.hour as nat),
        2,
    ) + seq![':'] + spec_zero_pad(spec_udec(st.minute as nat), 2) + seq![':'] + spec_zero_pad(
        spec_udec(st.second as nat),
        2,
    ) + seq!['.'] + spec_zero_pad(spec_udec(st.micros as nat), 6)
}

fn zero_pad(digits: &String, w: usize) -> (r: String)
    ensures
        r@ == spec_zero_pad(digits@, w as int),
{
    let len = digits.as_str().unicode_len();
    let need: usize = if w > len {
        w - len
    } else {
        0
    };
    let mut r = String::new();
    let mut cnt: usize = 0;
    while cnt < need
        invariant
            cnt <= need,
            r@ == spec_zeros(cnt as int),
        decreases need - cnt,
    {
        push_char(&mut r, '0');
        proof {
            assert(r@ =~= spec_zeros(cnt + 1 as int));
        }
        cnt += 1;
    }
    let r = r.concat(digits.as_str());
    proof {
        assert(spec_zeros(need as int) == spec_zeros(w - digits@.len()));
        assert(r@ =~= spec_zero_pad(digits@, w as int));
    }
    r
}

/// The default text of a clock reading.
fn stamp_text(st: &ClockStamp) -> (r: String)
    ensures
        r@ == spec_stamp_text(*st),
{
    let mut r = String::new();
    if st.year < 0 {
        push_char(&mut r, '-');
        let mag: u64 = (-(st.year as i64)) as u64;
        let y = zero_pad(&u64_to_string(mag), 4);
        r.append(y.as_str());
    } else {
        let y = zero_pad(&u64_to_string(st.year as u64), 4);
        r.append(y.as_str());
    }
    push_char(&mut r, '-');
    let p = zero_pad(&u64_to_string(st.month as u64), 2);
    r.append(p.as_str());
    push_char(&mut r, '-');
    let p = zero_pad(&u64_to_string(st.day as u64), 2);
    r.append(p.as_str());
    push_char(&mut r, ' ');
    let p = zero_pad(&u64_to_string(st.hour as u64), 2);
    r.append(p.as_str());
    push_char(&mut r, ':');
    let p = zero_pad(&u64_to_string(st.minute as u64), 2);
    r.append(p.as_str());
    push_char(&mut r, ':');
    let p = zero_pad(&u64_to_string(st.second as u64), 2);
    r.append(p.as_str());
    push_char(&mut r, '.');
    let p = zero_pad(&u64_to_string(st.micros as u64), 6);
    r.append(p.as_str());
    proof {
        assert(r@ =~= spec_stamp_text(*st));
    }
    r
}

/// The span an event renders against: its name, and the fields stored at
/// its creation, where the host still holds them.
pub struct SpanData {
    pub name: String,
    pub fields: Option<FieldsVisitor>,
}

/// The mathematical value of a [`SpanData`].
pub ghost struct SpanView {
    pub name: Seq<char>,
    pub fields: Option<FieldsView>,
}

impl View for SpanData {
    type V = SpanView;

    open spec fn view(&self) -> SpanView {
        SpanView {
            name: self.name@,
            fields: match self.fields {
                Some(f) => Some(f@),
                None => None,
            },
        }
    }
}

/// The span an event renders against — the nearest one: the event's
/// declared parent where it has one, else the currently active span,
/// else none.
pub fn nearest_span(parent: Option<SpanData>, current: Option<SpanData>) -> (r: Option<SpanData>)
    ensures
        r == (match parent {
            Some(p) => Some(p),
            None => current,
        }),
{
    match parent {
        Some(p) => Some(p),
        None => current,
    }
}

/// Everything of one event that rendering reads: severity name, source
/// target, source position, collected fields, and the nearest span.
pub struct EventData {
    pub level: String,
    pub target: String,
    pub file: Option<String>,
    pub line: Option<u64>,
    pub fields: FieldsVisitor,
    pub span: Option<SpanData>,
}

/// The mathematical value of an [`EventData`].
pub ghost struct EventView {
    pub level: Seq<char>,
    pub target: Seq<char>,
    pub file: Option<Seq<char>>,
    pub line: Option<u64>,
    pub fields: FieldsView,
    pub span: Option<SpanView>,
}

impl View for EventData {
    type V = EventView;

    open spec fn view(&self) -> EventView {
        EventView {
            level: self.level@,
            target: self.target@,
            file: match self.file {
                Some(f) => Some(f@),
                None => None,
            },
            line: self.line,
            fields: self.fields@,
            span: match self.span {
                Some(s) => Some(s@),
                None => None,
            },
        }
    }
}

/// Validity of an event's data: its own fields, and the span's where they
/// are held, are well-formed collections.
pub open spec fn spec_event_wf(ev: EventView) -> bool {
    &&& spec_fields_wf(ev.fields.values)
    &&& match ev.span {
        Some(sp) => match sp.fields {
            Some(f) => spec_fields_wf(f.values),
            None => true,
        },
        None => true,
    }
}

/// The raw value of a span placeholder: the nearest span's name; with the
/// `args` flag, and stored fields that hold any values, the formatted
/// values follow, wrapped in `args_prefix`/`args_suffix` (empty when not
/// given); no span, no value.
pub open spec fn spec_resolve_span(ph: PlaceholderView, span: Option<SpanView>) -> Option<
    Seq<char>,
> {
    match span {
        None => None,
        Some(sp) => match sp.fields {
            Some(f) => if ph.flags.contains("args"@) && f.values.len() > 0 {
                let prefix = match spec_str_prop(ph, "args_prefix"@) {
                    Some(p) => p,
                    None => Seq::empty(),
                };
                let suffix = match spec_str_prop(ph, "args_suffix"@) {
                    Some(sfx) => sfx,
                    None => Seq::empty(),
                };
                Some(sp.name + prefix + spec_format_values(f.values) + suffix)
            } else {
                Some(sp.name)
            },
            None => Some(sp.name),
        },
    }
}

/// The raw value of a placeholder, resolved against the event: exactly the
/// resolution table of the template language. A datetime placeholder is
/// resolved at render time from the clock instead.
pub open spec fn spec_resolve(ph: PlaceholderView, ev: EventView) -> Option<Seq<char>> {
    match ph.ty {
        PlaceholderType::Text => spec_str_prop(ph, "value"@),
        PlaceholderType::Target => Some(ev.target),
        PlaceholderType::Level => Some(ev.level),
        PlaceholderType::File => ev.file,
        PlaceholderType::Line => match ev.line {
            Some(n) => Some(spec_udec(n as nat)),
            None => None,
        },
        PlaceholderType::Message => Some(spec_message_text(ev.fields)),
        PlaceholderType::Fields => if ev.fields.values.len() > 0 {
            Some(spec_format_values(ev.fields.values))
        } else {
            None
        },
        PlaceholderType::Span => spec_resolve_span(ph, ev.span),
        PlaceholderType::DateTime => None,
    }
}

/// `n` spaces.
pub open spec fn spec_spaces(n: int) -> Seq<char>
    decreases n,
{
    if n <= 0 {
        Seq::empty()
    } else {
        spec_spaces(n - 1).push(' ')
    }
}

/// A value under the `width`/`alignment` properties: padded with spaces to
/// the given minimum width, left- or right-justified; untouched where no
/// width is given or the alignment is not recognized.
pub open spec fn spec_aligned(ph: PlaceholderView, val: Seq<char>) -> Seq<char> {
    match spec_int_prop(ph, "width"@) {
        Some(w) => match spec_str_prop(ph, "alignment"@) {
            Some(a) => if a == "<"@ {
                val + spec_spaces(w - val.len())
            } else if a == ">"@ {
                spec_spaces(w - val.len()) + val
            } else {
                val
            },
            None => val,
        },
        None => val,
    }
}

/// A resolved value as it reaches the output: `prefix`, the aligned value,
/// `suffix`.
pub open spec fn spec_emit(ph: PlaceholderView, val: Seq<char>) -> Seq<char> {
    (match spec_str_prop(ph, "prefix"@) {
        Some(p) => p,
        None => Seq::empty(),
    }) + spec_aligned(ph, val) + (match spec_str_prop(ph, "suffix"@) {
        Some(sfx) => sfx,
        None => Seq::empty(),
    })
}

/// What one item contributes to the output; a datetime placeholder takes
/// the clock text `dt`, every other placeholder resolves against the
/// event; one that yields no value contributes nothing at all.
pub open spec fn spec_item_out(
    item: PatternItemView,
    ev: EventView,
    dt: Option<Seq<char>>,
) -> Seq<char> {
    match item {
        PatternItemView::Text(t) => t,
        PatternItemView::Placeholder(ph) => {
            let rv = if ph.ty == PlaceholderType::DateTime {
                dt
            } else {
                spec_resolve(ph, ev)
            };
            match rv {
                Some(v) => spec_emit(ph, v),
                None => Seq::empty(),
            }
        },
    }
}

/// The clock text available for the item at position `i`.
pub open spec fn spec_dt_at(dts: Seq<Option<Seq<char>>>, i: int) -> Option<Seq<char>> {
    if 0 <= i < dts.len() {
        dts[i]
    } else {
        None
    }
}

/// What may stand as the clock text of an item: for a datetime
/// placeholder, any value it carries has the stated shape — under a
/// `fmt` property a text of an accepted format, else the fixed default
/// text of some in-range clock reading; `None` (a failed clock or a
/// refused format) and every other item are unconstrained.
pub open spec fn spec_dt_ok(item: PatternItemView, dt: Option<Seq<char>>) -> bool {
    match item {
        PatternItemView::Placeholder(ph) => ph.ty == PlaceholderType::DateTime ==> match dt {
            Some(s) => match spec_str_prop(ph, "fmt"@) {
                Some(f) => strftime_ok(f),
                None => exists|st: ClockStamp|
                    spec_clock_ranges(st) && s == #[trigger] spec_stamp_text(st),
            },
            None => true,
        },
        PatternItemView::Text(_) => true,
    }
}

/// The output of the first `n` items.
pub open spec fn spec_render_upto(
    items: Seq<PatternItemView>,
    ev: EventView,
    dts: Seq<Option<Seq<char>>>,
    n: int,
) -> Seq<char>
    decreases n,
{
    if n <= 0 {
        Seq::empty()
    } else {
        spec_render_upto(items, ev, dts, n - 1) + spec_item_out(
            items[n - 1],
            ev,
            spec_dt_at(dts, n - 1),
        )
    }
}

/// The whole output of a pattern on an event, given the clock texts `dts`
/// its datetime placeholders read (one slot per item).
pub open spec fn spec_render(
    items: Seq<PatternItemView>,
    ev: EventView,
    dts: Seq<Option<Seq<char>>>,
) -> Seq<char> {
    spec_render_upto(items, ev, dts, items.len() as int)
}

/// Whether an item is a datetime placeholder.
pub open spec fn spec_is_datetime_item(item: PatternItemView) -> bool {
    match item {
        PatternItemView::Placeholder(ph) => ph.ty == PlaceholderType::DateTime,
        PatternItemView::Text(_) => false,
    }
}

/// Whether any item is a datetime placeholder.
pub open spec fn spec_has_datetime(items: Seq<PatternItemView>) -> bool {
    exists|i: int| 0 <= i < items.len() && spec_is_datetime_item(#[trigger] items[i])
}

proof fn lemma_upto_without_datetime(
    items: Seq<PatternItemView>,
    ev: EventView,
    dts1: Seq<Option<Seq<char>>>,
    dts2: Seq<Option<Seq<char>>>,
    n: int,
)
    requires
        n <= items.len(),
        !spec_has_datetime(items),
    ensures
        spec_render_upto(items, ev, dts1, n) == spec_render_upto(items, ev, dts2, n),
    decreases n,
{
    if n > 0 {
        lemma_upto_without_datetime(items, ev, dts1, dts2, n - 1);
        assert(!spec_is_datetime_item(items[n - 1])) by {
            if spec_is_datetime_item(items[n - 1]) {
                assert(spec_has_datetime(items));
            }
        }
    }
}

/// Rendering reads the clock only at datetime placeholders: a pattern
/// without one renders the same text whatever the clock said.
pub proof fn lemma_render_without_datetime(
    items: Seq<PatternItemView>,
    ev: EventView,
    dts1: Seq<Option<Seq<char>>>,
    dts2: Seq<Option<Seq<char>>>,
)
    requires
        !spec_has_datetime(items),
    ensures
        spec_render(items, ev, dts1) == spec_render(items, ev, dts2),
{
    lemma_upto_without_datetime(items, ev, dts1, dts2, items.len() as int);
}

proof fn lemma_upto_push(
    items: Seq<PatternItemView>,
    ev: EventView,
    dts: Seq<Option<Seq<char>>>,
    x: Option<Seq<char>>,
    n: int,
)
    requires
        n <= dts.len(),
    ensures
        spec_render_upto(items, ev, dts.push(x), n) == spec_render_upto(items, ev, dts, n),
    decreases n,
{
    if n > 0 {
        lemma_upto_push(items, ev, dts, x, n - 1);
        assert(spec_dt_at(dts.push(x), n - 1) == spec_dt_at(dts, n - 1));
    }
}

/// The concatenated text of a template made of literal runs alone.
pub open spec fn spec_literal_text(items: Seq<PatternItemView>) -> Seq<char>
    decreases items.len(),
{
    if items.len() == 0 {
        Seq::empty()
    } else {
        spec_literal_text(items.drop_last()) + (match items.last() {
            PatternItemView::Text(t) => t,
            PatternItemView::Placeholder(_) => Seq::empty(),
        })
    }
}

/// A template without placeholders renders as its literal text, unchanged,
/// whatever the event carries and whatever the clock said.
pub proof fn lemma_text_only_render(
    items: Seq<PatternItemView>,
    ev: EventView,
    dts: Seq<Option<Seq<char>>>,
)
    requires
        forall|i: int| 0 <= i < items.len() ==> items[i] is Text,
    ensures
        spec_render(items, ev, dts) == spec_literal_text(items),
    decreases items.len(),
{
    if items.len() > 0 {
        lemma_text_only_render(items.drop_last(), ev, dts);
        assert(items.drop_last() =~= items.take(items.len() - 1));
        assert(forall|i: int|
            0 <= i < items.drop_last().len() ==> #[trigger] items.drop_last()[i] == items[i]);
        lemma_upto_same(items.drop_last(), items, ev, dts, items.len() - 1);
    }
}

proof fn lemma_upto_same(
    a: Seq<PatternItemView>,
    b: Seq<PatternItemView>,
    ev: EventView,
    dts: Seq<Option<Seq<char>>>,
    n: int,
)
    requires
        forall|i: int| 0 <= i < n ==> a[i] == b[i],
    ensures
        spec_render_upto(a, ev, dts, n) == spec_render_upto(b, ev, dts, n),
    decreases n,
{
    if n > 0 {
        lemma_upto_same(a, b, ev, dts, n - 1);
    }
}

/// Where no field named `message` was recorded, the message placeholder
/// resolves to the empty string: it renders as empty text.
pub proof fn lemma_message_absent_renders_empty(ph: PlaceholderView, ev: EventView)
    requires
        ph.ty == PlaceholderType::Message,
        ev.fields.message is None,
    ensures
        spec_resolve(ph, ev) == Some(Seq::<char>::empty()),
{
}

fn resolve_placeholder(ph: &Placeholder, ev: &EventData) -> (r: Option<String>)
    requires
        spec_event_wf(ev@),
    ensures
        match r {
            Some(s) => spec_resolve(ph@, ev@) == Some(s@),
            None => spec_resolve(ph@, ev@) is None,
        },
{
    let ty = *ph.ty();
    match ty {
        PlaceholderType::Text => match ph.str("value") {
            Some(s) => Some(String::from_str(s)),
            None => None,
        },
        PlaceholderType::Target => Some(ev.target.clone()),
        PlaceholderType::Level => Some(ev.level.clone()),
        PlaceholderType::File => match &ev.file {
            Some(f) => Some(f.clone()),
            None => None,
        },
        PlaceholderType::Line => match ev.line {
            Some(n) => Some(u64_to_string(n)),
            None => None,
        },
        PlaceholderType::Message => Some(String::from_str(ev.fields.message())),
        PlaceholderType::Fields => if ev.fields.has_values() {
            Some(ev.fields.format_values())
        } else {
            None
        },
        PlaceholderType::Span => match &ev.span {
            None => None,
            Some(sp) => match &sp.fields {
                Some(f) => if ph.flag("args") && f.has_values() {
                    let mut out = sp.name.clone();
                    match ph.str("args_prefix") {
                        Some(p) => out.append(p),
                        None => {},
                    }
                    let body = f.format_values();
                    out.append(body.as_str());
                    match ph.str("args_suffix") {
                        Some(sfx) => out.append(sfx),
                        None => {},
                    }
                    Some(out)
                } else {
                    Some(sp.name.clone())
                },
                None => Some(sp.name.clone()),
            },
        },
        PlaceholderType::DateTime => None,
    }
}

/// The clock text of a datetime placeholder: the current time under the
/// `fmt` property where one is given, else the fixed default with
/// microsecond precision. `None` where the format is malformed or the
/// clock could not be read; every value it does yield has the stated
/// shape.
fn datetime_value(ph: &Placeholder) -> (r: Option<String>)
    ensures
        match r {
            Some(s) => match spec_str_prop(ph@, "fmt"@) {
                Some(f) => strftime_ok(f),
                None => exists|st: ClockStamp|
                    spec_clock_ranges(st) && s@ == #[trigger] spec_stamp_text(st),
            },
            None => true,
        },
{
    match ph.str("fmt") {
        Some(f) => format_now(f),
        None => match now_parts() {
            Some(st) => {
                let s = stamp_text(&st);
                proof {
                    assert(s@ == spec_stamp_text(st));
                }
                Some(s)
            },
            None => None,
        },
    }
}

fn spaces(k: usize) -> (r: String)
    ensures
        r@ == spec_spaces(k as int),
{
    let mut r = String::new();
    let mut i: usize = 0;
    while i < k
        invariant
            i <= k,
            r@ == spec_spaces(i as int),
        decreases k - i,
    {
        push_char(&mut r, ' ');
        proof {
            assert(r@ =~= spec_spaces(i + 1 as int));
        }
        i += 1;
    }
    r
}

fn emit(buf: &mut String, ph: &Placeholder, v: &String)
    ensures
        final(buf)@ == old(buf)@ + spec_emit(ph@, v@),
{
    match ph.str("prefix") {
        Some(p) => buf.append(p),
        None => {},
    }
    let vlen = v.as_str().unicode_len();
    match ph.integer("width") {
        Some(w) => {
            let pad: usize = if w > 0 && (w as usize) > vlen {
                (w as usize) - vlen
            } else {
                0
            };
            proof {
                assert(spec_spaces(pad as int) == spec_spaces(w - v@.len()));
            }
            match ph.str("alignment") {
                Some(a) => {
                    if str_eq(a, "<") {
                        buf.append(v.as_str());
                        let s = spaces(pad);
                        buf.append(s.as_str());
                    } else if str_eq(a, ">") {
                        let s = spaces(pad);
                        buf.append(s.as_str());
                        buf.append(v.as_str());
                    } else {
                        buf.append(v.as_str());
                    }
                },
                None => buf.append(v.as_str()),
            }
        },
        None => buf.append(v.as_str()),
    }
    match ph.str("suffix") {
        Some(sfx) => buf.append(sfx),
        None => {},
    }
    proof {
        assert(buf@ =~= old(buf)@ + spec_emit(ph@, v@));
    }
}

impl Pattern {
    /// Renders one event. Rendering never fails: a placeholder that
    /// yields no value contributes nothing at all, and every other item
    /// contributes exactly what [`spec_render`] says, for some reading of
    /// the clock at each datetime placeholder.
    pub fn render_event(&self, ev: &EventData) -> (r: String)
        requires
            spec_event_wf(ev@),
        ensures
            exists|dts: Seq<Option<Seq<char>>>|
                dts.len() == self@.len() && r@ == #[trigger] spec_render(self@, ev@, dts) && (
                forall|i: int|
                    0 <= i < self@.len() ==> #[trigger] spec_dt_ok(self@[i], spec_dt_at(dts, i))),
            !spec_has_datetime(self@) ==> r@ == spec_render(
                self@,
                ev@,
                Seq::<Option<Seq<char>>>::empty(),
            ),
    {
        let mut buf = String::new();
        let ghost mut dts: Seq<Option<Seq<char>>> = Seq::empty();
        let items = self.items();
        let n = items.len();
        let mut i: usize = 0;
        while i < n
            invariant
                i <= n,
                n == items@.len(),
                items@.len() == self@.len(),
                forall|j: int| 0 <= j < items@.len() ==> #[trigger] items@[j]@ == self@[j],
                spec_event_wf(ev@),
                dts.len() == i,
                buf@ == spec_render_upto(self@, ev@, dts, i as int),
                forall|j: int| 0 <= j < i ==> #[trigger] spec_dt_ok(self@[j], spec_dt_at(dts, j)),
            decreases n - i,
        {
            let ghost pre = buf@;
            let ghost dv: Option<Seq<char>>;
            match &items[i] {
                PatternItem::Text(t) => {
                    buf.append(t.as_str());
                    proof {
                        dv = None;
                        assert(items@[i as int]@ == self@[i as int]);
                        assert(buf@ =~= pre + spec_item_out(self@[i as int], ev@, dv));
                    }
                },
                PatternItem::Placeholder(ph) => {
                    let is_dt = match ph.ty() {
                        PlaceholderType::DateTime => true,
                        _ => false,
                    };
                    let rv: Option<String> = if is_dt {
                        datetime_value(ph)
                    } else {
                        resolve_placeholder(ph, ev)
                    };
                    match rv {
                        Some(v) => {
                            emit(&mut buf, ph, &v);
                            proof {
                                dv = if is_dt {
                                    Some(v@)
                                } else {
                                    None
                                };
                                assert(items@[i as int]@ == self@[i as int]);
                                assert(buf@ =~= pre + spec_item_out(self@[i as int], ev@, dv));
                            }
                        },
                        None => {
                            proof {
                                dv = None;
                                assert(items@[i as int]@ == self@[i as int]);
                                assert(buf@ =~= pre + spec_item_out(self@[i as int], ev@, dv));
                            }
                        },
                    }
                },
            }
            proof {
                lemma_upto_push(self@, ev@, dts, dv, i as int);
                let ghost old_dts = dts;
                dts = dts.push(dv);
                assert(spec_dt_at(dts, i as int) == dv);
                assert(buf@ =~= spec_render_upto(self@, ev@, dts, i + 1 as int));
                assert(spec_dt_ok(self@[i as int], dv));
                assert(forall|j: int| 0 <= j < i ==> spec_dt_at(dts, j) == spec_dt_at(old_dts, j));
            }
            i += 1;
        }
        proof {
            assert(spec_render_upto(self@, ev@, dts, n as int) == spec_render(self@, ev@, dts));
            if !spec_has_datetime(self@) {
                lemma_render_without_datetime(
                    self@,
                    ev@,
                    dts,
                    Seq::<Option<Seq<char>>>::empty(),
                );
            }
        }
        buf
    }
}

} // verus!
