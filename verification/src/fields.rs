//! The collector for one event's or span's recorded key/value data.

use vstd::prelude::*;
use crate::numfmt::{
    spec_idec, spec_udec, spec_bool_text, i64_to_string, i128_to_string, u64_to_string,
    u128_to_string, bool_to_string,
};
use crate::strutil::str_eq;

verus! {

/// One recorded value of a structured field.
///
/// A 64-bit float arrives already rendered as its decimal text, since the
/// collector itself never computes with it.
#[derive(Clone)]
pub enum EventValue {
    F64(String),
    I64(i64),
    U64(u64),
    I128(i128),
    U128(u128),
    Bool(bool),
    String(String),
}

/// The mathematical value of an [`EventValue`].
pub ghost enum EventValueView {
    F64(Seq<char>),
    I64(i64),
    U64(u64),
    I128(i128),
    U128(u128),
    Bool(bool),
    Str(Seq<char>),
}

impl View for EventValue {
    type V = EventValueView;

    open spec fn view(&self) -> EventValueView {
        match self {
            EventValue::F64(t) => EventValueView::F64(t@),
            EventValue::I64(v) => EventValueView::I64(*v),
            EventValue::U64(v) => EventValueView::U64(*v),
            EventValue::I128(v) => EventValueView::I128(*v),
            EventValue::U128(v) => EventValueView::U128(*v),
            EventValue::Bool(v) => EventValueView::Bool(*v),
            EventValue::String(s) => EventValueView::Str(s@),
        }
    }
}

/// The plain text of a value: decimal digits for numbers, `true`/`false`
/// for booleans, the characters themselves for text.
pub open spec fn spec_plain_text(v: EventValueView) -> Seq<char> {
    match v {
        EventValueView::F64(t) => t,
        EventValueView::I64(n) => spec_idec(n as int),
        EventValueView::U64(n) => spec_udec(n as nat),
        EventValueView::I128(n) => spec_idec(n as int),
        EventValueView::U128(n) => spec_udec(n as nat),
        EventValueView::Bool(b) => spec_bool_text(b),
        EventValueView::Str(s) => s,
    }
}

/// The text of a value inside a formatted field list: text values are
/// wrapped in backticks to tell them from numbers and booleans.
pub open spec fn spec_value_text(v: EventValueView) -> Seq<char> {
    match v {
        EventValueView::Str(s) => seq!['`'] + s + seq!['`'],
        _ => spec_plain_text(v),
    }
}

/// The mathematical value of a [`FieldsVisitor`]: the message slot, and the
/// recorded fields as an ordered association list from key to the ordered
/// list of that key's recorded values.
pub ghost struct FieldsView {
    pub message: Option<Seq<char>>,
    pub values: Seq<(Seq<char>, Seq<EventValueView>)>,
}

/// Accumulates the key/value data recorded by one event or one span.
///
/// The first field literally named `message` fills the message slot and
/// later `message` records are ignored; every other record appends to its
/// key's value list, keys kept in first-recording order.
#[derive(Clone)]
pub struct FieldsVisitor {
    message: Option<String>,
    values: Vec<(String, Vec<EventValue>)>,
}

/// Well-formedness of the collected fields: distinct keys, and no key
/// without at least one recorded value.
pub open spec fn spec_fields_wf(values: Seq<(Seq<char>, Seq<EventValueView>)>) -> bool {
    &&& forall|i: int, j: int| 0 <= i < j < values.len() ==> values[i].0 != values[j].0
    &&& forall|i: int| 0 <= i < values.len() ==> #[trigger] values[i].1.len() > 0
}

/// Recording a value under a key: the first entry with that key gains the
/// value at the end of its list; a new key gains a fresh entry at the end.
pub open spec fn spec_record(
    values: Seq<(Seq<char>, Seq<EventValueView>)>,
    key: Seq<char>,
    v: EventValueView,
) -> Seq<(Seq<char>, Seq<EventValueView>)>
    decreases values.len(),
{
    if values.len() == 0 {
        seq![(key, seq![v])]
    } else if values[0].0 == key {
        seq![(values[0].0, values[0].1.push(v))] + values.drop_first()
    } else {
        seq![values[0]] + spec_record(values.drop_first(), key, v)
    }
}

/// Recording a named value into the whole collector: the first `message`
/// fills the message slot with the value's plain text, later `message`
/// records are ignored and never reach the field list; any other name
/// goes to the field list.
pub open spec fn spec_record_field(
    fv: FieldsView,
    name: Seq<char>,
    v: EventValueView,
) -> FieldsView {
    if name == "message"@ {
        if fv.message is None {
            FieldsView { message: Some(spec_plain_text(v)), values: fv.values }
        } else {
            fv
        }
    } else {
        FieldsView { message: fv.message, values: spec_record(fv.values, name, v) }
    }
}

proof fn lemma_record_at(
    values: Seq<(Seq<char>, Seq<EventValueView>)>,
    key: Seq<char>,
    v: EventValueView,
    i: int,
)
    requires
        0 <= i < values.len(),
        values[i].0 == key,
        forall|j: int| 0 <= j < i ==> values[j].0 != key,
    ensures
        spec_record(values, key, v) == values.update(i, (values[i].0, values[i].1.push(v))),
    decreases i,
{
    if i == 0 {
        assert(spec_record(values, key, v) =~= values.update(
            0,
            (values[0].0, values[0].1.push(v)),
        ));
    } else {
        lemma_record_at(values.drop_first(), key, v, i - 1);
        assert(spec_record(values, key, v) =~= values.update(
            i,
            (values[i].0, values[i].1.push(v)),
        ));
    }
}

proof fn lemma_record_absent(
    values: Seq<(Seq<char>, Seq<EventValueView>)>,
    key: Seq<char>,
    v: EventValueView,
)
    requires
        forall|j: int| 0 <= j < values.len() ==> values[j].0 != key,
    ensures
        spec_record(values, key, v) == values.push((key, seq![v])),
    decreases values.len(),
{
    if values.len() == 0 {
        assert(spec_record(values, key, v) =~= values.push((key, seq![v])));
    } else {
        lemma_record_absent(values.drop_first(), key, v);
        assert(spec_record(values, key, v) =~= values.push((key, seq![v])));
    }
}

/// The message text a renderer shows: the collected message, or empty.
pub open spec fn spec_message_text(fv: FieldsView) -> Seq<char> {
    match fv.message {
        Some(m) => m,
        None => Seq::empty(),
    }
}

/// The text of one `key=value` entry: a single recorded value stands bare,
/// several stand bracketed as `key=[v1,v2,...]`.
pub open spec fn spec_entry_text(key: Seq<char>, vals: Seq<EventValueView>) -> Seq<char> {
    if vals.len() == 1 {
        key + "="@ + spec_value_text(vals[0])
    } else {
        key + "=["@ + spec_join_values(vals) + "]"@
    }
}

/// The comma-joined texts of a list of values.
pub open spec fn spec_join_values(vals: Seq<EventValueView>) -> Seq<char>
    decreases vals.len(),
{
    if vals.len() == 0 {
        Seq::empty()
    } else if vals.len() == 1 {
        spec_value_text(vals[0])
    } else {
        spec_join_values(vals.drop_last()) + seq![','] + spec_value_text(vals.last())
    }
}

/// The comma-joined `key=value` texts of all recorded fields, in
/// first-recording order of the keys.
pub open spec fn spec_format_values(values: Seq<(Seq<char>, Seq<EventValueView>)>) -> Seq<char>
    decreases values.len(),
{
    if values.len() == 0 {
        Seq::empty()
    } else if values.len() == 1 {
        spec_entry_text(values[0].0, values[0].1)
    } else {
        spec_format_values(values.drop_last()) + seq![','] + spec_entry_text(
            values.last().0,
            values.last().1,
        )
    }
}

fn plain_text(v: &EventValue) -> (r: String)
    ensures
        r@ == spec_plain_text(v@),
{
    match v {
        EventValue::F64(t) => t.clone(),
        EventValue::I64(n) => i64_to_string(*n),
        EventValue::U64(n) => u64_to_string(*n),
        EventValue::I128(n) => i128_to_string(*n),
        EventValue::U128(n) => u128_to_string(*n),
        EventValue::Bool(b) => bool_to_string(*b),
        EventValue::String(s) => s.clone(),
    }
}

fn value_text(v: &EventValue) -> (r: String)
    ensures
        r@ == spec_value_text(v@),
{
    match v {
        EventValue::String(s) => {
            let mut r = String::from_str("`");
            r.append(s.as_str());
            r.append("`");
            proof {
                reveal_strlit("`");
                assert(r@ =~= spec_value_text(v@));
            }
            r
        },
        _ => plain_text(v),
    }
}

impl EventValue {
    /// The value's plain text: decimal digits for a number, `true` or
    /// `false` for a boolean, the characters themselves for text.
    pub fn to_text(&self) -> (r: String)
        ensures
            r@ == spec_plain_text(self@),
    {
        plain_text(self)
    }
}

impl FieldsVisitor {
    /// A collector with no message and no recorded fields.
    pub fn new() -> (r: Self)
        ensures
            r@.message is None,
            r@.values == Seq::<(Seq<char>, Seq<EventValueView>)>::empty(),
            spec_fields_wf(r@.values),
    {
        let r = FieldsVisitor { message: None, values: Vec::new() };
        proof {
            assert(r@.values =~= Seq::<(Seq<char>, Seq<EventValueView>)>::empty());
        }
        r
    }

    /// The collected message, or the empty string where none was recorded.
    pub fn message(&self) -> (r: &str)
        ensures
            r@ == spec_message_text(self@),
    {
        match &self.message {
            Some(m) => m.as_str(),
            None => {
                proof {
                    reveal_strlit("");
                    assert(""@ =~= Seq::<char>::empty());
                }
                ""
            },
        }
    }

    /// Whether any field besides the message was recorded.
    pub fn has_values(&self) -> (r: bool)
        ensures
            r == (self@.values.len() != 0),
    {
        self.values.len() != 0
    }

    /// The comma-joined `key=value` list of every recorded field.
    pub fn format_values(&self) -> (r: String)
        requires
            spec_fields_wf(self@.values),
        ensures
            r@ == spec_format_values(self@.values),
    {
        let mut r = String::new();
        let n = self.values.len();
        let mut i: usize = 0;
        while i < n
            invariant
                i <= n,
                n == self.values@.len(),
                n == self@.values.len(),
                spec_fields_wf(self@.values),
                r@ == spec_format_values(self@.values.take(i as int)),
            decreases n - i,
        {
            if i > 0 {
                r.append(",");
            }
            let key = &self.values[i].0;
            let vals = &self.values[i].1;
            proof {
                reveal_strlit(",");
                assert(self@.values[i as int].0 == key@);
                assert(self@.values[i as int].1 =~= Seq::new(vals@.len(), |j: int| vals@[j]@));
                assert(self@.values[i as int].1.len() > 0);
            }
            let entry = Self::entry_text(key, vals);
            r.append(entry.as_str());
            proof {
                let whole = self@.values;
                let taken = whole.take(i + 1 as int);
                assert(taken.drop_last() =~= whole.take(i as int));
                assert(taken.last() == whole[i as int]);
                assert(r@ =~= spec_format_values(taken));
            }
            i += 1;
        }
        proof {
            assert(self@.values.take(n as int) =~= self@.values);
        }
        r
    }

    fn entry_text(key: &String, vals: &Vec<EventValue>) -> (r: String)
        requires
            vals@.len() > 0,
        ensures
            r@ == spec_entry_text(key@, Seq::new(vals@.len(), |j: int| vals@[j]@)),
    {
        let ghost vv = Seq::new(vals@.len(), |j: int| vals@[j]@);
        let mut r = key.clone();
        if vals.len() == 1 {
            r.append("=");
            let t = value_text(&vals[0]);
            r.append(t.as_str());
            proof {
                reveal_strlit("=");
                assert(r@ =~= spec_entry_text(key@, vv));
            }
        } else {
            r.append("=[");
            let n = vals.len();
            let mut i: usize = 0;
            while i < n
                invariant
                    i <= n,
                    n == vals@.len(),
                    vv == Seq::new(vals@.len(), |j: int| vals@[j]@),
                    r@ == key@ + "=["@ + spec_join_values(vv.take(i as int)),
                decreases n - i,
            {
                if i > 0 {
                    r.append(",");
                }
                let t = value_text(&vals[i]);
                r.append(t.as_str());
                proof {
                    reveal_strlit(",");
                    let taken = vv.take(i + 1 as int);
                    assert(taken.drop_last() =~= vv.take(i as int));
                    assert(taken.last() == vv[i as int]);
                    assert(r@ =~= key@ + "=["@ + spec_join_values(taken));
                }
                i += 1;
            }
            r.append("]");
            proof {
                reveal_strlit("=[");
                reveal_strlit("]");
                assert(vv.take(n as int) =~= vv);
                assert(r@ =~= spec_entry_text(key@, vv));
            }
        }
        r
    }

    fn record_value(&mut self, name: &str, value: EventValue)
        requires
            spec_fields_wf(old(self)@.values),
        ensures
            final(self)@ == spec_record_field(old(self)@, name@, value@),
            spec_fields_wf(final(self)@.values),
    {
        let is_msg = str_eq(name, "message");
        if is_msg {
            let no_msg = match &self.message {
                Some(_) => false,
                None => true,
            };
            if no_msg {
                let t = plain_text(&value);
                self.message = Some(t);
            }
        } else {
            let ghost ov = self@.values;
            let n = self.values.len();
            let mut i: usize = 0;
            let mut found = false;
            while i < n && !found
                invariant
                    i <= n,
                    n == self.values@.len(),
                    ov == self@.values,
                    forall|j: int| 0 <= j < i ==> ov[j].0 != name@,
                    found ==> i < n && ov[i as int].0 == name@,
                decreases n - i, (if found { 0int } else { 1int }),
            {
                if str_eq(self.values[i].0.as_str(), name) {
                    found = true;
                } else {
                    proof {
                        assert(ov[i as int].0 != name@);
                    }
                    i += 1;
                }
            }
            if found {
                let ghost vval = value@;
                let (k, mut list) = self.values.remove(i);
                list.push(value);
                self.values.insert(i, (k, list));
                proof {
                    assert(self@.values =~~= ov.update(
                        i as int,
                        (ov[i as int].0, ov[i as int].1.push(vval)),
                    ));
                    lemma_record_at(ov, name@, vval, i as int);
                }
            } else {
                let ghost vval = value@;
                let mut list: Vec<EventValue> = Vec::new();
                list.push(value);
                self.values.push((String::from_str(name), list));
                proof {
                    assert(self@.values =~~= ov.push((name@, seq![vval])));
                    lemma_record_absent(ov, name@, vval);
                }
            }
        }
    }

    /// Records a 64-bit float field, given as its decimal text.
    pub fn record_f64(&mut self, name: &str, text: String)
        requires
            spec_fields_wf(old(self)@.values),
        ensures
            final(self)@ == spec_record_field(old(self)@, name@, EventValueView::F64(text@)),
            spec_fields_wf(final(self)@.values),
    {
        self.record_value(name, EventValue::F64(text));
    }

    /// Records a signed 64-bit integer field.
    pub fn record_i64(&mut self, name: &str, value: i64)
        requires
            spec_fields_wf(old(self)@.values),
        ensures
            final(self)@ == spec_record_field(old(self)@, name@, EventValueView::I64(value)),
            spec_fields_wf(final(self)@.values),
    {
        self.record_value(name, EventValue::I64(value));
    }

    /// Records an unsigned 64-bit integer field.
    pub fn record_u64(&mut self, name: &str, value: u64)
        requires
            spec_fields_wf(old(self)@.values),
        ensures
            final(self)@ == spec_record_field(old(self)@, name@, EventValueView::U64(value)),
            spec_fields_wf(final(self)@.values),
    {
        self.record_value(name, EventValue::U64(value));
    }

    /// Records a signed 128-bit integer field.
    pub fn record_i128(&mut self, name: &str, value: i128)
        requires
            spec_fields_wf(old(self)@.values),
        ensures
            final(self)@ == spec_record_field(old(self)@, name@, EventValueView::I128(value)),
            spec_fields_wf(final(self)@.values),
    {
        self.record_value(name, EventValue::I128(value));
    }

    /// Records an unsigned 128-bit integer field.
    pub fn record_u128(&mut self, name: &str, value: u128)
        requires
            spec_fields_wf(old(self)@.values),
        ensures
            final(self)@ == spec_record_field(old(self)@, name@, EventValueView::U128(value)),
            spec_fields_wf(final(self)@.values),
    {
        self.record_value(name, EventValue::U128(value));
    }

    /// Records a boolean field.
    pub fn record_bool(&mut self, name: &str, value: bool)
        requires
            spec_fields_wf(old(self)@.values),
        ensures
            final(self)@ == spec_record_field(old(self)@, name@, EventValueView::Bool(value)),
            spec_fields_wf(final(self)@.values),
    {
        self.record_value(name, EventValue::Bool(value));
    }

    /// Records a text field. Values arriving through a debug- or
    /// error-style channel are recorded here, already rendered as text.
    pub fn record_str(&mut self, name: &str, value: &str)
        requires
            spec_fields_wf(old(self)@.values),
        ensures
            final(self)@ == spec_record_field(old(self)@, name@, EventValueView::Str(value@)),
            spec_fields_wf(final(self)@.values),
    {
        self.record_value(name, EventValue::String(String::from_str(value)));
    }
}

impl View for FieldsVisitor {
    type V = FieldsView;

    closed spec fn view(&self) -> FieldsView {
        FieldsView {
            message: match self.message {
                Some(m) => Some(m@),
                None => None,
            },
            values: Seq::new(
                self.values@.len(),
                |i: int|
                    (
                        self.values@[i].0@,
                        Seq::new(self.values@[i].1@.len(), |j: int| self.values@[i].1@[j]@),
                    ),
            ),
        }
    }
}

impl Default for FieldsVisitor {
    /// A collector with no message and no recorded fields.
    fn default() -> (r: Self)
        ensures
            r@.message is None,
            r@.values == Seq::<(Seq<char>, Seq<EventValueView>)>::empty(),
            spec_fields_wf(r@.values),
    {
        FieldsVisitor::new()
    }
}

} // verus!
