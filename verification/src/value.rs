use vstd::prelude::*;

verus! {

/// A half-open range of character positions in the input line, used to point
/// error messages and provenance at the place they concern.
#[derive(Clone, Copy, PartialEq, Eq, Structural, Debug)]
pub struct Span {
    pub start: usize,
    pub end: usize,
}

impl Span {
    pub fn new(start: usize, end: usize) -> (s: Span)
        ensures
            s.start == start,
            s.end == end,
    {
        Span { start, end }
    }

    pub open spec fn unknown_spec() -> Span {
        Span { start: 0, end: 0 }
    }

    /// The span used where no position in the line applies.
    pub fn unknown() -> (s: Span)
        ensures
            s == Span::unknown_spec(),
    {
        Span { start: 0, end: 0 }
    }
}

/// Provenance carried by every value: the span of the line it originated
/// from and, optionally, the path of the file it was read from.
#[derive(Debug, PartialEq, Eq)]
pub struct Tag {
    pub span: Span,
    pub anchor: Option<String>,
}

impl Tag {
    pub fn from_span(span: Span) -> (t: Tag)
        ensures
            t.span == span,
            t.anchor is None,
    {
        Tag { span, anchor: None }
    }

    pub fn anchored(span: Span, path: String) -> (t: Tag)
        ensures
            t.span == span,
            t.anchor matches Some(a) && a@ == path@,
    {
        Tag { span, anchor: Some(path) }
    }
}

/// A piece of data together with the provenance of the token it came from.
#[derive(Debug, PartialEq, Eq)]
pub struct Tagged<T: PartialEq + Eq> {
    pub item: T,
    pub tag: Tag,
}

impl<T: PartialEq + Eq> Tagged<T> {
    pub fn new(item: T, tag: Tag) -> (r: Tagged<T>)
        ensures
            r.item == item,
            r.tag == tag,
    {
        Tagged { item, tag }
    }
}

/// The payload of a runtime value: the tagged union that every pipeline
/// stage consumes and produces. The discriminant is explicit; whether a
/// value is text or a binary blob is never inferred from its content.
#[derive(Debug, PartialEq, Eq)]
pub enum UntaggedValue {
    Str(String),
    Binary(Vec<u8>),
    Bool(bool),
    Table(Vec<Value>),
    Row(Vec<(String, Value)>),
    Nothing,
}

/// A payload together with its provenance. Values are immutable once
/// constructed: a stage that changes a value builds a new one.
#[derive(Debug, PartialEq, Eq)]
pub struct Value {
    pub value: UntaggedValue,
    pub tag: Tag,
}

impl UntaggedValue {
    pub fn string(s: String) -> (r: UntaggedValue)
        ensures
            r == UntaggedValue::Str(s),
    {
        UntaggedValue::Str(s)
    }

    pub fn binary(b: Vec<u8>) -> (r: UntaggedValue)
        ensures
            r == UntaggedValue::Binary(b),
    {
        UntaggedValue::Binary(b)
    }

    pub fn boolean(b: bool) -> (r: UntaggedValue)
        ensures
            r == UntaggedValue::Bool(b),
    {
        UntaggedValue::Bool(b)
    }

    pub fn table(rows: Vec<Value>) -> (r: UntaggedValue)
        ensures
            r == UntaggedValue::Table(rows),
    {
        UntaggedValue::Table(rows)
    }

    pub fn row(columns: Vec<(String, Value)>) -> (r: UntaggedValue)
        ensures
            r == UntaggedValue::Row(columns),
    {
        UntaggedValue::Row(columns)
    }

    pub fn nothing() -> (r: UntaggedValue)
        ensures
            r == UntaggedValue::Nothing,
    {
        UntaggedValue::Nothing
    }

    pub fn into_value(self, tag: Tag) -> (r: Value)
        ensures
            r.value == self,
            r.tag == tag,
    {
        Value { value: self, tag }
    }
}

/// A request a command hands back to the evaluator instead of a plain
/// value: chain the named format conversion onto the given value.
#[derive(Debug)]
pub enum CommandAction {
    AutoConvert(Value, String),
}

/// One element of a stage's output stream: a value, or an action for the
/// evaluator.
#[derive(Debug)]
pub enum ReturnValue {
    Val(Value),
    Action(CommandAction),
}

} // verus!
