//! The uniform response envelope: every public operation of the core
//! returns exactly one `ResponseModel`, carrying a status label, a
//! human-readable message, and a tagged data value.

use vstd::prelude::*;

verus! {

/// Status label carried by every response envelope.
#[derive(Clone, Copy, PartialEq, Eq, Structural, Debug)]
pub enum ResponseStatus {
    Success,
    Info,
    Warning,
    Error,
}

/// Mathematical shape of a [`DataValue`]: strings become character
/// sequences, arrays and objects become sequences of child shapes.
#[verifier::ext_equal]
pub ghost enum DataView {
    Str(Seq<char>),
    Number(u64),
    Bool(bool),
    Array(Seq<DataView>),
    Object(Seq<(Seq<char>, DataView)>),
}

/// Tagged union over the payload shapes an envelope can carry: a string,
/// an unsigned number, a boolean, an array of values, or an object of
/// named values. The explicit tags keep round-tripping unambiguous: a
/// string that looks like a number stays a string.
#[derive(PartialEq, Debug)]
pub enum DataValue {
    Str(String),
    Number(u64),
    Bool(bool),
    Array(Vec<DataValue>),
    Object(Vec<(String, DataValue)>),
}

/// Shape of one `DataValue`, defined mutually with the shapes of the
/// children of an array and of an object.
pub open spec fn data_view(d: DataValue) -> DataView
    decreases d, 2int,
{
    match d {
        DataValue::Str(s) => DataView::Str(s@),
        DataValue::Number(n) => DataView::Number(n),
        DataValue::Bool(b) => DataView::Bool(b),
        DataValue::Array(items) => DataView::Array(data_views(items@)),
        DataValue::Object(fields) => DataView::Object(field_views(fields@)),
    }
}

/// Shapes of an array's children, in order.
pub open spec fn data_views(s: Seq<DataValue>) -> Seq<DataView>
    decreases s, 1int,
{
    if s.len() == 0 {
        Seq::empty()
    } else {
        seq![data_view(s[0])] + data_views(s.subrange(1, s.len() as int))
    }
}

/// Shapes of an object's named children, in order.
pub open spec fn field_views(s: Seq<(String, DataValue)>) -> Seq<(Seq<char>, DataView)>
    decreases s, 1int,
{
    if s.len() == 0 {
        Seq::empty()
    } else {
        seq![(s[0].0@, data_view(s[0].1))] + field_views(s.subrange(1, s.len() as int))
    }
}

impl View for DataValue {
    type V = DataView;

    open spec fn view(&self) -> DataView {
        data_view(*self)
    }
}

/// An array's child shapes are exactly the element-wise shapes.
pub proof fn lemma_data_views_map(s: Seq<DataValue>)
    ensures
        data_views(s) == s.map_values(|d: DataValue| data_view(d)),
    decreases s.len(),
{
    if s.len() == 0 {
        assert(data_views(s) =~= s.map_values(|d: DataValue| data_view(d)));
    } else {
        lemma_data_views_map(s.subrange(1, s.len() as int));
        assert(data_views(s) =~= s.map_values(|d: DataValue| data_view(d)));
    }
}

/// An object's child shapes are exactly the field-wise shapes.
pub proof fn lemma_field_views_map(s: Seq<(String, DataValue)>)
    ensures
        field_views(s) == s.map_values(|p: (String, DataValue)| (p.0@, data_view(p.1))),
    decreases s.len(),
{
    if s.len() == 0 {
        assert(field_views(s) =~= s.map_values(|p: (String, DataValue)| (p.0@, data_view(p.1))));
    } else {
        lemma_field_views_map(s.subrange(1, s.len() as int));
        assert(field_views(s) =~= s.map_values(|p: (String, DataValue)| (p.0@, data_view(p.1))));
    }
}

/// The envelope itself: `{status, message, data}`.
#[derive(PartialEq, Debug)]
pub struct ResponseModel {
    pub status: ResponseStatus,
    pub message: String,
    pub data: DataValue,
}

impl ResponseModel {
    /// Envelope for an operation that fully succeeded.
    pub fn success(message: String, data: DataValue) -> (r: ResponseModel)
        ensures
            r.status == ResponseStatus::Success,
            r.message == message,
            r.data == data,
    {
        ResponseModel { status: ResponseStatus::Success, message, data }
    }

    /// Envelope for an operation that ran but could not apply every item.
    pub fn warning(message: String, data: DataValue) -> (r: ResponseModel)
        ensures
            r.status == ResponseStatus::Warning,
            r.message == message,
            r.data == data,
    {
        ResponseModel { status: ResponseStatus::Warning, message, data }
    }

    /// Envelope for an operation that could not run at all. The data slot
    /// carries an empty string, as no payload was produced.
    pub fn error(message: String) -> (r: ResponseModel)
        ensures
            r.status == ResponseStatus::Error,
            r.message == message,
            r.data@ matches DataView::Str(s) && s.len() == 0,
    {
        ResponseModel { status: ResponseStatus::Error, message, data: DataValue::Str(String::new()) }
    }

    /// Error envelope from a borrowed message, mirroring [`Self::error`].
    pub fn error_str(message: &str) -> (r: ResponseModel)
        ensures
            r.status == ResponseStatus::Error,
            r.message@ == message@,
            r.data@ matches DataView::Str(s) && s.len() == 0,
    {
        ResponseModel::error(message.to_owned())
    }
}

} // verus!
