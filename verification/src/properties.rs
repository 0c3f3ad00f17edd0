//! The property table of an object: its records, and the values that
//! properties resolve to.

use crate::bytes::{copy_range, le_u16, u16_at};
use crate::error::{views, AafError, ErrorView};
use crate::interchange_object::{InterchangeObjectDescriptor, ObjectView};
use crate::text::{decode_name, spec_decode_name};
use crate::types::{OMPropertyId, OMStoredForm};
use vstd::prelude::*;

verus! {

broadcast use vstd::slice::group_slice_axioms;

/// Stored form: the payload is the value itself.
pub const SF_DATA: OMStoredForm = 0x0082;

/// Stored form: the payload names a stream beside the property table.
pub const SF_DATA_STREAM: OMStoredForm = 0x0042;

/// Stored form: the payload names the storage of one owned object.
pub const SF_STRONG_OBJECT_REF: OMStoredForm = 0x0022;

/// Stored form: the payload names an ordered collection of owned objects.
pub const SF_STRONG_OBJECT_REF_VECTOR: OMStoredForm = 0x0032;

/// Stored form: the payload names an unordered collection of owned objects.
pub const SF_STRONG_OBJECT_REF_SET: OMStoredForm = 0x003a;

/// Stored form: the payload is a weak reference to one object.
pub const SF_WEAK_OBJECT_REF: OMStoredForm = 0x0002;

/// Stored form: the payload names an ordered collection of weak references.
pub const SF_WEAK_OBJECT_REF_VECTOR: OMStoredForm = 0x0012;

/// Stored form: the payload names an unordered collection of weak
/// references.
pub const SF_WEAK_OBJECT_REF_SET: OMStoredForm = 0x001a;

/// The only byte-order mark that a stream may start with.
pub const BYTE_ORDER_MARK: u8 = 0x4c;

/// What a property resolves to.
#[derive(Debug, Clone, PartialEq, Eq)]
pub enum PropertyValue {
    /// The bytes of an inline value.
    Data(Box<Vec<u8>>),
    /// The path of a stream that holds the value.
    Stream(String),
    /// One owned object.
    Single(InterchangeObjectDescriptor),
    /// Owned objects, in the order of their index.
    Vector(Vec<InterchangeObjectDescriptor>),
    /// Owned objects of a set, in the order of their index.
    ObjectSet(Vec<InterchangeObjectDescriptor>),
    /// The target of a weak reference.
    Reference(InterchangeObjectDescriptor),
    /// The targets of an ordered collection of weak references.
    ReferenceVector(Vec<InterchangeObjectDescriptor>),
    /// The targets of an unordered collection of weak references, in the
    /// order of their index.
    ReferenceSet(Vec<InterchangeObjectDescriptor>),
}

/// The mathematical value of a [`PropertyValue`].
pub enum ValueView {
    Data(Seq<u8>),
    Stream(Seq<char>),
    Single(ObjectView),
    Vector(Seq<ObjectView>),
    ObjectSet(Seq<ObjectView>),
    Reference(ObjectView),
    ReferenceVector(Seq<ObjectView>),
    ReferenceSet(Seq<ObjectView>),
}

impl View for PropertyValue {
    type V = ValueView;

    open spec fn view(&self) -> ValueView {
        match self {
            PropertyValue::Data(bytes) => ValueView::Data(bytes@),
            PropertyValue::Stream(path) => ValueView::Stream(path@),
            PropertyValue::Single(object) => ValueView::Single(object@),
            PropertyValue::Vector(list) => ValueView::Vector(views(list@)),
            PropertyValue::ObjectSet(list) => ValueView::ObjectSet(views(list@)),
            PropertyValue::Reference(object) => ValueView::Reference(object@),
            PropertyValue::ReferenceVector(list) => ValueView::ReferenceVector(views(list@)),
            PropertyValue::ReferenceSet(list) => ValueView::ReferenceSet(views(list@)),
        }
    }
}

impl ValueView {
    /// The stored form that a value of this variant comes from.
    pub open spec fn stored_form(self) -> OMStoredForm {
        match self {
            ValueView::Data(_) => SF_DATA,
            ValueView::Stream(_) => SF_DATA_STREAM,
            ValueView::Single(_) => SF_STRONG_OBJECT_REF,
            ValueView::Vector(_) => SF_STRONG_OBJECT_REF_VECTOR,
            ValueView::ObjectSet(_) => SF_STRONG_OBJECT_REF_SET,
            ValueView::Reference(_) => SF_WEAK_OBJECT_REF,
            ValueView::ReferenceVector(_) => SF_WEAK_OBJECT_REF_VECTOR,
            ValueView::ReferenceSet(_) => SF_WEAK_OBJECT_REF_SET,
        }
    }
}

/// One record of a property table: the property's identifier, the form in
/// which its value is stored, and the stored bytes.
#[derive(Debug, Clone, PartialEq, Eq)]
pub struct RawProperty {
    pub pid: OMPropertyId,
    pub stored_form: OMStoredForm,
    pub raw_value: Box<Vec<u8>>,
}

/// The mathematical value of a [`RawProperty`].
pub struct RawPropertyView {
    pub pid: OMPropertyId,
    pub stored_form: OMStoredForm,
    pub raw_value: Seq<u8>,
}

impl View for RawProperty {
    type V = RawPropertyView;

    open spec fn view(&self) -> RawPropertyView {
        RawPropertyView {
            pid: self.pid,
            stored_form: self.stored_form,
            raw_value: self.raw_value@,
        }
    }
}

/// The number of records that a property table declares.
pub open spec fn declared_count(data: Seq<u8>) -> int {
    le_u16(data, 2)
}

/// The offset of the header of record `i`.
pub open spec fn header_at(i: int) -> int {
    4 + 6 * i
}

/// The size that the header of record `i` declares for its payload.
pub open spec fn declared_size(data: Seq<u8>, i: int) -> int {
    le_u16(data, header_at(i) + 4)
}

/// The offset of the payload of record `i`: the payloads follow the last
/// header, one behind the other in the order of their headers.
pub open spec fn payload_start(data: Seq<u8>, i: int) -> int
    decreases i,
{
    if i <= 0 {
        header_at(declared_count(data))
    } else {
        payload_start(data, i - 1) + declared_size(data, i - 1)
    }
}

/// Whether `data` is a property table: it starts with the byte-order mark,
/// a version byte and a count, and holds as many headers as the count says
/// and, behind them, every payload in the size that its header declares.
pub open spec fn well_formed_table(data: Seq<u8>) -> bool {
    &&& data.len() >= 4
    &&& data[0] == BYTE_ORDER_MARK
    &&& payload_start(data, declared_count(data)) <= data.len()
}

/// Record `i` of a property table.
pub open spec fn table_record(data: Seq<u8>, i: int) -> RawPropertyView {
    RawPropertyView {
        pid: le_u16(data, header_at(i)) as u16,
        stored_form: le_u16(data, header_at(i) + 2) as u16,
        raw_value: data.subrange(payload_start(data, i), payload_start(data, i + 1)),
    }
}

/// The records of a property table, in the order of their headers.
pub open spec fn table_records(data: Seq<u8>) -> Seq<RawPropertyView> {
    Seq::new(declared_count(data) as nat, |i: int| table_record(data, i))
}

/// What decoding a property table gives.
pub open spec fn spec_decode_table(data: Seq<u8>) -> Result<Seq<RawPropertyView>, ErrorView> {
    if well_formed_table(data) {
        Ok(table_records(data))
    } else {
        Err(ErrorView::FormatError)
    }
}

/// A stream that starts with another byte than the byte-order mark is no
/// property table.
pub proof fn lemma_table_needs_byte_order_mark(data: Seq<u8>)
    requires
        data.len() >= 1,
        data[0] != BYTE_ORDER_MARK,
    ensures
        spec_decode_table(data) == Err::<Seq<RawPropertyView>, _>(ErrorView::FormatError),
{
}

/// The payloads lie behind one another: a later one never starts before an
/// earlier one.
pub proof fn lemma_payload_start_monotonic(data: Seq<u8>, i: int, j: int)
    requires
        0 <= i <= j,
    ensures
        header_at(declared_count(data)) <= payload_start(data, i) <= payload_start(data, j),
    decreases j,
{
    if j > 0 {
        if i < j {
            lemma_payload_start_monotonic(data, i, j - 1);
        } else {
            lemma_payload_start_monotonic(data, i - 1, j - 1);
        }
    }
}

/// The payloads of the first `n` records, joined in order.
pub open spec fn joined_payloads(records: Seq<RawPropertyView>, n: int) -> Seq<u8>
    decreases n,
{
    if n <= 0 {
        Seq::empty()
    } else {
        joined_payloads(records, n - 1) + records[n - 1].raw_value
    }
}

/// Decoding loses no byte and invents none. Of a well-formed table there
/// are as many records as the count declares; each record holds exactly the
/// bytes of its payload, in the size that its header declares; and the
/// payloads of the records, joined in order, are the table's bytes from the
/// end of the headers to the end of the last payload.
pub proof fn lemma_table_round_trip(data: Seq<u8>)
    requires
        well_formed_table(data),
    ensures
        table_records(data).len() == declared_count(data),
        forall|i: int|
            0 <= i < declared_count(data) ==> (#[trigger] table_records(data)[i]).raw_value.len()
                == declared_size(data, i),
        forall|i: int|
            0 <= i < declared_count(data) ==> (#[trigger] table_records(data)[i]).raw_value
                == data.subrange(
                payload_start(data, i),
                payload_start(data, i) + declared_size(data, i),
            ),
        joined_payloads(table_records(data), declared_count(data)) == data.subrange(
            header_at(declared_count(data)),
            payload_start(data, declared_count(data)),
        ),
{
    let count = declared_count(data);
    assert forall|i: int| 0 <= i < count implies (#[trigger] table_records(data)[i]).raw_value.len()
        == declared_size(data, i) by {
        lemma_payload_start_monotonic(data, i + 1, count);
        lemma_payload_start_monotonic(data, 0, i);
    }
    lemma_joined_payloads(data, count);
}

/// The payloads of the first `n` records of a well-formed table, joined,
/// are the bytes from the end of the headers to the start of payload `n`.
proof fn lemma_joined_payloads(data: Seq<u8>, n: int)
    requires
        well_formed_table(data),
        0 <= n <= declared_count(data),
    ensures
        joined_payloads(table_records(data), n) == data.subrange(
            header_at(declared_count(data)),
            payload_start(data, n),
        ),
    decreases n,
{
    let first = header_at(declared_count(data));
    if n > 0 {
        lemma_joined_payloads(data, n - 1);
        lemma_payload_start_monotonic(data, 0, n - 1);
        lemma_payload_start_monotonic(data, n, declared_count(data));
        assert(data.subrange(first, payload_start(data, n - 1)) + data.subrange(
            payload_start(data, n - 1),
            payload_start(data, n),
        ) =~= data.subrange(first, payload_start(data, n)));
    } else {
        lemma_payload_start_monotonic(data, 0, declared_count(data));
        assert(data.subrange(first, first) =~= Seq::<u8>::empty());
    }
}

impl RawProperty {
    /// Decodes the property table of an object. The table must start with
    /// the byte-order mark; the version byte is not interpreted; bytes
    /// behind the last payload are ignored.
    pub fn from_properties_istream(data: &[u8]) -> (r: Result<Vec<RawProperty>, AafError>)
        ensures
            match r {
                Ok(records) => spec_decode_table(data@) == Ok::<_, ErrorView>(views(records@)),
                Err(e) => spec_decode_table(data@) == Err::<Seq<RawPropertyView>, _>(e@),
            },
            data@.len() >= 1 && data@[0] != BYTE_ORDER_MARK ==> (r matches Err(e) && e@
                == ErrorView::FormatError),
    {
        let n = data.len();
        if n < 4 || data[0] != BYTE_ORDER_MARK {
            return Err(AafError::FormatError);
        }
        let count: usize = u16_at(data, 2) as usize;
        let headers_end: usize = 4 + 6 * count;
        proof {
            lemma_payload_start_monotonic(data@, 0, count as int);
        }
        if headers_end > n {
            return Err(AafError::FormatError);
        }
        let mut records: Vec<RawProperty> = Vec::new();
        let mut offset: usize = headers_end;
        let mut i: usize = 0;
        while i < count
            invariant
                i <= count,
                count == declared_count(data@),
                n == data@.len(),
                n >= 4,
                data@[0] == BYTE_ORDER_MARK,
                header_at(count as int) <= n,
                offset == payload_start(data@, i as int),
                offset <= n,
                records@.len() == i,
                forall|j: int| 0 <= j < i ==> (#[trigger] records@[j])@ == table_record(data@, j),
            decreases count - i,
        {
            let header: usize = 4 + 6 * i;
            let pid = u16_at(data, header);
            let stored_form = u16_at(data, header + 2);
            let size: usize = u16_at(data, header + 4) as usize;
            if size > n - offset {
                proof {
                    lemma_payload_start_monotonic(data@, i as int + 1, count as int);
                }
                return Err(AafError::FormatError);
            }
            let raw_value = copy_range(data, offset, offset + size);
            records.push(RawProperty { pid, stored_form, raw_value: Box::new(raw_value) });
            offset = offset + size;
            i = i + 1;
        }
        assert(views(records@) =~= table_records(data@));
        Ok(records)
    }

    /// The name that the stored bytes hold, for the stored forms whose
    /// payload is a name.
    pub fn raw_string_value(&self) -> (r: Result<String, AafError>)
        ensures
            crate::error::view_result(r) == spec_decode_name(self@.raw_value),
    {
        decode_name(self.raw_value.as_slice())
    }
}

} // verus!
