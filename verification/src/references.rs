//! The index streams that accompany collections of references, the payload
//! of a weak reference, and the table of referenced properties.

use crate::bytes::{copy_range, le_u16, le_u32, u16_at, u32_at};
use crate::error::{view_result, views, AafError, ErrorView};
use crate::properties::BYTE_ORDER_MARK;
use crate::text::{member_path, spec_member_path};
use crate::types::{OMByteOrder, OMKeySize, OMPropertyCount, OMPropertyId, OMPropertyTag};
use vstd::prelude::*;

verus! {

broadcast use vstd::slice::group_slice_axioms;

/// The index of an ordered collection of owned objects: the local keys of
/// its members in their order, and the bookkeeping of free keys.
#[derive(Debug, Clone, PartialEq, Eq)]
pub struct StrongVectorReferenceIndex {
    pub entry_count: u32,
    pub first_free_key: u32,
    pub last_free_key: u32,
    pub local_keys: Vec<u32>,
}

/// The mathematical value of a [`StrongVectorReferenceIndex`].
pub struct VectorIndexView {
    pub entry_count: u32,
    pub first_free_key: u32,
    pub last_free_key: u32,
    pub local_keys: Seq<u32>,
}

impl VectorIndexView {
    /// Whether the index holds as many keys as it declares entries.
    pub open spec fn wf(self) -> bool {
        self.local_keys.len() == self.entry_count
    }
}

impl View for StrongVectorReferenceIndex {
    type V = VectorIndexView;

    open spec fn view(&self) -> VectorIndexView {
        VectorIndexView {
            entry_count: self.entry_count,
            first_free_key: self.first_free_key,
            last_free_key: self.last_free_key,
            local_keys: self.local_keys@,
        }
    }
}

/// Whether `data` is the index of an ordered collection: three 32-bit
/// numbers, then as many 32-bit local keys as the first of them says.
pub open spec fn well_formed_vector_index(data: Seq<u8>) -> bool {
    data.len() >= 12 && 12 + 4 * le_u32(data, 0) <= data.len()
}

/// What decoding the index of an ordered collection gives.
pub open spec fn spec_decode_vector_index(data: Seq<u8>) -> Result<VectorIndexView, ErrorView> {
    if well_formed_vector_index(data) {
        Ok(
            VectorIndexView {
                entry_count: le_u32(data, 0) as u32,
                first_free_key: le_u32(data, 4) as u32,
                last_free_key: le_u32(data, 8) as u32,
                local_keys: Seq::new(le_u32(data, 0) as nat, |i: int| le_u32(data, 12 + 4 * i) as u32),
            },
        )
    } else {
        Err(ErrorView::FormatError)
    }
}

/// The storage paths of the members with the given local keys, in the order
/// of the keys.
pub open spec fn spec_member_paths(parent: Seq<char>, name: Seq<char>, keys: Seq<u32>) -> Seq<
    Seq<char>,
> {
    Seq::new(keys.len(), |i: int| spec_member_path(parent, name, keys[i]))
}

/// The storage paths of the members with the given local keys.
pub fn paths_of_keys(keys: &Vec<u32>, property_name: &str, parent_path: &str) -> (paths: Vec<String>)
    ensures
        views(paths@) == spec_member_paths(parent_path@, property_name@, keys@),
{
    let mut paths: Vec<String> = Vec::new();
    let mut i: usize = 0;
    while i < keys.len()
        invariant
            i <= keys.len(),
            paths@.len() == i,
            forall|j: int|
                0 <= j < i ==> (#[trigger] paths@[j])@ == spec_member_path(
                    parent_path@,
                    property_name@,
                    keys@[j],
                ),
        decreases keys.len() - i,
    {
        paths.push(member_path(parent_path, property_name, keys[i]));
        i = i + 1;
    }
    assert(views(paths@) =~= spec_member_paths(parent_path@, property_name@, keys@));
    paths
}

impl StrongVectorReferenceIndex {
    /// Decodes the index stream of an ordered collection. Bytes behind the
    /// last key are ignored.
    pub fn from_istream(data: &[u8]) -> (r: Result<StrongVectorReferenceIndex, AafError>)
        ensures
            view_result(r) == spec_decode_vector_index(data@),
            r matches Ok(index) ==> index@.wf(),
    {
        let n = data.len();
        if n < 12 {
            return Err(AafError::FormatError);
        }
        let entry_count = u32_at(data, 0);
        let first_free_key = u32_at(data, 4);
        let last_free_key = u32_at(data, 8);
        let needed: u64 = 12 + 4 * (entry_count as u64);
        if needed > n as u64 {
            return Err(AafError::FormatError);
        }
        let count: usize = entry_count as usize;
        let mut local_keys: Vec<u32> = Vec::new();
        let mut i: usize = 0;
        while i < count
            invariant
                i <= count,
                n == data@.len(),
                12 + 4 * count <= n,
                local_keys@.len() == i,
                forall|j: int|
                    0 <= j < i ==> #[trigger] local_keys@[j] == le_u32(data@, 12 + 4 * j) as u32,
            decreases count - i,
        {
            local_keys.push(u32_at(data, 12 + 4 * i));
            i = i + 1;
        }
        let index = StrongVectorReferenceIndex {
            entry_count,
            first_free_key,
            last_free_key,
            local_keys,
        };
        assert(index@.local_keys =~= spec_decode_vector_index(data@)->Ok_0.local_keys);
        Ok(index)
    }

    /// The storage paths of the members, in the order of the index. The
    /// collection is the property called `property_name` of the object
    /// stored at `parent_path`.
    pub fn member_paths(&self, property_name: &str, parent_path: &str) -> (paths: Vec<String>)
        ensures
            views(paths@) == spec_member_paths(parent_path@, property_name@, self@.local_keys),
            paths@.len() == self@.local_keys.len(),
            self@.wf() ==> paths@.len() == self.entry_count,
    {
        let paths = paths_of_keys(&self.local_keys, property_name, parent_path);
        assert(views(paths@).len() == paths@.len());
        paths
    }
}

/// An ordered collection has one member path for each entry that its index
/// declares, and the paths follow the keys in the order in which the index
/// stores them.
pub proof fn lemma_vector_member_paths(data: Seq<u8>, name: Seq<char>, parent: Seq<char>)
    requires
        well_formed_vector_index(data),
    ensures
        spec_decode_vector_index(data) is Ok,
        spec_member_paths(parent, name, spec_decode_vector_index(data)->Ok_0.local_keys).len()
            == spec_decode_vector_index(data)->Ok_0.entry_count,
        forall|i: int|
            0 <= i < le_u32(data, 0) ==> #[trigger] spec_member_paths(
                parent,
                name,
                spec_decode_vector_index(data)->Ok_0.local_keys,
            )[i] == spec_member_path(parent, name, le_u32(data, 12 + 4 * i) as u32),
{
}

/// One entry of the index of a set: the local key of a member, the number
/// of references to it, and the bytes that identify it.
#[derive(Debug, Clone, PartialEq, Eq)]
pub struct StrongSetReferenceIndexEntry {
    pub local_key: u32,
    pub reference_count: u32,
    pub identification: Vec<u8>,
}

/// The mathematical value of a [`StrongSetReferenceIndexEntry`].
pub struct SetEntryView {
    pub local_key: u32,
    pub reference_count: u32,
    pub identification: Seq<u8>,
}

impl View for StrongSetReferenceIndexEntry {
    type V = SetEntryView;

    open spec fn view(&self) -> SetEntryView {
        SetEntryView {
            local_key: self.local_key,
            reference_count: self.reference_count,
            identification: self.identification@,
        }
    }
}

/// The index of a set of owned objects: its entries in the order of the
/// stream, the property whose value identifies a member, and the width of
/// that value.
#[derive(Debug, Clone, PartialEq, Eq)]
pub struct StrongSetReferenceIndex {
    pub entry_count: u32,
    pub first_free_key: u32,
    pub last_free_key: u32,
    pub key_pid: OMPropertyId,
    pub key_size: OMKeySize,
    pub local_keys: Vec<StrongSetReferenceIndexEntry>,
}

/// The mathematical value of a [`StrongSetReferenceIndex`].
pub struct SetIndexView {
    pub entry_count: u32,
    pub first_free_key: u32,
    pub last_free_key: u32,
    pub key_pid: OMPropertyId,
    pub key_size: OMKeySize,
    pub local_keys: Seq<SetEntryView>,
}

impl View for StrongSetReferenceIndex {
    type V = SetIndexView;

    open spec fn view(&self) -> SetIndexView {
        SetIndexView {
            entry_count: self.entry_count,
            first_free_key: self.first_free_key,
            last_free_key: self.last_free_key,
            key_pid: self.key_pid,
            key_size: self.key_size,
            local_keys: views(self.local_keys@),
        }
    }
}

impl SetIndexView {
    /// Whether the index holds as many entries as it declares, each with an
    /// identification of the declared width.
    pub open spec fn wf(self) -> bool {
        &&& self.local_keys.len() == self.entry_count
        &&& forall|i: int|
            0 <= i < self.local_keys.len() ==> (#[trigger] self.local_keys[i]).identification.len()
                == self.key_size
    }

    /// The local keys of the entries, in the order of the entries.
    pub open spec fn keys(self) -> Seq<u32> {
        Seq::new(self.local_keys.len(), |i: int| self.local_keys[i].local_key)
    }
}

/// The offset of entry `i` in the index of a set.
pub open spec fn set_entry_at(data: Seq<u8>, i: int) -> int {
    15 + i * (8 + data[14] as int)
}

/// Whether `data` is the index of a set: three 32-bit numbers, the 16-bit
/// identifier of the key property and the width of a key in one byte, then
/// as many entries as the first number says, each made of two 32-bit numbers
/// and a key of that width.
pub open spec fn well_formed_set_index(data: Seq<u8>) -> bool {
    data.len() >= 15 && set_entry_at(data, le_u32(data, 0)) <= data.len()
}

/// Entry `i` of the index of a set.
pub open spec fn set_entry(data: Seq<u8>, i: int) -> SetEntryView {
    SetEntryView {
        local_key: le_u32(data, set_entry_at(data, i)) as u32,
        reference_count: le_u32(data, set_entry_at(data, i) + 4) as u32,
        identification: data.subrange(set_entry_at(data, i) + 8, set_entry_at(data, i + 1)),
    }
}

/// What decoding the index of a set gives.
pub open spec fn spec_decode_set_index(data: Seq<u8>) -> Result<SetIndexView, ErrorView> {
    if well_formed_set_index(data) {
        Ok(
            SetIndexView {
                entry_count: le_u32(data, 0) as u32,
                first_free_key: le_u32(data, 4) as u32,
                last_free_key: le_u32(data, 8) as u32,
                key_pid: le_u16(data, 12) as u16,
                key_size: data[14],
                local_keys: Seq::new(le_u32(data, 0) as nat, |i: int| set_entry(data, i)),
            },
        )
    } else {
        Err(ErrorView::FormatError)
    }
}

/// Entries lie behind one another, each `8 + width` bytes long.
proof fn lemma_set_entry_step(data: Seq<u8>, i: int, count: int)
    requires
        0 <= i < count,
    ensures
        set_entry_at(data, i + 1) == set_entry_at(data, i) + 8 + data[14] as int,
        set_entry_at(data, i + 1) <= set_entry_at(data, count),
        15 <= set_entry_at(data, i),
{
    let w = 8 + data[14] as int;
    assert((i + 1) * w == i * w + w) by (nonlinear_arith);
    assert((i + 1) * w <= count * w) by (nonlinear_arith)
        requires
            i + 1 <= count,
            w >= 0,
    ;
    assert(0 <= i * w) by (nonlinear_arith)
        requires
            0 <= i,
            w >= 0,
    ;
}

impl StrongSetReferenceIndex {
    /// Decodes the index stream of a set. Bytes behind the last entry are
    /// ignored.
    pub fn from_istream(data: &[u8]) -> (r: Result<StrongSetReferenceIndex, AafError>)
        ensures
            view_result(r) == spec_decode_set_index(data@),
            r matches Ok(index) ==> index@.wf(),
    {
        proof {
            if well_formed_set_index(data@) {
                lemma_set_identification_width(data@);
            }
        }
        let n = data.len();
        if n < 15 {
            return Err(AafError::FormatError);
        }
        let entry_count = u32_at(data, 0);
        let first_free_key = u32_at(data, 4);
        let last_free_key = u32_at(data, 8);
        let key_pid = u16_at(data, 12);
        let key_size = data[14];
        let width: u64 = 8 + key_size as u64;
        assert((entry_count as u64) * width <= 0xffff_ffff * 263) by (nonlinear_arith)
            requires
                entry_count <= 0xffff_ffff,
                width <= 263,
        ;
        let needed: u64 = 15 + (entry_count as u64) * width;
        if needed > n as u64 {
            return Err(AafError::FormatError);
        }
        let count: usize = entry_count as usize;
        let step: usize = 8 + key_size as usize;
        let mut local_keys: Vec<StrongSetReferenceIndexEntry> = Vec::new();
        let mut offset: usize = 15;
        let mut i: usize = 0;
        while i < count
            invariant
                i <= count,
                n == data@.len(),
                n >= 15,
                count == le_u32(data@, 0),
                step == 8 + data@[14] as int,
                key_size == data@[14],
                set_entry_at(data@, count as int) <= n,
                offset == set_entry_at(data@, i as int),
                offset <= n,
                local_keys@.len() == i,
                forall|j: int| 0 <= j < i ==> (#[trigger] local_keys@[j])@ == set_entry(data@, j),
            decreases count - i,
        {
            proof {
                lemma_set_entry_step(data@, i as int, count as int);
            }
            let local_key = u32_at(data, offset);
            let reference_count = u32_at(data, offset + 4);
            let identification = copy_range(data, offset + 8, offset + step);
            local_keys.push(
                StrongSetReferenceIndexEntry { local_key, reference_count, identification },
            );
            offset = offset + step;
            i = i + 1;
        }
        let index = StrongSetReferenceIndex {
            entry_count,
            first_free_key,
            last_free_key,
            key_pid,
            key_size,
            local_keys,
        };
        assert(index@.local_keys =~= spec_decode_set_index(data@)->Ok_0.local_keys);
        Ok(index)
    }

    /// The local keys of the entries, in the order of the index.
    pub fn keys(&self) -> (keys: Vec<u32>)
        ensures
            keys@ == self@.keys(),
    {
        let mut keys: Vec<u32> = Vec::new();
        let mut i: usize = 0;
        while i < self.local_keys.len()
            invariant
                i <= self.local_keys.len(),
                keys@.len() == i,
                forall|j: int| 0 <= j < i ==> #[trigger] keys@[j] == self.local_keys@[j].local_key,
            decreases self.local_keys.len() - i,
        {
            keys.push(self.local_keys[i].local_key);
            i = i + 1;
        }
        assert(keys@ =~= self@.keys());
        keys
    }

    /// The storage paths of the members, in the order of the index. The set
    /// is the property called `property_name` of the object stored at
    /// `parent_path`.
    pub fn member_paths(&self, property_name: &str, parent_path: &str) -> (paths: Vec<String>)
        ensures
            views(paths@) == spec_member_paths(parent_path@, property_name@, self@.keys()),
            paths@.len() == self@.local_keys.len(),
            self@.wf() ==> paths@.len() == self.entry_count,
    {
        let keys = self.keys();
        let paths = paths_of_keys(&keys, property_name, parent_path);
        assert(views(paths@).len() == paths@.len());
        paths
    }
}

/// Every entry of a decoded set index identifies its member by exactly as
/// many bytes as the index declares for a key, and there are as many entries
/// as the index declares.
pub proof fn lemma_set_identification_width(data: Seq<u8>)
    requires
        well_formed_set_index(data),
    ensures
        spec_decode_set_index(data) is Ok,
        spec_decode_set_index(data)->Ok_0.wf(),
        spec_decode_set_index(data)->Ok_0.local_keys.len() == spec_decode_set_index(
            data,
        )->Ok_0.entry_count,
        forall|i: int|
            0 <= i < spec_decode_set_index(data)->Ok_0.local_keys.len() ==> (
            #[trigger] spec_decode_set_index(data)->Ok_0.local_keys[i]).identification.len()
                == spec_decode_set_index(data)->Ok_0.key_size,
{
    let index = spec_decode_set_index(data)->Ok_0;
    assert forall|i: int| 0 <= i < index.local_keys.len() implies (
    #[trigger] index.local_keys[i]).identification.len() == index.key_size by {
        lemma_set_entry_step(data, i, le_u32(data, 0));
    }
}

/// A reference to an object by what identifies it: the tag of a path in the
/// table of referenced properties, which leads to a set, and the value that
/// the key property has on the member that is meant.
#[derive(Debug, Clone, PartialEq, Eq)]
pub struct WeakObjectReference {
    pub tag: OMPropertyTag,
    pub key_pid: OMPropertyId,
    pub key_size: OMKeySize,
    pub identification: Vec<u8>,
}

/// The mathematical value of a [`WeakObjectReference`].
pub struct WeakReferenceView {
    pub tag: OMPropertyTag,
    pub key_pid: OMPropertyId,
    pub key_size: OMKeySize,
    pub identification: Seq<u8>,
}

impl WeakReferenceView {
    /// Whether the identification is as wide as the reference declares.
    pub open spec fn wf(self) -> bool {
        self.identification.len() == self.key_size
    }
}

impl View for WeakObjectReference {
    type V = WeakReferenceView;

    open spec fn view(&self) -> WeakReferenceView {
        WeakReferenceView {
            tag: self.tag,
            key_pid: self.key_pid,
            key_size: self.key_size,
            identification: self.identification@,
        }
    }
}

/// Whether `data` is the payload of a weak reference: a 16-bit tag, the
/// 16-bit identifier of the key property, the width of the key in one byte,
/// and a key of that width.
pub open spec fn well_formed_weak_reference(data: Seq<u8>) -> bool {
    data.len() >= 5 && 5 + data[4] as int <= data.len()
}

/// What decoding the payload of a weak reference gives.
pub open spec fn spec_decode_weak_reference(data: Seq<u8>) -> Result<WeakReferenceView, ErrorView> {
    if well_formed_weak_reference(data) {
        Ok(
            WeakReferenceView {
                tag: le_u16(data, 0) as u16,
                key_pid: le_u16(data, 2) as u16,
                key_size: data[4],
                identification: data.subrange(5, 5 + data[4] as int),
            },
        )
    } else {
        Err(ErrorView::FormatError)
    }
}

impl WeakObjectReference {
    /// Decodes the payload of a property that is stored as a weak
    /// reference.
    pub fn from_data(data: &[u8]) -> (r: Result<WeakObjectReference, AafError>)
        ensures
            view_result(r) == spec_decode_weak_reference(data@),
            r matches Ok(reference) ==> reference@.wf(),
    {
        WeakObjectReference::from_istream(data)
    }

    /// Decodes a weak reference from the start of a stream. Bytes behind
    /// the key are ignored.
    pub fn from_istream(data: &[u8]) -> (r: Result<WeakObjectReference, AafError>)
        ensures
            view_result(r) == spec_decode_weak_reference(data@),
            r matches Ok(reference) ==> reference@.wf(),
    {
        let n = data.len();
        if n < 5 {
            return Err(AafError::FormatError);
        }
        let tag = u16_at(data, 0);
        let key_pid = u16_at(data, 2);
        let key_size = data[4];
        if key_size as usize > n - 5 {
            return Err(AafError::FormatError);
        }
        let identification = copy_range(data, 5, 5 + key_size as usize);
        Ok(WeakObjectReference { tag, key_pid, key_size, identification })
    }
}

/// A collection of weak references that share a tag and a key property.
#[derive(Debug, Clone, PartialEq, Eq)]
pub struct WeakCollectionReference {
    pub entry_count: u32,
    pub tag: OMPropertyTag,
    pub key_pid: OMPropertyId,
    pub key_size: OMKeySize,
    pub identification_list: Vec<Vec<u8>>,
}

/// The mathematical value of a [`WeakCollectionReference`].
pub struct WeakCollectionView {
    pub entry_count: u32,
    pub tag: OMPropertyTag,
    pub key_pid: OMPropertyId,
    pub key_size: OMKeySize,
    pub identification_list: Seq<Seq<u8>>,
}

impl View for WeakCollectionReference {
    type V = WeakCollectionView;

    open spec fn view(&self) -> WeakCollectionView {
        WeakCollectionView {
            entry_count: self.entry_count,
            tag: self.tag,
            key_pid: self.key_pid,
            key_size: self.key_size,
            identification_list: views(self.identification_list@),
        }
    }
}

impl WeakCollectionView {
    /// Whether the collection holds as many identifications as it declares
    /// entries, each of the declared width.
    pub open spec fn wf(self) -> bool {
        &&& self.identification_list.len() == self.entry_count
        &&& forall|i: int|
            0 <= i < self.identification_list.len() ==> (
            #[trigger] self.identification_list[i]).len() == self.key_size
    }

    /// The references of the collection, one for each key, in order.
    pub open spec fn references(self) -> Seq<WeakReferenceView> {
        Seq::new(
            self.identification_list.len(),
            |i: int|
                WeakReferenceView {
                    tag: self.tag,
                    key_pid: self.key_pid,
                    key_size: self.key_size,
                    identification: self.identification_list[i],
                },
        )
    }
}

/// The offset of key `i` in the index of a collection of weak references.
pub open spec fn weak_key_at(data: Seq<u8>, i: int) -> int {
    9 + i * (data[8] as int)
}

/// Whether `data` is the index of a collection of weak references: a 32-bit
/// count, a 16-bit tag, the 16-bit identifier of the key property and the
/// width of a key in one byte, then as many keys of that width as the count
/// says.
pub open spec fn well_formed_weak_collection(data: Seq<u8>) -> bool {
    data.len() >= 9 && weak_key_at(data, le_u32(data, 0)) <= data.len()
}

/// What decoding the index of a collection of weak references gives.
pub open spec fn spec_decode_weak_collection(data: Seq<u8>) -> Result<
    WeakCollectionView,
    ErrorView,
> {
    if well_formed_weak_collection(data) {
        Ok(
            WeakCollectionView {
                entry_count: le_u32(data, 0) as u32,
                tag: le_u16(data, 4) as u16,
                key_pid: le_u16(data, 6) as u16,
                key_size: data[8],
                identification_list: Seq::new(
                    le_u32(data, 0) as nat,
                    |i: int| data.subrange(weak_key_at(data, i), weak_key_at(data, i + 1)),
                ),
            },
        )
    } else {
        Err(ErrorView::FormatError)
    }
}

/// Keys lie behind one another, each as wide as the index declares.
proof fn lemma_weak_key_step(data: Seq<u8>, i: int, count: int)
    requires
        0 <= i < count,
    ensures
        weak_key_at(data, i + 1) == weak_key_at(data, i) + data[8] as int,
        weak_key_at(data, i + 1) <= weak_key_at(data, count),
        9 <= weak_key_at(data, i),
{
    let w = data[8] as int;
    assert((i + 1) * w == i * w + w) by (nonlinear_arith);
    assert((i + 1) * w <= count * w) by (nonlinear_arith)
        requires
            i + 1 <= count,
            w >= 0,
    ;
    assert(0 <= i * w) by (nonlinear_arith)
        requires
            0 <= i,
            w >= 0,
    ;
}

/// Every identification of a decoded collection of weak references is as
/// wide as the collection declares, and there are as many as it declares.
pub proof fn lemma_weak_identification_width(data: Seq<u8>)
    requires
        well_formed_weak_collection(data),
    ensures
        spec_decode_weak_collection(data) is Ok,
        spec_decode_weak_collection(data)->Ok_0.wf(),
{
    let collection = spec_decode_weak_collection(data)->Ok_0;
    assert forall|i: int| 0 <= i < collection.identification_list.len() implies (
    #[trigger] collection.identification_list[i]).len() == collection.key_size by {
        lemma_weak_key_step(data, i, le_u32(data, 0));
    }
}

impl WeakCollectionReference {
    /// Decodes the index stream of a collection of weak references. Bytes
    /// behind the last key are ignored.
    pub fn from_istream(data: &[u8]) -> (r: Result<WeakCollectionReference, AafError>)
        ensures
            view_result(r) == spec_decode_weak_collection(data@),
            r matches Ok(collection) ==> collection@.wf(),
    {
        proof {
            if well_formed_weak_collection(data@) {
                lemma_weak_identification_width(data@);
            }
        }
        let n = data.len();
        if n < 9 {
            return Err(AafError::FormatError);
        }
        let entry_count = u32_at(data, 0);
        let tag = u16_at(data, 4);
        let key_pid = u16_at(data, 6);
        let key_size = data[8];
        assert((entry_count as u64) * (key_size as u64) <= 0xffff_ffff * 255) by (nonlinear_arith)
            requires
                entry_count <= 0xffff_ffff,
                key_size <= 255,
        ;
        let needed: u64 = 9 + (entry_count as u64) * (key_size as u64);
        if needed > n as u64 {
            return Err(AafError::FormatError);
        }
        let count: usize = entry_count as usize;
        let step: usize = key_size as usize;
        let mut identification_list: Vec<Vec<u8>> = Vec::new();
        let mut offset: usize = 9;
        let mut i: usize = 0;
        while i < count
            invariant
                i <= count,
                n == data@.len(),
                n >= 9,
                count == le_u32(data@, 0),
                step == data@[8] as int,
                weak_key_at(data@, count as int) <= n,
                offset == weak_key_at(data@, i as int),
                offset <= n,
                identification_list@.len() == i,
                forall|j: int|
                    0 <= j < i ==> (#[trigger] identification_list@[j])@ == data@.subrange(
                        weak_key_at(data@, j),
                        weak_key_at(data@, j + 1),
                    ),
            decreases count - i,
        {
            proof {
                lemma_weak_key_step(data@, i as int, count as int);
            }
            identification_list.push(copy_range(data, offset, offset + step));
            offset = offset + step;
            i = i + 1;
        }
        let collection = WeakCollectionReference {
            entry_count,
            tag,
            key_pid,
            key_size,
            identification_list,
        };
        assert(collection@.identification_list =~= spec_decode_weak_collection(
            data@,
        )->Ok_0.identification_list);
        Ok(collection)
    }

    /// The references of the collection, one for each key, in order.
    pub fn into_weak_references(self) -> (references: Vec<WeakObjectReference>)
        ensures
            views(references@) == self@.references(),
    {
        let mut references: Vec<WeakObjectReference> = Vec::new();
        let mut i: usize = 0;
        while i < self.identification_list.len()
            invariant
                i <= self.identification_list.len(),
                references@.len() == i,
                forall|j: int|
                    0 <= j < i ==> (#[trigger] references@[j])@ == self@.references()[j],
            decreases self.identification_list.len() - i,
        {
            references.push(
                WeakObjectReference {
                    tag: self.tag,
                    key_pid: self.key_pid,
                    key_size: self.key_size,
                    identification: self.identification_list[i].clone(),
                },
            );
            i = i + 1;
        }
        assert(views(references@) =~= self@.references());
        references
    }
}

/// The table of referenced properties of a container: for each tag, the
/// path of property identifiers that leads from the root object to the set
/// in which weak references with that tag find their targets.
#[derive(Debug, Clone, PartialEq, Eq)]
pub struct ReferencedPropertiesTable {
    pub byte_order: OMByteOrder,
    pub path_count: OMPropertyCount,
    pub pid_count: u32,
    pub pid_paths: Vec<Vec<OMPropertyId>>,
}

/// The mathematical value of a [`ReferencedPropertiesTable`].
pub struct PathTableView {
    pub byte_order: OMByteOrder,
    pub path_count: OMPropertyCount,
    pub pid_count: u32,
    pub pid_paths: Seq<Seq<OMPropertyId>>,
}

impl PathTableView {
    /// Whether the table holds as many paths as it declares, none of which
    /// holds the terminator.
    pub open spec fn wf(self) -> bool {
        &&& self.pid_paths.len() == self.path_count
        &&& forall|p: int, k: int|
            0 <= p < self.pid_paths.len() && 0 <= k < self.pid_paths[p].len()
                ==> #[trigger] self.pid_paths[p][k] != 0
    }
}

impl View for ReferencedPropertiesTable {
    type V = PathTableView;

    open spec fn view(&self) -> PathTableView {
        PathTableView {
            byte_order: self.byte_order,
            path_count: self.path_count,
            pid_count: self.pid_count,
            pid_paths: views(self.pid_paths@),
        }
    }
}

/// The path that is still open after the first `n` identifiers: those since
/// the last terminator, which is the identifier zero.
pub open spec fn open_path(pids: Seq<u16>, n: int) -> Seq<u16>
    decreases n,
{
    if n <= 0 || pids[n - 1] == 0 {
        Seq::empty()
    } else {
        open_path(pids, n - 1).push(pids[n - 1])
    }
}

/// The paths that the first `n` identifiers complete: each terminator
/// closes the path that was open before it.
pub open spec fn closed_paths(pids: Seq<u16>, n: int) -> Seq<Seq<u16>>
    decreases n,
{
    if n <= 0 {
        Seq::empty()
    } else if pids[n - 1] == 0 {
        closed_paths(pids, n - 1).push(open_path(pids, n - 1))
    } else {
        closed_paths(pids, n - 1)
    }
}

/// The paths, each followed by its terminator, joined in order.
pub open spec fn terminated(paths: Seq<Seq<u16>>) -> Seq<u16>
    decreases paths.len(),
{
    if paths.len() == 0 {
        Seq::empty()
    } else {
        terminated(paths.drop_last()) + paths.last() + seq![0u16]
    }
}

/// Splitting at the terminators loses nothing: the closed paths with their
/// terminators, followed by the open path, are the identifiers themselves;
/// and no path holds a terminator.
pub proof fn lemma_paths_partition(pids: Seq<u16>, n: int)
    requires
        0 <= n <= pids.len(),
    ensures
        terminated(closed_paths(pids, n)) + open_path(pids, n) == pids.take(n),
        forall|k: int| 0 <= k < open_path(pids, n).len() ==> open_path(pids, n)[k] != 0,
        forall|p: int, k: int|
            0 <= p < closed_paths(pids, n).len() && 0 <= k < closed_paths(pids, n)[p].len()
                ==> #[trigger] closed_paths(pids, n)[p][k] != 0,
    decreases n,
{
    if n > 0 {
        lemma_paths_partition(pids, n - 1);
        let before = closed_paths(pids, n - 1);
        let open = open_path(pids, n - 1);
        assert(pids.take(n) =~= pids.take(n - 1).push(pids[n - 1]));
        if pids[n - 1] == 0 {
            let now = closed_paths(pids, n);
            assert(now.drop_last() =~= before);
            assert(now.last() == open);
            assert(terminated(now) + open_path(pids, n) =~= (terminated(before) + open).push(0u16));
        } else {
            assert(terminated(before) + open_path(pids, n) =~= (terminated(before) + open).push(
                pids[n - 1],
            ));
        }
    } else {
        assert(terminated(closed_paths(pids, n)) + open_path(pids, n) =~= pids.take(n));
    }
}

/// The identifiers that a table of referenced properties stores.
pub open spec fn stored_pids(data: Seq<u8>) -> Seq<u16> {
    Seq::new(le_u32(data, 3) as nat, |i: int| le_u16(data, 7 + 2 * i) as u16)
}

/// Whether `data` is a table of referenced properties: the byte-order mark,
/// a 16-bit count of paths and a 32-bit count of identifiers, then that many
/// 16-bit identifiers, whose terminators close exactly as many paths as the
/// first count says.
pub open spec fn well_formed_path_table(data: Seq<u8>) -> bool {
    &&& data.len() >= 7
    &&& data[0] == BYTE_ORDER_MARK
    &&& 7 + 2 * le_u32(data, 3) <= data.len()
    &&& closed_paths(stored_pids(data), le_u32(data, 3)).len() == le_u16(data, 1)
}

/// What decoding a table of referenced properties gives. Identifiers behind
/// the last terminator belong to no path.
pub open spec fn spec_decode_path_table(data: Seq<u8>) -> Result<PathTableView, ErrorView> {
    if well_formed_path_table(data) {
        Ok(
            PathTableView {
                byte_order: data[0],
                path_count: le_u16(data, 1) as u16,
                pid_count: le_u32(data, 3) as u32,
                pid_paths: closed_paths(stored_pids(data), le_u32(data, 3)),
            },
        )
    } else {
        Err(ErrorView::FormatError)
    }
}

/// A stream that starts with another byte than the byte-order mark is no
/// table of referenced properties.
pub proof fn lemma_path_table_needs_byte_order_mark(data: Seq<u8>)
    requires
        data.len() >= 1,
        data[0] != BYTE_ORDER_MARK,
    ensures
        spec_decode_path_table(data) == Err::<PathTableView, _>(ErrorView::FormatError),
{
}

impl ReferencedPropertiesTable {
    /// Decodes the table of referenced properties.
    pub fn from_stream(data: &[u8]) -> (r: Result<ReferencedPropertiesTable, AafError>)
        ensures
            view_result(r) == spec_decode_path_table(data@),
            r matches Ok(table) ==> table@.wf(),
            data@.len() >= 1 && data@[0] != BYTE_ORDER_MARK ==> (r matches Err(e) && e@
                == ErrorView::FormatError),
    {
        proof {
            if well_formed_path_table(data@) {
                lemma_paths_partition(stored_pids(data@), le_u32(data@, 3));
            }
        }
        let n = data.len();
        if n < 7 || data[0] != BYTE_ORDER_MARK {
            return Err(AafError::FormatError);
        }
        let byte_order = data[0];
        let path_count = u16_at(data, 1);
        let pid_count = u32_at(data, 3);
        let needed: u64 = 7 + 2 * (pid_count as u64);
        if needed > n as u64 {
            return Err(AafError::FormatError);
        }
        let count: usize = pid_count as usize;
        let ghost pids = stored_pids(data@);
        let mut pid_paths: Vec<Vec<OMPropertyId>> = Vec::new();
        let mut this_path: Vec<OMPropertyId> = Vec::new();
        let mut i: usize = 0;
        while i < count
            invariant
                i <= count,
                n == data@.len(),
                count == le_u32(data@, 3),
                7 + 2 * count <= n,
                pids == stored_pids(data@),
                views(pid_paths@) == closed_paths(pids, i as int),
                this_path@ == open_path(pids, i as int),
            decreases count - i,
        {
            let this_pid = u16_at(data, 7 + 2 * i);
            assert(this_pid == pids[i as int]);
            if this_pid == 0 {
                let ghost before = pid_paths@;
                pid_paths.push(this_path);
                assert(views(pid_paths@) =~= views(before).push(open_path(pids, i as int)));
                this_path = Vec::new();
            } else {
                this_path.push(this_pid);
            }
            i = i + 1;
        }
        if pid_paths.len() != path_count as usize {
            assert(views(pid_paths@).len() == pid_paths@.len());
            return Err(AafError::FormatError);
        }
        assert(views(pid_paths@).len() == pid_paths@.len());
        Ok(ReferencedPropertiesTable { byte_order, path_count, pid_count, pid_paths })
    }
}

} // verus!
