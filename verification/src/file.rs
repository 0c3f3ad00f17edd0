//! An open container, and the resolution of the properties of its objects.

use crate::error::{view_result, views, AafError, ErrorView};
use crate::interchange_object::{InterchangeObjectDescriptor, ObjectView};
use crate::model::{
    container_in, container_of, first_with_pid, object_at, properties_of, property_ids, property_of,
    referenced_paths, stream_at, FileView,
};
use crate::properties::{RawProperty, RawPropertyView};
use crate::references::ReferencedPropertiesTable;
use crate::storage::{
    find_entry, image_contents, open_image, read_stream, storage_entries, storage_streams,
};
use crate::text::join_path;
use crate::types::{OMPropertyId, OMPropertyTag};
use vstd::prelude::*;
use vstd::string::*;

verus! {

/// The views of the records that a result holds, or of its error.
pub open spec fn records_result(r: Result<Vec<RawProperty>, AafError>) -> Result<
    Seq<RawPropertyView>,
    ErrorView,
> {
    match r {
        Ok(records) => Ok(views(records@)),
        Err(e) => Err(e@),
    }
}

/// The views of the descriptors that a result holds, or of its error.
pub open spec fn objects_result(r: Result<Vec<InterchangeObjectDescriptor>, AafError>) -> Result<
    Seq<ObjectView>,
    ErrorView,
> {
    match r {
        Ok(objects) => Ok(views(objects@)),
        Err(e) => Err(e@),
    }
}

/// The view of the record that a result may hold, or of its error.
pub open spec fn record_result(r: Result<Option<RawProperty>, AafError>) -> Result<
    Option<RawPropertyView>,
    ErrorView,
> {
    match r {
        Ok(Some(record)) => Ok(Some(record@)),
        Ok(None) => Ok(None),
        Err(e) => Err(e@),
    }
}

/// An open container: the compound file that holds it, and its table of
/// referenced properties, which is read once when the container is opened.
pub struct AAFFile {
    f: cfb::CompoundFile<std::io::Cursor<Vec<u8>>>,
    weakref_table: Vec<Vec<OMPropertyId>>,
}

impl View for AAFFile {
    type V = FileView;

    closed spec fn view(&self) -> FileView {
        FileView {
            streams: storage_streams(self.f),
            entries: storage_entries(self.f),
            weak_paths: views(self.weakref_table@),
        }
    }
}

impl AAFFile {
    /// How deeply weak references may nest: as deeply as the table of
    /// referenced properties has paths.
    pub fn nesting_limit(&self) -> (depth: usize)
        ensures
            depth == self@.weak_paths.len(),
    {
        self.weakref_table.len()
    }

    /// The length of the path that the table of referenced properties gives
    /// the tag `tag`, if it gives it one.
    pub fn path_length(&self, tag: OMPropertyTag) -> (length: Option<usize>)
        ensures
            match length {
                Some(n) => tag < self@.weak_paths.len() && n == self@.weak_paths[tag as int].len(),
                None => tag >= self@.weak_paths.len(),
            },
    {
        let slot = tag as usize;
        if slot < self.weakref_table.len() {
            Some(self.weakref_table[slot].len())
        } else {
            None
        }
    }

    /// Step `i` of the path that the table of referenced properties gives
    /// the tag `tag`.
    pub fn path_step(&self, tag: OMPropertyTag, i: usize) -> (pid: OMPropertyId)
        requires
            tag < self@.weak_paths.len(),
            i < self@.weak_paths[tag as int].len(),
        ensures
            pid == self@.weak_paths[tag as int][i as int],
    {
        self.weakref_table[tag as usize][i]
    }

    /// The object whose storage is at `path`.
    pub fn object(&self, path: &str) -> (r: Result<InterchangeObjectDescriptor, AafError>)
        ensures
            view_result(r) == object_at(self@, path@),
    {
        match find_entry(&self.f, path) {
            Some((auid, entry_path)) => Ok(InterchangeObjectDescriptor { auid, path: entry_path }),
            None => Err(AafError::StorageError(String::from_str(path))),
        }
    }

    /// The root object, whose storage is the root of the compound file.
    pub fn root_object(&self) -> (r: Result<InterchangeObjectDescriptor, AafError>)
        ensures
            view_result(r) == object_at(self@, "/"@),
    {
        self.object("/")
    }

    /// Opens the container that the bytes of a compound file hold. Bytes
    /// that are no compound file are malformed; a compound file must hold a
    /// well-formed table of referenced properties to be a container.
    pub fn open(bytes: Vec<u8>) -> (r: Result<AAFFile, AafError>)
        ensures
            view_result(r) == container_in(image_contents(bytes@)),
    {
        match open_image(bytes) {
            Some(cfb) => AAFFile::with_cfb(cfb),
            None => Err(AafError::FormatError),
        }
    }

    /// The container in an open compound file: the file itself, and its
    /// table of referenced properties, which must be there and well formed.
    pub fn with_cfb(cfb: cfb::CompoundFile<std::io::Cursor<Vec<u8>>>) -> (r: Result<
        AAFFile,
        AafError,
    >)
        ensures
            view_result(r) == container_of(storage_streams(cfb), storage_entries(cfb)),
    {
        let mut cfb = cfb;
        let weakref_table = AAFFile::weak_refs_table(&mut cfb)?;
        Ok(AAFFile { f: cfb, weakref_table })
    }

    /// Reads and decodes the table of referenced properties of a compound
    /// file.
    pub fn weak_refs_table(f: &mut cfb::CompoundFile<std::io::Cursor<Vec<u8>>>) -> (r: Result<
        Vec<Vec<OMPropertyId>>,
        AafError,
    >)
        ensures
            storage_streams(*final(f)) == storage_streams(*old(f)),
            storage_entries(*final(f)) == storage_entries(*old(f)),
            match r {
                Ok(paths) => referenced_paths(storage_streams(*old(f))) == Ok::<_, ErrorView>(
                    views(paths@),
                ),
                Err(e) => referenced_paths(storage_streams(*old(f))) == Err::<
                    Seq<Seq<OMPropertyId>>,
                    _,
                >(e@),
            },
    {
        match read_stream(f, "/referenced properties") {
            None => Err(AafError::StorageError(String::from_str("/referenced properties"))),
            Some(data) => {
                match ReferencedPropertiesTable::from_stream(data.as_slice()) {
                    Ok(table) => Ok(table.pid_paths),
                    Err(e) => Err(e),
                }
            },
        }
    }

    /// The bytes of the stream at `path`.
    pub fn stream(&mut self, path: &str) -> (r: Result<Vec<u8>, AafError>)
        ensures
            final(self)@ == old(self)@,
            view_result(r) == stream_at(old(self)@, path@),
    {
        match read_stream(&mut self.f, path) {
            Some(data) => Ok(data),
            None => Err(AafError::StorageError(String::from_str(path))),
        }
    }

    /// The records of the property table of `object`, which is the stream
    /// `properties` in the object's storage.
    pub fn raw_properties(&mut self, object: &InterchangeObjectDescriptor) -> (r: Result<
        Vec<RawProperty>,
        AafError,
    >)
        ensures
            final(self)@ == old(self)@,
            records_result(r) == properties_of(old(self)@, object@),
    {
        let properties_path = join_path(object.path.as_str(), "properties");
        let data = self.stream(properties_path.as_str())?;
        RawProperty::from_properties_istream(data.as_slice())
    }

    /// The record of `object` for the property `pid`, if it has one.
    pub fn raw_property_by_pid(
        &mut self,
        object: &InterchangeObjectDescriptor,
        pid: OMPropertyId,
    ) -> (r: Result<Option<RawProperty>, AafError>)
        ensures
            final(self)@ == old(self)@,
            record_result(r) == property_of(old(self)@, object@, pid),
    {
        let records = self.raw_properties(object)?;
        Ok(take_first_with_pid(records, pid))
    }

    /// The identifiers of the properties of `object`, in the order of its
    /// property table.
    pub fn all_property_ids(&mut self, object: &InterchangeObjectDescriptor) -> (r: Result<
        Vec<OMPropertyId>,
        AafError,
    >)
        ensures
            final(self)@ == old(self)@,
            match r {
                Ok(ids) => properties_of(old(self)@, object@) matches Ok(records) && ids@
                    == property_ids(records),
                Err(e) => properties_of(old(self)@, object@) == Err::<Seq<RawPropertyView>, _>(e@),
            },
    {
        let records = self.raw_properties(object)?;
        let mut ids: Vec<OMPropertyId> = Vec::new();
        let mut i: usize = 0;
        while i < records.len()
            invariant
                i <= records.len(),
                ids@.len() == i,
                forall|j: int| 0 <= j < i ==> #[trigger] ids@[j] == records@[j].pid,
            decreases records.len() - i,
        {
            ids.push(records[i].pid);
            i = i + 1;
        }
        assert(ids@ =~= property_ids(views(records@)));
        Ok(ids)
    }
}

/// Takes the first record with the identifier `pid` out of `list`.
pub fn take_first_with_pid(list: Vec<RawProperty>, pid: OMPropertyId) -> (found: Option<RawProperty>)
    ensures
        match found {
            Some(record) => first_with_pid(views(list@), pid, list@.len() as int) == Some(record@),
            None => first_with_pid(views(list@), pid, list@.len() as int) is None,
        },
{
    let ghost all = views(list@);
    let mut records = list;
    let mut i: usize = 0;
    while i < records.len()
        invariant
            i <= records.len(),
            all == views(list@),
            all == views(records@),
            all.len() == records@.len(),
            list@.len() == records@.len(),
            first_with_pid(all, pid, i as int) is None,
        decreases records.len() - i,
    {
        assert(records@[i as int]@ == all[i as int]);
        if records[i].pid == pid {
            let record = records.remove(i);
            assert(first_with_pid(all, pid, i as int + 1) == Some(record@));
            proof {
                lemma_first_with_pid_stays(all, pid, i as int + 1, all.len() as int);
            }
            return Some(record);
        }
        i = i + 1;
    }
    None
}

/// Once a record with the identifier is found among the first `n`, looking
/// further changes nothing.
pub proof fn lemma_first_with_pid_stays(
    records: Seq<RawPropertyView>,
    pid: OMPropertyId,
    n: int,
    m: int,
)
    requires
        n <= m,
        first_with_pid(records, pid, n) is Some,
    ensures
        first_with_pid(records, pid, m) == first_with_pid(records, pid, n),
    decreases m - n,
{
    if n < m {
        lemma_first_with_pid_stays(records, pid, n, m - 1);
    }
}

} // verus!
