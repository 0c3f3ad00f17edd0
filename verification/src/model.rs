//! What a container means: the value of every property of every object, as
//! a function of what the container holds.
//!
//! The functions here are specifications. The executable reader states of
//! each of its results that it equals one of them.

use crate::error::ErrorView;
use crate::interchange_object::ObjectView;
use crate::properties::{
    spec_decode_table, RawPropertyView, ValueView, SF_DATA, SF_DATA_STREAM, SF_STRONG_OBJECT_REF,
    SF_STRONG_OBJECT_REF_SET, SF_STRONG_OBJECT_REF_VECTOR, SF_WEAK_OBJECT_REF,
    SF_WEAK_OBJECT_REF_SET, SF_WEAK_OBJECT_REF_VECTOR,
};
use crate::references::{
    spec_decode_path_table, spec_decode_set_index, spec_decode_vector_index, spec_decode_weak_collection,
    spec_decode_weak_reference, spec_member_paths,
};
use crate::text::{spec_decode_name, spec_index_name, spec_join_path};
use crate::types::{OMPropertyId, OMPropertyTag, OMStoredForm};
use vstd::prelude::*;

verus! {

/// What a container holds: its streams and its entries, each by path, and
/// the paths of its table of referenced properties, each by tag.
pub struct FileView {
    pub streams: Map<Seq<char>, Seq<u8>>,
    pub entries: Map<Seq<char>, (Seq<u8>, Seq<char>)>,
    pub weak_paths: Seq<Seq<OMPropertyId>>,
}

/// The bytes of the stream at `path`.
pub open spec fn stream_at(file: FileView, path: Seq<char>) -> Result<Seq<u8>, ErrorView> {
    if file.streams.dom().contains(path) {
        Ok(file.streams[path])
    } else {
        Err(ErrorView::StorageError(path))
    }
}

/// The object whose storage is at `path`.
pub open spec fn object_at(file: FileView, path: Seq<char>) -> Result<ObjectView, ErrorView> {
    if file.entries.dom().contains(path) {
        Ok(ObjectView { auid: file.entries[path].0, path: file.entries[path].1 })
    } else {
        Err(ErrorView::StorageError(path))
    }
}

/// The paths of the table of referenced properties, which is the stream
/// `/referenced properties`.
pub open spec fn referenced_paths(streams: Map<Seq<char>, Seq<u8>>) -> Result<
    Seq<Seq<OMPropertyId>>,
    ErrorView,
> {
    if streams.dom().contains("/referenced properties"@) {
        match spec_decode_path_table(streams["/referenced properties"@]) {
            Ok(table) => Ok(table.pid_paths),
            Err(e) => Err(e),
        }
    } else {
        Err(ErrorView::StorageError("/referenced properties"@))
    }
}

/// The container in a compound file with the given streams and entries.
pub open spec fn container_of(
    streams: Map<Seq<char>, Seq<u8>>,
    entries: Map<Seq<char>, (Seq<u8>, Seq<char>)>,
) -> Result<FileView, ErrorView> {
    match referenced_paths(streams) {
        Ok(weak_paths) => Ok(FileView { streams, entries, weak_paths }),
        Err(e) => Err(e),
    }
}

/// The container in the image of a compound file, given what the image
/// holds. An image that holds nothing is no compound file.
pub open spec fn container_in(
    contents: Option<(Map<Seq<char>, Seq<u8>>, Map<Seq<char>, (Seq<u8>, Seq<char>)>)>,
) -> Result<FileView, ErrorView> {
    match contents {
        Some((streams, entries)) => container_of(streams, entries),
        None => Err(ErrorView::FormatError),
    }
}

/// The records of the property table of `object`.
pub open spec fn properties_of(file: FileView, object: ObjectView) -> Result<
    Seq<RawPropertyView>,
    ErrorView,
> {
    match stream_at(file, spec_join_path(object.path, "properties"@)) {
        Ok(data) => spec_decode_table(data),
        Err(e) => Err(e),
    }
}

/// The identifiers of the records, in the order of the records.
pub open spec fn property_ids(records: Seq<RawPropertyView>) -> Seq<OMPropertyId> {
    Seq::new(records.len(), |i: int| records[i].pid)
}

/// The first of the first `n` records that has the identifier `pid`.
pub open spec fn first_with_pid(records: Seq<RawPropertyView>, pid: OMPropertyId, n: int) -> Option<
    RawPropertyView,
>
    decreases n,
{
    if n <= 0 {
        None
    } else {
        match first_with_pid(records, pid, n - 1) {
            Some(record) => Some(record),
            None => if records[n - 1].pid == pid {
                Some(records[n - 1])
            } else {
                None
            },
        }
    }
}

/// The record of `object` for the property `pid`, if it has one. Where
/// several records have the identifier, the first one counts.
pub open spec fn property_of(file: FileView, object: ObjectView, pid: OMPropertyId) -> Result<
    Option<RawPropertyView>,
    ErrorView,
> {
    match properties_of(file, object) {
        Ok(records) => Ok(first_with_pid(records, pid, records.len() as int)),
        Err(e) => Err(e),
    }
}

/// The objects at the first `n` of `paths`, in order; the first path at
/// which there is none is the error.
pub open spec fn objects_at(file: FileView, paths: Seq<Seq<char>>, n: int) -> Result<
    Seq<ObjectView>,
    ErrorView,
>
    decreases n,
{
    if n <= 0 {
        Ok(Seq::empty())
    } else {
        match objects_at(file, paths, n - 1) {
            Err(e) => Err(e),
            Ok(found) => match object_at(file, paths[n - 1]) {
                Ok(object) => Ok(found.push(object)),
                Err(e) => Err(e),
            },
        }
    }
}

/// The members of the collection called `name` of the object at `parent`,
/// which has the local keys `keys`.
pub open spec fn members(file: FileView, parent: Seq<char>, name: Seq<char>, keys: Seq<u32>)
    -> Result<Seq<ObjectView>, ErrorView> {
    objects_at(file, spec_member_paths(parent, name, keys), keys.len() as int)
}

/// The bytes of the index stream of the collection called `name` of
/// `object`.
pub open spec fn index_stream(file: FileView, object: ObjectView, name: Seq<char>) -> Result<
    Seq<u8>,
    ErrorView,
> {
    stream_at(file, spec_join_path(object.path, spec_index_name(name)))
}

/// Whether the payload of a property in this stored form is a name.
pub open spec fn names_something(stored_form: OMStoredForm) -> bool {
    ||| stored_form == SF_DATA_STREAM
    ||| stored_form == SF_STRONG_OBJECT_REF
    ||| stored_form == SF_STRONG_OBJECT_REF_VECTOR
    ||| stored_form == SF_STRONG_OBJECT_REF_SET
    ||| stored_form == SF_WEAK_OBJECT_REF_VECTOR
    ||| stored_form == SF_WEAK_OBJECT_REF_SET
}

/// The object that one step of a path leads to, given what the property of
/// that step resolves to: the object of a single reference, strong or weak.
/// A step that is missing or is no single reference breaks the path.
pub open spec fn hop_target(step: Result<ValueView, ErrorView>) -> Result<ObjectView, ErrorView> {
    match step {
        Ok(ValueView::Single(object)) => Ok(object),
        Ok(ValueView::Reference(object)) => Ok(object),
        Ok(_) => Err(ErrorView::ReferenceResolutionError),
        Err(ErrorView::PropertyNotFound) => Err(ErrorView::ReferenceResolutionError),
        Err(e) => Err(e),
    }
}

/// The candidates that the end of a path offers, given what the last
/// property of the path resolves to: the members of a set. An end that is
/// missing or is no set breaks the path.
pub open spec fn set_members(end: Result<ValueView, ErrorView>) -> Result<
    Seq<ObjectView>,
    ErrorView,
> {
    match end {
        Ok(ValueView::ObjectSet(members)) => Ok(members),
        Ok(_) => Err(ErrorView::ReferenceResolutionError),
        Err(ErrorView::PropertyNotFound) => Err(ErrorView::ReferenceResolutionError),
        Err(e) => Err(e),
    }
}

/// Whether `candidate` is the object that `identification` means: its
/// property `key_pid` is stored with exactly these bytes.
pub open spec fn identified_by(
    file: FileView,
    candidate: ObjectView,
    key_pid: OMPropertyId,
    identification: Seq<u8>,
) -> Result<bool, ErrorView> {
    match property_of(file, candidate, key_pid) {
        Ok(Some(record)) => Ok(record.raw_value == identification),
        Ok(None) => Ok(false),
        Err(e) => Err(e),
    }
}

/// The first of the first `n` candidates that `identification` means, if
/// any. A candidate whose property table cannot be read is an error, unless
/// an earlier candidate is the one.
pub open spec fn first_identified(
    file: FileView,
    candidates: Seq<ObjectView>,
    key_pid: OMPropertyId,
    identification: Seq<u8>,
    n: int,
) -> Result<Option<ObjectView>, ErrorView>
    decreases n,
{
    if n <= 0 {
        Ok(None)
    } else {
        match first_identified(file, candidates, key_pid, identification, n - 1) {
            Err(e) => Err(e),
            Ok(Some(object)) => Ok(Some(object)),
            Ok(None) => match identified_by(file, candidates[n - 1], key_pid, identification) {
                Err(e) => Err(e),
                Ok(true) => Ok(Some(candidates[n - 1])),
                Ok(false) => Ok(None),
            },
        }
    }
}

/// The target of a weak reference among `candidates`. A reference that no
/// candidate answers is dangling.
pub open spec fn target_among(
    file: FileView,
    candidates: Seq<ObjectView>,
    key_pid: OMPropertyId,
    identification: Seq<u8>,
) -> Result<ObjectView, ErrorView> {
    match first_identified(file, candidates, key_pid, identification, candidates.len() as int) {
        Err(e) => Err(e),
        Ok(Some(object)) => Ok(object),
        Ok(None) => Err(ErrorView::ReferenceResolutionError),
    }
}

/// The targets of the first `n` of `identifications` among `candidates`, in
/// order; the first reference that fails is the error.
pub open spec fn targets_among(
    file: FileView,
    candidates: Seq<ObjectView>,
    key_pid: OMPropertyId,
    identifications: Seq<Seq<u8>>,
    n: int,
) -> Result<Seq<ObjectView>, ErrorView>
    decreases n,
{
    if n <= 0 {
        Ok(Seq::empty())
    } else {
        match targets_among(file, candidates, key_pid, identifications, n - 1) {
            Err(e) => Err(e),
            Ok(found) => match target_among(file, candidates, key_pid, identifications[n - 1]) {
                Ok(object) => Ok(found.push(object)),
                Err(e) => Err(e),
            },
        }
    }
}

/// The value of the property `pid` of `object`.
///
/// `depth` bounds how deeply weak references may nest: resolving a weak
/// reference walks a path of properties, and a property on that path may
/// itself be a weak reference. Each level of nesting takes one from `depth`;
/// at zero, a weak reference counts as dangling.
pub open spec fn resolve(file: FileView, object: ObjectView, pid: OMPropertyId, depth: nat)
    -> Result<ValueView, ErrorView>
    decreases depth, 5int, 0int,
{
    match property_of(file, object, pid) {
        Err(e) => Err(e),
        Ok(None) => Err(ErrorView::PropertyNotFound),
        Ok(Some(record)) => resolve_record(file, object, record, depth),
    }
}

/// The value of a property of `object`, given its record. The stored form
/// decides: an inline value is the payload itself; a weak reference is
/// decoded from the payload and resolved; the other known forms hold a name;
/// an unknown form is malformed.
pub open spec fn resolve_record(
    file: FileView,
    object: ObjectView,
    record: RawPropertyView,
    depth: nat,
) -> Result<ValueView, ErrorView>
    decreases depth, 4int, 0int,
{
    if record.stored_form == SF_DATA {
        Ok(ValueView::Data(record.raw_value))
    } else if record.stored_form == SF_WEAK_OBJECT_REF {
        match spec_decode_weak_reference(record.raw_value) {
            Err(e) => Err(e),
            Ok(reference) => match resolve_weak(
                file,
                reference.tag,
                reference.key_pid,
                reference.identification,
                depth,
            ) {
                Ok(object) => Ok(ValueView::Reference(object)),
                Err(e) => Err(e),
            },
        }
    } else if names_something(record.stored_form) {
        match spec_decode_name(record.raw_value) {
            Err(e) => Err(e),
            Ok(name) => resolve_named(file, object, record.stored_form, name, depth),
        }
    } else {
        Err(ErrorView::FormatError)
    }
}

/// The value of a property of `object` whose payload is the name `name`.
///
/// A data stream is located beside the property table and not read. A
/// strong reference is the object in the storage of that name. A strong
/// collection has an index stream, which lists the local keys of its members
/// in order; each member has a storage of its own. A weak collection has an
/// index stream, which lists what identifies each target.
pub open spec fn resolve_named(
    file: FileView,
    object: ObjectView,
    stored_form: OMStoredForm,
    name: Seq<char>,
    depth: nat,
) -> Result<ValueView, ErrorView>
    decreases depth, 3int, 0int,
{
    if stored_form == SF_DATA_STREAM {
        Ok(ValueView::Stream(spec_join_path(object.path, name)))
    } else if stored_form == SF_STRONG_OBJECT_REF {
        match object_at(file, spec_join_path(object.path, name)) {
            Ok(target) => Ok(ValueView::Single(target)),
            Err(e) => Err(e),
        }
    } else if stored_form == SF_STRONG_OBJECT_REF_VECTOR {
        match index_stream(file, object, name) {
            Err(e) => Err(e),
            Ok(data) => match spec_decode_vector_index(data) {
                Err(e) => Err(e),
                Ok(index) => match members(file, object.path, name, index.local_keys) {
                    Ok(list) => Ok(ValueView::Vector(list)),
                    Err(e) => Err(e),
                },
            },
        }
    } else if stored_form == SF_STRONG_OBJECT_REF_SET {
        match index_stream(file, object, name) {
            Err(e) => Err(e),
            Ok(data) => match spec_decode_set_index(data) {
                Err(e) => Err(e),
                Ok(index) => match members(file, object.path, name, index.keys()) {
                    Ok(list) => Ok(ValueView::ObjectSet(list)),
                    Err(e) => Err(e),
                },
            },
        }
    } else if stored_form == SF_WEAK_OBJECT_REF_VECTOR || stored_form == SF_WEAK_OBJECT_REF_SET {
        match index_stream(file, object, name) {
            Err(e) => Err(e),
            Ok(data) => match spec_decode_weak_collection(data) {
                Err(e) => Err(e),
                Ok(collection) => match resolve_weak_list(
                    file,
                    collection.tag,
                    collection.key_pid,
                    collection.identification_list,
                    depth,
                ) {
                    Err(e) => Err(e),
                    Ok(list) => if stored_form == SF_WEAK_OBJECT_REF_VECTOR {
                        Ok(ValueView::ReferenceVector(list))
                    } else {
                        Ok(ValueView::ReferenceSet(list))
                    },
                },
            },
        }
    } else {
        Err(ErrorView::FormatError)
    }
}

/// The targets of weak references that share a tag and a key property, in
/// the order of their identifications. The path of the tag is walked once
/// for all of them, and not at all where there is none.
pub open spec fn resolve_weak_list(
    file: FileView,
    tag: OMPropertyTag,
    key_pid: OMPropertyId,
    identifications: Seq<Seq<u8>>,
    depth: nat,
) -> Result<Seq<ObjectView>, ErrorView>
    decreases depth, 2int, 0int,
{
    if identifications.len() == 0 {
        Ok(Seq::empty())
    } else {
        match weak_candidates(file, tag, depth) {
            Err(e) => Err(e),
            Ok(candidates) => targets_among(
                file,
                candidates,
                key_pid,
                identifications,
                identifications.len() as int,
            ),
        }
    }
}

/// The target of the weak reference with the given tag, key property and
/// identification: the first candidate of the tag whose key property is
/// stored with exactly the bytes of the identification.
pub open spec fn resolve_weak(
    file: FileView,
    tag: OMPropertyTag,
    key_pid: OMPropertyId,
    identification: Seq<u8>,
    depth: nat,
) -> Result<ObjectView, ErrorView>
    decreases depth, 2int, 0int,
{
    match weak_candidates(file, tag, depth) {
        Err(e) => Err(e),
        Ok(candidates) => target_among(file, candidates, key_pid, identification),
    }
}

/// The objects among which weak references with the tag `tag` find their
/// targets: the table of referenced properties gives the tag a path of
/// property identifiers; all but the last are walked from the root object,
/// each a single reference; the last is a set, whose members are the
/// candidates, in the order of the set's index. A tag without a path, or
/// with an empty one, leads nowhere.
pub open spec fn weak_candidates(file: FileView, tag: OMPropertyTag, depth: nat) -> Result<
    Seq<ObjectView>,
    ErrorView,
>
    decreases depth, 1int, 0int,
{
    if depth == 0 || tag >= file.weak_paths.len() || file.weak_paths[tag as int].len() == 0 {
        Err(ErrorView::ReferenceResolutionError)
    } else {
        let path = file.weak_paths[tag as int];
        match walk(file, path, path.len() - 1, (depth - 1) as nat) {
            Err(e) => Err(e),
            Ok(object) => set_members(resolve(file, object, path.last(), (depth - 1) as nat)),
        }
    }
}

/// The object reached from the root object by the first `n` steps of
/// `path`.
pub open spec fn walk(file: FileView, path: Seq<OMPropertyId>, n: int, depth: nat) -> Result<
    ObjectView,
    ErrorView,
>
    decreases depth, 6int, n,
{
    if n <= 0 {
        object_at(file, "/"@)
    } else {
        match walk(file, path, n - 1, depth) {
            Err(e) => Err(e),
            Ok(object) => hop_target(resolve(file, object, path[n - 1], depth)),
        }
    }
}

/// The value of the property `pid` of `object` in `file`. Weak references
/// may nest as deeply as the table of referenced properties has paths: a
/// deeper nesting walks the path of some tag inside its own walk, and would
/// never end.
pub open spec fn value_of(file: FileView, object: ObjectView, pid: OMPropertyId) -> Result<
    ValueView,
    ErrorView,
> {
    resolve(file, object, pid, file.weak_paths.len())
}

} // verus!
