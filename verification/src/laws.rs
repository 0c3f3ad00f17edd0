//! What holds of every container: consequences of the definitions in
//! `model`, stated once and proved.

use crate::error::ErrorView;
use crate::interchange_object::ObjectView;
use crate::model::{
    first_identified, first_with_pid, identified_by, members, object_at, objects_at,
    properties_of, resolve, resolve_record, resolve_weak, resolve_weak_list, target_among,
    targets_among, value_of, weak_candidates, FileView,
};
use crate::properties::{RawPropertyView, ValueView};
use crate::references::spec_member_paths;
use crate::text::spec_member_path;
use crate::types::{OMPropertyId, OMPropertyTag};
use vstd::prelude::*;

verus! {

/// The first record with an identifier is a record with that identifier
/// before which no record has it; there is none exactly when no record has
/// it.
pub proof fn lemma_first_with_pid(records: Seq<RawPropertyView>, pid: OMPropertyId, n: int)
    requires
        0 <= n <= records.len(),
    ensures
        first_with_pid(records, pid, n) is None <==> forall|i: int|
            0 <= i < n ==> (#[trigger] records[i]).pid != pid,
        first_with_pid(records, pid, n) matches Some(record) ==> exists|i: int|
            {
                &&& 0 <= i < n
                &&& #[trigger] records[i] == record
                &&& record.pid == pid
                &&& forall|j: int| 0 <= j < i ==> (#[trigger] records[j]).pid != pid
            },
    decreases n,
{
    if n > 0 {
        lemma_first_with_pid(records, pid, n - 1);
        if first_with_pid(records, pid, n - 1) is None && records[n - 1].pid == pid {
            assert(records[n - 1] == first_with_pid(records, pid, n)->Some_0);
        }
    }
}

/// A property that an object does not have resolves to nothing else than
/// `PropertyNotFound`: where the property table of `object` can be read and
/// none of its records has the identifier `pid`, that is the result,
/// however deep weak references may nest.
pub proof fn lemma_absent_property_not_found(
    file: FileView,
    object: ObjectView,
    pid: OMPropertyId,
    depth: nat,
)
    requires
        properties_of(file, object) is Ok,
        forall|i: int|
            0 <= i < properties_of(file, object)->Ok_0.len() ==> (#[trigger] properties_of(
                file,
                object,
            )->Ok_0[i]).pid != pid,
    ensures
        resolve(file, object, pid, depth) == Err::<ValueView, _>(ErrorView::PropertyNotFound),
        value_of(file, object, pid) == Err::<ValueView, _>(ErrorView::PropertyNotFound),
{
    let records = properties_of(file, object)->Ok_0;
    lemma_first_with_pid(records, pid, records.len() as int);
}

/// What a call that resolves the property `pid` of `object` guarantees, as a
/// relation between the container before the call, the result, and the
/// container after the call: the container is left as it was, and the result
/// is the value that the container gives the property.
pub open spec fn is_resolution(
    before: FileView,
    object: ObjectView,
    pid: OMPropertyId,
    result: Result<ValueView, ErrorView>,
    after: FileView,
) -> bool {
    after == before && result == value_of(before, object, pid)
}

/// Resolving a property twice gives the same result twice: the second call
/// finds the container as the first one found it, and no other state enters
/// into the result.
pub proof fn lemma_resolving_twice(
    file: FileView,
    object: ObjectView,
    pid: OMPropertyId,
    first: Result<ValueView, ErrorView>,
    between: FileView,
    second: Result<ValueView, ErrorView>,
    after: FileView,
)
    requires
        is_resolution(file, object, pid, first, between),
        is_resolution(between, object, pid, second, after),
    ensures
        second == first,
        after == file,
{
}

/// A weak reference whose tag has no path in the table of referenced
/// properties is dangling, alone or in a collection.
pub proof fn lemma_unknown_tag_dangles(
    file: FileView,
    tag: OMPropertyTag,
    key_pid: OMPropertyId,
    identification: Seq<u8>,
    identifications: Seq<Seq<u8>>,
    depth: nat,
)
    requires
        tag >= file.weak_paths.len(),
    ensures
        weak_candidates(file, tag, depth) == Err::<Seq<ObjectView>, _>(
            ErrorView::ReferenceResolutionError,
        ),
        resolve_weak(file, tag, key_pid, identification, depth) == Err::<ObjectView, _>(
            ErrorView::ReferenceResolutionError,
        ),
        identifications.len() > 0 ==> resolve_weak_list(
            file,
            tag,
            key_pid,
            identifications,
            depth,
        ) == Err::<Seq<ObjectView>, _>(ErrorView::ReferenceResolutionError),
{
}

/// The variant of a value is the one that belongs to the stored form of the
/// record it was resolved from.
pub proof fn lemma_value_matches_stored_form(
    file: FileView,
    object: ObjectView,
    record: RawPropertyView,
    depth: nat,
)
    ensures
        resolve_record(file, object, record, depth) matches Ok(value) ==> value.stored_form()
            == record.stored_form,
{
}

/// The objects found at a list of paths are as many as the paths, and each
/// is the object at the path in its place.
pub proof fn lemma_objects_at_in_order(file: FileView, paths: Seq<Seq<char>>, n: int)
    requires
        0 <= n <= paths.len(),
        objects_at(file, paths, n) is Ok,
    ensures
        objects_at(file, paths, n)->Ok_0.len() == n,
        forall|i: int|
            0 <= i < n ==> object_at(file, paths[i]) == Ok::<_, ErrorView>(
                #[trigger] objects_at(file, paths, n)->Ok_0[i],
            ),
    decreases n,
{
    if n > 0 {
        lemma_objects_at_in_order(file, paths, n - 1);
    }
}

/// Where looking up a list of paths fails, the error is that of the first
/// path at which there is no object.
pub proof fn lemma_objects_at_first_error(file: FileView, paths: Seq<Seq<char>>, n: int)
    requires
        0 <= n <= paths.len(),
        objects_at(file, paths, n) is Err,
    ensures
        exists|i: int|
            {
                &&& 0 <= i < n
                &&& object_at(file, #[trigger] paths[i]) == Err::<ObjectView, _>(
                    objects_at(file, paths, n)->Err_0,
                )
                &&& objects_at(file, paths, n)->Err_0 == ErrorView::StorageError(paths[i])
                &&& forall|j: int| 0 <= j < i ==> object_at(file, #[trigger] paths[j]) is Ok
            },
    decreases n,
{
    let error = objects_at(file, paths, n)->Err_0;
    if objects_at(file, paths, n - 1) is Err {
        lemma_objects_at_first_error(file, paths, n - 1);
        let i = choose|i: int|
            {
                &&& 0 <= i < n - 1
                &&& object_at(file, #[trigger] paths[i]) == Err::<ObjectView, _>(error)
                &&& error == ErrorView::StorageError(paths[i])
                &&& forall|j: int| 0 <= j < i ==> object_at(file, #[trigger] paths[j]) is Ok
            };
        assert(0 <= i < n && object_at(file, paths[i]) == Err::<ObjectView, _>(error));
    } else {
        lemma_objects_at_in_order(file, paths, n - 1);
        let found = objects_at(file, paths, n - 1)->Ok_0;
        assert forall|j: int| 0 <= j < n - 1 implies object_at(file, #[trigger] paths[j]) is Ok by {
            assert(object_at(file, paths[j]) == Ok::<_, ErrorView>(found[j]));
        }
        assert(object_at(file, paths[n - 1]) == Err::<ObjectView, _>(error));
    }
}

/// The members of a strong collection come in the order of its index:
/// member `i` is the object in the storage that is named after key `i`.
pub proof fn lemma_members_in_index_order(
    file: FileView,
    parent: Seq<char>,
    name: Seq<char>,
    keys: Seq<u32>,
)
    requires
        members(file, parent, name, keys) is Ok,
    ensures
        members(file, parent, name, keys)->Ok_0.len() == keys.len(),
        forall|i: int|
            0 <= i < keys.len() ==> object_at(file, spec_member_path(parent, name, keys[i]))
                == Ok::<_, ErrorView>(#[trigger] members(file, parent, name, keys)->Ok_0[i]),
{
    lemma_objects_at_in_order(file, spec_member_paths(parent, name, keys), keys.len() as int);
}

/// What the first `n` candidates decide: a match is a candidate that the
/// identification means and before which every candidate could be read and
/// was not meant; no match means that every candidate could be read and none
/// was meant.
pub proof fn lemma_first_identified(
    file: FileView,
    candidates: Seq<ObjectView>,
    key_pid: OMPropertyId,
    identification: Seq<u8>,
    n: int,
)
    requires
        0 <= n <= candidates.len(),
    ensures
        first_identified(file, candidates, key_pid, identification, n) matches Ok(Some(object))
            ==> exists|i: int|
            {
                &&& 0 <= i < n
                &&& #[trigger] candidates[i] == object
                &&& identified_by(file, candidates[i], key_pid, identification) == Ok::<
                    _,
                    ErrorView,
                >(true)
                &&& forall|j: int|
                    0 <= j < i ==> identified_by(
                        file,
                        #[trigger] candidates[j],
                        key_pid,
                        identification,
                    ) == Ok::<_, ErrorView>(false)
            },
        first_identified(file, candidates, key_pid, identification, n) == Ok::<
            Option<ObjectView>,
            ErrorView,
        >(None) ==> forall|j: int|
            0 <= j < n ==> identified_by(file, #[trigger] candidates[j], key_pid, identification)
                == Ok::<_, ErrorView>(false),
    decreases n,
{
    if n > 0 {
        lemma_first_identified(file, candidates, key_pid, identification, n - 1);
        let before = first_identified(file, candidates, key_pid, identification, n - 1);
        if before == Ok::<Option<ObjectView>, ErrorView>(None) && identified_by(
            file,
            candidates[n - 1],
            key_pid,
            identification,
        ) == Ok::<_, ErrorView>(true) {
            assert(candidates[n - 1] == first_identified(
                file,
                candidates,
                key_pid,
                identification,
                n,
            )->Ok_0->Some_0);
        }
    }
}

/// The target of a weak reference is the first candidate, in the order of
/// the set's index, whose key property is stored with the bytes of the
/// identification: where several candidates answer, the earliest is the
/// target.
pub proof fn lemma_target_is_first_match(
    file: FileView,
    candidates: Seq<ObjectView>,
    key_pid: OMPropertyId,
    identification: Seq<u8>,
)
    requires
        target_among(file, candidates, key_pid, identification) is Ok,
    ensures
        exists|i: int|
            {
                &&& 0 <= i < candidates.len()
                &&& #[trigger] candidates[i] == target_among(
                    file,
                    candidates,
                    key_pid,
                    identification,
                )->Ok_0
                &&& identified_by(file, candidates[i], key_pid, identification) == Ok::<
                    _,
                    ErrorView,
                >(true)
                &&& forall|j: int|
                    0 <= j < i ==> identified_by(
                        file,
                        #[trigger] candidates[j],
                        key_pid,
                        identification,
                    ) == Ok::<_, ErrorView>(false)
            },
{
    lemma_first_identified(file, candidates, key_pid, identification, candidates.len() as int);
}

/// The targets of the first `n` references are as many as the references,
/// and each is the target of the reference in its place.
pub proof fn lemma_targets_among_in_order(
    file: FileView,
    candidates: Seq<ObjectView>,
    key_pid: OMPropertyId,
    identifications: Seq<Seq<u8>>,
    n: int,
)
    requires
        0 <= n <= identifications.len(),
        targets_among(file, candidates, key_pid, identifications, n) is Ok,
    ensures
        targets_among(file, candidates, key_pid, identifications, n)->Ok_0.len() == n,
        forall|i: int|
            0 <= i < n ==> target_among(file, candidates, key_pid, identifications[i]) == Ok::<
                _,
                ErrorView,
            >(#[trigger] targets_among(file, candidates, key_pid, identifications, n)->Ok_0[i]),
    decreases n,
{
    if n > 0 {
        lemma_targets_among_in_order(file, candidates, key_pid, identifications, n - 1);
    }
}

/// A collection of weak references resolves to one target for each
/// reference, in the order of the references, and each target is what the
/// reference resolves to by itself.
pub proof fn lemma_weak_list_is_elementwise(
    file: FileView,
    tag: OMPropertyTag,
    key_pid: OMPropertyId,
    identifications: Seq<Seq<u8>>,
    depth: nat,
)
    requires
        resolve_weak_list(file, tag, key_pid, identifications, depth) is Ok,
    ensures
        resolve_weak_list(file, tag, key_pid, identifications, depth)->Ok_0.len()
            == identifications.len(),
        forall|i: int|
            0 <= i < identifications.len() ==> resolve_weak(
                file,
                tag,
                key_pid,
                identifications[i],
                depth,
            ) == Ok::<_, ErrorView>(
                #[trigger] resolve_weak_list(file, tag, key_pid, identifications, depth)->Ok_0[i],
            ),
{
    if identifications.len() > 0 {
        let candidates = weak_candidates(file, tag, depth)->Ok_0;
        lemma_targets_among_in_order(
            file,
            candidates,
            key_pid,
            identifications,
            identifications.len() as int,
        );
    }
}

} // verus!
