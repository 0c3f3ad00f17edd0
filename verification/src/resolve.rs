//! Resolution of properties: from a record of a property table to the value
//! that it stands for.

use crate::bytes::{bytes_equal, copy_range};
use crate::error::{view_result, views, AafError, ErrorView};
use crate::file::{objects_result, AAFFile};
use crate::interchange_object::{InterchangeObjectDescriptor, ObjectView};
use crate::laws::is_resolution;
use crate::model::{
    first_identified, hop_target, identified_by, index_stream, objects_at, resolve,
    resolve_named, resolve_record, resolve_weak, resolve_weak_list, set_members, target_among,
    targets_among, value_of, walk, weak_candidates, FileView,
};
use crate::properties::{
    PropertyValue, RawProperty, ValueView, SF_DATA, SF_DATA_STREAM, SF_STRONG_OBJECT_REF,
    SF_STRONG_OBJECT_REF_SET, SF_STRONG_OBJECT_REF_VECTOR, SF_WEAK_OBJECT_REF,
    SF_WEAK_OBJECT_REF_SET, SF_WEAK_OBJECT_REF_VECTOR,
};
use crate::references::{
    StrongSetReferenceIndex, StrongVectorReferenceIndex, WeakCollectionReference,
    WeakObjectReference,
};
use crate::text::{index_name, join_path};
use crate::types::{OMPropertyId, OMPropertyTag, OMStoredForm};
use vstd::prelude::*;

verus! {

/// An error among the first `n` lookups is the error of every longer run.
pub proof fn lemma_objects_at_error_stays(file: FileView, paths: Seq<Seq<char>>, n: int, m: int)
    requires
        n <= m,
        objects_at(file, paths, n) is Err,
    ensures
        objects_at(file, paths, m) == objects_at(file, paths, n),
    decreases m - n,
{
    if n < m {
        lemma_objects_at_error_stays(file, paths, n, m - 1);
    }
}

/// Once the first `n` candidates decide, by a match or by an error, further
/// candidates change nothing.
pub proof fn lemma_first_identified_stays(
    file: FileView,
    candidates: Seq<ObjectView>,
    key_pid: OMPropertyId,
    identification: Seq<u8>,
    n: int,
    m: int,
)
    requires
        n <= m,
        first_identified(file, candidates, key_pid, identification, n) != Ok::<
            Option<ObjectView>,
            ErrorView,
        >(None),
    ensures
        first_identified(file, candidates, key_pid, identification, m) == first_identified(
            file,
            candidates,
            key_pid,
            identification,
            n,
        ),
    decreases m - n,
{
    if n < m {
        lemma_first_identified_stays(file, candidates, key_pid, identification, n, m - 1);
    }
}

/// An error among the first `n` references is the error of every longer
/// run.
pub proof fn lemma_targets_among_error_stays(
    file: FileView,
    candidates: Seq<ObjectView>,
    key_pid: OMPropertyId,
    identifications: Seq<Seq<u8>>,
    n: int,
    m: int,
)
    requires
        n <= m,
        targets_among(file, candidates, key_pid, identifications, n) is Err,
    ensures
        targets_among(file, candidates, key_pid, identifications, m) == targets_among(
            file,
            candidates,
            key_pid,
            identifications,
            n,
        ),
    decreases m - n,
{
    if n < m {
        lemma_targets_among_error_stays(file, candidates, key_pid, identifications, n, m - 1);
    }
}

/// A path that breaks within its first `n` steps stays broken in the same
/// way.
pub proof fn lemma_walk_error_stays(
    file: FileView,
    path: Seq<OMPropertyId>,
    n: int,
    m: int,
    depth: nat,
)
    requires
        n <= m,
        walk(file, path, n, depth) is Err,
    ensures
        walk(file, path, m, depth) == walk(file, path, n, depth),
    decreases m - n,
{
    if n < m {
        lemma_walk_error_stays(file, path, n, m - 1, depth);
    }
}

/// The object that one step of a path leads to, given what the property of
/// that step resolved to.
pub fn hop_object(step: Result<PropertyValue, AafError>) -> (r: Result<
    InterchangeObjectDescriptor,
    AafError,
>)
    ensures
        view_result(r) == hop_target(view_result(step)),
{
    match step {
        Ok(PropertyValue::Single(object)) => Ok(object),
        Ok(PropertyValue::Reference(object)) => Ok(object),
        Ok(_) => Err(AafError::ReferenceResolutionError),
        Err(AafError::PropertyNotFound) => Err(AafError::ReferenceResolutionError),
        Err(e) => Err(e),
    }
}

/// The candidates that the end of a path offers, given what the last
/// property of the path resolved to.
pub fn candidate_list(end: Result<PropertyValue, AafError>) -> (r: Result<
    Vec<InterchangeObjectDescriptor>,
    AafError,
>)
    ensures
        objects_result(r) == set_members(view_result(end)),
{
    match end {
        Ok(PropertyValue::ObjectSet(list)) => Ok(list),
        Ok(_) => Err(AafError::ReferenceResolutionError),
        Err(AafError::PropertyNotFound) => Err(AafError::ReferenceResolutionError),
        Err(e) => Err(e),
    }
}

impl AAFFile {
    /// The objects at `paths`, in order. The first path at which there is
    /// none is the error.
    pub fn objects(&self, paths: &Vec<String>) -> (r: Result<
        Vec<InterchangeObjectDescriptor>,
        AafError,
    >)
        ensures
            objects_result(r) == objects_at(self@, views(paths@), paths@.len() as int),
    {
        let mut found: Vec<InterchangeObjectDescriptor> = Vec::new();
        assert(views(found@) =~= Seq::<ObjectView>::empty());
        let mut i: usize = 0;
        while i < paths.len()
            invariant
                i <= paths.len(),
                objects_at(self@, views(paths@), i as int) == Ok::<_, ErrorView>(views(found@)),
            decreases paths.len() - i,
        {
            let ghost before = found@;
            assert(views(paths@)[i as int] == paths@[i as int]@);
            match self.object(paths[i].as_str()) {
                Ok(object) => {
                    found.push(object);
                    assert(views(found@) =~= views(before).push(object@));
                },
                Err(e) => {
                    proof {
                        lemma_objects_at_error_stays(
                            self@,
                            views(paths@),
                            i as int + 1,
                            paths@.len() as int,
                        );
                    }
                    return Err(e);
                },
            }
            i = i + 1;
        }
        Ok(found)
    }

    /// The target of a weak reference among `candidates`: the first of them
    /// whose property `key_pid` is stored with exactly the bytes of
    /// `identification`.
    pub fn target_among(
        &mut self,
        candidates: &Vec<InterchangeObjectDescriptor>,
        key_pid: OMPropertyId,
        identification: &[u8],
    ) -> (r: Result<InterchangeObjectDescriptor, AafError>)
        ensures
            final(self)@ == old(self)@,
            view_result(r) == target_among(
                old(self)@,
                views(candidates@),
                key_pid,
                identification@,
            ),
    {
        let ghost file = self@;
        let ghost all = views(candidates@);
        let mut i: usize = 0;
        while i < candidates.len()
            invariant
                i <= candidates.len(),
                self@ == file,
                file == old(self)@,
                all == views(candidates@),
                first_identified(file, all, key_pid, identification@, i as int) == Ok::<
                    Option<ObjectView>,
                    ErrorView,
                >(None),
            decreases candidates.len() - i,
        {
            assert(all[i as int] == candidates@[i as int]@);
            match self.raw_property_by_pid(&candidates[i], key_pid) {
                Err(e) => {
                    proof {
                        assert(identified_by(file, all[i as int], key_pid, identification@)
                            == Err::<bool, _>(e@));
                        lemma_first_identified_stays(
                            file,
                            all,
                            key_pid,
                            identification@,
                            i as int + 1,
                            all.len() as int,
                        );
                    }
                    return Err(e);
                },
                Ok(Some(record)) => {
                    if bytes_equal(record.raw_value.as_slice(), identification) {
                        proof {
                            assert(identified_by(file, all[i as int], key_pid, identification@)
                                == Ok::<_, ErrorView>(true));
                            lemma_first_identified_stays(
                                file,
                                all,
                                key_pid,
                                identification@,
                                i as int + 1,
                                all.len() as int,
                            );
                        }
                        return Ok(candidates[i].duplicate());
                    }
                },
                Ok(None) => {},
            }
            i = i + 1;
        }
        Err(AafError::ReferenceResolutionError)
    }

    /// The value of the property `pid` of `object`, where weak references
    /// may nest `depth` deep.
    pub fn resolve_within(
        &mut self,
        object: &InterchangeObjectDescriptor,
        pid: OMPropertyId,
        depth: usize,
    ) -> (r: Result<PropertyValue, AafError>)
        ensures
            final(self)@ == old(self)@,
            view_result(r) == resolve(old(self)@, object@, pid, depth as nat),
        decreases depth, 5int,
    {
        match self.raw_property_by_pid(object, pid)? {
            None => Err(AafError::PropertyNotFound),
            Some(record) => self.resolve_record_within(object, &record, depth),
        }
    }

    /// The value of a property of `object`, given its record, where weak
    /// references may nest `depth` deep.
    pub fn resolve_record_within(
        &mut self,
        object: &InterchangeObjectDescriptor,
        record: &RawProperty,
        depth: usize,
    ) -> (r: Result<PropertyValue, AafError>)
        ensures
            final(self)@ == old(self)@,
            view_result(r) == resolve_record(old(self)@, object@, record@, depth as nat),
        decreases depth, 4int,
    {
        let stored_form = record.stored_form;
        if stored_form == SF_DATA {
            let raw = record.raw_value.as_slice();
            let data = copy_range(raw, 0, raw.len());
            assert(data@ =~= record@.raw_value);
            Ok(PropertyValue::Data(Box::new(data)))
        } else if stored_form == SF_WEAK_OBJECT_REF {
            let reference = WeakObjectReference::from_data(record.raw_value.as_slice())?;
            let target = self.weak_target_within(
                reference.tag,
                reference.key_pid,
                reference.identification.as_slice(),
                depth,
            )?;
            Ok(PropertyValue::Reference(target))
        } else if stored_form == SF_DATA_STREAM || stored_form == SF_STRONG_OBJECT_REF
            || stored_form == SF_STRONG_OBJECT_REF_VECTOR || stored_form
            == SF_STRONG_OBJECT_REF_SET || stored_form == SF_WEAK_OBJECT_REF_VECTOR || stored_form
            == SF_WEAK_OBJECT_REF_SET {
            let name = record.raw_string_value()?;
            self.resolve_named_within(object, stored_form, name.as_str(), depth)
        } else {
            Err(AafError::FormatError)
        }
    }

    /// The value of a property of `object` whose payload is the name
    /// `name`, where weak references may nest `depth` deep.
    pub fn resolve_named_within(
        &mut self,
        object: &InterchangeObjectDescriptor,
        stored_form: OMStoredForm,
        name: &str,
        depth: usize,
    ) -> (r: Result<PropertyValue, AafError>)
        ensures
            final(self)@ == old(self)@,
            view_result(r) == resolve_named(old(self)@, object@, stored_form, name@, depth as nat),
        decreases depth, 3int,
    {
        let parent = object.path.as_str();
        if stored_form == SF_DATA_STREAM {
            Ok(PropertyValue::Stream(join_path(parent, name)))
        } else if stored_form == SF_STRONG_OBJECT_REF {
            let ref_path = join_path(parent, name);
            let target = self.object(ref_path.as_str())?;
            Ok(PropertyValue::Single(target))
        } else if stored_form == SF_STRONG_OBJECT_REF_VECTOR {
            let data = self.index_stream(object, name)?;
            let vector_index = StrongVectorReferenceIndex::from_istream(data.as_slice())?;
            let paths = vector_index.member_paths(name, parent);
            let list = self.objects(&paths)?;
            Ok(PropertyValue::Vector(list))
        } else if stored_form == SF_STRONG_OBJECT_REF_SET {
            let data = self.index_stream(object, name)?;
            let set_index = StrongSetReferenceIndex::from_istream(data.as_slice())?;
            let paths = set_index.member_paths(name, parent);
            assert(set_index@.keys().len() == paths@.len());
            let list = self.objects(&paths)?;
            Ok(PropertyValue::ObjectSet(list))
        } else if stored_form == SF_WEAK_OBJECT_REF_VECTOR || stored_form
            == SF_WEAK_OBJECT_REF_SET {
            let data = self.index_stream(object, name)?;
            let collection = WeakCollectionReference::from_istream(data.as_slice())?;
            let list = self.weak_targets_within(
                collection.tag,
                collection.key_pid,
                &collection.identification_list,
                depth,
            )?;
            if stored_form == SF_WEAK_OBJECT_REF_VECTOR {
                Ok(PropertyValue::ReferenceVector(list))
            } else {
                Ok(PropertyValue::ReferenceSet(list))
            }
        } else {
            Err(AafError::FormatError)
        }
    }

    /// The bytes of the index stream of the collection called `name` of
    /// `object`.
    pub fn index_stream(&mut self, object: &InterchangeObjectDescriptor, name: &str) -> (r: Result<
        Vec<u8>,
        AafError,
    >)
        ensures
            final(self)@ == old(self)@,
            view_result(r) == index_stream(old(self)@, object@, name@),
    {
        let index = index_name(name);
        let index_path = join_path(object.path.as_str(), index.as_str());
        self.stream(index_path.as_str())
    }

    /// The targets of weak references that share a tag and a key property,
    /// in the order of `identifications`, where weak references may nest
    /// `depth` deep.
    pub fn weak_targets_within(
        &mut self,
        tag: OMPropertyTag,
        key_pid: OMPropertyId,
        identifications: &Vec<Vec<u8>>,
        depth: usize,
    ) -> (r: Result<Vec<InterchangeObjectDescriptor>, AafError>)
        ensures
            final(self)@ == old(self)@,
            objects_result(r) == resolve_weak_list(
                old(self)@,
                tag,
                key_pid,
                views(identifications@),
                depth as nat,
            ),
        decreases depth, 2int,
    {
        let mut found: Vec<InterchangeObjectDescriptor> = Vec::new();
        if identifications.len() == 0 {
            assert(views(found@) =~= Seq::<ObjectView>::empty());
            return Ok(found);
        }
        let ghost file = self@;
        let candidates = self.weak_candidates_within(tag, depth)?;
        let ghost wanted = views(identifications@);
        assert(views(found@) =~= Seq::<ObjectView>::empty());
        let mut i: usize = 0;
        while i < identifications.len()
            invariant
                i <= identifications.len(),
                self@ == file,
                file == old(self)@,
                wanted == views(identifications@),
                wanted.len() > 0,
                weak_candidates(file, tag, depth as nat) == Ok::<_, ErrorView>(views(candidates@)),
                targets_among(file, views(candidates@), key_pid, wanted, i as int) == Ok::<
                    _,
                    ErrorView,
                >(views(found@)),
            decreases identifications.len() - i,
        {
            let ghost before = found@;
            assert(wanted[i as int] == identifications@[i as int]@);
            match self.target_among(&candidates, key_pid, identifications[i].as_slice()) {
                Ok(target) => {
                    found.push(target);
                    assert(views(found@) =~= views(before).push(target@));
                },
                Err(e) => {
                    proof {
                        lemma_targets_among_error_stays(
                            file,
                            views(candidates@),
                            key_pid,
                            wanted,
                            i as int + 1,
                            wanted.len() as int,
                        );
                    }
                    return Err(e);
                },
            }
            i = i + 1;
        }
        Ok(found)
    }

    /// The target of the weak reference with the given tag, key property
    /// and identification, where weak references may nest `depth` deep.
    pub fn weak_target_within(
        &mut self,
        tag: OMPropertyTag,
        key_pid: OMPropertyId,
        identification: &[u8],
        depth: usize,
    ) -> (r: Result<InterchangeObjectDescriptor, AafError>)
        ensures
            final(self)@ == old(self)@,
            view_result(r) == resolve_weak(
                old(self)@,
                tag,
                key_pid,
                identification@,
                depth as nat,
            ),
        decreases depth, 2int,
    {
        let candidates = self.weak_candidates_within(tag, depth)?;
        self.target_among(&candidates, key_pid, identification)
    }

    /// The objects among which weak references with the tag `tag` find
    /// their targets, where weak references may nest `depth` deep.
    pub fn weak_candidates_within(&mut self, tag: OMPropertyTag, depth: usize) -> (r: Result<
        Vec<InterchangeObjectDescriptor>,
        AafError,
    >)
        ensures
            final(self)@ == old(self)@,
            objects_result(r) == weak_candidates(old(self)@, tag, depth as nat),
        decreases depth, 1int,
    {
        let ghost file = self@;
        if depth == 0 {
            return Err(AafError::ReferenceResolutionError);
        }
        let length = match self.path_length(tag) {
            Some(length) => length,
            None => {
                return Err(AafError::ReferenceResolutionError);
            },
        };
        if length == 0 {
            return Err(AafError::ReferenceResolutionError);
        }
        let ghost path = file.weak_paths[tag as int];
        let hops = length - 1;
        let inner = depth - 1;
        let mut current = match self.root_object() {
            Ok(root) => root,
            Err(e) => {
                proof {
                    lemma_walk_error_stays(file, path, 0, hops as int, inner as nat);
                }
                return Err(e);
            },
        };
        let mut i: usize = 0;
        while i < hops
            invariant
                i <= hops,
                self@ == file,
                file == old(self)@,
                depth > 0,
                tag < file.weak_paths.len(),
                path == file.weak_paths[tag as int],
                hops + 1 == path.len(),
                inner + 1 == depth,
                walk(file, path, i as int, inner as nat) == Ok::<_, ErrorView>(current@),
            decreases hops - i,
        {
            let pid = self.path_step(tag, i);
            let step = self.resolve_within(&current, pid, inner);
            match hop_object(step) {
                Ok(next) => {
                    current = next;
                },
                Err(e) => {
                    proof {
                        lemma_walk_error_stays(file, path, i as int + 1, hops as int, inner as nat);
                    }
                    return Err(e);
                },
            }
            i = i + 1;
        }
        let last = self.path_step(tag, hops);
        let end = self.resolve_within(&current, last, inner);
        candidate_list(end)
    }

    /// The value of the property `pid` of `object`.
    ///
    /// The value depends on what the container holds and on nothing else,
    /// and resolving leaves the container as it was: asking again gives the
    /// same value.
    pub fn resolve(&mut self, object: &InterchangeObjectDescriptor, pid: OMPropertyId) -> (r:
        Result<PropertyValue, AafError>)
        ensures
            is_resolution(old(self)@, object@, pid, view_result(r), final(self)@),
    {
        let depth = self.nesting_limit();
        self.resolve_within(object, pid, depth)
    }

    /// The value of a property of `object`, given its record.
    pub fn resolve_property_value(
        &mut self,
        object: &InterchangeObjectDescriptor,
        property: &RawProperty,
    ) -> (r: Result<PropertyValue, AafError>)
        ensures
            final(self)@ == old(self)@,
            view_result(r) == resolve_record(
                old(self)@,
                object@,
                property@,
                old(self)@.weak_paths.len(),
            ),
    {
        let depth = self.nesting_limit();
        self.resolve_record_within(object, property, depth)
    }

    /// The target of a weak reference, as the value of the property that
    /// holds it.
    pub fn resolve_weak_reference(&mut self, weak_ref: WeakObjectReference) -> (r: Result<
        PropertyValue,
        AafError,
    >)
        ensures
            final(self)@ == old(self)@,
            match r {
                Ok(value) => resolve_weak(
                    old(self)@,
                    weak_ref.tag,
                    weak_ref.key_pid,
                    weak_ref.identification@,
                    old(self)@.weak_paths.len(),
                ) matches Ok(target) && value@ == ValueView::Reference(target),
                Err(e) => resolve_weak(
                    old(self)@,
                    weak_ref.tag,
                    weak_ref.key_pid,
                    weak_ref.identification@,
                    old(self)@.weak_paths.len(),
                ) == Err::<ObjectView, _>(e@),
            },
            weak_ref.tag >= old(self)@.weak_paths.len() ==> r is Err && r->Err_0@
                == ErrorView::ReferenceResolutionError,
    {
        let depth = self.nesting_limit();
        let target = self.weak_target_within(
            weak_ref.tag,
            weak_ref.key_pid,
            weak_ref.identification.as_slice(),
            depth,
        )?;
        Ok(PropertyValue::Reference(target))
    }

    /// The value of the property `pid` of `object`, or nothing where it
    /// cannot be resolved.
    pub fn get_value(&mut self, object: &InterchangeObjectDescriptor, pid: OMPropertyId) -> (r:
        Option<PropertyValue>)
        ensures
            final(self)@ == old(self)@,
            match r {
                Some(value) => value_of(old(self)@, object@, pid) == Ok::<_, ErrorView>(value@),
                None => value_of(old(self)@, object@, pid) is Err,
            },
    {
        match self.resolve(object, pid) {
            Ok(value) => Some(value),
            Err(_) => None,
        }
    }
}

} // verus!
