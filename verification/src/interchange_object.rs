//! Descriptors of the objects in a container.

use crate::types::Auid;
use vstd::prelude::*;

verus! {

/// Something that has a class and a place in the container.
pub trait InterchangeObject {
    /// The identifier of the object's class.
    fn auid(&self) -> Auid;

    /// The path of the storage that holds the object.
    fn path(&self) -> String;
}

/// Locates one object: the identifier of its class and the path of the
/// storage that holds it. A descriptor owns nothing of the object.
#[derive(Debug, Clone, PartialEq, Eq)]
pub struct InterchangeObjectDescriptor {
    pub auid: Auid,
    pub path: String,
}

/// The mathematical value of a descriptor.
pub struct ObjectView {
    pub auid: Seq<u8>,
    pub path: Seq<char>,
}

impl View for InterchangeObjectDescriptor {
    type V = ObjectView;

    open spec fn view(&self) -> ObjectView {
        ObjectView { auid: self.auid.bytes@, path: self.path@ }
    }
}

impl InterchangeObjectDescriptor {
    /// A descriptor of the same object.
    pub fn duplicate(&self) -> (copy: InterchangeObjectDescriptor)
        ensures
            copy@ == self@,
    {
        InterchangeObjectDescriptor { auid: self.auid, path: self.path.clone() }
    }
}

impl InterchangeObject for InterchangeObjectDescriptor {
    fn auid(&self) -> (id: Auid)
        ensures
            id == self.auid,
    {
        self.auid
    }

    fn path(&self) -> (path: String)
        ensures
            path@ == self.path@,
    {
        self.path.clone()
    }
}

/// Copies a list of descriptors.
pub fn duplicate_all(list: &Vec<InterchangeObjectDescriptor>) -> (copy: Vec<
    InterchangeObjectDescriptor,
>)
    ensures
        crate::error::views(copy@) == crate::error::views(list@),
{
    let mut copy: Vec<InterchangeObjectDescriptor> = Vec::new();
    let mut i: usize = 0;
    while i < list.len()
        invariant
            i <= list.len(),
            copy@.len() == i,
            forall|j: int| 0 <= j < i ==> copy@[j]@ == list@[j]@,
        decreases list.len() - i,
    {
        copy.push(list[i].duplicate());
        i += 1;
    }
    assert(crate::error::views(copy@) =~= crate::error::views(list@));
    copy
}

} // verus!
