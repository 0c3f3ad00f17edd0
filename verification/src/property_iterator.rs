//! A walk over the properties of all objects that a root object owns.
//!
//! The walk goes depth first and reports a property before the properties
//! of the objects that it refers to. It follows strong references only:
//! they lead from a storage into a storage inside it, and so never back.
//! Weak references are reported and not followed.

use crate::error::{views, AafError};
use crate::file::AAFFile;
use crate::interchange_object::{InterchangeObjectDescriptor, ObjectView};
use crate::model::{properties_of, value_of, FileView};
use crate::properties::{PropertyValue, ValueView};
use crate::types::OMPropertyId;
use vstd::prelude::*;

verus! {

/// One step of the walk: a property of an object, its value where it could
/// be resolved, and how far below the root the object lies.
#[derive(Debug, Clone, PartialEq, Eq)]
pub struct AAFEntry {
    parent: InterchangeObjectDescriptor,
    property: OMPropertyId,
    value: Option<PropertyValue>,
    depth: usize,
}

/// The mathematical value of an [`AAFEntry`].
pub struct EntryView {
    pub parent: ObjectView,
    pub property: OMPropertyId,
    pub value: Option<ValueView>,
    pub depth: nat,
}

impl View for AAFEntry {
    type V = EntryView;

    closed spec fn view(&self) -> EntryView {
        EntryView {
            parent: self.parent@,
            property: self.property,
            value: match self.value {
                Some(value) => Some(value@),
                None => None,
            },
            depth: self.depth as nat,
        }
    }
}

impl AAFEntry {
    /// The object that has the property.
    pub fn parent(&self) -> (parent: &InterchangeObjectDescriptor)
        ensures
            parent@ == self@.parent,
    {
        &self.parent
    }

    /// The identifier of the property.
    pub fn property_id(&self) -> (pid: OMPropertyId)
        ensures
            pid == self@.property,
    {
        self.property
    }

    /// The value of the property, or nothing where it could not be
    /// resolved.
    pub fn value(&self) -> (value: &Option<PropertyValue>)
        ensures
            match *value {
                Some(v) => self@.value == Some(v@),
                None => self@.value is None,
            },
    {
        &self.value
    }

    /// The number of references between the root object and the object
    /// that has the property, plus one.
    pub fn depth(&self) -> (depth: usize)
        ensures
            depth == self@.depth,
    {
        self.depth
    }
}

/// The entry for the property `pid` of `parent`, which lies `depth` below
/// the root.
pub open spec fn entry_for(file: FileView, parent: ObjectView, pid: OMPropertyId, depth: nat)
    -> EntryView {
    EntryView {
        parent,
        property: pid,
        value: match value_of(file, parent, pid) {
            Ok(value) => Some(value),
            Err(_) => None,
        },
        depth: depth + 1,
    }
}

/// The entries for the properties of `parent`, in the order of its property
/// table; none where the table cannot be read.
pub open spec fn entries_of(file: FileView, parent: ObjectView, depth: nat) -> Seq<EntryView> {
    match properties_of(file, parent) {
        Ok(records) => Seq::new(
            records.len(),
            |i: int| entry_for(file, parent, records[i].pid, depth),
        ),
        Err(_) => Seq::empty(),
    }
}

/// The entries for the last `n` objects of `list`, those of the last object
/// first and those of the earliest last.
pub open spec fn entries_of_last(file: FileView, list: Seq<ObjectView>, depth: nat, n: int) -> Seq<
    EntryView,
>
    decreases n,
{
    if n <= 0 {
        Seq::empty()
    } else {
        entries_of_last(file, list, depth, n - 1) + entries_of(file, list[list.len() - n], depth)
    }
}

/// What the walk still has to visit because of `entry`: the properties of
/// the object, or of the objects, that the entry's value owns. The objects
/// of a collection are put down last to first, so that the first is taken
/// up first. An entry at the greatest depth that can be counted adds
/// nothing.
pub open spec fn descent(file: FileView, entry: EntryView) -> Seq<EntryView> {
    if entry.depth >= usize::MAX {
        Seq::empty()
    } else {
        match entry.value {
            Some(ValueView::Single(object)) => entries_of(file, object, entry.depth),
            Some(ValueView::Vector(list)) => entries_of_last(
                file,
                list,
                entry.depth,
                list.len() as int,
            ),
            Some(ValueView::ObjectSet(list)) => entries_of_last(
                file,
                list,
                entry.depth,
                list.len() as int,
            ),
            _ => Seq::empty(),
        }
    }
}

/// The first `n` entries that a walk reports which has `stack` still to
/// visit, the next entry last in `stack`; fewer where the walk ends before.
pub open spec fn reported(file: FileView, stack: Seq<EntryView>, n: nat) -> Seq<EntryView>
    decreases n,
{
    if n == 0 || stack.len() == 0 {
        Seq::empty()
    } else {
        seq![stack.last()] + reported(
            file,
            stack.drop_last() + descent(file, stack.last()),
            (n - 1) as nat,
        )
    }
}

/// The walk goes depth first: what lies on top is reported together with
/// all that it leads to before anything below it. As long as the walk from
/// `above` alone has not ended, entries `below` change nothing in what is
/// reported.
pub proof fn lemma_walk_is_depth_first(
    file: FileView,
    below: Seq<EntryView>,
    above: Seq<EntryView>,
    n: nat,
)
    requires
        reported(file, above, n).len() == n,
    ensures
        reported(file, below + above, n) == reported(file, above, n),
    decreases n,
{
    if n > 0 {
        let top = above.last();
        let rest = above.drop_last() + descent(file, top);
        let all = below + above;
        assert(all.last() == top);
        assert(all.drop_last() + descent(file, top) =~= below + rest);
        lemma_walk_is_depth_first(file, below, rest, (n - 1) as nat);
    }
}

/// The members of a collection are visited in their order: after the
/// descent into `list`, the walk reports the properties of the first member,
/// and all that they lead to, before anything else.
pub proof fn lemma_first_member_first(
    file: FileView,
    below: Seq<EntryView>,
    list: Seq<ObjectView>,
    depth: nat,
    n: nat,
)
    requires
        list.len() > 0,
        reported(file, entries_of(file, list[0], depth), n).len() == n,
    ensures
        reported(file, below + entries_of_last(file, list, depth, list.len() as int), n)
            == reported(file, entries_of(file, list[0], depth), n),
{
    let others = entries_of_last(file, list, depth, list.len() - 1);
    let first = entries_of(file, list[0], depth);
    assert(below + entries_of_last(file, list, depth, list.len() as int) =~= (below + others)
        + first);
    lemma_walk_is_depth_first(file, below + others, first, n);
}

/// Whether the walk that has `stack` still to visit is over after at most
/// `n` entries.
pub open spec fn ends_within(file: FileView, stack: Seq<EntryView>, n: nat) -> bool {
    reported(file, stack, n + 1).len() <= n
}

/// Whether what `entry` leads to is a tree of at most `height` levels below
/// it: with no level left, the entry adds nothing to the walk; otherwise
/// each entry that it adds leads to a tree of one level less.
pub open spec fn leads_to_tree(file: FileView, entry: EntryView, height: nat) -> bool
    decreases height,
{
    if height == 0 {
        descent(file, entry).len() == 0
    } else {
        forall|i: int|
            0 <= i < descent(file, entry).len() ==> leads_to_tree(
                file,
                #[trigger] descent(file, entry)[i],
                (height - 1) as nat,
            )
    }
}

/// A walk ends once what lies on top of it is used up, where each entry on
/// top leads to a tree of at most `height` levels and the walk from `below`
/// alone ends.
proof fn lemma_walk_ends_above(
    file: FileView,
    below: Seq<EntryView>,
    above: Seq<EntryView>,
    height: nat,
    m: nat,
) -> (n: nat)
    requires
        ends_within(file, below, m),
        forall|i: int| 0 <= i < above.len() ==> leads_to_tree(file, #[trigger] above[i], height),
    ensures
        ends_within(file, below + above, n),
    decreases height, above.len(),
{
    if above.len() == 0 {
        assert(below + above =~= below);
        m
    } else {
        let top = above.last();
        let added = descent(file, top);
        let before = below + above.drop_last();
        let n1 = lemma_walk_ends_above(file, below, above.drop_last(), height, m);
        assert(leads_to_tree(file, top, height));
        let n2 = if height == 0 {
            assert(before + added =~= before);
            n1
        } else {
            lemma_walk_ends_above(file, before, added, (height - 1) as nat, n1)
        };
        let all = below + above;
        assert(all.last() == top);
        assert(all.drop_last() + added =~= before + added);
        (n2 + 1) as nat
    }
}

/// A walk over a finite tree ends: where each entry that is still to be
/// visited leads to a tree of at most `height` levels, some number of
/// entries is all that the walk reports.
pub proof fn lemma_walk_over_tree_ends(file: FileView, stack: Seq<EntryView>, height: nat)
    requires
        forall|i: int| 0 <= i < stack.len() ==> leads_to_tree(file, #[trigger] stack[i], height),
    ensures
        exists|n: nat| ends_within(file, stack, n),
{
    let below = Seq::<EntryView>::empty();
    let n = lemma_walk_ends_above(file, below, stack, height, 0);
    assert(below + stack =~= stack);
    assert(ends_within(file, stack, n));
}

/// The state of a walk: the entries that are still to be reported, the next
/// one last.
pub struct AAFPropertyIterator {
    stack: Vec<AAFEntry>,
}

impl View for AAFPropertyIterator {
    type V = Seq<EntryView>;

    closed spec fn view(&self) -> Seq<EntryView> {
        views(self.stack@)
    }
}

impl AAFPropertyIterator {
    /// A walk that starts with the properties of `root_object`.
    pub fn new(file: &mut AAFFile, root_object: InterchangeObjectDescriptor) -> (walk: Self)
        ensures
            final(file)@ == old(file)@,
            walk@ == entries_of(old(file)@, root_object@, 0),
    {
        let mut walk = AAFPropertyIterator { stack: Vec::new() };
        assert(walk@ =~= Seq::<EntryView>::empty());
        walk.fill_stack(file, &root_object, 0);
        walk
    }

    /// Puts down the entries for the properties of `parent`.
    fn fill_stack(&mut self, file: &mut AAFFile, parent: &InterchangeObjectDescriptor, depth: usize)
        requires
            depth < usize::MAX,
        ensures
            final(file)@ == old(file)@,
            final(self)@ == old(self)@ + entries_of(old(file)@, parent@, depth as nat),
    {
        let ghost held = file@;
        let ghost before = self@;
        let ids = match file.all_property_ids(parent) {
            Ok(ids) => ids,
            Err(_) => {
                assert(self@ =~= before + entries_of(held, parent@, depth as nat));
                return ;
            },
        };
        let ghost wanted = entries_of(held, parent@, depth as nat);
        let mut i: usize = 0;
        while i < ids.len()
            invariant
                i <= ids.len(),
                depth < usize::MAX,
                file@ == held,
                held == old(file)@,
                before == old(self)@,
                wanted == entries_of(held, parent@, depth as nat),
                wanted.len() == ids@.len(),
                forall|j: int|
                    0 <= j < ids@.len() ==> #[trigger] wanted[j] == entry_for(
                        held,
                        parent@,
                        ids@[j],
                        depth as nat,
                    ),
                self@ == before + wanted.take(i as int),
            decreases ids.len() - i,
        {
            let pid = ids[i];
            let value = file.get_value(parent, pid);
            let entry = AAFEntry { parent: parent.duplicate(), property: pid, value, depth: depth + 1 };
            assert(entry@ == wanted[i as int]);
            let ghost stack_before = self.stack@;
            self.stack.push(entry);
            assert(views(self.stack@) =~= views(stack_before).push(entry@));
            assert(wanted.take(i as int + 1) =~= wanted.take(i as int).push(wanted[i as int]));
            assert(self@ =~= before + wanted.take(i as int + 1));
            i = i + 1;
        }
        assert(wanted.take(ids@.len() as int) =~= wanted);
    }

    /// Reports the next entry, and puts down what the walk has to visit
    /// because of it. Returns nothing when the walk is over.
    pub fn next(&mut self, file: &mut AAFFile) -> (r: Option<AAFEntry>)
        ensures
            final(file)@ == old(file)@,
            match r {
                Some(entry) => {
                    &&& old(self)@.len() > 0
                    &&& entry@ == old(self)@.last()
                    &&& final(self)@ == old(self)@.drop_last() + descent(old(file)@, entry@)
                },
                None => old(self)@.len() == 0 && final(self)@ == old(self)@,
            },
    {
        let ghost held = file@;
        let ghost stack_before = self.stack@;
        let entry = match self.stack.pop() {
            Some(entry) => entry,
            None => {
                assert(self@.len() == 0);
                return None;
            },
        };
        assert(views(self.stack@) =~= views(stack_before).drop_last());
        assert(entry@ == views(stack_before).last());
        let ghost rest = self@;
        if entry.depth < usize::MAX {
            match &entry.value {
                Some(PropertyValue::Single(object)) => {
                    self.fill_stack(file, object, entry.depth);
                },
                Some(PropertyValue::Vector(list)) => {
                    self.descend_into(file, list, entry.depth);
                },
                Some(PropertyValue::ObjectSet(list)) => {
                    self.descend_into(file, list, entry.depth);
                },
                _ => {
                    assert(self@ =~= rest + descent(held, entry@));
                },
            }
        } else {
            assert(self@ =~= rest + descent(held, entry@));
        }
        Some(entry)
    }

    /// Puts down the entries for the properties of the objects of `list`,
    /// the last object first.
    fn descend_into(
        &mut self,
        file: &mut AAFFile,
        list: &Vec<InterchangeObjectDescriptor>,
        depth: usize,
    )
        requires
            depth < usize::MAX,
        ensures
            final(file)@ == old(file)@,
            final(self)@ == old(self)@ + entries_of_last(
                old(file)@,
                views(list@),
                depth as nat,
                list@.len() as int,
            ),
    {
        let ghost held = file@;
        let ghost before = self@;
        let ghost objects = views(list@);
        let count = list.len();
        let mut done: usize = 0;
        assert(self@ =~= before + entries_of_last(held, objects, depth as nat, 0));
        while done < count
            invariant
                done <= count,
                count == list@.len(),
                depth < usize::MAX,
                file@ == held,
                held == old(file)@,
                before == old(self)@,
                objects == views(list@),
                self@ == before + entries_of_last(held, objects, depth as nat, done as int),
            decreases count - done,
        {
            let ghost so_far = entries_of_last(held, objects, depth as nat, done as int);
            let at = count - 1 - done;
            assert(objects[at as int] == list@[at as int]@);
            self.fill_stack(file, &list[at], depth);
            assert(self@ =~= before + (so_far + entries_of(held, objects[at as int], depth as nat)));
            done = done + 1;
        }
    }
}

impl AAFFile {
    /// A walk over the properties of all objects of the container, from
    /// the root object down.
    pub fn walk_properties(&mut self) -> (r: Result<AAFPropertyIterator, AafError>)
        ensures
            final(self)@ == old(self)@,
            match r {
                Ok(walk) => crate::model::object_at(old(self)@, "/"@) matches Ok(root) && walk@
                    == entries_of(old(self)@, root, 0),
                Err(e) => crate::model::object_at(old(self)@, "/"@) == Err::<ObjectView, _>(e@),
            },
    {
        let root = self.root_object()?;
        Ok(AAFPropertyIterator::new(self, root))
    }
}

} // verus!
