//! `smallvec` vectors that keep the short working lists of the graph store
//! inline: the undo journal of a batch and the relations that a merge moves.
//! Each is described by what it holds, its items in order.
use crate::graph::Undo;
use crate::graph_ontology::EdgeData;
use smallvec::SmallVec;
use vstd::prelude::*;

verus! {

/// Undo records of the steps a batch has applied, oldest first, held in a
/// `smallvec` vector that keeps short batches inline.
#[verifier::external_body]
#[derive(Debug)]
pub struct UndoJournal {
    items: SmallVec<[Undo; 8]>,
}

/// Relations a merge moves to its target, as source index, target index and
/// payload, held in a `smallvec` vector that keeps small neighbourhoods
/// inline.
#[verifier::external_body]
#[derive(Debug)]
pub struct RewireBuffer {
    items: SmallVec<[(u32, u32, EdgeData); 8]>,
}

/// Records of an undo journal, in order.
pub uninterp spec fn journal_items(journal: UndoJournal) -> Seq<Undo>;

/// Planned relations of a rewire buffer, in order.
pub uninterp spec fn rewire_items(buffer: RewireBuffer) -> Seq<(u32, u32, EdgeData)>;

/// `SmallVec::new`: an empty journal.
#[verifier::external_body]
pub(crate) fn journal_new() -> (journal: UndoJournal)
    ensures
        journal_items(journal) == Seq::<Undo>::empty(),
{
    UndoJournal { items: SmallVec::new() }
}

/// `SmallVec::push`: the record is appended. A journal already holding
/// `usize::MAX` records is left out: its length would overflow.
#[verifier::external_body]
pub(crate) fn journal_push(journal: &mut UndoJournal, undo: Undo)
    requires
        journal_items(*old(journal)).len() < usize::MAX,
    ensures
        journal_items(*final(journal)) == journal_items(*old(journal)).push(undo),
{
    journal.items.push(undo)
}

/// `SmallVec::pop`: the newest record is removed and returned; an empty
/// journal gives `None` and stays empty.
#[verifier::external_body]
pub(crate) fn journal_pop(journal: &mut UndoJournal) -> (undo: Option<Undo>)
    ensures
        journal_items(*old(journal)).len() == 0 ==> undo is None && journal_items(*final(journal))
            == journal_items(*old(journal)),
        journal_items(*old(journal)).len() > 0 ==> undo == Some(journal_items(*old(journal)).last())
            && journal_items(*final(journal)) == journal_items(*old(journal)).drop_last(),
{
    journal.items.pop()
}

/// `SmallVec::len`: the number of records.
#[verifier::external_body]
pub(crate) fn journal_len(journal: &UndoJournal) -> (len: usize)
    ensures
        len == journal_items(*journal).len(),
{
    journal.items.len()
}

/// `SmallVec::new`: an empty rewire buffer.
#[verifier::external_body]
pub(crate) fn rewire_new() -> (buffer: RewireBuffer)
    ensures
        rewire_items(buffer) == Seq::<(u32, u32, EdgeData)>::empty(),
{
    RewireBuffer { items: SmallVec::new() }
}

/// `SmallVec::push`: the relation is appended. A buffer already holding
/// `usize::MAX` relations is left out: its length would overflow.
#[verifier::external_body]
pub(crate) fn rewire_push(buffer: &mut RewireBuffer, relation: (u32, u32, EdgeData))
    requires
        rewire_items(*old(buffer)).len() < usize::MAX,
    ensures
        rewire_items(*final(buffer)) == rewire_items(*old(buffer)).push(relation),
{
    buffer.items.push(relation)
}

/// `SmallVec::as_slice`: the planned relations in order.
#[verifier::external_body]
pub(crate) fn rewire_as_slice(buffer: &RewireBuffer) -> (relations: &[(u32, u32, EdgeData)])
    ensures
        relations@ == rewire_items(*buffer),
{
    buffer.items.as_slice()
}

} // verus!
