//! Waiting lists.

use vstd::prelude::*;

verus! {

/// An entry of a waiting list: who waits, and the handle that wakes it.
#[derive(Debug)]
pub struct Waiter<W> {
    /// Tells this waiter from the others on its list.
    pub id: u64,
    /// Wakes the waiter.
    pub handle: W,
}

/// Whether somebody with this `id` is on the list.
pub open spec fn listed<W>(list: Seq<Waiter<W>>, id: u64) -> bool {
    exists|i: int| 0 <= i < list.len() && (#[trigger] list[i]).id == id
}

/// Whether `i` is the first place of `id` on the list.
pub open spec fn first_at<W>(list: Seq<Waiter<W>>, id: u64, i: int) -> bool {
    &&& 0 <= i < list.len()
    &&& list[i].id == id
    &&& forall|j: int| 0 <= j < i ==> (#[trigger] list[j]).id != id
}

/// The first place of `id` on a list that holds it.
pub open spec fn first_place<W>(list: Seq<Waiter<W>>, id: u64) -> int {
    choose|i: int| first_at(list, id, i)
}

/// The first entry of `id`.
pub open spec fn first_of<W>(list: Seq<Waiter<W>>, id: u64) -> Option<Waiter<W>> {
    if listed(list, id) {
        Some(list[first_place(list, id)])
    } else {
        None
    }
}

/// The list without the first entry of `id`; the same list if there is none.
pub open spec fn without_first<W>(list: Seq<Waiter<W>>, id: u64) -> Seq<Waiter<W>> {
    if listed(list, id) {
        list.remove(first_place(list, id))
    } else {
        list
    }
}

/// Whether no two entries of the list share an id.
pub open spec fn distinct_ids<W>(list: Seq<Waiter<W>>) -> bool {
    forall|i: int, j: int|
        0 <= i < j < list.len() ==> (#[trigger] list[i]).id != (#[trigger] list[j]).id
}

/// A list that holds `id` has one first place for it.
pub proof fn lemma_first_place<W>(list: Seq<Waiter<W>>, id: u64)
    requires
        listed(list, id),
    ensures
        first_at(list, id, first_place(list, id)),
        forall|i: int| first_at(list, id, i) ==> i == first_place(list, id),
{
    let some = choose|i: int| 0 <= i < list.len() && (#[trigger] list[i]).id == id;
    lemma_first_up_to(list, id, some);
}

proof fn lemma_first_up_to<W>(list: Seq<Waiter<W>>, id: u64, i: int)
    requires
        0 <= i < list.len(),
        list[i].id == id,
    ensures
        exists|k: int| first_at(list, id, k),
    decreases i,
{
    if exists|j: int| 0 <= j < i && (#[trigger] list[j]).id == id {
        let j = choose|j: int| 0 <= j < i && (#[trigger] list[j]).id == id;
        lemma_first_up_to(list, id, j);
    } else {
        assert(first_at(list, id, i));
    }
}

/// Finds the first entry of `id`.
pub fn position<W>(list: &Vec<Waiter<W>>, id: u64) -> (place: Option<usize>)
    ensures
        match place {
            Some(i) => first_at(list@, id, i as int),
            None => !listed(list@, id),
        },
{
    let mut i: usize = 0;
    while i < list.len()
        invariant
            i <= list.len(),
            forall|j: int| 0 <= j < i ==> (#[trigger] list@[j]).id != id,
        decreases list.len() - i,
    {
        if list[i].id == id {
            return Some(i);
        }
        i += 1;
    }
    None
}

/// Takes the first entry of `id` off the list.
pub fn remove_first<W>(list: &mut Vec<Waiter<W>>, id: u64) -> (removed: Option<Waiter<W>>)
    ensures
        final(list)@ == without_first(old(list)@, id),
        removed == first_of(old(list)@, id),
{
    match position(list, id) {
        Some(i) => {
            proof {
                lemma_first_place(list@, id);
            }
            Some(list.remove(i))
        },
        None => None,
    }
}

/// Takes everything off a list.
pub fn take_all<A>(list: &mut Vec<A>) -> (taken: Vec<A>)
    ensures
        taken@ == old(list)@,
        final(list)@ == Seq::<A>::empty(),
{
    let mut taken: Vec<A> = Vec::new();
    std::mem::swap(&mut taken, list);
    taken
}

/// Source of ids for waiters.
#[derive(Debug)]
pub struct WaiterIds {
    next: u64,
}

impl WaiterIds {
    /// The id that is drawn next.
    pub closed spec fn next(&self) -> u64 {
        self.next
    }

    /// A source that starts at zero.
    pub fn new() -> (ids: Self)
        ensures
            ids.next() == 0,
    {
        WaiterIds { next: 0 }
    }

    /// Draws an id. After the largest id the source starts over at zero.
    pub fn fetch_add(&mut self) -> (id: u64)
        ensures
            id == old(self).next(),
            final(self).next() == id_after(id, 1),
    {
        let id = self.next;
        self.next = id.wrapping_add(1);
        id
    }
}

/// The id drawn `draws` draws after `id`.
pub open spec fn id_after(id: u64, draws: nat) -> u64 {
    ((id + draws) % 0x1_0000_0000_0000_0000) as u64
}

/// Two ids drawn from one source differ, unless the source has gone all the way
/// round between them.
pub proof fn law_drawn_ids_differ(start: u64, earlier: nat, later: nat)
    requires
        earlier < later < earlier + 0x1_0000_0000_0000_0000,
    ensures
        id_after(start, earlier) != id_after(start, later),
        id_after(id_after(start, earlier), 1) == id_after(start, earlier + 1),
{
}

} // verus!
