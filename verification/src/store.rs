//! The tool result store: where the page's answers meet the requests that
//! wait for them.
//!
//! A request is opened under its correlation id before the page hears of
//! it. The page's answer is kept under that id until the dispatcher takes
//! it. An answer for an id that is not open is dropped, so the store never
//! holds more entries than there are requests in flight.

use crate::text::opt_text;
use vstd::prelude::*;

verus! {

/// What the store holds: each open correlation id with the answer that has
/// come for it, if one has.
pub type StoreModel = Map<Seq<char>, Option<Seq<char>>>;

/// The store after a request is opened under `id`. An id that is open
/// already stays as it is.
pub open spec fn opened(m: StoreModel, id: Seq<char>) -> StoreModel {
    if m.dom().contains(id) {
        m
    } else {
        m.insert(id, None)
    }
}

/// The store after the page has submitted `result` for `id`: kept where the
/// id is open, in place of an earlier answer if there was one, and dropped
/// where it is not.
pub open spec fn submitted(m: StoreModel, id: Seq<char>, result: Seq<char>) -> StoreModel {
    if m.dom().contains(id) {
        m.insert(id, Some(result))
    } else {
        m
    }
}

/// The answer that waits under `id`, if any.
pub open spec fn answer(m: StoreModel, id: Seq<char>) -> Option<Seq<char>> {
    if m.dom().contains(id) {
        m[id]
    } else {
        None
    }
}

/// The store after the dispatcher has asked for the answer under `id`: an
/// answer that waited is consumed together with its request.
pub open spec fn taken(m: StoreModel, id: Seq<char>) -> StoreModel {
    if answer(m, id) is Some {
        m.remove(id)
    } else {
        m
    }
}

/// One open request: its correlation id and the answer that has come for
/// it, if one has.
struct Slot {
    id: String,
    result: Option<String>,
}

/// The shared store of tool results, keyed by correlation id.
///
/// The open requests are kept in a list in which no id occurs twice. They
/// are few, one for each dispatch in flight, so a lookup walks the list.
pub struct ToolStore {
    slots: Vec<Slot>,
}

/// The answer that a slot holds, as text.
spec fn slot_result(slot: Slot) -> Option<Seq<char>> {
    match slot.result {
        Some(s) => Some(s@),
        None => None,
    }
}

/// No id occurs in two slots.
spec fn distinct(slots: Seq<Slot>) -> bool {
    forall|i: int, j: int| 0 <= i < j < slots.len() ==> slots[i].id@ != slots[j].id@
}

/// Some slot is that of `id`.
spec fn holds(slots: Seq<Slot>, id: Seq<char>) -> bool {
    exists|i: int| 0 <= i < slots.len() && (#[trigger] slots[i]).id@ == id
}

/// The position of the slot of `id`, where there is one.
spec fn index_of(slots: Seq<Slot>, id: Seq<char>) -> int {
    choose|i: int| 0 <= i < slots.len() && (#[trigger] slots[i]).id@ == id
}

/// The map that a list of slots stands for.
spec fn model(slots: Seq<Slot>) -> StoreModel {
    Map::new(
        |id: Seq<char>| holds(slots, id),
        |id: Seq<char>| slot_result(slots[index_of(slots, id)]),
    )
}

/// In a list without repeated ids, each slot is the one that the map shows
/// under its id.
proof fn lemma_model_at(slots: Seq<Slot>, i: int)
    requires
        distinct(slots),
        0 <= i < slots.len(),
    ensures
        model(slots).dom().contains(slots[i].id@),
        model(slots)[slots[i].id@] == slot_result(slots[i]),
        index_of(slots, slots[i].id@) == i,
{
    let id = slots[i].id@;
    assert(holds(slots, id));
    let k = index_of(slots, id);
    if k < i {
        assert(slots[k].id@ != slots[i].id@);
    } else if i < k {
        assert(slots[i].id@ != slots[k].id@);
    }
}

/// A list without repeated ids stands for a map of as many entries.
proof fn lemma_model_finite(slots: Seq<Slot>)
    requires
        distinct(slots),
    ensures
        model(slots).dom().finite(),
        model(slots).dom().len() == slots.len(),
    decreases slots.len(),
{
    if slots.len() == 0 {
        assert(model(slots).dom() =~= Set::empty());
    } else {
        let front = slots.drop_last();
        let id = slots.last().id@;
        lemma_model_finite(front);
        assert(!holds(front, id)) by {
            if holds(front, id) {
                let k = index_of(front, id);
                assert(slots[k].id@ != slots[slots.len() - 1].id@);
            }
        }
        assert forall|k: Seq<char>| model(slots).dom().contains(k) <==> model(front).dom().insert(
            id,
        ).contains(k) by {
            if holds(slots, k) {
                let i = index_of(slots, k);
                if i < front.len() {
                    assert(front[i].id@ == k);
                }
            }
            if holds(front, k) {
                let i = index_of(front, k);
                assert(slots[i].id@ == k);
            }
            if k == id {
                assert(slots[slots.len() - 1].id@ == k);
            }
        }
        assert(model(slots).dom() =~= model(front).dom().insert(id));
    }
}

impl View for ToolStore {
    type V = StoreModel;

    closed spec fn view(&self) -> StoreModel {
        model(self.slots@)
    }
}

impl Default for ToolStore {
    fn default() -> (store: ToolStore)
        ensures
            store@ == Map::<Seq<char>, Option<Seq<char>>>::empty(),
    {
        ToolStore::new()
    }
}

impl ToolStore {
    #[verifier::type_invariant]
    spec fn unique_ids(self) -> bool {
        distinct(self.slots@)
    }

    /// A store without requests.
    pub fn new() -> (store: ToolStore)
        ensures
            store@ == Map::<Seq<char>, Option<Seq<char>>>::empty(),
    {
        let store = ToolStore { slots: Vec::new() };
        proof {
            assert(model(store.slots@) =~= Map::empty());
        }
        store
    }

    /// The position of the slot of `id`, if there is one.
    fn position(&self, id: &String) -> (r: Option<usize>)
        ensures
            match r {
                Some(i) => i < self.slots.len() && self.slots[i as int].id@ == id@,
                None => !self@.dom().contains(id@),
            },
    {
        let mut i: usize = 0;
        while i < self.slots.len()
            invariant
                i <= self.slots.len(),
                forall|j: int| 0 <= j < i ==> self.slots[j].id@ != id@,
            decreases self.slots.len() - i,
        {
            if self.slots[i].id == *id {
                return Some(i);
            }
            i += 1;
        }
        None
    }

    /// The number of open requests.
    pub fn len(&self) -> (n: usize)
        ensures
            self@.dom().finite(),
            n == self@.dom().len(),
    {
        proof {
            use_type_invariant(self);
            lemma_model_finite(self.slots@);
        }
        self.slots.len()
    }

    /// Whether a request is open under `id`.
    pub fn is_open(&self, id: &str) -> (r: bool)
        ensures
            r == self@.dom().contains(id@),
    {
        let key = id.to_owned();
        let at = self.position(&key);
        proof {
            use_type_invariant(self);
            if let Some(i) = at {
                lemma_model_at(self.slots@, i as int);
            }
        }
        at.is_some()
    }

    /// Opens a request under `id`. Returns whether it did: an id that is
    /// open already is not opened a second time.
    pub fn open(&mut self, id: &str) -> (fresh: bool)
        ensures
            fresh == !old(self)@.dom().contains(id@),
            final(self)@ == opened(old(self)@, id@),
    {
        let key = id.to_owned();
        let at = self.position(&key);
        proof {
            use_type_invariant(&*self);
        }
        match at {
            Some(i) => {
                proof {
                    lemma_model_at(self.slots@, i as int);
                }
                false
            },
            None => {
                let ghost before = self.slots@;
                let mut slots: Vec<Slot> = Vec::new();
                core::mem::swap(&mut self.slots, &mut slots);
                slots.push(Slot { id: key, result: None });
                proof {
                    let after = slots@;
                    assert(distinct(after)) by {
                        assert forall|i: int, j: int| 0 <= i < j < after.len() implies after[i].id@
                            != after[j].id@ by {
                            if j < before.len() {
                                assert(after[i] == before[i] && after[j] == before[j]);
                            } else {
                                assert(after[i] == before[i]);
                                assert(!holds(before, id@));
                            }
                        }
                    }
                    assert(after.drop_last() =~= before);
                    lemma_store_pushed(before, after);
                }
                self.slots = slots;
                true
            },
        }
    }

    /// Takes in the page's answer for `id`. It is kept where a request is
    /// open under `id`, in place of an earlier answer if there was one. For
    /// any other id it is dropped: the store does not grow.
    pub fn submit(&mut self, id: &str, result: String)
        ensures
            final(self)@ == submitted(old(self)@, id@, result@),
    {
        let key = id.to_owned();
        let at = self.position(&key);
        proof {
            use_type_invariant(&*self);
        }
        match at {
            Some(i) => {
                let ghost before = self.slots@;
                let mut slots: Vec<Slot> = Vec::new();
                core::mem::swap(&mut self.slots, &mut slots);
                slots.set(i, Slot { id: key, result: Some(result) });
                proof {
                    lemma_store_set(before, slots@, i as int);
                }
                self.slots = slots;
            },
            None => {},
        }
    }

    /// Hands out the answer that waits under `id`, and with it closes the
    /// request. Without an answer nothing changes.
    pub fn take(&mut self, id: &str) -> (r: Option<String>)
        ensures
            opt_text(r) == answer(old(self)@, id@),
            final(self)@ == taken(old(self)@, id@),
    {
        let key = id.to_owned();
        let at = self.position(&key);
        proof {
            use_type_invariant(&*self);
        }
        match at {
            Some(i) => {
                proof {
                    lemma_model_at(self.slots@, i as int);
                }
                if self.slots[i].result.is_some() {
                    let ghost before = self.slots@;
                    let mut slots: Vec<Slot> = Vec::new();
                    core::mem::swap(&mut self.slots, &mut slots);
                    let slot = slots.remove(i);
                    proof {
                        lemma_store_removed(before, slots@, i as int);
                    }
                    self.slots = slots;
                    slot.result
                } else {
                    None
                }
            },
            None => None,
        }
    }

    /// Closes the request under `id`, with or without an answer.
    pub fn close(&mut self, id: &str)
        ensures
            final(self)@ == old(self)@.remove(id@),
    {
        let key = id.to_owned();
        let at = self.position(&key);
        proof {
            use_type_invariant(&*self);
        }
        match at {
            Some(i) => {
                let ghost before = self.slots@;
                let mut slots: Vec<Slot> = Vec::new();
                core::mem::swap(&mut self.slots, &mut slots);
                let _ = slots.remove(i);
                proof {
                    lemma_store_removed(before, slots@, i as int);
                }
                self.slots = slots;
            },
            None => {
                proof {
                    assert(self@.remove(id@) =~= self@);
                }
            },
        }
    }
}

/// Takes in the page's answer for the request `request_id`. Answers are
/// accepted at any time and never refused: one that matches no open request
/// has no effect.
pub fn tool_response(request_id: String, result: String, tool_store: &mut ToolStore) -> (r: Result<
    (),
    String,
>)
    ensures
        r is Ok,
        final(tool_store)@ == submitted(old(tool_store)@, request_id@, result@),
{
    tool_store.submit(request_id.as_str(), result);
    Ok(())
}

/// A slot replaced by one of the same id is an entry overwritten.
proof fn lemma_store_set(before: Seq<Slot>, after: Seq<Slot>, i: int)
    requires
        distinct(before),
        0 <= i < before.len(),
        after.len() == before.len(),
        after[i].id@ == before[i].id@,
        forall|j: int| 0 <= j < before.len() && j != i ==> after[j] == before[j],
    ensures
        distinct(after),
        model(after) == model(before).insert(before[i].id@, slot_result(after[i])),
{
    let id = before[i].id@;
    let want = model(before).insert(id, slot_result(after[i]));
    assert forall|a: int, b: int| 0 <= a < b < after.len() implies after[a].id@ != after[b].id@ by {
        assert(after[a].id@ == before[a].id@);
        assert(after[b].id@ == before[b].id@);
    }
    lemma_model_at(before, i);
    assert forall|k: Seq<char>| model(after).dom().contains(k) <==> want.dom().contains(k) by {
        if holds(after, k) {
            let j = index_of(after, k);
            assert(before[j].id@ == k);
        }
        if holds(before, k) {
            let j = index_of(before, k);
            assert(after[j].id@ == k);
        }
    }
    assert forall|k: Seq<char>| model(after).dom().contains(k) implies model(after)[k] == want[k] by {
        let j = index_of(after, k);
        lemma_model_at(after, j);
        if j != i {
            assert(before[j].id@ == k);
            lemma_model_at(before, j);
        }
    }
    assert(model(after) =~= want);
}

/// A slot taken out is an entry removed.
proof fn lemma_store_removed(before: Seq<Slot>, after: Seq<Slot>, i: int)
    requires
        distinct(before),
        0 <= i < before.len(),
        after == before.remove(i),
    ensures
        distinct(after),
        model(after) == model(before).remove(before[i].id@),
{
    let id = before[i].id@;
    let want = model(before).remove(id);
    assert forall|a: int, b: int| 0 <= a < b < after.len() implies after[a].id@ != after[b].id@ by {
        let a0 = if a < i { a } else { a + 1 };
        let b0 = if b < i { b } else { b + 1 };
        assert(after[a] == before[a0]);
        assert(after[b] == before[b0]);
    }
    assert forall|k: Seq<char>| model(after).dom().contains(k) <==> want.dom().contains(k) by {
        if holds(after, k) {
            let j = index_of(after, k);
            let j0 = if j < i { j } else { j + 1 };
            assert(before[j0].id@ == k);
            if j0 < i {
                assert(before[j0].id@ != before[i].id@);
            } else {
                assert(before[i].id@ != before[j0].id@);
            }
        }
        if holds(before, k) && k != id {
            let j = index_of(before, k);
            let j1 = if j < i { j } else { j - 1 };
            assert(after[j1].id@ == k);
        }
    }
    assert forall|k: Seq<char>| model(after).dom().contains(k) implies model(after)[k] == want[k] by {
        let j = index_of(after, k);
        lemma_model_at(after, j);
        let j0 = if j < i { j } else { j + 1 };
        assert(after[j] == before[j0]);
        lemma_model_at(before, j0);
    }
    assert(model(after) =~= want);
}

/// A slot appended under a new id is an entry inserted.
proof fn lemma_store_pushed(before: Seq<Slot>, after: Seq<Slot>)
    requires
        distinct(after),
        after.len() == before.len() + 1,
        after.drop_last() == before,
    ensures
        model(after) == model(before).insert(after.last().id@, slot_result(after.last())),
{
    let id = after.last().id@;
    let want = model(before).insert(id, slot_result(after.last()));
    assert forall|k: Seq<char>| model(after).dom().contains(k) <==> want.dom().contains(k) by {
        if holds(after, k) {
            let i = index_of(after, k);
            if i < before.len() {
                assert(before[i].id@ == k);
            }
        }
        if holds(before, k) {
            let i = index_of(before, k);
            assert(after[i].id@ == k);
        }
        if k == id {
            assert(after[after.len() - 1].id@ == k);
        }
    }
    assert forall|k: Seq<char>| model(after).dom().contains(k) implies model(after)[k] == want[k] by {
        let i = index_of(after, k);
        lemma_model_at(after, i);
        if i < before.len() {
            assert(before[i] == after[i]);
            assert(distinct(before)) by {
                assert forall|a: int, b: int| 0 <= a < b < before.len() implies before[a].id@
                    != before[b].id@ by {
                    assert(before[a] == after[a] && before[b] == after[b]);
                }
            }
            lemma_model_at(before, i);
            assert(after[i].id@ != after[after.len() - 1].id@);
        }
    }
    assert(model(after) =~= want);
}


/// Submitting the same answer twice leaves the store as submitting it once.
pub proof fn lemma_submit_is_idempotent(m: StoreModel, id: Seq<char>, result: Seq<char>)
    ensures
        submitted(submitted(m, id, result), id, result) == submitted(m, id, result),
{
    assert(submitted(submitted(m, id, result), id, result) =~= submitted(m, id, result));
}

/// An answer never opens a request: whatever is submitted, the store holds
/// the same requests as before, and the answers of the others untouched.
pub proof fn lemma_submit_keeps_requests(m: StoreModel, id: Seq<char>, result: Seq<char>)
    ensures
        submitted(m, id, result).dom() == m.dom(),
        forall|other: Seq<char>|
            other != id ==> answer(submitted(m, id, result), other) == answer(m, other),
{
    assert(submitted(m, id, result).dom() =~= m.dom());
}

/// An answer is handed out once: after it is taken, nothing waits under
/// its id, and an answer that comes for that id later is dropped.
pub proof fn lemma_take_consumes(m: StoreModel, id: Seq<char>, late: Seq<char>)
    requires
        answer(m, id) is Some,
    ensures
        answer(taken(m, id), id) is None,
        submitted(taken(m, id), id, late) == taken(m, id),
{
}

} // verus!
