//! The correlation engine: which requests still await their one terminal
//! message, and which identifiers have been used up.

use vstd::prelude::*;
use super::message::MessageKind;
use super::protocol::RequestId;
use crate::text::{text_is, to_chars};

verus! {

/// The kinds of request the client issues.
#[derive(Debug, Clone, Copy, PartialEq, Eq, Structural)]
pub enum RequestKind {
    Initialize,
    ToolsList,
    ToolsCall,
}

impl RequestKind {
    /// The shape of the result that answers a request of this kind.
    pub open spec fn spec_answer(self) -> MessageKind {
        match self {
            RequestKind::Initialize => MessageKind::InitializeResult,
            RequestKind::ToolsList => MessageKind::ToolsListResult,
            RequestKind::ToolsCall => MessageKind::ToolsCallResult,
        }
    }

    /// The shape of the result that answers a request of this kind.
    pub fn answer(self) -> (kind: MessageKind)
        ensures
            kind == self.spec_answer(),
    {
        match self {
            RequestKind::Initialize => MessageKind::InitializeResult,
            RequestKind::ToolsList => MessageKind::ToolsListResult,
            RequestKind::ToolsCall => MessageKind::ToolsCallResult,
        }
    }
}

/// A request that was sent and not yet answered.
#[derive(Debug)]
pub struct PendingRequest {
    pub id: RequestId,
    pub kind: RequestKind,
}

/// Why the engine refused a request.
#[derive(Debug, Clone, Copy, PartialEq, Eq, Structural)]
pub enum CorrelationFault {
    /// The identifier is pending or was used earlier in this session.
    IdentifierReused,
}

/// No identifier occurs twice among `entries`.
pub open spec fn ids_distinct(entries: Seq<PendingRequest>) -> bool {
    forall|i: int, j: int| 0 <= i < j < entries.len() ==> entries[i].id@ != entries[j].id@
}

/// Whether some entry carries the identifier `id`.
pub open spec fn has_id(entries: Seq<PendingRequest>, id: Seq<char>) -> bool {
    exists|i: int| 0 <= i < entries.len() && #[trigger] entries[i].id@ == id
}

/// The entries as a mapping from identifier to request kind.
pub open spec fn pending_of(entries: Seq<PendingRequest>) -> Map<Seq<char>, RequestKind> {
    Map::new(
        |id: Seq<char>| has_id(entries, id),
        |id: Seq<char>|
            entries[choose|i: int| 0 <= i < entries.len() && #[trigger] entries[i].id@ == id].kind,
    )
}

/// The texts of a list of identifiers, as a set.
pub open spec fn texts_of(ids: Seq<RequestId>) -> Set<Seq<char>> {
    Set::new(|id: Seq<char>| exists|k: int| 0 <= k < ids.len() && #[trigger] ids[k]@ == id)
}

/// With distinct identifiers, each entry is found under its own identifier.
pub proof fn lemma_pending_entry(entries: Seq<PendingRequest>, i: int)
    requires
        ids_distinct(entries),
        0 <= i < entries.len(),
    ensures
        pending_of(entries).dom().contains(entries[i].id@),
        pending_of(entries)[entries[i].id@] == entries[i].kind,
{
    let id = entries[i].id@;
    assert(has_id(entries, id));
    let j = choose|j: int| 0 <= j < entries.len() && #[trigger] entries[j].id@ == id;
    assert(j == i);
}

/// Mathematical value of a [`PendingTable`].
pub struct PendingTableView {
    /// The requests that await an answer, by identifier.
    pub pending: Map<Seq<char>, RequestKind>,
    /// The identifiers that were answered, timed out or failed.
    pub retired: Set<Seq<char>>,
}

impl PendingTableView {
    /// Whether the identifier was ever issued in this session.
    pub open spec fn knows(self, id: Seq<char>) -> bool {
        self.pending.dom().contains(id) || self.retired.contains(id)
    }

    /// The request kind that awaits an answer under `id`, if any.
    pub open spec fn awaiting(self, id: Seq<char>) -> Option<RequestKind> {
        if self.pending.dom().contains(id) {
            Some(self.pending[id])
        } else {
            None
        }
    }

    /// The table after a request of kind `kind` was submitted under `id`: an
    /// identifier that is already known changes nothing.
    pub open spec fn submitted(self, id: Seq<char>, kind: RequestKind) -> PendingTableView {
        if self.knows(id) {
            self
        } else {
            PendingTableView { pending: self.pending.insert(id, kind), retired: self.retired }
        }
    }

    /// The table after the request under `id` was answered or given up:
    /// where nothing is pending under `id`, nothing changes.
    pub open spec fn resolved(self, id: Seq<char>) -> PendingTableView {
        if self.pending.dom().contains(id) {
            PendingTableView {
                pending: self.pending.remove(id),
                retired: self.retired.insert(id),
            }
        } else {
            self
        }
    }

    /// The table after every pending request was failed.
    pub open spec fn all_failed(self) -> PendingTableView {
        PendingTableView {
            pending: Map::<Seq<char>, RequestKind>::empty(),
            retired: self.retired.union(self.pending.dom()),
        }
    }

    /// No identifier is both pending and retired.
    pub open spec fn consistent(self) -> bool {
        forall|id: Seq<char>| !(self.pending.dom().contains(id) && self.retired.contains(id))
    }
}

/// The table of requests in flight.
pub struct PendingTable {
    entries: Vec<PendingRequest>,
    retired: Vec<RequestId>,
}

impl View for PendingTable {
    type V = PendingTableView;

    closed spec fn view(&self) -> PendingTableView {
        PendingTableView { pending: pending_of(self.entries@), retired: texts_of(self.retired@) }
    }
}

impl PendingTable {
    /// Identifiers of pending requests are distinct, and none of them is
    /// retired.
    pub closed spec fn wf(self) -> bool {
        &&& ids_distinct(self.entries@)
        &&& forall|i: int, k: int|
            0 <= i < self.entries.len() && 0 <= k < self.retired.len() ==> self.entries[i].id@
                != self.retired[k]@
    }

    /// A well-formed table never holds an identifier as both pending and
    /// retired.
    pub proof fn lemma_consistent(self)
        requires
            self.wf(),
        ensures
            self@.consistent(),
    {
    }

    /// An empty table: nothing pending, nothing retired.
    pub fn new() -> (table: Self)
        ensures
            table.wf(),
            table@.pending == Map::<Seq<char>, RequestKind>::empty(),
            table@.retired == Set::<Seq<char>>::empty(),
    {
        let table = PendingTable { entries: Vec::new(), retired: Vec::new() };
        assert(table@.pending =~= Map::<Seq<char>, RequestKind>::empty());
        assert(table@.retired =~= Set::<Seq<char>>::empty());
        table
    }

    /// Position of the pending entry with identifier `id`, if there is one.
    fn position(&self, id: &Vec<char>) -> (found: Option<usize>)
        ensures
            match found {
                Some(i) => i < self.entries.len() && self.entries[i as int].id@ == id@,
                None => !has_id(self.entries@, id@),
            },
    {
        let mut i: usize = 0;
        while i < self.entries.len()
            invariant
                i <= self.entries.len(),
                forall|k: int| 0 <= k < i ==> self.entries[k].id@ != id@,
            decreases self.entries.len() - i,
        {
            if text_is(self.entries[i].id.as_str(), id) {
                return Some(i);
            }
            i += 1;
        }
        None
    }

    /// Whether `id` is among the retired identifiers.
    fn was_retired(&self, id: &Vec<char>) -> (found: bool)
        ensures
            found == texts_of(self.retired@).contains(id@),
    {
        let mut k: usize = 0;
        while k < self.retired.len()
            invariant
                k <= self.retired.len(),
                forall|j: int| 0 <= j < k ==> self.retired[j]@ != id@,
            decreases self.retired.len() - k,
        {
            if text_is(self.retired[k].as_str(), id) {
                return true;
            }
            k += 1;
        }
        false
    }

    /// Whether a request with this identifier awaits its answer.
    pub fn is_pending(&self, id: &str) -> (pending: bool)
        ensures
            pending == self@.pending.dom().contains(id@),
    {
        let chars = to_chars(id);
        self.position(&chars).is_some()
    }

    /// Whether nothing is pending.
    pub fn is_idle(&self) -> (idle: bool)
        requires
            self.wf(),
        ensures
            idle == (self@.pending == Map::<Seq<char>, RequestKind>::empty()),
    {
        proof {
            if self.entries.len() > 0 {
                lemma_pending_entry(self.entries@, 0);
            } else {
                assert(self@.pending =~= Map::<Seq<char>, RequestKind>::empty());
            }
        }
        self.entries.len() == 0
    }

    /// Registers a request under a fresh identifier. An identifier that is
    /// pending, or that was used before in this session, is refused and the
    /// table stays as it was.
    pub fn submit(&mut self, id: RequestId, kind: RequestKind) -> (outcome: Result<
        (),
        CorrelationFault,
    >)
        requires
            old(self).wf(),
        ensures
            final(self).wf(),
            final(self)@ == old(self)@.submitted(id@, kind),
            outcome == if old(self)@.knows(id@) {
                Err::<(), CorrelationFault>(CorrelationFault::IdentifierReused)
            } else {
                Ok::<(), CorrelationFault>(())
            },
    {
        let chars = to_chars(id.as_str());
        if self.position(&chars).is_some() || self.was_retired(&chars) {
            return Err(CorrelationFault::IdentifierReused);
        }
        let ghost before = self.entries@;
        let entry = PendingRequest { id, kind };
        self.entries.push(entry);
        proof {
            let after = self.entries@;
            assert(ids_distinct(after));
            assert forall|key: Seq<char>| has_id(after, key) <==> (has_id(before, key) || key
                == id@) by {
                if has_id(after, key) {
                    let i = choose|i: int| 0 <= i < after.len() && #[trigger] after[i].id@ == key;
                    if i < before.len() {
                        assert(before[i].id@ == key);
                    }
                }
                if has_id(before, key) {
                    let i = choose|i: int| 0 <= i < before.len() && #[trigger] before[i].id@
                        == key;
                    assert(after[i].id@ == key);
                }
                if key == id@ {
                    assert(after[before.len() as int].id@ == key);
                }
            }
            assert forall|key: Seq<char>| has_id(after, key) implies #[trigger] pending_of(
                after,
            )[key] == pending_of(before).insert(id@, kind)[key] by {
                let i = choose|i: int| 0 <= i < after.len() && #[trigger] after[i].id@ == key;
                lemma_pending_entry(after, i);
                if i < before.len() {
                    lemma_pending_entry(before, i);
                }
            }
            assert(pending_of(after) =~= pending_of(before).insert(id@, kind));
        }
        Ok(())
    }

    /// Takes the pending request with identifier `id` out of the table and
    /// retires the identifier. Answers with the request's kind, or with
    /// `None` where nothing is pending under `id`: the table then stays as it
    /// was.
    pub fn resolve(&mut self, id: &str) -> (outcome: Option<RequestKind>)
        requires
            old(self).wf(),
        ensures
            final(self).wf(),
            outcome == old(self)@.awaiting(id@),
            final(self)@ == old(self)@.resolved(id@),
    {
        let chars = to_chars(id);
        let found = self.position(&chars);
        match found {
            None => None,
            Some(i) => {
                let ghost before = self.entries@;
                let ghost retired_before = self.retired@;
                proof {
                    lemma_pending_entry(before, i as int);
                }
                let entry = self.entries.remove(i);
                self.retired.push(entry.id);
                proof {
                    let after = self.entries@;
                    assert(after == before.remove(i as int));
                    assert forall|a: int| 0 <= a < after.len() implies #[trigger] after[a]
                        == before[if a < i { a } else { a + 1 }] by {}
                    assert(ids_distinct(after)) by {
                        assert forall|a: int, b: int| 0 <= a < b < after.len() implies after[a].id@
                            != after[b].id@ by {
                            let a0 = if a < i { a } else { a + 1 };
                            let b0 = if b < i { b } else { b + 1 };
                            assert(after[a] == before[a0]);
                            assert(after[b] == before[b0]);
                        }
                    }
                    assert forall|key: Seq<char>| has_id(after, key) <==> (has_id(before, key)
                        && key != id@) by {
                        if has_id(after, key) {
                            let a = choose|a: int|
                                0 <= a < after.len() && #[trigger] after[a].id@ == key;
                            let a0 = if a < i { a } else { a + 1 };
                            assert(after[a] == before[a0]);
                            assert(before[a0].id@ == key);
                        }
                        if has_id(before, key) && key != id@ {
                            let b = choose|b: int|
                                0 <= b < before.len() && #[trigger] before[b].id@ == key;
                            let a = if b < i { b } else { b - 1 };
                            assert(after[a] == before[b]);
                            assert(after[a].id@ == key);
                        }
                    }
                    assert forall|key: Seq<char>| has_id(after, key) implies #[trigger] pending_of(
                        after,
                    )[key] == pending_of(before)[key] by {
                        let a = choose|a: int|
                            0 <= a < after.len() && #[trigger] after[a].id@ == key;
                        let a0 = if a < i { a } else { a + 1 };
                        assert(after[a] == before[a0]);
                        lemma_pending_entry(after, a);
                        lemma_pending_entry(before, a0);
                    }
                    assert(pending_of(after) =~= pending_of(before).remove(id@));
                    let retired_after = self.retired@;
                    assert(retired_after == retired_before.push(entry.id));
                    assert forall|key: Seq<char>| texts_of(retired_after).contains(key) <==> (
                    texts_of(retired_before).contains(key) || key == id@) by {
                        if texts_of(retired_after).contains(key) {
                            let k = choose|k: int|
                                0 <= k < retired_after.len() && #[trigger] retired_after[k]@
                                    == key;
                            if k < retired_before.len() {
                                assert(retired_before[k]@ == key);
                            }
                        }
                        if texts_of(retired_before).contains(key) {
                            let k = choose|k: int|
                                0 <= k < retired_before.len() && #[trigger] retired_before[k]@
                                    == key;
                            assert(retired_after[k]@ == key);
                        }
                        if key == id@ {
                            assert(retired_after[retired_before.len() as int]@ == key);
                        }
                    }
                    assert(texts_of(retired_after) =~= texts_of(retired_before).insert(id@));
                    assert(self.wf()) by {
                        assert forall|a: int, k: int|
                            0 <= a < after.len() && 0 <= k < retired_after.len() implies after[a].id@
                            != retired_after[k]@ by {
                            let a0 = if a < i { a } else { a + 1 };
                            assert(after[a] == before[a0]);
                            if k < retired_before.len() {
                                assert(retired_after[k] == retired_before[k]);
                            }
                        }
                    }
                }
                Some(entry.kind)
            },
        }
    }

    /// Gives up on the request with identifier `id`, as after a timeout. The
    /// entry leaves the table and the identifier is retired, so that a late
    /// answer finds nothing pending. Says whether the request was pending.
    pub fn expire(&mut self, id: &str) -> (was_pending: bool)
        requires
            old(self).wf(),
        ensures
            final(self).wf(),
            was_pending == old(self)@.pending.dom().contains(id@),
            final(self)@ == old(self)@.resolved(id@),
    {
        self.resolve(id).is_some()
    }

    /// Fails every request that is still pending, as when the transport
    /// reports that the connection is gone. The requests are handed back so
    /// that each waiting caller can be told; afterwards nothing is pending and
    /// all their identifiers are retired.
    pub fn fail_all(&mut self) -> (failed: Vec<PendingRequest>)
        requires
            old(self).wf(),
        ensures
            final(self).wf(),
            ids_distinct(failed@),
            pending_of(failed@) == old(self)@.pending,
            final(self)@ == old(self)@.all_failed(),
    {
        let ghost before = self.entries@;
        let ghost retired_before = self.retired@;
        let mut failed: Vec<PendingRequest> = Vec::new();
        while self.entries.len() > 0
            invariant
                self.wf(),
                self.entries.len() <= before.len(),
                self.entries@ == before.take(self.entries.len() as int),
                ids_distinct(before),
                failed.len() == before.len() - self.entries.len(),
                forall|j: int| 0 <= j < failed.len() ==> failed[j] == before[before.len() - 1 - j],
                self.retired.len() == retired_before.len() + failed.len(),
                forall|k: int| 0 <= k < retired_before.len() ==> self.retired[k] == retired_before[k],
                forall|j: int|
                    0 <= j < failed.len() ==> self.retired[retired_before.len() + j]@
                        == failed[j].id@,
            decreases self.entries.len(),
        {
            let ghost n = self.entries.len() as int;
            let entry = self.entries.pop().unwrap();
            assert(entry == before[n - 1]);
            assert(self.entries@ =~= before.take(n - 1));
            self.retired.push(entry.id.clone());
            failed.push(entry);
        }
        proof {
            let total = before.len() as int;
            let out = failed@;
            let retired_after = self.retired@;
            assert(ids_distinct(out)) by {
                assert forall|a: int, b: int| 0 <= a < b < out.len() implies out[a].id@
                    != out[b].id@ by {
                    assert(out[a] == before[total - 1 - a]);
                    assert(out[b] == before[total - 1 - b]);
                }
            }
            assert forall|key: Seq<char>| has_id(out, key) <==> has_id(before, key) by {
                if has_id(out, key) {
                    let a = choose|a: int| 0 <= a < out.len() && #[trigger] out[a].id@ == key;
                    assert(before[total - 1 - a].id@ == key);
                }
                if has_id(before, key) {
                    let b = choose|b: int| 0 <= b < before.len() && #[trigger] before[b].id@ == key;
                    assert(out[total - 1 - b] == before[b]);
                    assert(out[total - 1 - b].id@ == key);
                }
            }
            assert forall|key: Seq<char>| has_id(out, key) implies #[trigger] pending_of(out)[key]
                == pending_of(before)[key] by {
                let a = choose|a: int| 0 <= a < out.len() && #[trigger] out[a].id@ == key;
                lemma_pending_entry(out, a);
                lemma_pending_entry(before, total - 1 - a);
            }
            assert(pending_of(out) =~= pending_of(before));
            assert(pending_of(self.entries@) =~= Map::<Seq<char>, RequestKind>::empty());
            assert forall|key: Seq<char>| texts_of(retired_after).contains(key) <==> (texts_of(
                retired_before,
            ).contains(key) || has_id(before, key)) by {
                if texts_of(retired_after).contains(key) {
                    let k = choose|k: int|
                        0 <= k < retired_after.len() && #[trigger] retired_after[k]@ == key;
                    if k < retired_before.len() {
                        assert(retired_before[k]@ == key);
                    } else {
                        let j = k - retired_before.len();
                        assert(out[j].id@ == key);
                    }
                }
                if texts_of(retired_before).contains(key) {
                    let k = choose|k: int|
                        0 <= k < retired_before.len() && #[trigger] retired_before[k]@ == key;
                    assert(retired_after[k]@ == key);
                }
                if has_id(before, key) {
                    let a = choose|a: int| 0 <= a < out.len() && #[trigger] out[a].id@ == key;
                    assert(retired_after[retired_before.len() + a]@ == key);
                }
            }
            assert(texts_of(retired_after) =~= texts_of(retired_before).union(
                pending_of(before).dom(),
            ));
        }
        failed
    }
}

} // verus!
