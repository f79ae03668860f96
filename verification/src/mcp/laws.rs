//! What holds of the registry and of the session across calls.

use vstd::prelude::*;
use super::client::{ClientView, SessionState};
use super::correlation::RequestKind;
use super::error::ClientError;
use super::message::MCPMessage;
use super::protocol::ToolView;
use super::registry::{keyed_by_name, lemma_merged_keyed, merged};

verus! {

/// The names that occur in a discovery response.
pub open spec fn batch_names(batch: Seq<ToolView>) -> Set<Seq<char>> {
    Set::new(|name: Seq<char>| exists|i: int| 0 <= i < batch.len() && #[trigger] batch[i].name == name)
}

/// Whether `i` is the last place in `batch` where its tool's name occurs.
pub open spec fn is_last_of_name(batch: Seq<ToolView>, i: int) -> bool {
    0 <= i < batch.len() && forall|j: int| i < j < batch.len() ==> batch[j].name != batch[i].name
}

/// After a batch of tools was registered, the registry knows exactly the
/// names it knew before and the names of the batch.
pub proof fn lemma_merged_names(known: Map<Seq<char>, ToolView>, batch: Seq<ToolView>)
    ensures
        merged(known, batch).dom() == known.dom().union(batch_names(batch)),
    decreases batch.len(),
{
    if batch.len() == 0 {
        assert(batch_names(batch) =~= Set::<Seq<char>>::empty());
        assert(merged(known, batch).dom() =~= known.dom().union(batch_names(batch)));
    } else {
        let rest = batch.drop_last();
        lemma_merged_names(known, rest);
        assert forall|name: Seq<char>| batch_names(batch).contains(name) <==> (batch_names(
            rest,
        ).contains(name) || name == batch.last().name) by {
            if batch_names(batch).contains(name) {
                let i = choose|i: int| 0 <= i < batch.len() && #[trigger] batch[i].name == name;
                if i < rest.len() {
                    assert(rest[i].name == name);
                }
            }
            if batch_names(rest).contains(name) {
                let i = choose|i: int| 0 <= i < rest.len() && #[trigger] rest[i].name == name;
                assert(batch[i].name == name);
            }
            if name == batch.last().name {
                assert(batch[batch.len() - 1].name == name);
            }
        }
        assert(merged(known, batch).dom() =~= known.dom().union(batch_names(batch)));
    }
}

/// Of the tools of a batch that share a name, the last one is registered.
pub proof fn lemma_merged_last_wins(known: Map<Seq<char>, ToolView>, batch: Seq<ToolView>, i: int)
    requires
        is_last_of_name(batch, i),
    ensures
        merged(known, batch).dom().contains(batch[i].name),
        merged(known, batch)[batch[i].name] == batch[i],
    decreases batch.len(),
{
    if i == batch.len() - 1 {
    } else {
        let rest = batch.drop_last();
        assert(is_last_of_name(rest, i)) by {
            assert forall|j: int| i < j < rest.len() implies rest[j].name != rest[i].name by {
                assert(rest[j] == batch[j]);
            }
        }
        lemma_merged_last_wins(known, rest, i);
        assert(batch.last().name != batch[i].name);
    }
}

/// A tool that the batch does not name stays registered as it was, and a
/// name that was unknown and is not in the batch stays unknown.
pub proof fn lemma_merged_keeps_others(
    known: Map<Seq<char>, ToolView>,
    batch: Seq<ToolView>,
    name: Seq<char>,
)
    requires
        !batch_names(batch).contains(name),
    ensures
        merged(known, batch).dom().contains(name) == known.dom().contains(name),
        known.dom().contains(name) ==> merged(known, batch)[name] == known[name],
    decreases batch.len(),
{
    if batch.len() > 0 {
        let rest = batch.drop_last();
        assert(!batch_names(rest).contains(name)) by {
            if batch_names(rest).contains(name) {
                let i = choose|i: int| 0 <= i < rest.len() && #[trigger] rest[i].name == name;
                assert(batch[i].name == name);
            }
        }
        lemma_merged_keeps_others(known, rest, name);
        assert(batch[batch.len() - 1].name != name);
    }
}

/// Registering a batch on top of a registry that already took it in changes
/// nothing: a name is never registered twice.
pub proof fn lemma_merged_idempotent(known: Map<Seq<char>, ToolView>, batch: Seq<ToolView>)
    ensures
        merged(merged(known, batch), batch) == merged(known, batch),
{
    let once = merged(known, batch);
    let twice = merged(once, batch);
    lemma_merged_names(known, batch);
    lemma_merged_names(once, batch);
    assert(twice.dom() =~= once.dom());
    assert forall|name: Seq<char>| once.dom().contains(name) implies #[trigger] twice[name]
        == once[name] by {
        if batch_names(batch).contains(name) {
            let i = last_index_of(batch, name);
            lemma_last_index(batch, name);
            lemma_merged_last_wins(known, batch, i);
            lemma_merged_last_wins(once, batch, i);
        } else {
            lemma_merged_keeps_others(once, batch, name);
        }
    }
    assert(twice =~= once);
}

/// The last place in `batch` where `name` occurs.
pub open spec fn last_index_of(batch: Seq<ToolView>, name: Seq<char>) -> int
    decreases batch.len(),
{
    if batch.len() == 0 {
        -1
    } else if batch.last().name == name {
        batch.len() - 1
    } else {
        last_index_of(batch.drop_last(), name)
    }
}

/// A name that occurs in a batch has a last occurrence.
pub proof fn lemma_last_index(batch: Seq<ToolView>, name: Seq<char>)
    requires
        batch_names(batch).contains(name),
    ensures
        is_last_of_name(batch, last_index_of(batch, name)),
        batch[last_index_of(batch, name)].name == name,
    decreases batch.len(),
{
    if batch.last().name == name {
    } else {
        let rest = batch.drop_last();
        let i = choose|i: int| 0 <= i < batch.len() && #[trigger] batch[i].name == name;
        assert(rest[i].name == name);
        assert(batch_names(rest).contains(name));
        lemma_last_index(rest, name);
        let k = last_index_of(rest, name);
        assert(rest[k] == batch[k]);
        assert forall|j: int| k < j < batch.len() implies batch[j].name != batch[k].name by {
            if j < rest.len() {
                assert(rest[j] == batch[j]);
            }
        }
    }
}

/// Every step keeps a session well-formed: starting the handshake, issuing a
/// request that the session permits, taking in any message, a timeout and
/// any error.
pub proof fn lemma_steps_keep_wf(
    v: ClientView,
    id: Seq<char>,
    kind: RequestKind,
    name: Seq<char>,
    message: MCPMessage,
    cause: ClientError,
)
    requires
        v.wf(),
    ensures
        v.start_fault() is None ==> v.started(id).wf(),
        kind != RequestKind::Initialize && v.request_fault(kind, id, name) is None ==> v.requested(
            id,
            kind,
        ).wf(),
        v.received(message).wf(),
        v.timed_out(id).wf(),
        v.failed(cause).wf(),
{
    if v.start_fault() is None {
        let w = v.started(id);
        assert(w.pending.pending =~= Map::<Seq<char>, RequestKind>::empty().insert(
            id,
            RequestKind::Initialize,
        ));
    }
    if kind != RequestKind::Initialize && v.request_fault(kind, id, name) is None {
        let w = v.requested(id, kind);
        assert(w.wf());
    }
    let r = v.received(message);
    assert(r.wf()) by {
        let mid = message.spec_id();
        if message is ToolsListResult {
            lemma_merged_keyed(v.tools, message->ToolsListResult_result@);
        }
        if v.pending.awaiting(mid) is Some {
            assert(v.pending.resolved(mid).all_failed().pending =~= Map::<
                Seq<char>,
                RequestKind,
            >::empty());
        }
    }
    assert(v.timed_out(id).wf());
    assert(v.failed(cause).wf());
}

/// A failed session stays failed: it issues no request, and no message,
/// timeout or error changes it.
pub proof fn lemma_failed_is_final(
    v: ClientView,
    id: Seq<char>,
    kind: RequestKind,
    name: Seq<char>,
    message: MCPMessage,
    cause: ClientError,
)
    requires
        v.wf(),
        v.state == SessionState::Failed,
    ensures
        v.request_fault(kind, id, name) is Some,
        v.received(message) == v,
        v.timed_out(id) == v,
        v.failed(cause) == v,
{
}

/// A session becomes ready in one way only: it is initializing, the
/// handshake was answered, and the result of a discovery request comes in.
pub proof fn lemma_ready_only_after_discovery(
    v: ClientView,
    id: Seq<char>,
    message: MCPMessage,
    cause: ClientError,
)
    requires
        v.wf(),
        v.state != SessionState::Ready,
    ensures
        v.started(id).state != SessionState::Ready,
        v.timed_out(id).state != SessionState::Ready,
        v.failed(cause).state != SessionState::Ready,
        v.received(message).state == SessionState::Ready ==> {
            &&& v.state == SessionState::Initializing
            &&& v.server is Some
            &&& message is ToolsListResult
            &&& v.pending.awaiting(message.spec_id()) == Some(RequestKind::ToolsList)
        },
{
}

/// Whatever tool a caller can see under a name carries that name.
pub proof fn lemma_visible_tools_carry_their_names(v: ClientView, name: Seq<char>)
    requires
        v.wf(),
        v.visible_tools().dom().contains(name),
    ensures
        v.visible_tools()[name].name == name,
        keyed_by_name(v.visible_tools()),
{
}

/// After discovery on a new session the callable tools are exactly those
/// that the response names, each once, whatever the response repeats.
pub proof fn lemma_discovery_lists_exactly(v: ClientView, message: MCPMessage)
    requires
        v.wf(),
        v.state == SessionState::Initializing,
        v.pending.awaiting(message.spec_id()) == Some(RequestKind::ToolsList),
        message is ToolsListResult,
    ensures
        v.received(message).state == SessionState::Ready,
        v.received(message).visible_tools().dom() == batch_names(message->ToolsListResult_result@),
{
    let batch = message->ToolsListResult_result@;
    lemma_merged_names(v.tools, batch);
    assert(v.tools.dom().union(batch_names(batch)) =~= batch_names(batch));
}

/// A handshake that finds no answer in time fails the session.
pub proof fn lemma_handshake_timeout_fails(v: ClientView, id: Seq<char>)
    requires
        v.wf(),
        v.start_fault() is None,
    ensures
        v.started(id).timed_out(id).state == SessionState::Failed,
        v.started(id).timed_out(id).pending.pending == Map::<Seq<char>, RequestKind>::empty(),
{
    let w = v.started(id);
    assert(w.pending.pending.dom().contains(id));
    assert(w.pending.resolved(id).all_failed().pending =~= Map::<Seq<char>, RequestKind>::empty());
}

/// A timeout while the session initializes fails it, also during discovery.
pub proof fn lemma_timeout_while_initializing_fails(v: ClientView, id: Seq<char>)
    requires
        v.wf(),
        v.state == SessionState::Initializing,
        v.pending.pending.dom().contains(id),
    ensures
        v.timed_out(id).state == SessionState::Failed,
{
}

/// A timed-out tool call leaves a ready session ready, and the late answer
/// finds nothing pending: it changes nothing.
pub proof fn lemma_late_answer_is_orphaned(v: ClientView, message: MCPMessage)
    requires
        v.wf(),
        v.state == SessionState::Ready,
        v.pending.pending.dom().contains(message.spec_id()),
    ensures
        v.timed_out(message.spec_id()).state == SessionState::Ready,
        v.timed_out(message.spec_id()).received(message) == v.timed_out(message.spec_id()),
{
}

/// Whether `message` is the result of a tool call that is pending in `v`.
pub open spec fn answers_pending_call(v: ClientView, message: MCPMessage) -> bool {
    message is ToolsCallResult && v.pending.awaiting(message.spec_id()) == Some(
        RequestKind::ToolsCall,
    )
}

/// Two tool calls in flight each get their own answer, in whichever order
/// the two answers arrive: the reply to either message is the same before
/// and after the other was taken in, and the session ends in the same state.
pub proof fn lemma_answers_in_either_order(v: ClientView, first: MCPMessage, second: MCPMessage)
    requires
        v.wf(),
        answers_pending_call(v, first),
        answers_pending_call(v, second),
        first.spec_id() != second.spec_id(),
    ensures
        answers_pending_call(v.received(second), first),
        answers_pending_call(v.received(first), second),
        forall|reply| v.received(second).replies(first, reply) == v.replies(first, reply),
        forall|reply| v.received(first).replies(second, reply) == v.replies(second, reply),
        v.received(first).received(second) == v.received(second).received(first),
{
    let a = first.spec_id();
    let b = second.spec_id();
    let ab = v.received(first).received(second);
    let ba = v.received(second).received(first);
    assert(ab.pending.pending =~= ba.pending.pending);
    assert(ab.pending.retired =~= ba.pending.retired);
}

/// An identifier is accepted once: after the answer to a request came in, a
/// second message under the same identifier changes nothing and is dropped,
/// and the identifier cannot be issued again.
pub proof fn lemma_one_answer_per_request(
    v: ClientView,
    message: MCPMessage,
    again: MCPMessage,
    kind: RequestKind,
    name: Seq<char>,
)
    requires
        v.wf(),
        v.pending.pending.dom().contains(message.spec_id()),
        again.spec_id() == message.spec_id(),
    ensures
        v.received(message).received(again) == v.received(message),
        forall|reply| v.received(message).replies(again, reply) == (reply is Orphaned),
        v.received(message).request_fault(kind, message.spec_id(), name) is Some,
{
    let id = message.spec_id();
    let w = v.received(message);
    assert(!w.pending.pending.dom().contains(id));
    assert(w.pending.retired.contains(id));
    assert(w.state != SessionState::Uninitialized);
}

/// Closing a session fails every request in flight: nothing stays pending,
/// each identifier that was pending is retired, and an answer that arrives
/// afterwards changes nothing.
pub proof fn lemma_close_fails_every_pending(v: ClientView, message: MCPMessage)
    requires
        v.wf(),
    ensures
        v.failed(ClientError::ConnectionClosed).pending.pending == Map::<
            Seq<char>,
            RequestKind,
        >::empty(),
        v.pending.pending.dom().contains(message.spec_id()) ==> {
            &&& v.failed(ClientError::ConnectionClosed).state == SessionState::Failed
            &&& v.failed(ClientError::ConnectionClosed).pending.retired.contains(
                message.spec_id(),
            )
        },
        v.failed(ClientError::ConnectionClosed).received(message) == v.failed(
            ClientError::ConnectionClosed,
        ),
{
}

} // verus!
