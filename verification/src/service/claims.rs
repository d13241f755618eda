//! What the request handler achieves against the model of the store when several
//! callers claim slots at once.

use crate::service::handler::{
    ClaimView,
    HandlerStepView,
    PendingView,
    RoomsRequestView,
    RoomsServiceView,
};
use crate::service::ledger::{lemma_answer_keeps, lemma_messages_stay, Ledger};
use crate::service::message::{joined_text, Message, MessageView};
use crate::service::path::Id;
use crate::service::store::{
    Permissions,
    Protocol,
    ServiceError,
    StoreCallView,
    StoreReplyView,
};
use crate::service::time::Timestamp;
use vstd::prelude::*;

verus! {

/// The handler run against the model from the point where it has asked for `call`:
/// every call is answered by the model, for at most `fuel` calls. The result is the
/// handler and the model at the end, and the last step: a call where the fuel ran out
/// first.
pub open spec fn serve(service: RoomsServiceView, ledger: Ledger, call: StoreCallView, fuel: nat) -> (
    RoomsServiceView,
    Ledger,
    HandlerStepView,
)
    decreases fuel,
{
    if fuel == 0 {
        (service, ledger, HandlerStepView::Call(call))
    } else {
        let (answered, reply) = ledger.answer(call);
        let (next, step) = service.resume(reply);
        match step {
            HandlerStepView::Call(asked) => serve(next, answered, asked, (fuel - 1) as nat),
            _ => (next, answered, step),
        }
    }
}

/// A claim takes the first free slot: when the handler tries slot `start` under
/// `parent` and every slot from there up to `free` is occupied, while `free` is not,
/// then, left alone with the store for one call more than slots are occupied, it ends
/// with the claim of slot `free`, under the path that the store gives the record
/// there; the store holds the payload in that slot and is otherwise as before; and a
/// claimed root slot leaves the count of the root slots one behind it.
pub proof fn lemma_claim_takes_the_first_free_slot(
    service: RoomsServiceView,
    ledger: Ledger,
    parent: Seq<Id>,
    protocol: Protocol,
    payload: Seq<u8>,
    start: u32,
    free: u32,
    fuel: nat,
)
    requires
        start <= free,
        forall|i: int| start <= i < free ==> #[trigger] ledger.occupied(parent, i),
        !ledger.occupied(parent, free as int),
        fuel > free - start,
    ensures
        ({
            let (waiting, step) = service.attempt(parent, protocol, payload, start);
            let (end, store, last) = serve(waiting, ledger, step->Call_0, fuel);
            let path = (ledger.placed)(parent, free as int);
            &&& step is Call
            &&& last == HandlerStepView::Done(Ok(ClaimView { path, index: free }))
            &&& end.pending is Idle
            &&& store == ledger.occupy(parent, free as int, path).store(path, payload)
            &&& protocol == Protocol::Rooms ==> end.cache.rooms_idx == if free < u32::MAX {
                (free + 1) as u32
            } else {
                free
            }
            &&& protocol != Protocol::Rooms ==> end.cache == service.cache
        }),
    decreases free - start,
{
    let (waiting, step) = service.attempt(parent, protocol, payload, start);
    let (answered, reply) = ledger.answer(step->Call_0);
    let (next, then) = waiting.resume(reply);
    if start < free {
        assert(ledger.occupied(parent, start as int));
        assert(answered == ledger);
        assert((next, then) == waiting.attempt(parent, protocol, payload, (start + 1) as u32));
        lemma_claim_takes_the_first_free_slot(
            waiting,
            ledger,
            parent,
            protocol,
            payload,
            (start + 1) as u32,
            free,
            (fuel - 1) as nat,
        );
        assert(serve(waiting, ledger, step->Call_0, fuel) == serve(
            next,
            ledger,
            then->Call_0,
            (fuel - 1) as nat,
        ));
    }
}

/// What was claimed is what the store holds: when the slot `free` under `parent` is
/// claimed for a payload that holds `message`, the record getting a path that no
/// record had, then the store holds `message` in that slot, behind the messages of the
/// slots below it, which are as before.
pub proof fn lemma_claimed_message_is_held(
    ledger: Ledger,
    parent: Seq<Id>,
    free: u32,
    payload: Seq<u8>,
    message: MessageView,
)
    requires
        ledger.filled(parent, free as int),
        !ledger.occupied(parent, free as int),
        !ledger.payloads.dom().contains((ledger.placed)(parent, free as int)),
        Message::message_of(payload) == Some(message),
    ensures
        ({
            let path = (ledger.placed)(parent, free as int);
            let store = ledger.occupy(parent, free as int, path).store(path, payload);
            &&& store.filled(parent, free + 1)
            &&& store.message_at(parent, free as int) == Some(message)
            &&& store.messages_in(parent, free + 1) == ledger.messages_in(parent, free as int).push(
                message,
            )
        }),
{
    let path = (ledger.placed)(parent, free as int);
    let store = ledger.occupy(parent, free as int, path).store(path, payload);
    assert(ledger.within(store));
    lemma_messages_stay(ledger, store, parent, free as int);
    assert(store.slots[(parent, free as int)] == Some(path));
    assert forall|i: int| 0 <= i < free + 1 implies #[trigger] store.occupied(parent, i)
        && store.readable(parent, i) by {
        if i < free {
            assert(store.occupied(parent, i) && store.readable(parent, i));
        }
    }
}

/// Sharing grants, then tells: an idle handler asked to let `name` into the room
/// `room` first asks the store to grant `name` the discovery and the reading of what
/// lies under the room's path; once that is done it claims, from the slot that the
/// cache names for the room, a slot for the message that marks `name` joining, which
/// counts as read. A room that the cache does not hold ends the request after the
/// grant.
pub proof fn lemma_share_grants_then_joins(
    service: RoomsServiceView,
    room: Id,
    name: Seq<char>,
    now: Timestamp,
)
    requires
        service.pending is Idle,
    ensures
        ({
            let path = Seq::empty().push(room);
            let joined = MessageView { text: joined_text(), at: now, author: name, read: true };
            let (waiting, step) = service.begin(RoomsRequestView::Share(room, name), now);
            let (next, then) = waiting.resume(StoreReplyView::Shared);
            &&& step == HandlerStepView::Call(
                StoreCallView::Share {
                    recipient: name,
                    permissions: Permissions { children: Some((true, true)), delete: None },
                    path,
                },
            )
            &&& waiting.cache == service.cache
            &&& match service.cache.cursor_of(path) {
                None => then == HandlerStepView::Done(Err(ServiceError::UnknownRoom)),
                Some(cursor) => match Message::payload_of(joined) {
                    None => then == HandlerStepView::Done(Err(ServiceError::Serialization)),
                    Some(payload) => then == HandlerStepView::Call(
                        StoreCallView::CreatePrivate {
                            parent: path,
                            protocol: Protocol::Messages,
                            index: cursor,
                            permissions: Permissions { children: None, delete: None },
                            payload,
                        },
                    ),
                },
            }
        }),
{
}

/// A caller: a handler with the request it has taken up and the step it has come to.
pub struct Caller {
    pub service: RoomsServiceView,
    pub request: RoomsRequestView,
    pub step: HandlerStepView,
}

/// One move of the play: the caller `who` has its call answered, by the model or, where
/// `fails`, with a failure of the store.
pub struct Turn {
    pub who: int,
    pub fails: bool,
}

/// The path under which a request claims its slot: the root for a room, the room for a
/// message and for the joining message of a share.
pub open spec fn parent_of(request: RoomsRequestView) -> Seq<Id> {
    match request {
        RoomsRequestView::CreateRoom(uuid) => Seq::empty(),
        RoomsRequestView::CreateMessage(room, message) => Seq::empty().push(room),
        RoomsRequestView::Share(room, name) => Seq::empty().push(room),
    }
}

/// The caller that an idle handler becomes by taking up `request` at the instant `now`.
pub open spec fn enter(service: RoomsServiceView, request: RoomsRequestView, now: Timestamp) -> Caller {
    let (service, step) = service.begin(request, now);
    Caller { service, request, step }
}

/// The callers that the handlers become by taking up their requests.
pub open spec fn enter_all(
    services: Seq<RoomsServiceView>,
    requests: Seq<RoomsRequestView>,
    nows: Seq<Timestamp>,
) -> Seq<Caller> {
    Seq::new(services.len(), |i: int| enter(services[i], requests[i], nows[i]))
}

/// The callers and the model after one move. A caller whose request has ended does not
/// move.
pub open spec fn turn(callers: Seq<Caller>, ledger: Ledger, next: Turn) -> (Seq<Caller>, Ledger) {
    if 0 <= next.who < callers.len() {
        let caller = callers[next.who];
        match caller.step {
            HandlerStepView::Call(call) => {
                let (answered, reply) = if next.fails {
                    (ledger, StoreReplyView::Failed)
                } else {
                    ledger.answer(call)
                };
                let (service, step) = caller.service.resume(reply);
                (callers.update(next.who, Caller { service, step, ..caller }), answered)
            },
            HandlerStepView::Done(result) => (callers, ledger),
        }
    } else {
        (callers, ledger)
    }
}

/// The callers and the model after the moves of `schedule`, in their order.
pub open spec fn play(callers: Seq<Caller>, ledger: Ledger, schedule: Seq<Turn>) -> (
    Seq<Caller>,
    Ledger,
)
    decreases schedule.len(),
{
    if schedule.len() == 0 {
        (callers, ledger)
    } else {
        let (moved, store) = play(callers, ledger, schedule.drop_last());
        turn(moved, store, schedule.last())
    }
}

/// A caller is in step with the model when its handler waits for the call it asked
/// for, under the path of its request, and a claim it holds names a slot that is
/// occupied, with the path that the store gave the record there.
pub open spec fn in_step(caller: Caller, ledger: Ledger) -> bool {
    match caller.step {
        HandlerStepView::Call(call) => match caller.service.pending {
            PendingView::Idle => false,
            PendingView::Share { room, message } => call is Share && room == parent_of(
                caller.request,
            ),
            PendingView::Claim { parent, protocol, payload, index } => {
                &&& parent == parent_of(caller.request)
                &&& call matches StoreCallView::CreatePrivate { parent: asked, index: slot, .. }
                &&& asked == parent
                &&& slot == index
            },
        },
        HandlerStepView::Done(Ok(claim)) => {
            &&& ledger.occupied(parent_of(caller.request), claim.index as int)
            &&& claim.path == (ledger.placed)(parent_of(caller.request), claim.index as int)
        },
        HandlerStepView::Done(Err(error)) => true,
    }
}

/// No two callers hold claims on the same slot.
pub open spec fn apart(callers: Seq<Caller>) -> bool {
    forall|i: int, j: int|
        #![trigger callers[i], callers[j]]
        0 <= i < j < callers.len() && parent_of(callers[i].request) == parent_of(
            callers[j].request,
        ) ==> (callers[i].step matches HandlerStepView::Done(Ok(a)) ==> (
        callers[j].step matches HandlerStepView::Done(Ok(b)) ==> a.index != b.index))
}

/// All callers are in step with the model and hold claims on different slots.
pub open spec fn orderly(callers: Seq<Caller>, ledger: Ledger) -> bool {
    &&& forall|i: int| 0 <= i < callers.len() ==> in_step(#[trigger] callers[i], ledger)
    &&& apart(callers)
}

proof fn lemma_turn_keeps_order(callers: Seq<Caller>, ledger: Ledger, next: Turn)
    requires
        orderly(callers, ledger),
    ensures
        ({
            let (moved, store) = turn(callers, ledger, next);
            &&& orderly(moved, store)
            &&& ledger.within(store)
            &&& moved.len() == callers.len()
            &&& forall|i: int| 0 <= i < callers.len() ==> (#[trigger] moved[i]).request == callers[i].request
        }),
{
    let (moved, store) = turn(callers, ledger, next);
    if 0 <= next.who < callers.len() {
        let caller = callers[next.who];
        assert(in_step(caller, ledger));
        match caller.step {
            HandlerStepView::Call(call) => {
                lemma_answer_keeps(ledger, call);
                assert forall|i: int| 0 <= i < moved.len() implies in_step(
                    #[trigger] moved[i],
                    store,
                ) by {
                    if i != next.who {
                        assert(in_step(callers[i], ledger));
                        assert(moved[i] == callers[i]);
                        match callers[i].step {
                            HandlerStepView::Done(Ok(claim)) => {
                                assert(ledger.slots.dom().contains(
                                    (parent_of(callers[i].request), claim.index as int),
                                ));
                            },
                            _ => {},
                        }
                    }
                }
                assert forall|i: int, j: int|
                    #![trigger moved[i], moved[j]]
                    0 <= i < j < moved.len() && parent_of(moved[i].request) == parent_of(
                        moved[j].request,
                    ) implies (moved[i].step matches HandlerStepView::Done(Ok(a)) ==> (
                moved[j].step matches HandlerStepView::Done(Ok(b)) ==> a.index != b.index)) by {
                    assert(in_step(callers[i], ledger));
                    assert(in_step(callers[j], ledger));
                    if i != next.who && j != next.who {
                        assert(moved[i] == callers[i]);
                        assert(moved[j] == callers[j]);
                        let _ = (callers[i], callers[j]);
                    }
                }
            },
            HandlerStepView::Done(result) => {},
        }
    }
}

/// However the calls of the callers are interleaved, the callers stay in step with the
/// model and never hold claims on the same slot.
pub proof fn lemma_play_keeps_order(callers: Seq<Caller>, ledger: Ledger, schedule: Seq<Turn>)
    requires
        orderly(callers, ledger),
    ensures
        ({
            let (moved, store) = play(callers, ledger, schedule);
            &&& orderly(moved, store)
            &&& ledger.within(store)
            &&& moved.len() == callers.len()
            &&& forall|i: int| 0 <= i < callers.len() ==> (#[trigger] moved[i]).request == callers[i].request
        }),
    decreases schedule.len(),
{
    if schedule.len() > 0 {
        lemma_play_keeps_order(callers, ledger, schedule.drop_last());
        let (moved, store) = play(callers, ledger, schedule.drop_last());
        lemma_turn_keeps_order(moved, store, schedule.last());
    }
}

/// Callers that share a store never claim the same slot: when idle handlers take up
/// requests and their calls are answered in any order, some of them perhaps with a
/// failure of the store, any two requests that end with a claim under the same path
/// hold different slot indexes, and different paths wherever the store gives the
/// records of different slots different paths.
pub proof fn lemma_claims_are_distinct(
    services: Seq<RoomsServiceView>,
    requests: Seq<RoomsRequestView>,
    nows: Seq<Timestamp>,
    ledger: Ledger,
    schedule: Seq<Turn>,
    i: int,
    j: int,
)
    requires
        services.len() == requests.len(),
        services.len() == nows.len(),
        forall|k: int| 0 <= k < services.len() ==> (#[trigger] services[k]).pending is Idle,
        0 <= i < j < services.len(),
        parent_of(requests[i]) == parent_of(requests[j]),
    ensures
        ({
            let (callers, store) = play(enter_all(services, requests, nows), ledger, schedule);
            callers[i].step matches HandlerStepView::Done(Ok(a)) ==> (
            callers[j].step matches HandlerStepView::Done(Ok(b)) ==> {
                &&& a.index != b.index
                &&& (forall|x: int, y: int|
                    x != y ==> #[trigger] (store.placed)(parent_of(requests[i]), x)
                        != #[trigger] (store.placed)(parent_of(requests[i]), y)) ==> a.path
                    != b.path
            })
        }),
{
    let entered = enter_all(services, requests, nows);
    assert forall|k: int| 0 <= k < entered.len() implies in_step(#[trigger] entered[k], ledger) by {
        assert(services[k].pending is Idle);
    }
    assert(apart(entered)) by {
        assert forall|a: int, b: int|
            #![trigger entered[a], entered[b]]
            0 <= a < b < entered.len() implies !(entered[a].step is Done
            && entered[a].step->Done_0 is Ok) by {
            assert(services[a].pending is Idle);
        }
    }
    lemma_play_keeps_order(entered, ledger, schedule);
    let (callers, store) = play(entered, ledger, schedule);
    assert(in_step(callers[i], store));
    assert(in_step(callers[j], store));
    assert(callers[i].request == requests[i]);
    assert(callers[j].request == requests[j]);
    let _ = (callers[i], callers[j]);
}

} // verus!
