//! The driver-binding state machine, as mathematics.
//!
//! The coordinator's state is a map from controllers to their bindings. A
//! controller that the map does not hold is not bound. Each entry point of
//! the coordinator is one function here, from the state and what the host
//! reports to the next state and what the host is to do. The laws that the
//! lifecycle owes its host are stated and proved over these functions.

use crate::error::Error;
use crate::handles::{ControllerHandle, Registration, TransportHandle};
use crate::receiver::{KeyboardState, PointerState, ReceiverState};
use vstd::prelude::*;

verus! {

/// How far the binding of a controller has come.
#[derive(Clone, Copy, Debug, PartialEq, Eq, Structural)]
pub enum Phase {
    /// Start has begun and waits for the transport.
    Acquiring,
    /// The transport is open and receivers are being registered.
    Registering(TransportHandle),
    /// Every receiver is registered; reports are dispatched.
    Active(TransportHandle),
}

impl Phase {
    /// The transport that a binding in this phase holds open.
    pub open spec fn transport(self) -> Option<TransportHandle> {
        match self {
            Phase::Acquiring => None,
            Phase::Registering(transport) => Some(transport),
            Phase::Active(transport) => Some(transport),
        }
    }
}

/// Where a controller stands in the lifecycle.
#[derive(Clone, Copy, Debug, PartialEq, Eq, Structural)]
pub enum BindingState {
    /// The driver holds nothing for the controller.
    NotBound,
    /// Start is under way and has not succeeded yet.
    Bound,
    /// Start has succeeded and Stop has not been called.
    Active,
}

/// What the host reports back after doing what it was asked.
#[derive(Clone, Copy, Debug, PartialEq, Eq, Structural)]
pub enum Event {
    /// The transport of the controller was opened.
    TransportAcquired(TransportHandle),
    /// The transport of the controller could not be opened.
    TransportUnavailable(Error),
    /// The receiver in the slot asked for was registered.
    Registered(Registration),
    /// The receiver in the slot asked for could not be registered.
    RegistrationFailed(Error),
}

/// The binding of one controller.
pub struct BindingView {
    pub phase: Phase,
    /// The receivers of the controller, in the order the factory gave.
    pub receivers: Seq<ReceiverState>,
    /// The registrations made so far; the i-th is that of the i-th receiver.
    pub registrations: Seq<Registration>,
}

/// What the host is to do next.
pub enum ActionView {
    /// Open the transport of the controller, and report how that went.
    AcquireTransport,
    /// Register the receiver in `slot` for the transport's report-available
    /// notification, and report how that went.
    Register { transport: TransportHandle, slot: nat },
    /// The call is over: undo the registrations listed, in the order listed,
    /// release the transport if one is named, and return `result`.
    Finish { unregister: Seq<Registration>, release: Option<TransportHandle>, result: Result<
        (),
        Error,
    > },
    /// What was reported fits no Start that is under way. Nothing changed;
    /// what the report carried is the host's to undo.
    Unexpected,
}

/// The state of the coordinator: the bindings by controller.
pub type Bindings = Map<ControllerHandle, BindingView>;

impl BindingView {
    /// Validity: registrations never outnumber receivers, an active binding
    /// has all of them, one that waits for its transport has nothing yet,
    /// and every receiver's state is valid.
    pub open spec fn wf(self) -> bool {
        &&& match self.phase {
            Phase::Acquiring => self.receivers.len() == 0 && self.registrations.len() == 0,
            Phase::Registering(_) => self.registrations.len() < self.receivers.len(),
            Phase::Active(_) => self.registrations.len() == self.receivers.len(),
        }
        &&& forall|i: int| 0 <= i < self.receivers.len() ==> (#[trigger] self.receivers[i]).wf()
    }
}

/// Validity of the whole state: that of every binding.
pub open spec fn bindings_wf(bindings: Bindings) -> bool {
    forall|controller: ControllerHandle| #[trigger]
        bindings.contains_key(controller) ==> bindings[controller].wf()
}

/// Where `controller` stands in the lifecycle.
pub open spec fn lifecycle(bindings: Bindings, controller: ControllerHandle) -> BindingState {
    if !bindings.contains_key(controller) {
        BindingState::NotBound
    } else if bindings[controller].phase is Active {
        BindingState::Active
    } else {
        BindingState::Bound
    }
}

/// The receivers that every controller gets, in registration order: the
/// pointer first, then the keyboard, neither having seen a report.
pub open spec fn fresh_receivers() -> Seq<ReceiverState> {
    seq![
        ReceiverState::Pointer(PointerState::initial()),
        ReceiverState::Keyboard(KeyboardState::initial()),
    ]
}

/// A call that ends without anything to undo.
pub open spec fn finished(result: Result<(), Error>) -> ActionView {
    ActionView::Finish { unregister: Seq::empty(), release: None, result }
}

/// Start of `controller`. A controller that is not bound becomes bound and
/// its transport is asked for. One that is bound already, active or not, is
/// refused with `InvalidArgument` and stays as it is.
pub open spec fn start_step(bindings: Bindings, controller: ControllerHandle) -> (
    Bindings,
    ActionView,
) {
    if bindings.contains_key(controller) {
        (bindings, finished(Err(Error::InvalidArgument)))
    } else {
        (
            bindings.insert(
                controller,
                BindingView {
                    phase: Phase::Acquiring,
                    receivers: Seq::empty(),
                    registrations: Seq::empty(),
                },
            ),
            ActionView::AcquireTransport,
        )
    }
}

/// The next step of a Start that is under way, after the host reported
/// `event`.
///
/// With the transport open, the receivers are made and registered one by
/// one, in order. When the last is registered the controller is active.
/// When the transport cannot be had, or a registration fails, the call ends
/// with that error and the controller is not bound: the action names every
/// registration made in this call, last first, and the transport.
pub open spec fn advance_step(bindings: Bindings, controller: ControllerHandle, event: Event) -> (
    Bindings,
    ActionView,
) {
    if !bindings.contains_key(controller) {
        (bindings, ActionView::Unexpected)
    } else {
        let binding = bindings[controller];
        match (binding.phase, event) {
            (Phase::Acquiring, Event::TransportAcquired(transport)) => (
                bindings.insert(
                    controller,
                    BindingView {
                        phase: Phase::Registering(transport),
                        receivers: fresh_receivers(),
                        registrations: Seq::empty(),
                    },
                ),
                ActionView::Register { transport, slot: 0 },
            ),
            (Phase::Acquiring, Event::TransportUnavailable(error)) => (
                bindings.remove(controller),
                finished(Err(error)),
            ),
            (Phase::Registering(transport), Event::Registered(registration)) => {
                let registrations = binding.registrations.push(registration);
                if registrations.len() >= binding.receivers.len() {
                    (
                        bindings.insert(
                            controller,
                            BindingView {
                                phase: Phase::Active(transport),
                                receivers: binding.receivers,
                                registrations,
                            },
                        ),
                        finished(Ok(())),
                    )
                } else {
                    (
                        bindings.insert(
                            controller,
                            BindingView {
                                phase: Phase::Registering(transport),
                                receivers: binding.receivers,
                                registrations,
                            },
                        ),
                        ActionView::Register { transport, slot: registrations.len() },
                    )
                }
            },
            (Phase::Registering(transport), Event::RegistrationFailed(error)) => (
                bindings.remove(controller),
                ActionView::Finish {
                    unregister: binding.registrations.reverse(),
                    release: Some(transport),
                    result: Err(error),
                },
            ),
            _ => (bindings, ActionView::Unexpected),
        }
    }
}

/// Stop of `controller`. The call always succeeds. A controller that is not
/// bound stays so and there is nothing to undo. Otherwise the binding is
/// dropped at once, with the state of its receivers, and the action names
/// its registrations, last first, and its transport.
pub open spec fn stop_step(bindings: Bindings, controller: ControllerHandle) -> (
    Bindings,
    ActionView,
) {
    if !bindings.contains_key(controller) {
        (bindings, finished(Ok(())))
    } else {
        let binding = bindings[controller];
        (
            bindings.remove(controller),
            ActionView::Finish {
                unregister: binding.registrations.reverse(),
                release: binding.phase.transport(),
                result: Ok(()),
            },
        )
    }
}

/// Whether a report for the receiver in `slot` of `controller` is
/// delivered: the controller is active and has such a receiver.
pub open spec fn delivers(bindings: Bindings, controller: ControllerHandle, slot: int) -> bool {
    &&& bindings.contains_key(controller)
    &&& bindings[controller].phase is Active
    &&& 0 <= slot < bindings[controller].receivers.len()
}

/// A report for the receiver in `slot` of `controller`. Where it is
/// delivered, that one receiver takes the bytes; nothing else changes.
pub open spec fn dispatch_step(
    bindings: Bindings,
    controller: ControllerHandle,
    slot: int,
    raw: Seq<u8>,
) -> Bindings {
    if delivers(bindings, controller, slot) {
        let binding = bindings[controller];
        bindings.insert(
            controller,
            BindingView {
                phase: binding.phase,
                receivers: binding.receivers.update(slot, binding.receivers[slot].after(raw)),
                registrations: binding.registrations,
            },
        )
    } else {
        bindings
    }
}

/// The events of a Start in which the transport was opened as `transport`
/// and the receivers were registered as `registrations`, one after the
/// other.
pub open spec fn registering_events(
    transport: TransportHandle,
    registrations: Seq<Registration>,
) -> Seq<Event> {
    seq![Event::TransportAcquired(transport)] + registrations.map_values(
        |registration: Registration| Event::Registered(registration),
    )
}

/// The state after `events` were reported for `controller`, one after the
/// other.
pub open spec fn advance_all(
    bindings: Bindings,
    controller: ControllerHandle,
    events: Seq<Event>,
) -> Bindings
    decreases events.len(),
{
    if events.len() == 0 {
        bindings
    } else {
        advance_step(
            advance_all(bindings, controller, events.drop_last()),
            controller,
            events.last(),
        ).0
    }
}

/// Stop twice in succession: the second call succeeds like the first, has
/// nothing left to undo, and changes nothing.
pub proof fn lemma_stop_is_idempotent(bindings: Bindings, controller: ControllerHandle)
    ensures
        stop_step(bindings, controller).1 is Finish,
        stop_step(bindings, controller).1->result == Ok::<(), Error>(()),
        stop_step(stop_step(bindings, controller).0, controller).0 == stop_step(
            bindings,
            controller,
        ).0,
        stop_step(stop_step(bindings, controller).0, controller).1 == finished(Ok(())),
        lifecycle(stop_step(bindings, controller).0, controller) == BindingState::NotBound,
{
}

/// After Stop has returned no report reaches a receiver of the controller,
/// and before Start has succeeded none does either.
pub proof fn lemma_no_report_outside_active(
    bindings: Bindings,
    controller: ControllerHandle,
    slot: int,
    raw: Seq<u8>,
)
    ensures
        dispatch_step(stop_step(bindings, controller).0, controller, slot, raw) == stop_step(
            bindings,
            controller,
        ).0,
        lifecycle(bindings, controller) != BindingState::Active ==> dispatch_step(
            bindings,
            controller,
            slot,
            raw,
        ) == bindings,
{
}

/// What is done for one controller leaves every other controller's binding,
/// and with it the state of its receivers, exactly as it was.
pub proof fn lemma_controllers_are_isolated(
    bindings: Bindings,
    controller: ControllerHandle,
    other: ControllerHandle,
    event: Event,
    slot: int,
    raw: Seq<u8>,
)
    requires
        other != controller,
    ensures
        start_step(bindings, controller).0.contains_key(other) == bindings.contains_key(other),
        advance_step(bindings, controller, event).0.contains_key(other) == bindings.contains_key(
            other,
        ),
        stop_step(bindings, controller).0.contains_key(other) == bindings.contains_key(other),
        dispatch_step(bindings, controller, slot, raw).contains_key(other)
            == bindings.contains_key(other),
        bindings.contains_key(other) ==> {
            &&& start_step(bindings, controller).0[other] == bindings[other]
            &&& advance_step(bindings, controller, event).0[other] == bindings[other]
            &&& stop_step(bindings, controller).0[other] == bindings[other]
            &&& dispatch_step(bindings, controller, slot, raw)[other] == bindings[other]
        },
{
}

/// Every step takes a valid state to a valid state.
pub proof fn lemma_steps_keep_validity(
    bindings: Bindings,
    controller: ControllerHandle,
    event: Event,
    slot: int,
    raw: Seq<u8>,
)
    requires
        bindings_wf(bindings),
    ensures
        bindings_wf(start_step(bindings, controller).0),
        bindings_wf(advance_step(bindings, controller, event).0),
        bindings_wf(stop_step(bindings, controller).0),
        bindings_wf(dispatch_step(bindings, controller, slot, raw)),
{
    assert(bindings_wf(start_step(bindings, controller).0));
    assert(bindings_wf(advance_step(bindings, controller, event).0)) by {
        crate::receiver::lemma_report_keeps_validity(fresh_receivers()[0], Seq::empty());
        crate::receiver::lemma_report_keeps_validity(fresh_receivers()[1], Seq::empty());
    }
    assert(bindings_wf(stop_step(bindings, controller).0));
    if delivers(bindings, controller, slot) {
        crate::receiver::lemma_report_keeps_validity(bindings[controller].receivers[slot], raw);
    }
}

/// A Start whose transport opened and whose first registrations succeeded
/// is still under way, holding exactly those registrations in order, as
/// long as a receiver is left to register.
pub proof fn lemma_start_in_progress(
    bindings: Bindings,
    controller: ControllerHandle,
    transport: TransportHandle,
    registrations: Seq<Registration>,
)
    requires
        !bindings.contains_key(controller),
        registrations.len() < fresh_receivers().len(),
    ensures
        advance_all(
            start_step(bindings, controller).0,
            controller,
            registering_events(transport, registrations),
        ) == bindings.insert(
            controller,
            BindingView {
                phase: Phase::Registering(transport),
                receivers: fresh_receivers(),
                registrations,
            },
        ),
    decreases registrations.len(),
{
    let begun = start_step(bindings, controller).0;
    let events = registering_events(transport, registrations);
    if registrations.len() == 0 {
        assert(events.drop_last() =~= Seq::<Event>::empty());
        assert(registrations =~= Seq::<Registration>::empty());
        reveal_with_fuel(advance_all, 2);
        assert(advance_all(begun, controller, events) =~= bindings.insert(
            controller,
            BindingView {
                phase: Phase::Registering(transport),
                receivers: fresh_receivers(),
                registrations,
            },
        ));
    } else {
        let earlier = registrations.drop_last();
        lemma_start_in_progress(bindings, controller, transport, earlier);
        assert(events.drop_last() =~= registering_events(transport, earlier));
        assert(events.last() == Event::Registered(registrations.last()));
        assert(earlier.push(registrations.last()) =~= registrations);
        assert(advance_all(begun, controller, events) =~= bindings.insert(
            controller,
            BindingView {
                phase: Phase::Registering(transport),
                receivers: fresh_receivers(),
                registrations,
            },
        ));
    }
}

/// Start fails atomically. When a registration fails after the transport
/// opened and some receivers were registered, the call ends with that very
/// error, the action names the registrations of this call, last first, and
/// the transport, and the state is what it was before Start.
pub proof fn lemma_failed_start_unwinds(
    bindings: Bindings,
    controller: ControllerHandle,
    transport: TransportHandle,
    registrations: Seq<Registration>,
    error: Error,
)
    requires
        !bindings.contains_key(controller),
        registrations.len() < fresh_receivers().len(),
    ensures
        advance_step(
            advance_all(
                start_step(bindings, controller).0,
                controller,
                registering_events(transport, registrations),
            ),
            controller,
            Event::RegistrationFailed(error),
        ) == (
            bindings,
            ActionView::Finish {
                unregister: registrations.reverse(),
                release: Some(transport),
                result: Err(error),
            },
        ),
{
    lemma_start_in_progress(bindings, controller, transport, registrations);
    let under_way = bindings.insert(
        controller,
        BindingView {
            phase: Phase::Registering(transport),
            receivers: fresh_receivers(),
            registrations,
        },
    );
    assert(under_way.remove(controller) =~= bindings);
}

/// A Start whose transport cannot be had ends with that very error, with
/// nothing to undo, and leaves the state as it was before.
pub proof fn lemma_start_without_transport(
    bindings: Bindings,
    controller: ControllerHandle,
    error: Error,
)
    requires
        !bindings.contains_key(controller),
    ensures
        start_step(bindings, controller).1 == ActionView::AcquireTransport,
        advance_step(
            start_step(bindings, controller).0,
            controller,
            Event::TransportUnavailable(error),
        ) == (bindings, finished(Err(error))),
{
    let begun = start_step(bindings, controller).0;
    assert(begun.remove(controller) =~= bindings);
}

/// A Start in which every step succeeds ends in success with the controller
/// active, and the Stop that follows undoes it in exactly the reverse
/// order: the registrations last first, then the transport, and the state
/// is what it was before Start.
pub proof fn lemma_stop_reverses_start(
    bindings: Bindings,
    controller: ControllerHandle,
    transport: TransportHandle,
    registrations: Seq<Registration>,
)
    requires
        !bindings.contains_key(controller),
        registrations.len() == fresh_receivers().len(),
    ensures
        ({
            let started = advance_all(
                start_step(bindings, controller).0,
                controller,
                registering_events(transport, registrations),
            );
            &&& lifecycle(started, controller) == BindingState::Active
            &&& started[controller].registrations == registrations
            &&& started[controller].receivers == fresh_receivers()
            &&& stop_step(started, controller) == (
                bindings,
                ActionView::Finish {
                    unregister: registrations.reverse(),
                    release: Some(transport),
                    result: Ok(()),
                },
            )
        }),
{
    let begun = start_step(bindings, controller).0;
    let events = registering_events(transport, registrations);
    let earlier = registrations.drop_last();
    lemma_start_in_progress(bindings, controller, transport, earlier);
    assert(events.drop_last() =~= registering_events(transport, earlier));
    assert(events.last() == Event::Registered(registrations.last()));
    assert(earlier.push(registrations.last()) =~= registrations);
    let started = advance_all(begun, controller, events);
    let active = bindings.insert(
        controller,
        BindingView {
            phase: Phase::Active(transport),
            receivers: fresh_receivers(),
            registrations,
        },
    );
    assert(started =~= active);
    assert(active.remove(controller) =~= bindings);
}

} // verus!
