//! The driver-binding coordinator: the root of the driver, and the only
//! component the host runtime talks to.
//!
//! The host runtime drives a driver through three callbacks: Supported,
//! Start and Stop. Opening a transport and registering for its
//! notifications are the host's work. The coordinator decides: each of its
//! entry points takes what the host reports and answers with what the host
//! is to do next, until an action says that the call is over. What it
//! decides is fixed by the state machine of `binding_model`.

use crate::binding_model::{
    advance_step, bindings_wf, delivers, dispatch_step, fresh_receivers, lifecycle, start_step,
    stop_step, ActionView, BindingState, BindingView, Bindings, Event, Phase,
};
use crate::error::Error;
use crate::guid::Guid;
use crate::handles::{AgentHandle, ControllerHandle, Registration, TransportHandle};
use crate::receiver::{
    KeyboardHandler, KeyboardState, PointerHandler, PointerState, ReceiverState, ReportReceiver,
};
use vstd::prelude::*;

verus! {

/// What the host is to do next.
#[derive(Debug, PartialEq, Eq)]
pub enum Action {
    /// Open the transport of the controller, and report how that went.
    AcquireTransport,
    /// Register the receiver in `slot` for the transport's report-available
    /// notification, and report how that went.
    Register { transport: TransportHandle, slot: usize },
    /// The call is over: undo the registrations listed, in the order listed,
    /// release the transport if one is named, and return `result`.
    Finish { unregister: Vec<Registration>, release: Option<TransportHandle>, result: Result<
        (),
        Error,
    > },
    /// What was reported fits no Start that is under way. Nothing changed;
    /// what the report carried is the host's to undo.
    Unexpected,
}

impl View for Action {
    type V = ActionView;

    open spec fn view(&self) -> ActionView {
        match self {
            Action::AcquireTransport => ActionView::AcquireTransport,
            Action::Register { transport, slot } => ActionView::Register {
                transport: *transport,
                slot: *slot as nat,
            },
            Action::Finish { unregister, release, result } => ActionView::Finish {
                unregister: unregister@,
                release: *release,
                result: *result,
            },
            Action::Unexpected => ActionView::Unexpected,
        }
    }
}

/// Makes the receivers of a controller.
#[derive(Clone, Copy, Debug)]
pub struct UefiReceivers {
    agent: AgentHandle,
}

impl UefiReceivers {
    /// The agent that the receivers are made for.
    pub closed spec fn agent(&self) -> AgentHandle {
        self.agent
    }

    /// A factory of receivers for `agent`.
    pub fn new(agent: AgentHandle) -> (factory: UefiReceivers)
        ensures
            factory.agent() == agent,
    {
        UefiReceivers { agent }
    }

    /// The receivers that apply to `controller`, in the order in which they
    /// are to be registered: a pointer handler, then a keyboard handler,
    /// each made for the factory's agent and without a report seen.
    ///
    /// Making them is setup alone, with no I/O, so the list is always had.
    pub fn new_hid_receiver_list(&self, controller: ControllerHandle) -> (result: Result<
        Vec<ReportReceiver>,
        Error,
    >)
        ensures
            result matches Ok(receivers) && {
                &&& receivers@.len() == 2
                &&& receivers@[0].state() == ReceiverState::Pointer(PointerState::initial())
                &&& receivers@[1].state() == ReceiverState::Keyboard(KeyboardState::initial())
                &&& forall|i: int|
                    0 <= i < receivers@.len() ==> (#[trigger] receivers@[i]).agent()
                        == self.agent() && receivers@[i].wf()
            },
    {
        let mut receivers: Vec<ReportReceiver> = Vec::new();
        receivers.push(ReportReceiver::Pointer(PointerHandler::new(self.agent)));
        receivers.push(ReportReceiver::Keyboard(KeyboardHandler::new(self.agent)));
        Ok(receivers)
    }
}

/// What the coordinator holds for one controller.
#[derive(Debug)]
struct Binding {
    controller: ControllerHandle,
    phase: Phase,
    receivers: Vec<ReportReceiver>,
    registrations: Vec<Registration>,
}

impl Binding {
    spec fn view(&self) -> BindingView {
        BindingView {
            phase: self.phase,
            receivers: Seq::new(self.receivers@.len(), |i: int| self.receivers@[i].state()),
            registrations: self.registrations@,
        }
    }

    spec fn wf(&self, agent: AgentHandle) -> bool {
        &&& self.view().wf()
        &&& forall|i: int|
            0 <= i < self.receivers@.len() ==> (#[trigger] self.receivers@[i]).agent() == agent
    }
}

/// Whether one of `bindings` is that of `controller`.
spec fn is_bound(bindings: Seq<Binding>, controller: ControllerHandle) -> bool {
    exists|i: int| 0 <= i < bindings.len() && (#[trigger] bindings[i]).controller == controller
}

/// Where in `bindings` the binding of `controller` stands.
spec fn position(bindings: Seq<Binding>, controller: ControllerHandle) -> int {
    choose|i: int| 0 <= i < bindings.len() && (#[trigger] bindings[i]).controller == controller
}

/// No controller has two bindings.
spec fn distinct(bindings: Seq<Binding>) -> bool {
    forall|i: int, j: int|
        0 <= i < j < bindings.len() ==> (#[trigger] bindings[i]).controller != (
        #[trigger] bindings[j]).controller
}

/// The bindings by controller.
spec fn as_map(bindings: Seq<Binding>) -> Bindings {
    Map::new(
        |controller: ControllerHandle| is_bound(bindings, controller),
        |controller: ControllerHandle| bindings[position(bindings, controller)].view(),
    )
}

/// Each binding is found in the map under its controller.
proof fn lemma_lookup(bindings: Seq<Binding>, index: int)
    requires
        distinct(bindings),
        0 <= index < bindings.len(),
    ensures
        is_bound(bindings, bindings[index].controller),
        position(bindings, bindings[index].controller) == index,
        as_map(bindings).contains_key(bindings[index].controller),
        as_map(bindings)[bindings[index].controller] == bindings[index].view(),
{
    let controller = bindings[index].controller;
    assert(is_bound(bindings, controller));
    let found = position(bindings, controller);
    if found < index {
        assert(bindings[found].controller != bindings[index].controller);
    } else if index < found {
        assert(bindings[index].controller != bindings[found].controller);
    }
}

/// A binding added for a controller that had none is an entry added to the
/// map.
proof fn lemma_push(bindings: Seq<Binding>, binding: Binding)
    requires
        distinct(bindings),
        !is_bound(bindings, binding.controller),
    ensures
        distinct(bindings.push(binding)),
        as_map(bindings.push(binding)) == as_map(bindings).insert(
            binding.controller,
            binding.view(),
        ),
{
    let longer = bindings.push(binding);
    assert forall|i: int, j: int| 0 <= i < j < longer.len() implies (
    #[trigger] longer[i]).controller != (#[trigger] longer[j]).controller by {
        if j == bindings.len() {
            assert(bindings[i].controller != binding.controller);
        } else {
            assert(bindings[i].controller != bindings[j].controller);
        }
    }
    assert forall|controller: ControllerHandle|
        is_bound(longer, controller) <==> (is_bound(bindings, controller) || controller
            == binding.controller) by {
        if is_bound(bindings, controller) {
            let i = position(bindings, controller);
            assert(longer[i].controller == controller);
        }
        if controller == binding.controller {
            assert(longer[bindings.len() as int].controller == controller);
        }
        if is_bound(longer, controller) {
            let i = position(longer, controller);
            if i < bindings.len() {
                assert(bindings[i].controller == controller);
            }
        }
    }
    let wanted = as_map(bindings).insert(binding.controller, binding.view());
    assert forall|controller: ControllerHandle|
        is_bound(longer, controller) implies #[trigger] as_map(longer)[controller]
        == wanted[controller] by {
        let i = position(longer, controller);
        lemma_lookup(longer, i);
        if i < bindings.len() {
            assert(bindings[i].controller == controller);
            lemma_lookup(bindings, i);
        }
    }
    assert(as_map(longer) =~= wanted);
}

/// A binding taken out is an entry taken out of the map.
proof fn lemma_remove(bindings: Seq<Binding>, index: int)
    requires
        distinct(bindings),
        0 <= index < bindings.len(),
    ensures
        distinct(bindings.remove(index)),
        as_map(bindings.remove(index)) == as_map(bindings).remove(bindings[index].controller),
{
    let shorter = bindings.remove(index);
    let gone = bindings[index].controller;
    assert forall|i: int, j: int| 0 <= i < j < shorter.len() implies (
    #[trigger] shorter[i]).controller != (#[trigger] shorter[j]).controller by {
        let from_i = if i < index {
            i
        } else {
            i + 1
        };
        let from_j = if j < index {
            j
        } else {
            j + 1
        };
        assert(bindings[from_i].controller != bindings[from_j].controller);
    }
    assert forall|controller: ControllerHandle|
        is_bound(shorter, controller) <==> (is_bound(bindings, controller) && controller
            != gone) by {
        if is_bound(shorter, controller) {
            let i = position(shorter, controller);
            let from = if i < index {
                i
            } else {
                i + 1
            };
            assert(bindings[from].controller == controller);
            if from < index {
                assert(bindings[from].controller != bindings[index].controller);
            } else {
                assert(bindings[index].controller != bindings[from].controller);
            }
        }
        if is_bound(bindings, controller) && controller != gone {
            let i = position(bindings, controller);
            let to = if i < index {
                i
            } else {
                i - 1
            };
            assert(shorter[to].controller == controller);
        }
    }
    assert forall|controller: ControllerHandle|
        is_bound(shorter, controller) implies #[trigger] as_map(shorter)[controller] == as_map(
            bindings,
        )[controller] by {
        let i = position(shorter, controller);
        lemma_lookup(shorter, i);
        let from = if i < index {
            i
        } else {
            i + 1
        };
        assert(bindings[from].controller == controller);
        lemma_lookup(bindings, from);
    }
    assert(as_map(shorter) =~= as_map(bindings).remove(gone));
}

/// A binding changed in place, its controller kept, is an entry replaced in
/// the map.
proof fn lemma_change(before: Seq<Binding>, after: Seq<Binding>, index: int)
    requires
        distinct(before),
        0 <= index < before.len(),
        after.len() == before.len(),
        forall|i: int|
            0 <= i < before.len() ==> (#[trigger] after[i]).controller == before[i].controller,
        forall|i: int|
            0 <= i < before.len() && i != index ==> (#[trigger] after[i]).view()
                == before[i].view(),
    ensures
        distinct(after),
        as_map(after) == as_map(before).insert(before[index].controller, after[index].view()),
{
    assert forall|i: int, j: int| 0 <= i < j < after.len() implies (
    #[trigger] after[i]).controller != (#[trigger] after[j]).controller by {
        assert(before[i].controller != before[j].controller);
    }
    assert forall|controller: ControllerHandle|
        is_bound(after, controller) <==> is_bound(before, controller) by {
        if is_bound(after, controller) {
            let i = position(after, controller);
            assert(before[i].controller == controller);
        }
        if is_bound(before, controller) {
            let i = position(before, controller);
            assert(after[i].controller == controller);
        }
    }
    lemma_lookup(before, index);
    let wanted = as_map(before).insert(before[index].controller, after[index].view());
    assert forall|controller: ControllerHandle|
        is_bound(after, controller) implies #[trigger] as_map(after)[controller]
        == wanted[controller] by {
        let i = position(after, controller);
        lemma_lookup(after, i);
        assert(before[i].controller == controller);
        lemma_lookup(before, i);
    }
    assert(as_map(after) =~= wanted);
}

/// The registrations of `made`, last first.
fn reversed(made: &Vec<Registration>) -> (undo: Vec<Registration>)
    ensures
        undo@ == made@.reverse(),
{
    let mut undo: Vec<Registration> = Vec::new();
    let mut left: usize = made.len();
    while left > 0
        invariant
            left <= made@.len(),
            undo@.len() == made@.len() - left,
            forall|i: int| 0 <= i < undo@.len() ==> undo@[i] == made@[made@.len() - 1 - i],
        decreases left,
    {
        left = left - 1;
        undo.push(made[left]);
    }
    assert(undo@ =~= made@.reverse());
    undo
}

/// Binds HID controllers: one transport and one set of receivers for each.
#[derive(Debug)]
pub struct DriverBindingCoordinator {
    required: Guid,
    factory: UefiReceivers,
    bindings: Vec<Binding>,
}

impl View for DriverBindingCoordinator {
    type V = Bindings;

    closed spec fn view(&self) -> Bindings {
        as_map(self.bindings@)
    }
}

impl DriverBindingCoordinator {
    /// Validity of the coordinator: no controller is bound twice, every
    /// binding is valid, and every receiver was made for the one agent.
    pub closed spec fn wf(&self) -> bool {
        &&& distinct(self.bindings@)
        &&& forall|i: int|
            0 <= i < self.bindings@.len() ==> (#[trigger] self.bindings@[i]).wf(
                self.factory.agent(),
            )
    }

    /// The agent on whose behalf controllers are bound.
    pub closed spec fn agent(&self) -> AgentHandle {
        self.factory.agent()
    }

    /// Wire bytes of the identifier of the capability a controller must
    /// expose to be bound.
    pub closed spec fn required_wire(&self) -> Seq<u8> {
        self.required@
    }

    /// A valid coordinator keeps a valid state.
    pub proof fn lemma_wf_view(&self)
        requires
            self.wf(),
        ensures
            bindings_wf(self@),
    {
        assert forall|controller: ControllerHandle| #[trigger]
            self@.contains_key(controller) implies self@[controller].wf() by {
            let i = position(self.bindings@, controller);
            assert(self.bindings@[i].wf(self.factory.agent()));
        }
    }

    /// A coordinator for `agent` that binds controllers which expose the
    /// capability `required`. No controller is bound yet.
    pub fn new(agent: AgentHandle, required: Guid) -> (coordinator: DriverBindingCoordinator)
        ensures
            coordinator.wf(),
            coordinator.agent() == agent,
            coordinator.required_wire() == required@,
            coordinator@ == Map::<ControllerHandle, BindingView>::empty(),
    {
        let coordinator = DriverBindingCoordinator {
            required,
            factory: UefiReceivers::new(agent),
            bindings: Vec::new(),
        };
        assert(coordinator@ =~= Map::<ControllerHandle, BindingView>::empty());
        coordinator
    }

    /// Where in the list the binding of `controller` stands, if it has one.
    fn find(&self, controller: ControllerHandle) -> (found: Option<usize>)
        requires
            self.wf(),
        ensures
            found is Some <==> self@.contains_key(controller),
            found matches Some(index) ==> {
                &&& index < self.bindings@.len()
                &&& self.bindings@[index as int].controller == controller
                &&& self@[controller] == self.bindings@[index as int].view()
            },
    {
        let mut index: usize = 0;
        while index < self.bindings.len()
            invariant
                self.wf(),
                index <= self.bindings@.len(),
                forall|i: int|
                    0 <= i < index ==> (#[trigger] self.bindings@[i]).controller != controller,
            decreases self.bindings@.len() - index,
        {
            if self.bindings[index].controller == controller {
                proof {
                    lemma_lookup(self.bindings@, index as int);
                }
                return Some(index);
            }
            index = index + 1;
        }
        proof {
            if is_bound(self.bindings@, controller) {
                let i = position(self.bindings@, controller);
                assert(self.bindings@[i].controller != controller);
            }
        }
        None
    }

    /// Supported: whether a controller that exposes the capabilities
    /// `exposed` has the one this driver requires. Nothing is changed, so
    /// the host may ask as often as it likes.
    pub fn supported(&self, exposed: &[Guid]) -> (supported: bool)
        ensures
            supported == exists|i: int|
                0 <= i < exposed@.len() && (#[trigger] exposed@[i])@ == self.required_wire(),
    {
        let mut index: usize = 0;
        while index < exposed.len()
            invariant
                index <= exposed@.len(),
                forall|i: int| 0 <= i < index ==> (#[trigger] exposed@[i])@ != self.required_wire(),
            decreases exposed@.len() - index,
        {
            if exposed[index] == self.required {
                return true;
            }
            index = index + 1;
        }
        false
    }

    /// Where `controller` stands in the lifecycle.
    pub fn state(&self, controller: ControllerHandle) -> (state: BindingState)
        requires
            self.wf(),
        ensures
            state == lifecycle(self@, controller),
    {
        match self.find(controller) {
            None => BindingState::NotBound,
            Some(index) => match self.bindings[index].phase {
                Phase::Active(_) => BindingState::Active,
                _ => BindingState::Bound,
            },
        }
    }

    /// Start: begins to bind `controller`.
    pub fn start(&mut self, controller: ControllerHandle) -> (action: Action)
        requires
            old(self).wf(),
        ensures
            final(self).wf(),
            final(self).agent() == old(self).agent(),
            final(self).required_wire() == old(self).required_wire(),
            final(self)@ == start_step(old(self)@, controller).0,
            action@ == start_step(old(self)@, controller).1,
    {
        match self.find(controller) {
            Some(_) => Action::Finish {
                unregister: Vec::new(),
                release: None,
                result: Err(Error::InvalidArgument),
            },
            None => {
                let binding = Binding {
                    controller,
                    phase: Phase::Acquiring,
                    receivers: Vec::new(),
                    registrations: Vec::new(),
                };
                proof {
                    lemma_push(self.bindings@, binding);
                    assert(binding.view().receivers =~= Seq::empty());
                    assert(binding.view().registrations =~= Seq::empty());
                }
                self.bindings.push(binding);
                Action::AcquireTransport
            },
        }
    }

    /// Takes what the host reports of the step it was asked to do for the
    /// Start of `controller`, and says what comes next.
    pub fn advance(&mut self, controller: ControllerHandle, event: Event) -> (action: Action)
        requires
            old(self).wf(),
        ensures
            final(self).wf(),
            final(self).agent() == old(self).agent(),
            final(self).required_wire() == old(self).required_wire(),
            final(self)@ == advance_step(old(self)@, controller, event).0,
            action@ == advance_step(old(self)@, controller, event).1,
    {
        let index = match self.find(controller) {
            Some(index) => index,
            None => {
                return Action::Unexpected;
            },
        };
        let ghost before = self.bindings@;
        assert(before[index as int].wf(self.factory.agent()));
        match (self.bindings[index].phase, event) {
            (Phase::Acquiring, Event::TransportAcquired(transport)) => {
                match self.factory.new_hid_receiver_list(controller) {
                    Ok(receivers) => {
                        self.bindings[index].receivers = receivers;
                        self.bindings[index].phase = Phase::Registering(transport);
                        proof {
                            assert(self.bindings@[index as int].view().receivers
                                =~= fresh_receivers());
                            assert(self.bindings@[index as int].view().registrations
                                =~= Seq::empty());
                            lemma_change(before, self.bindings@, index as int);
                        }
                        Action::Register { transport, slot: 0 }
                    },
                    Err(error) => {
                        // Making receivers does no I/O and does not fail. If
                        // it ever did, the transport would go back at once.
                        proof {
                            lemma_remove(before, index as int);
                        }
                        self.bindings.remove(index);
                        Action::Finish {
                            unregister: Vec::new(),
                            release: Some(transport),
                            result: Err(error),
                        }
                    },
                }
            },
            (Phase::Acquiring, Event::TransportUnavailable(error)) => {
                proof {
                    lemma_remove(before, index as int);
                }
                self.bindings.remove(index);
                Action::Finish { unregister: Vec::new(), release: None, result: Err(error) }
            },
            (Phase::Registering(transport), Event::Registered(registration)) => {
                self.bindings[index].registrations.push(registration);
                let made: usize = self.bindings[index].registrations.len();
                if made >= self.bindings[index].receivers.len() {
                    self.bindings[index].phase = Phase::Active(transport);
                    proof {
                        assert(self.bindings@[index as int].view() =~= BindingView {
                            phase: Phase::Active(transport),
                            receivers: before[index as int].view().receivers,
                            registrations: before[index as int].view().registrations.push(
                                registration,
                            ),
                        });
                        lemma_change(before, self.bindings@, index as int);
                    }
                    Action::Finish { unregister: Vec::new(), release: None, result: Ok(()) }
                } else {
                    proof {
                        assert(self.bindings@[index as int].view() =~= BindingView {
                            phase: Phase::Registering(transport),
                            receivers: before[index as int].view().receivers,
                            registrations: before[index as int].view().registrations.push(
                                registration,
                            ),
                        });
                        lemma_change(before, self.bindings@, index as int);
                    }
                    Action::Register { transport, slot: made }
                }
            },
            (Phase::Registering(transport), Event::RegistrationFailed(error)) => {
                proof {
                    lemma_remove(before, index as int);
                }
                let binding = self.bindings.remove(index);
                Action::Finish {
                    unregister: reversed(&binding.registrations),
                    release: Some(transport),
                    result: Err(error),
                }
            },
            _ => Action::Unexpected,
        }
    }

    /// Stop: unbinds `controller`. The receivers of the controller and all
    /// they have parsed are dropped before the call returns.
    pub fn stop(&mut self, controller: ControllerHandle) -> (action: Action)
        requires
            old(self).wf(),
        ensures
            final(self).wf(),
            final(self).agent() == old(self).agent(),
            final(self).required_wire() == old(self).required_wire(),
            final(self)@ == stop_step(old(self)@, controller).0,
            action@ == stop_step(old(self)@, controller).1,
    {
        match self.find(controller) {
            None => Action::Finish { unregister: Vec::new(), release: None, result: Ok(()) },
            Some(index) => {
                proof {
                    lemma_remove(self.bindings@, index as int);
                }
                let binding = self.bindings.remove(index);
                let release = match binding.phase {
                    Phase::Acquiring => None,
                    Phase::Registering(transport) => Some(transport),
                    Phase::Active(transport) => Some(transport),
                };
                Action::Finish {
                    unregister: reversed(&binding.registrations),
                    release,
                    result: Ok(()),
                }
            },
        }
    }

    /// Hands the raw report `raw` to the receiver in `slot` of
    /// `controller`, and says whether it was delivered. A report for a
    /// controller that is not active, or for a slot it does not have,
    /// reaches no receiver.
    pub fn dispatch_report(
        &mut self,
        controller: ControllerHandle,
        slot: usize,
        raw: &[u8],
    ) -> (delivered: bool)
        requires
            old(self).wf(),
        ensures
            final(self).wf(),
            final(self).agent() == old(self).agent(),
            final(self).required_wire() == old(self).required_wire(),
            delivered == delivers(old(self)@, controller, slot as int),
            final(self)@ == dispatch_step(old(self)@, controller, slot as int, raw@),
    {
        let index = match self.find(controller) {
            Some(index) => index,
            None => {
                return false;
            },
        };
        let active = match self.bindings[index].phase {
            Phase::Active(_) => true,
            _ => false,
        };
        if !active || slot >= self.bindings[index].receivers.len() {
            return false;
        }
        let ghost before = self.bindings@;
        assert(before[index as int].wf(self.factory.agent()));
        assert(before[index as int].view().receivers[slot as int].wf());
        self.bindings[index].receivers[slot].on_report(raw);
        proof {
            let changed = self.bindings@[index as int].view();
            let old_view = before[index as int].view();
            assert(changed.receivers =~= old_view.receivers.update(
                slot as int,
                old_view.receivers[slot as int].after(raw@),
            ));
            assert(changed =~= BindingView {
                phase: old_view.phase,
                receivers: old_view.receivers.update(
                    slot as int,
                    old_view.receivers[slot as int].after(raw@),
                ),
                registrations: old_view.registrations,
            });
            lemma_change(before, self.bindings@, index as int);
        }
        true
    }

    /// The receiver in `slot` of `controller`, if the controller is bound
    /// and has one there.
    pub fn receiver(&self, controller: ControllerHandle, slot: usize) -> (receiver: Option<
        &ReportReceiver,
    >)
        requires
            self.wf(),
        ensures
            receiver is Some <==> self@.contains_key(controller) && slot
                < self@[controller].receivers.len(),
            receiver matches Some(found) ==> {
                &&& found.state() == self@[controller].receivers[slot as int]
                &&& found.wf()
                &&& found.agent() == self.agent()
            },
    {
        match self.find(controller) {
            None => None,
            Some(index) => {
                if slot < self.bindings[index].receivers.len() {
                    assert(self.bindings@[index as int].wf(self.factory.agent()));
                    Some(&self.bindings[index].receivers[slot])
                } else {
                    None
                }
            },
        }
    }
}

} // verus!
