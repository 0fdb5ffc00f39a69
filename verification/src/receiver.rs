//! Report receivers: the per-device-class handlers that consume raw reports.
//!
//! The set of device classes is closed: a receiver is a keyboard handler or
//! a pointer handler. Each owns the state it has parsed and nothing else. A
//! report that is malformed for the receiver that sees it is discarded
//! there: the receiver's state stays as it was, and nothing is raised.
//!
//! Reports come in the fixed boot layouts. A keyboard report is exactly
//! eight bytes: a modifier byte, a reserved byte, and six key slots in which
//! zero means "no key". A pointer report is at least three bytes: a button
//! byte whose three low bits are the buttons, then the horizontal and the
//! vertical movement as signed bytes.

use crate::error::Error;
use crate::handles::AgentHandle;
use vstd::prelude::*;

verus! {

/// Length of a keyboard report.
pub const KEYBOARD_REPORT_SIZE: usize = 8;

/// Number of key slots in a keyboard report.
pub const KEY_SLOTS: usize = 6;

/// Least length of a pointer report.
pub const POINTER_REPORT_MIN_SIZE: usize = 3;

/// The predicate that tells a key code from an empty slot.
pub open spec fn is_key() -> spec_fn(u8) -> bool {
    |code: u8| code != 0
}

/// The keys that a sequence of key slots reports as held, in slot order.
pub open spec fn held_keys(slots: Seq<u8>) -> Seq<u8> {
    slots.filter(is_key())
}

/// The value of a byte read as a two's complement number.
pub open spec fn signed(byte: u8) -> int {
    if byte < 128 {
        byte as int
    } else {
        byte - 256
    }
}

/// `value`, held to the range of an `i32`.
pub open spec fn saturated(value: int) -> int {
    if value < i32::MIN {
        i32::MIN as int
    } else if value > i32::MAX {
        i32::MAX as int
    } else {
        value
    }
}

/// Whether `raw` has the layout of a keyboard report.
pub open spec fn is_keyboard_report(raw: Seq<u8>) -> bool {
    raw.len() == KEYBOARD_REPORT_SIZE
}

/// Whether `raw` has the layout of a pointer report.
pub open spec fn is_pointer_report(raw: Seq<u8>) -> bool {
    raw.len() >= POINTER_REPORT_MIN_SIZE
}

/// What a keyboard handler has parsed: the modifier byte and the keys held
/// according to the last report it accepted.
pub struct KeyboardState {
    pub modifiers: u8,
    pub keys: Seq<u8>,
}

/// What a pointer handler has parsed: the buttons of the last report it
/// accepted, and the movement of all of them summed up, saturating.
pub struct PointerState {
    pub buttons: u8,
    pub x: int,
    pub y: int,
}

impl KeyboardState {
    /// The state of a handler that has seen no report.
    pub open spec fn initial() -> KeyboardState {
        KeyboardState { modifiers: 0, keys: Seq::empty() }
    }

    /// Validity: at most six keys are held, and none is the empty slot.
    pub open spec fn wf(self) -> bool {
        &&& self.keys.len() <= KEY_SLOTS
        &&& forall|i: int| 0 <= i < self.keys.len() ==> self.keys[i] != 0
    }

    /// The state after `raw` arrived: taken from the report where it is a
    /// keyboard report, unchanged where it is not.
    pub open spec fn after(self, raw: Seq<u8>) -> KeyboardState {
        if is_keyboard_report(raw) {
            KeyboardState { modifiers: raw[0], keys: held_keys(raw.subrange(2, 8)) }
        } else {
            self
        }
    }
}

impl PointerState {
    /// The state of a handler that has seen no report.
    pub open spec fn initial() -> PointerState {
        PointerState { buttons: 0, x: 0, y: 0 }
    }

    /// Validity: only the three button bits are used, and the sums fit.
    pub open spec fn wf(self) -> bool {
        &&& self.buttons < 8
        &&& i32::MIN <= self.x <= i32::MAX
        &&& i32::MIN <= self.y <= i32::MAX
    }

    /// The state after `raw` arrived: the report's buttons and its movement
    /// added where it is a pointer report, unchanged where it is not.
    pub open spec fn after(self, raw: Seq<u8>) -> PointerState {
        if is_pointer_report(raw) {
            PointerState {
                buttons: (raw[0] % 8) as u8,
                x: saturated(self.x + signed(raw[1])),
                y: saturated(self.y + signed(raw[2])),
            }
        } else {
            self
        }
    }
}

/// The parsed state of a receiver, whichever its class.
pub enum ReceiverState {
    Keyboard(KeyboardState),
    Pointer(PointerState),
}

impl ReceiverState {
    /// Validity of the state, by class.
    pub open spec fn wf(self) -> bool {
        match self {
            ReceiverState::Keyboard(state) => state.wf(),
            ReceiverState::Pointer(state) => state.wf(),
        }
    }

    /// Whether a receiver in this state takes `raw` for a report of its
    /// class. What it does not accept is malformed to it.
    pub open spec fn accepts(self, raw: Seq<u8>) -> bool {
        match self {
            ReceiverState::Keyboard(_) => is_keyboard_report(raw),
            ReceiverState::Pointer(_) => is_pointer_report(raw),
        }
    }

    /// The state after `raw` arrived.
    pub open spec fn after(self, raw: Seq<u8>) -> ReceiverState {
        match self {
            ReceiverState::Keyboard(state) => ReceiverState::Keyboard(state.after(raw)),
            ReceiverState::Pointer(state) => ReceiverState::Pointer(state.after(raw)),
        }
    }
}

/// A decoded keyboard report.
#[derive(Clone, Debug, PartialEq, Eq)]
pub struct KeyboardReport {
    pub modifiers: u8,
    pub keys: Vec<u8>,
}

/// A decoded pointer report.
#[derive(Clone, Copy, Debug, PartialEq, Eq, Structural)]
pub struct PointerReport {
    pub buttons: u8,
    pub dx: i8,
    pub dy: i8,
}

/// Reads a byte as a two's complement number.
fn signed_byte(byte: u8) -> (value: i8)
    ensures
        value == signed(byte),
{
    if byte < 128 {
        byte as i8
    } else {
        (byte as i16 - 256) as i8
    }
}

/// Adds `delta` to `sum` without leaving the range of an `i32`.
fn saturating_sum(sum: i32, delta: i8) -> (total: i32)
    ensures
        total == saturated(sum + delta),
{
    let wide: i64 = sum as i64 + delta as i64;
    if wide < i32::MIN as i64 {
        i32::MIN
    } else if wide > i32::MAX as i64 {
        i32::MAX
    } else {
        wide as i32
    }
}

/// Decodes a keyboard report.
///
/// Fails with `InvalidReport`, and only then, when `raw` is not exactly
/// eight bytes long.
pub fn parse_keyboard_report(raw: &[u8]) -> (result: Result<KeyboardReport, Error>)
    ensures
        is_keyboard_report(raw@) <==> result is Ok,
        result is Err ==> result == Err::<KeyboardReport, Error>(Error::InvalidReport),
        result matches Ok(report) ==> {
            &&& report.modifiers == raw@[0]
            &&& report.keys@ == held_keys(raw@.subrange(2, 8))
            &&& report.keys@.len() <= KEY_SLOTS
            &&& forall|i: int| 0 <= i < report.keys@.len() ==> report.keys@[i] != 0
        },
{
    if raw.len() != KEYBOARD_REPORT_SIZE {
        return Err(Error::InvalidReport);
    }
    let ghost slots = raw@.subrange(2, 8);
    let mut keys: Vec<u8> = Vec::new();
    let mut slot: usize = 0;
    proof {
        reveal(Seq::filter);
        assert(slots.take(0).filter(is_key()) =~= Seq::<u8>::empty());
    }
    while slot < KEY_SLOTS
        invariant
            slot <= KEY_SLOTS,
            raw@.len() == KEYBOARD_REPORT_SIZE,
            slots == raw@.subrange(2, 8),
            keys@ == held_keys(slots.take(slot as int)),
            keys@.len() <= slot,
            forall|i: int| 0 <= i < keys@.len() ==> keys@[i] != 0,
        decreases KEY_SLOTS - slot,
    {
        let code: u8 = raw[2 + slot];
        proof {
            reveal(Seq::filter);
            let longer = slots.take(slot + 1);
            assert(longer.drop_last() =~= slots.take(slot as int));
            assert(longer.last() == code);
        }
        if code != 0 {
            keys.push(code);
        }
        slot = slot + 1;
    }
    assert(slots.take(KEY_SLOTS as int) =~= slots);
    Ok(KeyboardReport { modifiers: raw[0], keys })
}

/// Decodes a pointer report.
///
/// Fails with `InvalidReport`, and only then, when `raw` is shorter than
/// three bytes.
pub fn parse_pointer_report(raw: &[u8]) -> (result: Result<PointerReport, Error>)
    ensures
        is_pointer_report(raw@) <==> result is Ok,
        result is Err ==> result == Err::<PointerReport, Error>(Error::InvalidReport),
        result matches Ok(report) ==> {
            &&& report.buttons == raw@[0] % 8
            &&& report.dx == signed(raw@[1])
            &&& report.dy == signed(raw@[2])
        },
{
    if raw.len() < POINTER_REPORT_MIN_SIZE {
        return Err(Error::InvalidReport);
    }
    Ok(PointerReport { buttons: raw[0] % 8, dx: signed_byte(raw[1]), dy: signed_byte(raw[2]) })
}

/// Handles the reports of a keyboard.
#[derive(Debug)]
pub struct KeyboardHandler {
    agent: AgentHandle,
    modifiers: u8,
    keys: Vec<u8>,
}

impl KeyboardHandler {
    /// The agent this handler was made for.
    pub closed spec fn agent(&self) -> AgentHandle {
        self.agent
    }

    /// What the handler has parsed.
    pub closed spec fn state(&self) -> KeyboardState {
        KeyboardState { modifiers: self.modifiers, keys: self.keys@ }
    }

    /// A handler for `agent` that has seen no report.
    pub fn new(agent: AgentHandle) -> (handler: KeyboardHandler)
        ensures
            handler.agent() == agent,
            handler.state() == KeyboardState::initial(),
            handler.state().wf(),
    {
        KeyboardHandler { agent, modifiers: 0, keys: Vec::new() }
    }

    /// Takes a raw report. A malformed one is discarded.
    pub fn on_report(&mut self, raw: &[u8])
        requires
            old(self).state().wf(),
        ensures
            final(self).agent() == old(self).agent(),
            final(self).state() == old(self).state().after(raw@),
            final(self).state().wf(),
    {
        match parse_keyboard_report(raw) {
            Ok(report) => {
                self.modifiers = report.modifiers;
                self.keys = report.keys;
            },
            Err(_) => {},
        }
    }

    /// The modifier byte of the last accepted report.
    pub fn modifiers(&self) -> (modifiers: u8)
        ensures
            modifiers == self.state().modifiers,
    {
        self.modifiers
    }

    /// The keys held according to the last accepted report.
    pub fn keys(&self) -> (keys: &[u8])
        ensures
            keys@ == self.state().keys,
    {
        self.keys.as_slice()
    }
}

/// Handles the reports of a pointer.
#[derive(Debug)]
pub struct PointerHandler {
    agent: AgentHandle,
    buttons: u8,
    x: i32,
    y: i32,
}

impl PointerHandler {
    /// The agent this handler was made for.
    pub closed spec fn agent(&self) -> AgentHandle {
        self.agent
    }

    /// What the handler has parsed.
    pub closed spec fn state(&self) -> PointerState {
        PointerState { buttons: self.buttons, x: self.x as int, y: self.y as int }
    }

    /// A handler for `agent` that has seen no report.
    pub fn new(agent: AgentHandle) -> (handler: PointerHandler)
        ensures
            handler.agent() == agent,
            handler.state() == PointerState::initial(),
            handler.state().wf(),
    {
        PointerHandler { agent, buttons: 0, x: 0, y: 0 }
    }

    /// Takes a raw report. A malformed one is discarded.
    pub fn on_report(&mut self, raw: &[u8])
        requires
            old(self).state().wf(),
        ensures
            final(self).agent() == old(self).agent(),
            final(self).state() == old(self).state().after(raw@),
            final(self).state().wf(),
    {
        match parse_pointer_report(raw) {
            Ok(report) => {
                self.buttons = report.buttons;
                self.x = saturating_sum(self.x, report.dx);
                self.y = saturating_sum(self.y, report.dy);
            },
            Err(_) => {},
        }
    }

    /// The buttons of the last accepted report, one bit each.
    pub fn buttons(&self) -> (buttons: u8)
        ensures
            buttons == self.state().buttons,
    {
        self.buttons
    }

    /// The summed movement, horizontal and vertical.
    pub fn position(&self) -> (position: (i32, i32))
        ensures
            position.0 == self.state().x,
            position.1 == self.state().y,
    {
        (self.x, self.y)
    }
}

/// A handler of one device class, with the state it has parsed.
#[derive(Debug)]
pub enum ReportReceiver {
    Keyboard(KeyboardHandler),
    Pointer(PointerHandler),
}

impl ReportReceiver {
    /// The agent this receiver was made for.
    pub open spec fn agent(&self) -> AgentHandle {
        match self {
            ReportReceiver::Keyboard(handler) => handler.agent(),
            ReportReceiver::Pointer(handler) => handler.agent(),
        }
    }

    /// What the receiver has parsed.
    pub open spec fn state(&self) -> ReceiverState {
        match self {
            ReportReceiver::Keyboard(handler) => ReceiverState::Keyboard(handler.state()),
            ReportReceiver::Pointer(handler) => ReceiverState::Pointer(handler.state()),
        }
    }

    /// Validity of the receiver: that of its parsed state.
    pub open spec fn wf(&self) -> bool {
        self.state().wf()
    }

    /// Dispatches a raw report to the handler of this receiver's class.
    ///
    /// Whatever the bytes, the call returns and leaves a valid state; bytes
    /// that the class does not accept leave the state as it was.
    pub fn on_report(&mut self, raw: &[u8])
        requires
            old(self).wf(),
        ensures
            final(self).wf(),
            final(self).agent() == old(self).agent(),
            final(self).state() == old(self).state().after(raw@),
            !old(self).state().accepts(raw@) ==> final(self).state() == old(self).state(),
    {
        match self {
            ReportReceiver::Keyboard(handler) => {
                handler.on_report(raw);
            },
            ReportReceiver::Pointer(handler) => {
                handler.on_report(raw);
            },
        }
    }

    /// Whether this receiver handles a keyboard.
    pub fn is_keyboard(&self) -> (keyboard: bool)
        ensures
            keyboard == (self.state() is Keyboard),
    {
        match self {
            ReportReceiver::Keyboard(_) => true,
            ReportReceiver::Pointer(_) => false,
        }
    }
}

/// Whatever bytes arrive, a valid state is followed by a valid state.
pub proof fn lemma_report_keeps_validity(state: ReceiverState, raw: Seq<u8>)
    requires
        state.wf(),
    ensures
        state.after(raw).wf(),
{
    match state {
        ReceiverState::Keyboard(keyboard) => {
            if is_keyboard_report(raw) {
                let slots = raw.subrange(2, 8);
                slots.lemma_filter_len(is_key());
                assert forall|i: int| 0 <= i < held_keys(slots).len() implies held_keys(slots)[i]
                    != 0 by {
                    slots.lemma_filter_pred(is_key(), i);
                }
            }
        },
        ReceiverState::Pointer(pointer) => {},
    }
}

/// Malformed bytes change nothing: a report that the receiver does not
/// accept leaves its parsed state exactly as it was.
pub proof fn lemma_malformed_report_is_discarded(state: ReceiverState, raw: Seq<u8>)
    requires
        !state.accepts(raw),
    ensures
        state.after(raw) == state,
{
}

} // verus!
