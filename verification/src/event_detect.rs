//! The hardware input event-detection engine.
//!
//! The engine owns a fixed table of pin slots. Each configured input claims
//! one slot (button, switch) or two contiguous slots (encoder). Raw edge
//! transitions go in through [`GpioEventDetect::on_event`]; debounced,
//! semantically resolved events come out. Switch edges are deferred: the
//! engine hands back a pending marker, and the caller resolves it through
//! [`GpioEventDetect::on_pending_event`] with the level sampled live when the
//! debounce window fires.
//!
//! The whole state machine is mirrored by spec-level transition functions
//! over [`EngineView`]; every method's contract says that it steps the view
//! exactly as the spec function does.

use vstd::prelude::*;

use crate::gpio_types::{
    ButtonEvent, ButtonInput, Edge, EncoderEvent, EncoderEventType, EncoderInput, EncoderWithPins,
    GpioEvent, GpioInput, PendingEvent, ResolvedPendingEvent, SwitchInput, SwitchPendingEvent,
};

verus! {

/// Number of pin slots the engine keeps; pins are indices below this bound.
pub const MAX_PINS: usize = 100;

/// Debounce window in milliseconds, for buttons and switches alike.
pub const DEBOUNCE_MS: u64 = 50;

/// Pin-state byte for a slot no edge has ever touched.
pub const PINSTATE_UNUSED: u8 = 0xff;

/// Pin-state byte for a switch settled low.
pub const PINSTATE_SWITCH_LOW: u8 = 0x00;

/// Pin-state byte for a switch settled high.
pub const PINSTATE_SWITCH_HIGH: u8 = 0x01;

/// Pin-state byte for a switch awaiting resolution; it was settled low.
pub const PINSTATE_SWITCH_PENDING_WAS_LOW: u8 = 0x10;

/// Pin-state byte for a switch awaiting resolution; it was settled high.
pub const PINSTATE_SWITCH_PENDING_WAS_HIGH: u8 = 0x11;

/// Pin-state byte for a switch awaiting resolution; it had no settled value.
pub const PINSTATE_SWITCH_PENDING_WAS_UNUSED: u8 = 0x12;

/// Encoder history pattern that completes a clockwise (right) detent.
pub const ENC_PATTERN_RIGHT: u8 = 0x39;

/// Encoder history pattern that completes a counter-clockwise (left) detent.
pub const ENC_PATTERN_LEFT: u8 = 0x93;

/// What one pin slot is assigned to, as the contracts see it. An encoder
/// appears in both of its slots with the same record and pin pair.
pub enum SlotView {
    Unused,
    Encoder { encoder: EncoderInput, pin1: int, pin2: int },
    Button { button: ButtonInput },
    Switch { switch: SwitchInput },
}

/// The engine's abstract state: per-pin assignment, per-pin state byte, and
/// per-pin time of the last accepted button event.
#[verifier::ext_equal]
pub struct EngineView {
    pub slots: Seq<SlotView>,
    pub states: Seq<u8>,
    pub times: Seq<u64>,
}

impl EngineView {
    /// Shape of a sound engine: full-size tables, and every encoder slot
    /// naming two contiguous in-range pins.
    pub open spec fn wf(self) -> bool {
        &&& self.slots.len() == MAX_PINS
        &&& self.states.len() == MAX_PINS
        &&& self.times.len() == MAX_PINS
        &&& forall|p: int|
            0 <= p < MAX_PINS ==> ((#[trigger] self.slots[p]) matches SlotView::Encoder {
                encoder,
                pin1,
                pin2,
            } ==> 0 <= pin1 && pin2 == pin1 + 1 && pin2 < MAX_PINS)
    }
}

/// One step of a pin's 4-bit edge history: shift and append the new bit.
pub open spec fn enc_shift_in(state: u8, bit: u8) -> u8 {
    (state << 1) | bit
}

/// The 8-bit quadrature pattern: the low 4 history bits of the first pin
/// over the low 4 of the second.
pub open spec fn enc_pattern(s1: u8, s2: u8) -> u8 {
    ((s1 & 0xf) << 4) | (s2 & 0xf)
}

/// The event an encoder emits for the pattern formed by its two pins'
/// histories: right on one pattern, left on its mirror, nothing otherwise.
pub open spec fn spec_encoder_event(enc: EncoderInput, s1: u8, s2: u8) -> Option<EncoderEvent> {
    if enc_pattern(s1, s2) == ENC_PATTERN_RIGHT {
        Some(EncoderEvent {
            event_type: EncoderEventType::Right,
            encoder_name: enc.command.encoder_name,
            command: enc.command.cmd_right,
        })
    } else if enc_pattern(s1, s2) == ENC_PATTERN_LEFT {
        Some(EncoderEvent {
            event_type: EncoderEventType::Left,
            encoder_name: enc.command.encoder_name,
            command: enc.command.cmd_left,
        })
    } else {
        None
    }
}

/// Encoder transition on the pin-state table: an edge whose level equals the
/// pin's stored low bit is a driver glitch and is ignored; otherwise the new
/// bit is shifted into this pin's history and the paired pin's low bit is
/// duplicated into its own.
pub open spec fn spec_on_encoder_event(
    states: Seq<u8>,
    pin: int,
    edge: Edge,
    enc: EncoderInput,
    pin1: int,
    pin2: int,
) -> (Seq<u8>, Option<EncoderEvent>) {
    let value = edge.spec_value();
    let s = states[pin];
    if s & 1 == value {
        (states, None)
    } else {
        let other = if pin == pin1 {
            pin2
        } else {
            pin1
        };
        let so = states[other];
        let states1 = states.update(pin, enc_shift_in(s, value)).update(
            other,
            enc_shift_in(so, so & 1),
        );
        (states1, spec_encoder_event(enc, states1[pin1], states1[pin2]))
    }
}

/// When a button edge is accepted as a genuine press: a low-to-high
/// transition, either never accepted before or at least the debounce window
/// after the last accepted one.
pub open spec fn button_accepts(prev: u8, edge: Edge, last: u64, time: u64) -> bool {
    &&& prev & 1 == 0
    &&& edge.spec_value() == 1
    &&& (last == 0 || time >= last + DEBOUNCE_MS)
}

/// Button transition: the pin state always tracks the edge level; an
/// accepted press also records its time.
pub open spec fn spec_on_button_event(
    states: Seq<u8>,
    times: Seq<u64>,
    pin: int,
    edge: Edge,
    time: u64,
    button: ButtonInput,
) -> (Seq<u8>, Seq<u64>, Option<ButtonEvent>) {
    let states1 = states.update(pin, edge.spec_value());
    if button_accepts(states[pin], edge, times[pin], time) {
        (states1, times.update(pin, time), Some(ButtonEvent { command: button.command }))
    } else {
        (states1, times, None)
    }
}

/// Switch transition: any edge on an idle line starts a pending window
/// tagged with the prior settled value; edges on an already-pending line are
/// coalesced.
pub open spec fn spec_on_switch_event(states: Seq<u8>, pin: int) -> (Seq<u8>, Option<GpioEvent>) {
    let pending = Some(
        GpioEvent::Pending {
            debounce: DEBOUNCE_MS,
            event: PendingEvent::SwitchPending(SwitchPendingEvent { pin: pin as usize }),
        },
    );
    let s = states[pin];
    if s == PINSTATE_UNUSED {
        (states.update(pin, PINSTATE_SWITCH_PENDING_WAS_UNUSED), pending)
    } else if s == PINSTATE_SWITCH_HIGH {
        (states.update(pin, PINSTATE_SWITCH_PENDING_WAS_HIGH), pending)
    } else if s == PINSTATE_SWITCH_LOW {
        (states.update(pin, PINSTATE_SWITCH_PENDING_WAS_LOW), pending)
    } else {
        (states, None)
    }
}

/// The engine's transition for one raw edge on `pin` at `time`.
pub open spec fn spec_on_event(v: EngineView, pin: int, edge: Edge, time: u64) -> (
    EngineView,
    Option<GpioEvent>,
) {
    match v.slots[pin] {
        SlotView::Unused => (v, None),
        SlotView::Encoder { encoder, pin1, pin2 } => {
            let (states1, ev) = spec_on_encoder_event(v.states, pin, edge, encoder, pin1, pin2);
            (
                EngineView { states: states1, ..v },
                match ev {
                    Some(e) => Some(GpioEvent::Encoder(e)),
                    None => None,
                },
            )
        },
        SlotView::Button { button } => {
            let (states1, times1, ev) = spec_on_button_event(
                v.states,
                v.times,
                pin,
                edge,
                time,
                button,
            );
            (
                EngineView { states: states1, times: times1, ..v },
                match ev {
                    Some(e) => Some(GpioEvent::Button(e)),
                    None => None,
                },
            )
        },
        SlotView::Switch { switch } => {
            let (states1, ev) = spec_on_switch_event(v.states, pin);
            (EngineView { states: states1, ..v }, ev)
        },
    }
}

/// The engine's transition for resolving a pending switch event on `pin`
/// against the level sampled when the debounce window fired. A command is
/// committed exactly when the sampled level differs from the prior settled
/// value (or there was none); resolution on a line that is not pending
/// changes nothing.
pub open spec fn spec_on_pending_event(v: EngineView, pin: int, line_value: bool) -> (
    EngineView,
    Option<ResolvedPendingEvent>,
) {
    match v.slots[pin] {
        SlotView::Switch { switch } => {
            let s = v.states[pin];
            if (s == PINSTATE_SWITCH_PENDING_WAS_LOW || s == PINSTATE_SWITCH_PENDING_WAS_UNUSED)
                && line_value {
                (
                    EngineView { states: v.states.update(pin, PINSTATE_SWITCH_HIGH), ..v },
                    Some(ResolvedPendingEvent { command: switch.command_high }),
                )
            } else if s == PINSTATE_SWITCH_PENDING_WAS_HIGH && line_value {
                (EngineView { states: v.states.update(pin, PINSTATE_SWITCH_HIGH), ..v }, None)
            } else if (s == PINSTATE_SWITCH_PENDING_WAS_HIGH || s
                == PINSTATE_SWITCH_PENDING_WAS_UNUSED) && !line_value {
                (
                    EngineView { states: v.states.update(pin, PINSTATE_SWITCH_LOW), ..v },
                    Some(ResolvedPendingEvent { command: switch.command_low }),
                )
            } else if s == PINSTATE_SWITCH_PENDING_WAS_LOW && !line_value {
                (EngineView { states: v.states.update(pin, PINSTATE_SWITCH_LOW), ..v }, None)
            } else {
                (EngineView { states: v.states.update(pin, s), ..v }, None)
            }
        },
        _ => (v, None),
    }
}

/// How many pin slots a topology claims, front to back.
pub open spec fn slot_width(input: GpioInput) -> int {
    match input {
        GpioInput::Encoder(_) => 2,
        GpioInput::Button(_) => 1,
        GpioInput::Switch(_) => 1,
    }
}

/// Total number of pin slots a topology claims.
pub open spec fn spec_pins_required(inputs: Seq<GpioInput>) -> int
    decreases inputs.len(),
{
    if inputs.len() == 0 {
        0
    } else {
        spec_pins_required(inputs.drop_last()) + slot_width(inputs.last())
    }
}

/// The view of an engine nothing has been registered on: every slot unused,
/// every pin-state byte at the unused sentinel, every time at zero.
pub open spec fn fresh_view() -> EngineView {
    EngineView {
        slots: Seq::new(MAX_PINS as nat, |p: int| SlotView::Unused),
        states: Seq::new(MAX_PINS as nat, |p: int| PINSTATE_UNUSED),
        times: Seq::new(MAX_PINS as nat, |p: int| 0u64),
    }
}

/// Registering one input at `pin`: an encoder claims `pin` and `pin + 1`,
/// both slots referencing the same record; a button or switch claims `pin`.
pub open spec fn spec_register(v: EngineView, input: GpioInput, pin: int) -> EngineView {
    match input {
        GpioInput::Encoder(e) => {
            let slot = SlotView::Encoder { encoder: e, pin1: pin, pin2: pin + 1 };
            EngineView { slots: v.slots.update(pin, slot).update(pin + 1, slot), ..v }
        },
        GpioInput::Button(b) => EngineView {
            slots: v.slots.update(pin, SlotView::Button { button: b }),
            ..v
        },
        GpioInput::Switch(s) => EngineView {
            slots: v.slots.update(pin, SlotView::Switch { switch: s }),
            ..v
        },
    }
}

/// Registering a whole topology starting at `pin`, front to back.
pub open spec fn spec_register_seq(v: EngineView, inputs: Seq<GpioInput>, pin: int) -> EngineView
    decreases inputs.len(),
{
    if inputs.len() == 0 {
        v
    } else {
        spec_register_seq(
            spec_register(v, inputs[0], pin),
            inputs.drop_first(),
            pin + slot_width(inputs[0]),
        )
    }
}

/// The view [`GpioEventDetect::new`] builds for a topology.
pub open spec fn spec_new_view(inputs: Seq<GpioInput>) -> EngineView {
    spec_register_seq(fresh_view(), inputs, 0)
}

/// What one pin slot is assigned to. Both of an encoder's slots hold the
/// index of one shared record, so the pair cannot drift apart.
enum InputSlot {
    Unused,
    AssignedToEncoder { encoder_idx: usize },
    AssignedToButton { button: ButtonInput },
    AssignedToSwitch { switch: SwitchInput },
}

/// The event-detection engine: pin-indexed state bytes, pin-slot
/// assignments, shared encoder records, and per-pin last-accepted times.
pub struct GpioEventDetect {
    pin_states: Vec<u8>,
    input_slots: Vec<InputSlot>,
    encoders: Vec<EncoderWithPins>,
    last_event_times: Vec<u64>,
}

impl GpioEventDetect {
    /// The assignment of pin `p`, with encoder indices resolved to their
    /// shared record.
    closed spec fn slot_view(&self, p: int) -> SlotView {
        match self.input_slots@[p] {
            InputSlot::Unused => SlotView::Unused,
            InputSlot::AssignedToEncoder { encoder_idx } => {
                if encoder_idx < self.encoders@.len() {
                    let e = self.encoders@[encoder_idx as int];
                    SlotView::Encoder { encoder: e.encoder, pin1: e.pin1 as int, pin2: e.pin2 as int }
                } else {
                    SlotView::Unused
                }
            },
            InputSlot::AssignedToButton { button } => SlotView::Button { button },
            InputSlot::AssignedToSwitch { switch } => SlotView::Switch { switch },
        }
    }

    /// The engine's internal invariant: full-size tables, every encoder
    /// index in range, every encoder record naming two contiguous in-range
    /// pins.
    pub closed spec fn wf(&self) -> bool {
        &&& self.pin_states@.len() == MAX_PINS
        &&& self.input_slots@.len() == MAX_PINS
        &&& self.last_event_times@.len() == MAX_PINS
        &&& forall|i: int|
            0 <= i < self.encoders@.len() ==> ((#[trigger] self.encoders@[i]).pin1 + 1
                == self.encoders@[i].pin2 && self.encoders@[i].pin2 < MAX_PINS)
        &&& forall|p: int|
            0 <= p < MAX_PINS ==> ((#[trigger] self.input_slots@[p])
                matches InputSlot::AssignedToEncoder { encoder_idx } ==> encoder_idx
                < self.encoders@.len())
    }

    /// A well-formed engine has a well-formed view.
    pub proof fn lemma_wf_view(&self)
        requires
            self.wf(),
        ensures
            self@.wf(),
    {
    }
}

impl View for GpioEventDetect {
    type V = EngineView;

    closed spec fn view(&self) -> EngineView {
        EngineView {
            slots: Seq::new(MAX_PINS as nat, |p: int| self.slot_view(p)),
            states: self.pin_states@,
            times: self.last_event_times@,
        }
    }
}

impl GpioEventDetect {
    /// Builds an engine for a topology, assigning pin slots front to back:
    /// two contiguous slots per encoder, one per button or switch.
    pub fn new(inputs: &[GpioInput]) -> (r: GpioEventDetect)
        requires
            spec_pins_required(inputs@) <= MAX_PINS,
        ensures
            r.wf(),
            r@ == spec_new_view(inputs@),
    {
        let mut pin_states: Vec<u8> = Vec::new();
        let mut input_slots: Vec<InputSlot> = Vec::new();
        let mut last_event_times: Vec<u64> = Vec::new();
        let mut p: usize = 0;
        while p < MAX_PINS
            invariant
                p <= MAX_PINS,
                pin_states@ =~= Seq::new(p as nat, |q: int| PINSTATE_UNUSED),
                input_slots@.len() == p,
                forall|q: int| 0 <= q < p ==> input_slots@[q] is Unused,
                last_event_times@ =~= Seq::new(p as nat, |q: int| 0u64),
            decreases MAX_PINS - p,
        {
            pin_states.push(PINSTATE_UNUSED);
            input_slots.push(InputSlot::Unused);
            last_event_times.push(0u64);
            p += 1;
        }

        let mut event_detect = GpioEventDetect {
            pin_states,
            input_slots,
            encoders: Vec::new(),
            last_event_times,
        };

        proof {
            assert(event_detect@.slots =~= fresh_view().slots);
            assert(event_detect@.states =~= fresh_view().states);
            assert(event_detect@.times =~= fresh_view().times);
            assert(event_detect@ =~= fresh_view());
            assert(inputs@.take(0) =~= Seq::<GpioInput>::empty());
            assert(inputs@.skip(0) =~= inputs@);
        }

        let mut idx: usize = 0;
        let mut i: usize = 0;
        while i < inputs.len()
            invariant
                event_detect.wf(),
                i <= inputs@.len(),
                idx as int == spec_pins_required(inputs@.take(i as int)),
                spec_pins_required(inputs@) <= MAX_PINS,
                spec_register_seq(event_detect@, inputs@.skip(i as int), idx as int)
                    == spec_new_view(inputs@),
            decreases inputs@.len() - i,
        {
            proof {
                lemma_pins_required_step(inputs@, i as int);
                lemma_pins_required_mono(inputs@, i as int + 1);
                assert(inputs@.skip(i as int)[0] == inputs@[i as int]);
                assert(inputs@.skip(i as int).drop_first() =~= inputs@.skip(i as int + 1));
            }
            let input = &inputs[i];
            match input {
                GpioInput::Encoder(encoder) => {
                    idx = event_detect.register_encoder(idx, encoder);
                },
                GpioInput::Button(button) => {
                    idx = event_detect.register_button(idx, button);
                },
                GpioInput::Switch(switch) => {
                    idx = event_detect.register_switch(idx, switch);
                },
            }
            i += 1;
        }
        proof {
            assert(inputs@.skip(inputs@.len() as int) =~= Seq::<GpioInput>::empty());
        }
        event_detect
    }

    /// Assigns slots `pin` and `pin + 1` to one shared record for this
    /// encoder and hands back the next free slot.
    pub fn register_encoder(&mut self, pin: usize, encoder: &EncoderInput) -> (next: usize)
        requires
            old(self).wf(),
            pin + 1 < MAX_PINS,
        ensures
            final(self).wf(),
            next == pin + 2,
            final(self)@ == spec_register(old(self)@, GpioInput::Encoder(*encoder), pin as int),
    {
        let encoder_idx = self.encoders.len();
        self.encoders.push(EncoderWithPins { encoder: encoder.clone(), pin1: pin, pin2: pin + 1 });
        let slot = InputSlot::AssignedToEncoder { encoder_idx };
        self.input_slots[pin] = InputSlot::AssignedToEncoder { encoder_idx };
        self.input_slots[pin + 1] = slot;
        proof {
            let target = spec_register(old(self)@, GpioInput::Encoder(*encoder), pin as int);
            assert(self@.slots =~= target.slots);
            assert(self@ =~= target);
        }
        pin + 2
    }

    /// Assigns slot `pin` to a button and hands back the next free slot.
    pub fn register_button(&mut self, pin: usize, button: &ButtonInput) -> (next: usize)
        requires
            old(self).wf(),
            pin < MAX_PINS,
        ensures
            final(self).wf(),
            next == pin + 1,
            final(self)@ == spec_register(old(self)@, GpioInput::Button(*button), pin as int),
    {
        self.input_slots[pin] = InputSlot::AssignedToButton { button: button.clone() };
        proof {
            let target = spec_register(old(self)@, GpioInput::Button(*button), pin as int);
            assert(self@.slots =~= target.slots);
            assert(self@ =~= target);
        }
        pin + 1
    }

    /// Assigns slot `pin` to a switch and hands back the next free slot.
    pub fn register_switch(&mut self, pin: usize, switch: &SwitchInput) -> (next: usize)
        requires
            old(self).wf(),
            pin < MAX_PINS,
        ensures
            final(self).wf(),
            next == pin + 1,
            final(self)@ == spec_register(old(self)@, GpioInput::Switch(*switch), pin as int),
    {
        self.input_slots[pin] = InputSlot::AssignedToSwitch { switch: switch.clone() };
        proof {
            let target = spec_register(old(self)@, GpioInput::Switch(*switch), pin as int);
            assert(self@.slots =~= target.slots);
            assert(self@ =~= target);
        }
        pin + 1
    }

    /// Feeds one raw edge on `pin` at `time` (milliseconds) through the
    /// engine and steps it exactly as [`spec_on_event`] says.
    pub fn on_event(&mut self, pin: usize, edge: Edge, time: u64) -> (r: Option<GpioEvent>)
        requires
            old(self).wf(),
            pin < MAX_PINS,
        ensures
            final(self).wf(),
            final(self)@ == spec_on_event(old(self)@, pin as int, edge, time).0,
            r == spec_on_event(old(self)@, pin as int, edge, time).1,
    {
        let ghost v_old = self@;
        match &self.input_slots[pin] {
            InputSlot::AssignedToEncoder { encoder_idx } => {
                let encoder = &self.encoders[*encoder_idx];
                let r = on_encoder_event(pin, edge, encoder, &mut self.pin_states);
                proof {
                    assert(self@.slots =~= spec_on_event(v_old, pin as int, edge, time).0.slots);
                    assert(self@ =~= spec_on_event(v_old, pin as int, edge, time).0);
                }
                match r {
                    Some(ee) => Some(GpioEvent::Encoder(ee)),
                    None => None,
                }
            },
            InputSlot::AssignedToButton { button } => {
                let r = on_button_event(
                    pin,
                    edge,
                    time,
                    button,
                    &mut self.pin_states,
                    &mut self.last_event_times,
                );
                proof {
                    assert(self@.slots =~= spec_on_event(v_old, pin as int, edge, time).0.slots);
                    assert(self@ =~= spec_on_event(v_old, pin as int, edge, time).0);
                }
                match r {
                    Some(be) => Some(GpioEvent::Button(be)),
                    None => None,
                }
            },
            InputSlot::AssignedToSwitch { .. } => {
                let r = on_switch_event(pin, &mut self.pin_states);
                proof {
                    assert(self@.slots =~= spec_on_event(v_old, pin as int, edge, time).0.slots);
                    assert(self@ =~= spec_on_event(v_old, pin as int, edge, time).0);
                }
                r
            },
            InputSlot::Unused => None,
        }
    }

    /// Resolves a pending switch event against the level sampled at fire
    /// time, stepping the engine exactly as [`spec_on_pending_event`] says.
    pub fn on_pending_event(&mut self, pending_event: &PendingEvent, line_value: bool) -> (r:
        Option<ResolvedPendingEvent>)
        requires
            old(self).wf(),
            pending_event.pin() < MAX_PINS,
        ensures
            final(self).wf(),
            final(self)@ == spec_on_pending_event(
                old(self)@,
                pending_event.pin() as int,
                line_value,
            ).0,
            r == spec_on_pending_event(old(self)@, pending_event.pin() as int, line_value).1,
    {
        let ghost v_old = self@;
        let pin = pending_event.pin();
        let pin_state = self.pin_states[pin];

        let switch = match &self.input_slots[pin] {
            InputSlot::AssignedToSwitch { switch } => switch,
            _ => {
                proof {
                    assert(self@ =~= spec_on_pending_event(v_old, pin as int, line_value).0);
                }
                return None;
            },
        };

        let (cmd, next_line_value): (Option<String>, u8) = if (pin_state
            == PINSTATE_SWITCH_PENDING_WAS_LOW || pin_state == PINSTATE_SWITCH_PENDING_WAS_UNUSED)
            && line_value {
            (Some(switch.command_high.clone()), PINSTATE_SWITCH_HIGH)
        } else if pin_state == PINSTATE_SWITCH_PENDING_WAS_HIGH && line_value {
            (None, PINSTATE_SWITCH_HIGH)
        } else if (pin_state == PINSTATE_SWITCH_PENDING_WAS_HIGH || pin_state
            == PINSTATE_SWITCH_PENDING_WAS_UNUSED) && !line_value {
            (Some(switch.command_low.clone()), PINSTATE_SWITCH_LOW)
        } else if pin_state == PINSTATE_SWITCH_PENDING_WAS_LOW && !line_value {
            (None, PINSTATE_SWITCH_LOW)
        } else {
            (None, pin_state)
        };

        self.pin_states[pin] = next_line_value;

        proof {
            assert(self@.states =~= spec_on_pending_event(v_old, pin as int, line_value).0.states);
            assert(self@ =~= spec_on_pending_event(v_old, pin as int, line_value).0);
        }

        match cmd {
            Some(command) => Some(ResolvedPendingEvent { command }),
            None => None,
        }
    }
}

/// Registration assigns pin slots only: building an engine for any
/// topology leaves every pin-state byte at the unused sentinel and every
/// last-event time at zero, which is what the quadrature laws ask of a
/// fresh encoder.
pub proof fn lemma_new_view_idle(inputs: Seq<GpioInput>)
    ensures
        spec_new_view(inputs).states == fresh_view().states,
        spec_new_view(inputs).times == fresh_view().times,
{
    lemma_register_seq_keeps_states(fresh_view(), inputs, 0);
}

/// Registering any run of inputs changes no pin state and no time.
proof fn lemma_register_seq_keeps_states(v: EngineView, inputs: Seq<GpioInput>, pin: int)
    ensures
        spec_register_seq(v, inputs, pin).states == v.states,
        spec_register_seq(v, inputs, pin).times == v.times,
    decreases inputs.len(),
{
    if inputs.len() != 0 {
        lemma_register_seq_keeps_states(
            spec_register(v, inputs[0], pin),
            inputs.drop_first(),
            pin + slot_width(inputs[0]),
        );
    }
}

/// Law: quadrature, clockwise. On an encoder whose two histories are still
/// at the unused sentinel, the edge sequence falling on the first pin,
/// falling on the second, rising on the first, rising on the second yields
/// exactly one clockwise (right) command, emitted only on the final edge.
pub proof fn lemma_encoder_clockwise(
    v: EngineView,
    e: EncoderInput,
    p1: int,
    p2: int,
    t1: u64,
    t2: u64,
    t3: u64,
    t4: u64,
)
    requires
        v.wf(),
        0 <= p1,
        p2 == p1 + 1,
        p2 < MAX_PINS,
        v.slots[p1] == (SlotView::Encoder { encoder: e, pin1: p1, pin2: p2 }),
        v.slots[p2] == (SlotView::Encoder { encoder: e, pin1: p1, pin2: p2 }),
        v.states[p1] == PINSTATE_UNUSED,
        v.states[p2] == PINSTATE_UNUSED,
    ensures
        ({
            let (v1, r1) = spec_on_event(v, p1, Edge::Falling, t1);
            let (v2, r2) = spec_on_event(v1, p2, Edge::Falling, t2);
            let (v3, r3) = spec_on_event(v2, p1, Edge::Rising, t3);
            let (v4, r4) = spec_on_event(v3, p2, Edge::Rising, t4);
            &&& r1 is None
            &&& r2 is None
            &&& r3 is None
            &&& r4 == Some(
                GpioEvent::Encoder(
                    EncoderEvent {
                        event_type: EncoderEventType::Right,
                        encoder_name: e.command.encoder_name,
                        command: e.command.cmd_right,
                    },
                ),
            )
        }),
{
    lemma_encoder_bit_facts();
}

/// Law: quadrature, counter-clockwise. The mirrored edge sequence (falling
/// on the second pin first) yields exactly one counter-clockwise (left)
/// command, emitted only on the final edge.
pub proof fn lemma_encoder_counter_clockwise(
    v: EngineView,
    e: EncoderInput,
    p1: int,
    p2: int,
    t1: u64,
    t2: u64,
    t3: u64,
    t4: u64,
)
    requires
        v.wf(),
        0 <= p1,
        p2 == p1 + 1,
        p2 < MAX_PINS,
        v.slots[p1] == (SlotView::Encoder { encoder: e, pin1: p1, pin2: p2 }),
        v.slots[p2] == (SlotView::Encoder { encoder: e, pin1: p1, pin2: p2 }),
        v.states[p1] == PINSTATE_UNUSED,
        v.states[p2] == PINSTATE_UNUSED,
    ensures
        ({
            let (v1, r1) = spec_on_event(v, p2, Edge::Falling, t1);
            let (v2, r2) = spec_on_event(v1, p1, Edge::Falling, t2);
            let (v3, r3) = spec_on_event(v2, p2, Edge::Rising, t3);
            let (v4, r4) = spec_on_event(v3, p1, Edge::Rising, t4);
            &&& r1 is None
            &&& r2 is None
            &&& r3 is None
            &&& r4 == Some(
                GpioEvent::Encoder(
                    EncoderEvent {
                        event_type: EncoderEventType::Left,
                        encoder_name: e.command.encoder_name,
                        command: e.command.cmd_left,
                    },
                ),
            )
        }),
{
    lemma_encoder_bit_facts();
}

/// The concrete byte arithmetic both quadrature laws walk through.
proof fn lemma_encoder_bit_facts()
    ensures
        PINSTATE_UNUSED & 1 == 1,
        enc_shift_in(0xff, 0) == 0xfe,
        enc_shift_in(0xff, 1) == 0xff,
        0xfe & 1u8 == 0,
        0xfc & 1u8 == 0,
        enc_shift_in(0xfe, 0) == 0xfc,
        enc_shift_in(0xfc, 1) == 0xf9,
        enc_shift_in(0xfe, 1) == 0xfd,
        enc_shift_in(0xf9, 1) == 0xf3,
        0xf9 & 1u8 == 1,
        enc_pattern(0xfe, 0xff) == 0xef,
        enc_pattern(0xff, 0xfe) == 0xfe,
        enc_pattern(0xfc, 0xfe) == 0xce,
        enc_pattern(0xfe, 0xfc) == 0xec,
        enc_pattern(0xf9, 0xfc) == 0x9c,
        enc_pattern(0xfc, 0xf9) == 0xc9,
        enc_pattern(0xf3, 0xf9) == 0x39,
        enc_pattern(0xf9, 0xf3) == 0x93,
{
    assert(((0xffu8 << 1) | 0) == 0xfe && ((0xffu8 << 1) | 1) == 0xff && ((0xfeu8 << 1) | 0)
        == 0xfc && ((0xfcu8 << 1) | 1) == 0xf9 && ((0xfeu8 << 1) | 1) == 0xfd && ((0xf9u8 << 1)
        | 1) == 0xf3) by (bit_vector);
    assert(0xffu8 & 1 == 1 && 0xfeu8 & 1 == 0 && 0xfcu8 & 1 == 0 && 0xf9u8 & 1 == 1)
        by (bit_vector);
    assert((((0xfeu8 & 0xf) << 4) | (0xffu8 & 0xf)) == 0xef && (((0xffu8 & 0xf) << 4) | (0xfeu8
        & 0xf)) == 0xfe && (((0xfcu8 & 0xf) << 4) | (0xfeu8 & 0xf)) == 0xce && (((0xfeu8 & 0xf)
        << 4) | (0xfcu8 & 0xf)) == 0xec) by (bit_vector);
    assert((((0xf9u8 & 0xf) << 4) | (0xfcu8 & 0xf)) == 0x9c && (((0xfcu8 & 0xf) << 4) | (0xf9u8
        & 0xf)) == 0xc9 && (((0xf3u8 & 0xf) << 4) | (0xf9u8 & 0xf)) == 0x39 && (((0xf9u8 & 0xf)
        << 4) | (0xf3u8 & 0xf)) == 0x93) by (bit_vector);
}

/// Law: button debounce. From a released button with no accepted press
/// recorded, a rising edge at `t1` is accepted; a second rising edge after a
/// release is accepted again exactly when it comes at least the debounce
/// window after `t1`.
pub proof fn lemma_button_debounce(
    v: EngineView,
    b: ButtonInput,
    pin: int,
    t1: u64,
    tf: u64,
    t2: u64,
)
    requires
        v.wf(),
        0 <= pin < MAX_PINS,
        v.slots[pin] == (SlotView::Button { button: b }),
        v.states[pin] & 1 == 0,
        v.times[pin] == 0,
        t1 > 0,
    ensures
        ({
            let (v1, r1) = spec_on_event(v, pin, Edge::Rising, t1);
            let (v2, r2) = spec_on_event(v1, pin, Edge::Rising, t1);
            let (v3, r3) = spec_on_event(v2, pin, Edge::Falling, tf);
            let (v4, r4) = spec_on_event(v3, pin, Edge::Rising, t2);
            &&& r1 == Some(GpioEvent::Button(ButtonEvent { command: b.command }))
            &&& r2 is None
            &&& r3 is None
            &&& (r4 is Some <==> t2 >= t1 + DEBOUNCE_MS)
            &&& (t2 >= t1 + DEBOUNCE_MS ==> r4 == Some(
                GpioEvent::Button(ButtonEvent { command: b.command }),
            ))
        }),
{
    assert(1u8 & 1 == 1 && 0u8 & 1 == 0) by (bit_vector);
}

/// Law: switch lifecycle, detection half. Any edge on an idle switch line
/// (settled high, settled low, or never touched) yields a pending marker for
/// that pin with the debounce window, and no command; any further edge while
/// the line is pending is coalesced and yields nothing.
pub proof fn lemma_switch_first_edge(
    v: EngineView,
    sw: SwitchInput,
    pin: int,
    e1: Edge,
    e2: Edge,
    t1: u64,
    t2: u64,
)
    requires
        v.wf(),
        0 <= pin < MAX_PINS,
        v.slots[pin] == (SlotView::Switch { switch: sw }),
        v.states[pin] == PINSTATE_UNUSED || v.states[pin] == PINSTATE_SWITCH_HIGH || v.states[pin]
            == PINSTATE_SWITCH_LOW,
    ensures
        ({
            let (v1, r1) = spec_on_event(v, pin, e1, t1);
            let (v2, r2) = spec_on_event(v1, pin, e2, t2);
            &&& r1 == Some(
                GpioEvent::Pending {
                    debounce: DEBOUNCE_MS,
                    event: PendingEvent::SwitchPending(SwitchPendingEvent { pin: pin as usize }),
                },
            )
            &&& r2 is None
            &&& v2 == v1
        }),
{
}

/// Law: switch lifecycle, resolution half. Resolving a pending switch
/// against the level sampled at fire time commits that level; it emits the
/// matching command exactly when the level differs from the prior settled
/// value (or there was none), and nothing when the transition was a glitch
/// the debounce window absorbed.
pub proof fn lemma_switch_resolve(v: EngineView, sw: SwitchInput, pin: int, lvl: bool)
    requires
        v.wf(),
        0 <= pin < MAX_PINS,
        v.slots[pin] == (SlotView::Switch { switch: sw }),
        v.states[pin] == PINSTATE_SWITCH_PENDING_WAS_LOW || v.states[pin]
            == PINSTATE_SWITCH_PENDING_WAS_HIGH || v.states[pin]
            == PINSTATE_SWITCH_PENDING_WAS_UNUSED,
    ensures
        ({
            let (v1, r) = spec_on_pending_event(v, pin, lvl);
            let prior = v.states[pin];
            &&& v1.states[pin] == (if lvl {
                PINSTATE_SWITCH_HIGH
            } else {
                PINSTATE_SWITCH_LOW
            })
            &&& (lvl && prior != PINSTATE_SWITCH_PENDING_WAS_HIGH ==> r == Some(
                ResolvedPendingEvent { command: sw.command_high },
            ))
            &&& (!lvl && prior != PINSTATE_SWITCH_PENDING_WAS_LOW ==> r == Some(
                ResolvedPendingEvent { command: sw.command_low },
            ))
            &&& (lvl && prior == PINSTATE_SWITCH_PENDING_WAS_HIGH ==> r is None)
            &&& (!lvl && prior == PINSTATE_SWITCH_PENDING_WAS_LOW ==> r is None)
        }),
{
}

/// Law: switch lifecycle, idempotent resolution. Resolving a switch pin
/// that has no pending record (its state is settled) emits nothing and
/// leaves the engine as it was.
pub proof fn lemma_switch_resolve_settled(v: EngineView, sw: SwitchInput, pin: int, lvl: bool)
    requires
        v.wf(),
        0 <= pin < MAX_PINS,
        v.slots[pin] == (SlotView::Switch { switch: sw }),
        v.states[pin] == PINSTATE_SWITCH_HIGH || v.states[pin] == PINSTATE_SWITCH_LOW,
    ensures
        spec_on_pending_event(v, pin, lvl).1 is None,
        spec_on_pending_event(v, pin, lvl).0 == v,
{
    assert(spec_on_pending_event(v, pin, lvl).0.states =~= v.states);
    assert(spec_on_pending_event(v, pin, lvl).0 =~= v);
}

/// Law: switch lifecycle, alternation. From a settled switch, a full
/// detect-resolve cycle toward the opposite level emits that level's
/// command, and a second cycle back emits the other one.
pub proof fn lemma_switch_alternation(
    v: EngineView,
    sw: SwitchInput,
    pin: int,
    lvl: bool,
    e1: Edge,
    e2: Edge,
    t1: u64,
    t2: u64,
)
    requires
        v.wf(),
        0 <= pin < MAX_PINS,
        v.slots[pin] == (SlotView::Switch { switch: sw }),
        v.states[pin] == (if lvl {
            PINSTATE_SWITCH_LOW
        } else {
            PINSTATE_SWITCH_HIGH
        }),
    ensures
        ({
            let (v1, r1) = spec_on_event(v, pin, e1, t1);
            let (v2, r2) = spec_on_pending_event(v1, pin, lvl);
            let (v3, r3) = spec_on_event(v2, pin, e2, t2);
            let (v4, r4) = spec_on_pending_event(v3, pin, !lvl);
            &&& r2 == Some(
                ResolvedPendingEvent {
                    command: if lvl {
                        sw.command_high
                    } else {
                        sw.command_low
                    },
                },
            )
            &&& r4 == Some(
                ResolvedPendingEvent {
                    command: if lvl {
                        sw.command_low
                    } else {
                        sw.command_high
                    },
                },
            )
        }),
{
}

/// Claiming a longer prefix claims exactly the next input's width more.
proof fn lemma_pins_required_step(inputs: Seq<GpioInput>, i: int)
    requires
        0 <= i < inputs.len(),
    ensures
        spec_pins_required(inputs.take(i + 1)) == spec_pins_required(inputs.take(i)) + slot_width(
            inputs[i],
        ),
{
    assert(inputs.take(i + 1).drop_last() =~= inputs.take(i));
    assert(inputs.take(i + 1).last() == inputs[i]);
}

/// A prefix of a topology never claims more pins than the whole.
proof fn lemma_pins_required_mono(inputs: Seq<GpioInput>, i: int)
    requires
        0 <= i <= inputs.len(),
    ensures
        spec_pins_required(inputs.take(i)) <= spec_pins_required(inputs),
    decreases inputs.len() - i,
{
    if i == inputs.len() {
        assert(inputs.take(i) =~= inputs);
    } else {
        lemma_pins_required_step(inputs, i);
        lemma_pins_required_mono(inputs, i + 1);
    }
}

/// The encoder transition on the raw state table.
fn on_encoder_event(
    pin: usize,
    edge: Edge,
    encoder: &EncoderWithPins,
    pin_states: &mut Vec<u8>,
) -> (r: Option<EncoderEvent>)
    requires
        old(pin_states)@.len() == MAX_PINS,
        pin < MAX_PINS,
        encoder.pin1 + 1 == encoder.pin2,
        encoder.pin2 < MAX_PINS,
    ensures
        final(pin_states)@.len() == MAX_PINS,
        (final(pin_states)@, r) == spec_on_encoder_event(
            old(pin_states)@,
            pin as int,
            edge,
            encoder.encoder,
            encoder.pin1 as int,
            encoder.pin2 as int,
        ),
{
    let value = edge.value();

    let other_pin = get_other_pin(pin, encoder);
    let pinstate = pin_states[pin];
    let other_pinstate = pin_states[other_pin];

    if (pinstate & 1) != value {
        pin_states[pin] = (pinstate << 1) | value;
        pin_states[other_pin] = (other_pinstate << 1) | (other_pinstate & 1);
        get_encoder_event_for_pin(encoder, pin_states)
    } else {
        None
    }
}

/// Reads the completed pattern of an encoder's two pins and emits the event
/// it stands for, if any.
fn get_encoder_event_for_pin(enc: &EncoderWithPins, pin_states: &Vec<u8>) -> (r: Option<
    EncoderEvent,
>)
    requires
        pin_states@.len() == MAX_PINS,
        enc.pin1 < MAX_PINS,
        enc.pin2 < MAX_PINS,
    ensures
        r == spec_encoder_event(
            enc.encoder,
            pin_states@[enc.pin1 as int],
            pin_states@[enc.pin2 as int],
        ),
{
    let pin_state_1 = pin_states[enc.pin1];
    let pin_state_2 = pin_states[enc.pin2];

    let pattern = ((pin_state_1 & 0xf) << 4) | (pin_state_2 & 0xf);
    if pattern == ENC_PATTERN_RIGHT {
        Some(EncoderEvent {
            event_type: EncoderEventType::Right,
            encoder_name: enc.encoder.command.encoder_name.clone(),
            command: enc.encoder.command.cmd_right.clone(),
        })
    } else if pattern == ENC_PATTERN_LEFT {
        Some(EncoderEvent {
            event_type: EncoderEventType::Left,
            encoder_name: enc.encoder.command.encoder_name.clone(),
            command: enc.encoder.command.cmd_left.clone(),
        })
    } else {
        None
    }
}

/// The paired pin of an encoder's two slots.
fn get_other_pin(pin: usize, encoder: &EncoderWithPins) -> (other: usize)
    ensures
        other == (if pin == encoder.pin1 {
            encoder.pin2
        } else {
            encoder.pin1
        }),
{
    if pin == encoder.pin1 {
        encoder.pin2
    } else {
        encoder.pin1
    }
}

/// The button transition on the raw state and time tables.
fn on_button_event(
    pin: usize,
    edge: Edge,
    event_time: u64,
    button: &ButtonInput,
    pin_states: &mut Vec<u8>,
    last_event_times: &mut Vec<u64>,
) -> (r: Option<ButtonEvent>)
    requires
        old(pin_states)@.len() == MAX_PINS,
        old(last_event_times)@.len() == MAX_PINS,
        pin < MAX_PINS,
    ensures
        final(pin_states)@.len() == MAX_PINS,
        final(last_event_times)@.len() == MAX_PINS,
        (final(pin_states)@, final(last_event_times)@, r) == spec_on_button_event(
            old(pin_states)@,
            old(last_event_times)@,
            pin as int,
            edge,
            event_time,
            *button,
        ),
{
    let value = edge.value();
    let prev_value = pin_states[pin] & 1;

    pin_states[pin] = value;

    let last_ev_time = last_event_times[pin];

    if prev_value == 0 && value == 1 && (last_ev_time == 0 || (event_time >= last_ev_time
        && event_time - last_ev_time >= DEBOUNCE_MS)) {
        last_event_times[pin] = event_time;

        Some(ButtonEvent { command: button.command.clone() })
    } else {
        None
    }
}

/// The switch transition on the raw state table.
fn on_switch_event(pin: usize, pin_states: &mut Vec<u8>) -> (r: Option<GpioEvent>)
    requires
        old(pin_states)@.len() == MAX_PINS,
        pin < MAX_PINS,
    ensures
        final(pin_states)@.len() == MAX_PINS,
        (final(pin_states)@, r) == spec_on_switch_event(old(pin_states)@, pin as int),
{
    let state = pin_states[pin];
    if state == PINSTATE_UNUSED {
        pin_states[pin] = PINSTATE_SWITCH_PENDING_WAS_UNUSED;
    } else if state == PINSTATE_SWITCH_HIGH {
        pin_states[pin] = PINSTATE_SWITCH_PENDING_WAS_HIGH;
    } else if state == PINSTATE_SWITCH_LOW {
        pin_states[pin] = PINSTATE_SWITCH_PENDING_WAS_LOW;
    } else {
        return None;
    }
    Some(
        GpioEvent::Pending {
            debounce: DEBOUNCE_MS,
            event: PendingEvent::SwitchPending(SwitchPendingEvent { pin }),
        },
    )
}

} // verus!
