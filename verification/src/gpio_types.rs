//! The vocabulary of the hardware input subsystem: configured inputs
//! (encoders, buttons, switches), sampled edges, and the events the
//! detection engine emits.

use vstd::prelude::*;

verus! {

/// Direction of a sampled hardware edge transition.
#[derive(Debug, Clone, Copy)]
pub enum Edge {
    Falling,
    Rising,
}

impl Edge {
    /// The line level this edge transitions to: low for falling, high for rising.
    pub open spec fn spec_value(self) -> u8 {
        match self {
            Edge::Falling => 0,
            Edge::Rising => 1,
        }
    }

    #[verifier::when_used_as_spec(spec_value)]
    pub fn value(self) -> (v: u8)
        ensures
            v == self.spec_value(),
    {
        match self {
            Edge::Falling => 0,
            Edge::Rising => 1,
        }
    }
}

/// Sense of rotation decoded from an encoder's paired edge history.
#[derive(Debug, Clone)]
pub enum EncoderEventType {
    Right,
    Left,
}

/// A completed detent of a rotary encoder, carrying the command configured
/// for its direction.
#[derive(Debug, Clone)]
pub struct EncoderEvent {
    pub event_type: EncoderEventType,
    pub encoder_name: String,
    pub command: String,
}

/// An accepted (debounced) button press.
#[derive(Debug, Clone)]
pub struct ButtonEvent {
    pub command: String,
}

/// A switch transition detected but not yet confirmed; it is resolved by
/// re-sampling the line after the debounce window.
#[derive(Debug, Clone)]
pub struct SwitchPendingEvent {
    pub pin: usize,
}

/// A detected-but-deferred event awaiting its debounce window.
#[derive(Debug, Clone)]
pub enum PendingEvent {
    SwitchPending(SwitchPendingEvent),
}

impl PendingEvent {
    /// The pin the deferred event was detected on.
    pub open spec fn spec_pin(&self) -> usize {
        match self {
            PendingEvent::SwitchPending(e) => e.pin,
        }
    }

    #[verifier::when_used_as_spec(spec_pin)]
    pub fn pin(&self) -> (p: usize)
        ensures
            p == self.spec_pin(),
    {
        match self {
            PendingEvent::SwitchPending(e) => e.pin,
        }
    }
}

/// The command committed when a pending switch event resolves to a level
/// that differs from the switch's prior stable value.
#[derive(Debug, Clone)]
pub struct ResolvedPendingEvent {
    pub command: String,
}

/// What the detection engine hands back for one raw edge: an immediate
/// command-bearing event, or a pending marker to be resolved after
/// `debounce` milliseconds.
#[derive(Debug, Clone)]
pub enum GpioEvent {
    Encoder(EncoderEvent),
    Button(ButtonEvent),
    Pending { debounce: u64, event: PendingEvent },
}

/// The commands a rotary encoder is configured to emit.
#[derive(Debug)]
pub struct EncoderCommands {
    pub encoder_name: String,
    pub cmd_right: String,
    pub cmd_left: String,
}

impl Clone for EncoderCommands {
    fn clone(&self) -> (r: Self)
        ensures
            r == *self,
    {
        EncoderCommands {
            encoder_name: self.encoder_name.clone(),
            cmd_right: self.cmd_right.clone(),
            cmd_left: self.cmd_left.clone(),
        }
    }
}

/// A rotary encoder occupying two hardware lines.
#[derive(Debug)]
pub struct EncoderInput {
    pub gpio1: usize,
    pub gpio2: usize,
    pub command: EncoderCommands,
}

impl Clone for EncoderInput {
    fn clone(&self) -> (r: Self)
        ensures
            r == *self,
    {
        EncoderInput { gpio1: self.gpio1, gpio2: self.gpio2, command: self.command.clone() }
    }
}

/// A push button on a single hardware line.
#[derive(Debug)]
pub struct ButtonInput {
    pub gpio: usize,
    pub command: String,
}

impl Clone for ButtonInput {
    fn clone(&self) -> (r: Self)
        ensures
            r == *self,
    {
        ButtonInput { gpio: self.gpio, command: self.command.clone() }
    }
}

/// A toggle switch on a single hardware line, with one command per settled
/// level.
#[derive(Debug)]
pub struct SwitchInput {
    pub gpio: usize,
    pub command_high: String,
    pub command_low: String,
}

impl Clone for SwitchInput {
    fn clone(&self) -> (r: Self)
        ensures
            r == *self,
    {
        SwitchInput {
            gpio: self.gpio,
            command_high: self.command_high.clone(),
            command_low: self.command_low.clone(),
        }
    }
}

/// One logical input of the configured topology.
#[derive(Debug)]
pub enum GpioInput {
    Encoder(EncoderInput),
    Button(ButtonInput),
    Switch(SwitchInput),
}

impl Clone for GpioInput {
    fn clone(&self) -> (r: Self)
        ensures
            r == *self,
    {
        match self {
            GpioInput::Encoder(e) => GpioInput::Encoder(e.clone()),
            GpioInput::Button(b) => GpioInput::Button(b.clone()),
            GpioInput::Switch(s) => GpioInput::Switch(s.clone()),
        }
    }
}

/// An encoder record together with the two contiguous pin slots assigned to
/// it. Both slots reference one such record, so the pair can never drift
/// apart.
#[derive(Debug, Clone)]
pub struct EncoderWithPins {
    pub encoder: EncoderInput,
    pub pin1: usize,
    pub pin2: usize,
}

/// A small built-in topology, handy for bring-up without a configuration
/// file: two encoders and one button.
pub fn sample_inputs() -> (r: Vec<GpioInput>)
    ensures
        r@.len() == 3,
        r@[0] matches GpioInput::Encoder(e) && e.gpio1 == 23 && e.gpio2 == 24
            && e.command.encoder_name@ == "Left top"@
            && e.command.cmd_right@ == "test_right"@
            && e.command.cmd_left@ == "test_left"@,
        r@[1] matches GpioInput::Encoder(e) && e.gpio1 == 14 && e.gpio2 == 15
            && e.command.encoder_name@ == "Left 2nd top"@
            && e.command.cmd_right@ == "test_right_2nd"@
            && e.command.cmd_left@ == "test_left_2nd"@,
        r@[2] matches GpioInput::Button(b) && b.gpio == 18 && b.command@ == "button!"@,
{
    let mut r: Vec<GpioInput> = Vec::new();
    r.push(GpioInput::Encoder(EncoderInput {
        gpio1: 23,
        gpio2: 24,
        command: EncoderCommands {
            encoder_name: "Left top".to_owned(),
            cmd_right: "test_right".to_owned(),
            cmd_left: "test_left".to_owned(),
        },
    }));
    r.push(GpioInput::Encoder(EncoderInput {
        gpio1: 14,
        gpio2: 15,
        command: EncoderCommands {
            encoder_name: "Left 2nd top".to_owned(),
            cmd_right: "test_right_2nd".to_owned(),
            cmd_left: "test_left_2nd".to_owned(),
        },
    }));
    r.push(GpioInput::Button(ButtonInput {
        gpio: 18,
        command: "button!".to_owned(),
    }));
    r
}

} // verus!
