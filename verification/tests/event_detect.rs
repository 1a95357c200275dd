//! Tests of the event-detection engine: quadrature decoding, button
//! debouncing, and the deferred switch lifecycle.

use xplane_bridge::event_detect::{GpioEventDetect, DEBOUNCE_MS};
use xplane_bridge::gpio_types::{
    ButtonInput, Edge, EncoderCommands, EncoderEventType, EncoderInput, GpioEvent, GpioInput,
    PendingEvent, SwitchInput,
};

fn test_inputs() -> Vec<GpioInput> {
    vec![
        GpioInput::Encoder(EncoderInput {
            gpio1: 14,
            gpio2: 15,
            command: EncoderCommands {
                encoder_name: String::from("test"),
                cmd_right: String::from("right"),
                cmd_left: String::from("left"),
            },
        }),
        GpioInput::Button(ButtonInput {
            gpio: 16,
            command: String::from("tapped"),
        }),
        GpioInput::Switch(SwitchInput {
            gpio: 17,
            command_high: String::from("sw1_high"),
            command_low: String::from("sw1_low"),
        }),
        GpioInput::Switch(SwitchInput {
            gpio: 18,
            command_high: String::from("sw2_high"),
            command_low: String::from("sw2_low"),
        }),
    ]
}

fn t(ms: u64) -> u64 {
    ms
}

#[test]
fn enc_left() {
    let mut input_map = GpioEventDetect::new(&test_inputs());

    assert!(input_map.on_event(1, Edge::Falling, t(0)).is_none());
    assert!(input_map.on_event(0, Edge::Falling, t(0)).is_none());
    assert!(input_map.on_event(1, Edge::Rising, t(0)).is_none());
    let ev = input_map.on_event(0, Edge::Rising, t(0));

    match ev {
        Some(GpioEvent::Encoder(ee)) => {
            assert_eq!(ee.command, "left");
            assert!(matches!(ee.event_type, EncoderEventType::Left));
        }
        _ => panic!("Got unexpected event {:?}", ev),
    }
}

#[test]
fn enc_right() {
    let mut input_map = GpioEventDetect::new(&test_inputs());

    assert!(input_map.on_event(0, Edge::Falling, t(0)).is_none());
    assert!(input_map.on_event(1, Edge::Falling, t(0)).is_none());
    assert!(input_map.on_event(0, Edge::Rising, t(0)).is_none());
    let ev = input_map.on_event(1, Edge::Rising, t(0));

    match ev {
        Some(GpioEvent::Encoder(ee)) => {
            assert_eq!(ee.command, "right");
            assert!(matches!(ee.event_type, EncoderEventType::Right));
        }
        _ => panic!("Got unexpected event {:?}", ev),
    }
}

#[test]
fn enc_debounce() {
    let mut input_map = GpioEventDetect::new(&test_inputs());

    assert!(input_map.on_event(0, Edge::Falling, t(0)).is_none());
    assert!(input_map.on_event(1, Edge::Falling, t(0)).is_none());
    assert!(input_map.on_event(1, Edge::Falling, t(0)).is_none());
    assert!(input_map.on_event(0, Edge::Rising, t(0)).is_none());
    let ev = input_map.on_event(1, Edge::Rising, t(0));

    match ev {
        Some(GpioEvent::Encoder(ee)) => {
            assert_eq!(ee.command, "right");
            assert!(matches!(ee.event_type, EncoderEventType::Right));
        }
        _ => panic!("Got unexpected event {:?}", ev),
    }

    assert!(input_map.on_event(1, Edge::Rising, t(0)).is_none());
}

#[test]
fn button_press() {
    let mut input_map = GpioEventDetect::new(&test_inputs());

    assert!(input_map.on_event(2, Edge::Falling, t(0)).is_none());
    let ev = input_map.on_event(2, Edge::Rising, t(0));
    match ev {
        Some(GpioEvent::Button(be)) => {
            assert_eq!(be.command, "tapped")
        }
        _ => panic!("Got unexpected event {:?}", ev),
    }
}

#[test]
fn button_press_debounce() {
    let mut input_map = GpioEventDetect::new(&test_inputs());

    assert!(input_map.on_event(2, Edge::Falling, t(0)).is_none());
    let ev = input_map.on_event(2, Edge::Rising, t(51));
    match ev {
        Some(GpioEvent::Button(be)) => {
            assert_eq!(be.command, "tapped");
        }
        _ => panic!("Got unexpected event {:?}", ev),
    }

    assert!(input_map.on_event(2, Edge::Rising, t(52)).is_none());
    assert!(input_map.on_event(2, Edge::Falling, t(90)).is_none());
    assert!(input_map.on_event(2, Edge::Rising, t(99)).is_none());

    assert!(input_map.on_event(2, Edge::Falling, t(101)).is_none());
    let ev = input_map.on_event(2, Edge::Rising, t(102));
    match ev {
        Some(GpioEvent::Button(be)) => {
            assert_eq!(be.command, "tapped");
        }
        _ => panic!("Got unexpected event {:?}", ev),
    }
}

#[test]
fn switch_toggle_simple() {
    let mut input_map = GpioEventDetect::new(&test_inputs());

    let ev = success_swinput(3, &mut input_map);
    let resolved_pending = input_map.on_pending_event(&ev, true).unwrap();
    assert_eq!(resolved_pending.command, "sw1_high");
}

#[test]
fn switch_toggle_back_forth() {
    let mut input_map = GpioEventDetect::new(&test_inputs());

    let ev = success_swinput(3, &mut input_map);
    let resolved_pending = input_map.on_pending_event(&ev, true).unwrap();
    assert_eq!(resolved_pending.command, "sw1_high");

    let ev2 = success_swinput(3, &mut input_map);
    let resolved_pending2 = input_map.on_pending_event(&ev2, false).unwrap();
    assert_eq!(resolved_pending2.command, "sw1_low");
}

#[test]
fn switch_toggle_back_forth_reverse() {
    let mut input_map = GpioEventDetect::new(&test_inputs());

    let ev = success_swinput(3, &mut input_map);
    let resolved_pending = input_map.on_pending_event(&ev, false).unwrap();
    assert_eq!(resolved_pending.command, "sw1_low");

    let ev2 = success_swinput(3, &mut input_map);
    let resolved_pending2 = input_map.on_pending_event(&ev2, true).unwrap();
    assert_eq!(resolved_pending2.command, "sw1_high");
}

#[test]
fn switch_toggle_back_forth_deduplicate() {
    let mut input_map = GpioEventDetect::new(&test_inputs());

    let ev = success_swinput(3, &mut input_map);
    let resolved_pending = input_map.on_pending_event(&ev, true).unwrap();
    assert_eq!(resolved_pending.command, "sw1_high");

    let ev = success_swinput(3, &mut input_map);
    assert!(input_map.on_pending_event(&ev, true).is_none());

    let ev2 = success_swinput(3, &mut input_map);
    let resolved_pending2 = input_map.on_pending_event(&ev2, false).unwrap();
    assert_eq!(resolved_pending2.command, "sw1_low");
}

fn success_swinput(pin: usize, input_map: &mut GpioEventDetect) -> PendingEvent {
    let pending = input_map.on_event(pin, Edge::Falling, t(0));
    let ev = match pending {
        Some(GpioEvent::Pending { debounce, event }) => {
            assert_eq!(debounce, DEBOUNCE_MS);
            assert_eq!(event.pin(), pin);
            event
        }
        _ => panic!("Got unexpected event {:?}", pending),
    };
    // We'll do some extra events, they shouldn't trigger anything.
    assert!(input_map.on_event(pin, Edge::Falling, t(0)).is_none());
    assert!(input_map.on_event(pin, Edge::Rising, t(0)).is_none());

    ev
}

// The engine once lived in a standalone module that handled encoders alone;
// these exercise the same quadrature behaviour through a topology of one
// encoder.

fn encoder_only_inputs() -> Vec<GpioInput> {
    vec![GpioInput::Encoder(EncoderInput {
        gpio1: 14,
        gpio2: 15,
        command: EncoderCommands {
            encoder_name: String::from("test"),
            cmd_right: String::from("right"),
            cmd_left: String::from("left"),
        },
    })]
}

#[test]
fn gpio_event_detect_enc_left() {
    let mut input_map = GpioEventDetect::new(&encoder_only_inputs());

    assert!(input_map.on_event(1, Edge::Falling, t(0)).is_none());
    assert!(input_map.on_event(0, Edge::Falling, t(0)).is_none());
    assert!(input_map.on_event(1, Edge::Rising, t(0)).is_none());
    let ev = input_map.on_event(0, Edge::Rising, t(0));

    match ev {
        Some(GpioEvent::Encoder(ee)) => {
            assert_eq!(ee.command, "left");
            assert!(matches!(ee.event_type, EncoderEventType::Left));
        }
        _ => panic!("Got unexpected event {:?}", ev),
    }
}

#[test]
fn gpio_event_detect_enc_right() {
    let mut input_map = GpioEventDetect::new(&encoder_only_inputs());

    assert!(input_map.on_event(0, Edge::Falling, t(0)).is_none());
    assert!(input_map.on_event(1, Edge::Falling, t(0)).is_none());
    assert!(input_map.on_event(0, Edge::Rising, t(0)).is_none());
    let ev = input_map.on_event(1, Edge::Rising, t(0));

    match ev {
        Some(GpioEvent::Encoder(ee)) => {
            assert_eq!(ee.command, "right");
            assert!(matches!(ee.event_type, EncoderEventType::Right));
        }
        _ => panic!("Got unexpected event {:?}", ev),
    }
}

#[test]
fn gpio_event_detect_enc_debounce() {
    let mut input_map = GpioEventDetect::new(&encoder_only_inputs());

    assert!(input_map.on_event(0, Edge::Falling, t(0)).is_none());
    assert!(input_map.on_event(1, Edge::Falling, t(0)).is_none());
    assert!(input_map.on_event(1, Edge::Falling, t(0)).is_none());
    assert!(input_map.on_event(0, Edge::Rising, t(0)).is_none());
    let ev = input_map.on_event(1, Edge::Rising, t(0));

    match ev {
        Some(GpioEvent::Encoder(ee)) => {
            assert_eq!(ee.command, "right");
            assert!(matches!(ee.event_type, EncoderEventType::Right));
        }
        _ => panic!("Got unexpected event {:?}", ev),
    }

    assert!(input_map.on_event(1, Edge::Rising, t(0)).is_none());
}

#[test]
fn sample_inputs_topology() {
    let inputs = xplane_bridge::gpio_types::sample_inputs();
    assert_eq!(inputs.len(), 3);
    match &inputs[0] {
        GpioInput::Encoder(e) => {
            assert_eq!(e.gpio1, 23);
            assert_eq!(e.gpio2, 24);
            assert_eq!(e.command.encoder_name, "Left top");
        }
        other => panic!("Got unexpected input {:?}", other),
    }
    match &inputs[2] {
        GpioInput::Button(b) => {
            assert_eq!(b.gpio, 18);
            assert_eq!(b.command, "button!");
        }
        other => panic!("Got unexpected input {:?}", other),
    }
}
