//! Protocol adapter tests: topic dispatch, payload parsing, the command
//! stream into the queue, and the outbound state echo.

use nuled::color::RGB;
use nuled::config::{must_parse_led_count, must_parse_u16};
use nuled::effect::{Effect, LedEffectCommand};
use nuled::fixed::SCALE;
use nuled::protocol::{process_message, EchoMessage, ProtocolError, ServerState};
use nuled::queue::CommandQueue;

fn setup() -> (ServerState, CommandQueue) {
    (ServerState::default(), CommandQueue::new(16))
}

fn payload_of<'a>(echo: &'a [EchoMessage], topic: &str) -> &'a [u8] {
    for m in echo {
        if m.topic == topic.as_bytes() {
            return &m.payload;
        }
    }
    panic!("no echo message on topic {topic}");
}

#[test]
fn color_then_effect_enqueues_three_commands_and_echoes() {
    let (mut state, mut queue) = setup();

    let echo = process_message(&mut state, &mut queue, b"led/pallet/color1/set", b"255,0,0")
        .expect("a valid color payload is accepted");
    assert_eq!(payload_of(&echo, "led/pallet/color1"), b"255,0,0");
    assert_eq!(queue.len(), 1);

    let echo = process_message(&mut state, &mut queue, b"led/pallet/effect/set", b"solid")
        .expect("a valid effect payload is accepted");
    assert_eq!(payload_of(&echo, "led/pallet/effect"), b"solid");
    assert_eq!(payload_of(&echo, "led/pallet/color1"), b"255,0,0");

    // exactly one ChangeEffect(Solid) and two ConfigureParams in arrival order
    assert_eq!(queue.len(), 3);
    let red = RGB {
        r: 255 * SCALE,
        g: 0,
        b: 0,
    };
    match queue.dequeue().unwrap() {
        LedEffectCommand::ConfigureParams(p) => assert_eq!(p.color1, red),
        other => panic!("expected the first color update's parameters, got {other:?}"),
    }
    match queue.dequeue().unwrap() {
        LedEffectCommand::ChangeEffect(e) => assert_eq!(e, Effect::Solid),
        other => panic!("expected the effect change, got {other:?}"),
    }
    match queue.dequeue().unwrap() {
        LedEffectCommand::ConfigureParams(p) => assert_eq!(p.color1, red),
        other => panic!("expected the effect change's parameters, got {other:?}"),
    }
    assert!(queue.dequeue().is_none());
}

#[test]
fn unrecognized_topic_changes_nothing() {
    let (mut state, mut queue) = setup();
    let before = state;
    let r = process_message(&mut state, &mut queue, b"led/pallet/other/set", b"1");
    assert_eq!(r.unwrap_err(), ProtocolError::InvalidTopic);
    assert_eq!(state, before);
    assert_eq!(queue.len(), 0);
}

#[test]
fn malformed_payload_changes_nothing() {
    let (mut state, mut queue) = setup();
    let before = state;
    for (topic, payload) in [
        ("led/pallet/color1/set", "255,0".as_bytes()),
        ("led/pallet/color1/set", b"red"),
        ("led/pallet/color1/set", b"1,2,3,4"),
        ("led/pallet/chroma/set", b""),
        ("led/pallet/chroma/set", b"."),
        ("led/pallet/speed/set", b"fast"),
        ("led/pallet/effect/set", b"strobe"),
        ("led/pallet/effect/set", b"Solid"),
    ] {
        let r = process_message(&mut state, &mut queue, topic.as_bytes(), payload);
        assert_eq!(r.unwrap_err(), ProtocolError::ParseParameter, "payload {payload:?}");
        assert_eq!(state, before);
        assert_eq!(queue.len(), 0);
    }
}

#[test]
fn numeric_payload_forms() {
    let (mut state, mut queue) = setup();
    let cases: [(&[u8], i64); 8] = [
        (b"0.5", 5_000_000),
        (b"0", 0),
        (b"1", SCALE),
        (b".25", 2_500_000),
        (b"0.", 0),
        (b"+0.75", 7_500_000),
        (b"0.12345678901", 1_234_567), // fraction digits beyond the scale are ignored
        (b"2.5", SCALE),               // above the knob's range: nearest bound
    ];
    for (payload, expected) in cases {
        process_message(&mut state, &mut queue, b"led/pallet/chroma/set", payload)
            .unwrap_or_else(|_| panic!("payload {payload:?} must parse"));
        assert_eq!(state.led_effect_params.chroma, expected, "payload {payload:?}");
    }
    // a negative value is brought to the lower bound
    process_message(&mut state, &mut queue, b"led/pallet/luminance/set", b"-0.5").unwrap();
    assert_eq!(state.led_effect_params.luminance, 0);
}

#[test]
fn rgb_payload_forms() {
    let (mut state, mut queue) = setup();
    process_message(&mut state, &mut queue, b"led/pallet/color2/set", b"1.5,2,3").unwrap();
    assert_eq!(
        state.led_effect_params.color2,
        RGB {
            r: 15_000_000,
            g: 2 * SCALE,
            b: 3 * SCALE
        }
    );
    // out-of-range channels are brought to the nearest bound
    process_message(&mut state, &mut queue, b"led/pallet/color2/set", b"300,-5,12.25").unwrap();
    assert_eq!(
        state.led_effect_params.color2,
        RGB {
            r: 255 * SCALE,
            g: 0,
            b: 122_500_000
        }
    );
}

#[test]
fn echo_serialization_round_trips() {
    let (mut state, mut queue) = setup();
    process_message(&mut state, &mut queue, b"led/pallet/size/set", b"0.1234567").unwrap();
    let echo =
        process_message(&mut state, &mut queue, b"led/pallet/speed/set", b"0.25").unwrap();
    assert_eq!(payload_of(&echo, "led/pallet/size"), b"0.1234567");
    assert_eq!(payload_of(&echo, "led/pallet/speed"), b"0.25");
    assert_eq!(payload_of(&echo, "led/pallet/effect"), b"rainbow");
    assert_eq!(payload_of(&echo, "led/pallet/color1"), b"0,0,0");
    assert_eq!(payload_of(&echo, "led/pallet/chroma"), b"0.6");
    assert_eq!(payload_of(&echo, "led/pallet/luminance"), b"0.6");
    assert_eq!(echo.len(), 7);
}

#[test]
fn all_effect_names_parse() {
    let (mut state, mut queue) = setup();
    for (name, kind) in [
        ("solid", Effect::Solid),
        ("rainbow", Effect::Rainbow),
        ("gradient", Effect::Gradient),
        ("polyrhythm", Effect::Polyrhythm),
    ] {
        process_message(&mut state, &mut queue, b"led/pallet/effect/set", name.as_bytes())
            .unwrap();
        assert_eq!(state.effect, kind);
    }
}

#[test]
fn full_queue_drops_new_commands_silently() {
    let mut state = ServerState::default();
    let mut queue = CommandQueue::new(2);
    process_message(&mut state, &mut queue, b"led/pallet/chroma/set", b"0.1").unwrap();
    process_message(&mut state, &mut queue, b"led/pallet/chroma/set", b"0.2").unwrap();
    // the queue is full now: the update still succeeds and echoes, but
    // its command is dropped
    let echo = process_message(&mut state, &mut queue, b"led/pallet/chroma/set", b"0.3").unwrap();
    assert_eq!(payload_of(&echo, "led/pallet/chroma"), b"0.3");
    assert_eq!(queue.len(), 2);
    match queue.dequeue().unwrap() {
        LedEffectCommand::ConfigureParams(p) => assert_eq!(p.chroma, 1_000_000),
        other => panic!("wrong first command {other:?}"),
    }
}

#[test]
fn queue_keeps_arrival_order() {
    let mut queue = CommandQueue::new(4);
    assert!(queue.enqueue(LedEffectCommand::ChangeEffect(Effect::Solid)));
    assert!(queue.enqueue(LedEffectCommand::ChangeEffect(Effect::Rainbow)));
    assert!(queue.enqueue(LedEffectCommand::ChangeEffect(Effect::Gradient)));
    assert_eq!(
        queue.dequeue(),
        Some(LedEffectCommand::ChangeEffect(Effect::Solid))
    );
    assert_eq!(
        queue.dequeue(),
        Some(LedEffectCommand::ChangeEffect(Effect::Rainbow))
    );
    assert_eq!(
        queue.dequeue(),
        Some(LedEffectCommand::ChangeEffect(Effect::Gradient))
    );
    assert_eq!(queue.dequeue(), None);
}

#[test]
fn startup_settings_parse() {
    assert_eq!(must_parse_u16(b"1883"), 1883);
    assert_eq!(must_parse_u16(b"65535"), 65535);
    assert_eq!(must_parse_led_count(b"60"), 60);
    assert_eq!(must_parse_led_count(b"1"), 1);
}
