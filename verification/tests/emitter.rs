use blinkie::morse::emitter::UNIT;
use blinkie::morse::{Emitter, EmitterKind, EmitterOp, Signal, Time};

const ALL_OPS: [EmitterOp; 5] = [
    EmitterOp::Dot,
    EmitterOp::Dash,
    EmitterOp::SymbolGap,
    EmitterOp::CharacterGap,
    EmitterOp::WordGap,
];

fn written(text: &str) -> Vec<Signal> {
    text.chars().map(Signal::Write).collect()
}

fn delay_of(signals: &[Signal]) -> u64 {
    signals
        .iter()
        .map(|s| match s {
            Signal::DelayMs(ms) => *ms as u64,
            _ => 0,
        })
        .sum()
}

#[test]
fn timing_follows_one_three_seven() {
    assert_eq!(UNIT, 1000);
    assert_eq!(Time::DOT, 1000);
    assert_eq!(Time::DASH, 3000);
    assert_eq!(Time::INTRA_SYM_GAP, 1000);
    assert_eq!(Time::INTRA_ASCII_GAP, 3000);
    assert_eq!(Time::WORD_GAP, 7000);
    assert_eq!(Time::T1.millis(), 1000);
    assert_eq!(Time::T2.millis(), 3000);
    assert_eq!(Time::T3.millis(), 7000);
}

#[test]
fn kinds_and_operations_have_names() {
    assert_eq!(EmitterKind::LED.to_str(), "EmitterKind::LED");
    assert_eq!(EmitterKind::CONSOLE.to_str(), "EmitterKind::CONSOLE");
    assert_eq!(EmitterOp::Dot.to_str(), "EmitterOp::Dot");
    assert_eq!(EmitterOp::Dash.to_str(), "EmitterOp::Dash");
    assert_eq!(EmitterOp::SymbolGap.to_str(), "EmitterOp::SymbolGap");
    assert_eq!(EmitterOp::CharacterGap.to_str(), "EmitterOp::CharacterGap");
    assert_eq!(EmitterOp::WordGap.to_str(), "EmitterOp::WordGap");
}

#[test]
fn new_emitter_is_on_the_console_with_nothing_sent() {
    let mut emitter = Emitter::new();
    assert_eq!(emitter.kind(), EmitterKind::CONSOLE);
    assert!(emitter.take().is_empty());
}

#[test]
fn console_names_the_operation_then_waits() {
    let mut emitter = Emitter::new();
    emitter.do_op(EmitterOp::Dash);
    let mut expected = written("EmitterOp::Dash\r\n");
    expected.push(Signal::DelayMs(3000));
    assert_eq!(emitter.take(), expected);
}

#[test]
fn indicator_lights_for_marks_only() {
    let mut emitter = Emitter::new();
    emitter.set_emitter(EmitterKind::LED);
    emitter.do_op(EmitterOp::Dot);
    assert_eq!(emitter.take(), vec![Signal::SetHigh, Signal::DelayMs(1000), Signal::SetLow]);
    emitter.do_op(EmitterOp::Dash);
    assert_eq!(emitter.take(), vec![Signal::SetHigh, Signal::DelayMs(3000), Signal::SetLow]);
    emitter.do_op(EmitterOp::SymbolGap);
    assert_eq!(emitter.take(), vec![Signal::DelayMs(1000)]);
    emitter.do_op(EmitterOp::CharacterGap);
    assert_eq!(emitter.take(), vec![Signal::DelayMs(3000)]);
    emitter.do_op(EmitterOp::WordGap);
    assert_eq!(emitter.take(), vec![Signal::DelayMs(7000)]);
}

#[test]
fn shorthands_perform_their_operation() {
    let mut emitter = Emitter::new();
    emitter.set_emitter(EmitterKind::LED);
    emitter.dot();
    emitter.dash();
    emitter.symbol_gap();
    emitter.character_gap();
    emitter.word_gap();
    let got = emitter.take();
    let mut reference = Emitter::new();
    reference.set_emitter(EmitterKind::LED);
    for op in ALL_OPS {
        reference.do_op(op);
    }
    assert_eq!(got, reference.take());
    assert_eq!(delay_of(&got), 1000 + 3000 + 1000 + 3000 + 7000);
}

#[test]
fn both_backends_take_the_same_time() {
    for op in ALL_OPS {
        let mut console = Emitter::new();
        console.do_op(op);
        let mut led = Emitter::new();
        led.set_emitter(EmitterKind::LED);
        led.do_op(op);
        let console_signals = console.take();
        let led_signals = led.take();
        assert_ne!(console_signals, led_signals);
        assert_eq!(delay_of(&console_signals), delay_of(&led_signals));
    }
}

#[test]
fn switching_is_not_retroactive() {
    let mut emitter = Emitter::new();
    emitter.do_op(EmitterOp::Dot);
    emitter.set_emitter(EmitterKind::LED);
    assert_eq!(emitter.kind(), EmitterKind::LED);
    emitter.do_op(EmitterOp::Dot);
    let mut expected = written("EmitterOp::Dot\r\n");
    expected.push(Signal::DelayMs(1000));
    expected.extend([Signal::SetHigh, Signal::DelayMs(1000), Signal::SetLow]);
    assert_eq!(emitter.take(), expected);
}

#[test]
fn write_goes_to_the_console_on_either_backend() {
    let mut emitter = Emitter::new();
    emitter.write("hi");
    emitter.set_emitter(EmitterKind::LED);
    emitter.write("!");
    emitter.write("");
    emitter.write_char('?');
    assert_eq!(emitter.take(), written("hi!?"));
}

#[test]
fn take_empties_the_outbox() {
    let mut emitter = Emitter::new();
    emitter.do_op(EmitterOp::WordGap);
    assert!(!emitter.take().is_empty());
    assert!(emitter.take().is_empty());
    assert_eq!(emitter.kind(), EmitterKind::CONSOLE);
}
