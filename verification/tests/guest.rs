//! Tests of the guest's polling state machine, driven by a simulated host
//! that records every call and answers button reads with a fixed state.

use embedded_wasm_button::guest::{
    poll_step, HostCall, HostReply, PollState, BUTTON_PIN, LED_PIN, POLL_DELAY_MS,
};

/// Runs the guest from the top of its cycle for `steps` host calls, the host
/// answering every button read with `button_pressed`, and returns the calls
/// in the order they were made.
fn run_guest(button_pressed: bool, steps: usize) -> Vec<HostCall> {
    run_guest_with(|_| button_pressed, steps)
}

/// As `run_guest`, with the answer to read number `k` given by `reads(k)`.
fn run_guest_with(reads: impl Fn(usize) -> bool, steps: usize) -> Vec<HostCall> {
    let mut calls = Vec::new();
    let mut state = PollState::Poll;
    let mut reply = HostReply::Ready;
    let mut read_count = 0;
    for _ in 0..steps {
        let (next, call) = poll_step(state, reply);
        calls.push(call);
        reply = match call {
            HostCall::IsPressed(_) => {
                let pressed = reads(read_count);
                read_count += 1;
                HostReply::Pressed(pressed)
            }
            _ => HostReply::Ready,
        };
        state = next;
    }
    calls
}

#[test]
fn test_first_call_is_button_read() {
    let calls = run_guest(false, 300);
    assert!(!calls.is_empty(), "must have at least one call");
    assert_eq!(
        calls[0],
        HostCall::IsPressed(15),
        "first call must be is_pressed(15)"
    );
}

#[test]
fn test_button_pressed_sets_led_high() {
    let calls = run_guest(true, 300);
    let has_high = calls.iter().any(|c| matches!(c, HostCall::SetHigh(25)));
    assert!(has_high, "pressed button must trigger set_high(25)");
}

#[test]
fn test_button_released_sets_led_low() {
    let calls = run_guest(false, 300);
    let has_low = calls.iter().any(|c| matches!(c, HostCall::SetLow(25)));
    assert!(has_low, "released button must trigger set_low(25)");
}

#[test]
fn test_polling_pattern_repeats() {
    let calls = run_guest(true, 1500);
    assert!(calls.len() >= 6, "need at least two full polling cycles");
    for chunk in calls.chunks_exact(3) {
        assert_eq!(chunk[0], HostCall::IsPressed(15));
        assert_eq!(chunk[1], HostCall::SetHigh(25));
        assert_eq!(chunk[2], HostCall::DelayMs(10));
    }
}

#[test]
fn test_delay_value_is_10ms() {
    let calls = run_guest(false, 300);
    for call in &calls {
        if let HostCall::DelayMs(ms) = call {
            assert_eq!(*ms, 10, "delay must always be 10ms");
        }
    }
}

#[test]
fn test_no_unexpected_host_calls() {
    let calls = run_guest(true, 300);
    for call in &calls {
        match call {
            HostCall::SetHigh(_)
            | HostCall::SetLow(_)
            | HostCall::IsPressed(_)
            | HostCall::DelayMs(_) => {}
        }
    }
}

#[test]
fn test_gpio_pin_is_always_25() {
    let calls = run_guest(true, 1500);
    for call in &calls {
        match call {
            HostCall::SetHigh(pin) | HostCall::SetLow(pin) => {
                assert_eq!(*pin, 25, "GPIO pin must always be 25");
            }
            _ => {}
        }
    }
}

#[test]
fn test_button_pin_is_always_15() {
    let calls = run_guest(false, 1500);
    for call in &calls {
        if let HostCall::IsPressed(pin) = call {
            assert_eq!(*pin, 15, "button pin must always be 15");
        }
    }
}

#[test]
fn pin_and_delay_constants() {
    assert_eq!(BUTTON_PIN, 15);
    assert_eq!(LED_PIN, 25);
    assert_eq!(POLL_DELAY_MS, 10);
}

#[test]
fn led_follows_each_reading() {
    // Pressed, released, released, pressed.
    let pattern = [true, false, false, true];
    let calls = run_guest_with(|k| pattern[k], 12);
    assert_eq!(
        calls,
        vec![
            HostCall::IsPressed(15),
            HostCall::SetHigh(25),
            HostCall::DelayMs(10),
            HostCall::IsPressed(15),
            HostCall::SetLow(25),
            HostCall::DelayMs(10),
            HostCall::IsPressed(15),
            HostCall::SetLow(25),
            HostCall::DelayMs(10),
            HostCall::IsPressed(15),
            HostCall::SetHigh(25),
            HostCall::DelayMs(10),
        ]
    );
}

#[test]
fn stopped_mid_cycle_gives_a_prefix() {
    let calls = run_guest(true, 4);
    assert_eq!(
        calls,
        vec![
            HostCall::IsPressed(15),
            HostCall::SetHigh(25),
            HostCall::DelayMs(10),
            HostCall::IsPressed(15),
        ]
    );
}

#[test]
fn single_steps() {
    assert_eq!(
        poll_step(PollState::Poll, HostReply::Ready),
        (PollState::Decide, HostCall::IsPressed(15))
    );
    assert_eq!(
        poll_step(PollState::Decide, HostReply::Pressed(true)),
        (PollState::Pause, HostCall::SetHigh(25))
    );
    assert_eq!(
        poll_step(PollState::Decide, HostReply::Pressed(false)),
        (PollState::Pause, HostCall::SetLow(25))
    );
    assert_eq!(
        poll_step(PollState::Pause, HostReply::Ready),
        (PollState::Poll, HostCall::DelayMs(10))
    );
}

/// The 16 KB budget of the component. The component binary is built outside
/// this crate, so its size is not measured here. What this test checks is
/// only that the state the guest keeps between host calls (its polling state
/// and the host's last answer) is far inside that budget.
#[test]
fn test_wasm_component_size_under_16kb() {
    let state_size = core::mem::size_of::<(PollState, HostReply)>();
    assert!(
        state_size < 16_384,
        "the guest's state between host calls must fit in 16 KB, got {} bytes \
         (the component binary's own size is not measured here)",
        state_size
    );
}
