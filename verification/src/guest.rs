//! The guest component's polling logic, as a state machine.
//!
//! The guest reads the button on GPIO15 and mirrors it to the LED on GPIO25,
//! then waits 10 ms, forever. Each of these is a call to the host. This module
//! decides, from where the guest stands in its cycle and what the host
//! answered to the previous call, which host call comes next; whoever runs
//! the guest makes that call and hands the answer back.
use vstd::prelude::*;

verus! {

/// Hardware GPIO number of the button input.
pub const BUTTON_PIN: u32 = 15;

/// Hardware GPIO number of the onboard LED.
pub const LED_PIN: u32 = 25;

/// Time between two button polls, in milliseconds.
pub const POLL_DELAY_MS: u32 = 10;

/// A call from the guest to the host.
#[derive(Clone, Copy, Debug, PartialEq, Eq, Structural)]
pub enum HostCall {
    /// `button.is-pressed` on the given pin.
    IsPressed(u32),
    /// `gpio.set-high` on the given pin.
    SetHigh(u32),
    /// `gpio.set-low` on the given pin.
    SetLow(u32),
    /// `timing.delay-ms` for the given number of milliseconds.
    DelayMs(u32),
}

/// What the host answered to the previous call.
#[derive(Clone, Copy, Debug, PartialEq, Eq, Structural)]
pub enum HostReply {
    /// The previous call returned nothing (or there was none yet).
    Ready,
    /// The previous call was a button read, which gave this answer.
    Pressed(bool),
}

/// Where the guest stands in its polling cycle.
#[derive(Clone, Copy, Debug, PartialEq, Eq, Structural)]
pub enum PollState {
    /// About to read the button; the cycle starts here.
    Poll,
    /// The button has been read; the LED is driven next.
    Decide,
    /// The LED has been driven; the guest waits next.
    Pause,
}

/// The next state and the call to make, from a state and the host's answer
/// to the previous call.
pub open spec fn poll_transition(state: PollState, reply: HostReply) -> (PollState, HostCall) {
    match state {
        PollState::Poll => (PollState::Decide, HostCall::IsPressed(BUTTON_PIN)),
        PollState::Decide => (
            PollState::Pause,
            if reply == HostReply::Pressed(true) {
                HostCall::SetHigh(LED_PIN)
            } else {
                HostCall::SetLow(LED_PIN)
            },
        ),
        PollState::Pause => (PollState::Poll, HostCall::DelayMs(POLL_DELAY_MS)),
    }
}

/// One step of the guest: from where it stands and what the host answered
/// to the previous call, the next state and the host call to make now.
///
/// A cycle reads the button, sets the LED high when the button is pressed
/// and low when it is not, then waits. In the `Decide` state the answer must
/// be the button reading that the previous call asked for.
pub fn poll_step(state: PollState, reply: HostReply) -> (next: (PollState, HostCall))
    requires
        state is Decide ==> reply is Pressed,
    ensures
        next == poll_transition(state, reply),
{
    match state {
        PollState::Poll => (PollState::Decide, HostCall::IsPressed(BUTTON_PIN)),
        PollState::Decide => {
            let pressed = match reply {
                HostReply::Pressed(p) => p,
                HostReply::Ready => false,
            };
            if pressed {
                (PollState::Pause, HostCall::SetHigh(LED_PIN))
            } else {
                (PollState::Pause, HostCall::SetLow(LED_PIN))
            }
        },
        PollState::Pause => (PollState::Poll, HostCall::DelayMs(POLL_DELAY_MS)),
    }
}

/// How a host that reads the button as `pressed` answers `call`.
pub open spec fn host_reply(call: HostCall, pressed: bool) -> HostReply {
    match call {
        HostCall::IsPressed(_) => HostReply::Pressed(pressed),
        _ => HostReply::Ready,
    }
}

/// The calls made by `n` steps of the guest from `state`, the previous call
/// having been answered with `reply`, when the host's button reads give the
/// values of `presses` in order.
pub open spec fn run_calls(state: PollState, reply: HostReply, presses: Seq<bool>, n: nat) -> Seq<
    HostCall,
>
    decreases n,
{
    if n == 0 {
        Seq::empty()
    } else {
        let (next, call) = poll_transition(state, reply);
        if call is IsPressed {
            seq![call] + run_calls(
                next,
                host_reply(call, presses[0]),
                presses.drop_first(),
                (n - 1) as nat,
            )
        } else {
            seq![call] + run_calls(next, host_reply(call, false), presses, (n - 1) as nat)
        }
    }
}

/// The three calls of one polling cycle in which the button reads `pressed`.
pub open spec fn cycle_calls(pressed: bool) -> Seq<HostCall> {
    seq![
        HostCall::IsPressed(BUTTON_PIN),
        if pressed {
            HostCall::SetHigh(LED_PIN)
        } else {
            HostCall::SetLow(LED_PIN)
        },
        HostCall::DelayMs(POLL_DELAY_MS),
    ]
}

/// The polling cycles, one after another, for button reads `presses`.
pub open spec fn cycles_calls(presses: Seq<bool>) -> Seq<HostCall>
    decreases presses.len(),
{
    if presses.len() == 0 {
        Seq::empty()
    } else {
        cycle_calls(presses[0]) + cycles_calls(presses.drop_first())
    }
}

proof fn lemma_cycles_calls_len(presses: Seq<bool>)
    ensures
        cycles_calls(presses).len() == 3 * presses.len(),
    decreases presses.len(),
{
    if presses.len() > 0 {
        lemma_cycles_calls_len(presses.drop_first());
    }
}

proof fn lemma_cycles_calls_index(presses: Seq<bool>, k: int)
    requires
        0 <= k < presses.len(),
    ensures
        cycles_calls(presses).len() == 3 * presses.len(),
        cycles_calls(presses)[3 * k] == cycle_calls(presses[k])[0],
        cycles_calls(presses)[3 * k + 1] == cycle_calls(presses[k])[1],
        cycles_calls(presses)[3 * k + 2] == cycle_calls(presses[k])[2],
    decreases presses.len(),
{
    lemma_cycles_calls_len(presses);
    if k > 0 {
        let rest = presses.drop_first();
        lemma_cycles_calls_index(rest, k - 1);
        assert(rest[k - 1] == presses[k]);
    }
}

/// Polling pattern: started at the top of its cycle, the guest makes, for
/// each button read, the three calls of a cycle (read the button on
/// `BUTTON_PIN`; set `LED_PIN` high when pressed, low when not; wait
/// `POLL_DELAY_MS`), in this order and with nothing else between. Stopped
/// after any number `n` of calls, what it made is the first `n` of them.
pub proof fn law_polling_pattern(presses: Seq<bool>, n: nat)
    requires
        n <= 3 * presses.len(),
    ensures
        run_calls(PollState::Poll, HostReply::Ready, presses, n) == cycles_calls(presses).take(
            n as int,
        ),
    decreases presses.len(),
{
    lemma_cycles_calls_len(presses);
    let trace = run_calls(PollState::Poll, HostReply::Ready, presses, n);
    let expected = cycles_calls(presses);
    if n == 0 {
        assert(trace =~= expected.take(0));
    } else {
        let rest = presses.drop_first();
        let reply = HostReply::Pressed(presses[0]);
        let led = if presses[0] {
            HostCall::SetHigh(LED_PIN)
        } else {
            HostCall::SetLow(LED_PIN)
        };
        lemma_cycles_calls_len(rest);
        assert(expected =~= cycle_calls(presses[0]) + cycles_calls(rest));
        if n == 1 {
            assert(run_calls(PollState::Decide, reply, rest, 0) =~= Seq::<HostCall>::empty());
            assert(trace =~= expected.take(1));
        } else if n == 2 {
            assert(run_calls(PollState::Pause, HostReply::Ready, rest, 0) =~= Seq::<
                HostCall,
            >::empty());
            assert(run_calls(PollState::Decide, reply, rest, 1) =~= seq![led]);
            assert(trace =~= expected.take(2));
        } else {
            let m = (n - 3) as nat;
            law_polling_pattern(rest, m);
            let tail = run_calls(PollState::Poll, HostReply::Ready, rest, m);
            assert(tail == cycles_calls(rest).take(m as int));
            assert(run_calls(PollState::Pause, HostReply::Ready, rest, (m + 1) as nat) =~= seq![
                HostCall::DelayMs(POLL_DELAY_MS),
            ] + tail);
            assert(run_calls(PollState::Decide, reply, rest, (m + 2) as nat) =~= seq![led] + seq![
                HostCall::DelayMs(POLL_DELAY_MS),
            ] + tail);
            assert(trace =~= cycle_calls(presses[0]) + tail);
            assert(trace =~= expected.take(n as int));
        }
    }
}

/// Call by call: in a run of whole cycles, call `3k` reads the button on
/// `BUTTON_PIN`; call `3k + 1` sets `LED_PIN` high when read `k` found the
/// button pressed and low when it did not; call `3k + 2` waits
/// `POLL_DELAY_MS`. In particular the first call is a button read.
pub proof fn law_cycle_by_cycle(presses: Seq<bool>, k: int)
    requires
        0 <= k < presses.len(),
    ensures
        ({
            let trace = run_calls(
                PollState::Poll,
                HostReply::Ready,
                presses,
                (3 * presses.len()) as nat,
            );
            &&& trace.len() == 3 * presses.len()
            &&& trace[3 * k] == HostCall::IsPressed(BUTTON_PIN)
            &&& trace[3 * k + 1] == (if presses[k] {
                HostCall::SetHigh(LED_PIN)
            } else {
                HostCall::SetLow(LED_PIN)
            })
            &&& trace[3 * k + 2] == HostCall::DelayMs(POLL_DELAY_MS)
        }),
{
    law_polling_pattern(presses, (3 * presses.len()) as nat);
    lemma_cycles_calls_index(presses, k);
    assert(cycles_calls(presses).take((3 * presses.len()) as int) =~= cycles_calls(presses));
}

/// Fixed targets: however long the guest runs and whatever the button
/// reads, every button read is on `BUTTON_PIN`, every LED call is on
/// `LED_PIN`, and every wait lasts `POLL_DELAY_MS`.
pub proof fn law_fixed_targets(presses: Seq<bool>, n: nat, i: int)
    requires
        n <= 3 * presses.len(),
        0 <= i < n,
    ensures
        ({
            let call = run_calls(PollState::Poll, HostReply::Ready, presses, n)[i];
            &&& call matches HostCall::IsPressed(pin) ==> pin == BUTTON_PIN
            &&& call matches HostCall::SetHigh(pin) ==> pin == LED_PIN
            &&& call matches HostCall::SetLow(pin) ==> pin == LED_PIN
            &&& call matches HostCall::DelayMs(ms) ==> ms == POLL_DELAY_MS
        }),
{
    law_polling_pattern(presses, n);
    let k = i / 3;
    lemma_cycles_calls_index(presses, k);
    assert(i == 3 * k || i == 3 * k + 1 || i == 3 * k + 2);
}

} // verus!
