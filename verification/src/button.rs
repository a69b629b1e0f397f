//! Registry of GPIO input pins, keyed by their hardware GPIO number, and the
//! active-low interpretation of a pin reading.

use std::collections::BTreeMap;
use vstd::prelude::*;

verus! {

broadcast use {vstd::std_specs::btree::group_btree_axioms, vstd::laws_cmp::group_laws_cmp};

/// Input pins registered for shared access, keyed by hardware GPIO number
/// (e.g. 15 for a button). The pin type is left to the caller, so that any
/// pin driver can be held.
pub struct PinRegistry<P> {
    pins: BTreeMap<u8, P>,
}

impl<P> View for PinRegistry<P> {
    type V = Map<u8, P>;

    /// The registered pins, by GPIO number.
    closed spec fn view(&self) -> Map<u8, P> {
        self.pins@
    }
}

impl<P> PinRegistry<P> {
    /// Creates a registry with no pin registered.
    pub fn new() -> (registry: Self)
        ensures
            registry@ == Map::<u8, P>::empty(),
    {
        PinRegistry { pins: BTreeMap::new() }
    }

    /// Whether a pin is registered under `gpio_num`.
    pub fn is_registered(&self, gpio_num: u8) -> (registered: bool)
        ensures
            registered == self@.contains_key(gpio_num),
    {
        self.pins.contains_key(&gpio_num)
    }

    /// Removes the pin registered under `gpio_num` and hands it out, so that
    /// the caller can read it and register it again with [`store_pin`].
    /// Returns `None` when no pin is registered under that number.
    pub fn take_pin(&mut self, gpio_num: u8) -> (pin: Option<P>)
        ensures
            final(self)@ == old(self)@.remove(gpio_num),
            match pin {
                Some(p) => old(self)@.contains_key(gpio_num) && p == old(self)@[gpio_num],
                None => !old(self)@.contains_key(gpio_num),
            },
    {
        self.pins.remove(&gpio_num)
    }
}

/// Registers `pin` under its hardware GPIO number `gpio_num`.
///
/// May be called several times to register different pins; registering a
/// second pin under the same number replaces the first.
pub fn store_pin<P>(registry: &mut PinRegistry<P>, gpio_num: u8, pin: P)
    ensures
        final(registry)@ == old(registry)@.insert(gpio_num, pin),
{
    registry.pins.insert(gpio_num, pin);
}

/// Reads the pin registered under `gpio_num` and tells whether its button is
/// pressed: the pin is handed to `read`, which reads it (`is_low`) and hands
/// it back with the reading; the pin handed back is registered again under
/// the same number. Returns `None`, and changes nothing, when no pin is
/// registered under `gpio_num`.
pub fn read_pin<P, E, F>(registry: &mut PinRegistry<P>, gpio_num: u8, read: F) -> (pressed:
    Option<bool>) where F: FnOnce(P) -> (P, Result<bool, E>)
    requires
        old(registry)@.contains_key(gpio_num) ==> call_requires(read, (old(registry)@[gpio_num],)),
    ensures
        final(registry)@.dom() == old(registry)@.dom(),
        !old(registry)@.contains_key(gpio_num) ==> pressed is None && final(registry)@ == old(
            registry,
        )@,
        old(registry)@.contains_key(gpio_num) ==> exists|pin: P, low_reading: Result<bool, E>|
            #[trigger] call_ensures(read, (old(registry)@[gpio_num],), (pin, low_reading))
                && final(registry)@ == old(registry)@.insert(gpio_num, pin) && pressed == Some(
                low_reading matches Ok(low) && low,
            ),
{
    let ghost before = registry@;
    match registry.take_pin(gpio_num) {
        None => {
            assert(registry@ =~= before);
            None
        },
        Some(pin) => {
            let (pin, low_reading) = read(pin);
            store_pin(registry, gpio_num, pin);
            assert(registry@.dom() =~= before.dom());
            Some(is_pressed(low_reading))
        },
    }
}

/// Whether a button is pressed, given what the pin's `is_low` reading gave.
///
/// The button is wired with a pull-up resistor, so pressing it grounds the
/// pin: a pin that reads low is a pressed button. A reading that failed
/// counts as not pressed.
pub fn is_pressed<E>(low_reading: Result<bool, E>) -> (pressed: bool)
    ensures
        pressed == (low_reading matches Ok(low) && low),
{
    match low_reading {
        Ok(low) => low,
        Err(_) => false,
    }
}

/// Read after write: once `pin` is stored under `gpio_num`, that number is
/// registered and maps to `pin`, and every other number keeps what it had.
pub proof fn law_store_then_lookup<P>(registry: PinRegistry<P>, gpio_num: u8, pin: P, other: u8)
    ensures
        registry@.insert(gpio_num, pin).contains_key(gpio_num),
        registry@.insert(gpio_num, pin)[gpio_num] == pin,
        other != gpio_num ==> (registry@.insert(gpio_num, pin).contains_key(other)
            <==> registry@.contains_key(other)),
        other != gpio_num && registry@.contains_key(other) ==> registry@.insert(gpio_num, pin)[other]
            == registry@[other],
{
}

/// Storing twice under one number keeps only the last pin: the registry is
/// then the same as if only the last pin had been stored.
pub proof fn law_store_replaces<P>(registry: PinRegistry<P>, gpio_num: u8, first: P, second: P)
    ensures
        registry@.insert(gpio_num, first).insert(gpio_num, second) == registry@.insert(
            gpio_num,
            second,
        ),
{
    assert(registry@.insert(gpio_num, first).insert(gpio_num, second) =~= registry@.insert(
        gpio_num,
        second,
    ));
}

/// Reading a pin leaves the registry as it was: taking a registered pin out
/// and storing it back under the same number restores the registry, and
/// taking from a number with nothing registered changes nothing.
pub proof fn law_take_then_store_restores<P>(registry: PinRegistry<P>, gpio_num: u8)
    ensures
        registry@.contains_key(gpio_num) ==> registry@.remove(gpio_num).insert(
            gpio_num,
            registry@[gpio_num],
        ) == registry@,
        !registry@.contains_key(gpio_num) ==> registry@.remove(gpio_num) == registry@,
{
    if registry@.contains_key(gpio_num) {
        assert(registry@.remove(gpio_num).insert(gpio_num, registry@[gpio_num]) =~= registry@);
    } else {
        assert(registry@.remove(gpio_num) =~= registry@);
    }
}

/// An operation on a pin registry, for stating what a sequence of them does.
pub enum PinOp<P> {
    /// `store_pin` of the pin under the number.
    Store(u8, P),
    /// `take_pin` of the number.
    Take(u8),
    /// `read_pin` of the number, with a reader that hands back the pin it was
    /// given.
    Read(u8),
}

/// The registry after one operation.
pub open spec fn apply_op<P>(pins: Map<u8, P>, op: PinOp<P>) -> Map<u8, P> {
    match op {
        PinOp::Store(gpio_num, pin) => pins.insert(gpio_num, pin),
        PinOp::Take(gpio_num) => pins.remove(gpio_num),
        PinOp::Read(gpio_num) => if pins.contains_key(gpio_num) {
            pins.insert(gpio_num, pins[gpio_num])
        } else {
            pins
        },
    }
}

/// The registry after the operations, in order.
pub open spec fn apply_ops<P>(pins: Map<u8, P>, ops: Seq<PinOp<P>>) -> Map<u8, P>
    decreases ops.len(),
{
    if ops.len() == 0 {
        pins
    } else {
        apply_ops(apply_op(pins, ops[0]), ops.drop_first())
    }
}

/// Whether `op` may replace or remove the pin under `gpio_num`.
pub open spec fn touches<P>(op: PinOp<P>, gpio_num: u8) -> bool {
    match op {
        PinOp::Store(n, _) => n == gpio_num,
        PinOp::Take(n) => n == gpio_num,
        PinOp::Read(_) => false,
    }
}

/// Reading a pin with a reader that hands the same pin back leaves the
/// registry as it was (so `read_pin` then changes nothing).
pub proof fn law_read_keeps_registry<P>(registry: PinRegistry<P>, gpio_num: u8)
    ensures
        apply_op(registry@, PinOp::Read(gpio_num)) == registry@,
        registry@.contains_key(gpio_num) ==> registry@.insert(gpio_num, registry@[gpio_num])
            == registry@,
{
    if registry@.contains_key(gpio_num) {
        assert(registry@.insert(gpio_num, registry@[gpio_num]) =~= registry@);
    }
}

/// Read after write, across any calls in between: once `pin` is stored under
/// `gpio_num`, whatever other pins are stored, taken or read afterwards, and
/// however often this pin is read, the number stays registered with `pin`;
/// a read of it then hands `pin` to the reader and does not fail.
pub proof fn law_read_after_write<P>(
    registry: PinRegistry<P>,
    gpio_num: u8,
    pin: P,
    ops: Seq<PinOp<P>>,
)
    requires
        forall|i: int| 0 <= i < ops.len() ==> !touches(#[trigger] ops[i], gpio_num),
    ensures
        apply_ops(registry@.insert(gpio_num, pin), ops).contains_key(gpio_num),
        apply_ops(registry@.insert(gpio_num, pin), ops)[gpio_num] == pin,
{
    lemma_untouched_kept(registry@.insert(gpio_num, pin), gpio_num, ops);
}

proof fn lemma_untouched_kept<P>(pins: Map<u8, P>, gpio_num: u8, ops: Seq<PinOp<P>>)
    requires
        pins.contains_key(gpio_num),
        forall|i: int| 0 <= i < ops.len() ==> !touches(#[trigger] ops[i], gpio_num),
    ensures
        apply_ops(pins, ops).contains_key(gpio_num),
        apply_ops(pins, ops)[gpio_num] == pins[gpio_num],
    decreases ops.len(),
{
    if ops.len() > 0 {
        let next = apply_op(pins, ops[0]);
        assert(!touches(ops[0], gpio_num));
        assert(next.contains_key(gpio_num) && next[gpio_num] == pins[gpio_num]);
        let rest = ops.drop_first();
        assert forall|i: int| 0 <= i < rest.len() implies !touches(#[trigger] rest[i], gpio_num) by {
            assert(rest[i] == ops[i + 1]);
        }
        lemma_untouched_kept(next, gpio_num, rest);
    }
}

} // verus!
