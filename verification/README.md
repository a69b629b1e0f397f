# embedded_wasm_button

A WebAssembly button component for the RP2350 (Pico 2): the guest polls a
button on GPIO15 every 10 ms and mirrors it to the LED on GPIO25 through the
host's `gpio`, `button` and `timing` WIT interfaces.

* `src/` — the verified library (Verus):
  * `button.rs`: the registry of input pins keyed by GPIO number, the
    read of a registered pin (`read_pin`) and the active-low reading of a
    button, with laws on storing and reading pins, read after write across
    any sequence of other calls among them.
  * `guest.rs`: the guest's polling loop as a state machine (`poll_step`),
    with laws on the sequence of host calls it makes.
* `app/` — the runtime glue: on the host, the registry as interrupt-safe
  global state (`critical-section`) and the pin reads through `embedded-hal`;
  in the wasm32 build only, the guest component (`wit-bindgen`, `dlmalloc`)
  that runs the state machine.
* `tests/` — tests of both modules, with simulated pins and a simulated host.
