# openmicro

Firmware of the OpenMicro macropad: thirteen keys, a rotary encoder, a
joystick, a touch pad, per-key LEDs and an underglow ring, on an STM32F072.

`src/` is the logic, verified with Verus. Every function states what it does to
the pad over plain mathematical models, and the proof functions named `law_*`
state what holds across functions:

| module | what it holds |
|---|---|
| `keymap` | what every input emits, and the tunable settings |
| `report` | keyboard reports and the order in which a change reaches the host |
| `queues` | the bounded queues to the USB endpoints |
| `pad` | the shared input state and its elementary changes |
| `guarantees` | what holds of the pad over any series of inputs |
| `codex` | bindings and macros of the Codex Micro compatibility mode |
| `scan`, `encoder`, `joystick`, `touch` | the inputs |
| `boot`, `version` | device mode and release number at power-up |
| `colour`, `lighting` | what every LED shows |
| `protocol`, `pump` | the host application's commands and the report pump |

`app/` is the firmware around it: pins, USB, timers and tasks. What a board
gives besides those (flash store, bootloader, LED driver, Codex service) stands
behind one trait there.

The queues are `embassy_sync` channels; their contracts in `queues` are taken on
trust. Nothing else is.
