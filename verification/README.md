# ioc_drivers

The logic of three instrument drivers for a control system, written in Verus:
every executable function under `src/` carries a contract that Verus proves, but
for the three named below that it takes on trust.

- `src/twincat` — a Beckhoff PLC over ADS: the wire frames, the client's
  bookkeeping of requests and replies, the sum-up read, the links that records
  use to name PLC variables, the command lines of the octet interface, and the
  driver's state: binding, refreshing, bulk reading, writing, supervision.
- `src/ur` — a robot arm: the real-time data exchange (frames, recipes, state
  packages, sessions), the dashboard's lines, the control handshake and motion
  commands, the gripper's registers, and the five ports that records talk to.
- `src/daq` — a data acquisition box: digitizer, generator and poller.
- `src/bytes`, `src/text`, `src/numeral`, `src/ieee`, `src/seqs`, `src/param` —
  what the three share: byte order, decimal and hexadecimal text, the rounding
  of decimal numbers, and conversions between integers and IEEE-754 bits.

A floating-point number is held as the integer of its bits. What needs real
floating-point arithmetic, a socket, a thread or a clock lives in `app/`, which
asks the library what to do next and hands back what happened.

Facts that relate several functions are public proof functions named `law_*`
beside the functions they speak of. Three functions of the standard
library are taken on trust in `src/text.rs`: `String::push`,
`String::from_utf8_lossy` and the quoting of a string. The results of the last
two have names, `lossy` and `quoted`, that stand for them in contracts.

`tests/` runs the library on concrete values.
