# waveshare_scservo

Driver for Waveshare SCServo motors (SCSCL and SMS/STS series) over a
half-duplex UART, with its protocol logic verified in Verus.

- `src/` is the verified library: packet framing and the frame reader
  (`uart`, `frame`, over the recorded link in `link`), register accesses and EEPROM sequences (`access`), sync
  write payloads (`sync`), byte orders (`wire`), the register maps
  (`registers`), and the two buses (`scscl`, `sms_sts`). Every operation
  states its result as a function of what the serial link reported, recorded
  in a ghost history of link events.
- The trust boundary is `src/link.rs`: a `Channel` owns the link and the
  history, and only its `send` and `receive_frame` (a few lines each) talk to
  the link and record what they did; that they record it faithfully is read,
  not proved. Handing the link out for direct use is recorded as an opaque
  event that no operation's contract accepts.
- `app/` adapts `embedded-io` (blocking) and `embedded-io-async` UARTs to the
  library's `SerialLink`, gives errors a `Display`, and holds the unit
  conversions that need floating point.
- `tests/` exercise the library against scripted links.

```rust
use waveshare_scservo::{ScsclBus, ServoMode};

let mut bus = ScsclBus::new(EmbeddedIoLink(uart));
bus.blocking_ping(1)?;
bus.blocking_set_operating_mode(1, ServoMode::Position)?;
bus.blocking_write_position(1, 512)?;
```
