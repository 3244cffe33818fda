# pulse_tui

A terminal monitor for MQTT, Modbus TCP, IEC 60870-5-104, OPC UA and serial
traffic. The library in `src/` holds its logic, verified with Verus; `app/` is
the program around it (terminal, clock-driven tasks, network and serial I/O).

## Layout

- `src/text.rs`: decimal and hexadecimal text, parsing of unsigned numbers.
- `src/floatfmt.rs`: fixed-point text of `f32` / `f64` values given by their bits.
- `src/iec104.rs`: APDU framing, frame kinds, ASDU description, the session
  that numbers and acknowledges frames.
- `src/mode.rs`, `src/config.rs`: screens, connection forms, saved settings.
- `src/state.rs`, `src/feed.rs`, `src/topic_counts.rs`: the monitor state,
  what arriving data does to it, and the per-topic counts it keeps.
- `src/modbus.rs`, `src/mqtt.rs`, `src/opcua.rs`, `src/serial.rs`: source
  settings, commands and the protocol pieces the sources use.
- `src/ui.rs`: what the screens show (format detection, wrapping, JSON and
  search highlighting, the Modbus display column, layout arithmetic).
- `src/control.rs`, `src/*_keys.rs`, `src/dispatch.rs`: the controller, a
  function from state and event to next state and actions.
- `app/`: `main`, drawing with ratatui, the sources (rumqttc, tokio-modbus,
  async-opcua, serialport, TCP), and the settings file (serde, toml).
