# barclock

A 1920x480 touch bar dashboard for Home Assistant, with its rules proved in Verus.

## Layout

- `src/` is the library, every item of it verified:
  - `ha_ws` the Home Assistant link: frames, the merge of the entity stream, the session on one
    connection, the pace of reconnecting
  - `mqtt_light` the panel as an MQTT light: topics, commands, discovery, the link to the broker
  - `iotawatt` direct polling of an IoTaWatt energy monitor: HTTP framing, endpoints, fallback
  - `ui`, `screen`, `preview` the controller of the screen, its panes, and sample windows
  - `config`, `cli`, `clock`, `display`, `types` configuration and its rules, the command line,
    clock texts, panel power and backlight, what the parts tell each other
  - `json`, `map`, `text`, `number`, `time` what the rest is written with
  - `laws`, `screen_laws` what holds of the whole, whatever comes in
- `tests/` runs the library on concrete values.
- `app/` is the program: sockets, files, the window and the timers. It hands events to the library
  and carries out what the library returns.

## Numbers

The library holds no floating point. A measured number comes in as a `Quantity`: its bits, which
give its order, and the roundings that the screen shows. `app/figures.rs` makes them.

## What is believed without proof

Calls into `serde_json`, `chrono`, `chrono-tz`, `tungstenite`, `anyhow`, `rumqttc` and a few functions of
the standard library stand behind small wrappers. The comment above each says what its contract
claims. Everything else follows.
