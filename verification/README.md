# esp_embedded

Building blocks for ESP32 firmware that serves a WiFi access point, a captive portal and a small
web interface. What the blocks decide and compute is written in Verus and proved against the
contracts that stand beside it; what touches hardware or the network is ordinary async Rust.

| Module | What it holds |
|---|---|
| `wifi_api`, `wifi_task`, `wifi_boot`, `wifi_start`, `wifi_config` | the WiFi configuration: reading it, changing it, keeping it in flash, starting it |
| `keys`, `flash`, `fields` | the key-value store: its keys, its answers, single settings |
| `wifi_laws` | the configuration in RAM and the one in flash stay in step |
| `signals`, `radio`, `connection` | what the radio is set to, and which network is tried when |
| `dns`, `services` | the captive portal's DNS, and what DHCP and mDNS are started with |
| `session`, `cookie` | sessions, the store that drops the least recently used one, cookies |
| `nonce`, `auth` | the challenge-response login, and who is let in |
| `ota` | firmware updates |
| `text`, `time` | fixed-capacity strings and the clock |

Functions named `law_...` state what holds across several functions: that a change outlasts a
restart, that a login opens the door until the session has been idle for an hour, that a nonce is
good once.

`app/` is the firmware side: Embassy tasks, flash adapters, the radio driver and the HTTP handlers.
Each performs the step that the library names and hands the outcome back. `tests/` runs the library
on concrete values.
