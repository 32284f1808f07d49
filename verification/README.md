# AI Status Watcher

A desktop watcher for the [AI.INPUT.IM](https://status.input.im/) status page. It polls the
page, shows which models are up, and notifies its user when watched models go down or recover,
or when the page itself goes out of reach.

`src/` is the verified library: plain state and plain values, no I/O beyond a look at the clock.
What its functions do is stated in
contracts that [Verus](https://github.com/verus-lang/verus) checks.

| Module | What it holds |
|---|---|
| `config` | the settings and their ranges |
| `text`, `order` | one-line error messages, numbers and lists as text, the order of names |
| `status`, `shown` | reports as fetched, and what is shown of them |
| `judge` | failures in a row, and which models count as down |
| `notify` | notifications, tray tooltips, cooldown |
| `state` | the watcher's state, and what it does when a fetch ends |
| `fetch`, `poll`, `clock` | how a fetch goes on, when a poll is due, the time of day |
| `settings`, `window` | how new settings are put in force; windows, menu and start |
| `laws` | what holds over any course of events |

`app/` is the program around it: windows, tray and notifications with Tauri, the network with
reqwest, the settings file with serde. `tests/` runs the library.
