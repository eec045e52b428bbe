# openfortivpn_tui

A terminal front end for `openfortivpn` with saved profiles, several
concurrent VPN sessions, OTP prompts, untrusted-certificate approval and
an optional debug log. The decisions of the program live in a library
whose functions carry Verus contracts; a thin executable drives the
terminal, the configuration file and the `openfortivpn` processes.

## Layout

- `src/` — the verified library.
  - `text.rs`: string helpers (trimming, words, decimal numbers, case).
  - `config.rs`: profiles, the configuration and its disk form.
  - `state.rs`: connection states, sessions, the interface state and the
    operations on it.
  - `profile_form.rs`: opening the profile form.
  - `actions.rs`: what each key does on each screen and dialog.
  - `runtime.rs`: start-up, key routing and events from connection tasks.
  - `vpn.rs`: privilege method, command line, standard input, a
    connection attempt and stopping a process step by step, reading the
    process output, the certificate report, the token delivery and the
    process exit.
  - `netstats.rs`: `/proc/net/dev` parsing, the tunnel interface and the
    rate monitor with its loop step by step.
  - `display.rs`: what the screen shows of the state, the token field
    (bullets only), the certificate digest and which buttons are usable.
  - `laws.rs`: properties across operations (session invariant, isolation
    of sessions, the token never shown, round trips, the order of the
    steps of connecting and stopping).
- `app/` — the executable: terminal loop, drawing, configuration file,
  and the outside work (look-ups, probes, spawning, signals) that the
  step functions of `vpn.rs` ask for.
- `tests/` — tests of the library.

## Running

`openfortivpn-tui` starts the interface; `-d` or `--debug` also writes a
debug log to `/tmp/openfortivpn-tui.log`. OTP tokens are never written to
the interface or the debug log.
