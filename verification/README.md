# tmonitor

An uptime dashboard for the terminal. It pings hosts, checks their services by
TCP, HTTP or HTTPS, and shows which are up and which are down, and for how long.

The library in `src/` holds everything that decides something, and Verus proves
that it does what its contracts say:

- `config`: which configurations are accepted, and what is said of the others
- `check`: what a probe is sent to, and how a reply is judged
- `cells`: the keys of what is monitored, and tables over them
- `engine`: the probes of a cycle, and what their results do to the state
- `display`: where each cell is drawn, and what is written there
- `logging`: which records are written, and their timestamps
- `cli`: the command line
- `clock`, `text`: time and text, as the other modules need them

The program in `app/` is ordinary Rust. It reads files, talks to the network and
the terminal, and asks the library what to do next.

## Configuration

`tmonitor.toml` in the current directory, or the file behind `--config`:

```toml
interval_secs = 60
concurrency = 10

[[hosts]]
name = "router"
address = "192.168.1.1"

[[hosts.services]]
name = "ssh"
port = 22

[[hosts.services]]
name = "admin"
port = 443
service_type = "https"
path = "/status"
expected_status = 200
```

Without a file the program pings `127.0.0.1`.
