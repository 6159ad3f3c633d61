# sideroute

A verified library for a side-route daemon on OpenWrt: devices chosen by MAC
address are routed through a side router (policy routing plus nftables marks and
DNS interception), and everything falls back to the main router when the side
router stops answering.

Layout:

- `src/text.rs`: character-level text handling (whitespace, trimming, fields,
  lines, unsigned numbers, decimal text) with specifications.
- `src/config.rs`: the configuration, its defaults, the UCI file format and the
  normal form of MAC addresses.
- `src/health.rs`: discovery and probing of the side router as a conversation of
  actions (ping, read a neighbour table) and answers.
- `src/routing.rs`: the `ip` commands and kernel settings of the policy routing, as
  a plan of steps.
- `src/nftables.rs`: the nftables ruleset text.
- `src/status.rs`: the reported status and the clock.
- `src/daemon.rs`: the decisions of the main loop (apply, fail over, refresh).
- `app/`: the daemon itself: file and process I/O, signals, the serde forms of the
  configuration and status.
- `tests/`: tests of the library.
