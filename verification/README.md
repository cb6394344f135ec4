# link-p2p

TCP-over-QUIC port forwarding and a whole-machine IP mesh on
[iroh](https://github.com/n0-computer/iroh), with the logic verified by
[Verus](https://github.com/verus-lang/verus).

- `src/` is the library: wire formats, parsers, routing, state machines and
  messages. Every executable function carries a contract, and the laws that
  relate them are public proof functions whose names begin with `law_`.
- `tests/` runs the library against the crates that it calls.
- `app/` is the `link-p2p` program around it: the command line, files,
  sockets and the TUN interface.

## Where things are

| Area | Modules |
|---|---|
| Errors, messages, help | `exit`, `i18n`, `helptext`, `cli_help`, `style` |
| Identity and peers | `identity`, `endpoint`, `contacts`, `crockford` |
| Settings and relays | `config`, `paths`, `relay_rtt`, `relay_probe`, `runtime` |
| Streams | `pipe`, `socks5`, `ssrf`, `stream_cmd`, `backoff`, `call` |
| The phone | `phone`, `phone_ring`, `daemon`, `stream_ctl`, `call_cmd` |
| The mesh | `mesh`, `tun`, `tun_net`, `tun_roster`, `packet`, `tun_cmd` |
| Diagnostics | `selftest`, `path_kind`, `path_stats`, `path_monitor`, `dispatch` |

What rests on other crates without proof stands in functions marked
`external_body`, each with a comment that names the function it calls and says
what is claimed of it.
