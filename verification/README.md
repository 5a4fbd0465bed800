# libnet

The network core of a DNS-filtering VPN. It reads DNS requests from a tunnel, forwards them to
standard or DNS-over-HTTP/3 servers, and writes the responses back.

`src/` is a Verus library. It holds the decisions of the service, each with a contract:

- `controller`: the stop result with which the application interrupts the VPN
- `validation`, `validator`, `validation_run`, `resolver`: the user's DNS servers, how they are
  validated, what every validation returns, and the reports that resolver threads send over a pipe
- `vpn`, `run`: one iteration of the main loop, and a run of the VPN as a whole
- `backend::request`, `backend::session`, `backend::connection`, `backend::doh3`,
  `backend::events`: the DNS-over-HTTP/3 backend
- `address`, `text`, `encoding`, `status`: the values that these share

Parts that alternate between decisions and outside work are state machines: the library names the
next piece of work, the caller performs it and hands back the outcome. A spec function `next` states
each machine. The public proof functions named `law_...` state what holds of each of its steps. Those
over sequences of outcomes state what whole runs come to: in `validation_run`, `run`, `vpn`,
`backend::session` and `backend::events`.

`app/` performs the work: file descriptors, sockets, QUIC, threads, locks and the poller. The DNS
cache, the packet builder, the proxy and the backend for standard servers reach it through the traits
in `app/services.rs`.

`tests/` runs the library on concrete values.

QUIC comes from `quiche`. It is declared without its bundled TLS library, so a binary that uses
`app/` has to link BoringSSL.
