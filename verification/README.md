# netproxy

A small HTTP reverse proxy. The verified library (`src/`) holds:

- `strmap`: a string-keyed map with distinct keys, viewed as a `Map`;
- `config`: the configuration types and the order in which the
  configuration file is looked for;
- `reply`: the replies the proxy builds itself and the `StatusErr` helpers;
- `routing`: the routing table built from the configuration, the route
  chosen from a `Host` header, the step-by-step decisions of the proxying
  handler, and the listening address;
- `pem`: picking certificates and the private key out of PEM files, on top
  of `rustls-pemfile`;
- `laws`: properties of the library as a whole.

`app/` is the server program around it: file and network I/O, JSON parsing
with serde, TLS with rustls, and the hyper/tokio serving loops.
