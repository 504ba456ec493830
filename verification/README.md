# kappa

A SOCKS front end that routes browser connections into a Kubernetes cluster,
and the pieces of the gateway that relays them, written as a Verus library.

- `src/` is the verified library: the routing of domain names to endpoints
  (`router`), the SOCKS 5 messages and session (`socks_proto`, `socks_server`),
  the buffering of tunnels through the gateway (`encap`), the gateway's checks
  on its streams (`gateway`), access control by client certificate (`acl`),
  error pages (`error_server`), and conversions of Kubernetes data (`convert`,
  `kube`). Calls into `http`, `x509-parser`, `html-escape` and a few standard
  library functions stand behind small trusted wrappers whose contracts say
  what those calls return.
- `app/` holds the input and output around it: the UNIX socket listener, the
  asynchronous reading and writing of SOCKS messages, the tunnel's byte-stream
  adapters and the HTTP server of the error page.
- `tests/` runs the library on concrete inputs.

## What `app/` does not hold

The full program is assembled from generated gRPC code (a `pb` module built
from `.proto` files by a build script), bundled web assets and an application
framework's resources. The `.proto` files and web assets are not part of this
tree, so `app/` has no `main`: it offers the I/O pieces (`listener`,
`session`, `tunnel`, `gateway_io`, `error_page`) behind small traits
(`EndpointServer`, `GatewayTransport`, `PodStatusSource`) that a program
implements with the gateway client, the TLS provider and the Kubernetes client.
The error page is served with `hyper` and `http-body-util` directly; a router
framework would add nothing for a single page.
