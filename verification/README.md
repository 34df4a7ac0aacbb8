# substrate_egress

Verified egress policy for actors behind a proxy.

An actor opens a tunnel by the certificate of its tunnel endpoint, and each request through the
tunnel is held against the actor's current egress policy. The rule that lets a request through may
have it carry credentials, which are fetched from providers and cached for a while.

The library decides; it makes no calls over the network and reads no clock. A decision that needs a
reply or the time is a row of steps: each method says what is needed, and the next one takes it.

| Module        | What is in it                                                     |
|---------------|-------------------------------------------------------------------|
| `actor`       | which actor a certificate stands for, and whether it may tunnel   |
| `policy`      | which rule of a policy lets a destination through                 |
| `egress`      | the decision for one request, step by step                        |
| `credential`  | credential URIs, usable secrets, and the headers they become      |
| `cache`       | fetched secrets, by actor and URI                                 |
| `headers`     | header names, values and maps of the `http` crate                 |
| `network`     | addresses, and CIDR networks of the `ipnet` crate                 |
| `certificate` | PEM and X.509, by the `pem` and `x509-parser` crates              |
| `error`       | refusals, and the gRPC statuses that lead to them                 |
| `request`     | what is seen of a request                                         |
| `text`        | texts as sequences of characters                                  |

Functions named `law_..` state what holds of the library as a whole.

`app/` holds what surrounds the library: configuration, conversions, and the asynchronous calls.
