# hyper-cors

CORS middleware logic for hyper 1.x, written in Verus.

The library (`src/`) decides everything the Fetch CORS protocol asks of a server:
which `Access-Control-*` headers a response carries, when a preflight is answered
directly, when a request from a disallowed origin is refused and with which status,
and how the CORS `Vary` value joins the one an inner service already sent. Every
function carries a contract over byte-level models of header names, values and
methods, and the properties that span several functions are proved in
`src/laws.rs`.

`app/` wraps the library as a `hyper::service::Service`: it reads the request head,
asks the caller's origin and credentials predicates (awaiting the asynchronous one),
runs the inner service when the library says so, and writes the headers into the
response.

## Layout

| Module | What it holds |
|---|---|
| `text` | tokens, ASCII whitespace, split / trim / join, case folding |
| `header` | `HeaderValue`, `HeaderName`, `Method`, `RequestHead` |
| `allow_origin`, `allow_credentials`, `allow_methods`, `allow_headers`, `expose_headers`, `max_age`, `vary` | one knob each: its setting and the header it yields |
| `config` | `CorsBuilder`, validation, the derived `Vary` |
| `cors` | `Cors`, `CorsFuture`, the outcome of a request, `merge_headers` |
| `laws` | properties of the middleware as a whole |

The only calls into the `http` crate are the three checking constructors
(`HeaderValue::from_bytes`, `HeaderName::from_bytes`, `Method::from_bytes`), each
behind a trusted wrapper in `src/header.rs` whose contract states what the crate
accepts. The one other trusted call is std's `Arc::clone`, which `Cors::clone` uses to
share the configuration.
