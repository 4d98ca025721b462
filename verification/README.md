# Elasticsearch binding

A verified library behind an Elasticsearch / OpenSearch binding. One binding is
one operation (`search`, `count`, `get`, `index`, `delete`, `bulk`, `msearch` or
`knn`) against configured base URLs and an index allowlist.

`src/` is the library, verified with Verus. It turns the arguments of a request
into one REST call and what came back into an answer:

- An index is a safe path segment and covered by the allowlist, in the path, in
  every action of a bulk write and in every search of a multi-search.
- Scripts are refused at any depth of a body unless they are allowed.
- `size`, `from` and the size of a request stay within their ceilings.
- Document ids are encoded so that they name one document.
- Credentials are in the authorization header and nowhere else.
- Base URLs are tried in order, each once, until one answers.

Each of these is stated and proved; look for the functions named `law_*`.

`app/` is the plugin around the library: the plugin traits, the HTTP client, name
lookups, and the decoding of configurations with serde.

`tests/` runs the library on concrete values.

JSON is read and written by `serde_json`, and URLs are read by `url`. What the
library relies on from them stands in the comments that begin with `Trusted`, in
`src/json.rs`, `src/wire.rs` and `src/transport.rs`; the few functions of the
standard library that it relies on likewise stand in `src/text.rs`,
`src/response.rs` and `src/debug.rs`.
