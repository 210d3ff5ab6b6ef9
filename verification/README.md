# rweb

The core of a web framework built on warp, written in Verus: the library's
functions carry contracts that Verus proves.

## Layout

- `src/` — the verified library.
  - `http_types`, `headers`, `http`, `error`: methods, versions and status
    codes; request metadata; responses, their builder and bodies; errors and
    the status each one answers with.
  - `guard`, `handler`: method guards and handler factories.
  - `text`, `codec`, `form`: url-encoded forms — the content type and charset
    of a request, the body limit, decoding and parsing.
  - `extract`: the `Json`, `Form` and `Query` extractors.
  - `entity`, `openapi`, `http_methods`: schemas of request and reply types,
    and the collector that builds an openapi specification from routes.
  - `route`, `params`, `fn_attrs`, `attrs`, `plan`: what the route and
    router attributes decide — route paths, how each handler argument is
    read, the filters that function attributes add, and the openapi
    operation of a handler.
  - `schema`, `schema_plan`, `describe`: what the schema derive decides —
    the settings of types and fields, the shape of a type's schema, and the
    schema its `describe` assembles from the schemas of the field types,
    registered once as a component when the type names one.
- `tests/` — tests of the library.
- `app/` — the runtime around it: warp filters, the async reading of form
  bodies, conversions with the `http` crate, the scoped collector and the
  documentation endpoint.

Calls into `http`, `bytes`, `encoding_rs` and `serde_urlencoded` are made in
`src/` through small trusted wrappers whose contracts state what those crates
document.
