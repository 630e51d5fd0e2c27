# quux

Building blocks of the quux web framework, written in Verus and proved against
their contracts:

- `element`: HTML escaping and the rendering of an element tree.
- `segment`, `server`, `matching`: the path segments of a request, routes and
  matchers that read them, and a server that tries its routes in turn and leaves
  what none takes to its fallback.
- `handler`: requests, contexts and the handler combinators (`and_then`, `map`,
  `map_err`, `or`, `then`).
- `tokens`, `html`, `view`, `macros`: the token model of the view grammar, the
  parsers of its two forms, and the code generated from a view: the server HTML
  and the client code of the first form (`html::server`, `html::client`, with
  the law that both number the elements alike), and the element HTML, loop code
  and event code of the second (`view::generate`), and the code of the `routes!`
  and `init_components!` macros (`macros::routes`, `macros::init_components`).

`app/` holds what stays outside the proofs: the hyper server loop, the
conversions between `proc_macro2` token streams and the library's tokens, and the
macro entry points, which also write the expansion records to disk.
