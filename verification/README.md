# spec-tacular

A small language for writing OpenAPI documents by hand, compiled to YAML.

```text
type ContainerId: string

schema Container {
  id: ContainerId
  tare: integer?
}

api "container-api" "0.0.1" {
  path "/containers" {
    GET listContainers(@Query @Max(100) limit: integer) {
      200: Container
    }
  }
}
```

## Layout

The library under `src/` is written in Verus; each public function states
what it computes in its contract, and Verus proves it.

- `lexer`: splitting a source text into tokens, with their places.
- `syntax`: the grammar, and a parser from tokens to a syntax tree.
- `parser`: what a syntax tree means: the document, or why there is none.
- `ast`: the document: schemas, APIs, paths, endpoints, parameters.
- `generator`, `openapi`: the OpenAPI documents of a document, one per API.
- `output`, `cli`: the command line and where the documents go.
- `maps`, `media`, `text`: the calls into `indexmap`, `mediatype` and the
  standard library, with the contracts the rest of the library relies on.
- `laws`, `places`: properties of the library as a whole.

`app/` holds the command-line program: it reads the source file, reports
errors with `codespan-reporting`, and writes the documents with `openapiv3`
and `serde_yaml`.

```sh
spec-tacular compile examples/petstore.api -o petstore.yaml
```
