# derive_ctor

The logic of the `#[derive(ctor)]` procedural macro, verified with Verus.

The item that the derive is applied to is handed to the library as a flat
token model (`tokens::Tok`): identifiers, punctuation and literals, with each
delimited group written as an opening marker, its contents and a closing
marker. The library reads the `#[ctor(...)]` configuration of the item, of
its variants and of its fields, decides for every constructor which fields
become parameters and which are computed, and writes the resulting `impl`
blocks as tokens again.

Layout of `src/`:

- `tokens`, `syntax`, `attrs`: the token model, shared parse steps and the
  attribute form;
- `outside`: the calls into `syn` and `heck`, with what each is taken to
  compute;
- `structs`, `fields`, `enums`, `unions`: the configuration grammars and the
  code for each kind of item;
- `meta`: the per-field plan of a constructor;
- `generate`: the tokens of methods and `impl` blocks;
- `derive`: the derive as a whole;
- `laws`: properties proved of every derive (a few more stand beside the
  function they are about, in `fields` and `ident`).

`app/` holds the procedural-macro side: it reads the item with `syn`,
converts it into the token model, and turns the library's answer into a
token stream, a compile error or a panic.
