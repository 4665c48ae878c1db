# pressure_shader_language

A lexer and parser for the Pressure shader language, written in Verus. The library
reads source text into tokens and parses expressions, types and paths into a tree,
reporting diagnostics and recovering from errors as it goes.

Layout:

- `src/parser/source.rs`: positions, spans and the cursor that walks the source text.
  Lines and columns are specified over the text (`line_column_at`).
- `src/parser/token/`: the tokenizer. `lex_step` states, as a function of the text and an
  index, which token (or error) comes next and where the tokenizer stands after it;
  `Tokenizer::next` and `Tokenizer::peek` are proved against it. Keywords,
  pseudo-keywords, symbols, numbers and whitespace have modules of their own.
- `src/parser/diagnostic.rs`: diagnostics, with the invariant that the error flag tells
  whether any diagnostic is an error or fatal.
- `src/parser/parse_tree/`: the recursive-descent parser, for expressions (operators with
  their precedence, casts, postfix operations, array, vector and matrix literals, struct
  construction) and types (paths with generics, arrays and slices, `vec[T; N]`,
  `mat[T; C, R]`, resource types such as `storage<mut T>`, references and resource
  references). `grammar.rs` states, for every
  parsing function, the tree it builds, where it leaves the tokenizer and which diagnostics
  it adds, as a function of the parsing state; each parsing function is proved equal to it.
  Every parsing function is also proved to terminate, to take nothing when the next token
  cannot start what it parses, to only add diagnostics, and to fail only after reporting a
  fatal diagnostic. Error recovery (`MismatchHandling`) is specified exactly.
- `src/parser/text.rs`: the texts that positions, spans, tokenizer errors and diagnostics
  are shown with, each stated as a spec function and produced by a `to_string` method.
- `grammar.rs` also states, in `lemma_chain_grouping`, how a chain of operands and infix
  operators is grouped: by the precedence table (`InfixOperator::spec_precedence`), with
  operators of equal precedence associating to the left.
- `app/main.rs`: reads `test.psi`, parses an expression and prints the tree and the
  diagnostics.

Source text is handed to the library as a slice of `char`s; spans index into it by
character; `SourceCursor::relative_offset` counts UTF-8 bytes.
