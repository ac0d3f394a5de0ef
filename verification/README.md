# compiler

A small compiler for a subset of C, written in Verus: it reads a source text into
tokens, parses the tokens into a syntax tree and turns the tree into assembly.

- `src/tokens.rs`: the tokens and the table of patterns that reads a lexeme as a token.
- `src/lexer.rs`: the tokenizer, which splits a source text into lexemes.
- `src/ast.rs`: the syntax tree and its model.
- `src/parser.rs`: a recursive-descent parser, specified by spec functions over the
  token sequence.
- `src/codegen.rs`: the assembly generator.
- `src/compile.rs`: the whole path from a source text to assembly, and file names.
- `src/laws.rs`: properties that span several of the above.
- `app/main.rs`: the command-line program: it reads the file, prints the assembly and
  runs gcc.

The generator only handles `return` statements given as statement nodes, and the parser
makes `return`, assignment and declaration nodes that the generator passes over: the
assembly made for a parsed program holds only the global label of each function.

The patterns are matched by the `regex` crate and label names are drawn with `nanoid`;
the contracts of those calls are stated, not proved.
