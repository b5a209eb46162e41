# leptos_mview_core

The core of `mview!`, a concise view macro for leptos, written in Verus.

The macro reads a token stream such as

```text
div.card #main class="x" on:click={go} {
    "Hello, " strong { [name.get()] }
    Comp |item| { "child" }
}
```

parses it into children, elements, attributes and values, and expands
them into the builder calls of leptos. Parsing and expansion are verified:
each function states, over spec functions of the syntax tree, which tokens
it produces and which diagnostics it reports.

## Layout

- `src/token.rs`, `src/span.rs`, `src/text.rs`: tokens, spans and
  characters, with their mathematical views.
- `src/parse.rs`: the parse stream and diagnostics.
- `src/lit.rs`: how a literal is classified, through `syn`.
- `src/ast/`: the syntax tree and its parsers; each parser states what it
  takes from the input, what it reports, and when it stops the macro.
- `src/expand/`: the expansion. `expansion.rs` states the tokens of every
  part of the tree, `reported.rs` what each part reports, and
  `subroutines.rs` and `utils.rs` hold the pieces.
- `src/lib.rs`: `mview_impl`, parsing then expanding the whole view.
- `app/lib.rs`: the glue to `proc_macro2` and `proc_macro_error2`.
- `tests/`: tests of parsing and expansion on concrete inputs.
