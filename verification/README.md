# valen_borrowck

A verified library for the group-based borrow checker of the Valen compiler and the parts of its
typing pass that the checker and the generated function bodies rest on. Every function in `src/`
is verified by Verus; the only trusted items are the wrappers around `indexmap` in
`src/index_map.rs`.

## Layout

- `src/range.rs`, `src/loc.rs`, `src/text.rs`, `src/names.rs`, `src/interner.rs`: source ranges,
  node locations, names and interning.
- `src/postparsing.rs`: what the checker and the typing helpers read of a parsed function: written
  groups, parameter types, declared effects, patterns.
- `src/compiler_error_reporter.rs`: compile errors, their ranges, and their rendering.
- `src/typing/`: kinds, typed expressions, the node environment, conversions, locals and
  temporaries, drops, calls, patterns, and the bodies generated for builtins and abstract functions.
- `src/borrow_checker/`: the grouped tree and kinds; `experimental/` holds the grouping pass
  (`groupify*`), the usage check (`check_usages.rs`, whose result is stated by the walk model in
  `walk_model.rs`), the aliasing info, the entry point (`check.rs`) and the laws on groups and on
  the walk; `symphony/` holds the rune matching of the region-based grouping.
- `tests/`: the checker's scenarios, the grouping pass run on typed bodies, and the typing helpers.

## What the library takes as input

Overload resolution, the environments that name lookups search, and the rune solver are not part
of this library. Where a function depends on their answer, it takes that answer as an argument and
its contract says what it does for every answer: `evaluate_call` and `evaluate_custom_call` take the
function resolution chose (or why it found none), `generate_function_body_abstract_body` takes the
override found, `get_option`, `get_result` and `generate_function_body_lock_weak` take the resolved
optional or result interface and its constructors, and `inner_translate_sub_pattern_and_maybe_continue` takes what follows the capture
(the pattern's continuation, or its destructuring). The typing of whole expressions, the loading of
struct members through substituted generic bounds, and the generated struct constructors and drops
need these services throughout and are not in this library.
