# glyph

The middle of the Glyph compiler as a verified library: the types of the
language, the mid-level representation (MIR) with its structural verifier, the
rules for what may cross a thread, closure analysis, checks on the places of
types, and the lowering of calls, loans, locks and threads to MIR.

## Layout

- `src/text.rs`, `src/table.rs`, `src/diag.rs`, `src/debug_text.rs`: text,
  insertion-ordered tables and diagnostics.
- `src/atomic.rs`, `src/types.rs`, `src/thread.rs`: the types of the language
  and the compiler-owned ones among them.
- `src/ast.rs`, `src/resolver.rs`: the syntax tree and what resolution found out.
- `src/thread_safety.rs`, `src/thread_safety_laws.rs`: `Send` and `Sync`, with the
  reason for each refusal.
- `src/closure_analysis.rs`: what closures capture, how, and where they escape.
  `closure_laws.rs`, `closure_borrows.rs` and `closure_identities.rs` state what
  holds of it as a whole.
- `src/validation.rs`, `src/validation_laws.rs`: where types may stand.
- `src/mir.rs`, `src/mir_verify.rs`: MIR and its verifier.
- `src/enums.rs`, `src/format.rs`: variant lookup and the formatter's decision.
- `src/lower/`: lowering of one function. `state.rs` is the model that every
  contract speaks of, `context.rs` holds the data, the other files hold the
  operations. `laws.rs` and `outline.rs` state what holds across operations.
- `app/`: `glyphfmt`, and the serialised form of MIR.
- `tests/`: scenarios on concrete values.

## How lowering is driven

Lowering of plain expressions belongs to the caller. Where an operation needs
the value of an argument it returns a step that says which one, and the caller
hands the lowered value to the operation that goes on. Every such operation is
a function from the state and that value to the next state, and its contract
says which one. Where a call or a method call can turn out to be something else
after a step, `resume_call` and `resume_method` say what comes next.

## What is trusted

Two functions of the standard library have contracts that are believed: the
comparison of two strings, and the `Debug` rendering of a string, of which only
is said that it depends on the string alone.
