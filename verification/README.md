# roan

Parts of the Roan language runtime, with their behaviour stated in Verus contracts and
proved. The expression evaluator itself is not here: it computes on runtime values that
hold floats, but its decisions are: which element or field an assignment writes, and what
an access `value.member` or `Base::member(..)` calls or reads. What is here:

- `position`, `span`, `frame`: source positions, spans of source text and call frames.
- `error`, `diagnostic`, `style`: the runtime's errors, their messages, and the
  diagnostics that report them, as lines of decorated text.
- `source`: UTF-8 input read char by char; only valid UTF-8 gives chars, and decoding
  the encoding of any text gives that text back.
- `module`, `path`: module identifiers, quoted module specifiers, the filesystem
  loader's root, the basic loader's cache of modules, the text of canonical paths, and
  paths made absolute against a root.
- `interpreter`: the static types and the stack of scopes of the type pass, its typing
  rules for operators, assignments, then-else expressions, vector literals and
  variables, its walk over expressions and statements (on a model of the syntax tree
  that holds what the pass reads: kinds, names, spans and annotations), type
  annotations and the types they stand for, the evaluator's access and assignment
  decisions, the resolver pass's record of structs, traits and their implementations,
  and the choice of what a `use` statement imports.
- `methods`: the methods Roan programs call on chars, strings and vectors, and the
  table of which method names each kind of value has.
- `logs`, `link`: log lines and the state of the log viewer's table; terminal links.

`app/` holds what touches the outside world: reading files, resolving paths on the
filesystem, and printing diagnostics in colour.
