# bluejay_rb

GraphQL schema definitions and input coercion for the Ruby extension of the
bluejay GraphQL toolkit, written in Verus.

- `src/` is the verified library: field, input value and input object
  definitions, input type references, the arena in which Ruby input values
  are described (`value`), the coercion of input values against input types
  (`coerce`, with the builtin scalar rules in `type_reference`) and the laws
  that the coercion obeys (`laws`).
- `app/` is the Ruby extension around it: the `Bluejay` classes, keyword
  arguments, conversion of Ruby values into the arena, the Ruby calls that
  coerce enum and custom scalar values, and the construction of Ruby objects
  from a coerced value.
- `tests/` exercises the library on concrete values.

The coercion is a step function: the caller passes the outcomes of the enum
and custom scalar coercions known so far and gets either the final result or
the next outside coercion to perform.
