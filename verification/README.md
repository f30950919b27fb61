# Verified parsers for ASN.1 notation

Parsers for pieces of ASN.1 notation (X.680, X.681, X.682): the BOOLEAN,
INTEGER (with named numbers) and OBJECT IDENTIFIER types, references to
other types, OBJECT IDENTIFIER values, and constraints, proved with Verus.
Constraints cover single values, value ranges, SIZE, FROM (whose alphabet
may only be built from single values, value ranges, SIZE and contained
subtypes), WITH COMPONENT(S), PATTERN, CONSTRAINED BY, contained subtypes,
set operations, the actual parameters of a parameterized type, and table
constraints. The object set of a table constraint holds references and
information objects written inline, in the default syntax (`&field` then a
type or a value) or in a syntax of the class's own (words in capitals,
types and values), and may be extensible. Reserved words such as `FROM`,
`SIZE` or `WITH` never name a type.

Each parser has a specification: a spec function over the characters of the
input and a position, which says what the parser reads and where it stops.
The executable parsers are proved to return exactly that.

Layout:

- `src/intermediate/` — the values, types and constraints the parsers build,
  each with its mathematical counterpart (`Spec...`) and view.
- `src/parser/input.rs` — the input as characters, the error type, and the
  conversion of a parser's outcome into the remaining text.
- `src/parser/common.rs` — white space, comments, keywords, identifiers.
- `src/parser/number.rs` — decimal numbers, read by nom's `u128` and `i128`.
- `src/parser/value.rs`, `boolean.rs`, `integer.rs`,
  `object_identifier.rs`, `constraint.rs`, `information_object.rs` — the
  grammar: specifications, parsers and the public functions on `&str`.
- `src/parser/progress.rs` — every parser reads a prefix of what is left.
- `src/parser/shift.rs` — what a parser reads from a position depends only
  on the text from there on.
- `src/parser/laws.rs` — set operations nest to the right in source order;
  what value ranges, `WITH COMPONENTS` and their components are made of; a
  type in parentheses is a contained subtype; `WITH COMPONENT` keeps the
  inner constraint; the `OBJECT IDENTIFIER` keyword before a value may be
  left out.
- `src/parser/properties.rs` — leading white space and comments do not
  matter, the `OBJECT IDENTIFIER` keyword before a value is optional, and
  lists of constraints, components and arcs are never empty, and a list of
  constraints that matches reads at least one character; text put before
  the start does not change what is read; `BOOLEAN` followed by constraints
  reads as the type with those constraints; `INCLUDES` is optional.
