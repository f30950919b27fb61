//! Parsers for ASN.1 notation: BOOLEAN and OBJECT IDENTIFIER types,
//! OBJECT IDENTIFIER values, and subtype / table constraints.
//!
//! Every parser is specified by a spec function over the input's characters
//! (`Seq<char>`) and a position; the executable parsers are proved to agree
//! with those specifications.
pub mod intermediate;
pub mod parser;
