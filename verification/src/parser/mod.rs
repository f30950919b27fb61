pub mod input;
pub mod common;
pub mod number;
pub mod value;
pub mod boolean;
pub mod constraint;
pub mod object_identifier;
pub mod progress;
pub mod properties;
pub mod information_object;
pub mod integer;
pub mod shift;
pub mod laws;
