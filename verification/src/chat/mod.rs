//! Chat domain logic: aliases, composer autocomplete, timestamps and token ranges.
pub mod aggregate;
pub mod alias;
pub mod autocomplete;
pub mod history;
pub mod normalize;
