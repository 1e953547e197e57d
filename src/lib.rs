//! A declarative relational schema model: record types, their attributes and
//! references, the relation classification derived from them, the capability
//! plan of each record type, and the reflection protocol that generic tooling
//! uses to read and change record instances by attribute name.
pub mod attributes;
pub mod category;
pub mod introspection;
pub mod number;
pub mod object;
pub mod objectdb;
pub mod planner;
pub mod record;
pub mod text;
pub mod type_names;
