//! Turns bean schemas into TypeScript declarations.
pub mod text;
pub mod schema;
pub mod resolve;
pub mod order;
pub mod imports;
pub mod declaration;
