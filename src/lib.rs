//! A real-time query engine core: a serialisable query representation that
//! renders to parameterised SQL and evaluates in memory against rows, a write
//! path that prepares statements and builds change notifications, and a
//! subscription dispatcher that routes notifications to matching queries.

pub mod text;
pub mod value;
pub mod like;
pub mod query;
pub mod render;
pub mod safety;
pub mod operation;
pub mod dispatch;
pub mod columns;
