//! A renderable-context abstraction for a text-templating engine.
//!
//! Heterogeneous host data (numbers, strings, booleans, optional and fallible
//! wrappers, sequences, maps, indirections, user records) is exposed through a
//! single capability contract: truthiness for conditional sections, output
//! size estimation, byte-level text serialization, path lookup, key-ordered
//! iteration, and type classification. A hashed name-to-field dispatch table
//! gives records string-keyed field access without reflection.

pub mod adapters;
pub mod context_trait;
pub mod dispatch;
pub mod ordered_map;
pub mod text;
pub mod value;

pub use context_trait::ContextTrait;
pub use context_trait::ContextType;
pub use dispatch::FieldSpec;
pub use dispatch::Record;
pub use ordered_map::OrderedMap;
pub use value::CtxValue;
pub use value::Number;
