//! Analysis and planning behind two derive generators for records with named
//! fields: a debug printer and a fluent builder.
//!
//! A record declaration is described by plain values ([`Record`]). From it
//! the library parses the generators' tags, finds how each type parameter is
//! used in the field types, infers the constraints that the generated code
//! needs (or takes the record's literal clauses instead), and plans the
//! generated methods. [`BuilderState`] is the behaviour that a generated
//! builder follows at run time.

pub mod attrs;
pub mod bounds;
pub mod builder_gen;
pub mod builder_state;
pub mod debug_gen;
pub mod types;
pub mod usage;

pub use attrs::{Attribute, MetaItem, MetaValue, SynthError, parse_config, values_for};
pub use bounds::{GenericClause, dedup_texts, infer_bounds, parse_outcomes, resolve_bounds};
pub use builder_gen::{BuilderPlan, Method, SlotKind, plan_builder};
pub use builder_state::{BuilderState, Slot};
pub use debug_gen::{DebugPlan, FieldLine, Render, plan_debug};
pub use types::{Field, Record, Segment, Shape, TypeExpr, render_type};
pub use usage::{Usage, walk_type};
