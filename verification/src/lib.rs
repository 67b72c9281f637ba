//! Verified core of a visual GUI designer: a deterministic code generator
//! that turns a declarative scene of widgets into a complete program text,
//! together with the scene model, its interchange codec, and the
//! indentation-based tree parser used by the tree widget.

pub mod codec;
pub mod emit;
pub mod generate;
pub mod scene;
pub mod text;
pub mod tree;
