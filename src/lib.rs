//! A scalar reverse-mode automatic-differentiation engine over an arena of nodes,
//! the datapoint editing of a small two-dimensional classifier built on it, and the
//! inject-template preprocessing used when packaging for Android.
pub mod activity;
pub mod backprop;
pub mod graph;
pub mod points;
pub mod scalar;
pub mod template;

pub use graph::{Context, Graph, NodeId, Op};
pub use scalar::Scalar;
pub use template::{is_well_formed_template, parse_inject_template, Inject, MainActivityInject, QuadSurfaceInject, Section};
