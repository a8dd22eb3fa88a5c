//! A retained scene graph of vector shapes: components that produce trees
//! of shapes, addresses of nodes in such trees, the layout that resolves
//! percentage and automatic geometry, and the drawing operations that a
//! laid-out tree issues.
//!
//! Numbers are fixed-point ([`fixed`]). The drawing backend stays outside:
//! it measures the text runs that [`renderer::Renderer::text_runs`] lists,
//! and it carries out the operations that a [`frame::Frame`] collects.
//!
//! - [`fixed`], [`value`], [`bounds`]: numbers, geometry fields, boxes.
//! - [`paint`], [`shape`]: the shapes and the trees they form.
//! - [`layout`], [`measure`], [`draw`]: the rules, as functions on trees.
//! - [`frame`], [`renderer`]: the executable layout and drawing.
//! - [`finger`], [`component`]: addressing and the update protocol.
//! - [`laws`]: what holds of the rules taken together.

pub mod bounds;
pub mod component;
pub mod draw;
pub mod finger;
pub mod fixed;
pub mod frame;
pub mod laws;
pub mod layout;
pub mod measure;
pub mod paint;
pub mod renderer;
pub mod shape;
pub mod value;
