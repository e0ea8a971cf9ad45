//! The editor core: cursor model, modes, actions and operators.

pub mod actions;
pub mod bindings;
pub mod continuation;
pub mod cursor;
pub mod driver;
pub mod jump;
pub mod mode;
pub mod node_ops;
pub mod operators;
pub mod selection;
pub mod status;
pub mod types;
pub mod widget;
pub mod motion;
pub mod process;
pub mod create_op;
pub mod euclidean;
pub mod dispatch;
pub mod keyboard;
