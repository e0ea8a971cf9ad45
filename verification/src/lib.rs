//! A modal, keyboard-driven graph editor core together with the grammar
//! compiler that turns key-binding trees into state tables.

pub mod accept;
pub mod collect;
pub mod editor;
pub mod grammar;
