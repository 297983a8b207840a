//! The configuration document, modelled as a JSON-like value tree.
//!
//! Numbers are carried as their literal decimal text so that every kind of
//! numeric leaf, integral or fractional, fits one representation; the
//! reporter never computes with them, it only copies them through.

use vstd::prelude::*;

verus! {

/// One node of a configuration document.
#[derive(Debug)]
pub enum ConfigValue {
    /// An explicit null.
    Null,
    /// A boolean leaf.
    Bool(bool),
    /// A numeric leaf, as its literal text.
    Number(String),
    /// A string leaf; its content never reaches the report.
    Text(String),
    /// An array of nodes, in document order.
    Array(Vec<ConfigValue>),
    /// An object: named fields in document order.
    Object(Vec<(String, ConfigValue)>),
}

} // verus!
