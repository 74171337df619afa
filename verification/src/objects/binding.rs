//! Bindings of pods to nodes.

use vstd::prelude::*;
use super::{object_reference::ObjectReference, Metadata};

verus! {

/// A request to bind the pod named by the metadata to the target node.
#[derive(Clone, Debug, PartialEq)]
pub struct Binding {
    pub metadata: Metadata,
    pub target: ObjectReference,
}

} // verus!
