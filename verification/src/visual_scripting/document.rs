//! Visual scripting documents, and the custom commands that run them.
use vstd::prelude::*;
use crate::model::hakuid::HakuId;
use crate::visual_scripting::element::Element;

verus! {

/// A visual scripting document: its elements, and whether it is switched on.
#[derive(Debug)]
pub struct Document {
    pub id: HakuId,
    pub name: String,
    pub active: bool,
    pub definition: Vec<Element>,
}

impl Document {
    /// Whether the document is to be run: it is switched on and has
    /// something to run.
    pub fn is_ready_for_stream(&self) -> (r: bool)
        ensures
            r == (self.active && self.definition@.len() > 0),
    {
        self.active && self.definition.len() > 0
    }
}

/// A custom command of a server: the document it runs, and whether only
/// the member who used it sees the answer.
#[derive(Debug)]
pub struct ServerCommand {
    pub document: Document,
    pub is_ephemeral: bool,
}

} // verus!
