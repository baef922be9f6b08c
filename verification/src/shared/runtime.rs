use vstd::prelude::*;

verus! {

/// The result of executing an analysis pipeline.
#[derive(Debug, Clone, PartialEq, Eq, Structural)]
pub struct Analysis {
    pub run_time_ms: u32,
}

/// A named analysis pipeline: its nodes keyed by name.
#[derive(Debug, Clone)]
pub struct Pipeline(pub Vec<(String, Node)>);

/// One node of an analysis pipeline.
#[derive(Debug, Clone)]
pub struct Node {
    pub ty: NodeKind,
    pub identifier: String,
    pub args: Vec<(String, String)>,
}

/// What kind of work a pipeline node does.
#[derive(Debug, Copy, Clone, PartialEq, Eq, Structural)]
pub enum NodeKind {
    Model,
    ProcBlock,
}

/// How one table column feeds one node input tensor.
#[derive(Debug, Clone)]
pub struct ColumnMapping {
    pub tensor_id: String,
    pub node_name: String,
    pub input_tensor_name: String,
}

} // verus!
