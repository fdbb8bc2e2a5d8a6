//! The pipeline-language syntax tree: a pipeline is a `|`-joined list of
//! nodes; a node has a name, ordered properties, and child pipelines.

use vstd::prelude::*;

verus! {

broadcast use vstd::std_specs::vec::axiom_vec_index_decreases;

/// One node of a pipeline: a name, properties in declaration order (values
/// of one key concatenated), and child pipelines.
#[derive(Debug, PartialEq, Eq)]
pub struct VDLNode {
    pub name: String,
    pub properties: Vec<(String, Vec<String>)>,
    pub children: Vec<VDLPipeline>,
}

/// An ordered chain of nodes: each node transforms the output of the one
/// before it.
#[derive(Debug, PartialEq, Eq)]
pub struct VDLPipeline {
    pub pipeline: Vec<VDLNode>,
}

/// The mathematical shape of a node.
pub struct VDLNodeView {
    pub name: Seq<char>,
    pub properties: Seq<(Seq<char>, Seq<Seq<char>>)>,
    pub children: Seq<VDLPipelineView>,
}

/// The mathematical shape of a pipeline.
pub struct VDLPipelineView {
    pub pipeline: Seq<VDLNodeView>,
}

/// The view of one property entry.
pub open spec fn prop_view(p: (String, Vec<String>)) -> (Seq<char>, Seq<Seq<char>>) {
    (p.0@, Seq::new(p.1@.len(), |j: int| p.1@[j]@))
}

impl VDLNode {
    /// The node as its mathematical shape.
    pub open spec fn deep(self) -> VDLNodeView
        decreases self,
    {
        VDLNodeView {
            name: self.name@,
            properties: Seq::new(self.properties@.len(), |i: int| prop_view(self.properties@[i])),
            children: Seq::new(
                self.children@.len(),
                |i: int|
                    if 0 <= i < self.children@.len() {
                        self.children[i].deep()
                    } else {
                        arbitrary()
                    },
            ),
        }
    }
}

impl VDLPipeline {
    /// The pipeline as its mathematical shape.
    pub open spec fn deep(self) -> VDLPipelineView
        decreases self,
    {
        VDLPipelineView {
            pipeline: Seq::new(
                self.pipeline@.len(),
                |i: int|
                    if 0 <= i < self.pipeline@.len() {
                        self.pipeline[i].deep()
                    } else {
                        arbitrary()
                    },
            ),
        }
    }
}

} // verus!

