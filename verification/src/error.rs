//! What an operation reports when it refuses its input.

use vstd::prelude::*;
use vstd::string::StringExecFns;
use crate::graph::Edge;
use crate::graph::Vertex;
use crate::text::decimal;
use crate::text::push_decimal;

verus! {

/// Why an operation left its structure unchanged.
#[derive(Debug, Clone, Copy, PartialEq, Eq, Structural)]
pub enum Error {
    /// The vertex is not one of the graph's vertices.
    InvalidVertex { vertex: Vertex },
    /// The handle's index is not below the number of slots of the map.
    OutOfBounds { index: usize, len: usize },
    /// The edge does not touch the end of the path that it was to extend;
    /// `expected` is the vertex at that end.
    Discontinuous { expected: Vertex, edge: Edge },
}

impl Error {
    /// The text of an error: the rule that was broken, and the handles and
    /// numbers that broke it.
    pub open spec fn text(self) -> Seq<char> {
        match self {
            Error::InvalidVertex { vertex } => "invalid vertex handle: "@ + vertex.text(),
            Error::OutOfBounds { index, len } => "index out of bounds: the index is "@ + decimal(
                index as nat,
            ) + " but the length is "@ + decimal(len as nat),
            Error::Discontinuous { expected, edge } => "discontinuous path: edge "@ + edge.text()
                + " does not touch vertex "@ + expected.text(),
        }
    }

    /// Returns the error as text.
    pub fn to_string(&self) -> (s: String)
        ensures
            s@ == self.text(),
    {
        match *self {
            Error::InvalidVertex { vertex } => {
                let mut s = String::from_str("invalid vertex handle: ");
                push_decimal(&mut s, vertex.index);
                s
            },
            Error::OutOfBounds { index, len } => {
                let mut s = String::from_str("index out of bounds: the index is ");
                push_decimal(&mut s, index);
                s.append(" but the length is ");
                push_decimal(&mut s, len);
                s
            },
            Error::Discontinuous { expected, edge } => {
                let mut s = String::from_str("discontinuous path: edge ");
                push_decimal(&mut s, edge.source.index);
                s.append(" -> ");
                push_decimal(&mut s, edge.target.index);
                s.append(" does not touch vertex ");
                push_decimal(&mut s, expected.index);
                assert(s@ =~= self.text());
                s
            },
        }
    }
}

} // verus!
