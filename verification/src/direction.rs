use vstd::prelude::*;

verus! {

/// Which way an edge is followed from a vertex.
#[derive(Debug, Clone, Copy, PartialEq, Eq, Structural)]
pub enum Direction {
    /// Edges that leave a vertex; following one ends at its target.
    Outgoing,
    /// Edges that enter a vertex; following one ends at its source.
    Incoming,
}

impl Direction {
    /// The reverse direction: outgoing for incoming, incoming for outgoing.
    pub open spec fn spec_oppposite(self) -> Direction {
        match self {
            Direction::Outgoing => Direction::Incoming,
            Direction::Incoming => Direction::Outgoing,
        }
    }

    /// Returns the reverse direction.
    pub fn oppposite(&self) -> (r: Direction)
        ensures
            r == self.spec_oppposite(),
    {
        match *self {
            Direction::Outgoing => Direction::Incoming,
            Direction::Incoming => Direction::Outgoing,
        }
    }
}

/// Each direction differs from its opposite, and the opposite of its
/// opposite is the direction itself.
pub proof fn lemma_opposite(direction: Direction)
    ensures
        direction.spec_oppposite() != direction,
        direction.spec_oppposite().spec_oppposite() == direction,
{
}

} // verus!
