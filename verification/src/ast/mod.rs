//! The syntax tree: what every node can do, and the nodes themselves.

use vstd::prelude::*;

pub mod decimal;
pub mod node;

verus! {

/// What every node of the tree can do: name the token that introduced it,
/// and render itself and all below it as text.
pub trait Node {
    /// The literal of the token that introduced the node.
    spec fn spec_token_literal(&self) -> Seq<char>;

    /// The canonical text of the subtree.
    spec fn spec_string(&self) -> Seq<char>;

    fn token_literal(&self) -> (literal: String)
        ensures
            literal@ == self.spec_token_literal(),
    ;

    fn string(&self) -> (out: String)
        ensures
            out@ == self.spec_string(),
    ;
}

/// A node that produces a value.
pub trait Expression: Node {

}

/// A node that produces an effect.
pub trait Statement: Node {

}

} // verus!
