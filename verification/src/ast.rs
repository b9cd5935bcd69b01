//! The syntax tree: nodes that own their children, and their values.

use vstd::prelude::*;
use crate::token::Token;

verus! {

/// A tree element: one token, the raw text matched for it, and the nodes
/// of its nested body in source order.
#[derive(Debug, PartialEq)]
pub struct Node {
    pub token: Token,
    pub children: Vec<Node>,
    pub data: Option<String>,
}

/// The mathematical value of a node.
pub ghost struct Tree {
    pub token: Token,
    pub children: Seq<Tree>,
    pub data: Option<Seq<char>>,
}

/// The values of a run of sibling nodes, in order.
pub open spec fn trees_of(nodes: Seq<Node>) -> Seq<Tree>
    decreases nodes,
{
    if nodes.len() == 0 {
        Seq::empty()
    } else {
        trees_of(nodes.drop_last()).push(nodes.last().view())
    }
}

/// `trees_of` keeps length and order: entry `i` is the value of node `i`.
pub proof fn lemma_trees_of_index(nodes: Seq<Node>)
    ensures
        trees_of(nodes).len() == nodes.len(),
        forall|i: int| 0 <= i < nodes.len() ==> (#[trigger] trees_of(nodes)[i]) == nodes[i]@,
    decreases nodes.len(),
{
    if nodes.len() > 0 {
        lemma_trees_of_index(nodes.drop_last());
        let front = trees_of(nodes.drop_last());
        assert(trees_of(nodes) == front.push(nodes.last()@));
    }
}

/// Adding a node at the end adds its value at the end.
pub proof fn lemma_trees_of_push(nodes: Seq<Node>, node: Node)
    ensures
        trees_of(nodes.push(node)) == trees_of(nodes).push(node@),
{
    assert(nodes.push(node).drop_last() =~= nodes);
}

impl View for Node {
    type V = Tree;

    open spec fn view(&self) -> Tree
        decreases self,
    {
        Tree {
            token: self.token,
            children: trees_of(self.children@),
            data: match self.data {
                Some(text) => Some(text@),
                None => None,
            },
        }
    }
}

impl Clone for Node {
    /// Copies the node with everything under it.
    fn clone(&self) -> (copy: Node)
        ensures
            copy@ == self@,
        decreases self,
    {
        let count: usize = self.children.len();
        let mut children: Vec<Node> = Vec::new();
        let mut i: usize = 0;
        proof {
            lemma_trees_of_index(self.children@);
            lemma_trees_of_index(children@);
        }
        while i < count
            invariant
                count == self.children@.len(),
                i <= count,
                children@.len() == i,
                forall|k: int| 0 <= k < i ==> (#[trigger] children@[k])@ == self.children@[k]@,
            decreases count - i,
        {
            let child = self.children[i].clone();
            children.push(child);
            i = i + 1;
        }
        let data = match &self.data {
            Some(text) => Some(text.clone()),
            None => None,
        };
        proof {
            lemma_trees_of_index(self.children@);
            lemma_trees_of_index(children@);
            assert(trees_of(children@) =~= trees_of(self.children@));
        }
        Node { token: self.token, children, data }
    }
}

} // verus!
