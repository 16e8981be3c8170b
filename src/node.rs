use vstd::prelude::*;

verus! {

/// Word metadata attached to a lattice node.
#[derive(Debug, Clone, Copy, PartialEq, Eq, Structural)]
pub struct WordInfo {
    /// Length of the head word in bytes.
    pub head_word_length: u16,
    /// Part-of-speech id in the grammar.
    pub pos_id: u16,
}

/// A candidate vertex of the lattice: connection ids, cost, word metadata and
/// the half-open byte range `[begin, end)` it covers.
#[derive(Debug, Clone, Copy, PartialEq, Eq, Structural)]
pub struct Node {
    pub begin: usize,
    pub end: usize,
    pub left_id: u16,
    pub right_id: u16,
    pub cost: i16,
    pub word_info: Option<WordInfo>,
}

/// `n` with its range set to `[offset, offset + head word length)`.
pub open spec fn anchored_at(n: Node, offset: usize) -> Node
    recommends
        n.word_info is Some,
{
    Node { begin: offset, end: (offset + n.word_info->Some_0.head_word_length) as usize, ..n }
}

/// Every node of `nodes` with its range anchored at `offset`.
pub open spec fn anchor_all(nodes: Seq<Node>, offset: usize) -> Seq<Node> {
    nodes.map_values(|n: Node| anchored_at(n, offset))
}

/// Every node carries word metadata, and its head word starting at `offset`
/// ends within a text of `text_len` bytes.
pub open spec fn fits_at(nodes: Seq<Node>, offset: usize, text_len: nat) -> bool {
    forall|i: int|
        0 <= i < nodes.len() ==> (#[trigger] nodes[i]).word_info is Some && offset
            + nodes[i].word_info->Some_0.head_word_length <= text_len
}

impl Node {
    /// A node without a range yet, as a plugin produces it.
    pub fn new_oov(left_id: u16, right_id: u16, cost: i16, word_info: WordInfo) -> (r: Node)
        ensures
            r == (Node { begin: 0, end: 0, left_id, right_id, cost, word_info: Some(word_info) }),
    {
        Node { begin: 0, end: 0, left_id, right_id, cost, word_info: Some(word_info) }
    }

    /// Sets the byte range of the node.
    pub fn set_range(&mut self, begin: usize, end: usize)
        ensures
            *final(self) == (Node { begin, end, ..*old(self) }),
    {
        self.begin = begin;
        self.end = end;
    }
}

} // verus!
