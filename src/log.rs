//! The append-only, hash-linked log of one conversation.
use vstd::prelude::*;
use crate::codec::{hash, hash_of, views, Block, BlockView};

verus! {

/// Why a block was refused.
#[derive(Clone, Debug)]
pub enum ChainError {
    /// The block's `previous` is not the hash of the log's last block.
    ChainBroken { rejected_text: String },
}

/// Whether a chain takes a block: an empty one takes any block, another one
/// a block whose `previous` is the hash of its last block.
pub open spec fn accepts(chain: Seq<BlockView>, b: BlockView) -> bool {
    chain.len() == 0 || hash_of(chain.last()) == b.previous
}

/// The chain after an attempt to append a block.
pub open spec fn appended(chain: Seq<BlockView>, b: BlockView) -> Seq<BlockView> {
    if accepts(chain, b) {
        chain.push(b)
    } else {
        chain
    }
}

/// Every block after the first names the hash of its predecessor.
pub open spec fn linked(chain: Seq<BlockView>) -> bool {
    forall|i: int| 0 < i < chain.len() ==> #[trigger] chain[i].previous == hash_of(chain[i - 1])
}

/// What a display of a chain shows: each block's flag and text, in order.
pub open spec fn rendered(chain: Seq<BlockView>) -> Seq<(bool, Seq<char>)> {
    chain.map_values(|b: BlockView| (b.incoming, b.text))
}

/// The views of rendered lines.
pub open spec fn line_views(lines: Seq<(bool, String)>) -> Seq<(bool, Seq<char>)> {
    lines.map_values(|l: (bool, String)| (l.0, l.1@))
}

impl Block {
    /// A copy of the block.
    pub fn duplicate(&self) -> (r: Block)
        ensures
            r@ == self@,
    {
        Block { incoming: self.incoming, previous: self.previous.clone(), text: self.text.clone() }
    }
}

/// Appends `block` to `chain` when the chain accepts it; else leaves the chain
/// as it was and reports the block's text.
pub fn push(block: &Block, chain: &mut Vec<Block>) -> (r: Result<(), ChainError>)
    ensures
        views(final(chain)@) == appended(views(old(chain)@), block@),
        r is Ok <==> accepts(views(old(chain)@), block@),
        r matches Err(ChainError::ChainBroken { rejected_text }) ==> rejected_text@ == block.text@,
{
    let ghost before = views(chain@);
    if chain.len() > 0 {
        let last = hash(&chain[chain.len() - 1]);
        if last == block.previous {
            chain.push(block.duplicate());
            assert(views(chain@) =~= before.push(block@));
            Ok(())
        } else {
            Err(ChainError::ChainBroken { rejected_text: block.text.clone() })
        }
    } else {
        chain.push(block.duplicate());
        assert(views(chain@) =~= before.push(block@));
        Ok(())
    }
}

/// Each block's flag and text, in chain order.
pub fn render(chain: &Vec<Block>) -> (r: Vec<(bool, String)>)
    ensures
        line_views(r@) == rendered(views(chain@)),
{
    let mut r: Vec<(bool, String)> = Vec::new();
    let mut i: usize = 0;
    while i < chain.len()
        invariant
            i <= chain.len(),
            r@.len() == i,
            forall|j: int|
                0 <= j < i ==> (#[trigger] r@[j]).0 == chain@[j].incoming && r@[j].1@
                    == chain@[j].text@,
        decreases chain.len() - i,
    {
        let b = &chain[i];
        r.push((b.incoming, b.text.clone()));
        i = i + 1;
    }
    assert(line_views(r@) =~= rendered(views(chain@)));
    r
}

/// The log of one conversation.
pub struct ConversationLog {
    interlocutor: String,
    chain: Vec<Block>,
}

/// What a log holds, as mathematical values.
pub ghost struct LogView {
    pub interlocutor: Seq<char>,
    pub blocks: Seq<BlockView>,
}

impl View for ConversationLog {
    type V = LogView;

    closed spec fn view(&self) -> LogView {
        LogView { interlocutor: self.interlocutor@, blocks: views(self.chain@) }
    }
}

impl ConversationLog {
    /// The log's invariant: its blocks are linked.
    pub open spec fn wf(&self) -> bool {
        linked(self@.blocks)
    }

    /// An empty log with `interlocutor`.
    pub fn new(interlocutor: &String) -> (r: ConversationLog)
        ensures
            r.wf(),
            r@.interlocutor == interlocutor@,
            r@.blocks == Seq::<BlockView>::empty(),
    {
        let r = ConversationLog { interlocutor: interlocutor.clone(), chain: Vec::new() };
        assert(views(r.chain@) =~= Seq::<BlockView>::empty());
        r
    }

    /// The identity of the peer this log is kept with.
    pub fn interlocutor(&self) -> (r: &String)
        ensures
            r@ == self@.interlocutor,
    {
        &self.interlocutor
    }

    /// The blocks, in chain order.
    pub fn blocks(&self) -> (r: &Vec<Block>)
        ensures
            views(r@) == self@.blocks,
    {
        &self.chain
    }

    /// The number of blocks.
    pub fn len(&self) -> (r: usize)
        ensures
            r == self@.blocks.len(),
    {
        self.chain.len()
    }

    /// A fresh outgoing block for `text`, linked to the last block.
    pub fn new_block(&self, text: &String) -> (r: Block)
        ensures
            r@ == crate::codec::next_block(self@.blocks, text@),
    {
        crate::codec::block(&self.chain, text)
    }

    /// Appends `block` if its `previous` is the hash of the last block (any
    /// block if the log is empty); else the log stays as it was.
    pub fn append(&mut self, block: &Block) -> (r: Result<(), ChainError>)
        requires
            old(self).wf(),
        ensures
            final(self).wf(),
            final(self)@.interlocutor == old(self)@.interlocutor,
            final(self)@.blocks == appended(old(self)@.blocks, block@),
            r is Ok <==> accepts(old(self)@.blocks, block@),
            r matches Err(ChainError::ChainBroken { rejected_text }) ==> rejected_text@
                == block.text@,
    {
        let r = push(block, &mut self.chain);
        proof {
            crate::laws::lemma_append_keeps_linked(old(self)@.blocks, block@);
        }
        r
    }

    /// Each block's flag and text, in chain order.
    pub fn render(&self) -> (r: Vec<(bool, String)>)
        ensures
            line_views(r@) == rendered(self@.blocks),
    {
        render(&self.chain)
    }
}

} // verus!
