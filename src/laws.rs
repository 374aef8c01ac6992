//! Properties of the log that hold across calls.
use vstd::prelude::*;
use crate::codec::{hash_of, hex_digit, next_block, sentinel, BlockView};
use crate::log::{accepts, appended, line_views, linked, rendered, LogView};
use crate::router::{has_log, keys_unique, routed, with_appended, with_log};

verus! {

/// Appending to a linked chain, successfully or not, leaves it linked.
pub proof fn lemma_append_keeps_linked(chain: Seq<BlockView>, b: BlockView)
    requires
        linked(chain),
    ensures
        linked(appended(chain, b)),
{
    if accepts(chain, b) {
        let c = chain.push(b);
        assert forall|i: int| 0 < i < c.len() implies #[trigger] c[i].previous == hash_of(
            c[i - 1],
        ) by {
            if i < chain.len() {
                assert(c[i] == chain[i]);
                assert(c[i - 1] == chain[i - 1]);
            }
        }
    }
}

/// A chain always accepts the block that `new_block` builds on it.
pub proof fn lemma_new_block_accepted(chain: Seq<BlockView>, text: Seq<char>)
    ensures
        accepts(chain, next_block(chain, text)),
        appended(chain, next_block(chain, text)) == chain.push(next_block(chain, text)),
{
}

/// The chain that results from building a block for each text with
/// `new_block` and appending it, in order.
pub open spec fn built(texts: Seq<Seq<char>>) -> Seq<BlockView>
    decreases texts.len(),
{
    if texts.len() == 0 {
        Seq::empty()
    } else {
        let c = built(texts.drop_last());
        appended(c, next_block(c, texts.last()))
    }
}

/// Chain integrity: building and appending blocks for any texts in order,
/// every append succeeds (one block per text) and each block after the first
/// names the hash of its predecessor.
pub proof fn lemma_chain_integrity(texts: Seq<Seq<char>>)
    ensures
        built(texts).len() == texts.len(),
        linked(built(texts)),
        forall|k: int|
            0 <= k < texts.len() ==> accepts(
                #[trigger] built(texts.take(k)),
                next_block(built(texts.take(k)), texts[k]),
            ),
    decreases texts.len(),
{
    if texts.len() > 0 {
        let prev = texts.drop_last();
        lemma_chain_integrity(prev);
        lemma_new_block_accepted(built(prev), texts.last());
        lemma_append_keeps_linked(built(prev), next_block(built(prev), texts.last()));
        assert forall|k: int|
            0 <= k < texts.len() implies accepts(
            #[trigger] built(texts.take(k)),
            next_block(built(texts.take(k)), texts[k]),
        ) by {
            lemma_new_block_accepted(built(texts.take(k)), texts[k]);
        }
    }
}

/// Tamper rejection: a one-block chain refuses a block whose `previous` is not
/// the hash of its block, and stays at one block.
pub proof fn lemma_tamper_rejected(chain: Seq<BlockView>, b: BlockView)
    requires
        chain.len() == 1,
        b.previous != hash_of(chain[0]),
    ensures
        !accepts(chain, b),
        appended(chain, b) == chain,
        appended(chain, b).len() == 1,
{
}

/// The hash of a block does not depend on its display flag.
pub proof fn lemma_hash_ignores_incoming(previous: Seq<char>, text: Seq<char>)
    ensures
        hash_of(BlockView { incoming: true, previous, text }) == hash_of(
            BlockView { incoming: false, previous, text },
        ),
{
}

/// Two renderings of the same chain show the same lines.
pub proof fn lemma_render_idempotent(
    chain: Seq<BlockView>,
    first: Seq<(bool, String)>,
    second: Seq<(bool, String)>,
)
    requires
        line_views(first) == rendered(chain),
        line_views(second) == rendered(chain),
    ensures
        line_views(first) == line_views(second),
{
}

/// Appending to a log keeps every log's interlocutor where it was.
proof fn lemma_append_keeps_keys(logs: Seq<LogView>, id: Seq<char>, b: BlockView)
    ensures
        with_appended(logs, id, b).len() == logs.len(),
        forall|i: int|
            0 <= i < logs.len() ==> (#[trigger] with_appended(logs, id, b)[i]).interlocutor
                == logs[i].interlocutor,
{
}

/// Routing creates a log once: two envelopes from a sender that has no log
/// yet leave exactly one new log, the sender's, and still one log per
/// interlocutor.
pub proof fn lemma_routing_creates_once(
    logs: Seq<LogView>,
    sender: Seq<char>,
    first: BlockView,
    second: BlockView,
)
    requires
        keys_unique(logs),
        !has_log(logs, sender),
    ensures
        routed(routed(logs, sender, first), sender, second).len() == logs.len() + 1,
        has_log(routed(routed(logs, sender, first), sender, second), sender),
        keys_unique(routed(routed(logs, sender, first), sender, second)),
{
    let grown = with_log(logs, sender);
    assert(grown == logs.push(LogView { interlocutor: sender, blocks: Seq::empty() }));
    let once = routed(logs, sender, first);
    lemma_append_keeps_keys(grown, sender, first);
    assert(once[logs.len() as int].interlocutor == sender);
    assert(has_log(once, sender));
    assert(with_log(once, sender) == once);
    let twice = routed(once, sender, second);
    lemma_append_keeps_keys(once, sender, second);
    assert(twice[logs.len() as int].interlocutor == sender);
    assert forall|i: int, j: int|
        0 <= i < twice.len() && 0 <= j < twice.len() && i != j implies (#[trigger] twice[i]).interlocutor
        != (#[trigger] twice[j]).interlocutor by {
        assert(twice[i].interlocutor == grown[i].interlocutor);
        assert(twice[j].interlocutor == grown[j].interlocutor);
        if i < logs.len() && j < logs.len() {
            assert(logs[i].interlocutor != logs[j].interlocutor);
        } else if i < logs.len() {
            assert(logs[i].interlocutor != sender);
        } else if j < logs.len() {
            assert(logs[j].interlocutor != sender);
        }
    }
}

/// The sentinel is no digest: a hash is made of hexadecimal digits, never of
/// spaces, so a first block's `previous` never matches a real block's hash.
pub proof fn lemma_sentinel_is_no_digest(b: BlockView)
    ensures
        sentinel() != hash_of(b),
{
    let h = hash_of(b);
    if h.len() == 64 {
        let d = h[0];
        assert(d == hex_digit(leading_nibble(b)));
        assert(sentinel()[0] == ' ');
    }
}

/// The high nibble of the first digest byte of a block.
spec fn leading_nibble(b: BlockView) -> int {
    crate::codec::sha256_of(crate::codec::canonical(b.previous, b.text))[0] as int / 16
}

} // verus!
