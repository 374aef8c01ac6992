//! One conversation log per peer, inbound routing and the active peer.
use vstd::prelude::*;
use crate::codec::{next_block, Block, BlockView};
use crate::log::{accepts, appended, line_views, rendered, ChainError, ConversationLog, LogView};

verus! {

/// The unit sent over the broadcast channel: a block and its intended receiver.
#[derive(Clone, Debug)]
pub struct Envelope {
    pub block: Block,
    /// Empty means "anyone listening".
    pub receiver: String,
}

/// What became of an inbound envelope.
#[derive(Debug)]
pub enum RouteOutcome {
    /// Addressed to another peer: dropped, nothing changed.
    NotForUs,
    /// Handed to the sender's log; `from_active` tells output of the
    /// foreground conversation from that of a background peer.
    Delivered { result: Result<(), ChainError>, from_active: bool },
}

/// Why a peer could not be made active.
#[derive(Clone, Copy, Debug, PartialEq, Eq)]
pub enum SelectError {
    /// The peer is not among the discovered peers.
    UnknownPeer,
}

/// Why a text could not be sent.
#[derive(Clone, Copy, Debug, PartialEq, Eq)]
pub enum SendError {
    /// No peer has been made active.
    NoActivePeer,
}

/// The session: this node's identity, the active peer (empty for none) and
/// one log per interlocutor.
pub struct SessionRouter {
    me: String,
    active: String,
    logs: Vec<ConversationLog>,
}

/// What a session holds, as mathematical values.
pub ghost struct RouterView {
    pub me: Seq<char>,
    pub active: Seq<char>,
    pub logs: Seq<LogView>,
}

/// The views of a sequence of logs.
pub open spec fn log_views(logs: Seq<ConversationLog>) -> Seq<LogView> {
    logs.map_values(|l: ConversationLog| l@)
}

/// Whether a log with interlocutor `id` exists.
pub open spec fn has_log(logs: Seq<LogView>, id: Seq<char>) -> bool {
    exists|i: int| 0 <= i < logs.len() && (#[trigger] logs[i]).interlocutor == id
}

/// No two logs share an interlocutor.
pub open spec fn keys_unique(logs: Seq<LogView>) -> bool {
    forall|i: int, j: int|
        0 <= i < logs.len() && 0 <= j < logs.len() && i != j ==> (#[trigger] logs[i]).interlocutor
            != (#[trigger] logs[j]).interlocutor
}

/// The blocks of the log with interlocutor `id`, or none if there is no such log.
pub open spec fn blocks_of(logs: Seq<LogView>, id: Seq<char>) -> Seq<BlockView> {
    if has_log(logs, id) {
        logs[choose|i: int| 0 <= i < logs.len() && (#[trigger] logs[i]).interlocutor == id].blocks
    } else {
        Seq::empty()
    }
}

/// The logs after an attempt to append `b` to the log of `id`.
pub open spec fn with_appended(logs: Seq<LogView>, id: Seq<char>, b: BlockView) -> Seq<LogView> {
    logs.map_values(
        |l: LogView|
            if l.interlocutor == id {
                LogView { interlocutor: l.interlocutor, blocks: appended(l.blocks, b) }
            } else {
                l
            },
    )
}

/// The logs with one for `id`, created empty if it was missing.
pub open spec fn with_log(logs: Seq<LogView>, id: Seq<char>) -> Seq<LogView> {
    if has_log(logs, id) {
        logs
    } else {
        logs.push(LogView { interlocutor: id, blocks: Seq::empty() })
    }
}

/// The logs after `b` came in from `sender`: appended to the sender's log,
/// which is created first if it was missing.
pub open spec fn routed(logs: Seq<LogView>, sender: Seq<char>, b: BlockView) -> Seq<LogView> {
    with_appended(with_log(logs, sender), sender, b)
}

/// An envelope with `receiver` is for the node `me`.
pub open spec fn addressed_to(receiver: Seq<char>, me: Seq<char>) -> bool {
    receiver.len() == 0 || receiver == me
}

/// Whether `id` is among the discovered peers.
pub open spec fn discoverable(discovered: Seq<String>, id: Seq<char>) -> bool {
    exists|i: int| 0 <= i < discovered.len() && (#[trigger] discovered[i])@ == id
}

/// A block marked as shown locally.
pub open spec fn relabelled(b: BlockView) -> BlockView {
    BlockView { incoming: true, previous: b.previous, text: b.text }
}

impl View for SessionRouter {
    type V = RouterView;

    closed spec fn view(&self) -> RouterView {
        RouterView { me: self.me@, active: self.active@, logs: log_views(self.logs@) }
    }
}

/// The log of `id` after `with_log`, at index `i`, holds the blocks it had.
proof fn lemma_found(logs: Seq<LogView>, id: Seq<char>, i: int)
    requires
        keys_unique(logs),
        0 <= i < logs.len(),
        logs[i].interlocutor == id,
    ensures
        has_log(logs, id),
        blocks_of(logs, id) == logs[i].blocks,
{
    assert(logs[i].interlocutor == id);
}

/// Replacing the log at `i` of `id` by one with the blocks appended.
proof fn lemma_update_is_append(logs: Seq<LogView>, id: Seq<char>, i: int, b: BlockView)
    requires
        keys_unique(logs),
        0 <= i < logs.len(),
        logs[i].interlocutor == id,
    ensures
        logs.update(i, LogView { interlocutor: id, blocks: appended(logs[i].blocks, b) })
            =~= with_appended(logs, id, b),
{
    assert forall|j: int| 0 <= j < logs.len() && j != i implies logs[j].interlocutor != id by {
        assert(logs[i].interlocutor != logs[j].interlocutor);
    }
}

/// Whether `id` is among the discovered peers.
pub fn is_discovered(discovered: &Vec<String>, id: &String) -> (r: bool)
    ensures
        r == discoverable(discovered@, id@),
{
    let mut i: usize = 0;
    while i < discovered.len()
        invariant
            i <= discovered@.len(),
            forall|j: int| 0 <= j < i ==> (#[trigger] discovered@[j])@ != id@,
        decreases discovered@.len() - i,
    {
        if discovered[i] == *id {
            return true;
        }
        i = i + 1;
    }
    false
}

impl SessionRouter {
    /// The session's invariant: every log is linked, one log per interlocutor,
    /// and an active peer has a log.
    pub open spec fn wf(&self) -> bool {
        &&& forall|i: int| 0 <= i < self.stored_logs().len() ==> (#[trigger] self.stored_logs()[i]).wf()
        &&& keys_unique(self@.logs)
        &&& (self@.active.len() > 0 ==> has_log(self@.logs, self@.active))
    }

    /// The logs as stored.
    pub closed spec fn stored_logs(&self) -> Seq<ConversationLog> {
        self.logs@
    }

    /// An empty session for the node `me`, with no active peer.
    pub fn new(me: &String) -> (r: SessionRouter)
        ensures
            r.wf(),
            r@.me == me@,
            r@.active.len() == 0,
            r@.logs.len() == 0,
    {
        let r = SessionRouter { me: me.clone(), active: String::new(), logs: Vec::new() };
        assert(r@.logs =~= Seq::<LogView>::empty());
        r
    }

    /// This node's identity.
    pub fn me(&self) -> (r: &String)
        ensures
            r@ == self@.me,
    {
        &self.me
    }

    /// The active peer, empty when there is none.
    pub fn active(&self) -> (r: &String)
        ensures
            r@ == self@.active,
    {
        &self.active
    }

    /// The logs, in order of creation.
    pub fn logs(&self) -> (r: &Vec<ConversationLog>)
        ensures
            log_views(r@) == self@.logs,
    {
        &self.logs
    }

    /// The index of the log with interlocutor `id`, if there is one.
    pub fn find(&self, id: &String) -> (r: Option<usize>)
        ensures
            r is None <==> !has_log(self@.logs, id@),
            r matches Some(i) ==> i < self@.logs.len() && self@.logs[i as int].interlocutor == id@,
    {
        let mut i: usize = 0;
        while i < self.logs.len()
            invariant
                i <= self.logs@.len(),
                forall|j: int| 0 <= j < i ==> (#[trigger] self@.logs[j]).interlocutor != id@,
            decreases self.logs@.len() - i,
        {
            if *self.logs[i].interlocutor() == *id {
                assert(self@.logs[i as int] == self.logs@[i as int]@);
                return Some(i);
            }
            i = i + 1;
        }
        None
    }

    /// Appends `block` to the log at index `i`.
    fn append_at(&mut self, i: usize, block: &Block) -> (r: Result<(), ChainError>)
        requires
            old(self).wf(),
            i < old(self)@.logs.len(),
        ensures
            final(self).wf(),
            final(self)@.me == old(self)@.me,
            final(self)@.active == old(self)@.active,
            final(self)@.logs == with_appended(
                old(self)@.logs,
                old(self)@.logs[i as int].interlocutor,
                block@,
            ),
            r is Ok <==> accepts(old(self)@.logs[i as int].blocks, block@),
            r matches Err(ChainError::ChainBroken { rejected_text }) ==> rejected_text@
                == block.text@,
    {
        let ghost before = self@.logs;
        let ghost id = before[i as int].interlocutor;
        let mut log = ConversationLog::new(&self.me);
        self.logs.set_and_swap(i, &mut log);
        assert(log == old(self).stored_logs()[i as int]);
        assert(log@ == before[i as int]);
        let r = log.append(block);
        self.logs.set_and_swap(i, &mut log);
        proof {
            lemma_update_is_append(before, id, i as int, block@);
            assert(self@.logs =~= before.update(
                i as int,
                LogView { interlocutor: id, blocks: appended(before[i as int].blocks, block@) },
            ));
            assert forall|j: int| 0 <= j < self.stored_logs().len() implies (#[trigger] self.stored_logs()[j]).wf() by {
                if j != i {
                    assert(self.stored_logs()[j] == old(self).stored_logs()[j]);
                }
            }
            assert forall|j: int| 0 <= j < self@.logs.len() implies (#[trigger] self@.logs[j]).interlocutor
                == before[j].interlocutor by {
            }
            if self@.active.len() > 0 {
                let k = choose|k: int| 0 <= k < before.len() && (#[trigger] before[k]).interlocutor
                    == self@.active;
                assert(self@.logs[k].interlocutor == self@.active);
            }
        }
        r
    }

    /// Adds an empty log for `id` if there is none; returns its index.
    fn ensure_log(&mut self, id: &String) -> (r: usize)
        requires
            old(self).wf(),
        ensures
            final(self).wf(),
            final(self)@.me == old(self)@.me,
            final(self)@.active == old(self)@.active,
            final(self)@.logs == with_log(old(self)@.logs, id@),
            r < final(self)@.logs.len(),
            final(self)@.logs[r as int].interlocutor == id@,
            final(self)@.logs[r as int].blocks == blocks_of(old(self)@.logs, id@),
    {
        match self.find(id) {
            Some(i) => {
                proof {
                    lemma_found(self@.logs, id@, i as int);
                }
                i
            },
            None => {
                let ghost before = self@.logs;
                let log = ConversationLog::new(id);
                self.logs.push(log);
                proof {
                    assert(self@.logs =~= before.push(
                        LogView { interlocutor: id@, blocks: Seq::empty() },
                    ));
                    assert forall|j: int| 0 <= j < self.stored_logs().len() implies (#[trigger] self.stored_logs()[j]).wf() by {
                        if j < before.len() {
                            assert(self.stored_logs()[j] == old(self).stored_logs()[j]);
                        }
                    }
                    assert forall|a: int, b: int|
                        0 <= a < self@.logs.len() && 0 <= b < self@.logs.len() && a != b implies (#[trigger] self@.logs[a]).interlocutor
                        != (#[trigger] self@.logs[b]).interlocutor by {
                        if a < before.len() && b < before.len() {
                            assert(before[a].interlocutor != before[b].interlocutor);
                        } else if a < before.len() {
                            assert(before[a].interlocutor != id@);
                        } else if b < before.len() {
                            assert(before[b].interlocutor != id@);
                        }
                    }
                    if self@.active.len() > 0 {
                        let k = choose|k: int| 0 <= k < before.len() && (#[trigger] before[k]).interlocutor
                            == self@.active;
                        assert(self@.logs[k].interlocutor == self@.active);
                    }
                }
                self.logs.len() - 1
            },
        }
    }

    /// Routes an envelope that came in from `sender`: one not addressed to
    /// this node is dropped; else its block goes to the sender's log, which is
    /// created first if missing.
    pub fn route_inbound(&mut self, sender: &String, envelope: &Envelope) -> (r: RouteOutcome)
        requires
            old(self).wf(),
        ensures
            final(self).wf(),
            final(self)@.me == old(self)@.me,
            final(self)@.active == old(self)@.active,
            !addressed_to(envelope.receiver@, old(self)@.me) ==> r is NotForUs && final(self)@
                == old(self)@,
            addressed_to(envelope.receiver@, old(self)@.me) ==> final(self)@.logs == routed(
                old(self)@.logs,
                sender@,
                envelope.block@,
            ),
            addressed_to(envelope.receiver@, old(self)@.me) ==> (r matches RouteOutcome::Delivered {
                result,
                from_active,
            } && from_active == (sender@ == old(self)@.active) && (result is Ok <==> accepts(
                blocks_of(old(self)@.logs, sender@),
                envelope.block@,
            )) && (result matches Err(ChainError::ChainBroken { rejected_text })
                ==> rejected_text@ == envelope.block.text@)),
    {
        if !(envelope.receiver.as_str().is_empty() || envelope.receiver == self.me) {
            return RouteOutcome::NotForUs;
        }
        let i = self.ensure_log(sender);
        let result = self.append_at(i, &envelope.block);
        let from_active = *sender == self.active;
        RouteOutcome::Delivered { result, from_active }
    }

    /// Makes `candidate` the active peer if it is among the discovered peers,
    /// creating an empty log for it if missing, and returns its log rendered.
    pub fn select_active(&mut self, candidate: &String, discovered: &Vec<String>) -> (r: Result<
        Vec<(bool, String)>,
        SelectError,
    >)
        requires
            old(self).wf(),
        ensures
            final(self).wf(),
            final(self)@.me == old(self)@.me,
            r is Ok <==> discoverable(discovered@, candidate@),
            r is Err ==> (r matches Err(SelectError::UnknownPeer)) && final(self)@ == old(self)@,
            r matches Ok(lines) ==> final(self)@.active == candidate@ && final(self)@.logs
                == with_log(old(self)@.logs, candidate@) && line_views(lines@) == rendered(
                blocks_of(old(self)@.logs, candidate@),
            ),
    {
        if !is_discovered(discovered, candidate) {
            return Err(SelectError::UnknownPeer);
        }
        let i = self.ensure_log(candidate);
        let lines = self.logs[i].render();
        let ghost stored = self.stored_logs();
        self.active = candidate.clone();
        assert(self.stored_logs() == stored);
        assert(self@.logs[i as int].interlocutor == self@.active);
        Ok(lines)
    }

    /// Builds a block for `text` on the active peer's log, appends it marked
    /// as shown locally, and returns the envelope to send to that peer.
    pub fn send_to_active(&mut self, text: &String) -> (r: Result<Envelope, SendError>)
        requires
            old(self).wf(),
        ensures
            final(self).wf(),
            final(self)@.me == old(self)@.me,
            final(self)@.active == old(self)@.active,
            r is Err <==> old(self)@.active.len() == 0,
            r is Err ==> (r matches Err(SendError::NoActivePeer)) && final(self)@ == old(self)@,
            r matches Ok(env) ==> env.receiver@ == old(self)@.active && env.block@ == next_block(
                blocks_of(old(self)@.logs, old(self)@.active),
                text@,
            ) && final(self)@.logs == with_appended(
                old(self)@.logs,
                old(self)@.active,
                relabelled(env.block@),
            ) && blocks_of(final(self)@.logs, old(self)@.active) == blocks_of(
                old(self)@.logs,
                old(self)@.active,
            ).push(relabelled(env.block@)),
    {
        if self.active.as_str().is_empty() {
            return Err(SendError::NoActivePeer);
        }
        let id = self.active.clone();
        let i = self.ensure_log(&id);
        assert(self@ == old(self)@);
        let block = self.logs[i].new_block(text);
        let mut local = block.duplicate();
        local.incoming = true;
        let ghost mid = self@.logs;
        let _ = self.append_at(i, &local);
        proof {
            let after = self@.logs;
            assert(after[i as int].interlocutor == id@);
            assert(after[i as int].blocks == mid[i as int].blocks.push(local@));
            lemma_found(after, id@, i as int);
        }
        Ok(Envelope { block, receiver: id })
    }
}

} // verus!
