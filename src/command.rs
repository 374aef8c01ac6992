//! Classification of a line of interactive input, and what the session does with it.
use vstd::prelude::*;
use vstd::utf8::encode_utf8;
use crate::codec::next_block;
use crate::log::{line_views, rendered};
use crate::router::{
    blocks_of, discoverable, relabelled, with_appended, with_log, Envelope, SessionRouter,
};

verus! {

/// The length in bytes of a textual peer identifier.
pub const PEER_ID_LEN: usize = 52;

/// What the interactive loop is to do after a line.
#[derive(Debug)]
pub enum Reaction {
    /// Leave the loop.
    Exit,
    /// Show this number of discovered peers.
    ShowSize(usize),
    /// A peer was made active: show its log.
    Selected(Vec<(bool, String)>),
    /// Send this envelope on the broadcast channel.
    Publish(Envelope),
    /// Nothing to do.
    Nothing,
}

/// Whether a line has the length of a peer identifier (its UTF-8 length, as
/// held in a `usize`).
pub open spec fn peer_id_like(s: Seq<char>) -> bool {
    encode_utf8(s).len() as usize == PEER_ID_LEN
}

/// Whether a line is one of the control words.
pub open spec fn is_control(s: Seq<char>) -> bool {
    s == "exit"@ || s == "size"@
}

/// Whether a line selects a peer: it has the length of a peer identifier and
/// names a discovered peer.
pub open spec fn selects(s: Seq<char>, discovered: Seq<String>) -> bool {
    !is_control(s) && peer_id_like(s) && discoverable(discovered, s)
}

/// Whether a line is taken as free text.
pub open spec fn is_free_text(s: Seq<char>, discovered: Seq<String>) -> bool {
    !is_control(s) && !selects(s, discovered)
}

/// Whether a line has the length of a peer identifier.
pub fn looks_like_peer_id(line: &String) -> (r: bool)
    ensures
        r == peer_id_like(line@),
{
    line.as_str().len() == PEER_ID_LEN
}

/// Handles one line of input: `exit` leaves, `size` shows the number of
/// discovered peers, a discovered peer identifier makes that peer active, and
/// anything else is sent to the active peer (nothing happens if there is none).
pub fn interpret(router: &mut SessionRouter, line: &String, discovered: &Vec<String>) -> (r:
    Reaction)
    requires
        old(router).wf(),
    ensures
        final(router).wf(),
        final(router)@.me == old(router)@.me,
        line@ == "exit"@ ==> r is Exit && final(router)@ == old(router)@,
        line@ == "size"@ ==> (r matches Reaction::ShowSize(n) && n == discovered@.len())
            && final(router)@ == old(router)@,
        selects(line@, discovered@) ==> (r matches Reaction::Selected(lines) && final(router)@.active
            == line@ && final(router)@.logs == with_log(old(router)@.logs, line@) && line_views(
            lines@,
        ) == rendered(blocks_of(old(router)@.logs, line@))),
        is_free_text(line@, discovered@) && old(router)@.active.len() == 0 ==> r is Nothing
            && final(router)@ == old(router)@,
        is_free_text(line@, discovered@) && old(router)@.active.len() > 0 ==> (r matches Reaction::Publish(
            env,
        ) && env.receiver@ == old(router)@.active && env.block@ == next_block(
            blocks_of(old(router)@.logs, old(router)@.active),
            line@,
        ) && final(router)@.active == old(router)@.active && final(router)@.logs == with_appended(
            old(router)@.logs,
            old(router)@.active,
            relabelled(env.block@),
        )),
{
    proof {
        reveal_strlit("exit");
        reveal_strlit("size");
        assert("exit"@[0] != "size"@[0]);
    }
    if *line == String::from_str("exit") {
        return Reaction::Exit;
    }
    if *line == String::from_str("size") {
        return Reaction::ShowSize(discovered.len());
    }
    if looks_like_peer_id(line) {
        match router.select_active(line, discovered) {
            Ok(lines) => {
                return Reaction::Selected(lines);
            },
            Err(_) => {},
        }
    }
    match router.send_to_active(line) {
        Ok(env) => Reaction::Publish(env),
        Err(_) => Reaction::Nothing,
    }
}

} // verus!
