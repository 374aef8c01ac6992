use p2p_chain_chat::codec::{block, canonical_form, hash, sentinel_text, Block};
use p2p_chain_chat::command::{interpret, looks_like_peer_id, Reaction};
use p2p_chain_chat::log::{push, render, ChainError, ConversationLog};
use p2p_chain_chat::router::{
    is_discovered, Envelope, RouteOutcome, SelectError, SendError, SessionRouter,
};

const SPACES: &str = "                                                                ";
const PEER_A: &str = "12D3KooWAbCdEfGhJkLmNpQrStUvWxYz1234567890AbCdEfGhJk";
const PEER_B: &str = "12D3KooWZyXwVuTsRqPnMkJhGfEdCbA0987654321ZyXwVuTsRqP";

fn s(t: &str) -> String {
    t.to_string()
}

fn blk(incoming: bool, previous: &str, text: &str) -> Block {
    Block { incoming, previous: s(previous), text: s(text) }
}

#[test]
fn peer_ids_have_peer_id_length() {
    assert_eq!(PEER_A.len(), 52);
    assert_eq!(PEER_B.len(), 52);
    assert!(looks_like_peer_id(&s(PEER_A)));
    assert!(!looks_like_peer_id(&s("hello")));
    assert!(!looks_like_peer_id(&s(&PEER_A[1..])));
}

#[test]
fn sentinel_is_sixty_four_spaces() {
    assert_eq!(sentinel_text(), SPACES);
}

#[test]
fn canonical_form_is_compact_json_of_previous_and_text() {
    let b = blk(true, "p", "say \"x\"");
    assert_eq!(canonical_form(&b), "{\"previous\":\"p\",\"text\":\"say \\\"x\\\"\"}");
}

#[test]
fn hash_of_first_block_is_sha256_hex() {
    let b = blk(false, SPACES, "hi");
    assert_eq!(hash(&b), "e7782430e8f8df02f8c867d10a544c14fcad402e8663274c5853d588c97c4964");
}

#[test]
fn hash_of_second_block_is_sha256_hex() {
    let b = blk(false, "e7782430e8f8df02f8c867d10a544c14fcad402e8663274c5853d588c97c4964", "there");
    assert_eq!(hash(&b), "a0ddb311a191eb280a6725501140179afd45772bbc58774075ffcb8697a0c26a");
}

#[test]
fn hash_excludes_display_flag() {
    for (p, t) in [(SPACES, "hi"), ("abc", ""), ("", "x y z")] {
        assert_eq!(hash(&blk(true, p, t)), hash(&blk(false, p, t)));
    }
}

#[test]
fn hash_depends_on_previous_and_text() {
    assert_ne!(hash(&blk(false, "a", "b")), hash(&blk(false, "a", "c")));
    assert_ne!(hash(&blk(false, "a", "b")), hash(&blk(false, "x", "b")));
}

#[test]
fn new_block_on_empty_chain_uses_sentinel() {
    let b = block(&Vec::new(), &s("hi"));
    assert!(!b.incoming);
    assert_eq!(b.previous, SPACES);
    assert_eq!(b.text, "hi");
}

#[test]
fn new_block_links_to_last_block() {
    let chain = vec![blk(false, SPACES, "hi"), blk(true, "q", "there")];
    let b = block(&chain, &s("next"));
    assert_eq!(b.previous, hash(&chain[1]));
    assert_eq!(b.text, "next");
}

#[test]
fn chain_scenario_hi_there_garbage() {
    let mut log = ConversationLog::new(&s(PEER_A));
    let first = blk(false, SPACES, "hi");
    assert!(log.append(&first).is_ok());
    assert_eq!(log.len(), 1);
    let second = blk(false, &hash(&first), "there");
    assert!(log.append(&second).is_ok());
    assert_eq!(log.len(), 2);
    let third = blk(false, "garbage", "again");
    match log.append(&third) {
        Err(ChainError::ChainBroken { rejected_text }) => assert_eq!(rejected_text, "again"),
        Ok(()) => panic!("a broken link was accepted"),
    }
    assert_eq!(log.len(), 2);
}

#[test]
fn chain_integrity_over_many_appends() {
    let mut log = ConversationLog::new(&s(PEER_A));
    for i in 0..20 {
        let b = log.new_block(&format!("message {}", i));
        assert!(log.append(&b).is_ok());
    }
    let blocks = log.blocks();
    assert_eq!(blocks.len(), 20);
    assert_eq!(blocks[0].previous, SPACES);
    for i in 1..blocks.len() {
        assert_eq!(blocks[i].previous, hash(&blocks[i - 1]));
    }
}

#[test]
fn tamper_rejected_on_one_block_log() {
    let mut chain = vec![blk(false, SPACES, "b0")];
    let bad = blk(false, SPACES, "b1");
    assert!(push(&bad, &mut chain).is_err());
    assert_eq!(chain.len(), 1);
    let good = blk(true, &hash(&chain[0]), "b1");
    assert!(push(&good, &mut chain).is_ok());
    assert_eq!(chain.len(), 2);
}

#[test]
fn empty_log_accepts_any_first_block() {
    let mut chain = Vec::new();
    assert!(push(&blk(true, "anything", "first"), &mut chain).is_ok());
    assert_eq!(chain.len(), 1);
}

#[test]
fn render_is_idempotent_and_in_order() {
    let chain = vec![blk(false, SPACES, "hi"), blk(true, "x", "there")];
    let a = render(&chain);
    let b = render(&chain);
    assert_eq!(a, b);
    assert_eq!(a, vec![(false, s("hi")), (true, s("there"))]);
    assert!(render(&Vec::new()).is_empty());
}

#[test]
fn routing_creates_log_once() {
    let mut r = SessionRouter::new(&s(PEER_B));
    let first = Envelope { block: blk(true, SPACES, "one"), receiver: s("") };
    let second = Envelope { block: blk(true, &hash(&first.block), "two"), receiver: s(PEER_B) };
    assert!(matches!(r.route_inbound(&s(PEER_A), &first), RouteOutcome::Delivered { result: Ok(()), from_active: false }));
    assert!(matches!(r.route_inbound(&s(PEER_A), &second), RouteOutcome::Delivered { result: Ok(()), .. }));
    assert_eq!(r.logs().len(), 1);
    assert_eq!(r.logs()[0].interlocutor(), PEER_A);
    assert_eq!(r.logs()[0].len(), 2);
}

#[test]
fn routing_drops_envelope_for_other_node() {
    let mut r = SessionRouter::new(&s(PEER_B));
    let env = Envelope { block: blk(true, SPACES, "one"), receiver: s("someone else") };
    assert!(matches!(r.route_inbound(&s(PEER_A), &env), RouteOutcome::NotForUs));
    assert_eq!(r.logs().len(), 0);
}

#[test]
fn routing_reports_broken_link_and_foreground() {
    let mut r = SessionRouter::new(&s(PEER_B));
    assert!(r.select_active(&s(PEER_A), &vec![s(PEER_A)]).is_ok());
    let first = Envelope { block: blk(true, SPACES, "one"), receiver: s("") };
    assert!(matches!(r.route_inbound(&s(PEER_A), &first), RouteOutcome::Delivered { result: Ok(()), from_active: true }));
    let bad = Envelope { block: blk(true, "garbage", "two"), receiver: s("") };
    match r.route_inbound(&s(PEER_A), &bad) {
        RouteOutcome::Delivered { result: Err(ChainError::ChainBroken { rejected_text }), from_active } => {
            assert_eq!(rejected_text, "two");
            assert!(from_active);
        }
        _ => panic!("expected a broken link"),
    }
    assert_eq!(r.logs()[0].len(), 1);
}

#[test]
fn select_unknown_peer_fails() {
    let mut r = SessionRouter::new(&s(PEER_B));
    assert_eq!(r.select_active(&s("peerA"), &vec![s(PEER_A)]), Err(SelectError::UnknownPeer));
    assert_eq!(r.active(), "");
    assert_eq!(r.logs().len(), 0);
}

#[test]
fn select_known_peer_renders_its_log() {
    let mut r = SessionRouter::new(&s(PEER_B));
    let env = Envelope { block: blk(true, SPACES, "hello"), receiver: s("") };
    let _ = r.route_inbound(&s(PEER_A), &env);
    let lines = r.select_active(&s(PEER_A), &vec![s("other"), s(PEER_A)]).unwrap();
    assert_eq!(lines, vec![(true, s("hello"))]);
    assert_eq!(r.active(), PEER_A);
    assert_eq!(r.logs().len(), 1);
}

#[test]
fn send_without_active_peer_fails() {
    let mut r = SessionRouter::new(&s(PEER_B));
    let env = Envelope { block: blk(true, SPACES, "hello"), receiver: s("") };
    let _ = r.route_inbound(&s(PEER_A), &env);
    assert!(matches!(r.send_to_active(&s("hello")), Err(SendError::NoActivePeer)));
    assert_eq!(r.logs().len(), 1);
    assert_eq!(r.logs()[0].len(), 1);
}

#[test]
fn send_to_active_appends_and_addresses_peer() {
    let mut r = SessionRouter::new(&s(PEER_B));
    r.select_active(&s(PEER_A), &vec![s(PEER_A)]).unwrap();
    let env = r.send_to_active(&s("hello")).unwrap();
    assert_eq!(env.receiver, PEER_A);
    assert_eq!(env.block.previous, SPACES);
    assert_eq!(env.block.text, "hello");
    assert!(!env.block.incoming);
    let env2 = r.send_to_active(&s("again")).unwrap();
    assert_eq!(env2.block.previous, hash(&env.block));
    let blocks = r.logs()[0].blocks();
    assert_eq!(blocks.len(), 2);
    assert!(blocks[0].incoming);
    assert_eq!(blocks[1].text, "again");
}

#[test]
fn is_discovered_checks_membership() {
    let d = vec![s("a"), s("b")];
    assert!(is_discovered(&d, &s("b")));
    assert!(!is_discovered(&d, &s("c")));
    assert!(!is_discovered(&Vec::new(), &s("a")));
}

#[test]
fn interpret_exit_and_size() {
    let mut r = SessionRouter::new(&s(PEER_B));
    let d = vec![s(PEER_A), s("x")];
    assert!(matches!(interpret(&mut r, &s("exit"), &d), Reaction::Exit));
    assert!(matches!(interpret(&mut r, &s("size"), &d), Reaction::ShowSize(2)));
    assert_eq!(r.logs().len(), 0);
}

#[test]
fn interpret_selects_then_sends() {
    let mut r = SessionRouter::new(&s(PEER_B));
    let d = vec![s(PEER_A)];
    assert!(matches!(interpret(&mut r, &s("hi"), &d), Reaction::Nothing));
    assert!(matches!(interpret(&mut r, &s(PEER_A), &d), Reaction::Selected(ref l) if l.is_empty()));
    assert_eq!(r.active(), PEER_A);
    match interpret(&mut r, &s("hi"), &d) {
        Reaction::Publish(env) => {
            assert_eq!(env.receiver, PEER_A);
            assert_eq!(env.block.text, "hi");
        }
        _ => panic!("expected an envelope"),
    }
}

#[test]
fn interpret_unknown_peer_id_is_free_text() {
    let mut r = SessionRouter::new(&s(PEER_B));
    r.select_active(&s(PEER_A), &vec![s(PEER_A)]).unwrap();
    match interpret(&mut r, &s(PEER_B), &vec![s(PEER_A)]) {
        Reaction::Publish(env) => assert_eq!(env.block.text, PEER_B),
        _ => panic!("expected the token to be sent as text"),
    }
    assert_eq!(r.active(), PEER_A);
}
