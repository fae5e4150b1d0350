//! The remote-signing channel: pre-authorization answers without asking,
//! everything else waits for the user.

use coinstr_sdk::crypto::{connect_request_json, generate_shared_key, nip04_encrypt, sign_event};
use coinstr_sdk::engine::Coinstr;
use coinstr_sdk::event::{Event, Tag};
use coinstr_sdk::ids::{KeyPair, Network, NOSTR_CONNECT_KIND};

const NOW: u64 = 1_700_000_000;

fn engine(kp: &KeyPair) -> Coinstr {
    Coinstr::new(Network::Testnet, kp.secret).unwrap()
}

fn session_for(app: &KeyPair) -> coinstr_sdk::types::ConnectSession {
    coinstr_sdk::types::ConnectSession {
        app_public_key: app.public,
        relay_url: String::from("wss://relay.example"),
        app_name: String::from("app"),
        created_at: NOW,
    }
}

/// A signing-side request event from the app to the user.
fn request_event(app: &KeyPair, user: &KeyPair, raw: &String, at: u64) -> Event {
    let ct = nip04_encrypt(app, &user.public, raw).unwrap();
    let tags = vec![Tag::PubKey(user.public)];
    sign_event(app, NOSTR_CONNECT_KIND, &tags, &ct, at).unwrap()
}

#[test]
fn pre_authorized_request_is_answered_not_stored() {
    let user = generate_shared_key();
    let app = generate_shared_key();
    let mut u = engine(&user);
    u.new_nostr_connect_session(session_for(&app), NOW).unwrap();
    u.take_outbox();
    u.auto_approve_nostr_connect_requests(app.public, 60, NOW);

    // Within the window: auto-answered, nothing stored.
    let raw = String::from("{\"id\":\"7\",\"method\":\"ping\",\"params\":[]}");
    let ev = request_event(&app, &user, &raw, NOW + 30);
    u.handle_event(ev, NOW + 30).unwrap();
    assert_eq!(u.take_outbox().len(), 1);
    assert_eq!(u.get_nostr_connect_requests(false).len(), 0);

    // After the window: stored unanswered, no response sent.
    let raw = String::from("{\"id\":\"8\",\"method\":\"ping\",\"params\":[]}");
    let ev = request_event(&app, &user, &raw, NOW + 61);
    u.handle_event(ev, NOW + 61).unwrap();
    assert_eq!(u.take_outbox().len(), 0);
    let pending = u.get_nostr_connect_requests(false);
    assert_eq!(pending.len(), 1);
    assert!(!pending[0].1.approved);
}

#[test]
fn get_public_key_is_always_answered() {
    let user = generate_shared_key();
    let app = generate_shared_key();
    let mut u = engine(&user);
    u.new_nostr_connect_session(session_for(&app), NOW).unwrap();
    u.take_outbox();
    let raw = String::from("{\"id\":\"1\",\"method\":\"get_public_key\",\"params\":[]}");
    let ev = request_event(&app, &user, &raw, NOW + 1);
    u.handle_event(ev, NOW + 1).unwrap();
    let out = u.take_outbox();
    assert_eq!(out.len(), 1);
    assert_eq!(out[0].kind, NOSTR_CONNECT_KIND);
    assert_eq!(u.get_nostr_connect_requests(false).len(), 0);
}

#[test]
fn stored_request_is_approved_once() {
    let user = generate_shared_key();
    let app = generate_shared_key();
    let mut u = engine(&user);
    u.new_nostr_connect_session(session_for(&app), NOW).unwrap();
    u.take_outbox();
    let raw = String::from("{\"id\":\"9\",\"method\":\"ping\",\"params\":[]}");
    let ev = request_event(&app, &user, &raw, NOW + 1);
    let request_id = ev.id;
    u.handle_event(ev, NOW + 1).unwrap();
    u.approve_nostr_connect_request(request_id, NOW + 2).unwrap();
    assert_eq!(u.take_outbox().len(), 1);
    let again = u.approve_nostr_connect_request(request_id, NOW + 3);
    assert!(matches!(
        again,
        Err(coinstr_sdk::types::Error::NostrConnectRequestAlreadyApproved)
    ));
}

#[test]
fn unknown_app_traffic_is_ignored() {
    let user = generate_shared_key();
    let app = generate_shared_key();
    let mut u = engine(&user);
    // No session: the event changes nothing.
    let raw = connect_request_json(&app);
    let ev = request_event(&app, &user, &raw, NOW);
    u.handle_event(ev, NOW).unwrap();
    assert_eq!(u.take_outbox().len(), 0);
    assert_eq!(u.get_nostr_connect_requests(false).len(), 0);
}

#[test]
fn disconnect_removes_session() {
    let user = generate_shared_key();
    let app = generate_shared_key();
    let mut u = engine(&user);
    u.new_nostr_connect_session(session_for(&app), NOW).unwrap();
    assert_eq!(u.get_nostr_connect_sessions().len(), 1);
    u.disconnect_nostr_connect_session(app.public).unwrap();
    assert_eq!(u.get_nostr_connect_sessions().len(), 0);
    let again = u.disconnect_nostr_connect_session(app.public);
    assert!(matches!(
        again,
        Err(coinstr_sdk::types::Error::ConnectSessionNotFound)
    ));
}
