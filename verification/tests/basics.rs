use pq_chat::commands::{err_to_string, shown_identity, shown_server, IdentityView};
use pq_chat::error::ChatError;
use pq_chat::identity::{identity_dir, new_unregistered, Identity};
use pq_chat::ids::{short_id, NIL};
use pq_chat::text::{decimal, followed_by, join};

const ID: u128 = 0x0123456789abcdef_fedcba9876543210;

fn sample() -> Identity {
    Identity {
        user_id: ID,
        display_name: "Alice".to_string(),
        kem_pk_b64: "kem-public".to_string(),
        kem_sk_b64: "kem-secret".to_string(),
        sig_pk_b64: "sig-public".to_string(),
        sig_sk_b64: "sig-secret".to_string(),
    }
}

#[test]
fn numbers_are_written_in_decimal() {
    for n in [0, 7, 9, 10, 42, 99, 100, 1120, 65535, usize::MAX] {
        assert_eq!(decimal(n), n.to_string());
    }
}

#[test]
fn texts_are_joined() {
    assert_eq!(join(&vec![], ", "), "");
    assert_eq!(join(&vec!["a".to_string()], ", "), "a");
    let parts = vec!["a".to_string(), "".to_string(), "c".to_string()];
    assert_eq!(join(&parts, ", "), "a, , c");
    assert_eq!(followed_by("x — ", "y"), "x — y");
}

#[test]
fn errors_show_their_messages() {
    let error = ChatError::new("root".to_string());
    assert_eq!((error.summary(), error.full_text()), ("root".to_string(), "root".to_string()));
    let error = error.context("middle".to_string()).context("outer".to_string());
    assert_eq!(error.summary(), "outer");
    assert_eq!(error.full_text(), "outer: middle: root");
    assert_eq!(err_to_string(error), "outer: middle: root");
}

#[test]
fn identifiers_are_written_with_hyphens() {
    assert_eq!(
        shown_server(Ok(ID)),
        Ok("01234567-89ab-cdef-fedc-ba9876543210".to_string())
    );
    assert_eq!(shown_server(Ok(NIL)), Ok("00000000-0000-0000-0000-000000000000".to_string()));
    assert_eq!(
        shown_server(Ok(ID)),
        Ok(uuid::Uuid::from_u128(ID).to_string())
    );
    let failed = ChatError::new("b".to_string()).context("a".to_string());
    assert_eq!(shown_server(Err(failed)), Err("a: b".to_string()));
}

#[test]
fn short_identifiers_have_eight_characters() {
    assert_eq!(short_id(ID), "01234567");
    assert_eq!(short_id(0xffu128), "00000000");
}

#[test]
fn identity_view_shows_public_parts() {
    let expected = IdentityView {
        user_id: "01234567-89ab-cdef-fedc-ba9876543210".to_string(),
        display_name: "Alice".to_string(),
        kem_pk_b64: "kem-public".to_string(),
        sig_pk_b64: "sig-public".to_string(),
    };
    assert_eq!(IdentityView::from(&sample()), expected);
    assert_eq!(shown_identity(Ok(sample())), Ok(expected.clone()));
    let mut other = sample();
    other.kem_sk_b64 = "another".to_string();
    other.sig_sk_b64 = "another".to_string();
    assert_eq!(IdentityView::from(&other), expected);
    assert_eq!(
        shown_identity(Err(ChatError::new("RPC timeout".to_string()))),
        Err("RPC timeout".to_string())
    );
}

#[test]
fn new_identities_hold_fresh_keys() {
    let identity = new_unregistered("Bob".to_string());
    assert_eq!(identity.user_id, NIL);
    assert_eq!(identity.display_name, "Bob");
    assert_eq!(identity.kem_pk().unwrap().len(), 1184);
    assert_eq!(identity.kem_sk().unwrap().len(), 2400);
    assert_eq!(identity.sig_pk().unwrap().len(), 1952);
    assert_eq!(identity.sig_sk().unwrap().len(), 4032);
    assert_ne!(identity.kem_pk_b64, new_unregistered("Bob".to_string()).kem_pk_b64);
}

#[test]
fn malformed_keys_are_reported() {
    let mut identity = sample();
    identity.sig_sk_b64 = "*".to_string();
    assert_eq!(identity.sig_sk().unwrap_err().full_text(), "Invalid symbol 42, offset 0.");
}

#[test]
fn the_chosen_directory_wins() {
    assert_eq!(identity_dir(Some("chosen"), Some("default")).unwrap(), "chosen");
    assert_eq!(identity_dir(Some("chosen"), None).unwrap(), "chosen");
    assert_eq!(identity_dir(None, Some("default")).unwrap(), "default");
    assert_eq!(
        identity_dir::<&str>(None, None).unwrap_err().full_text(),
        "could not resolve app data dir"
    );
}
