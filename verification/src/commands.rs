//! What the user interface asks for and is told.
use vstd::prelude::*;
use vstd::std_specs::convert::FromSpecImpl;

use crate::error::ChatError;
use crate::identity::Identity;
use crate::ids::{id_text, uuid_text, ServerId};
use crate::state::{Client, ClientState};
use crate::text::joined;

verus! {

/// The text that the user interface shows for an error: all its messages, the
/// outermost first.
pub fn err_to_string(error: ChatError) -> (text: String)
    ensures
        text@ == joined(error@, ": "@),
{
    error.full_text()
}

/// What the user interface learns of an identity: the identifier, the name and
/// the public keys, but no secret key.
#[derive(Clone, Debug, PartialEq, Eq)]
pub struct IdentityView {
    pub user_id: String,
    pub display_name: String,
    pub kem_pk_b64: String,
    pub sig_pk_b64: String,
}

/// Whether `view` shows `identity`.
pub open spec fn shows(view: IdentityView, identity: Identity) -> bool {
    &&& view.user_id@ == id_text(identity.user_id)
    &&& view.display_name == identity.display_name
    &&& view.kem_pk_b64 == identity.kem_pk_b64
    &&& view.sig_pk_b64 == identity.sig_pk_b64
}

impl FromSpecImpl<&Identity> for IdentityView {
    open spec fn obeys_from_spec() -> bool {
        false
    }

    open spec fn from_spec(identity: &Identity) -> IdentityView {
        arbitrary()
    }
}

impl From<&Identity> for IdentityView {
    fn from(identity: &Identity) -> (view: IdentityView)
        ensures
            shows(view, *identity),
    {
        IdentityView {
            user_id: uuid_text(identity.user_id),
            display_name: identity.display_name.clone(),
            kem_pk_b64: identity.kem_pk_b64.clone(),
            sig_pk_b64: identity.sig_pk_b64.clone(),
        }
    }
}

/// Puts the stored identity to use, if there is one, and shows it.
pub fn cmd_load_identity(state: &mut ClientState, stored: Option<Identity>) -> (view: Option<
    IdentityView,
>)
    ensures
        match stored {
            Some(identity) => {
                &&& view matches Some(view) && shows(view, identity)
                &&& final(state)@ == old(state)@.with_identity(Some(identity))
            },
            None => view is None && final(state)@ == old(state)@,
        },
{
    match stored {
        Some(identity) => {
            let view = IdentityView::from(&identity);
            state.identity = Some(identity);
            Some(view)
        },
        None => None,
    }
}

/// Forgets the identity and all channels, once the stored identity is deleted.
pub fn cmd_reset_identity(state: &mut ClientState)
    ensures
        final(state)@ == (Client { identity: None, channels: Map::empty(), ..old(state)@ }),
{
    state.identity = None;
    state.channels.clear();
    assert(state@.channels =~= Map::empty());
}

/// Shows the identity that a registration or a login ended with.
pub fn shown_identity(result: Result<Identity, ChatError>) -> (view: Result<IdentityView, String>)
    ensures
        match result {
            Ok(identity) => view matches Ok(view) && shows(view, identity),
            Err(error) => view matches Err(text) && text@ == joined(error@, ": "@),
        },
{
    match result {
        Ok(identity) => Ok(IdentityView::from(&identity)),
        Err(error) => Err(err_to_string(error)),
    }
}

/// Shows the server that was created.
pub fn shown_server(result: Result<ServerId, ChatError>) -> (shown: Result<String, String>)
    ensures
        match result {
            Ok(server_id) => shown matches Ok(text) && text@ == id_text(server_id),
            Err(error) => shown matches Err(text) && text@ == joined(error@, ": "@),
        },
{
    match result {
        Ok(server_id) => Ok(uuid_text(server_id)),
        Err(error) => Err(err_to_string(error)),
    }
}

/// The user interface learns no secret key: identities that differ in nothing
/// but secret keys are shown alike.
pub proof fn law_secret_keys_are_not_shown(view: IdentityView, a: Identity, b: Identity)
    requires
        shows(view, a),
        b == (Identity { kem_sk_b64: b.kem_sk_b64, sig_sk_b64: b.sig_sk_b64, ..a }),
    ensures
        shows(view, b),
{
}

} // verus!
