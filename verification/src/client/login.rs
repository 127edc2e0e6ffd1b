//! Logging in.
//!
//! The relay hands out a challenge, which the client signs. A relay that has
//! lost its user table does not know the user any more; the client registers
//! again with the same keys, and logs in under the identifier it gets.
use vstd::prelude::*;

use crate::client::flows::{
    accept, accepted, register_flow, registered, registration, registration_frame,
    signing_obstacle, unexpected, unexpected_reply, Reply,
};
use crate::client::session::{rpc, rpc_outcome, rpc_started, RpcStart};
use crate::crypto::{
    dilithium_keypair, dilithium_sign, dilithium_signature, verify_outcome,
};
use crate::encoding::{base64_encode, base64_encoded, decode, decode_outcome};
use crate::error::{ChatError, Messages};
use crate::identity::{renumbered, stands_for, Identity};
use crate::protocol::{ClientMessage, Request, ServerMessage};
use crate::state::{Client, ClientState};
use crate::text::{contains, occurs_in};

verus! {

/// Where a login stands: which reply it waits for, and for whom.
pub enum LoginPhase {
    /// A challenge was asked for.
    Begun(Identity),
    /// The relay did not know the user; the identity is being registered again.
    Reregistering(Identity),
    /// A challenge was asked for under the new identifier.
    BegunAgain(Identity),
    /// The challenge was answered.
    Answered(Identity),
}

/// What a login does next.
pub enum LoginStep {
    /// Carry out this request, and come back with its reply.
    Ask(LoginPhase, RpcStart),
    /// Store this identity, and go on with [`login_resume`].
    Store(Identity),
    /// Logged in.
    Done(Identity),
    /// Login failed.
    Failed(ChatError),
}

/// What a login decides to do next.
pub enum LoginDecision {
    Ask(LoginPhase, Request),
    Store(Identity),
    Done(Identity),
    Fail(Messages),
}

/// The answer to a challenge given as base64 text.
pub open spec fn challenge_answer(identity: Identity, nonce: Seq<char>) -> Result<
    Request,
    Messages,
> {
    match decode_outcome(nonce) {
        Err(messages) => Err(messages),
        Ok(challenge) => match signing_obstacle(identity) {
            Some(messages) => Err(messages),
            None => Ok(
                Request::AuthFinish {
                    signature: base64_encoded(
                        dilithium_signature(
                            decode_outcome(identity.sig_sk_b64@)->Ok_0,
                            challenge,
                        ),
                    ),
                },
            ),
        },
    }
}

/// Whether `signature` is base64 text of a signature that every public key of the
/// identity's signing key verifies over the challenge.
pub open spec fn proves_identity(
    identity: Identity,
    nonce: Seq<char>,
    signature: Seq<char>,
) -> bool {
    let sk = decode_outcome(identity.sig_sk_b64@)->Ok_0;
    let challenge = decode_outcome(nonce)->Ok_0;
    let bytes = dilithium_signature(sk, challenge);
    &&& stands_for(signature, bytes)
    &&& forall|pk: Seq<u8>| #[trigger]
        dilithium_keypair(pk, sk) ==> verify_outcome(pk, challenge, bytes) is Ok
}

/// Answers a challenge: signs it with the key of the identity.
pub fn answer_challenge(identity: &Identity, nonce: &str) -> (answer: Result<
    ClientMessage,
    ChatError,
>)
    ensures
        match answer {
            Ok(frame) => {
                &&& challenge_answer(*identity, nonce@) == Ok::<Request, Messages>(frame@)
                &&& proves_identity(*identity, nonce@, frame@->AuthFinish_signature)
            },
            Err(error) => challenge_answer(*identity, nonce@) == Err::<Request, Messages>(error@),
        },
{
    let challenge = match decode(nonce) {
        Ok(challenge) => challenge,
        Err(error) => {
            return Err(error);
        },
    };
    let sk = match identity.sig_sk() {
        Ok(sk) => sk,
        Err(error) => {
            return Err(error);
        },
    };
    match dilithium_sign(&sk, &challenge) {
        Ok(signature) => Ok(ClientMessage::AuthFinish { signature: base64_encode(&signature) }),
        Err(error) => Err(error),
    }
}

/// What to do once there is an answer to a challenge.
pub open spec fn answered(identity: Identity, nonce: Seq<char>) -> LoginDecision {
    match challenge_answer(identity, nonce) {
        Ok(request) => LoginDecision::Ask(LoginPhase::Answered(identity), request),
        Err(messages) => LoginDecision::Fail(messages),
    }
}

/// Whether the relay says that it does not know the user.
pub open spec fn user_unknown(reply: Result<Reply, ChatError>) -> bool {
    reply matches Ok(reply) && reply.message matches ServerMessage::Error { reason } && occurs_in(
        "unknown user"@,
        reason@,
    )
}

/// What a login decides on a reply.
pub open spec fn login_decision(
    phase: LoginPhase,
    reply: Result<Reply, ChatError>,
) -> LoginDecision {
    match phase {
        LoginPhase::Begun(identity) => if user_unknown(reply) {
            LoginDecision::Ask(LoginPhase::Reregistering(identity), registration(identity))
        } else {
            match accepted(reply) {
                Err(messages) => LoginDecision::Fail(messages),
                Ok(ServerMessage::AuthChallenge { nonce }) => answered(identity, nonce@),
                Ok(_) => LoginDecision::Fail(unexpected("AuthChallenge"@, reply)),
            }
        },
        LoginPhase::Reregistering(identity) => match registered(identity, reply) {
            Err(messages) => LoginDecision::Fail(messages),
            Ok(identity) => LoginDecision::Store(identity),
        },
        LoginPhase::BegunAgain(identity) => match accepted(reply) {
            Err(messages) => LoginDecision::Fail(messages),
            Ok(ServerMessage::AuthChallenge { nonce }) => answered(identity, nonce@),
            Ok(_) => LoginDecision::Fail(seq!["expected AuthChallenge"@]),
        },
        LoginPhase::Answered(identity) => match accepted(reply) {
            Err(messages) => LoginDecision::Fail(messages),
            Ok(_) => LoginDecision::Done(identity),
        },
    }
}

/// Whether a client in state `client` takes `step` and goes to `after` on a
/// decision: requests need a connection and take their turn.
pub open spec fn carried_out(
    client: Client,
    decision: LoginDecision,
    after: Client,
    step: LoginStep,
) -> bool {
    match decision {
        LoginDecision::Ask(phase, request) => {
            &&& after == rpc_started(client)
            &&& match rpc_outcome(client, request) {
                Ok(started) => step matches LoginStep::Ask(next, start) && next == phase && start@
                    == started,
                Err(messages) => step matches LoginStep::Failed(error) && error@ == messages,
            }
        },
        LoginDecision::Store(identity) => after == client && step == LoginStep::Store(identity),
        LoginDecision::Done(identity) => after == client && step == LoginStep::Done(identity),
        LoginDecision::Fail(messages) => {
            &&& after == client
            &&& step matches LoginStep::Failed(error) && error@ == messages
        },
    }
}

/// Starts a request of a login.
fn ask(state: &mut ClientState, phase: LoginPhase, frame: ClientMessage) -> (step: LoginStep)
    ensures
        carried_out(old(state)@, LoginDecision::Ask(phase, frame@), final(state)@, step),
{
    match rpc(state, frame) {
        Ok(start) => LoginStep::Ask(phase, start),
        Err(error) => LoginStep::Failed(error),
    }
}

/// Starts the answer to a challenge.
fn answer(state: &mut ClientState, identity: Identity, nonce: String) -> (step: LoginStep)
    ensures
        carried_out(old(state)@, answered(identity, nonce@), final(state)@, step),
        step matches LoginStep::Ask(_, start) ==> proves_identity(
            identity,
            nonce@,
            start@.request()->AuthFinish_signature,
        ),
{
    match answer_challenge(&identity, nonce.as_str()) {
        Ok(frame) => ask(state, LoginPhase::Answered(identity), frame),
        Err(error) => LoginStep::Failed(error),
    }
}

/// Starts a login with the identity in use.
pub fn login_begin(state: &mut ClientState) -> (step: LoginStep)
    ensures
        match old(state)@.identity {
            None => carried_out(
                old(state)@,
                LoginDecision::Fail(seq!["no identity loaded"@]),
                final(state)@,
                step,
            ),
            Some(identity) => carried_out(
                old(state)@,
                LoginDecision::Ask(
                    LoginPhase::Begun(identity),
                    Request::AuthBegin { user_id: identity.user_id },
                ),
                final(state)@,
                step,
            ),
        },
{
    let identity = match state.require_identity() {
        Ok(identity) => identity.clone(),
        Err(error) => {
            return LoginStep::Failed(error);
        },
    };
    let user_id = identity.user_id;
    ask(state, LoginPhase::Begun(identity), ClientMessage::AuthBegin { user_id })
}

/// Goes on with a login after the identity with its new identifier was stored:
/// puts it to use and asks for a challenge again.
pub fn login_resume(state: &mut ClientState, identity: Identity) -> (step: LoginStep)
    ensures
        carried_out(
            old(state)@.with_identity(Some(identity)),
            LoginDecision::Ask(
                LoginPhase::BegunAgain(identity),
                Request::AuthBegin { user_id: identity.user_id },
            ),
            final(state)@,
            step,
        ),
{
    let user_id = identity.user_id;
    state.identity = Some(identity.clone());
    assert(state@ =~= old(state)@.with_identity(Some(identity)));
    ask(state, LoginPhase::BegunAgain(identity), ClientMessage::AuthBegin { user_id })
}

/// Whether a reply is an error that says that the user is unknown.
fn says_user_unknown(reply: &Result<Reply, ChatError>) -> (unknown: bool)
    ensures
        unknown == user_unknown(*reply),
{
    match reply {
        Ok(reply) => match &reply.message {
            ServerMessage::Error { reason } => contains(reason.as_str(), "unknown user"),
            _ => false,
        },
        Err(_) => false,
    }
}

/// Takes the next reply of a login. An answer to a challenge verifies under every
/// public key that belongs to the signing key of the identity.
pub fn login_flow(
    state: &mut ClientState,
    phase: LoginPhase,
    reply: Result<Reply, ChatError>,
) -> (step: LoginStep)
    ensures
        carried_out(old(state)@, login_decision(phase, reply), final(state)@, step),
        step matches LoginStep::Ask(LoginPhase::Answered(identity), start) ==> (accepted(
            reply,
        ) matches Ok(ServerMessage::AuthChallenge { nonce }) && proves_identity(
            identity,
            nonce@,
            start@.request()->AuthFinish_signature,
        )),
{
    match phase {
        LoginPhase::Begun(identity) => {
            if says_user_unknown(&reply) {
                let frame = registration_frame(&identity);
                return ask(state, LoginPhase::Reregistering(identity), frame);
            }
            match accept(reply) {
                Err(error) => LoginStep::Failed(error),
                Ok(reply) => match reply.message {
                    ServerMessage::AuthChallenge { nonce } => answer(state, identity, nonce),
                    _ => LoginStep::Failed(
                        unexpected_reply("AuthChallenge", reply.shown.as_str()),
                    ),
                },
            }
        },
        LoginPhase::Reregistering(identity) => match register_flow(identity, reply) {
            Ok(identity) => LoginStep::Store(identity),
            Err(error) => LoginStep::Failed(error),
        },
        LoginPhase::BegunAgain(identity) => match accept(reply) {
            Err(error) => LoginStep::Failed(error),
            Ok(reply) => match reply.message {
                ServerMessage::AuthChallenge { nonce } => answer(state, identity, nonce),
                _ => LoginStep::Failed(ChatError::new("expected AuthChallenge".to_string())),
            },
        },
        LoginPhase::Answered(identity) => match accept(reply) {
            Err(error) => LoginStep::Failed(error),
            Ok(_) => LoginStep::Done(identity),
        },
    }
}

/// The identity that a login is for.
pub open spec fn login_identity(phase: LoginPhase) -> Identity {
    match phase {
        LoginPhase::Begun(identity) => identity,
        LoginPhase::Reregistering(identity) => identity,
        LoginPhase::BegunAgain(identity) => identity,
        LoginPhase::Answered(identity) => identity,
    }
}

/// A login keeps the name and the keys of the identity all along: only a
/// re-registration changes anything, and that is the identifier.
pub proof fn law_login_keeps_keys(phase: LoginPhase, reply: Result<Reply, ChatError>)
    ensures
        match login_decision(phase, reply) {
            LoginDecision::Ask(next, _) => login_identity(next) == login_identity(phase),
            LoginDecision::Store(identity) => phase is Reregistering && identity == renumbered(
                login_identity(phase),
                identity.user_id,
            ),
            LoginDecision::Done(identity) => phase is Answered && identity == login_identity(phase),
            LoginDecision::Fail(_) => true,
        },
{
}

/// A relay that does not know the user is sent the same public keys again, and a
/// relay that does is never sent a registration.
pub proof fn law_reregistration_on_unknown_user(
    identity: Identity,
    reply: Result<Reply, ChatError>,
)
    ensures
        user_unknown(reply) <==> login_decision(LoginPhase::Begun(identity), reply)
            == LoginDecision::Ask(LoginPhase::Reregistering(identity), registration(identity)),
{
}

/// Nobody is logged in without having answered a challenge: a login ends well
/// only on a reply to the answer that is not an error.
pub proof fn law_login_needs_an_answer(phase: LoginPhase, reply: Result<Reply, ChatError>)
    ensures
        login_decision(phase, reply) is Done <==> phase is Answered && accepted(reply) is Ok,
        login_decision(phase, reply) matches LoginDecision::Ask(LoginPhase::Answered(_), request)
            ==> request is AuthFinish && accepted(reply) matches Ok(ServerMessage::AuthChallenge {
            ..
        }),
{
}

} // verus!
