//! Registering and logging in.
use vstd::prelude::*;

use crate::client::flows::{accepted, registered, registration, unexpected, Reply};
use crate::client::login::{
    carried_out, challenge_answer, login_decision, proves_identity, user_unknown, LoginDecision,
    LoginPhase, LoginStep,
};
use crate::client::session::RpcStart;
use crate::crypto::{
    dilithium_accepts, dilithium_keypair, dilithium_signature, verify_outcome,
    DILITHIUM_SECRET_KEY_BYTES,
};
use crate::encoding::{base64_decoded, base64_encoded, Decoded};
use crate::error::{ChatError, Messages};
use crate::identity::Identity;
use crate::protocol::{Request, ServerMessage, UserId};
use crate::state::Client;
use crate::text::decimal_text;

verus! {

/// What counts of a reply: an error of the request stands as it is, an error of
/// the relay says so, and any other message passes unchanged.
pub proof fn law_replies_pass_unless_errors(reply: Result<Reply, ChatError>)
    ensures
        match reply {
            Err(error) => accepted(reply) == Err::<ServerMessage, Messages>(error@),
            Ok(Reply { message: ServerMessage::Error { reason }, .. }) => accepted(reply) == Err::<
                ServerMessage,
                Messages,
            >(seq!["server: "@ + reason@]),
            Ok(reply_) => accepted(reply) == Ok::<ServerMessage, Messages>(reply_.message),
        },
{
}

/// The complaint about a reply names what was expected and shows what came.
pub proof fn law_complaints_show_the_reply(what: Seq<char>, message: ServerMessage, shown: String)
    ensures
        unexpected(what, Ok(Reply { message, shown })) == seq![
            "expected "@ + what + ", got "@ + shown@,
        ],
{
}

/// A registration sends the name and the two public keys, each in its place.
pub proof fn law_registration_sends_name_and_public_keys(identity: Identity)
    ensures
        registration(identity) is Register,
        registration(identity)->Register_display_name == identity.display_name@,
        registration(identity)->Register_kem_public_key == identity.kem_pk_b64@,
        registration(identity)->Register_sig_public_key == identity.sig_pk_b64@,
{
}

/// On the reply that a user is registered, the identity gets the identifier of the
/// reply, whatever it is, and keeps its name and all four keys; on any other reply
/// there is no identity, but an error.
pub proof fn law_registration_takes_the_assigned_identifier(
    identity: Identity,
    shown: String,
    user_id: UserId,
    other: ServerMessage,
    reason: String,
    error: ChatError,
)
    ensures
        registered(
            identity,
            Ok(Reply { message: ServerMessage::Registered { user_id }, shown }),
        ) matches Ok(new) && new.user_id == user_id && new.display_name == identity.display_name
            && new.kem_pk_b64 == identity.kem_pk_b64 && new.kem_sk_b64 == identity.kem_sk_b64
            && new.sig_pk_b64 == identity.sig_pk_b64 && new.sig_sk_b64 == identity.sig_sk_b64,
        !(other is Registered) && !(other is Error) ==> registered(
            identity,
            Ok(Reply { message: other, shown }),
        ) == Err::<Identity, Messages>(seq!["expected "@ + "Registered"@ + ", got "@ + shown@]),
        registered(
            identity,
            Ok(Reply { message: ServerMessage::Error { reason }, shown }),
        ) == Err::<Identity, Messages>(seq!["server: "@ + reason@]),
        registered(identity, Err(error)) == Err::<Identity, Messages>(error@),
{
}

/// A relay that answers the first request of a login with an error whose reason
/// holds the text `unknown user`, at any place and also as the whole of it, is
/// sent a registration of the same identity: its name and its public keys.
pub proof fn law_an_unknown_user_registers_again(
    identity: Identity,
    reason: String,
    shown: String,
    before: Seq<char>,
    behind: Seq<char>,
)
    requires
        reason@ == before + "unknown user"@ + behind,
    ensures
        login_decision(
            LoginPhase::Begun(identity),
            Ok(Reply { message: ServerMessage::Error { reason }, shown }),
        ) matches LoginDecision::Ask(LoginPhase::Reregistering(same), request) && same == identity
            && request is Register && request->Register_display_name == identity.display_name@
            && request->Register_kem_public_key == identity.kem_pk_b64@
            && request->Register_sig_public_key == identity.sig_pk_b64@,
{
    let n = before.len() as int;
    assert(reason@.subrange(n, n + "unknown user"@.len()) =~= "unknown user"@);
}

/// Any other error of the relay ends the login with that error.
pub proof fn law_other_errors_end_the_login(
    identity: Identity,
    reason: String,
    shown: String,
)
    requires
        forall|before: Seq<char>, behind: Seq<char>|
            reason@ != #[trigger] (before + "unknown user"@ + behind),
    ensures
        login_decision(
            LoginPhase::Begun(identity),
            Ok(Reply { message: ServerMessage::Error { reason }, shown }),
        ) == LoginDecision::Fail(seq!["server: "@ + reason@]),
{
    let reply: Result<Reply, ChatError> = Ok(
        Reply { message: ServerMessage::Error { reason }, shown },
    );
    if user_unknown(reply) {
        let m = "unknown user"@.len() as int;
        let i = choose|i: int|
            0 <= i <= reason@.len() - m && #[trigger] reason@.subrange(i, i + m)
                == "unknown user"@;
        let (before, behind) = (reason@.take(i), reason@.skip(i + m));
        assert(reason@ =~= before + "unknown user"@ + behind);
    }
}

/// The answer to a challenge is the base64 signature of the decoded challenge with
/// the signing key of the identity. It exists exactly when challenge and key
/// decode and the key has the right length; otherwise the first of these that
/// fails is reported.
pub proof fn law_challenges_are_signed(identity: Identity, nonce: Seq<char>)
    ensures
        challenge_answer(identity, nonce) == (match base64_decoded(nonce) {
            Err(reason) => Err::<Request, Messages>(seq![reason]),
            Ok(challenge) => match base64_decoded(identity.sig_sk_b64@) {
                Err(reason) => Err(seq![reason]),
                Ok(sk) => if sk.len() == DILITHIUM_SECRET_KEY_BYTES {
                    Ok(
                        Request::AuthFinish {
                            signature: base64_encoded(dilithium_signature(sk, challenge)),
                        },
                    )
                } else {
                    Err(
                        seq![
                            "invalid Dilithium3 secret key: "@ + ("BadLength { name: \""@
                                + "SecretKey"@ + "\", actual: "@ + decimal_text(sk.len())
                                + ", expected: "@ + decimal_text(DILITHIUM_SECRET_KEY_BYTES as nat)
                                + " }"@),
                        ],
                    )
                },
            },
        }),
{
}

/// What proves an identity decodes to the signature of the decoded challenge with
/// the identity's signing key, and every public key of that key accepts it.
pub proof fn law_an_identity_is_proved_by_its_signature(
    identity: Identity,
    nonce: Seq<char>,
    signature: Seq<char>,
    sk: Seq<u8>,
    challenge: Seq<u8>,
    pk: Seq<u8>,
)
    requires
        proves_identity(identity, nonce, signature),
        base64_decoded(identity.sig_sk_b64@) == Decoded::Ok(sk),
        base64_decoded(nonce) == Decoded::Ok(challenge),
    ensures
        signature == base64_encoded(dilithium_signature(sk, challenge)),
        base64_decoded(signature) == Decoded::Ok(dilithium_signature(sk, challenge)),
        dilithium_keypair(pk, sk) ==> dilithium_accepts(
            pk,
            challenge,
            dilithium_signature(sk, challenge),
        ),
{
    if dilithium_keypair(pk, sk) {
        assert(verify_outcome(pk, challenge, dilithium_signature(sk, challenge)) is Ok);
    }
}

/// A challenge, whether asked for once or again after a re-registration, is
/// answered for the same identity: with its signature where it can be signed, and
/// otherwise the login ends with the reason.
pub proof fn law_a_challenge_is_answered(
    identity: Identity,
    nonce: String,
    shown: String,
    again: bool,
)
    ensures
        ({
            let phase = if again {
                LoginPhase::BegunAgain(identity)
            } else {
                LoginPhase::Begun(identity)
            };
            let decision = login_decision(
                phase,
                Ok(Reply { message: ServerMessage::AuthChallenge { nonce }, shown }),
            );
            match challenge_answer(identity, nonce@) {
                Ok(answer) => decision == LoginDecision::Ask(
                    LoginPhase::Answered(identity),
                    answer,
                ),
                Err(messages) => decision == LoginDecision::Fail(messages),
            }
        }),
{
}

/// What a login makes of a failed request, of an error of the relay where no
/// registration can help, and of a reply of the wrong sort: it ends, and says why.
pub proof fn law_a_login_ends_on_failures(
    identity: Identity,
    error: ChatError,
    reason: String,
    other: ServerMessage,
    shown: String,
)
    requires
        !(other is AuthChallenge),
        !(other is Registered),
        !(other is Error),
    ensures
        login_decision(LoginPhase::Begun(identity), Err(error)) == LoginDecision::Fail(error@),
        login_decision(LoginPhase::Reregistering(identity), Err(error)) == LoginDecision::Fail(
            error@,
        ),
        login_decision(LoginPhase::BegunAgain(identity), Err(error)) == LoginDecision::Fail(error@),
        login_decision(LoginPhase::Answered(identity), Err(error)) == LoginDecision::Fail(error@),
        login_decision(
            LoginPhase::Reregistering(identity),
            Ok(Reply { message: ServerMessage::Error { reason }, shown }),
        ) == LoginDecision::Fail(seq!["server: "@ + reason@]),
        login_decision(
            LoginPhase::BegunAgain(identity),
            Ok(Reply { message: ServerMessage::Error { reason }, shown }),
        ) == LoginDecision::Fail(seq!["server: "@ + reason@]),
        login_decision(
            LoginPhase::Answered(identity),
            Ok(Reply { message: ServerMessage::Error { reason }, shown }),
        ) == LoginDecision::Fail(seq!["server: "@ + reason@]),
        login_decision(LoginPhase::Begun(identity), Ok(Reply { message: other, shown }))
            == LoginDecision::Fail(seq!["expected "@ + "AuthChallenge"@ + ", got "@ + shown@]),
        login_decision(LoginPhase::BegunAgain(identity), Ok(Reply { message: other, shown }))
            == LoginDecision::Fail(seq!["expected AuthChallenge"@]),
        login_decision(LoginPhase::Reregistering(identity), Ok(Reply { message: other, shown }))
            == LoginDecision::Fail(seq!["expected "@ + "Registered"@ + ", got "@ + shown@]),
{
}

/// A re-registration is stored under the identifier that the relay assigned, with
/// the name and all four keys as they were; a login is done, for the identity that
/// answered, on any reply to the answer that is not an error.
pub proof fn law_a_login_goes_through(
    identity: Identity,
    user_id: UserId,
    message: ServerMessage,
    shown: String,
)
    ensures
        login_decision(
            LoginPhase::Reregistering(identity),
            Ok(Reply { message: ServerMessage::Registered { user_id }, shown }),
        ) matches LoginDecision::Store(new) && new.user_id == user_id && new.display_name
            == identity.display_name && new.kem_pk_b64 == identity.kem_pk_b64 && new.kem_sk_b64
            == identity.kem_sk_b64 && new.sig_pk_b64 == identity.sig_pk_b64 && new.sig_sk_b64
            == identity.sig_sk_b64,
        !(message is Error) ==> login_decision(
            LoginPhase::Answered(identity),
            Ok(Reply { message, shown }),
        ) == LoginDecision::Done(identity),
{
}

/// A decision to ask for something sends that request when there is a connection
/// and no other request waits, holds it back while one waits, and fails without a
/// connection; any other decision is taken as it is and changes nothing.
pub proof fn law_login_decisions_are_carried_out(
    client: Client,
    decision: LoginDecision,
    after: Client,
    step: LoginStep,
)
    requires
        carried_out(client, decision, after, step),
    ensures
        after.identity == client.identity,
        after.channels == client.channels,
        after.connected == client.connected,
        after.session == client.session,
        match decision {
            LoginDecision::Ask(phase, request) => if !client.connected {
                &&& after == client
                &&& step matches LoginStep::Failed(error) && error@ == seq!["not connected"@]
            } else if client.pending_rpc is Some {
                &&& after == client
                &&& step matches LoginStep::Ask(next, RpcStart::Wait(frame)) && next == phase
                    && frame@ == request
            } else {
                &&& after.pending_rpc is Some
                &&& step matches LoginStep::Ask(next, RpcStart::Go { request: number, frame })
                    && next == phase && frame@ == request && after.pending_rpc == Some(number)
            },
            LoginDecision::Store(identity) => after == client && step == LoginStep::Store(identity),
            LoginDecision::Done(identity) => after == client && step == LoginStep::Done(identity),
            LoginDecision::Fail(messages) => {
                &&& after == client
                &&& step matches LoginStep::Failed(error) && error@ == messages
            },
        },
{
}

} // verus!
