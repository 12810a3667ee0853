//! Per-recipient choice between a plain and an encrypted message.
use vstd::prelude::*;
use crate::armor::{armor_text, extract_armor, ExtractError};

verus! {

/// How messages are protected; one policy holds for a whole run.
#[derive(Clone, Copy, Debug, PartialEq, Eq, Structural)]
pub enum Policy {
    /// Never encrypt.
    Plain,
    /// Encrypt where possible, else send the plain body.
    AttemptPgp,
    /// Encrypt or fail.
    ForcePgp,
}

impl Policy {
    /// Whether this policy runs the encryptor at all.
    pub fn encrypts(&self) -> (r: bool)
        ensures
            r == (*self != Policy::Plain),
    {
        match self {
            Policy::Plain => false,
            _ => true,
        }
    }
}

/// What an encryptor run handed back.
#[derive(Clone, Debug)]
pub enum EncryptorRun {
    /// The encryptor could not be started or fed its input.
    SpawnFailed,
    /// It ran and exited with a failure status.
    ExitFailed,
    /// It exited with success and wrote these bytes.
    Output(Vec<u8>),
}

/// Why a message could not be encrypted.
#[derive(Clone, Copy, Debug, PartialEq, Eq, Structural)]
pub enum EncryptError {
    /// The encryptor could not be run.
    Spawn,
    /// The encryptor exited with a failure status.
    Exit,
    /// Its output held no usable ciphertext block.
    Extract(ExtractError),
}

/// One outbound chat message: its recipient, its body, and the ciphertext
/// element attached to it, if any.
#[derive(Clone, Debug)]
pub struct Outbound {
    pub to: String,
    pub body: String,
    pub encrypted: Option<String>,
}

/// An outbound message in mathematical terms.
pub struct MessageView {
    pub to: Seq<char>,
    pub body: Seq<char>,
    pub encrypted: Option<Seq<char>>,
}

impl View for Outbound {
    type V = MessageView;

    open spec fn view(&self) -> MessageView {
        MessageView {
            to: self.to@,
            body: self.body@,
            encrypted: match self.encrypted {
                Some(p) => Some(p@),
                None => None,
            },
        }
    }
}

/// The body that an encrypted message carries in place of the text.
pub open spec fn placeholder() -> Seq<char> {
    seq!['p', 'g', 'p']
}

/// A plain message.
pub open spec fn plain_view(to: Seq<char>, body: Seq<char>) -> MessageView {
    MessageView { to, body, encrypted: None }
}

/// An encrypted message carrying `payload`.
pub open spec fn encrypted_view(to: Seq<char>, payload: Seq<char>) -> MessageView {
    MessageView { to, body: placeholder(), encrypted: Some(payload) }
}

/// The ciphertext that an encryptor run yields, or why it yields none.
pub open spec fn run_payload(run: EncryptorRun) -> Result<Seq<char>, EncryptError> {
    match run {
        EncryptorRun::SpawnFailed => Err(EncryptError::Spawn),
        EncryptorRun::ExitFailed => Err(EncryptError::Exit),
        EncryptorRun::Output(b) => match armor_text(b@) {
            Ok(t) => Ok(t),
            Err(e) => Err(EncryptError::Extract(e)),
        },
    }
}

/// The message that `policy` gives for one recipient once the encryptor
/// has run (under `Plain` the run is never looked at).
pub open spec fn policy_outcome(
    to: Seq<char>,
    body: Seq<char>,
    policy: Policy,
    run: EncryptorRun,
) -> Result<MessageView, EncryptError> {
    match policy {
        Policy::Plain => Ok(plain_view(to, body)),
        _ => match run_payload(run) {
            Ok(p) => Ok(encrypted_view(to, p)),
            Err(e) => if policy == Policy::ForcePgp {
                Err(e)
            } else {
                Ok(plain_view(to, body))
            },
        },
    }
}

/// A plain chat message with `body` to `to`.
pub fn make_reply(to: &str, body: &str) -> (r: Outbound)
    ensures
        r@ == plain_view(to@, body@),
{
    Outbound { to: String::from_str(to), body: String::from_str(body), encrypted: None }
}

/// An encrypted chat message to `to` carrying `payload`.
pub fn make_encrypted_reply(to: &str, payload: String) -> (r: Outbound)
    ensures
        r@ == encrypted_view(to@, payload@),
{
    proof {
        reveal_strlit("pgp");
    }
    let body = String::from_str("pgp");
    assert(body@ =~= placeholder());
    Outbound { to: String::from_str(to), body, encrypted: Some(payload) }
}

/// The ciphertext carried by an encryptor run.
pub fn encrypted_payload(run: &EncryptorRun) -> (r: Result<String, EncryptError>)
    ensures
        match run_payload(*run) {
            Ok(t) => r matches Ok(s) && s@ == t,
            Err(e) => r == Err::<String, EncryptError>(e),
        },
{
    match run {
        EncryptorRun::SpawnFailed => Err(EncryptError::Spawn),
        EncryptorRun::ExitFailed => Err(EncryptError::Exit),
        EncryptorRun::Output(b) => match extract_armor(b.as_slice()) {
            Ok(s) => Ok(s),
            Err(e) => Err(EncryptError::Extract(e)),
        },
    }
}

/// The message to send to `to` under `policy`, given what the encryptor
/// returned for it.
pub fn choose_message(to: &str, body: &str, policy: Policy, run: &EncryptorRun) -> (r: Result<
    Outbound,
    EncryptError,
>)
    ensures
        match policy_outcome(to@, body@, policy, *run) {
            Ok(m) => r matches Ok(o) && o@ == m,
            Err(e) => r matches Err(f) && f == e,
        },
{
    if !policy.encrypts() {
        return Ok(make_reply(to, body));
    }
    match encrypted_payload(run) {
        Ok(p) => Ok(make_encrypted_reply(to, p)),
        Err(e) => match policy {
            Policy::ForcePgp => Err(e),
            _ => Ok(make_reply(to, body)),
        },
    }
}

/// Under `Plain` the message is the plain body, whatever an encryptor would
/// have returned.
pub proof fn lemma_plain_ignores_encryptor(to: Seq<char>, body: Seq<char>, run: EncryptorRun)
    ensures
        policy_outcome(to, body, Policy::Plain, run) == Ok::<MessageView, EncryptError>(
            plain_view(to, body),
        ),
{
}

/// Under `ForcePgp` a failed encryption, extraction included, is fatal and
/// never becomes a plain message.
pub proof fn lemma_force_fails_fatal(to: Seq<char>, body: Seq<char>, run: EncryptorRun)
    requires
        run_payload(run) is Err,
    ensures
        policy_outcome(to, body, Policy::ForcePgp, run) == Err::<MessageView, EncryptError>(
            run_payload(run)->Err_0,
        ),
        run matches EncryptorRun::Output(b) ==> armor_text(b@) matches Err(e) && policy_outcome(
            to,
            body,
            Policy::ForcePgp,
            run,
        ) == Err::<MessageView, EncryptError>(EncryptError::Extract(e)),
{
}

/// Under `AttemptPgp` a failed encryption, extraction included, falls back
/// to the plain body.
pub proof fn lemma_attempt_falls_back(to: Seq<char>, body: Seq<char>, run: EncryptorRun)
    requires
        run_payload(run) is Err,
    ensures
        policy_outcome(to, body, Policy::AttemptPgp, run) == Ok::<MessageView, EncryptError>(
            plain_view(to, body),
        ),
{
}

} // verus!
