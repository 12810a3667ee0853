use sendxmpp::armor::ExtractError;
use sendxmpp::policy::{choose_message, encrypted_payload, make_reply, EncryptError, EncryptorRun, Policy};

fn armored(payload: &str) -> EncryptorRun {
    EncryptorRun::Output(format!("-----BEGIN-----\n\n{}\n-----END-----\n", payload).into_bytes())
}

#[test]
fn plain_policy_sends_body_whatever_the_run() {
    for run in [EncryptorRun::SpawnFailed, EncryptorRun::ExitFailed, armored("QUJD")] {
        let m = choose_message("a@b.c", "hello", Policy::Plain, &run).unwrap();
        assert_eq!(m.to, "a@b.c");
        assert_eq!(m.body, "hello");
        assert_eq!(m.encrypted, None);
    }
    assert!(!Policy::Plain.encrypts());
    assert!(Policy::AttemptPgp.encrypts());
    assert!(Policy::ForcePgp.encrypts());
}

#[test]
fn successful_encryption_sends_placeholder_and_payload() {
    for policy in [Policy::AttemptPgp, Policy::ForcePgp] {
        let m = choose_message("a@b.c", "secret", policy, &armored("QUJD==")).unwrap();
        assert_eq!(m.to, "a@b.c");
        assert_eq!(m.body, "pgp");
        assert_eq!(m.encrypted, Some("QUJD==".to_string()));
    }
}

#[test]
fn force_policy_fails_on_extraction_error() {
    let bad = EncryptorRun::Output(b"no blank line here\n-----END-----".to_vec());
    let r = choose_message("a@b.c", "secret", Policy::ForcePgp, &bad);
    assert_eq!(r.unwrap_err(), EncryptError::Extract(ExtractError::NotFound));
}

#[test]
fn force_policy_fails_on_process_errors() {
    let r = choose_message("a@b.c", "secret", Policy::ForcePgp, &EncryptorRun::SpawnFailed);
    assert_eq!(r.unwrap_err(), EncryptError::Spawn);
    let r = choose_message("a@b.c", "secret", Policy::ForcePgp, &EncryptorRun::ExitFailed);
    assert_eq!(r.unwrap_err(), EncryptError::Exit);
}

#[test]
fn attempt_policy_falls_back_to_plain() {
    let runs = [
        EncryptorRun::SpawnFailed,
        EncryptorRun::ExitFailed,
        EncryptorRun::Output(b"no blank line".to_vec()),
        EncryptorRun::Output(b"h\n\n".to_vec()),
    ];
    for run in runs {
        let m = choose_message("a@b.c", "secret", Policy::AttemptPgp, &run).unwrap();
        assert_eq!(m.body, "secret");
        assert_eq!(m.encrypted, None);
    }
}

#[test]
fn encrypted_payload_reports_each_cause() {
    assert_eq!(encrypted_payload(&armored("Zm9v")), Ok("Zm9v".to_string()));
    assert_eq!(encrypted_payload(&EncryptorRun::SpawnFailed), Err(EncryptError::Spawn));
    assert_eq!(encrypted_payload(&EncryptorRun::ExitFailed), Err(EncryptError::Exit));
    assert_eq!(
        encrypted_payload(&EncryptorRun::Output(b"x\n\n".to_vec())),
        Err(EncryptError::Extract(ExtractError::TooShort))
    );
    assert_eq!(
        encrypted_payload(&EncryptorRun::Output(vec![b'\n', b'\n', 0xc3, b'\n', b'-'])),
        Err(EncryptError::Extract(ExtractError::InvalidEncoding))
    );
}

#[test]
fn make_reply_keeps_recipient_and_body() {
    let m = make_reply("x@y.z/r", "");
    assert_eq!(m.to, "x@y.z/r");
    assert_eq!(m.body, "");
    assert_eq!(m.encrypted, None);
}
