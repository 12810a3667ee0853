use sendxmpp::armor::ExtractError;
use sendxmpp::dispatch::{DispatchError, Dispatcher, Phase, Step};
use sendxmpp::policy::{EncryptError, EncryptorRun, Policy};

fn names(v: &[&str]) -> Vec<String> {
    v.iter().map(|s| s.to_string()).collect()
}

fn armored(payload: &str) -> EncryptorRun {
    EncryptorRun::Output(format!("-----BEGIN-----\n\n{}\n-----END-----", payload).into_bytes())
}

#[test]
fn plain_dispatch_sends_in_order_and_never_encrypts() {
    let mut d = Dispatcher::new(names(&["A", "B", "C"]), "hi".to_string(), Policy::Plain);
    assert_eq!(d.phase(), Phase::Ready);
    let mut sent: Vec<String> = Vec::new();
    let mut step = d.start();
    loop {
        match step {
            Step::Send(m) => {
                assert_eq!(m.body, "hi");
                assert_eq!(m.encrypted, None);
                sent.push(m.to);
                step = d.sent(true);
            }
            Step::Close => break,
            Step::Encrypt { .. } => panic!("plain policy asked for the encryptor"),
            Step::Abort(e) => panic!("unexpected abort {:?}", e),
        }
    }
    assert_eq!(sent, names(&["A", "B", "C"]));
    assert_eq!(d.phase(), Phase::Finished);
}

#[test]
fn forced_failure_on_second_recipient_stops_before_third() {
    let mut d = Dispatcher::new(names(&["A", "B", "C"]), "hi".to_string(), Policy::ForcePgp);
    let mut sent: Vec<String> = Vec::new();
    let mut step = d.start();
    let mut abort = None;
    loop {
        match step {
            Step::Encrypt { index } => {
                assert_eq!(d.phase(), Phase::AwaitingEncryption);
                let run = if d.recipient(index) == "B" {
                    EncryptorRun::Output(b"garbage".to_vec())
                } else {
                    armored("Q0lQSEVS")
                };
                step = d.encrypted(run);
            }
            Step::Send(m) => {
                assert_eq!(m.body, "pgp");
                assert_eq!(m.encrypted, Some("Q0lQSEVS".to_string()));
                sent.push(m.to);
                step = d.sent(true);
            }
            Step::Close => break,
            Step::Abort(e) => {
                abort = Some(e);
                break;
            }
        }
    }
    assert_eq!(sent, names(&["A"]));
    assert_eq!(
        abort,
        Some(DispatchError::EncryptionFailed { index: 1, cause: EncryptError::Extract(ExtractError::NotFound) })
    );
    assert_eq!(d.phase(), Phase::Finished);
}

#[test]
fn attempted_failure_falls_back_and_continues() {
    let mut d = Dispatcher::new(names(&["A", "B", "C"]), "hi".to_string(), Policy::AttemptPgp);
    let mut sent: Vec<(String, Option<String>)> = Vec::new();
    let mut step = d.start();
    loop {
        match step {
            Step::Encrypt { index } => {
                let run = if index == 1 { EncryptorRun::ExitFailed } else { armored("WA==") };
                step = d.encrypted(run);
            }
            Step::Send(m) => {
                sent.push((m.to, m.encrypted));
                step = d.sent(true);
            }
            Step::Close => break,
            Step::Abort(e) => panic!("unexpected abort {:?}", e),
        }
    }
    assert_eq!(
        sent,
        vec![
            ("A".to_string(), Some("WA==".to_string())),
            ("B".to_string(), None),
            ("C".to_string(), Some("WA==".to_string())),
        ]
    );
}

#[test]
fn send_failure_aborts_naming_the_recipient() {
    let mut d = Dispatcher::new(names(&["A", "B", "C"]), "hi".to_string(), Policy::Plain);
    assert!(matches!(d.start(), Step::Send(_)));
    assert!(matches!(d.sent(true), Step::Send(_)));
    match d.sent(false) {
        Step::Abort(DispatchError::SendFailed { index }) => assert_eq!(d.recipient(index), "B"),
        other => panic!("unexpected step {:?}", other),
    }
    assert_eq!(d.phase(), Phase::Finished);
}

#[test]
fn no_recipients_closes_at_once() {
    let mut d = Dispatcher::new(Vec::new(), "hi".to_string(), Policy::ForcePgp);
    assert!(matches!(d.start(), Step::Close));
    assert_eq!(d.phase(), Phase::Finished);
    assert_eq!(d.body(), "hi");
}
