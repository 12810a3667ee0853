use sendxmpp::tunnel::{stream_end_bytes, Tunnel, TunnelAction, TunnelEvent, TunnelPhase};

fn relay(events: Vec<TunnelEvent>) -> (Vec<u8>, Vec<u8>, Tunnel, usize) {
    let mut t = Tunnel::new();
    let mut remote: Vec<u8> = Vec::new();
    let mut local: Vec<u8> = Vec::new();
    let mut finishes = 0;
    for ev in events {
        assert!(t.accepts(&ev));
        match t.step(ev) {
            TunnelAction::ToRemote(b) => remote.extend(b),
            TunnelAction::ToLocal(b) => local.extend(b),
            TunnelAction::Finish(m) => {
                assert_eq!(m, b"</stream:stream>".to_vec());
                finishes += 1;
            }
            TunnelAction::Wait | TunnelAction::Stop => {}
        }
    }
    (remote, local, t, finishes)
}

#[test]
fn ping_pong_in_either_interleaving() {
    let orders: Vec<Vec<TunnelEvent>> = vec![
        vec![
            TunnelEvent::Local(b"ping".to_vec()),
            TunnelEvent::Remote(b"pong".to_vec()),
            TunnelEvent::Local(Vec::new()),
            TunnelEvent::Remote(Vec::new()),
        ],
        vec![
            TunnelEvent::Remote(b"po".to_vec()),
            TunnelEvent::Remote(b"ng".to_vec()),
            TunnelEvent::Remote(Vec::new()),
            TunnelEvent::Local(b"ping".to_vec()),
            TunnelEvent::Local(Vec::new()),
        ],
        vec![
            TunnelEvent::Local(b"ping".to_vec()),
            TunnelEvent::Local(Vec::new()),
            TunnelEvent::Remote(b"pong".to_vec()),
            TunnelEvent::Remote(Vec::new()),
        ],
    ];
    for evs in orders {
        let (remote, local, mut t, finishes) = relay(evs);
        assert_eq!(remote, b"ping".to_vec());
        assert_eq!(local, b"pong".to_vec());
        assert_eq!(finishes, 1);
        assert_eq!(t.phase(), TunnelPhase::Closing);
        assert!(!t.reads_local() && !t.reads_remote());
        assert!(matches!(t.step(TunnelEvent::Drained), TunnelAction::Stop));
        assert_eq!(t.phase(), TunnelPhase::Closed);
    }
}

#[test]
fn local_end_keeps_relaying_remote() {
    let mut t = Tunnel::new();
    assert_eq!(t.phase(), TunnelPhase::Open);
    assert!(matches!(t.step(TunnelEvent::Local(Vec::new())), TunnelAction::Wait));
    assert_eq!(t.phase(), TunnelPhase::Closing);
    assert!(!t.reads_local());
    assert!(t.reads_remote());
    assert!(!t.accepts(&TunnelEvent::Local(b"x".to_vec())));
    assert!(!t.accepts(&TunnelEvent::Drained));
    match t.step(TunnelEvent::Remote(b"late".to_vec())) {
        TunnelAction::ToLocal(b) => assert_eq!(b, b"late".to_vec()),
        other => panic!("unexpected action {:?}", other),
    }
}

#[test]
fn failure_finishes_at_once() {
    let mut t = Tunnel::new();
    match t.step(TunnelEvent::Failed) {
        TunnelAction::Finish(m) => assert_eq!(m, stream_end_bytes()),
        other => panic!("unexpected action {:?}", other),
    }
    assert!(t.accepts(&TunnelEvent::Drained));
    assert!(matches!(t.step(TunnelEvent::Drained), TunnelAction::Stop));
    assert!(!t.accepts(&TunnelEvent::Failed));
}
