use downlink::auth::{AuthError, Gate, RegistrationRequest};
use downlink::hub::{Delivery, Hub};
use downlink::session::{close_session, open_session, Session, SessionPhase};
use helium_crypto::{KeyTag, KeyType, Keypair, Network, Sign};

const NOW: u64 = 1_700_000_000_000;

fn keypair(seed: u8) -> Keypair {
    let entropy = [seed; 32];
    Keypair::generate_from_entropy(
        KeyTag {
            network: Network::MainNet,
            key_type: KeyType::Ed25519,
        },
        &entropy,
    )
    .expect("entropy keypair")
}

fn signed_request(keypair: &Keypair, timestamp: u64) -> RegistrationRequest {
    let mut req = RegistrationRequest {
        region: 1,
        timestamp,
        signer: keypair.public_key().into(),
        signature: Vec::new(),
    };
    let msg = req.signing_bytes();
    req.signature = keypair.sign(&msg).expect("sign");
    req
}

#[test]
fn session_walks_its_phases() {
    let mut session = Session::new();
    assert_eq!(session.phase(), SessionPhase::Pending);
    assert!(session.identity().is_none());
    session.to_admitted("someone".to_string(), 4);
    assert_eq!(session.phase(), SessionPhase::Admitted);
    assert_eq!(session.identity(), Some("someone".to_string()));
    assert_eq!(session.subscription(), Some(4));
    session.to_streaming();
    assert_eq!(session.phase(), SessionPhase::Streaming);
    session.close();
    assert_eq!(session.phase(), SessionPhase::Closed);
    // Closing is idempotent and keeps the records.
    session.close();
    assert_eq!(session.phase(), SessionPhase::Closed);
    assert_eq!(session.identity(), Some("someone".to_string()));
}

#[test]
fn end_to_end_hello_reaches_the_admitted_subscriber() {
    let kp = keypair(21);
    let gate = Gate::new(vec![kp.public_key().to_string()]);
    let mut hub = Hub::new();
    let session =
        open_session(&gate, &mut hub, &signed_request(&kp, NOW), NOW).expect("admitted");
    assert_eq!(session.phase(), SessionPhase::Streaming);
    assert_eq!(session.identity(), Some(kp.public_key().to_string()));
    let sub = session.subscription().expect("subscribed");

    assert_eq!(hub.publish(&b"hello".to_vec()), 1);
    match hub.next(sub) {
        Some(Delivery::Payload(body)) => assert_eq!(body, b"hello".to_vec()),
        _ => panic!("expected exactly one payload"),
    }
    assert!(hub.next(sub).is_none());
}

#[test]
fn refused_registration_opens_no_session() {
    let kp = keypair(22);
    let other = keypair(23);
    let gate = Gate::new(vec![kp.public_key().to_string()]);
    let mut hub = Hub::new();
    let outcome = open_session(&gate, &mut hub, &signed_request(&other, NOW), NOW);
    match outcome {
        Err(AuthError::UnauthorizedSigner) => {}
        _ => panic!("expected an unauthorized-signer refusal"),
    }
    assert_eq!(hub.subscriber_count(), 0);
}

#[test]
fn closing_one_session_leaves_the_other_streaming() {
    let kp = keypair(24);
    let gate = Gate::new(Vec::new());
    let mut hub = Hub::new();
    let mut s1 = open_session(&gate, &mut hub, &signed_request(&kp, NOW), NOW).expect("admitted");
    let s2 = open_session(&gate, &mut hub, &signed_request(&kp, NOW), NOW).expect("admitted");
    assert_eq!(hub.subscriber_count(), 2);

    assert!(close_session(&mut s1, &mut hub));
    assert_eq!(s1.phase(), SessionPhase::Closed);
    assert_eq!(hub.subscriber_count(), 1);

    // The surviving subscriber still receives.
    assert_eq!(hub.publish(&b"after".to_vec()), 1);
    let sub2 = s2.subscription().expect("subscribed");
    match hub.next(sub2) {
        Some(Delivery::Payload(body)) => assert_eq!(body, b"after".to_vec()),
        _ => panic!("expected the payload to reach the survivor"),
    }

    // Closing again releases nothing further.
    assert!(!close_session(&mut s1, &mut hub));
    assert_eq!(hub.subscriber_count(), 1);
}
