use ibc_client_core::errors::Error;
use ibc_client_core::events::InnerAny;
use ibc_client_core::grandpa::{
    ClientState, CommitmentPrefix, CommitmentProofBytes, ConsensusState, CommitmentRoot,
    GrandpaClient, Header, MerkleProof, Sequence,
};
use ibc_client_core::ident::{ClientId, ClientType, PortId, ChannelId};
use ibc_client_core::machine::ClientRecord;
use ibc_client_core::Height;

fn header(revision: u64, height: u64, root: &[u8]) -> Header {
    Header {
        height: Height::new(revision, height),
        state_root: root.to_vec(),
        justification: vec![1, 2, 3],
    }
}

fn raw_header() -> InnerAny {
    InnerAny {
        type_url: "/header.v1".to_string(),
        value: vec![0xaa, 0xbb],
    }
}

fn fresh_record() -> ClientRecord {
    let (record, _event) = ClientRecord::create(
        ClientId::new("07-grandpa-0".to_string()).unwrap(),
        ClientType::new("07-grandpa".to_string()).unwrap(),
        ClientState {
            latest_height: Height::new(0, 100),
            frozen: false,
        },
        ConsensusState {
            root: CommitmentRoot { bytes: vec![0; 32] },
        },
    )
    .unwrap();
    record
}

#[test]
fn create_emits_event_with_initial_height() {
    let (record, event) = ClientRecord::create(
        ClientId::new("07-grandpa-0".to_string()).unwrap(),
        ClientType::new("07-grandpa".to_string()).unwrap(),
        ClientState {
            latest_height: Height::new(0, 100),
            frozen: false,
        },
        ConsensusState {
            root: CommitmentRoot { bytes: vec![0; 32] },
        },
    )
    .unwrap();
    assert_eq!(record.latest_height(), Height::new(0, 100));
    assert!(!record.is_frozen());
    let tagged = event.tagged_event();
    assert_eq!(tagged.kind, "create_client");
    assert_eq!(tagged.attributes[2].value, "0-100");
}

#[test]
fn create_rejects_frozen_initial_state() {
    let r = ClientRecord::create(
        ClientId::new("07-grandpa-0".to_string()).unwrap(),
        ClientType::new("07-grandpa".to_string()).unwrap(),
        ClientState {
            latest_height: Height::new(0, 100),
            frozen: true,
        },
        ConsensusState {
            root: CommitmentRoot { bytes: vec![] },
        },
    );
    assert_eq!(r.err(), Some(Error::MalformedInput));
}

#[test]
fn update_at_stale_height_fails() {
    let mut record = fresh_record();
    let r = record.update(&header(0, 100, b"root"), raw_header());
    assert_eq!(r.err(), Some(Error::HeaderVerificationFailed));
    assert_eq!(record.latest_height(), Height::new(0, 100));
}

#[test]
fn update_below_trusted_height_fails() {
    let mut record = fresh_record();
    let r = record.update(&header(0, 99, b"root"), raw_header());
    assert_eq!(r.err(), Some(Error::HeaderVerificationFailed));
}

#[test]
fn update_advances_and_emits_event() {
    let mut record = fresh_record();
    let event = record.update(&header(0, 101, b"root"), raw_header()).unwrap();
    assert_eq!(record.latest_height(), Height::new(0, 101));
    let tagged = event.tagged_event();
    assert_eq!(tagged.kind, "update_client");
    assert_eq!(tagged.attributes[2].value, "0-101");
    assert_eq!(tagged.attributes[3].value, "0-101");
    assert_eq!(tagged.attributes[4].value, "aabb");
}

#[test]
fn successive_updates_are_strictly_increasing() {
    let mut record = fresh_record();
    let mut last = record.latest_height();
    for h in [101u64, 102, 200, 1000] {
        record.update(&header(0, h, b"root"), raw_header()).unwrap();
        let now = record.latest_height();
        assert!(last.lt(&now));
        last = now;
    }
    // a new revision restarts the height but still increases overall
    record.update(&header(1, 5, b"root"), raw_header()).unwrap();
    assert!(last.lt(&record.latest_height()));
}

#[test]
fn failed_update_leaves_record_unchanged() {
    let mut record = fresh_record();
    record.update(&header(0, 101, b"a"), raw_header()).unwrap();
    let before_height = record.latest_height();
    let before_frozen = record.is_frozen();
    let r = record.update(&header(0, 101, b"b"), raw_header());
    assert!(r.is_err());
    assert_eq!(record.latest_height(), before_height);
    assert_eq!(record.is_frozen(), before_frozen);
}

#[test]
fn misbehaviour_freezes_client() {
    let mut record = fresh_record();
    let ev = record
        .misbehaviour(&header(0, 105, b"one"), &header(0, 105, b"two"))
        .unwrap();
    assert!(record.is_frozen());
    assert_eq!(record.latest_height(), Height::new(0, 100));
    let tagged = ev.tagged_event();
    assert_eq!(tagged.kind, "client_misbehaviour");
}

#[test]
fn misbehaviour_rejects_non_conflicting_evidence() {
    let mut record = fresh_record();
    let same = record.misbehaviour(&header(0, 105, b"one"), &header(0, 105, b"one"));
    assert_eq!(same.err(), Some(Error::HeaderVerificationFailed));
    let different_heights = record.misbehaviour(&header(0, 105, b"one"), &header(0, 106, b"two"));
    assert_eq!(different_heights.err(), Some(Error::HeaderVerificationFailed));
    assert!(!record.is_frozen());
}

#[test]
fn frozen_client_rejects_everything() {
    let mut record = fresh_record();
    record
        .misbehaviour(&header(0, 105, b"one"), &header(0, 105, b"two"))
        .unwrap();
    assert!(record.is_frozen());

    let up = record.update(&header(0, 200, b"root"), raw_header());
    assert_eq!(up.err(), Some(Error::ClientFrozen));

    let again = record.misbehaviour(&header(0, 300, b"x"), &header(0, 300, b"y"));
    assert_eq!(again.err(), Some(Error::ClientFrozen));

    let upgrade = record.upgrade(
        &ClientState {
            latest_height: Height::new(9, 9),
            frozen: false,
        },
        &ConsensusState {
            root: CommitmentRoot { bytes: vec![] },
        },
        MerkleProof { bytes: vec![] },
        MerkleProof { bytes: vec![] },
    );
    assert_eq!(upgrade.err(), Some(Error::ClientFrozen));

    let frozen_state = ClientState {
        latest_height: Height::new(0, 100),
        frozen: true,
    };
    let verifier = GrandpaClient;
    let r = verifier.verify_connection_state(
        &frozen_state,
        Height::new(0, 100),
        &CommitmentPrefix { bytes: vec![] },
        &CommitmentProofBytes { bytes: vec![] },
        None,
        &ibc_client_core::grandpa::ConnectionEnd { bytes: vec![] },
    );
    assert_eq!(r.err(), Some(Error::ClientFrozen));
}

#[test]
fn upgrade_replaces_state_and_emits_event() {
    let mut record = fresh_record();
    let ev = record
        .upgrade(
            &ClientState {
                latest_height: Height::new(1, 1),
                frozen: false,
            },
            &ConsensusState {
                root: CommitmentRoot { bytes: vec![7; 32] },
            },
            MerkleProof { bytes: vec![] },
            MerkleProof { bytes: vec![] },
        )
        .unwrap();
    assert_eq!(record.latest_height(), Height::new(1, 1));
    let tagged = ev.tagged_event();
    assert_eq!(tagged.kind, "upgrade_client");
    assert_eq!(tagged.attributes[2].value, "1-1");
}

#[test]
fn upgrade_must_increase_height() {
    let mut record = fresh_record();
    let r = record.upgrade(
        &ClientState {
            latest_height: Height::new(0, 100),
            frozen: false,
        },
        &ConsensusState {
            root: CommitmentRoot { bytes: vec![] },
        },
        MerkleProof { bytes: vec![] },
        MerkleProof { bytes: vec![] },
    );
    assert_eq!(r.err(), Some(Error::HeaderVerificationFailed));
}

#[test]
fn grandpa_check_header_enforces_monotonicity() {
    let verifier = GrandpaClient;
    let active = ClientState {
        latest_height: Height::new(0, 100),
        frozen: false,
    };
    let stale = verifier.check_header_and_update_state(&active, &header(0, 100, b"r"));
    assert_eq!(stale.err(), Some(Error::HeaderVerificationFailed));
    let (new_state, consensus) = verifier
        .check_header_and_update_state(&active, &header(0, 101, b"r"))
        .unwrap();
    assert_eq!(new_state.latest_height, Height::new(0, 101));
    assert!(!new_state.frozen);
    assert_eq!(consensus.root.bytes, b"r".to_vec());
}

#[test]
fn grandpa_verifications_succeed_when_active() {
    let verifier = GrandpaClient;
    let active = ClientState {
        latest_height: Height::new(0, 100),
        frozen: false,
    };
    let proof = CommitmentProofBytes { bytes: vec![1] };
    let port = PortId::new("transfer".to_string()).unwrap();
    let channel = ChannelId::new("channel-0".to_string()).unwrap();
    let seq = Sequence { value: 4 };
    assert!(verifier
        .verify_packet_data(
            &active,
            Height::new(0, 90),
            &proof,
            &port,
            &channel,
            &seq,
            "data".to_string(),
        )
        .is_ok());
    assert!(verifier
        .verify_packet_acknowledgement(
            &active,
            Height::new(0, 90),
            &proof,
            &port,
            &channel,
            &seq,
            vec![1, 2],
        )
        .is_ok());
    assert!(verifier
        .verify_next_sequence_recv(&active, Height::new(0, 90), &proof, &port, &channel, &seq)
        .is_ok());
    assert!(verifier
        .verify_packet_receipt_absence(&active, Height::new(0, 90), &proof, &port, &channel, &seq)
        .is_ok());
}

#[test]
fn error_texts_name_every_kind() {
    assert_eq!(
        Error::HeaderVerificationFailed.text(),
        "header verification failed"
    );
    assert_eq!(
        Error::ProofVerificationFailed.text(),
        "proof verification failed"
    );
    assert_eq!(Error::ClientFrozen.text(), "client is frozen");
    assert_eq!(Error::MalformedInput.text(), "malformed input");
}
