use ibc_client_core::events::{
    ClientIdAttribute, ClientMisbehaviour, ClientTypeAttribute, ConsensusHeightAttribute,
    ConsensusHeightsAttribute, CreateClient, EventAttribute, HeaderAttribute, InnerAny,
    UpdateClient, UpgradeClient,
};
use ibc_client_core::ident::{ClientId, ClientType};
use ibc_client_core::Height;

fn client_id() -> ClientId {
    ClientId::new("07-grandpa-0".to_string()).unwrap()
}

fn client_type() -> ClientType {
    ClientType::new("07-grandpa".to_string()).unwrap()
}

#[test]
fn create_client_event_attributes() {
    let ev = CreateClient::new(client_id(), client_type(), Height::new(0, 100));
    assert_eq!(ev.client_id().as_str(), "07-grandpa-0");
    assert_eq!(ev.client_type().as_str(), "07-grandpa");
    assert_eq!(ev.consensus_height().revision_number(), 0);
    assert_eq!(ev.consensus_height().revision_height(), 100);

    let tagged = ev.tagged_event();
    assert_eq!(tagged.kind, "create_client");
    assert_eq!(tagged.attributes.len(), 3);
    assert_eq!(tagged.attributes[0].key, "client_id");
    assert_eq!(tagged.attributes[0].value, "07-grandpa-0");
    assert_eq!(tagged.attributes[1].key, "client_type");
    assert_eq!(tagged.attributes[1].value, "07-grandpa");
    assert_eq!(tagged.attributes[2].key, "consensus_height");
    assert_eq!(tagged.attributes[2].value, "0-100");
}

#[test]
fn update_client_event_attributes() {
    let header = InnerAny {
        type_url: "/header.v1".to_string(),
        value: vec![0xde, 0xad, 0xbe, 0xef],
    };
    let ev = UpdateClient::new(
        client_id(),
        client_type(),
        Height::new(0, 101),
        vec![Height::new(0, 100), Height::new(0, 101)],
        header,
    );
    let tagged = ev.tagged_event();
    assert_eq!(tagged.kind, "update_client");
    assert_eq!(tagged.attributes.len(), 5);
    assert_eq!(tagged.attributes[0].key, "client_id");
    assert_eq!(tagged.attributes[1].key, "client_type");
    assert_eq!(tagged.attributes[2].key, "consensus_height");
    assert_eq!(tagged.attributes[2].value, "0-101");
    assert_eq!(tagged.attributes[3].key, "consensus_heights");
    assert_eq!(tagged.attributes[3].value, "0-100,0-101");
    assert_eq!(tagged.attributes[4].key, "header");
    assert_eq!(tagged.attributes[4].value, "deadbeef");
}

#[test]
fn misbehaviour_event_attributes() {
    let ev = ClientMisbehaviour::new(client_id(), client_type());
    let tagged = ev.tagged_event();
    assert_eq!(tagged.kind, "client_misbehaviour");
    assert_eq!(tagged.attributes.len(), 2);
    assert_eq!(tagged.attributes[0].key, "client_id");
    assert_eq!(tagged.attributes[1].key, "client_type");
}

#[test]
fn upgrade_event_attributes() {
    let ev = UpgradeClient::new(client_id(), client_type(), Height::new(1, 7));
    let tagged = ev.tagged_event();
    assert_eq!(tagged.kind, "upgrade_client");
    assert_eq!(tagged.attributes.len(), 3);
    assert_eq!(tagged.attributes[2].key, "consensus_height");
    assert_eq!(tagged.attributes[2].value, "1-7");
}

#[test]
fn tagged_round_trip_client_id() {
    let attr = ClientIdAttribute::new(client_id());
    let pair = attr.tagged();
    let back = ClientIdAttribute::from_tagged(&pair).unwrap();
    assert_eq!(back.client_id.as_str(), "07-grandpa-0");
}

#[test]
fn tagged_round_trip_client_type() {
    let attr = ClientTypeAttribute::new(client_type());
    let pair = attr.tagged();
    let back = ClientTypeAttribute::from_tagged(&pair).unwrap();
    assert_eq!(back.client_type.as_str(), "07-grandpa");
}

#[test]
fn tagged_round_trip_consensus_height() {
    let attr = ConsensusHeightAttribute::new(Height::new(3, 42));
    let pair = attr.tagged();
    assert_eq!(pair.value, "3-42");
    let back = ConsensusHeightAttribute::from_tagged(&pair).unwrap();
    assert_eq!(back.consensus_height, Height::new(3, 42));
}

#[test]
fn tagged_round_trip_consensus_heights() {
    let heights = vec![Height::new(0, 100), Height::new(0, 101), Height::new(2, 5)];
    let attr = ConsensusHeightsAttribute::new(heights.clone());
    let pair = attr.tagged();
    assert_eq!(pair.value, "0-100,0-101,2-5");
    let back = ConsensusHeightsAttribute::from_tagged(&pair).unwrap();
    assert_eq!(back.consensus_heights, heights);
}

#[test]
fn tagged_round_trip_empty_heights() {
    let attr = ConsensusHeightsAttribute::new(Vec::new());
    let pair = attr.tagged();
    assert_eq!(pair.value, "");
    let back = ConsensusHeightsAttribute::from_tagged(&pair).unwrap();
    assert!(back.consensus_heights.is_empty());
}

#[test]
fn tagged_round_trip_header_bytes() {
    let attr = HeaderAttribute::new(InnerAny {
        type_url: "/header.v1".to_string(),
        value: vec![0x00, 0x01, 0xfe, 0xff],
    });
    let pair = attr.tagged();
    assert_eq!(pair.value, "0001feff");
    let bytes = HeaderAttribute::bytes_from_tagged(&pair).unwrap();
    assert_eq!(bytes, vec![0x00, 0x01, 0xfe, 0xff]);
}

#[test]
fn tagged_decode_rejects_wrong_key() {
    let pair = EventAttribute {
        key: "not_the_key".to_string(),
        value: "0-100".to_string(),
    };
    assert!(ConsensusHeightAttribute::from_tagged(&pair).is_none());
    assert!(ClientIdAttribute::from_tagged(&pair).is_none());
}

#[test]
fn tagged_decode_rejects_bad_height_text() {
    let pair = EventAttribute {
        key: "consensus_height".to_string(),
        value: "100".to_string(),
    };
    assert!(ConsensusHeightAttribute::from_tagged(&pair).is_none());
    let pair2 = EventAttribute {
        key: "consensus_height".to_string(),
        value: "a-b".to_string(),
    };
    assert!(ConsensusHeightAttribute::from_tagged(&pair2).is_none());
}

#[test]
fn canonical_round_trip_client_id() {
    let attr = ClientIdAttribute::new(client_id());
    let bytes = attr.canonical_bytes();
    let back = ClientIdAttribute::from_canonical(&bytes).unwrap();
    assert_eq!(back.client_id.as_str(), "07-grandpa-0");
    assert_eq!(back.canonical_bytes(), bytes);
}

#[test]
fn canonical_round_trip_client_type() {
    let attr = ClientTypeAttribute::new(client_type());
    let bytes = attr.canonical_bytes();
    let back = ClientTypeAttribute::from_canonical(&bytes).unwrap();
    assert_eq!(back.client_type.as_str(), "07-grandpa");
    assert_eq!(back.canonical_bytes(), bytes);
}

#[test]
fn canonical_round_trip_consensus_height() {
    let attr = ConsensusHeightAttribute::new(Height::new(7, 900));
    let bytes = attr.canonical_bytes();
    assert_eq!(bytes.len(), 16);
    let back = ConsensusHeightAttribute::from_canonical(&bytes).unwrap();
    assert_eq!(back.consensus_height, Height::new(7, 900));
    assert_eq!(back.canonical_bytes(), bytes);
}

#[test]
fn canonical_height_bytes_are_little_endian() {
    let attr = ConsensusHeightAttribute::new(Height::new(1, 0x0102));
    let bytes = attr.canonical_bytes();
    assert_eq!(
        bytes,
        vec![1, 0, 0, 0, 0, 0, 0, 0, 0x02, 0x01, 0, 0, 0, 0, 0, 0]
    );
}

#[test]
fn canonical_round_trip_consensus_heights() {
    let heights = vec![Height::new(0, 100), Height::new(0, 101)];
    let attr = ConsensusHeightsAttribute::new(heights.clone());
    let bytes = attr.canonical_bytes();
    assert_eq!(bytes.len(), 4 + 2 * 16);
    let back = ConsensusHeightsAttribute::from_canonical(&bytes).unwrap();
    assert_eq!(back.consensus_heights, heights);
    assert_eq!(back.canonical_bytes(), bytes);
}

#[test]
fn canonical_round_trip_header() {
    let attr = HeaderAttribute::new(InnerAny {
        type_url: "/header.v1".to_string(),
        value: vec![9, 8, 7],
    });
    let bytes = attr.canonical_bytes();
    let back = HeaderAttribute::from_canonical(&bytes).unwrap();
    assert_eq!(back.header.type_url, "/header.v1");
    assert_eq!(back.header.value, vec![9, 8, 7]);
    assert_eq!(back.canonical_bytes(), bytes);
}

#[test]
fn canonical_decode_rejects_trailing_bytes() {
    let attr = ConsensusHeightAttribute::new(Height::new(7, 900));
    let mut bytes = attr.canonical_bytes();
    bytes.push(0);
    assert!(ConsensusHeightAttribute::from_canonical(&bytes).is_none());
}

#[test]
fn canonical_decode_rejects_truncation() {
    let attr = ClientIdAttribute::new(client_id());
    let mut bytes = attr.canonical_bytes();
    bytes.pop();
    assert!(ClientIdAttribute::from_canonical(&bytes).is_none());
}
