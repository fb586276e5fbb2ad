use ibc_client_core::hexcode::{bytes_of_hex, hex_of_bytes};
use ibc_client_core::ident::{ChainId, ClientId, ConnectionId};
use ibc_client_core::query::{
    classify_backend, connection_ids, ChainBackend, IdentifiedConnection, QueryConnectionsCmd,
};
use ibc_client_core::text::{
    height_to_text, heights_to_text, parse_dec_u64, parse_height, parse_heights, u64_to_dec,
};
use ibc_client_core::{Error, Height};

#[test]
fn decimal_text_of_numbers() {
    assert_eq!(u64_to_dec(0), "0");
    assert_eq!(u64_to_dec(7), "7");
    assert_eq!(u64_to_dec(100), "100");
    assert_eq!(u64_to_dec(u64::MAX), "18446744073709551615");
}

#[test]
fn decimal_parse_accepts_digits_only() {
    assert_eq!(parse_dec_u64("0"), Some(0));
    assert_eq!(parse_dec_u64("00100"), Some(100));
    assert_eq!(parse_dec_u64("18446744073709551615"), Some(u64::MAX));
    assert_eq!(parse_dec_u64("18446744073709551616"), None);
    assert_eq!(parse_dec_u64(""), None);
    assert_eq!(parse_dec_u64("12a"), None);
    assert_eq!(parse_dec_u64("-1"), None);
}

#[test]
fn height_text_round_trip() {
    let h = Height::new(0, 100);
    assert_eq!(height_to_text(&h), "0-100");
    assert_eq!(parse_height("0-100"), Some(h));
    assert_eq!(parse_height("100"), None);
    assert_eq!(parse_height("a-b"), None);
    assert_eq!(parse_height(""), None);
    assert_eq!(
        parse_height("18446744073709551615-1"),
        Some(Height::new(u64::MAX, 1))
    );
    assert_eq!(parse_height("18446744073709551616-1"), None);
}

#[test]
fn heights_text_round_trip() {
    let v = vec![Height::new(0, 100), Height::new(0, 101)];
    assert_eq!(heights_to_text(&v), "0-100,0-101");
    assert_eq!(parse_heights("0-100,0-101"), Some(v));
    assert_eq!(parse_heights(""), Some(Vec::new()));
    assert_eq!(parse_heights("0-100,,0-101"), None);
    assert_eq!(parse_heights(","), None);
}

#[test]
fn hex_encoding_is_lowercase_pairs() {
    assert_eq!(hex_of_bytes(&[]), "");
    assert_eq!(hex_of_bytes(&[0x00]), "00");
    assert_eq!(hex_of_bytes(&[0xde, 0xad, 0xbe, 0xef]), "deadbeef");
    assert_eq!(hex_of_bytes(&[0x0f, 0xf0]), "0ff0");
}

#[test]
fn hex_decoding_round_trip() {
    let bytes = vec![0u8, 1, 2, 0x7f, 0x80, 0xff];
    let text = hex_of_bytes(&bytes);
    assert_eq!(bytes_of_hex(&text), Some(bytes));
    assert_eq!(bytes_of_hex(""), Some(Vec::new()));
    assert_eq!(bytes_of_hex("0"), None);
    assert_eq!(bytes_of_hex("zz"), None);
    assert_eq!(bytes_of_hex("DE"), None);
}

#[test]
fn identifiers_are_validated() {
    assert!(ClientId::new("07-grandpa-0".to_string()).is_ok());
    assert_eq!(
        ClientId::new(String::new()).err(),
        Some(Error::MalformedInput)
    );
    assert_eq!(
        ClientId::new("has space".to_string()).err(),
        Some(Error::MalformedInput)
    );
    assert_eq!(
        ClientId::new("x".repeat(129)).err(),
        Some(Error::MalformedInput)
    );
    assert!(ClientId::new("x".repeat(128)).is_ok());
}

#[test]
fn backend_dispatch_is_a_closed_set() {
    assert_eq!(classify_backend("cosmos"), Some(ChainBackend::CosmosSdk));
    assert_eq!(classify_backend("substrate"), Some(ChainBackend::Substrate));
    assert_eq!(classify_backend("osmosis"), None);
    assert_eq!(classify_backend(""), None);
}

#[test]
fn connection_ids_keep_order() {
    let listed = vec![
        IdentifiedConnection {
            connection_id: ConnectionId::new("connection-0".to_string()).unwrap(),
            end_bytes: vec![1],
        },
        IdentifiedConnection {
            connection_id: ConnectionId::new("connection-3".to_string()).unwrap(),
            end_bytes: vec![2],
        },
    ];
    let ids = connection_ids(&listed);
    assert_eq!(ids.len(), 2);
    assert_eq!(ids[0].as_str(), "connection-0");
    assert_eq!(ids[1].as_str(), "connection-3");
}

#[test]
fn chain_not_found_message() {
    let cmd = QueryConnectionsCmd::new(ChainId::new("ibc-0".to_string()).unwrap());
    assert_eq!(
        cmd.not_found_message(),
        "chain 'ibc-0' not found in configuration file"
    );
}

#[test]
fn height_order_is_lexicographic() {
    let a = Height::new(0, 100);
    let b = Height::new(0, 101);
    let c = Height::new(1, 0);
    assert!(a.lt(&b));
    assert!(b.lt(&c));
    assert!(a.lt(&c));
    assert!(!a.lt(&a));
    assert!(!c.lt(&a));
}
