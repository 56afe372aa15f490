use tensor_vm::error::TvmError;
use tensor_vm::p2p::peer_book::{
    bootstrap_addresses, bootstrap_peer_address, decode_peer_records, encode_peer_records, read_peer_u64, upsert_peer_record, PeerRecord,
};

const PEER: &str = "QmYyQSo1c1Ym7orWxLYvCrM2EmxFTANf8wXmmE7DWjhx5N";

fn record(peer_id: &str, address: &str) -> PeerRecord {
    PeerRecord { peer_id: peer_id.to_owned(), address: address.to_owned() }
}

#[test]
fn peer_book_round_trips_valid_records() {
    let records = vec![
        record(PEER, "/ip4/127.0.0.1/tcp/4001"),
        record(PEER, "/dns4/example.test/tcp/4002"),
    ];
    let bytes = encode_peer_records(&records);
    assert!(bytes.starts_with(b"TENSORVM_LIBP2P_PEER_BOOK_V1\n"));
    assert_eq!(decode_peer_records(&bytes).unwrap(), records);
    assert_eq!(decode_peer_records(&encode_peer_records(&[])).unwrap(), Vec::<PeerRecord>::new());
}

#[test]
fn peer_book_rejects_damaged_files() {
    let good = encode_peer_records(&[record(PEER, "/ip4/127.0.0.1/tcp/4001")]);
    assert_eq!(decode_peer_records(b"NOT_A_PEER_BOOK"), Err(TvmError::Storage("invalid peer book magic")));
    assert_eq!(
        decode_peer_records(b"TENSORVM_LIBP2P_PEER_BOOK_V1\nshort"),
        Err(TvmError::Storage("invalid peer book length"))
    );
    let mut flipped = good.clone();
    let last = flipped.len() - 1;
    flipped[last] ^= 1;
    assert_eq!(decode_peer_records(&flipped), Err(TvmError::Storage("peer book checksum mismatch")));
    let bad_peer = encode_peer_records(&[record("not-a-peer-id", "/ip4/127.0.0.1/tcp/4001")]);
    assert_eq!(decode_peer_records(&bad_peer), Err(TvmError::Storage("invalid peer id")));
    let bad_addr = encode_peer_records(&[record(PEER, "127.0.0.1:4001")]);
    assert_eq!(decode_peer_records(&bad_addr), Err(TvmError::InvalidReceipt("invalid libp2p multiaddr")));
}

#[test]
fn peer_book_reader_reports_truncation() {
    let mut offset = 0;
    assert_eq!(read_peer_u64(&[1, 2, 3], &mut offset), Err(TvmError::Storage("truncated peer book u64")));
    assert_eq!(read_peer_u64(&7u64.to_le_bytes(), &mut offset), Ok(7));
    assert_eq!(offset, 8);
    let mut far = 100;
    assert_eq!(read_peer_u64(&[1, 2, 3], &mut far), Err(TvmError::Storage("truncated peer book u64")));
    assert_eq!(far, 100);
    assert!(record(PEER, "/ip4/1.2.3.4/tcp/1").is_valid());
    assert!(!record(PEER, "/not-a-protocol").is_valid());
}

#[test]
fn upsert_replaces_the_record_of_the_same_peer_or_appends() {
    let mut records = vec![record("peer-a", "/ip4/1.1.1.1/tcp/1"), record("peer-b", "/ip4/2.2.2.2/tcp/2")];
    upsert_peer_record(&mut records, record("peer-b", "/ip4/3.3.3.3/tcp/3"));
    assert_eq!(records, vec![record("peer-a", "/ip4/1.1.1.1/tcp/1"), record("peer-b", "/ip4/3.3.3.3/tcp/3")]);
    upsert_peer_record(&mut records, record("peer-c", "/ip4/4.4.4.4/tcp/4"));
    assert_eq!(records.len(), 3);
    assert_eq!(records[2], record("peer-c", "/ip4/4.4.4.4/tcp/4"));
}

const OTHER_PEER: &str = "QmNnooDu7bfjPFoTZYxMNLWUQJyrVwtbZg5gBMjTezGAJN";

#[test]
fn bootstrap_address_appends_the_peer_id() {
    let address = record(PEER, "/ip4/127.0.0.1/tcp/4001").bootstrap_multiaddr().unwrap();
    assert_eq!(address, format!("/ip4/127.0.0.1/tcp/4001/p2p/{PEER}"));
    let dns = record(PEER, "/dns4/example.test/tcp/4002").bootstrap_multiaddr().unwrap();
    assert_eq!(dns, format!("/dns4/example.test/tcp/4002/p2p/{PEER}"));
}

#[test]
fn bootstrap_address_keeps_a_matching_peer_suffix() {
    let full = format!("/ip4/127.0.0.1/tcp/4001/p2p/{PEER}");
    assert_eq!(record(PEER, &full).bootstrap_multiaddr().unwrap(), full);
    let alias = format!("/ip4/127.0.0.1/tcp/04001/ipfs/{PEER}");
    assert_eq!(record(PEER, &alias).bootstrap_multiaddr().unwrap(), full);
    let other = format!("/ip4/127.0.0.1/tcp/4001/p2p/{OTHER_PEER}");
    assert_eq!(
        record(PEER, &other).bootstrap_multiaddr(),
        Err(TvmError::Storage("peer book address peer id mismatch"))
    );
}

#[test]
fn bootstrap_address_needs_a_nonzero_tcp_port_and_valid_texts() {
    assert_eq!(
        record(PEER, "/ip4/127.0.0.1/tcp/0").bootstrap_multiaddr(),
        Err(TvmError::Storage("peer book address missing tcp port"))
    );
    assert_eq!(
        record(PEER, "/ip4/127.0.0.1/udp/4001").bootstrap_multiaddr(),
        Err(TvmError::Storage("peer book address missing tcp port"))
    );
    assert_eq!(
        record("not-a-peer-id", "/ip4/127.0.0.1/tcp/4001").bootstrap_multiaddr(),
        Err(TvmError::Storage("invalid peer id"))
    );
    assert_eq!(
        record(PEER, "127.0.0.1:4001").bootstrap_multiaddr(),
        Err(TvmError::InvalidReceipt("invalid libp2p multiaddr"))
    );
}

#[test]
fn peer_record_from_strings_checks_the_bootstrap_address() {
    let ok = PeerRecord::from_strings(PEER, "/ip4/10.0.0.1/tcp/4001").unwrap();
    assert_eq!(ok, record(PEER, "/ip4/10.0.0.1/tcp/4001"));
    assert_eq!(
        PeerRecord::from_strings(PEER, "/ip4/10.0.0.1/tcp/0"),
        Err(TvmError::Storage("peer book address missing tcp port"))
    );
    assert_eq!(record(PEER, "/ip4/1.2.3.4/tcp/1").peer_id().unwrap(), PEER);
    let parts = record(PEER, "/ip4/1.2.3.4/tcp/1").multiaddr().unwrap();
    assert_eq!(parts.len(), 2);
    assert_eq!(parts[1].tcp_port, Some(1));
    assert_eq!(parts[0].text, "/ip4/1.2.3.4");
}

#[test]
fn bootstrap_addresses_stop_at_the_first_bad_record() {
    let good = vec![record(PEER, "/ip4/1.1.1.1/tcp/1"), record(OTHER_PEER, "/ip4/2.2.2.2/tcp/2")];
    assert_eq!(
        bootstrap_addresses(&good).unwrap(),
        vec![format!("/ip4/1.1.1.1/tcp/1/p2p/{PEER}"), format!("/ip4/2.2.2.2/tcp/2/p2p/{OTHER_PEER}")]
    );
    let bad = vec![record(PEER, "/ip4/1.1.1.1/tcp/0"), record("x", "/ip4/2.2.2.2/tcp/2")];
    assert_eq!(bootstrap_addresses(&bad), Err(TvmError::Storage("peer book address missing tcp port")));
}

#[test]
fn bootstrap_peer_address_splits_off_the_peer() {
    let full = format!("/ip4/127.0.0.1/tcp/4001/p2p/{PEER}");
    let parts = record(PEER, &full).multiaddr().unwrap();
    let (peer, rest) = bootstrap_peer_address(parts).unwrap();
    assert_eq!(peer, PEER);
    assert_eq!(rest.len(), 2);
    assert_eq!(rest[1].text, "/tcp/4001");
    let plain = record(PEER, "/ip4/127.0.0.1/tcp/4001").multiaddr().unwrap();
    assert!(bootstrap_peer_address(plain).is_none());
    assert!(bootstrap_peer_address(Vec::new()).is_none());
}
