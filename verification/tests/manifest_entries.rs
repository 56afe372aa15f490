use tensor_vm::error::TvmError;
use tensor_vm::testnet::public_manifest_fields::{
    parse_manifest_entries, required_hash, required_string, ManifestEntry,
};
use tensor_vm::types::hash_bytes;

fn pairs<'a>(entries: &[ManifestEntry<'a>]) -> Vec<(&'a str, &'a str)> {
    entries.iter().map(|e| (e.key, e.value)).collect()
}

const MALFORMED: &str = "malformed bundle line";
const DUPLICATE: &str = "duplicate bundle field";

#[test]
fn manifest_entries_keep_order_and_skip_comments() {
    let input = "# header\n\nversion=1\n  # indented comment\nservice=a\r\nservice=b\nname= spaced value \n";
    let entries = parse_manifest_entries(input, &["service"], MALFORMED, DUPLICATE).unwrap();
    assert_eq!(
        pairs(&entries),
        vec![("version", "1"), ("service", "a"), ("service", "b"), ("name", " spaced value ")]
    );
}

#[test]
fn manifest_entries_cut_at_first_equals() {
    let entries = parse_manifest_entries("url=http://x/?a=b", &[], MALFORMED, DUPLICATE).unwrap();
    assert_eq!(pairs(&entries), vec![("url", "http://x/?a=b")]);
    let entries = parse_manifest_entries("=empty key", &[], MALFORMED, DUPLICATE).unwrap();
    assert_eq!(pairs(&entries), vec![("", "empty key")]);
    assert!(parse_manifest_entries("", &[], MALFORMED, DUPLICATE).unwrap().is_empty());
}

#[test]
fn manifest_entries_reject_duplicate_scalar_keys() {
    assert_eq!(
        parse_manifest_entries("a=1\nb=2\na=3", &["b"], MALFORMED, DUPLICATE).err(),
        Some(TvmError::InvalidReceipt(DUPLICATE))
    );
    assert!(parse_manifest_entries("a=1\nb=2\nb=3", &["b"], MALFORMED, DUPLICATE).is_ok());
}

#[test]
fn manifest_entries_reject_malformed_lines_and_keys() {
    assert_eq!(
        parse_manifest_entries("a=1\nno separator\n", &[], MALFORMED, DUPLICATE).err(),
        Some(TvmError::InvalidReceipt(MALFORMED))
    );
    assert_eq!(
        parse_manifest_entries("a =1", &[], MALFORMED, DUPLICATE).err(),
        Some(TvmError::InvalidReceipt("malformed manifest field key"))
    );
    assert_eq!(
        parse_manifest_entries("  a=1", &[], MALFORMED, DUPLICATE).err(),
        Some(TvmError::InvalidReceipt("malformed manifest field key"))
    );
}

#[test]
fn manifest_required_values_report_missing_fields() {
    let h = hash_bytes(b"test", &[b"x"]);
    assert_eq!(required_hash(Some(h)), Ok(h));
    assert_eq!(
        required_hash(None),
        Err(TvmError::InvalidReceipt("missing evidence manifest hash"))
    );
    assert_eq!(required_string(Some("s".to_string())), Ok("s".to_string()));
    assert_eq!(
        required_string(None),
        Err(TvmError::InvalidReceipt("missing evidence manifest string"))
    );
}
