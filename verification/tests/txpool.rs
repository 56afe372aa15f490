use tensor_vm::hash::hex;
use tensor_vm::txpool::{Transaction, TransactionEnvelope, TxPool, parse_transaction_envelope};
use tensor_vm::types::{address, hash_bytes};
use tensor_vm::error::TvmError;

#[test]
fn txpool_deduplicates_receipts_and_attestations() {
    let id = hash_bytes(b"test", &[b"id"]);
    let mut pool = TxPool::default();
    assert!(pool.submit(Transaction::SubmitTensorOpReceipt(id)));
    assert!(!pool.submit(Transaction::SubmitTensorOpReceipt(id)));
    assert!(pool.submit(Transaction::SubmitAttestation(id)));
    assert!(pool.submit(Transaction::SubmitAttestation(id)));
    assert_eq!(pool.len(), 3);
    assert_eq!(pool.drain().len(), 3);
    assert!(pool.is_empty());
}

#[test]
fn txpool_pops_transactions_fifo() {
    let miner = address(b"pop-miner");
    let validator = address(b"pop-validator");
    let mut pool = TxPool::default();
    assert!(pool.submit(Transaction::RegisterMiner(miner)));
    assert!(pool.submit(Transaction::RegisterValidator(validator)));
    assert_eq!(pool.pop(), Some(Transaction::RegisterMiner(miner)));
    assert_eq!(pool.pop(), Some(Transaction::RegisterValidator(validator)));
    assert_eq!(pool.pop(), None);
}

#[test]
fn transaction_envelope_parser_handles_reference_payloads() {
    let miner = address(b"miner");
    let receiver = address(b"receiver");
    let receipt = hash_bytes(b"test", &[b"receipt"]);

    assert_eq!(
        parse_transaction_envelope(format!("register_miner {}", hex(&miner)).as_bytes())
            .unwrap(),
        TransactionEnvelope {
            sender: None,
            transaction: Transaction::RegisterMiner(miner),
        }
    );
    assert_eq!(
        parse_transaction_envelope(
            format!("transfer {} {} 25", hex(&miner), hex(&receiver)).as_bytes(),
        )
        .unwrap(),
        TransactionEnvelope {
            sender: Some(miner),
            transaction: Transaction::Transfer {
                to: receiver,
                amount: 25,
            },
        }
    );
    assert_eq!(
        parse_transaction_envelope(
            format!("submit_tensor_receipt {}", hex(&receipt)).as_bytes(),
        )
        .unwrap()
        .transaction,
        Transaction::SubmitTensorOpReceipt(receipt)
    );
    assert_eq!(
        parse_transaction_envelope(format!("register_validator {}", hex(&receiver)).as_bytes())
            .unwrap()
            .transaction,
        Transaction::RegisterValidator(receiver)
    );
    assert_eq!(
        parse_transaction_envelope(format!("claim_reward {}", hex(&miner)).as_bytes())
            .unwrap()
            .transaction,
        Transaction::ClaimReward(miner)
    );
    assert_eq!(
        parse_transaction_envelope(
            format!("submit_linear_receipt {}", hex(&receipt)).as_bytes(),
        )
        .unwrap()
        .transaction,
        Transaction::SubmitLinearTrainingStepReceipt(receipt)
    );
    assert_eq!(
        parse_transaction_envelope(format!("submit_attestation {}", hex(&receipt)).as_bytes(),)
            .unwrap()
            .transaction,
        Transaction::SubmitAttestation(receipt)
    );
}

#[test]
fn transaction_envelope_parser_rejects_bad_payloads() {
    let sender = address(b"bad-payload-sender");
    let receiver = address(b"bad-payload-receiver");
    assert!(parse_transaction_envelope(&[0xff]).is_err());
    assert!(parse_transaction_envelope(b"").is_err());
    assert!(parse_transaction_envelope(b"register_miner").is_err());
    assert!(parse_transaction_envelope(b"register_miner not-hex").is_err());
    assert!(
        parse_transaction_envelope(
            format!("register_miner 0x{}", hex(&address(b"prefixed"))).as_bytes()
        )
        .is_err()
    );
    assert!(
        parse_transaction_envelope(format!("register_miner {}", "g".repeat(64)).as_bytes())
            .is_err()
    );
    assert!(
        parse_transaction_envelope(
            format!("transfer {} {} nope", hex(&sender), hex(&receiver)).as_bytes()
        )
        .is_err()
    );
    assert!(
        parse_transaction_envelope(
            format!("transfer {} {}", hex(&sender), hex(&receiver)).as_bytes()
        )
        .is_err()
    );
    assert!(
        parse_transaction_envelope(
            format!("register_miner {} extra", hex(&address(b"extra"))).as_bytes()
        )
        .is_err()
    );
    assert!(parse_transaction_envelope(b"unknown 00").is_err());

    let uppercase = hex(&sender).to_ascii_uppercase();
    assert_eq!(
        parse_transaction_envelope(format!("register_miner {uppercase}").as_bytes())
            .unwrap()
            .transaction,
        Transaction::RegisterMiner(sender)
    );
}

#[test]
fn transaction_envelope_parser_reports_each_error() {
    let a = hex(&address(b"a"));
    let err = |body: &str| parse_transaction_envelope(body.as_bytes()).unwrap_err();
    assert_eq!(parse_transaction_envelope(&[0xff]).unwrap_err(), TvmError::InvalidReceipt("transaction body is not utf-8"));
    assert_eq!(err("  \t\n"), TvmError::InvalidReceipt("empty transaction body"));
    assert_eq!(err("mint 00"), TvmError::InvalidReceipt("unknown transaction kind"));
    assert_eq!(err("claim_reward"), TvmError::InvalidReceipt("missing hash token"));
    assert_eq!(err("claim_reward abc"), TvmError::InvalidReceipt("invalid hash length"));
    assert_eq!(err(&format!("claim_reward {}", "x".repeat(64))), TvmError::InvalidReceipt("invalid hex"));
    assert_eq!(err(&format!("claim_reward {a} {a}")), TvmError::InvalidReceipt("unexpected transaction body token"));
    assert_eq!(err(&format!("transfer {a} {a} 1 2")), TvmError::InvalidReceipt("unexpected transaction body token"));
    assert_eq!(err(&format!("transfer {a}")), TvmError::InvalidReceipt("missing hash token"));
    assert_eq!(err(&format!("transfer {a} {a}")), TvmError::InvalidReceipt("missing integer token"));
    assert_eq!(err(&format!("transfer {a} {a} -1")), TvmError::InvalidReceipt("invalid integer token"));
    assert_eq!(err(&format!("transfer {a} {a} 18446744073709551616")), TvmError::InvalidReceipt("invalid integer token"));
}

#[test]
fn transaction_envelope_parser_accepts_unicode_whitespace_and_plus_amounts() {
    let a = address(b"a");
    let b = address(b"b");
    let body = format!("\u{3000}transfer\u{a0}{}\t{}\n+18446744073709551615 ", hex(&a), hex(&b));
    assert_eq!(
        parse_transaction_envelope(body.as_bytes()).unwrap(),
        TransactionEnvelope {
            sender: Some(a),
            transaction: Transaction::Transfer { to: b, amount: u64::MAX },
        }
    );
}

#[test]
fn txpool_deduplicates_linear_receipts_against_tensor_receipts() {
    let id = hash_bytes(b"test", &[b"shared-receipt"]);
    let mut pool = TxPool::default();
    assert!(pool.submit(Transaction::SubmitLinearTrainingStepReceipt(id)));
    assert!(!pool.submit(Transaction::SubmitTensorOpReceipt(id)));
    let envelope = TransactionEnvelope { sender: None, transaction: Transaction::SubmitTensorOpReceipt(id) };
    assert!(!pool.submit_envelope(&envelope));
    assert_eq!(pool.len(), 1);
    assert_eq!(pool.drain(), vec![Transaction::SubmitLinearTrainingStepReceipt(id)]);
    assert!(!pool.submit(Transaction::SubmitTensorOpReceipt(id)));
}
