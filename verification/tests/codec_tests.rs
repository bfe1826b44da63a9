use sothis::types::{EncodeError, Transaction};

fn base_tx() -> Transaction {
    Transaction {
        blockHash: "0x0".to_string(),
        blockNumber: "0x1".to_string(),
        hash: "0x0".to_string(),
        accessList: None,
        chainId: Some("0x1".to_string()),
        from: "0x2222222222222222222222222222222222222222".to_string(),
        gas: "0x1".to_string(),
        gasPrice: "0x1".to_string(),
        input: "0x".to_string(),
        maxFeePerGas: None,
        maxPriorityFeePerGas: None,
        nonce: "0x0".to_string(),
        r: "0x1".to_string(),
        s: "0x1".to_string(),
        to: None,
        transactionIndex: "0x0".to_string(),
        txType: "0x0".to_string(),
        v: "0x1b".to_string(),
        value: "0x0".to_string(),
    }
}

#[test]
fn legacy_minimal_envelope() {
    let tx = base_tx();
    assert_eq!(tx.rlp_serialize_tx(1).unwrap(), "0xc98001018080801b0101");
}

#[test]
fn legacy_envelope_with_recipient() {
    let mut tx = base_tx();
    tx.to = Some("0x1111111111111111111111111111111111111111".to_string());
    assert_eq!(
        tx.rlp_serialize_tx(1).unwrap(),
        "0xdd800101941111111111111111111111111111111111111111 80801b0101".replace(' ', "")
    );
}

#[test]
fn legacy_envelope_with_data() {
    let mut tx = base_tx();
    tx.input = "0x06fdde03".to_string();
    // data item: 0x84 header then the four bytes; 13 payload bytes in all.
    assert_eq!(
        tx.rlp_serialize_tx(1).unwrap(),
        "0xcd8001018080 8406fdde03 1b0101".replace(' ', "")
    );
}

#[test]
fn fee_market_envelope() {
    let mut tx = base_tx();
    tx.maxFeePerGas = Some("0x2".to_string());
    tx.maxPriorityFeePerGas = Some("0x1".to_string());
    tx.v = "0x0".to_string();
    assert_eq!(
        tx.rlp_serialize_tx(5).unwrap(),
        "0x02cc0580010201808080c0800101"
    );
}

#[test]
fn contract_creation_encodes_empty_to() {
    // An absent `to` must appear as the RLP empty string (0x80), not be
    // skipped: the list length counts it.
    let tx = base_tx();
    let encoded = tx.rlp_serialize_tx(1).unwrap();
    // payload: 80 01 01 80 80 80 1b 01 01 = 9 items, 9 bytes
    assert_eq!(&encoded[..4], "0xc9");
}

#[test]
fn codec_rejects_bad_nonce() {
    let mut tx = base_tx();
    tx.nonce = "0xzz".to_string();
    assert_eq!(tx.rlp_serialize_tx(1), Err(EncodeError::InvalidHex));
}

#[test]
fn codec_rejects_odd_data() {
    let mut tx = base_tx();
    tx.input = "0x123".to_string();
    assert_eq!(tx.rlp_serialize_tx(1), Err(EncodeError::InvalidHex));
}

#[test]
fn codec_rejects_short_address() {
    let mut tx = base_tx();
    tx.to = Some("0x1111".to_string());
    assert_eq!(tx.rlp_serialize_tx(1), Err(EncodeError::InvalidHex));
}

#[test]
fn codec_rejects_missing_priority_fee() {
    let mut tx = base_tx();
    tx.maxFeePerGas = Some("0x2".to_string());
    tx.maxPriorityFeePerGas = None;
    assert_eq!(tx.rlp_serialize_tx(1), Err(EncodeError::InvalidHex));
}

#[test]
fn long_data_uses_long_form_header() {
    let mut tx = base_tx();
    // 64 bytes of data: item header 0xb8 0x40, list goes long form too.
    let data: String = std::iter::repeat("ab").take(64).collect();
    tx.input = format!("0x{}", data);
    let encoded = tx.rlp_serialize_tx(1).unwrap();
    // list payload: 8 one-byte items + (2 + 64) data item = 74 bytes -> 0xf8 0x4a
    assert_eq!(&encoded[..8], "0xf84a80");
    assert!(encoded.contains("b840abab"));
}

#[test]
fn unsigned_params_copy_fields_and_override_chain_id() {
    let tx = base_tx();
    let params = tx.to_unsigned_params(5);
    assert_eq!(params.from, tx.from);
    assert_eq!(params.to, None);
    assert_eq!(params.value, "0x0");
    assert_eq!(params.gas, "0x1");
    assert_eq!(params.gasPrice, "0x1");
    assert_eq!(params.data, "0x");
    assert_eq!(params.nonce, Some("0x0".to_string()));
    assert_eq!(params.chainId, Some("5".to_string()));
}
