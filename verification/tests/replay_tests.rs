use sothis::replay::{
    entropy_exceeded, live_replay_target, BlockData, HistoricReplay, ReplayAction, ReplayConfig,
    ReplayError, ReplayEvent, SubmissionPayload,
};
use sothis::types::Transaction;

fn simple_tx() -> Transaction {
    Transaction {
        blockHash: "0x0".to_string(),
        blockNumber: "0x1".to_string(),
        hash: "0x0".to_string(),
        accessList: None,
        chainId: Some("0x1".to_string()),
        from: "0x2222222222222222222222222222222222222222".to_string(),
        gas: "0x1".to_string(),
        gasPrice: "0x1".to_string(),
        input: "0x".to_string(),
        maxFeePerGas: None,
        maxPriorityFeePerGas: None,
        nonce: "0x0".to_string(),
        r: "0x1".to_string(),
        s: "0x1".to_string(),
        to: None,
        transactionIndex: "0x0".to_string(),
        txType: "0x0".to_string(),
        v: "0x1b".to_string(),
        value: "0x0".to_string(),
    }
}

fn config(exit_on_tx_fail: bool, unsigned: bool) -> ReplayConfig {
    ReplayConfig {
        entropy_threshold_num: 7,
        entropy_threshold_den: 100,
        exit_on_tx_fail,
        send_as_unsigned: unsigned,
    }
}

fn chain_ids(a: &str, b: &str) -> ReplayEvent {
    ReplayEvent::ChainIds {
        source: a.to_string(),
        dest: b.to_string(),
    }
}

#[test]
fn chain_id_mismatch_is_a_precondition_failure() {
    let mut m = HistoricReplay::new(config(false, true), 10);
    assert!(matches!(m.start(), ReplayAction::FetchChainIds));
    match m.step(chain_ids("0x1", "0x2")) {
        ReplayAction::Failed(e) => {
            assert!(matches!(e, ReplayError::ChainIdMismatch));
            assert!(e.is_precondition_failure());
        }
        other => panic!("unexpected action: {:?}", name_of(&other)),
    }
    // the failed session only reports the abort afterwards
    assert!(matches!(
        m.step(ReplayEvent::Ack),
        ReplayAction::Failed(ReplayError::SessionAborted)
    ));
}

#[test]
fn destination_ahead_is_a_precondition_failure() {
    let mut m = HistoricReplay::new(config(false, true), 3);
    m.start();
    assert!(matches!(
        m.step(chain_ids("0x1", "0x1")),
        ReplayAction::FetchDestBlockNumber
    ));
    match m.step(ReplayEvent::DestBlockNumber(5)) {
        ReplayAction::Failed(e) => {
            assert!(matches!(e, ReplayError::DestinationAhead));
            assert!(e.is_precondition_failure());
        }
        other => panic!("unexpected action: {:?}", name_of(&other)),
    }
}

#[test]
fn caught_up_session_never_mines() {
    let mut m = HistoricReplay::new(config(false, true), 3);
    m.start();
    m.step(chain_ids("0x1", "0x1"));
    assert!(matches!(
        m.step(ReplayEvent::DestBlockNumber(3)),
        ReplayAction::SetAutomine(false)
    ));
    assert!(matches!(
        m.step(ReplayEvent::Ack),
        ReplayAction::SetIntervalMining(4294967295)
    ));
    assert!(matches!(m.step(ReplayEvent::Ack), ReplayAction::Finished));
}

fn name_of(a: &ReplayAction) -> &'static str {
    match a {
        ReplayAction::FetchChainIds => "FetchChainIds",
        ReplayAction::FetchDestBlockNumber => "FetchDestBlockNumber",
        ReplayAction::SetAutomine(_) => "SetAutomine",
        ReplayAction::SetIntervalMining(_) => "SetIntervalMining",
        ReplayAction::FetchSourceBlock(_) => "FetchSourceBlock",
        ReplayAction::SubmitTransaction(_) => "SubmitTransaction",
        ReplayAction::WarnHighEntropy => "WarnHighEntropy",
        ReplayAction::SetNextTimestamp(_) => "SetNextTimestamp",
        ReplayAction::Mine => "Mine",
        ReplayAction::Finished => "Finished",
        ReplayAction::Failed(_) => "Failed",
    }
}

#[test]
fn three_block_catch_up_mines_exactly_three_times() {
    let mut m = HistoricReplay::new(config(false, true), 3);
    m.start();
    m.step(chain_ids("0x1", "0x1"));
    assert!(matches!(
        m.step(ReplayEvent::DestBlockNumber(0)),
        ReplayAction::SetAutomine(false)
    ));
    assert!(matches!(
        m.step(ReplayEvent::Ack),
        ReplayAction::SetIntervalMining(_)
    ));
    let mut action = m.step(ReplayEvent::Ack);
    let mut mines = 0u32;
    for block in 1u64..=3 {
        match action {
            ReplayAction::FetchSourceBlock(n) => assert_eq!(n, block),
            ref other => panic!("expected a block fetch, got {}", name_of(other)),
        }
        action = m.step(ReplayEvent::SourceBlock(BlockData {
            timestamp: 100 + block,
            transactions: vec![simple_tx()],
        }));
        assert!(matches!(
            action,
            ReplayAction::SubmitTransaction(SubmissionPayload::Unsigned(_))
        ));
        action = m.step(ReplayEvent::TxAccepted);
        match action {
            ReplayAction::SetNextTimestamp(ts) => assert_eq!(ts, 100 + block),
            ref other => panic!("expected a timestamp, got {}", name_of(other)),
        }
        action = m.step(ReplayEvent::Ack);
        assert!(matches!(action, ReplayAction::Mine));
        mines += 1;
        action = m.step(ReplayEvent::Ack);
        assert!(matches!(action, ReplayAction::FetchDestBlockNumber));
        action = m.step(ReplayEvent::DestBlockNumber(block));
    }
    assert!(matches!(action, ReplayAction::Finished));
    assert_eq!(mines, 3);
}

#[test]
fn one_failure_in_ten_warns_once_and_completes() {
    let mut m = HistoricReplay::new(config(false, true), 1);
    m.start();
    m.step(chain_ids("0x1", "0x1"));
    m.step(ReplayEvent::DestBlockNumber(0));
    m.step(ReplayEvent::Ack);
    let mut action = m.step(ReplayEvent::Ack);
    assert!(matches!(action, ReplayAction::FetchSourceBlock(1)));
    action = m.step(ReplayEvent::SourceBlock(BlockData {
        timestamp: 7,
        transactions: (0..10).map(|_| simple_tx()).collect(),
    }));
    let mut accepted = 0u32;
    let mut warns = 0u32;
    for i in 0..10 {
        assert!(matches!(action, ReplayAction::SubmitTransaction(_)));
        if i == 3 {
            action = m.step(ReplayEvent::TxRejected("boom".to_string()));
        } else {
            accepted += 1;
            action = m.step(ReplayEvent::TxAccepted);
        }
    }
    // 1 failure out of 10 exceeds 7%: warned once, session goes on
    assert!(matches!(action, ReplayAction::WarnHighEntropy));
    warns += 1;
    action = m.step(ReplayEvent::Ack);
    assert!(matches!(action, ReplayAction::SetNextTimestamp(7)));
    action = m.step(ReplayEvent::Ack);
    assert!(matches!(action, ReplayAction::Mine));
    action = m.step(ReplayEvent::Ack);
    assert!(matches!(action, ReplayAction::FetchDestBlockNumber));
    action = m.step(ReplayEvent::DestBlockNumber(1));
    assert!(matches!(action, ReplayAction::Finished));
    assert_eq!(accepted, 9);
    assert_eq!(warns, 1);
}

#[test]
fn no_warning_below_threshold() {
    let mut m = HistoricReplay::new(
        ReplayConfig {
            entropy_threshold_num: 1,
            entropy_threshold_den: 10,
            exit_on_tx_fail: false,
            send_as_unsigned: true,
        },
        1,
    );
    m.start();
    m.step(chain_ids("0x1", "0x1"));
    m.step(ReplayEvent::DestBlockNumber(0));
    m.step(ReplayEvent::Ack);
    let mut action = m.step(ReplayEvent::Ack);
    action = m.step(ReplayEvent::SourceBlock(BlockData {
        timestamp: 7,
        transactions: (0..10).map(|_| simple_tx()).collect(),
    }));
    for i in 0..10 {
        assert!(matches!(action, ReplayAction::SubmitTransaction(_)));
        if i == 0 {
            action = m.step(ReplayEvent::TxRejected("boom".to_string()));
        } else {
            action = m.step(ReplayEvent::TxAccepted);
        }
    }
    // exactly at the threshold (1/10), not above it: no warning
    assert!(matches!(action, ReplayAction::SetNextTimestamp(7)));
}

#[test]
fn exit_on_tx_fail_aborts_before_remaining_submissions() {
    let mut m = HistoricReplay::new(config(true, true), 1);
    m.start();
    m.step(chain_ids("0x1", "0x1"));
    m.step(ReplayEvent::DestBlockNumber(0));
    m.step(ReplayEvent::Ack);
    let mut action = m.step(ReplayEvent::Ack);
    assert!(matches!(action, ReplayAction::FetchSourceBlock(1)));
    action = m.step(ReplayEvent::SourceBlock(BlockData {
        timestamp: 7,
        transactions: (0..5).map(|_| simple_tx()).collect(),
    }));
    let mut submissions = 1u32;
    assert!(matches!(action, ReplayAction::SubmitTransaction(_)));
    action = m.step(ReplayEvent::TxRejected("nope".to_string()));
    match action {
        ReplayAction::Failed(ReplayError::TransactionFailed(msg)) => assert_eq!(msg, "nope"),
        ref other => panic!("expected abort, got {}", name_of(other)),
    }
    // transactions 2 to 5 are never asked for
    for _ in 0..4 {
        match m.step(ReplayEvent::TxAccepted) {
            ReplayAction::SubmitTransaction(_) => submissions += 1,
            _ => {}
        }
    }
    assert_eq!(submissions, 1);
}

#[test]
fn raw_mode_submits_encoded_envelope() {
    let mut m = HistoricReplay::new(config(false, false), 1);
    m.start();
    m.step(chain_ids("0x1", "0x1"));
    m.step(ReplayEvent::DestBlockNumber(0));
    m.step(ReplayEvent::Ack);
    m.step(ReplayEvent::Ack);
    let action = m.step(ReplayEvent::SourceBlock(BlockData {
        timestamp: 7,
        transactions: vec![simple_tx()],
    }));
    match action {
        ReplayAction::SubmitTransaction(SubmissionPayload::Raw(raw)) => {
            assert_eq!(raw, "0xc98001018080801b0101");
        }
        ref other => panic!("expected a raw submission, got {}", name_of(other)),
    }
}

#[test]
fn raw_mode_rejects_malformed_transaction() {
    let mut m = HistoricReplay::new(config(false, false), 1);
    m.start();
    m.step(chain_ids("0x1", "0x1"));
    m.step(ReplayEvent::DestBlockNumber(0));
    m.step(ReplayEvent::Ack);
    m.step(ReplayEvent::Ack);
    let mut tx = simple_tx();
    tx.nonce = "0xzz".to_string();
    let action = m.step(ReplayEvent::SourceBlock(BlockData {
        timestamp: 7,
        transactions: vec![tx],
    }));
    assert!(matches!(
        action,
        ReplayAction::Failed(ReplayError::InvalidTransaction)
    ));
}

#[test]
fn unsigned_mode_overrides_chain_id() {
    let mut m = HistoricReplay::new(config(false, true), 1);
    m.start();
    m.step(chain_ids("0x5", "0x5"));
    m.step(ReplayEvent::DestBlockNumber(0));
    m.step(ReplayEvent::Ack);
    m.step(ReplayEvent::Ack);
    let action = m.step(ReplayEvent::SourceBlock(BlockData {
        timestamp: 7,
        transactions: vec![simple_tx()],
    }));
    match action {
        ReplayAction::SubmitTransaction(SubmissionPayload::Unsigned(params)) => {
            assert_eq!(params.chainId, Some("5".to_string()));
            assert_eq!(params.nonce, Some("0x0".to_string()));
        }
        ref other => panic!("expected an unsigned submission, got {}", name_of(other)),
    }
}

#[test]
fn empty_block_mines_without_submissions() {
    let mut m = HistoricReplay::new(config(false, true), 1);
    m.start();
    m.step(chain_ids("0x1", "0x1"));
    m.step(ReplayEvent::DestBlockNumber(0));
    m.step(ReplayEvent::Ack);
    m.step(ReplayEvent::Ack);
    let action = m.step(ReplayEvent::SourceBlock(BlockData {
        timestamp: 7,
        transactions: Vec::new(),
    }));
    // zero failures of zero transactions never warns
    assert!(matches!(action, ReplayAction::SetNextTimestamp(7)));
}

#[test]
fn transport_failure_aborts() {
    let mut m = HistoricReplay::new(config(false, true), 1);
    m.start();
    let action = m.step(ReplayEvent::RpcFailed("connection refused".to_string()));
    match action {
        ReplayAction::Failed(ReplayError::RpcFailure(msg)) => {
            assert_eq!(msg, "connection refused");
            assert!(!ReplayError::RpcFailure(msg).is_precondition_failure());
        }
        ref other => panic!("expected a failure, got {}", name_of(other)),
    }
}

#[test]
fn invalid_chain_id_rejected() {
    let mut m = HistoricReplay::new(config(false, true), 1);
    m.start();
    let action = m.step(chain_ids("0xzz", "0xzz"));
    assert!(matches!(
        action,
        ReplayAction::Failed(ReplayError::InvalidChainId)
    ));
}

#[test]
fn entropy_ratio_comparison() {
    assert!(entropy_exceeded(7, 100, 1, 10));
    assert!(!entropy_exceeded(1, 10, 1, 10));
    assert!(!entropy_exceeded(7, 100, 0, 10));
    assert!(!entropy_exceeded(7, 100, 0, 0));
    assert!(entropy_exceeded(0, 1, 1, u64::MAX));
}

#[test]
fn live_target_decision() {
    assert!(live_replay_target("0x10", "0x10").is_none());
    assert_eq!(live_replay_target("0x11", "0x10"), Some(Ok(17)));
    assert!(matches!(live_replay_target("0xzz", "0x10"), Some(Err(_))));
}
