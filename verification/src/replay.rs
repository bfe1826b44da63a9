//! The replay session state machine: chain-id reconciliation, the
//! destination-ahead precondition, mining-mode setup, the per-block
//! submission loop under the failure-tolerance policy, and the entropy
//! warning. The machine decides; the caller performs each action over
//! the wire and hands the outcome back as the next event.

use vstd::prelude::*;
use crate::format::{spec_parse_hex, spec_dec_str, hex_to_decimal, str_equal};
use crate::types::{Transaction, TransactionParams, spec_legacy_hex, spec_eip1559_hex, legacy_fields_valid, eip1559_fields_valid};

verus! {

/// The per-session policy: the tolerable failure ratio as a fraction,
/// whether one failure aborts the session, and the submission mode.
#[derive(Debug, Clone)]
pub struct ReplayConfig {
    /// Numerator of the entropy threshold fraction.
    pub entropy_threshold_num: u64,
    /// Denominator of the entropy threshold fraction; never zero.
    pub entropy_threshold_den: u64,
    /// Abort the whole session on the first failed submission.
    pub exit_on_tx_fail: bool,
    /// Submit unsigned parameter sets instead of raw signed envelopes;
    /// only for trusted sandbox nodes, never a default.
    pub send_as_unsigned: bool,
}

/// One fetched block, as the machine consumes it: its timestamp and its
/// transactions in order.
#[derive(Debug, Clone)]
pub struct BlockData {
    pub timestamp: u64,
    pub transactions: Vec<Transaction>,
}

/// What the session can fail with.
#[derive(Debug, Clone)]
pub enum ReplayError {
    /// Source and destination answer different chain ids; checked
    /// before any state-mutating call.
    ChainIdMismatch,
    /// The destination's block number already exceeds the terminal
    /// block; checked before any block is read.
    DestinationAhead,
    /// The destination's chain id is not a hex number.
    InvalidChainId,
    /// A fetched transaction could not be re-encoded.
    InvalidTransaction,
    /// A submission failed while the abort-on-failure policy is set;
    /// carries the node's message.
    TransactionFailed(String),
    /// A transport or protocol failure reported by the caller.
    RpcFailure(String),
    /// An event that does not answer the pending action.
    ProtocolViolation,
    /// The session had already failed when the event arrived.
    SessionAborted,
}

/// The mathematical content of a [`ReplayError`].
pub ghost enum ReplayErrorView {
    ChainIdMismatch,
    DestinationAhead,
    InvalidChainId,
    InvalidTransaction,
    TransactionFailed(Seq<char>),
    RpcFailure(Seq<char>),
    ProtocolViolation,
    SessionAborted,
}

impl View for ReplayError {
    type V = ReplayErrorView;

    open spec fn view(&self) -> ReplayErrorView {
        match self {
            ReplayError::ChainIdMismatch => ReplayErrorView::ChainIdMismatch,
            ReplayError::DestinationAhead => ReplayErrorView::DestinationAhead,
            ReplayError::InvalidChainId => ReplayErrorView::InvalidChainId,
            ReplayError::InvalidTransaction => ReplayErrorView::InvalidTransaction,
            ReplayError::TransactionFailed(m) => ReplayErrorView::TransactionFailed(m@),
            ReplayError::RpcFailure(m) => ReplayErrorView::RpcFailure(m@),
            ReplayError::ProtocolViolation => ReplayErrorView::ProtocolViolation,
            ReplayError::SessionAborted => ReplayErrorView::SessionAborted,
        }
    }
}

impl ReplayError {
    /// Whether this error is a precondition failure: a condition found
    /// wrong before any state-mutating call was issued.
    pub fn is_precondition_failure(&self) -> (r: bool)
        ensures
            r == (self@ is ChainIdMismatch || self@ is DestinationAhead),
    {
        match self {
            ReplayError::ChainIdMismatch => true,
            ReplayError::DestinationAhead => true,
            _ => false,
        }
    }
}

/// What the caller hands back after performing an action.
pub enum ReplayEvent {
    /// Both chain ids, as the nodes answered them.
    ChainIds { source: String, dest: String },
    /// The destination's current block number.
    DestBlockNumber(u64),
    /// A mining-control call succeeded.
    Ack,
    /// The fetched source block.
    SourceBlock(BlockData),
    /// The pending submission was accepted.
    TxAccepted,
    /// The pending submission was rejected, with the node's message.
    TxRejected(String),
    /// A transport failure while performing the action.
    RpcFailed(String),
}

/// The payload of one submission: unsigned parameters or a raw signed
/// envelope.
pub enum SubmissionPayload {
    Unsigned(TransactionParams),
    Raw(String),
}

/// What the machine asks the caller to do next.
pub enum ReplayAction {
    /// Fetch both chain ids.
    FetchChainIds,
    /// Fetch the destination's block number.
    FetchDestBlockNumber,
    /// Set the destination's automine mode.
    SetAutomine(bool),
    /// Set the destination's interval mining, in milliseconds.
    SetIntervalMining(u64),
    /// Fetch this block, with transactions, from the source.
    FetchSourceBlock(u64),
    /// Submit this payload to the destination.
    SubmitTransaction(SubmissionPayload),
    /// Print the high-entropy warning; never aborts the session.
    WarnHighEntropy,
    /// Set the destination's next block timestamp.
    SetNextTimestamp(u64),
    /// Mine one block on the destination.
    Mine,
    /// The session is complete.
    Finished,
    /// The session failed; stop.
    Failed(ReplayError),
}

/// The mathematical content of a [`TransactionParams`].
pub ghost struct TxParamsView {
    pub from: Seq<char>,
    pub to: Option<Seq<char>>,
    pub value: Seq<char>,
    pub gas: Seq<char>,
    pub gasPrice: Seq<char>,
    pub data: Seq<char>,
    pub nonce: Option<Seq<char>>,
    pub chainId: Option<Seq<char>>,
}

impl View for TransactionParams {
    type V = TxParamsView;

    open spec fn view(&self) -> TxParamsView {
        TxParamsView {
            from: self.from@,
            to: match self.to {
                Some(a) => Some(a@),
                None => None,
            },
            value: self.value@,
            gas: self.gas@,
            gasPrice: self.gasPrice@,
            data: self.data@,
            nonce: match self.nonce {
                Some(x) => Some(x@),
                None => None,
            },
            chainId: match self.chainId {
                Some(x) => Some(x@),
                None => None,
            },
        }
    }
}

/// The mathematical content of a [`ReplayAction`].
pub ghost enum ActionView {
    FetchChainIds,
    FetchDestBlockNumber,
    SetAutomine(bool),
    SetIntervalMining(u64),
    FetchSourceBlock(u64),
    SubmitUnsigned(TxParamsView),
    SubmitRaw(Seq<char>),
    WarnHighEntropy,
    SetNextTimestamp(u64),
    Mine,
    Finished,
    Failed(ReplayErrorView),
}

impl View for ReplayAction {
    type V = ActionView;

    open spec fn view(&self) -> ActionView {
        match self {
            ReplayAction::FetchChainIds => ActionView::FetchChainIds,
            ReplayAction::FetchDestBlockNumber => ActionView::FetchDestBlockNumber,
            ReplayAction::SetAutomine(b) => ActionView::SetAutomine(*b),
            ReplayAction::SetIntervalMining(x) => ActionView::SetIntervalMining(*x),
            ReplayAction::FetchSourceBlock(x) => ActionView::FetchSourceBlock(*x),
            ReplayAction::SubmitTransaction(p) => match p {
                SubmissionPayload::Unsigned(t) => ActionView::SubmitUnsigned(t@),
                SubmissionPayload::Raw(s) => ActionView::SubmitRaw(s@),
            },
            ReplayAction::WarnHighEntropy => ActionView::WarnHighEntropy,
            ReplayAction::SetNextTimestamp(x) => ActionView::SetNextTimestamp(*x),
            ReplayAction::Mine => ActionView::Mine,
            ReplayAction::Finished => ActionView::Finished,
            ReplayAction::Failed(e) => ActionView::Failed(e@),
        }
    }
}

/// Where the session stands; the data the phase needs lives in the
/// machine's fields.
#[derive(Debug, Clone, Copy, PartialEq, Eq, Structural)]
pub enum ReplayPhase {
    /// Waiting for both chain ids.
    AwaitChainIds,
    /// Ids matched; waiting for the destination's starting block.
    AwaitStartBlock,
    /// Waiting for the automine-off acknowledgement.
    AwaitAutomineAck,
    /// Waiting for the interval-mining acknowledgement.
    AwaitIntervalAck,
    /// Waiting for the source block to replay next.
    AwaitBlock,
    /// Submitting the fetched block's transactions one by one.
    Submitting,
    /// Waiting for the warning to be printed.
    AwaitWarnAck,
    /// Waiting for the next-block-timestamp acknowledgement.
    AwaitTimestampAck,
    /// Waiting for the mine acknowledgement.
    AwaitMineAck,
    /// Waiting for the destination's block number after mining.
    AwaitLoopBlock,
    /// Caught up to the terminal block.
    Done,
    /// The session failed.
    Failed,
}

/// The historic replay session: drives the destination from its current
/// block up to `until`, one source block at a time.
pub struct HistoricReplay {
    pub config: ReplayConfig,
    /// The terminal block of the session.
    pub until: u64,
    pub phase: ReplayPhase,
    /// The destination chain id, once the ids have matched.
    pub chain_id: u64,
    /// The destination's block number, as last reported.
    pub dest_block: u64,
    /// The source timestamp of the block being replayed.
    pub timestamp: u64,
    /// The transactions of the block being replayed.
    pub transactions: Vec<Transaction>,
    /// The next transaction to submit.
    pub next_tx: usize,
    /// How many submissions of this block failed.
    pub failed_txs: u64,
}

/// Whether the failed fraction strictly exceeds the threshold fraction:
/// `failed / total > num / den`, compared without division.
pub open spec fn spec_entropy_exceeded(num: u64, den: u64, failed: u64, total: u64) -> bool {
    (failed as int) * (den as int) > (num as int) * (total as int)
}

/// Compares `failed / total` against `num / den` exactly.
pub fn entropy_exceeded(num: u64, den: u64, failed: u64, total: u64) -> (r: bool)
    ensures
        r == spec_entropy_exceeded(num, den, failed, total),
{
    proof {
        vstd::arithmetic::mul::lemma_mul_upper_bound(
            failed as int,
            u64::MAX as int,
            den as int,
            u64::MAX as int,
        );
        vstd::arithmetic::mul::lemma_mul_upper_bound(
            num as int,
            u64::MAX as int,
            total as int,
            u64::MAX as int,
        );
    }
    (failed as u128) * (den as u128) > (num as u128) * (total as u128)
}

/// The submission-or-batch-end decision: the next action while a block
/// is being replayed.
pub open spec fn spec_submit_step(m: HistoricReplay) -> (HistoricReplay, ActionView) {
    if m.next_tx >= m.transactions.len() {
        if spec_entropy_exceeded(
            m.config.entropy_threshold_num,
            m.config.entropy_threshold_den,
            m.failed_txs,
            m.transactions.len() as u64,
        ) {
            (HistoricReplay { phase: ReplayPhase::AwaitWarnAck, ..m }, ActionView::WarnHighEntropy)
        } else {
            (
                HistoricReplay { phase: ReplayPhase::AwaitTimestampAck, ..m },
                ActionView::SetNextTimestamp(m.timestamp),
            )
        }
    } else {
        let tx = m.transactions[m.next_tx as int];
        if m.config.send_as_unsigned {
            (
                HistoricReplay { phase: ReplayPhase::Submitting, ..m },
                ActionView::SubmitUnsigned(
                    TxParamsView {
                        from: tx.from@,
                        to: match tx.to {
                            Some(a) => Some(a@),
                            None => None,
                        },
                        value: tx.value@,
                        gas: tx.gas@,
                        gasPrice: tx.gasPrice@,
                        data: tx.input@,
                        nonce: Some(tx.nonce@),
                        chainId: Some(spec_dec_str(m.chain_id as nat)),
                    },
                ),
            )
        } else {
            if tx.maxFeePerGas is Some {
                if eip1559_fields_valid(tx) {
                    (
                        HistoricReplay { phase: ReplayPhase::Submitting, ..m },
                        ActionView::SubmitRaw(spec_eip1559_hex(tx, m.chain_id)),
                    )
                } else {
                    (
                        HistoricReplay { phase: ReplayPhase::Failed, ..m },
                        ActionView::Failed(ReplayErrorView::InvalidTransaction),
                    )
                }
            } else {
                if legacy_fields_valid(tx) {
                    (
                        HistoricReplay { phase: ReplayPhase::Submitting, ..m },
                        ActionView::SubmitRaw(spec_legacy_hex(tx)),
                    )
                } else {
                    (
                        HistoricReplay { phase: ReplayPhase::Failed, ..m },
                        ActionView::Failed(ReplayErrorView::InvalidTransaction),
                    )
                }
            }
        }
    }
}

/// After a fresh destination block number: fetch the next source block,
/// or finish when caught up.
pub open spec fn spec_loop_decision(m: HistoricReplay, dest_block: u64) -> (
    HistoricReplay,
    ActionView,
) {
    if m.until > dest_block {
        (
            HistoricReplay { phase: ReplayPhase::AwaitBlock, dest_block, ..m },
            ActionView::FetchSourceBlock((dest_block + 1) as u64),
        )
    } else {
        (HistoricReplay { phase: ReplayPhase::Done, dest_block, ..m }, ActionView::Finished)
    }
}

impl HistoricReplay {
    /// A fresh session toward `until`; the first action is
    /// [`ReplayAction::FetchChainIds`].
    pub fn new(config: ReplayConfig, until: u64) -> (r: HistoricReplay)
        ensures
            r.config == config,
            r.until == until,
            r.phase == ReplayPhase::AwaitChainIds,
    {
        HistoricReplay {
            config,
            until,
            phase: ReplayPhase::AwaitChainIds,
            chain_id: 0,
            dest_block: 0,
            timestamp: 0,
            transactions: Vec::new(),
            next_tx: 0,
            failed_txs: 0,
        }
    }

    /// What the caller should do first.
    pub fn start(&self) -> (a: ReplayAction)
        ensures
            a@ == ActionView::FetchChainIds,
    {
        ReplayAction::FetchChainIds
    }

    /// The submission-or-batch-end decision.
    fn submit_step(&mut self) -> (a: ReplayAction)
        ensures
            *final(self) == spec_submit_step(*old(self)).0,
            a@ == spec_submit_step(*old(self)).1,
    {
        let n = self.transactions.len();
        if self.next_tx >= n {
            if entropy_exceeded(
                self.config.entropy_threshold_num,
                self.config.entropy_threshold_den,
                self.failed_txs,
                n as u64,
            ) {
                self.phase = ReplayPhase::AwaitWarnAck;
                ReplayAction::WarnHighEntropy
            } else {
                self.phase = ReplayPhase::AwaitTimestampAck;
                ReplayAction::SetNextTimestamp(self.timestamp)
            }
        } else {
            if self.config.send_as_unsigned {
                let params = self.transactions[self.next_tx].to_unsigned_params(self.chain_id);
                self.phase = ReplayPhase::Submitting;
                ReplayAction::SubmitTransaction(SubmissionPayload::Unsigned(params))
            } else {
                match self.transactions[self.next_tx].rlp_serialize_tx(self.chain_id) {
                    Ok(raw) => {
                        self.phase = ReplayPhase::Submitting;
                        ReplayAction::SubmitTransaction(SubmissionPayload::Raw(raw))
                    },
                    Err(_) => {
                        self.phase = ReplayPhase::Failed;
                        ReplayAction::Failed(ReplayError::InvalidTransaction)
                    },
                }
            }
        }
    }

    /// Fetch the next source block, or finish when caught up.
    fn loop_decision(&mut self, dest_block: u64) -> (a: ReplayAction)
        ensures
            *final(self) == spec_loop_decision(*old(self), dest_block).0,
            a@ == spec_loop_decision(*old(self), dest_block).1,
    {
        self.dest_block = dest_block;
        if self.until > dest_block {
            self.phase = ReplayPhase::AwaitBlock;
            ReplayAction::FetchSourceBlock(dest_block + 1)
        } else {
            self.phase = ReplayPhase::Done;
            ReplayAction::Finished
        }
    }

    /// Feeds the outcome of the last action in and returns the next
    /// action, exactly as [`spec_step`] describes.
    pub fn step(&mut self, event: ReplayEvent) -> (a: ReplayAction)
        ensures
            *final(self) == spec_step(*old(self), event).0,
            a@ == spec_step(*old(self), event).1,
    {
        if matches!(self.phase, ReplayPhase::Done) {
            return ReplayAction::Finished;
        }
        if matches!(self.phase, ReplayPhase::Failed) {
            return ReplayAction::Failed(ReplayError::SessionAborted);
        }
        match event {
            ReplayEvent::RpcFailed(msg) => {
                self.phase = ReplayPhase::Failed;
                ReplayAction::Failed(ReplayError::RpcFailure(msg))
            },
            ReplayEvent::ChainIds { source, dest } => {
                if !matches!(self.phase, ReplayPhase::AwaitChainIds) {
                    self.phase = ReplayPhase::Failed;
                    ReplayAction::Failed(ReplayError::ProtocolViolation)
                } else if !str_equal(source.as_str(), dest.as_str()) {
                    self.phase = ReplayPhase::Failed;
                    ReplayAction::Failed(ReplayError::ChainIdMismatch)
                } else {
                    match hex_to_decimal(dest.as_str()) {
                        Ok(cid) => {
                            self.chain_id = cid;
                            self.phase = ReplayPhase::AwaitStartBlock;
                            ReplayAction::FetchDestBlockNumber
                        },
                        Err(_) => {
                            self.phase = ReplayPhase::Failed;
                            ReplayAction::Failed(ReplayError::InvalidChainId)
                        },
                    }
                }
            },
            ReplayEvent::DestBlockNumber(n) => {
                if matches!(self.phase, ReplayPhase::AwaitStartBlock) {
                    if n > self.until {
                        self.phase = ReplayPhase::Failed;
                        ReplayAction::Failed(ReplayError::DestinationAhead)
                    } else {
                        self.dest_block = n;
                        self.phase = ReplayPhase::AwaitAutomineAck;
                        ReplayAction::SetAutomine(false)
                    }
                } else if matches!(self.phase, ReplayPhase::AwaitLoopBlock) {
                    self.loop_decision(n)
                } else {
                    self.phase = ReplayPhase::Failed;
                    ReplayAction::Failed(ReplayError::ProtocolViolation)
                }
            },
            ReplayEvent::Ack => {
                if matches!(self.phase, ReplayPhase::AwaitAutomineAck) {
                    self.phase = ReplayPhase::AwaitIntervalAck;
                    ReplayAction::SetIntervalMining(4294967295)
                } else if matches!(self.phase, ReplayPhase::AwaitIntervalAck) {
                    let d = self.dest_block;
                    self.loop_decision(d)
                } else if matches!(self.phase, ReplayPhase::AwaitWarnAck) {
                    self.phase = ReplayPhase::AwaitTimestampAck;
                    ReplayAction::SetNextTimestamp(self.timestamp)
                } else if matches!(self.phase, ReplayPhase::AwaitTimestampAck) {
                    self.phase = ReplayPhase::AwaitMineAck;
                    ReplayAction::Mine
                } else if matches!(self.phase, ReplayPhase::AwaitMineAck) {
                    self.phase = ReplayPhase::AwaitLoopBlock;
                    ReplayAction::FetchDestBlockNumber
                } else {
                    self.phase = ReplayPhase::Failed;
                    ReplayAction::Failed(ReplayError::ProtocolViolation)
                }
            },
            ReplayEvent::SourceBlock(bd) => {
                if matches!(self.phase, ReplayPhase::AwaitBlock) {
                    self.phase = ReplayPhase::Submitting;
                    self.timestamp = bd.timestamp;
                    self.transactions = bd.transactions;
                    self.next_tx = 0;
                    self.failed_txs = 0;
                    self.submit_step()
                } else {
                    self.phase = ReplayPhase::Failed;
                    ReplayAction::Failed(ReplayError::ProtocolViolation)
                }
            },
            ReplayEvent::TxAccepted => {
                if matches!(self.phase, ReplayPhase::Submitting) && self.next_tx
                    < self.transactions.len() {
                    self.next_tx = self.next_tx + 1;
                    self.submit_step()
                } else {
                    self.phase = ReplayPhase::Failed;
                    ReplayAction::Failed(ReplayError::ProtocolViolation)
                }
            },
            ReplayEvent::TxRejected(msg) => {
                if matches!(self.phase, ReplayPhase::Submitting) && self.next_tx
                    < self.transactions.len() {
                    if self.config.exit_on_tx_fail {
                        self.phase = ReplayPhase::Failed;
                        ReplayAction::Failed(ReplayError::TransactionFailed(msg))
                    } else {
                        self.next_tx = self.next_tx + 1;
                        if self.failed_txs < 0xffff_ffff_ffff_ffff {
                            self.failed_txs = self.failed_txs + 1;
                        }
                        self.submit_step()
                    }
                } else {
                    self.phase = ReplayPhase::Failed;
                    ReplayAction::Failed(ReplayError::ProtocolViolation)
                }
            },
        }
    }
}

/// The whole transition function of the session machine.
pub open spec fn spec_step(m: HistoricReplay, event: ReplayEvent) -> (HistoricReplay, ActionView) {
    if m.phase is Done {
        (m, ActionView::Finished)
    } else if m.phase is Failed {
        (
            HistoricReplay { phase: ReplayPhase::Failed, ..m },
            ActionView::Failed(ReplayErrorView::SessionAborted),
        )
    } else {
        match event {
            ReplayEvent::RpcFailed(msg) => (
                HistoricReplay { phase: ReplayPhase::Failed, ..m },
                ActionView::Failed(ReplayErrorView::RpcFailure(msg@)),
            ),
            ReplayEvent::ChainIds { source, dest } => {
                if !(m.phase is AwaitChainIds) {
                    (
                        HistoricReplay { phase: ReplayPhase::Failed, ..m },
                        ActionView::Failed(ReplayErrorView::ProtocolViolation),
                    )
                } else if source@ != dest@ {
                    (
                        HistoricReplay { phase: ReplayPhase::Failed, ..m },
                        ActionView::Failed(ReplayErrorView::ChainIdMismatch),
                    )
                } else {
                    match spec_parse_hex(dest@) {
                        Ok(cid) => (
                            HistoricReplay { phase: ReplayPhase::AwaitStartBlock, chain_id: cid, ..m },
                            ActionView::FetchDestBlockNumber,
                        ),
                        Err(_) => (
                            HistoricReplay { phase: ReplayPhase::Failed, ..m },
                            ActionView::Failed(ReplayErrorView::InvalidChainId),
                        ),
                    }
                }
            },
            ReplayEvent::DestBlockNumber(n) => {
                if m.phase is AwaitStartBlock {
                    if n > m.until {
                        (
                            HistoricReplay { phase: ReplayPhase::Failed, ..m },
                            ActionView::Failed(ReplayErrorView::DestinationAhead),
                        )
                    } else {
                        (
                            HistoricReplay { phase: ReplayPhase::AwaitAutomineAck, dest_block: n, ..m },
                            ActionView::SetAutomine(false),
                        )
                    }
                } else if m.phase is AwaitLoopBlock {
                    spec_loop_decision(m, n)
                } else {
                    (
                        HistoricReplay { phase: ReplayPhase::Failed, ..m },
                        ActionView::Failed(ReplayErrorView::ProtocolViolation),
                    )
                }
            },
            ReplayEvent::Ack => {
                if m.phase is AwaitAutomineAck {
                    (
                        HistoricReplay { phase: ReplayPhase::AwaitIntervalAck, ..m },
                        ActionView::SetIntervalMining(4294967295),
                    )
                } else if m.phase is AwaitIntervalAck {
                    spec_loop_decision(m, m.dest_block)
                } else if m.phase is AwaitWarnAck {
                    (
                        HistoricReplay { phase: ReplayPhase::AwaitTimestampAck, ..m },
                        ActionView::SetNextTimestamp(m.timestamp),
                    )
                } else if m.phase is AwaitTimestampAck {
                    (HistoricReplay { phase: ReplayPhase::AwaitMineAck, ..m }, ActionView::Mine)
                } else if m.phase is AwaitMineAck {
                    (
                        HistoricReplay { phase: ReplayPhase::AwaitLoopBlock, ..m },
                        ActionView::FetchDestBlockNumber,
                    )
                } else {
                    (
                        HistoricReplay { phase: ReplayPhase::Failed, ..m },
                        ActionView::Failed(ReplayErrorView::ProtocolViolation),
                    )
                }
            },
            ReplayEvent::SourceBlock(bd) => {
                if m.phase is AwaitBlock {
                    spec_submit_step(
                        HistoricReplay {
                            phase: ReplayPhase::Submitting,
                            timestamp: bd.timestamp,
                            transactions: bd.transactions,
                            next_tx: 0,
                            failed_txs: 0,
                            ..m
                        },
                    )
                } else {
                    (
                        HistoricReplay { phase: ReplayPhase::Failed, ..m },
                        ActionView::Failed(ReplayErrorView::ProtocolViolation),
                    )
                }
            },
            ReplayEvent::TxAccepted => {
                if m.phase is Submitting && m.next_tx < m.transactions.len() {
                    spec_submit_step(HistoricReplay { next_tx: (m.next_tx + 1) as usize, ..m })
                } else {
                    (
                        HistoricReplay { phase: ReplayPhase::Failed, ..m },
                        ActionView::Failed(ReplayErrorView::ProtocolViolation),
                    )
                }
            },
            ReplayEvent::TxRejected(msg) => {
                if m.phase is Submitting && m.next_tx < m.transactions.len() {
                    if m.config.exit_on_tx_fail {
                        (
                            HistoricReplay { phase: ReplayPhase::Failed, ..m },
                            ActionView::Failed(ReplayErrorView::TransactionFailed(msg@)),
                        )
                    } else {
                        spec_submit_step(
                            HistoricReplay {
                                next_tx: (m.next_tx + 1) as usize,
                                failed_txs: if m.failed_txs < 0xffff_ffff_ffff_ffff {
                                    (m.failed_txs + 1) as u64
                                } else {
                                    m.failed_txs
                                },
                                ..m
                            },
                        )
                    }
                } else {
                    (
                        HistoricReplay { phase: ReplayPhase::Failed, ..m },
                        ActionView::Failed(ReplayErrorView::ProtocolViolation),
                    )
                }
            },
        }
    }
}


/// A whole session at the specification level: the machine folded over
/// a sequence of events, with the actions it emits.
pub open spec fn spec_run(m: HistoricReplay, events: Seq<ReplayEvent>) -> (
    HistoricReplay,
    Seq<ActionView>,
)
    decreases events.len(),
{
    if events.len() == 0 {
        (m, Seq::empty())
    } else {
        let (m1, a) = spec_step(m, events[0]);
        let (m2, rest) = spec_run(m1, events.skip(1));
        (m2, seq![a] + rest)
    }
}

/// The actions that control the destination's mining behavior.
pub open spec fn is_mining_control(a: ActionView) -> bool {
    a is SetAutomine || a is SetIntervalMining || a is SetNextTimestamp || a is Mine
}

/// For all sessions where the answered chain ids differ, the machine
/// fails with the chain-id precondition and never issues a
/// mining-control action, whatever else happens.
pub proof fn lemma_chain_mismatch_no_mining(m: HistoricReplay, events: Seq<ReplayEvent>)
    requires
        m.phase is AwaitChainIds,
        forall|i: int|
            0 <= i < events.len() ==> ((#[trigger] events[i]) matches ReplayEvent::ChainIds {
                source,
                dest,
            } ==> source@ != dest@),
    ensures
        forall|j: int| 0 <= j < spec_run(m, events).1.len() ==> !is_mining_control(
            #[trigger] spec_run(m, events).1[j],
        ),
        spec_run(m, events).0.phase is AwaitChainIds || spec_run(m, events).0.phase is Failed,
        events.len() > 0 && events[0] is ChainIds ==> spec_run(m, events).1[0]
            == ActionView::Failed(ReplayErrorView::ChainIdMismatch),
    decreases events.len(),
{
    if events.len() > 0 {
        let (m1, a) = spec_step(m, events[0]);
        assert(!is_mining_control(a));
        assert(spec_run(m, events).1[0] == a);
        assert(m1.phase is AwaitChainIds || m1.phase is Failed);
        if m1.phase is Failed {
            lemma_failed_stays_failed(m1, events.skip(1));
        } else {
            lemma_chain_mismatch_no_mining(m1, events.skip(1));
        }
        let (m2, rest) = spec_run(m1, events.skip(1));
        assert forall|j: int| 0 <= j < spec_run(m, events).1.len() implies !is_mining_control(
            #[trigger] spec_run(m, events).1[j],
        ) by {
            if j > 0 {
                assert(spec_run(m, events).1[j] == rest[j - 1]);
            }
        }
    }
}

/// Once failed, the machine stays failed and only reports the abort.
pub proof fn lemma_failed_stays_failed(m: HistoricReplay, events: Seq<ReplayEvent>)
    requires
        m.phase is Failed,
    ensures
        forall|j: int| 0 <= j < spec_run(m, events).1.len() ==> (#[trigger] spec_run(
            m,
            events,
        ).1[j]) == ActionView::Failed(ReplayErrorView::SessionAborted),
        spec_run(m, events).0.phase is Failed,
    decreases events.len(),
{
    if events.len() > 0 {
        let (m1, a) = spec_step(m, events[0]);
        lemma_failed_stays_failed(m1, events.skip(1));
        let (m2, rest) = spec_run(m1, events.skip(1));
        assert forall|j: int| 0 <= j < spec_run(m, events).1.len() implies (#[trigger] spec_run(
            m,
            events,
        ).1[j]) == ActionView::Failed(ReplayErrorView::SessionAborted) by {
            if j > 0 {
                assert(spec_run(m, events).1[j] == rest[j - 1]);
            }
        }
    }
}

/// For all historic replays where every reported destination block
/// number exceeds the terminal block, the machine fails with the
/// destination-ahead precondition and never asks for a block's
/// contents.
pub proof fn lemma_destination_ahead_no_fetch(m: HistoricReplay, events: Seq<ReplayEvent>)
    requires
        m.phase is AwaitChainIds || m.phase is AwaitStartBlock || m.phase is Failed,
        forall|i: int|
            0 <= i < events.len() ==> ((#[trigger] events[i]) matches ReplayEvent::DestBlockNumber(
                n,
            ) ==> n > m.until),
    ensures
        forall|j: int| 0 <= j < spec_run(m, events).1.len() ==> !((#[trigger] spec_run(
            m,
            events,
        ).1[j]) is FetchSourceBlock),
        spec_run(m, events).0.phase is AwaitChainIds || spec_run(m, events).0.phase is AwaitStartBlock
            || spec_run(m, events).0.phase is Failed,
        m.phase is AwaitStartBlock && events.len() > 0 && events[0] is DestBlockNumber ==> spec_run(
            m,
            events,
        ).1[0] == ActionView::Failed(ReplayErrorView::DestinationAhead),
    decreases events.len(),
{
    if events.len() > 0 {
        let (m1, a) = spec_step(m, events[0]);
        assert(!(a is FetchSourceBlock));
        assert(spec_run(m, events).1[0] == a);
        assert(m1.until == m.until);
        assert(m1.phase is AwaitChainIds || m1.phase is AwaitStartBlock || m1.phase is Failed);
        lemma_destination_ahead_no_fetch(m1, events.skip(1));
        let (m2, rest) = spec_run(m1, events.skip(1));
        assert forall|j: int| 0 <= j < spec_run(m, events).1.len() implies !((#[trigger] spec_run(
            m,
            events,
        ).1[j]) is FetchSourceBlock) by {
            if j > 0 {
                assert(spec_run(m, events).1[j] == rest[j - 1]);
            }
        }
    }
}

/// The phases a session confined to an already-caught-up destination
/// can reach.
pub open spec fn caught_up_phase(m: HistoricReplay) -> bool {
    ||| m.phase is AwaitChainIds
    ||| m.phase is AwaitStartBlock
    ||| m.phase is Failed
    ||| m.phase is Done
    ||| (m.phase is AwaitAutomineAck && m.dest_block >= m.until)
    ||| (m.phase is AwaitIntervalAck && m.dest_block >= m.until)
}

/// Idempotence of historic replay: when every reported destination
/// block number already meets or exceeds the terminal block, the
/// machine never issues a mine action.
pub proof fn lemma_caught_up_no_mine(m: HistoricReplay, events: Seq<ReplayEvent>)
    requires
        caught_up_phase(m),
        forall|i: int|
            0 <= i < events.len() ==> ((#[trigger] events[i]) matches ReplayEvent::DestBlockNumber(
                n,
            ) ==> n >= m.until),
    ensures
        forall|j: int| 0 <= j < spec_run(m, events).1.len() ==> !((#[trigger] spec_run(
            m,
            events,
        ).1[j]) is Mine),
        caught_up_phase(spec_run(m, events).0),
    decreases events.len(),
{
    if events.len() > 0 {
        let (m1, a) = spec_step(m, events[0]);
        assert(!(a is Mine));
        assert(m1.until == m.until);
        assert(caught_up_phase(m1));
        lemma_caught_up_no_mine(m1, events.skip(1));
        let (m2, rest) = spec_run(m1, events.skip(1));
        assert forall|j: int| 0 <= j < spec_run(m, events).1.len() implies !((#[trigger] spec_run(
            m,
            events,
        ).1[j]) is Mine) by {
            if j > 0 {
                assert(spec_run(m, events).1[j] == rest[j - 1]);
            }
        }
    }
}

/// The live-tail decision: whether the observed source head warrants a
/// catch-up replay, and to which block.
pub fn live_replay_target(latest_block: &str, dest_head: &str) -> (r: Option<
    Result<u64, crate::format::NumParseError>,
>)
    ensures
        latest_block@ == dest_head@ ==> r is None,
        latest_block@ != dest_head@ ==> r is Some && r->0 == spec_parse_hex(latest_block@),
{
    if str_equal(latest_block, dest_head) {
        None
    } else {
        Some(hex_to_decimal(latest_block))
    }
}

} // verus!
