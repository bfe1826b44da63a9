//! The request bodies of every JSON-RPC method the tool issues, one
//! builder per method. The transport posts these bodies verbatim and
//! hands the response text to `jsonrpc::decode_rpc_body`.

use vstd::prelude::*;
use crate::format::spec_dec_str;
use crate::jsonrpc::{spec_request, build_request, params_empty, params_one_string, params_block_by_number, params_three_strings, params_bool, params_u64, params_call};
use crate::output::{json_quoted, escape_json_string};
use crate::types::{TransactionParams, CallParams};

verus! {

/// A string field of a JSON object: quoted when present, `null` when
/// absent.
pub open spec fn opt_json_string(o: Option<String>) -> Seq<char> {
    match o {
        Some(s) => json_quoted(s@),
        None => "null"@,
    }
}

/// The unsigned parameter set as one JSON object.
pub open spec fn spec_tx_params_json(p: TransactionParams) -> Seq<char> {
    "{\"from\":"@ + json_quoted(p.from@) + ",\"to\":"@ + opt_json_string(p.to) + ",\"value\":"@
        + json_quoted(p.value@) + ",\"gas\":"@ + json_quoted(p.gas@) + ",\"gasPrice\":"@
        + json_quoted(p.gasPrice@) + ",\"data\":"@ + json_quoted(p.data@) + ",\"nonce\":"@
        + opt_json_string(p.nonce) + ",\"chainId\":"@ + opt_json_string(p.chainId) + seq!['}']
}

/// Appends a quoted string or `null`.
fn push_opt_string(out: &mut String, o: &Option<String>)
    ensures
        final(out)@ == old(out)@ + opt_json_string(*o),
{
    match o {
        Some(s) => {
            out.append("\"");
            let body = escape_json_string(s.as_str());
            out.append(body.as_str());
            out.append("\"");
            proof {
                reveal_strlit("\"");
                assert(out@ =~= old(out)@ + json_quoted(s@));
            }
        },
        None => {
            out.append("null");
        },
    }
}

impl TransactionParams {
    /// Renders this parameter set as the one-element JSON params array
    /// `eth_sendUnsignedTransaction` takes.
    pub fn to_params_json(&self) -> (r: String)
        ensures
            r@ == seq!['['] + spec_tx_params_json(*self) + seq![']'],
    {
        proof {
            reveal_strlit("[");
            reveal_strlit("]");
            reveal_strlit("\"");
        }
        let mut out = String::from_str("[");
        out.append("{\"from\":");
        push_opt_string(&mut out, &Some(self.from.clone()));
        out.append(",\"to\":");
        push_opt_string(&mut out, &self.to);
        out.append(",\"value\":");
        push_opt_string(&mut out, &Some(self.value.clone()));
        out.append(",\"gas\":");
        push_opt_string(&mut out, &Some(self.gas.clone()));
        out.append(",\"gasPrice\":");
        push_opt_string(&mut out, &Some(self.gasPrice.clone()));
        out.append(",\"data\":");
        push_opt_string(&mut out, &Some(self.data.clone()));
        out.append(",\"nonce\":");
        push_opt_string(&mut out, &self.nonce);
        out.append(",\"chainId\":");
        push_opt_string(&mut out, &self.chainId);
        out.append("}]");
        proof {
            reveal_strlit("}]");
            assert(out@ =~= seq!['['] + spec_tx_params_json(*self) + seq![']']);
        }
        out
    }
}

/// The request body of `eth_blockNumber`.
pub fn block_number_request() -> (r: String)
    ensures
        r@ == spec_request("eth_blockNumber"@, "[]"@),
{
    let params = params_empty();
    build_request("eth_blockNumber", params.as_str())
}

/// The request body of `eth_chainId`.
pub fn chain_id_request() -> (r: String)
    ensures
        r@ == spec_request("eth_chainId"@, "[]"@),
{
    let params = params_empty();
    build_request("eth_chainId", params.as_str())
}

/// The request body of `eth_getBlockByNumber`, asking for whole
/// transactions.
pub fn get_block_by_number_request(block_number: &str) -> (r: String)
    ensures
        r@ == spec_request(
            "eth_getBlockByNumber"@,
            seq!['['] + json_quoted(block_number@) + ",true]"@,
        ),
{
    let params = params_block_by_number(block_number);
    build_request("eth_getBlockByNumber", params.as_str())
}

/// The request body of `eth_getStorageAt` against the latest block.
pub fn get_storage_at_request(address: &str, slot: &str) -> (r: String)
    ensures
        r@ == spec_request(
            "eth_getStorageAt"@,
            seq!['['] + json_quoted(address@) + seq![','] + json_quoted(slot@) + seq![',']
                + json_quoted("latest"@) + seq![']'],
        ),
{
    let params = params_three_strings(address, slot, "latest");
    build_request("eth_getStorageAt", params.as_str())
}

/// The request body of `eth_getStorageAt` against one block.
pub fn get_storage_at_block_request(address: &str, slot: &str, block: &str) -> (r: String)
    ensures
        r@ == spec_request(
            "eth_getStorageAt"@,
            seq!['['] + json_quoted(address@) + seq![','] + json_quoted(slot@) + seq![',']
                + json_quoted(block@) + seq![']'],
        ),
{
    let params = params_three_strings(address, slot, block);
    build_request("eth_getStorageAt", params.as_str())
}

/// The request body of `eth_getTransactionByHash`.
pub fn get_transaction_by_hash_request(tx_hash: &str) -> (r: String)
    ensures
        r@ == spec_request("eth_getTransactionByHash"@, seq!['['] + json_quoted(tx_hash@) + seq![']']),
{
    let params = params_one_string(tx_hash);
    build_request("eth_getTransactionByHash", params.as_str())
}

/// The request body of `eth_sendRawTransaction`.
pub fn send_raw_transaction_request(raw_tx: &str) -> (r: String)
    ensures
        r@ == spec_request("eth_sendRawTransaction"@, seq!['['] + json_quoted(raw_tx@) + seq![']']),
{
    let params = params_one_string(raw_tx);
    build_request("eth_sendRawTransaction", params.as_str())
}

/// The request body of `eth_call` at one block; the call's `from` is
/// sent as null, as the tracker probes do.
pub fn call_request(tx: &CallParams, block_number: &str) -> (r: String)
    ensures
        r@ == spec_request(
            "eth_call"@,
            "[{\"from\":null,\"to\":"@ + json_quoted(tx.to@) + ",\"data\":"@ + json_quoted(tx.data@)
                + "},"@ + json_quoted(block_number@) + seq![']'],
        ),
{
    let params = params_call(tx.to.as_str(), tx.data.as_str(), block_number);
    build_request("eth_call", params.as_str())
}

/// The request body of `eth_sendUnsignedTransaction`, the
/// signature-bypass submission a trusted sandbox node offers.
pub fn send_unsigned_transaction_request(tx: &TransactionParams) -> (r: String)
    ensures
        r@ == spec_request(
            "eth_sendUnsignedTransaction"@,
            seq!['['] + spec_tx_params_json(*tx) + seq![']'],
        ),
{
    let params = tx.to_params_json();
    build_request("eth_sendUnsignedTransaction", params.as_str())
}

/// The request body of `evm_setAutomine`.
pub fn evm_set_automine_request(mode: bool) -> (r: String)
    ensures
        mode ==> r@ == spec_request("evm_setAutomine"@, "[true]"@),
        !mode ==> r@ == spec_request("evm_setAutomine"@, "[false]"@),
{
    let params = params_bool(mode);
    build_request("evm_setAutomine", params.as_str())
}

/// The request body of `evm_mine`.
pub fn evm_mine_request() -> (r: String)
    ensures
        r@ == spec_request("evm_mine"@, "[]"@),
{
    let params = params_empty();
    build_request("evm_mine", params.as_str())
}

/// The request body of `evm_setIntervalMining`, in milliseconds.
pub fn evm_set_interval_mining_request(interval: u64) -> (r: String)
    ensures
        r@ == spec_request(
            "evm_setIntervalMining"@,
            seq!['['] + spec_dec_str(interval as nat) + seq![']'],
        ),
{
    let params = params_u64(interval);
    build_request("evm_setIntervalMining", params.as_str())
}

/// The request body of `evm_setNextBlockTimestamp`, in UNIX seconds.
pub fn evm_set_next_block_timestamp_request(timestamp: u64) -> (r: String)
    ensures
        r@ == spec_request(
            "evm_setNextBlockTimestamp"@,
            seq!['['] + spec_dec_str(timestamp as nat) + seq![']'],
        ),
{
    let params = params_u64(timestamp);
    build_request("evm_setNextBlockTimestamp", params.as_str())
}

/// Whether the block listener has waited long enough (20 seconds)
/// without a new block that the heartbeat message is owed; the
/// listener then keeps polling, it never aborts.
pub fn heartbeat_due(elapsed_ms: u64) -> (r: bool)
    ensures
        r == (elapsed_ms >= 20000),
{
    elapsed_ms >= 20000
}

/// The request body of `hardhat_getAutomine`, the capability probe that
/// tells node flavors apart.
pub fn hardhat_get_automine_request() -> (r: String)
    ensures
        r@ == spec_request("hardhat_getAutomine"@, "[]"@),
{
    let params = params_empty();
    build_request("hardhat_getAutomine", params.as_str())
}

} // verus!
