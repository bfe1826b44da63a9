//! The JSON-RPC 2.0 wire layer: request bodies for every method the
//! tool issues, and classification of what a node sends back. The
//! transport itself (HTTP) stays outside the library; callers hand the
//! response body in as text.

use vstd::prelude::*;
use crate::error::RequestError;
use crate::format::spec_dec_str;
use crate::output::{json_escape, json_quoted, escape_json_string};

verus! {

/// A JSON-RPC 2.0 request body with id 1, the only id the tool uses.
/// `params` must already be a JSON array; an empty array, never null,
/// satisfies nodes that reject null params.
pub open spec fn spec_request(method: Seq<char>, params: Seq<char>) -> Seq<char> {
    "{\"method\":\""@ + json_escape(method) + "\",\"params\":"@ + params
        + ",\"id\":1,\"jsonrpc\":\"2.0\"}"@
}

/// Builds the request body for `method` with the given JSON `params`
/// array.
pub fn build_request(method: &str, params: &str) -> (r: String)
    ensures
        r@ == spec_request(method@, params@),
{
    let mut out = String::from_str("{\"method\":\"");
    let escaped = escape_json_string(method);
    out.append(escaped.as_str());
    out.append("\",\"params\":");
    out.append(params);
    out.append(",\"id\":1,\"jsonrpc\":\"2.0\"}");
    out
}

/// The empty params array.
pub fn params_empty() -> (r: String)
    ensures
        r@ == "[]"@,
{
    String::from_str("[]")
}

/// Appends `s` as a quoted, escaped JSON string.
fn push_json_string(out: &mut String, s: &str)
    ensures
        final(out)@ == old(out)@ + json_quoted(s@),
{
    out.append("\"");
    let body = escape_json_string(s);
    out.append(body.as_str());
    out.append("\"");
    proof {
        reveal_strlit("\"");
        assert(out@ =~= old(out)@ + json_quoted(s@));
    }
}

/// A one-string params array.
pub fn params_one_string(s: &str) -> (r: String)
    ensures
        r@ == seq!['['] + json_quoted(s@) + seq![']'],
{
    proof {
        reveal_strlit("[");
        reveal_strlit("]");
    }
    let mut out = String::from_str("[");
    push_json_string(&mut out, s);
    out.append("]");
    proof {
        assert(out@ =~= seq!['['] + json_quoted(s@) + seq![']']);
    }
    out
}

/// The params of `eth_getBlockByNumber`: the block tag and `true`, to
/// fetch whole transactions.
pub fn params_block_by_number(block_number: &str) -> (r: String)
    ensures
        r@ == seq!['['] + json_quoted(block_number@) + ",true]"@,
{
    proof {
        reveal_strlit("[");
    }
    let mut out = String::from_str("[");
    push_json_string(&mut out, block_number);
    out.append(",true]");
    proof {
        assert(out@ =~= seq!['['] + json_quoted(block_number@) + ",true]"@);
    }
    out
}

/// A three-string params array, as `eth_getStorageAt` takes: address,
/// slot, block tag.
pub fn params_three_strings(a: &str, b: &str, c: &str) -> (r: String)
    ensures
        r@ == seq!['['] + json_quoted(a@) + seq![','] + json_quoted(b@) + seq![','] + json_quoted(
            c@,
        ) + seq![']'],
{
    proof {
        reveal_strlit("[");
        reveal_strlit(",");
        reveal_strlit("]");
    }
    let mut out = String::from_str("[");
    push_json_string(&mut out, a);
    out.append(",");
    push_json_string(&mut out, b);
    out.append(",");
    push_json_string(&mut out, c);
    out.append("]");
    proof {
        assert(out@ =~= seq!['['] + json_quoted(a@) + seq![','] + json_quoted(b@) + seq![',']
            + json_quoted(c@) + seq![']']);
    }
    out
}

/// A one-bool params array, as `evm_setAutomine` takes.
pub fn params_bool(b: bool) -> (r: String)
    ensures
        b ==> r@ == "[true]"@,
        !b ==> r@ == "[false]"@,
{
    if b {
        String::from_str("[true]")
    } else {
        String::from_str("[false]")
    }
}

/// A one-number params array, as the interval and timestamp methods take.
pub fn params_u64(x: u64) -> (r: String)
    ensures
        r@ == seq!['['] + spec_dec_str(x as nat) + seq![']'],
{
    proof {
        reveal_strlit("[");
        reveal_strlit("]");
    }
    let mut out = String::from_str("[");
    let dec = crate::format::decimal_string(x);
    out.append(dec.as_str());
    out.append("]");
    proof {
        assert(out@ =~= seq!['['] + spec_dec_str(x as nat) + seq![']']);
    }
    out
}

/// The params of `eth_call`: a call object with a null `from`, and the
/// block tag.
pub fn params_call(to: &str, data: &str, block_number: &str) -> (r: String)
    ensures
        r@ == "[{\"from\":null,\"to\":"@ + json_quoted(to@) + ",\"data\":"@ + json_quoted(data@)
            + "},"@ + json_quoted(block_number@) + seq![']'],
{
    proof {
        reveal_strlit("]");
    }
    let mut out = String::from_str("[{\"from\":null,\"to\":");
    push_json_string(&mut out, to);
    out.append(",\"data\":");
    push_json_string(&mut out, data);
    out.append("},");
    push_json_string(&mut out, block_number);
    out.append("]");
    proof {
        assert(out@ =~= "[{\"from\":null,\"to\":"@ + json_quoted(to@) + ",\"data\":"@ + json_quoted(
            data@,
        ) + "},"@ + json_quoted(block_number@) + seq![']']);
    }
    out
}

/// What the response parser hands back: whether the body was JSON at
/// all, the text of its `result` field if one is present, and the text
/// of its error message.
pub struct ParsedRpcResponse {
    pub parse_ok: bool,
    pub result: Option<String>,
    pub error_message: String,
}

/// Whether serde_json parses this body.
pub uninterp spec fn rpc_parse_ok(body: Seq<char>) -> bool;

/// The compact text of the body's top-level `result` field, if the body
/// parses and carries one.
pub uninterp spec fn rpc_result_field(body: Seq<char>) -> Option<Seq<char>>;

/// The diagnostic text for a body without a usable `result`: the text
/// of its `error.message` field (`null` when absent), or serde_json's
/// own message when the body is not JSON.
pub uninterp spec fn rpc_error_message(body: Seq<char>) -> Seq<char>;

/// Relies on serde_json::from_str and serde_json::Value::{get, index,
/// to_string}: whether `body` parses as JSON, the compact rendering of
/// its `result` field, and the rendering of its `error.message` field;
/// each is a function of `body` alone.
#[verifier::external_body]
fn parse_rpc_body(body: &str) -> (r: ParsedRpcResponse)
    ensures
        r.parse_ok == rpc_parse_ok(body@),
        (match r.result {
            Some(s) => rpc_result_field(body@) == Some(s@),
            None => rpc_result_field(body@) is None,
        }),
        r.error_message@ == rpc_error_message(body@),
        r.result is Some ==> r.parse_ok,
{
    match serde_json::from_str::<serde_json::Value>(body) {
        Ok(v) => {
            let result = match v.get("result") {
                Some(x) => Some(x.to_string()),
                None => None,
            };
            let error_message = v["error"]["message"].to_string();
            ParsedRpcResponse { parse_ok: true, result, error_message }
        },
        Err(e) => ParsedRpcResponse { parse_ok: false, result: None, error_message: e.to_string() },
    }
}

/// Classifies a parsed response: a present `result` is success; a body
/// that parsed without one is a node-reported failure carrying the
/// error message verbatim; a body that did not parse is a
/// deserialization failure.
pub fn decode_response(r: ParsedRpcResponse) -> (res: Result<String, RequestError>)
    ensures
        !r.parse_ok ==> res is Err && res->Err_0 is JsonDeserializationFailed
            && res->Err_0->JsonDeserializationFailed_0@ == r.error_message@,
        r.parse_ok && r.result is Some ==> res is Ok && res->Ok_0@ == r.result->0@,
        r.parse_ok && r.result is None ==> res is Err && res->Err_0 is RequestFailed
            && res->Err_0->RequestFailed_0@ == r.error_message@,
{
    if !r.parse_ok {
        Err(RequestError::JsonDeserializationFailed(r.error_message))
    } else {
        match r.result {
            Some(text) => Ok(text),
            None => Err(RequestError::RequestFailed(r.error_message)),
        }
    }
}

/// Decodes a raw response body: parses it and classifies the outcome.
pub fn decode_rpc_body(body: &str) -> (res: Result<String, RequestError>)
    ensures
        rpc_parse_ok(body@) && rpc_result_field(body@) is Some ==> res is Ok && res->Ok_0@
            == rpc_result_field(body@)->0,
        rpc_parse_ok(body@) && rpc_result_field(body@) is None ==> res is Err
            && res->Err_0 is RequestFailed && res->Err_0->RequestFailed_0@ == rpc_error_message(
            body@,
        ),
        !rpc_parse_ok(body@) ==> res is Err && res->Err_0 is JsonDeserializationFailed
            && res->Err_0->JsonDeserializationFailed_0@ == rpc_error_message(body@),
{
    let parsed = parse_rpc_body(body);
    decode_response(parsed)
}

/// All leading quote characters removed.
pub open spec fn spec_trim_lead(s: Seq<char>) -> Seq<char>
    decreases s.len(),
{
    if s.len() > 0 && s[0] == '"' {
        spec_trim_lead(s.skip(1))
    } else {
        s
    }
}

/// All trailing quote characters removed.
pub open spec fn spec_trim_trail(s: Seq<char>) -> Seq<char>
    decreases s.len(),
{
    if s.len() > 0 && s.last() == '"' {
        spec_trim_trail(s.drop_last())
    } else {
        s
    }
}

/// All leading and trailing quote characters removed, as the client
/// normalizes string results of storage reads and calls.
pub open spec fn spec_unquote(s: Seq<char>) -> Seq<char> {
    spec_trim_trail(spec_trim_lead(s))
}

proof fn lemma_trim_lead_skip(s: Seq<char>, a: int)
    requires
        0 <= a <= s.len(),
        forall|k: int| 0 <= k < a ==> s[k] == '"',
        a == s.len() || s[a] != '"',
    ensures
        spec_trim_lead(s) == s.skip(a),
    decreases a,
{
    if a == 0 {
        assert(s.skip(0) =~= s);
    } else {
        assert(s[0] == '"');
        let t = s.skip(1);
        assert(forall|k: int| 0 <= k < a - 1 ==> t[k] == '"');
        lemma_trim_lead_skip(t, a - 1);
        assert(t.skip(a - 1) =~= s.skip(a));
    }
}

proof fn lemma_trim_trail_take(s: Seq<char>, b: int)
    requires
        0 <= b <= s.len(),
        forall|k: int| b <= k < s.len() ==> s[k] == '"',
        b == 0 || s[b - 1] != '"',
    ensures
        spec_trim_trail(s) == s.take(b),
    decreases s.len() - b,
{
    if b == s.len() {
        assert(s.take(b) =~= s);
    } else {
        assert(s.last() == '"');
        let t = s.drop_last();
        assert(forall|k: int| b <= k < t.len() ==> t[k] == '"');
        lemma_trim_trail_take(t, b);
        assert(t.take(b) =~= s.take(b));
    }
}

/// Strips every leading and trailing quote character from `s`.
pub fn unquote(s: &str) -> (r: String)
    ensures
        r@ == spec_unquote(s@),
{
    let n = s.unicode_len();
    let mut a: usize = 0;
    while a < n && s.get_char(a) == '"'
        invariant
            a <= n,
            n == s@.len(),
            forall|k: int| 0 <= k < a ==> s@[k] == '"',
        decreases n - a,
    {
        a = a + 1;
    }
    proof {
        lemma_trim_lead_skip(s@, a as int);
    }
    let ghost mid = s@.skip(a as int);
    let mut b: usize = n;
    while b > a && s.get_char(b - 1) == '"'
        invariant
            a <= b <= n,
            n == s@.len(),
            forall|k: int| b <= k < n ==> s@[k] == '"',
        decreases b,
    {
        b = b - 1;
    }
    proof {
        assert(forall|k: int| b - a <= k < mid.len() ==> mid[k] == '"');
        if b > a {
            assert(mid[b - a - 1] == s@[b - 1]);
        }
        lemma_trim_trail_take(mid, b - a);
        assert(mid.take(b - a) =~= s@.subrange(a as int, b as int));
    }
    let piece = s.substring_char(a, b);
    piece.to_owned()
}

} // verus!
