//! Rendering of an accumulated change list: CSV lines, the JSON object
//! shape the tool persists, and the strict reader for that JSON shape.

use vstd::prelude::*;
use crate::format::{digit_char, digit_str, spec_dec_str, decimal_string, is_hex_digit, is_dec_digit, spec_parse_hex, hex_to_decimal};
use crate::tracker::{StateChange, StateChangeList, CallChangeList, ChangeView, StateListView, CallListView};

verus! {

/// An ASCII word character, for the token boundaries of the decimal
/// normalizer.
pub open spec fn is_word_char(c: char) -> bool {
    is_dec_digit(c) || ('a' <= c && c <= 'z') || ('A' <= c && c <= 'Z') || c == '_'
}

/// The first position at or after `j` that is not a hex digit.
pub open spec fn hex_run_end(s: Seq<char>, j: int) -> int
    decreases s.len() - j,
{
    if j < 0 || j >= s.len() || !is_hex_digit(s[j]) {
        j
    } else {
        hex_run_end(s, j + 1)
    }
}

/// Whether a word-bounded `0x`-prefixed hex token starts at position `i`.
pub open spec fn token_at(s: Seq<char>, i: int) -> bool {
    &&& 0 <= i && i + 3 <= s.len()
    &&& (i == 0 || !is_word_char(s[i - 1]))
    &&& s[i] == '0' && s[i + 1] == 'x'
    &&& is_hex_digit(s[i + 2])
    &&& (hex_run_end(s, i + 2) == s.len() || !is_word_char(s[hex_run_end(s, i + 2)]))
}

/// What a matched token becomes: a 42-character token is an address and
/// stays; one whose value fits a `u64` becomes its decimal rendering;
/// one too large to fit stays as it is.
pub open spec fn token_replacement(s: Seq<char>, i: int) -> Seq<char> {
    let j = hex_run_end(s, i + 2);
    if j - i == 42 {
        s.subrange(i, j)
    } else {
        match spec_parse_hex(s.subrange(i, j)) {
            Ok(v) => spec_dec_str(v as nat),
            Err(_) => s.subrange(i, j),
        }
    }
}

/// The decimal normalization of `s` from position `i` on.
pub open spec fn spec_normalize_from(s: Seq<char>, i: int) -> Seq<char>
    decreases s.len() - i,
    via spec_normalize_from_dec
{
    if i < 0 || i >= s.len() {
        Seq::empty()
    } else if token_at(s, i) {
        token_replacement(s, i) + spec_normalize_from(s, hex_run_end(s, i + 2))
    } else {
        seq![s[i]] + spec_normalize_from(s, i + 1)
    }
}

#[via_fn]
proof fn spec_normalize_from_dec(s: Seq<char>, i: int) {
    if 0 <= i && i < s.len() && token_at(s, i) {
        lemma_hex_run_end_bounds(s, i + 2);
    }
}

proof fn lemma_hex_run_end_bounds(s: Seq<char>, j: int)
    requires
        0 <= j <= s.len(),
    ensures
        j <= hex_run_end(s, j) <= s.len(),
    decreases s.len() - j,
{
    if j < s.len() && is_hex_digit(s[j]) {
        lemma_hex_run_end_bounds(s, j + 1);
    }
}

proof fn lemma_hex_run_end_value(s: Seq<char>, start: int, j: int)
    requires
        0 <= start <= j <= s.len(),
        forall|k: int| start <= k < j ==> is_hex_digit(#[trigger] s[k]),
        j == s.len() || !is_hex_digit(s[j]),
    ensures
        hex_run_end(s, start) == j,
    decreases j - start,
{
    if start < j {
        lemma_hex_run_end_value(s, start + 1, j);
    }
}

/// The decimal normalization: every word-bounded `0x` hex token that is
/// not 42 characters long and whose value fits a `u64` is rewritten as a
/// decimal string; everything else is kept as it stands.
pub open spec fn spec_normalize(s: Seq<char>) -> Seq<char> {
    spec_normalize_from(s, 0)
}

/// One CSV line: the block number in decimal, a comma, the value.
pub open spec fn spec_csv_line(c: ChangeView) -> Seq<char> {
    spec_dec_str(c.block_number) + seq![','] + c.value
}

/// The CSV rendering: one line per entry, each ended by a newline,
/// no header row.
pub open spec fn spec_csv(s: Seq<ChangeView>) -> Seq<char>
    decreases s.len(),
{
    if s.len() == 0 {
        Seq::empty()
    } else {
        spec_csv(s.drop_last()) + spec_csv_line(s.last()) + seq!['\n']
    }
}

/// How one character appears inside a JSON string literal: quote and
/// backslash get a backslash escape, control characters a `\u00xx`
/// escape, anything else stands as itself.
pub open spec fn esc_char(c: char) -> Seq<char> {
    if c == '"' {
        seq!['\\', '"']
    } else if c == '\\' {
        seq!['\\', '\\']
    } else if (c as nat) < 32 {
        seq!['\\', 'u', '0', '0', digit_char((c as nat) / 16), digit_char((c as nat) % 16)]
    } else {
        seq![c]
    }
}

/// The escaped body of a JSON string literal.
pub open spec fn json_escape(s: Seq<char>) -> Seq<char>
    decreases s.len(),
{
    if s.len() == 0 {
        Seq::empty()
    } else {
        esc_char(s[0]) + json_escape(s.skip(1))
    }
}

/// A JSON string literal: quotes around the escaped body.
pub open spec fn json_quoted(s: Seq<char>) -> Seq<char> {
    seq!['"'] + json_escape(s) + seq!['"']
}

/// One entry as a JSON object.
pub open spec fn spec_json_change(c: ChangeView) -> Seq<char> {
    "{\"block_number\":"@ + spec_dec_str(c.block_number) + ",\"value\":"@ + json_quoted(c.value)
        + seq!['}']
}

/// The entries as the comma-separated items of a JSON array body.
pub open spec fn spec_json_items(s: Seq<ChangeView>) -> Seq<char>
    decreases s.len(),
{
    if s.len() == 0 {
        Seq::empty()
    } else if s.len() == 1 {
        spec_json_change(s[0])
    } else {
        spec_json_items(s.drop_last()) + seq![','] + spec_json_change(s.last())
    }
}

/// A slot change list as one JSON object.
pub open spec fn spec_json_state_list(v: StateListView) -> Seq<char> {
    "{\"address\":"@ + json_quoted(v.address) + ",\"storage_slot\":"@ + json_quoted(v.storage_slot)
        + ",\"state_changes\":["@ + spec_json_items(v.changes) + "]}"@
}

/// A call change list as one JSON object.
pub open spec fn spec_json_call_list(v: CallListView) -> Seq<char> {
    "{\"address\":"@ + json_quoted(v.address) + ",\"calldata\":"@ + json_quoted(v.calldata)
        + ",\"state_changes\":["@ + spec_json_items(v.changes) + "]}"@
}

/// Escapes `s` for use inside a JSON string literal.
pub fn escape_json_string(s: &str) -> (r: String)
    ensures
        r@ == json_escape(s@),
{
    let n = s.unicode_len();
    let mut out = String::new();
    let mut i: usize = 0;
    proof {
        assert(s@.skip(0) =~= s@);
    }
    while i < n
        invariant
            i <= n,
            n == s@.len(),
            out@ + json_escape(s@.skip(i as int)) == json_escape(s@),
        decreases n - i,
    {
        let ghost pre = out@;
        let ghost tail = s@.skip(i as int);
        let c = s.get_char(i);
        proof {
            assert(tail[0] == c);
            assert(tail.skip(1) =~= s@.skip(i + 1));
            assert(json_escape(tail) == esc_char(c) + json_escape(s@.skip(i + 1)));
        }
        if c == '"' {
            out.append("\\\"");
            proof {
                reveal_strlit("\\\"");
                assert(out@ =~= pre + esc_char(c));
            }
        } else if c == '\\' {
            out.append("\\\\");
            proof {
                reveal_strlit("\\\\");
                assert(out@ =~= pre + esc_char(c));
            }
        } else if (c as u32) < 32 {
            out.append("\\u00");
            out.append(digit_str(((c as u32) / 16) as usize));
            out.append(digit_str(((c as u32) % 16) as usize));
            proof {
                reveal_strlit("\\u00");
                assert(out@ =~= pre + esc_char(c));
            }
        } else {
            out.append(s.substring_char(i, i + 1));
            proof {
                assert(s@.subrange(i as int, i + 1) =~= seq![c]);
                assert(out@ =~= pre + esc_char(c));
            }
        }
        proof {
            assert(pre + json_escape(tail) =~= out@ + json_escape(s@.skip(i + 1)));
        }
        i = i + 1;
    }
    proof {
        assert(s@.skip(n as int) =~= Seq::<char>::empty());
        assert(out@ + json_escape(s@.skip(n as int)) =~= out@);
    }
    out
}

/// Appends `s` as a quoted, escaped JSON string literal.
fn push_quoted(out: &mut String, s: &str)
    ensures
        final(out)@ == old(out)@ + json_quoted(s@),
{
    out.append("\"");
    let body = escape_json_string(s);
    out.append(body.as_str());
    out.append("\"");
    proof {
        reveal_strlit("\"");
        assert(out@ =~= old(out)@ + json_quoted(s@));
    }
}

/// Appends one entry as a JSON object.
fn push_json_change(out: &mut String, c: &StateChange)
    ensures
        final(out)@ == old(out)@ + spec_json_change(c@),
{
    out.append("{\"block_number\":");
    let num = decimal_string(c.block_number);
    out.append(num.as_str());
    out.append(",\"value\":");
    push_quoted(out, c.value.as_str());
    out.append("}");
    proof {
        reveal_strlit("}");
        assert(out@ =~= old(out)@ + spec_json_change(c@));
    }
}

/// Appends the comma-separated JSON objects of the entries.
fn push_json_items(out: &mut String, changes: &Vec<StateChange>)
    ensures
        final(out)@ == old(out)@ + spec_json_items(changes@.map_values(|c: StateChange| c@)),
{
    let ghost views = changes@.map_values(|c: StateChange| c@);
    let mut i: usize = 0;
    while i < changes.len()
        invariant
            i <= changes@.len(),
            views == changes@.map_values(|c: StateChange| c@),
            out@ == old(out)@ + spec_json_items(views.take(i as int)),
        decreases changes@.len() - i,
    {
        let ghost pre = out@;
        if i > 0 {
            out.append(",");
            proof {
                reveal_strlit(",");
            }
        }
        push_json_change(out, &changes[i]);
        proof {
            let t = views.take(i + 1);
            assert(t.drop_last() =~= views.take(i as int));
            assert(t.last() == views[i as int]);
            if i > 0 {
                assert(spec_json_items(t) == spec_json_items(views.take(i as int)) + seq![',']
                    + spec_json_change(views[i as int]));
                assert(out@ =~= pre + seq![','] + spec_json_change(views[i as int]));
            } else {
                assert(t =~= seq![views[0]]);
                assert(spec_json_items(t) == spec_json_change(views[0]));
            }
            assert(out@ =~= old(out)@ + spec_json_items(t));
        }
        i = i + 1;
    }
    proof {
        assert(views.take(changes@.len() as int) =~= views);
    }
}

/// Renders the entries as CSV lines.
fn csv_of_changes(changes: &Vec<StateChange>) -> (r: String)
    ensures
        r@ == spec_csv(changes@.map_values(|c: StateChange| c@)),
{
    let ghost views = changes@.map_values(|c: StateChange| c@);
    let mut out = String::new();
    let mut i: usize = 0;
    while i < changes.len()
        invariant
            i <= changes@.len(),
            views == changes@.map_values(|c: StateChange| c@),
            out@ == spec_csv(views.take(i as int)),
        decreases changes@.len() - i,
    {
        let ghost pre = out@;
        let line = changes[i].serialize_csv();
        out.append(line.as_str());
        out.append("\n");
        proof {
            reveal_strlit("\n");
            let t = views.take(i + 1);
            assert(t.drop_last() =~= views.take(i as int));
            assert(t.last() == views[i as int]);
            assert(out@ =~= spec_csv(t));
        }
        i = i + 1;
    }
    proof {
        assert(views.take(changes@.len() as int) =~= views);
    }
    out
}

impl StateChange {
    /// This entry as its CSV line: decimal block number, comma, value.
    pub fn serialize_csv(&self) -> (r: String)
        ensures
            r@ == spec_csv_line(self@),
    {
        proof {
            reveal_strlit(",");
        }
        decimal_string(self.block_number).concat(",").concat(self.value.as_str())
    }
}

impl StateChangeList {
    /// The whole list as one JSON object.
    pub fn serialize_json(&self) -> (r: String)
        ensures
            r@ == spec_json_state_list(self@),
    {
        let mut out = String::from_str("{\"address\":");
        push_quoted(&mut out, self.address.as_str());
        out.append(",\"storage_slot\":");
        push_quoted(&mut out, self.storage_slot.as_str());
        out.append(",\"state_changes\":[");
        push_json_items(&mut out, &self.state_changes);
        out.append("]}");
        proof {
            assert(out@ =~= spec_json_state_list(self@));
        }
        out
    }

    /// The list as CSV: one `block,value` line per entry, no header.
    pub fn serialize_csv(&self) -> (r: String)
        ensures
            r@ == spec_csv(self@.changes),
    {
        csv_of_changes(&self.state_changes)
    }
}

impl CallChangeList {
    /// The whole list as one JSON object.
    pub fn serialize_json(&self) -> (r: String)
        ensures
            r@ == spec_json_call_list(self@),
    {
        let mut out = String::from_str("{\"address\":");
        push_quoted(&mut out, self.address.as_str());
        out.append(",\"calldata\":");
        push_quoted(&mut out, self.calldata.as_str());
        out.append(",\"state_changes\":[");
        push_json_items(&mut out, &self.state_changes);
        out.append("]}");
        proof {
            assert(out@ =~= spec_json_call_list(self@));
        }
        out
    }

    /// The list as CSV: one `block,value` line per entry, no header.
    pub fn serialize_csv(&self) -> (r: String)
        ensures
            r@ == spec_csv(self@.changes),
    {
        csv_of_changes(&self.state_changes)
    }
}

/// Whether `c` is a hex digit of either case.
fn is_hex_char(c: char) -> (r: bool)
    ensures
        r == is_hex_digit(c),
{
    ('0' <= c && c <= '9') || ('a' <= c && c <= 'f') || ('A' <= c && c <= 'F')
}

/// Rewrites every word-bounded hex token that is not an address into
/// its decimal form; addresses (42-character tokens) and tokens too
/// large for a `u64` pass through unchanged.
pub fn output_to_dec(json: &str) -> (r: String)
    ensures
        r@ == spec_normalize(json@),
{
    let n = json.unicode_len();
    let mut out = String::new();
    let mut i: usize = 0;
    proof {
        assert(out@ + spec_normalize_from(json@, 0) =~= spec_normalize(json@));
    }
    while i < n
        invariant
            i <= n,
            n == json@.len(),
            out@ + spec_normalize_from(json@, i as int) == spec_normalize(json@),
        decreases n - i,
    {
        let ghost pre = out@;
        let boundary = if i == 0 {
            true
        } else {
            let p = json.get_char(i - 1);
            !(('0' <= p && p <= '9') || ('a' <= p && p <= 'z') || ('A' <= p && p <= 'Z') || p == '_')
        };
        let mut matched = false;
        let mut j: usize = i;
        if boundary && n - i > 2 {
            if json.get_char(i) == '0' && json.get_char(i + 1) == 'x' {
                let c2 = json.get_char(i + 2);
                if ('0' <= c2 && c2 <= '9') || ('a' <= c2 && c2 <= 'f') || ('A' <= c2 && c2 <= 'F') {
                    j = i + 3;
                    while j < n && is_hex_char(json.get_char(j))
                        invariant
                            i + 3 <= j <= n,
                            n == json@.len(),
                            forall|k: int| i + 2 <= k < j ==> is_hex_digit(#[trigger] json@[k]),
                        decreases n - j,
                    {
                        j = j + 1;
                    }
                    proof {
                        lemma_hex_run_end_value(json@, i + 2, j as int);
                    }
                    let trailing_ok = if j == n {
                        true
                    } else {
                        let cj = json.get_char(j);
                        !(('0' <= cj && cj <= '9') || ('a' <= cj && cj <= 'z') || ('A' <= cj && cj
                            <= 'Z') || cj == '_')
                    };
                    if trailing_ok {
                        matched = true;
                    }
                }
            }
        }
        proof {
            assert(matched == token_at(json@, i as int));
        }
        if matched {
            let token = json.substring_char(i, j);
            proof {
                assert(token@ == json@.subrange(i as int, j as int));
            }
            if j - i == 42 {
                out.append(token);
            } else {
                match hex_to_decimal(token) {
                    Ok(v) => {
                        let dec = decimal_string(v);
                        out.append(dec.as_str());
                    },
                    Err(_) => {
                        out.append(token);
                    },
                }
            }
            proof {
                assert(out@ =~= pre + token_replacement(json@, i as int));
                assert(pre + spec_normalize_from(json@, i as int) =~= out@ + spec_normalize_from(
                    json@,
                    j as int,
                ));
            }
            i = j;
        } else {
            out.append(json.substring_char(i, i + 1));
            proof {
                assert(json@.subrange(i as int, i + 1) =~= seq![json@[i as int]]);
                assert(pre + spec_normalize_from(json@, i as int) =~= out@ + spec_normalize_from(
                    json@,
                    i + 1,
                ));
            }
            i = i + 1;
        }
    }
    out
}

/// Whether the name ends in `.csv`, which forces CSV output.
pub open spec fn spec_ends_csv(s: Seq<char>) -> bool {
    s.len() >= 4 && s.subrange(s.len() - 4, s.len() as int) == ".csv"@
}

/// The generated default output name:
/// `address-{address}-{label}-{value}-timestamp-{seconds}.json`.
pub open spec fn spec_default_filename(
    address: Seq<char>,
    label: Seq<char>,
    value: Seq<char>,
    timestamp: nat,
) -> Seq<char> {
    "address-"@ + address + "-"@ + label + "-"@ + value + "-timestamp-"@ + spec_dec_str(timestamp)
        + ".json"@
}

/// Whether the name ends in `.csv`.
pub fn ends_in_csv(filename: &str) -> (r: bool)
    ensures
        r == spec_ends_csv(filename@),
{
    let n = filename.unicode_len();
    if n < 4 {
        proof {
            reveal_strlit(".csv");
        }
        return false;
    }
    proof {
        reveal_strlit(".csv");
    }
    let r = filename.get_char(n - 4) == '.' && filename.get_char(n - 3) == 'c' && filename.get_char(
        n - 2,
    ) == 's' && filename.get_char(n - 1) == 'v';
    proof {
        let sub = filename@.subrange(n - 4, n as int);
        assert(sub.len() == 4);
        assert(sub[0] == filename@[n - 4] && sub[1] == filename@[n - 3] && sub[2] == filename@[n - 2]
            && sub[3] == filename@[n - 1]);
        if r {
            assert(sub =~= ".csv"@);
        } else {
            assert(sub != ".csv"@);
        }
    }
    r
}

/// Picks the output filename and format: an explicit name is kept, and
/// forces CSV exactly when it ends in `.csv`; an empty name generates
/// the default timestamped name and forces JSON.
pub fn select_output_name(
    filename: String,
    address: &str,
    label: &str,
    value: &str,
    timestamp: u64,
) -> (r: (String, bool))
    ensures
        filename@.len() == 0 ==> r.0@ == spec_default_filename(
            address@,
            label@,
            value@,
            timestamp as nat,
        ) && r.1 == false,
        filename@.len() > 0 ==> r.0@ == filename@ && r.1 == spec_ends_csv(filename@),
{
    if filename.as_str().unicode_len() == 0 {
        let mut name = String::from_str("address-");
        name.append(address);
        name.append("-");
        name.append(label);
        name.append("-");
        name.append(value);
        name.append("-timestamp-");
        let ts = decimal_string(timestamp);
        name.append(ts.as_str());
        name.append(".json");
        (name, false)
    } else {
        let is_csv = ends_in_csv(filename.as_str());
        (filename, is_csv)
    }
}

/// Joins a directory path and a filename with a `/`.
pub fn join_path(path: &str, filename: &str) -> (r: String)
    ensures
        r@ == path@ + seq!['/'] + filename@,
{
    proof {
        reveal_strlit("/");
    }
    let mut out = path.to_owned();
    out.append("/");
    out.append(filename);
    out
}

impl StateChangeList {
    /// The whole output step short of the file write: picks name and
    /// format, renders the list, and applies decimal normalization when
    /// asked; returns the full path and the contents to write.
    pub fn set_filename_and_serialize(
        &self,
        path: &str,
        filename: String,
        middle_label: &str,
        middle_value: &str,
        timestamp: u64,
        output_as_decimal: bool,
    ) -> (r: (String, String))
        ensures
            ({
                let name = if filename@.len() == 0 {
                    spec_default_filename(self@.address, middle_label@, middle_value@, timestamp as nat)
                } else {
                    filename@
                };
                let csv = filename@.len() > 0 && spec_ends_csv(filename@);
                let base = if csv {
                    spec_csv(self@.changes)
                } else {
                    spec_json_state_list(self@)
                };
                r.0@ == path@ + seq!['/'] + name && r.1@ == (if output_as_decimal {
                    spec_normalize(base)
                } else {
                    base
                })
            }),
    {
        let (name, is_csv) = select_output_name(
            filename,
            self.address.as_str(),
            middle_label,
            middle_value,
            timestamp,
        );
        let base = if is_csv {
            self.serialize_csv()
        } else {
            self.serialize_json()
        };
        let contents = if output_as_decimal {
            output_to_dec(base.as_str())
        } else {
            base
        };
        (join_path(path, name.as_str()), contents)
    }
}

impl CallChangeList {
    /// The whole output step short of the file write; see
    /// [`StateChangeList::set_filename_and_serialize`].
    pub fn set_filename_and_serialize(
        &self,
        path: &str,
        filename: String,
        middle_label: &str,
        middle_value: &str,
        timestamp: u64,
        output_as_decimal: bool,
    ) -> (r: (String, String))
        ensures
            ({
                let name = if filename@.len() == 0 {
                    spec_default_filename(self@.address, middle_label@, middle_value@, timestamp as nat)
                } else {
                    filename@
                };
                let csv = filename@.len() > 0 && spec_ends_csv(filename@);
                let base = if csv {
                    spec_csv(self@.changes)
                } else {
                    spec_json_call_list(self@)
                };
                r.0@ == path@ + seq!['/'] + name && r.1@ == (if output_as_decimal {
                    spec_normalize(base)
                } else {
                    base
                })
            }),
    {
        let (name, is_csv) = select_output_name(
            filename,
            self.address.as_str(),
            middle_label,
            middle_value,
            timestamp,
        );
        let base = if is_csv {
            self.serialize_csv()
        } else {
            self.serialize_json()
        };
        let contents = if output_as_decimal {
            output_to_dec(base.as_str())
        } else {
            base
        };
        (join_path(path, name.as_str()), contents)
    }
}

} // verus!
