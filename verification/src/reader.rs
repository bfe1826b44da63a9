//! A strict reader for the JSON shape `output` writes, and the proof
//! that reading back what was written yields the same change list.

use vstd::prelude::*;
use crate::format::{is_dec_digit, hex_digit_value, spec_dec_str, spec_digits, digit_char};
use crate::output::{esc_char, json_escape, spec_json_change, spec_json_items, spec_json_state_list, spec_json_call_list};
use crate::tracker::{ChangeView, StateListView, CallListView, StateChange, StateChangeList, CallChangeList};

verus! {

/// Whether `s` is free of control characters; only such strings come
/// back from the reader unchanged, since the reader does not undo
/// `\u00xx` escapes.
pub open spec fn no_control(s: Seq<char>) -> bool {
    forall|i: int| 0 <= i < s.len() ==> (#[trigger] s[i]) as nat >= 32
}

/// Whether one entry can round-trip through the JSON shape.
pub open spec fn change_view_ok(c: ChangeView) -> bool {
    c.block_number <= u64::MAX && no_control(c.value)
}

/// Whether a slot change list can round-trip through the JSON shape.
pub open spec fn state_list_view_ok(v: StateListView) -> bool {
    &&& no_control(v.address)
    &&& no_control(v.storage_slot)
    &&& forall|i: int| 0 <= i < v.changes.len() ==> change_view_ok(#[trigger] v.changes[i])
}

/// Whether a call change list can round-trip through the JSON shape.
pub open spec fn call_list_view_ok(v: CallListView) -> bool {
    &&& no_control(v.address)
    &&& no_control(v.calldata)
    &&& forall|i: int| 0 <= i < v.changes.len() ==> change_view_ok(#[trigger] v.changes[i])
}

/// Consumes the exact literal `lit` from the front of `s`.
pub open spec fn spec_expect(s: Seq<char>, lit: Seq<char>) -> Option<Seq<char>> {
    if lit.len() <= s.len() && s.take(lit.len() as int) == lit {
        Some(s.skip(lit.len() as int))
    } else {
        None
    }
}

/// Consumes a JSON string body up to its closing quote, undoing `\"`
/// and `\\` escapes; any other escape is refused.
pub open spec fn spec_parse_string_body(s: Seq<char>) -> Option<(Seq<char>, Seq<char>)>
    decreases s.len(),
{
    if s.len() == 0 {
        None
    } else if s[0] == '"' {
        Some((Seq::empty(), s.skip(1)))
    } else if s[0] == '\\' {
        if s.len() >= 2 && (s[1] == '"' || s[1] == '\\') {
            match spec_parse_string_body(s.skip(2)) {
                Some(p) => Some((seq![s[1]] + p.0, p.1)),
                None => None,
            }
        } else {
            None
        }
    } else {
        match spec_parse_string_body(s.skip(1)) {
            Some(p) => Some((seq![s[0]] + p.0, p.1)),
            None => None,
        }
    }
}

/// Folds decimal digits from the front of `s` onto `acc`, stopping at
/// the first non-digit.
pub open spec fn spec_parse_nat_rec(s: Seq<char>, acc: nat) -> (nat, Seq<char>)
    decreases s.len(),
{
    if s.len() == 0 || !is_dec_digit(s[0]) {
        (acc, s)
    } else {
        spec_parse_nat_rec(s.skip(1), acc * 10 + hex_digit_value(s[0]))
    }
}

/// Consumes a decimal number; there must be at least one digit.
pub open spec fn spec_parse_number(s: Seq<char>) -> Option<(nat, Seq<char>)> {
    if s.len() == 0 || !is_dec_digit(s[0]) {
        None
    } else {
        Some(spec_parse_nat_rec(s, 0))
    }
}

/// Consumes one entry object `{"block_number":N,"value":"..."}`.
pub open spec fn spec_parse_change(s: Seq<char>) -> Option<(ChangeView, Seq<char>)> {
    match spec_expect(s, "{\"block_number\":"@) {
        None => None,
        Some(s1) => match spec_parse_number(s1) {
            None => None,
            Some((n, s2)) => if n > u64::MAX {
                None
            } else {
                match spec_expect(s2, ",\"value\":\""@) {
                    None => None,
                    Some(s3) => match spec_parse_string_body(s3) {
                        None => None,
                        Some((v, s4)) => match spec_expect(s4, seq!['}']) {
                            None => None,
                            Some(s5) => Some((ChangeView { block_number: n, value: v }, s5)),
                        },
                    },
                }
            },
        },
    }
}

proof fn lemma_parse_string_body_mono(s: Seq<char>)
    ensures
        spec_parse_string_body(s) is Some ==> (spec_parse_string_body(s)->0).1.len() < s.len(),
    decreases s.len(),
{
    if s.len() == 0 {
    } else if s[0] == '"' {
    } else if s[0] == '\\' {
        if s.len() >= 2 && (s[1] == '"' || s[1] == '\\') {
            lemma_parse_string_body_mono(s.skip(2));
        }
    } else {
        lemma_parse_string_body_mono(s.skip(1));
    }
}

proof fn lemma_parse_nat_rec_mono(s: Seq<char>, acc: nat)
    ensures
        spec_parse_nat_rec(s, acc).1.len() <= s.len(),
        spec_parse_nat_rec(s, acc).0 >= acc,
    decreases s.len(),
{
    if s.len() == 0 || !is_dec_digit(s[0]) {
    } else {
        lemma_parse_nat_rec_mono(s.skip(1), acc * 10 + hex_digit_value(s[0]));
    }
}

proof fn lemma_parse_change_mono(s: Seq<char>)
    ensures
        spec_parse_change(s) is Some ==> (spec_parse_change(s)->0).1.len() < s.len(),
{
    if spec_parse_change(s) is Some {
        let s1 = spec_expect(s, "{\"block_number\":"@)->0;
        let (n, s2) = spec_parse_number(s1)->0;
        lemma_parse_nat_rec_mono(s1, 0);
        let s3 = spec_expect(s2, ",\"value\":\""@)->0;
        lemma_parse_string_body_mono(s3);
        let (v, s4) = spec_parse_string_body(s3)->0;
        let s5 = spec_expect(s4, seq!['}'])->0;
        assert(s5.len() < s.len());
    }
}

/// Consumes one or more comma-separated entry objects.
pub open spec fn spec_parse_items(s: Seq<char>) -> Option<(Seq<ChangeView>, Seq<char>)>
    decreases s.len(),
    via spec_parse_items_dec
{
    match spec_parse_change(s) {
        None => None,
        Some((c, rest)) => if rest.len() >= 1 && rest[0] == ',' {
            match spec_parse_items(rest.skip(1)) {
                Some((cs, r2)) => Some((seq![c] + cs, r2)),
                None => None,
            }
        } else {
            Some((seq![c], rest))
        },
    }
}

#[via_fn]
proof fn spec_parse_items_dec(s: Seq<char>) {
    lemma_parse_change_mono(s);
}

/// Reads a whole slot change list; the input must be exactly the JSON
/// shape `output` writes, with nothing after it.
pub open spec fn spec_parse_state_list(s: Seq<char>) -> Option<StateListView> {
    match spec_expect(s, "{\"address\":\""@) {
        None => None,
        Some(s1) => match spec_parse_string_body(s1) {
            None => None,
            Some((addr, s2)) => match spec_expect(s2, ",\"storage_slot\":\""@) {
                None => None,
                Some(s3) => match spec_parse_string_body(s3) {
                    None => None,
                    Some((slot, s4)) => match spec_expect(s4, ",\"state_changes\":["@) {
                        None => None,
                        Some(s5) => match spec_parse_list_tail(s5) {
                            None => None,
                            Some(cs) => Some(
                                (StateListView { address: addr, storage_slot: slot, changes: cs }),
                            ),
                        },
                    },
                },
            },
        },
    }
}

/// Reads a whole call change list; the input must be exactly the JSON
/// shape `output` writes, with nothing after it.
pub open spec fn spec_parse_call_list(s: Seq<char>) -> Option<CallListView> {
    match spec_expect(s, "{\"address\":\""@) {
        None => None,
        Some(s1) => match spec_parse_string_body(s1) {
            None => None,
            Some((addr, s2)) => match spec_expect(s2, ",\"calldata\":\""@) {
                None => None,
                Some(s3) => match spec_parse_string_body(s3) {
                    None => None,
                    Some((data, s4)) => match spec_expect(s4, ",\"state_changes\":["@) {
                        None => None,
                        Some(s5) => match spec_parse_list_tail(s5) {
                            None => None,
                            Some(cs) => Some(
                                (CallListView { address: addr, calldata: data, changes: cs }),
                            ),
                        },
                    },
                },
            },
        },
    }
}

/// Reads the items and closing `]}` of the `state_changes` array, which
/// must end the input.
pub open spec fn spec_parse_list_tail(s: Seq<char>) -> Option<Seq<ChangeView>> {
    match spec_expect(s, "]}"@) {
        Some(s6) => if s6.len() == 0 {
            Some(Seq::empty())
        } else {
            None
        },
        None => match spec_parse_items(s) {
            None => None,
            Some((cs, s6)) => match spec_expect(s6, "]}"@) {
                None => None,
                Some(s7) => if s7.len() == 0 {
                    Some(cs)
                } else {
                    None
                },
            },
        },
    }
}

proof fn lemma_expect_concat(lit: Seq<char>, rest: Seq<char>)
    ensures
        spec_expect(lit + rest, lit) == Some(rest),
{
    let s = lit + rest;
    assert(s.take(lit.len() as int) =~= lit);
    assert(s.skip(lit.len() as int) =~= rest);
}

proof fn lemma_escape_roundtrip(v: Seq<char>, rest: Seq<char>)
    requires
        no_control(v),
    ensures
        spec_parse_string_body(json_escape(v) + seq!['"'] + rest) == Some((v, rest)),
    decreases v.len(),
{
    let s = json_escape(v) + seq!['"'] + rest;
    if v.len() == 0 {
        assert(s =~= seq!['"'] + rest);
        assert(s[0] == '"');
        assert(s.skip(1) =~= rest);
    } else {
        let c = v[0];
        let tail = v.skip(1);
        assert(json_escape(v) == esc_char(c) + json_escape(tail));
        assert(no_control(tail) && (c as nat) >= 32);
        lemma_escape_roundtrip(tail, rest);
        let s2 = json_escape(tail) + seq!['"'] + rest;
        if c == '"' {
            assert(s =~= seq!['\\', '"'] + s2);
            assert(s[0] == '\\' && s[1] == '"');
            assert(s.skip(2) =~= s2);
            assert(seq![s[1]] + v.skip(1) =~= v);
        } else if c == '\\' {
            assert(s =~= seq!['\\', '\\'] + s2);
            assert(s[0] == '\\' && s[1] == '\\');
            assert(s.skip(2) =~= s2);
            assert(seq![s[1]] + v.skip(1) =~= v);
        } else {
            assert(esc_char(c) =~= seq![c]);
            assert(s =~= seq![c] + s2);
            assert(s[0] == c && c != '"' && c != '\\');
            assert(s.skip(1) =~= s2);
            assert(seq![s[0]] + v.skip(1) =~= v);
        }
    }
}

/// The value of a digit string folded onto `acc`, as the reader folds it.
spec fn fold_val(acc: nat, ds: Seq<char>) -> nat
    decreases ds.len(),
{
    if ds.len() == 0 {
        acc
    } else {
        fold_val(acc * 10 + hex_digit_value(ds[0]), ds.skip(1))
    }
}

proof fn lemma_fold_push(acc: nat, ds: Seq<char>, d: char)
    ensures
        fold_val(acc, ds.push(d)) == fold_val(acc, ds) * 10 + hex_digit_value(d),
    decreases ds.len(),
{
    let p = ds.push(d);
    if ds.len() == 0 {
        assert(p.len() == 1 && p[0] == d);
        assert(p.skip(1) =~= Seq::<char>::empty());
        assert(fold_val(acc, p) == fold_val(acc * 10 + hex_digit_value(d), p.skip(1)));
        assert(fold_val(acc * 10 + hex_digit_value(d), p.skip(1)) == acc * 10 + hex_digit_value(d));
    } else {
        assert(p.len() > 1 && p[0] == ds[0]);
        assert(p.skip(1) =~= ds.skip(1).push(d));
        lemma_fold_push(acc * 10 + hex_digit_value(ds[0]), ds.skip(1), d);
        assert(fold_val(acc, p) == fold_val(acc * 10 + hex_digit_value(ds[0]), p.skip(1)));
        assert(fold_val(acc, ds) == fold_val(acc * 10 + hex_digit_value(ds[0]), ds.skip(1)));
    }
}

proof fn lemma_digits_are_digits(n: nat)
    ensures
        forall|i: int| 0 <= i < spec_digits(n, 10).len() ==> is_dec_digit(#[trigger] spec_digits(n, 10)[i]),
    decreases n,
{
    if n > 0 {
        lemma_digits_are_digits(n / 10);
        assert(is_dec_digit(digit_char(n % 10)));
        assert forall|i: int| 0 <= i < spec_digits(n, 10).len() implies is_dec_digit(
            #[trigger] spec_digits(n, 10)[i],
        ) by {
            if i < spec_digits(n / 10, 10).len() {
                assert(spec_digits(n, 10)[i] == spec_digits(n / 10, 10)[i]);
            } else {
                assert(spec_digits(n, 10)[i] == digit_char(n % 10));
            }
        }
    }
}

proof fn lemma_fold_digits(n: nat)
    ensures
        fold_val(0, spec_digits(n, 10)) == n,
    decreases n,
{
    if n == 0 {
    } else {
        lemma_fold_digits(n / 10);
        lemma_fold_push(0, spec_digits(n / 10, 10), digit_char(n % 10));
        assert(hex_digit_value(digit_char(n % 10)) == n % 10);
        vstd::arithmetic::div_mod::lemma_fundamental_div_mod(n as int, 10);
    }
}

proof fn lemma_nat_rec_concat(ds: Seq<char>, rest: Seq<char>, acc: nat)
    requires
        forall|i: int| 0 <= i < ds.len() ==> is_dec_digit(#[trigger] ds[i]),
        rest.len() == 0 || !is_dec_digit(rest[0]),
    ensures
        spec_parse_nat_rec(ds + rest, acc) == (fold_val(acc, ds), rest),
    decreases ds.len(),
{
    let s = ds + rest;
    if ds.len() == 0 {
        assert(s =~= rest);
    } else {
        assert(s[0] == ds[0] && is_dec_digit(s[0]));
        assert(s.skip(1) =~= ds.skip(1) + rest);
        lemma_nat_rec_concat(ds.skip(1), rest, acc * 10 + hex_digit_value(ds[0]));
    }
}

proof fn lemma_number_roundtrip(n: nat, rest: Seq<char>)
    requires
        rest.len() == 0 || !is_dec_digit(rest[0]),
    ensures
        spec_parse_number(spec_dec_str(n) + rest) == Some((n, rest)),
{
    let s = spec_dec_str(n) + rest;
    if n == 0 {
        assert(spec_dec_str(0) == seq!['0']);
        assert(s[0] == '0' && is_dec_digit('0'));
        assert(s.skip(1) =~= rest);
        assert(spec_parse_nat_rec(s, 0) == spec_parse_nat_rec(rest, 0 * 10 + hex_digit_value('0')));
        assert(hex_digit_value('0') == 0);
    } else {
        lemma_digits_are_digits(n);
        assert(spec_dec_str(n) == spec_digits(n, 10));
        assert(spec_digits(n, 10).len() > 0);
        assert(s[0] == spec_digits(n, 10)[0]);
        lemma_nat_rec_concat(spec_digits(n, 10), rest, 0);
        lemma_fold_digits(n);
    }
}

proof fn lemma_change_roundtrip(c: ChangeView, rest: Seq<char>)
    requires
        change_view_ok(c),
    ensures
        spec_parse_change(spec_json_change(c) + rest) == Some((c, rest)),
{
    reveal_strlit("{\"block_number\":");
    reveal_strlit(",\"value\":");
    reveal_strlit(",\"value\":\"");
    let lit1 = "{\"block_number\":"@;
    let lit2 = ",\"value\":\""@;
    let s = spec_json_change(c) + rest;
    let after1 = spec_dec_str(c.block_number) + lit2 + json_escape(c.value) + seq!['"'] + seq!['}']
        + rest;
    assert(s =~= lit1 + after1);
    lemma_expect_concat(lit1, after1);
    let after_num = lit2 + json_escape(c.value) + seq!['"'] + seq!['}'] + rest;
    assert(after1 =~= spec_dec_str(c.block_number) + after_num);
    assert(after_num[0] == ',' && !is_dec_digit(','));
    lemma_number_roundtrip(c.block_number, after_num);
    let after2 = json_escape(c.value) + seq!['"'] + (seq!['}'] + rest);
    assert(after_num =~= lit2 + after2);
    lemma_expect_concat(lit2, after2);
    lemma_escape_roundtrip(c.value, seq!['}'] + rest);
    lemma_expect_concat(seq!['}'], rest);
    assert(spec_parse_change(s) == Some((ChangeView { block_number: c.block_number, value: c.value }, rest)));
    assert((ChangeView { block_number: c.block_number, value: c.value }) == c);
}

proof fn lemma_items_front(cs: Seq<ChangeView>)
    requires
        cs.len() >= 2,
    ensures
        spec_json_items(cs) == spec_json_change(cs[0]) + seq![','] + spec_json_items(cs.skip(1)),
    decreases cs.len(),
{
    if cs.len() == 2 {
        assert(cs.drop_last() =~= seq![cs[0]]);
        assert(cs.skip(1) =~= seq![cs[1]]);
        assert(spec_json_items(seq![cs[0]]) == spec_json_change(cs[0]));
        assert(spec_json_items(seq![cs[1]]) == spec_json_change(cs[1]));
    } else {
        let d = cs.drop_last();
        lemma_items_front(d);
        assert(d[0] == cs[0]);
        assert(cs.skip(1).drop_last() =~= d.skip(1));
        assert(cs.skip(1).last() == cs.last());
        assert(cs.skip(1).len() >= 2);
        assert(spec_json_items(cs.skip(1)) == spec_json_items(d.skip(1)) + seq![','] + spec_json_change(cs.last()));
        assert(spec_json_items(cs) == spec_json_items(d) + seq![','] + spec_json_change(cs.last()));
        assert(spec_json_items(d) + seq![','] + spec_json_change(cs.last()) =~= spec_json_change(cs[0])
            + seq![','] + (spec_json_items(d.skip(1)) + seq![','] + spec_json_change(cs.last())));
    }
}

proof fn lemma_items_roundtrip(cs: Seq<ChangeView>, rest: Seq<char>)
    requires
        cs.len() >= 1,
        forall|i: int| 0 <= i < cs.len() ==> change_view_ok(#[trigger] cs[i]),
        rest.len() >= 1 && rest[0] != ',',
    ensures
        spec_parse_items(spec_json_items(cs) + rest) == Some((cs, rest)),
    decreases cs.len(),
{
    let s = spec_json_items(cs) + rest;
    if cs.len() == 1 {
        assert(spec_json_items(cs) == spec_json_change(cs[0]));
        lemma_change_roundtrip(cs[0], rest);
        assert(spec_parse_change(s) == Some((cs[0], rest)));
        assert(seq![cs[0]] =~= cs);
    } else {
        lemma_items_front(cs);
        let rest2 = spec_json_items(cs.skip(1)) + rest;
        assert(s =~= spec_json_change(cs[0]) + (seq![','] + rest2));
        lemma_change_roundtrip(cs[0], seq![','] + rest2);
        assert(spec_parse_change(s) == Some((cs[0], seq![','] + rest2)));
        let after = seq![','] + rest2;
        assert(after[0] == ',' && after.len() >= 1);
        assert(after.skip(1) =~= rest2);
        assert(forall|i: int| 0 <= i < cs.skip(1).len() ==> change_view_ok(#[trigger] cs.skip(1)[i]));
        lemma_items_roundtrip(cs.skip(1), rest);
        assert(seq![cs[0]] + cs.skip(1) =~= cs);
    }
}

proof fn lemma_list_tail_roundtrip(cs: Seq<ChangeView>)
    requires
        forall|i: int| 0 <= i < cs.len() ==> change_view_ok(#[trigger] cs[i]),
    ensures
        spec_parse_list_tail(spec_json_items(cs) + "]}"@) == Some(cs),
{
    reveal_strlit("]}");
    reveal_strlit("{\"block_number\":");
    let tail = "]}"@;
    let s = spec_json_items(cs) + tail;
    if cs.len() == 0 {
        assert(s =~= tail);
        lemma_expect_concat(tail, Seq::empty());
        assert(tail + Seq::<char>::empty() =~= tail);
        assert(spec_expect(s, tail) == Some(Seq::<char>::empty()));
    } else {
        if cs.len() == 1 {
            assert(spec_json_items(cs) == spec_json_change(cs[0]));
        } else {
            lemma_items_front(cs);
        }
        assert(spec_json_items(cs)[0] == '{');
        assert(s[0] == '{');
        assert(s.take(2)[0] == '{');
        assert(spec_expect(s, tail) is None);
        assert(tail[0] == ']' && tail[0] != ',');
        lemma_items_roundtrip(cs, tail);
        lemma_expect_concat(tail, Seq::empty());
        assert(tail + Seq::<char>::empty() =~= tail);
        assert(spec_expect(tail, tail) == Some(Seq::<char>::empty()));
    }
}

/// Reading back the written JSON shape of a slot change list yields the
/// same list, for any list whose strings are free of control characters.
#[verifier::rlimit(100)]
pub proof fn lemma_json_round_trip(v: StateListView)
    requires
        state_list_view_ok(v),
    ensures
        spec_parse_state_list(spec_json_state_list(v)) == Some(v),
{
    reveal_strlit("{\"address\":");
    reveal_strlit("{\"address\":\"");
    reveal_strlit(",\"storage_slot\":");
    reveal_strlit(",\"storage_slot\":\"");
    reveal_strlit(",\"state_changes\":[");
    reveal_strlit("]}");
    let lit1 = "{\"address\":\""@;
    let lit2 = ",\"storage_slot\":\""@;
    let lit3 = ",\"state_changes\":["@;
    let s = spec_json_state_list(v);
    let t5 = spec_json_items(v.changes) + "]}"@;
    let t4 = lit3 + t5;
    let t3 = json_escape(v.storage_slot) + seq!['"'] + t4;
    let t2 = lit2 + t3;
    let t1 = json_escape(v.address) + seq!['"'] + t2;
    assert(s =~= lit1 + t1);
    lemma_expect_concat(lit1, t1);
    lemma_escape_roundtrip(v.address, t2);
    lemma_expect_concat(lit2, t3);
    lemma_escape_roundtrip(v.storage_slot, t4);
    lemma_expect_concat(lit3, t5);
    lemma_list_tail_roundtrip(v.changes);
    assert(spec_parse_state_list(s) == Some(
        (StateListView { address: v.address, storage_slot: v.storage_slot, changes: v.changes }),
    ));
    assert((StateListView { address: v.address, storage_slot: v.storage_slot, changes: v.changes }) == v);
}

/// Reading back the written JSON shape of a call change list yields the
/// same list, for any list whose strings are free of control characters.
#[verifier::rlimit(80)]
pub proof fn lemma_json_round_trip_call(v: CallListView)
    requires
        call_list_view_ok(v),
    ensures
        spec_parse_call_list(spec_json_call_list(v)) == Some(v),
{
    reveal_strlit("{\"address\":");
    reveal_strlit("{\"address\":\"");
    reveal_strlit(",\"calldata\":");
    reveal_strlit(",\"calldata\":\"");
    reveal_strlit(",\"state_changes\":[");
    reveal_strlit("]}");
    let lit1 = "{\"address\":\""@;
    let lit2 = ",\"calldata\":\""@;
    let lit3 = ",\"state_changes\":["@;
    let s = spec_json_call_list(v);
    let t5 = spec_json_items(v.changes) + "]}"@;
    let t4 = lit3 + t5;
    let t3 = json_escape(v.calldata) + seq!['"'] + t4;
    let t2 = lit2 + t3;
    let t1 = json_escape(v.address) + seq!['"'] + t2;
    assert(s =~= lit1 + t1);
    lemma_expect_concat(lit1, t1);
    lemma_escape_roundtrip(v.address, t2);
    lemma_expect_concat(lit2, t3);
    lemma_escape_roundtrip(v.calldata, t4);
    lemma_expect_concat(lit3, t5);
    lemma_list_tail_roundtrip(v.changes);
    assert(spec_parse_call_list(s) == Some(
        (CallListView { address: v.address, calldata: v.calldata, changes: v.changes }),
    ));
    assert((CallListView { address: v.address, calldata: v.calldata, changes: v.changes }) == v);
}

spec fn opt_prepend(p: Seq<char>, o: Option<(Seq<char>, Seq<char>)>) -> Option<(Seq<char>, Seq<char>)> {
    match o {
        Some(q) => Some((p + q.0, q.1)),
        None => None,
    }
}

spec fn opt_prepend_items(p: Seq<ChangeView>, o: Option<(Seq<ChangeView>, Seq<char>)>) -> Option<
    (Seq<ChangeView>, Seq<char>),
> {
    match o {
        Some(q) => Some((p + q.0, q.1)),
        None => None,
    }
}

/// Consumes the literal `lit` at position `i` of `s`, returning the
/// position after it.
fn expect_lit(s: &str, i: usize, lit: &str) -> (r: Option<usize>)
    requires
        i <= s@.len(),
    ensures
        match r {
            Some(j) => i <= j <= s@.len() && j - i == lit@.len() && spec_expect(
                s@.skip(i as int),
                lit@,
            ) == Some(s@.skip(j as int)),
            None => spec_expect(s@.skip(i as int), lit@) is None,
        },
{
    let n = s.unicode_len();
    let m = lit.unicode_len();
    let ghost tail = s@.skip(i as int);
    if m > n - i {
        return None;
    }
    let mut k: usize = 0;
    while k < m
        invariant
            k <= m,
            i <= n,
            m <= n - i,
            n == s@.len(),
            m == lit@.len(),
            tail == s@.skip(i as int),
            forall|t: int| 0 <= t < k ==> tail[t] == lit@[t],
        decreases m - k,
    {
        let c = s.get_char(i + k);
        let cl = lit.get_char(k);
        proof {
            assert(tail[k as int] == c);
        }
        if c != cl {
            proof {
                assert(tail.take(m as int)[k as int] != lit@[k as int]);
            }
            return None;
        }
        k = k + 1;
    }
    proof {
        assert(tail.take(m as int) =~= lit@);
        assert(tail.skip(m as int) =~= s@.skip(i + m));
    }
    Some(i + m)
}

/// Consumes a JSON string body up to its closing quote, undoing `\"`
/// and `\\` escapes.
fn parse_string_body(s: &str, i0: usize) -> (r: Option<(String, usize)>)
    requires
        i0 <= s@.len(),
    ensures
        match r {
            Some(p) => i0 <= p.1 <= s@.len() && spec_parse_string_body(s@.skip(i0 as int)) == Some(
                (p.0@, s@.skip(p.1 as int)),
            ),
            None => spec_parse_string_body(s@.skip(i0 as int)) is None,
        },
{
    let n = s.unicode_len();
    let mut out = String::new();
    let mut i = i0;
    while i < n
        invariant
            i0 <= i <= n,
            n == s@.len(),
            spec_parse_string_body(s@.skip(i0 as int)) == opt_prepend(
                out@,
                spec_parse_string_body(s@.skip(i as int)),
            ),
        decreases n - i,
    {
        let ghost tail = s@.skip(i as int);
        let c = s.get_char(i);
        proof {
            assert(tail[0] == c);
        }
        if c == '"' {
            proof {
                assert(tail.skip(1) =~= s@.skip(i + 1));
                assert(out@ + Seq::<char>::empty() =~= out@);
            }
            return Some((out, i + 1));
        } else if c == '\\' {
            if i + 1 < n {
                let c2 = s.get_char(i + 1);
                proof {
                    assert(tail[1] == c2);
                    assert(tail.skip(2) =~= s@.skip(i + 2));
                }
                if c2 == '"' || c2 == '\\' {
                    let ghost pre = out@;
                    if c2 == '"' {
                        out.append("\"");
                        proof {
                            reveal_strlit("\"");
                        }
                    } else {
                        out.append("\\");
                        proof {
                            reveal_strlit("\\");
                        }
                    }
                    proof {
                        assert(out@ =~= pre + seq![c2]);
                        let inner = spec_parse_string_body(s@.skip(i + 2));
                        match inner {
                            Some(q) => {
                                assert(pre + (seq![c2] + q.0) =~= out@ + q.0);
                            },
                            None => {},
                        }
                        assert(opt_prepend(pre, spec_parse_string_body(tail)) == opt_prepend(
                            out@,
                            inner,
                        ));
                    }
                    i = i + 2;
                } else {
                    return None;
                }
            } else {
                proof {
                    assert(tail.len() == 1);
                }
                return None;
            }
        } else {
            let ghost pre = out@;
            out.append(s.substring_char(i, i + 1));
            proof {
                assert(s@.subrange(i as int, i + 1) =~= seq![c]);
                assert(out@ =~= pre + seq![c]);
                assert(tail.skip(1) =~= s@.skip(i + 1));
                let inner = spec_parse_string_body(s@.skip(i + 1));
                match inner {
                    Some(q) => {
                        assert(pre + (seq![c] + q.0) =~= out@ + q.0);
                    },
                    None => {},
                }
                assert(opt_prepend(pre, spec_parse_string_body(tail)) == opt_prepend(out@, inner));
            }
            i = i + 1;
        }
    }
    proof {
        assert(s@.skip(i as int) =~= Seq::<char>::empty());
    }
    None
}

/// Consumes a decimal number that must fit in a `u64`.
fn parse_number(s: &str, i0: usize) -> (r: Option<(u64, usize)>)
    requires
        i0 <= s@.len(),
    ensures
        match r {
            Some(p) => i0 <= p.1 <= s@.len() && spec_parse_number(s@.skip(i0 as int)) == Some(
                (p.0 as nat, s@.skip(p.1 as int)),
            ),
            None => spec_parse_number(s@.skip(i0 as int)) is None || (spec_parse_number(
                s@.skip(i0 as int),
            )->0).0 > u64::MAX,
        },
{
    let n = s.unicode_len();
    let ghost tail = s@.skip(i0 as int);
    if i0 >= n {
        return None;
    }
    let c0 = s.get_char(i0);
    proof {
        assert(tail[0] == c0);
    }
    if !('0' <= c0 && c0 <= '9') {
        return None;
    }
    let mut acc: u64 = 0;
    let mut i = i0;
    while i < n
        invariant
            i0 <= i <= n,
            n == s@.len(),
            tail == s@.skip(i0 as int),
            tail.len() > 0 && is_dec_digit(tail[0]),
            spec_parse_nat_rec(tail, 0) == spec_parse_nat_rec(s@.skip(i as int), acc as nat),
        decreases n - i,
    {
        let ghost cur = s@.skip(i as int);
        let c = s.get_char(i);
        proof {
            assert(cur[0] == c);
            assert(cur.skip(1) =~= s@.skip(i + 1));
        }
        if !('0' <= c && c <= '9') {
            proof {
                assert(spec_parse_nat_rec(cur, acc as nat) == (acc as nat, cur));
            }
            return Some((acc, i));
        }
        let d: u64 = (c as u32 - '0' as u32) as u64;
        proof {
            assert(d == hex_digit_value(c));
        }
        if acc as u128 * 10 + d as u128 > u64::MAX as u128 {
            proof {
                lemma_parse_nat_rec_mono(s@.skip(i + 1), acc as nat * 10 + hex_digit_value(c));
            }
            return None;
        }
        acc = acc * 10 + d;
        i = i + 1;
    }
    proof {
        if i == n {
            assert(s@.skip(i as int) =~= Seq::<char>::empty());
        }
    }
    Some((acc, i))
}

/// Consumes one entry object.
fn parse_change(s: &str, i0: usize) -> (r: Option<(StateChange, usize)>)
    requires
        i0 <= s@.len(),
    ensures
        match r {
            Some(p) => i0 < p.1 <= s@.len() && spec_parse_change(s@.skip(i0 as int)) == Some(
                (p.0@, s@.skip(p.1 as int)),
            ),
            None => spec_parse_change(s@.skip(i0 as int)) is None,
        },
{
    let j1 = match expect_lit(s, i0, "{\"block_number\":") {
        Some(j) => j,
        None => {
            return None;
        },
    };
    let (bn, j2) = match parse_number(s, j1) {
        Some(p) => p,
        None => {
            return None;
        },
    };
    let j3 = match expect_lit(s, j2, ",\"value\":\"") {
        Some(j) => j,
        None => {
            return None;
        },
    };
    let (val, j4) = match parse_string_body(s, j3) {
        Some(p) => p,
        None => {
            return None;
        },
    };
    let j5 = match expect_lit(s, j4, "}") {
        Some(j) => j,
        None => {
            proof {
                reveal_strlit("}");
                assert("}"@ =~= seq!['}']);
            }
            return None;
        },
    };
    proof {
        reveal_strlit("{\"block_number\":");
        reveal_strlit("}");
        assert("}"@ =~= seq!['}']);
    }
    Some((StateChange { block_number: bn, value: val }, j5))
}

/// Consumes one or more comma-separated entry objects.
fn parse_items(s: &str, i0: usize) -> (r: Option<(Vec<StateChange>, usize)>)
    requires
        i0 <= s@.len(),
    ensures
        match r {
            Some(p) => p.1 <= s@.len() && spec_parse_items(s@.skip(i0 as int)) == Some(
                (p.0@.map_values(|c: StateChange| c@), s@.skip(p.1 as int)),
            ),
            None => spec_parse_items(s@.skip(i0 as int)) is None,
        },
{
    let n = s.unicode_len();
    let mut items: Vec<StateChange> = Vec::new();
    let mut i = i0;
    proof {
        assert(items@.map_values(|c: StateChange| c@) =~= Seq::<ChangeView>::empty());
    }
    while i < n
        invariant
            i0 <= i <= n,
            n == s@.len(),
            spec_parse_items(s@.skip(i0 as int)) == opt_prepend_items(
                items@.map_values(|c: StateChange| c@),
                spec_parse_items(s@.skip(i as int)),
            ),
        decreases n - i,
    {
        let ghost pre = items@.map_values(|c: StateChange| c@);
        let ghost cur = s@.skip(i as int);
        let (c, j) = match parse_change(s, i) {
            Some(p) => p,
            None => {
                return None;
            },
        };
        let has_comma = if j < n {
            s.get_char(j) == ','
        } else {
            false
        };
        proof {
            assert(s@.skip(j as int).len() == n - j);
            if j < n {
                assert(s@.skip(j as int)[0] == s@[j as int]);
            }
        }
        if has_comma {
            items.push(c);
            proof {
                assert(s@.skip(j as int).skip(1) =~= s@.skip(j + 1));
                assert(items@.map_values(|x: StateChange| x@) =~= pre.push(c@));
                let inner = spec_parse_items(s@.skip(j + 1));
                assert(spec_parse_items(cur) == opt_prepend_items(seq![c@], inner));
                match inner {
                    Some(q) => {
                        assert(pre + (seq![c@] + q.0) =~= pre.push(c@) + q.0);
                    },
                    None => {},
                }
                assert(opt_prepend_items(pre, spec_parse_items(cur)) == opt_prepend_items(
                    pre.push(c@),
                    inner,
                ));
            }
            i = j + 1;
        } else {
            items.push(c);
            proof {
                assert(spec_parse_items(cur) == Some((seq![c@], s@.skip(j as int))));
                assert(items@.map_values(|x: StateChange| x@) =~= pre.push(c@));
                assert(pre + seq![c@] =~= pre.push(c@));
            }
            return Some((items, j));
        }
    }
    proof {
        assert(s@.skip(i as int) =~= Seq::<char>::empty());
        reveal_strlit("{\"block_number\":");
        assert(spec_expect(s@.skip(i as int), "{\"block_number\":"@) is None);
    }
    None
}

/// Reads a slot change list back from the exact JSON shape
/// [`StateChangeList::serialize_json`] writes.
pub fn parse_state_change_list(s: &str) -> (r: Option<StateChangeList>)
    ensures
        match r {
            Some(l) => spec_parse_state_list(s@) == Some(l@),
            None => spec_parse_state_list(s@) is None,
        },
{
    let n = s.unicode_len();
    proof {
        assert(s@.skip(0) =~= s@);
    }
    let j1 = match expect_lit(s, 0, "{\"address\":\"") {
        Some(j) => j,
        None => {
            return None;
        },
    };
    let (addr, j2) = match parse_string_body(s, j1) {
        Some(p) => p,
        None => {
            return None;
        },
    };
    let j3 = match expect_lit(s, j2, ",\"storage_slot\":\"") {
        Some(j) => j,
        None => {
            return None;
        },
    };
    let (slot, j4) = match parse_string_body(s, j3) {
        Some(p) => p,
        None => {
            return None;
        },
    };
    let j5 = match expect_lit(s, j4, ",\"state_changes\":[") {
        Some(j) => j,
        None => {
            return None;
        },
    };
    let changes = match parse_list_tail(s, j5) {
        Some(c) => c,
        None => {
            return None;
        },
    };
    Some(StateChangeList { address: addr, storage_slot: slot, state_changes: changes })
}

/// Reads a call change list back from the exact JSON shape
/// [`CallChangeList::serialize_json`] writes.
pub fn parse_call_change_list(s: &str) -> (r: Option<CallChangeList>)
    ensures
        match r {
            Some(l) => spec_parse_call_list(s@) == Some(l@),
            None => spec_parse_call_list(s@) is None,
        },
{
    let n = s.unicode_len();
    proof {
        assert(s@.skip(0) =~= s@);
    }
    let j1 = match expect_lit(s, 0, "{\"address\":\"") {
        Some(j) => j,
        None => {
            return None;
        },
    };
    let (addr, j2) = match parse_string_body(s, j1) {
        Some(p) => p,
        None => {
            return None;
        },
    };
    let j3 = match expect_lit(s, j2, ",\"calldata\":\"") {
        Some(j) => j,
        None => {
            return None;
        },
    };
    let (data, j4) = match parse_string_body(s, j3) {
        Some(p) => p,
        None => {
            return None;
        },
    };
    let j5 = match expect_lit(s, j4, ",\"state_changes\":[") {
        Some(j) => j,
        None => {
            return None;
        },
    };
    let changes = match parse_list_tail(s, j5) {
        Some(c) => c,
        None => {
            return None;
        },
    };
    Some(CallChangeList { address: addr, calldata: data, state_changes: changes })
}

/// Reads the items and closing `]}` of the `state_changes` array, which
/// must end the input.
fn parse_list_tail(s: &str, i0: usize) -> (r: Option<Vec<StateChange>>)
    requires
        i0 <= s@.len(),
    ensures
        match r {
            Some(c) => spec_parse_list_tail(s@.skip(i0 as int)) == Some(
                c@.map_values(|x: StateChange| x@),
            ),
            None => spec_parse_list_tail(s@.skip(i0 as int)) is None,
        },
{
    let n = s.unicode_len();
    match expect_lit(s, i0, "]}") {
        Some(j) => {
            if j == n {
                let empty: Vec<StateChange> = Vec::new();
                proof {
                    assert(s@.skip(j as int).len() == 0);
                    assert(empty@.map_values(|x: StateChange| x@) =~= Seq::<ChangeView>::empty());
                }
                Some(empty)
            } else {
                proof {
                    assert(s@.skip(j as int).len() > 0);
                }
                None
            }
        },
        None => {
            let (items, j6) = match parse_items(s, i0) {
                Some(p) => p,
                None => {
                    return None;
                },
            };
            let j7 = match expect_lit(s, j6, "]}") {
                Some(j) => j,
                None => {
                    return None;
                },
            };
            if j7 == n {
                proof {
                    assert(s@.skip(j7 as int).len() == 0);
                }
                Some(items)
            } else {
                proof {
                    assert(s@.skip(j7 as int).len() > 0);
                }
                None
            }
        },
    }
}

} // verus!
