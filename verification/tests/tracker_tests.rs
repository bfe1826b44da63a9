use sothis::format::NumParseError;
use sothis::output::output_to_dec;
use sothis::reader::{parse_call_change_list, parse_state_change_list};
use sothis::tracker::{
    reached_terminal, record_observation, resolve_terminal_block, scan_interval, CallChangeList,
    StateChange, StateChangeList, TrackError,
};

fn sample_list() -> StateChangeList {
    let mut list = StateChangeList::new("0xa".to_string(), "1".to_string());
    list.record(1, "0x1".to_string());
    list.record(3, "0x2".to_string());
    list
}

#[test]
fn first_observation_is_always_recorded() {
    let mut changes: Vec<StateChange> = Vec::new();
    assert!(record_observation(&mut changes, 5, "0x0".to_string()));
    assert_eq!(changes.len(), 1);
    assert_eq!(changes[0].block_number, 5);
    assert_eq!(changes[0].value, "0x0");
}

#[test]
fn unchanged_value_is_not_recorded() {
    let mut changes: Vec<StateChange> = Vec::new();
    assert!(record_observation(&mut changes, 1, "0x7".to_string()));
    assert!(!record_observation(&mut changes, 2, "0x7".to_string()));
    assert!(record_observation(&mut changes, 3, "0x8".to_string()));
    assert_eq!(changes.len(), 2);
    // no two adjacent entries share a value
    for w in changes.windows(2) {
        assert_ne!(w[0].value, w[1].value);
        assert!(w[0].block_number < w[1].block_number);
    }
}

#[test]
fn csv_lines_have_no_header() {
    let list = sample_list();
    assert_eq!(list.serialize_csv(), "1,0x1\n3,0x2\n");
}

#[test]
fn csv_line_of_one_entry() {
    let change = StateChange {
        block_number: 7,
        value: "0xbeef".to_string(),
    };
    assert_eq!(change.serialize_csv(), "7,0xbeef");
}

#[test]
fn json_shape_of_state_list() {
    let list = sample_list();
    assert_eq!(
        list.serialize_json(),
        "{\"address\":\"0xa\",\"storage_slot\":\"1\",\"state_changes\":[{\"block_number\":1,\"value\":\"0x1\"},{\"block_number\":3,\"value\":\"0x2\"}]}"
    );
}

#[test]
fn json_round_trip_state_list() {
    let list = sample_list();
    let text = list.serialize_json();
    let back = parse_state_change_list(&text).unwrap();
    assert_eq!(back.address, list.address);
    assert_eq!(back.storage_slot, list.storage_slot);
    assert_eq!(back.state_changes, list.state_changes);
}

#[test]
fn json_round_trip_call_list() {
    let mut list = CallChangeList::new("0xb".to_string(), "0x06fdde03".to_string());
    list.record(10, "0x1".to_string());
    list.record(20, "0x2".to_string());
    let text = list.serialize_json();
    let back = parse_call_change_list(&text).unwrap();
    assert_eq!(back.address, list.address);
    assert_eq!(back.calldata, list.calldata);
    assert_eq!(back.state_changes, list.state_changes);
}

#[test]
fn json_round_trip_with_escapes() {
    let mut list = StateChangeList::new("a\"b\\c".to_string(), "slot".to_string());
    list.record(1, "va\"lue".to_string());
    let text = list.serialize_json();
    let back = parse_state_change_list(&text).unwrap();
    assert_eq!(back.address, "a\"b\\c");
    assert_eq!(back.state_changes[0].value, "va\"lue");
}

#[test]
fn json_round_trip_empty_changes() {
    let list = StateChangeList::new("0xa".to_string(), "0".to_string());
    let text = list.serialize_json();
    let back = parse_state_change_list(&text).unwrap();
    assert_eq!(back.state_changes.len(), 0);
}

#[test]
fn reader_rejects_garbage() {
    assert!(parse_state_change_list("garbage").is_none());
    assert!(parse_state_change_list("").is_none());
}

#[test]
fn reader_rejects_trailing_text() {
    let text = sample_list().serialize_json() + "tail";
    assert!(parse_state_change_list(&text).is_none());
}

#[test]
fn normalization_rewrites_small_hex() {
    assert_eq!(output_to_dec("0x2a"), "42");
}

#[test]
fn normalization_keeps_addresses() {
    let addr = "0x1111111111111111111111111111111111111111";
    assert_eq!(output_to_dec(addr), addr);
}

#[test]
fn normalization_in_context() {
    assert_eq!(
        output_to_dec("balance was 0x2a then 0xff"),
        "balance was 42 then 255"
    );
    assert_eq!(
        output_to_dec("{\"value\":\"0x10\"}"),
        "{\"value\":\"16\"}"
    );
}

#[test]
fn normalization_respects_word_boundaries() {
    assert_eq!(output_to_dec("a0x2a"), "a0x2a");
    assert_eq!(output_to_dec("0x2ag"), "0x2ag");
}

#[test]
fn normalization_keeps_oversized_values() {
    let big = "0x10000000000000000";
    assert_eq!(output_to_dec(big), big);
}

#[test]
fn output_planning_default_name() {
    let list = sample_list();
    let (path, contents) =
        list.set_filename_and_serialize("out", "".to_string(), "slot", "1", 99, false);
    assert_eq!(path, "out/address-0xa-slot-1-timestamp-99.json");
    assert_eq!(contents, list.serialize_json());
}

#[test]
fn output_planning_csv_suffix_forces_csv() {
    let list = sample_list();
    let (path, contents) =
        list.set_filename_and_serialize("out", "dump.csv".to_string(), "slot", "1", 99, false);
    assert_eq!(path, "out/dump.csv");
    assert_eq!(contents, "1,0x1\n3,0x2\n");
}

#[test]
fn output_planning_explicit_name_stays_json() {
    let list = sample_list();
    let (path, contents) =
        list.set_filename_and_serialize("out", "dump.txt".to_string(), "slot", "1", 99, false);
    assert_eq!(path, "out/dump.txt");
    assert_eq!(contents, list.serialize_json());
}

#[test]
fn output_planning_decimal_normalization() {
    let mut list = StateChangeList::new("0xa".to_string(), "1".to_string());
    list.record(1, "0x2a".to_string());
    let (_, contents) =
        list.set_filename_and_serialize("out", "dump.csv".to_string(), "slot", "1", 99, true);
    assert_eq!(contents, "1,42\n");
}

#[test]
fn terminal_resolution() {
    assert_eq!(resolve_terminal_block(3, Some(10), 7), Ok(10));
    assert_eq!(
        resolve_terminal_block(10, Some(10), 7),
        Err(TrackError::OriginBeyondTerminal)
    );
    assert_eq!(resolve_terminal_block(3, None, 7), Ok(7));
    assert_eq!(
        resolve_terminal_block(7, None, 7),
        Err(TrackError::OriginBeyondTerminal)
    );
}

#[test]
fn scan_interval_rule() {
    assert_eq!(scan_interval(None), (1, false));
    assert_eq!(scan_interval(Some(5)), (5, true));
}

#[test]
fn terminal_reached_checks() {
    assert_eq!(reached_terminal("0x10", Some(16)), Ok(true));
    assert_eq!(reached_terminal("0x10", Some(17)), Ok(false));
    assert_eq!(reached_terminal("0x10", None), Ok(false));
    assert_eq!(
        reached_terminal("0xzz", Some(1)),
        Err(NumParseError::InvalidDigit)
    );
}

#[test]
fn default_state_change() {
    let change = StateChange::default();
    assert_eq!(change.block_number, 0);
    assert_eq!(change.value, "");
}

#[test]
fn control_characters_are_escaped_on_write() {
    let mut list = StateChangeList::new("0xa".to_string(), "1".to_string());
    list.record(1, "a\nb".to_string());
    let text = list.serialize_json();
    assert!(text.contains("a\\u000ab"));
}

#[test]
fn reader_refuses_unicode_escapes() {
    // the strict reader undoes only \" and \; a control-character
    // escape is refused rather than misread
    let text = "{\"address\":\"0xa\",\"storage_slot\":\"1\",\"state_changes\":[{\"block_number\":1,\"value\":\"a\\u000ab\"}]}";
    assert!(parse_state_change_list(text).is_none());
}

#[test]
fn reader_refuses_wrong_key() {
    let text = "{\"address\":\"0xa\",\"slot\":\"1\",\"state_changes\":[]}";
    assert!(parse_state_change_list(text).is_none());
}
