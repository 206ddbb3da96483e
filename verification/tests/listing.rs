use encoding::Encoding;
use ldconsole::{parse_list2_output, LdError, LdMnq};

fn parse_str(s: &str) -> Vec<LdMnq> {
    parse_list2_output(&s.as_bytes().to_vec()).expect("listing output should parse")
}

#[test]
fn single_record() {
    let recs = parse_str("0,LDPlayer,0,0,0,-1,-1\r\n");
    assert_eq!(recs.len(), 1);
    let r = &recs[0];
    assert_eq!(r.index, 0);
    assert_eq!(r.name, "LDPlayer");
    assert_eq!(r.top_handle, 0);
    assert_eq!(r.bind_handle, 0);
    assert_eq!(r.is_enter_system, 0);
    assert_eq!(r.pid, -1);
    assert_eq!(r.vbox_pid, -1);
}

#[test]
fn empty_output_is_no_records() {
    let recs = parse_str("");
    assert!(recs.is_empty());
}

#[test]
fn unparsable_index_takes_default() {
    let recs = parse_str("abc,Foo,1,2,1,100,200\r\n");
    assert_eq!(recs.len(), 1);
    let r = &recs[0];
    assert_eq!(r.index, -1);
    assert_eq!(r.name, "Foo");
    assert_eq!(r.top_handle, 1);
    assert_eq!(r.bind_handle, 2);
    assert_eq!(r.is_enter_system, 1);
    assert_eq!(r.pid, 100);
    assert_eq!(r.vbox_pid, 200);
}

#[test]
fn invalid_gbk_is_encoding_error() {
    let bytes = vec![0xffu8, 0xff];
    let r = parse_list2_output(&bytes);
    assert!(matches!(r, Err(LdError::EncodingError)));
}

#[test]
fn one_record_per_nonempty_line() {
    let recs = parse_str("0,A,1,2,1,10,20\r\n1,B,3,4,0,30,40\r\n");
    assert_eq!(recs.len(), 2);
    assert_eq!(recs[0].index, 0);
    assert_eq!(recs[0].name, "A");
    assert_eq!(recs[1].index, 1);
    assert_eq!(recs[1].name, "B");
    assert_eq!(recs[1].pid, 30);
}

#[test]
fn numeric_defaults_per_field() {
    let recs = parse_str("x,N,y,z,w,u,v\r\n");
    assert_eq!(recs.len(), 1);
    let r = &recs[0];
    assert_eq!(r.index, -1);
    assert_eq!(r.name, "N");
    assert_eq!(r.top_handle, 0);
    assert_eq!(r.bind_handle, 0);
    assert_eq!(r.is_enter_system, 0);
    assert_eq!(r.pid, -1);
    assert_eq!(r.vbox_pid, -1);
}

#[test]
fn listing_is_idempotent() {
    let text = "0,LDPlayer,0,0,0,-1,-1\r\n1,Other,5,6,1,77,88\r\n";
    let a = parse_str(text);
    let b = parse_str(text);
    assert_eq!(a, b);
}

#[test]
fn gbk_name_survives_decoding() {
    let bytes = encoding::all::GBK
        .encode("0,\u{96f7}\u{7535},0,0,0,-1,-1\r\n", encoding::EncoderTrap::Strict)
        .expect("the name encodes under GBK");
    let recs = parse_list2_output(&bytes).expect("valid GBK output should parse");
    assert_eq!(recs.len(), 1);
    assert_eq!(recs[0].name, "\u{96f7}\u{7535}");
    assert_eq!(recs[0].index, 0);
}

#[test]
fn out_of_range_numbers_take_defaults() {
    let recs = parse_str("2147483648,N,9223372036854775808,0,0,-9223372036854775809,1\r\n");
    assert_eq!(recs.len(), 1);
    let r = &recs[0];
    assert_eq!(r.index, -1);
    assert_eq!(r.top_handle, 0);
    assert_eq!(r.pid, -1);
    assert_eq!(r.vbox_pid, 1);
}

#[test]
fn extreme_values_parse_exactly() {
    let recs = parse_str("-2147483648,N,9223372036854775807,-9223372036854775808,1,+5,0\r\n");
    assert_eq!(recs.len(), 1);
    let r = &recs[0];
    assert_eq!(r.index, i32::MIN);
    assert_eq!(r.top_handle, i64::MAX);
    assert_eq!(r.bind_handle, i64::MIN);
    assert_eq!(r.is_enter_system, 1);
    assert_eq!(r.pid, 5);
    assert_eq!(r.vbox_pid, 0);
}

#[test]
fn short_line_pads_with_defaults() {
    let recs = parse_str("5\r\n");
    assert_eq!(recs.len(), 1);
    let r = &recs[0];
    assert_eq!(r.index, 5);
    assert_eq!(r.name, "");
    assert_eq!(r.top_handle, 0);
    assert_eq!(r.bind_handle, 0);
    assert_eq!(r.is_enter_system, 0);
    assert_eq!(r.pid, -1);
    assert_eq!(r.vbox_pid, -1);
}

#[test]
fn blank_lines_are_skipped() {
    let recs = parse_str("\r\n\r\n0,A,0,0,0,-1,-1\r\n\r\n");
    assert_eq!(recs.len(), 1);
    assert_eq!(recs[0].name, "A");
}

#[test]
fn final_line_needs_no_terminator() {
    let recs = parse_str("0,A,0,0,0,-1,-1");
    assert_eq!(recs.len(), 1);
    assert_eq!(recs[0].name, "A");
}

#[test]
fn runtime_error_wraps_os_failure() {
    let e = std::io::Error::new(std::io::ErrorKind::NotFound, "no such file");
    let le = LdError::from(e);
    assert!(matches!(le, LdError::RuntimeError(_)));
    assert!(le.message().starts_with("RuntimeError"));
}

#[test]
fn encoding_error_message() {
    assert_eq!(LdError::EncodingError.message(), "EncodingError");
}
