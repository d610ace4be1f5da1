use webhook_tester::models::StoredRequest;
use webhook_tester::utils::{
    clone_entries, collect_mapping, decode_body, forward_request, header_value_text, headers_to_json,
    headers_to_map, keep_sendable, keep_where, put_entry, sendable_marks, OutboundCall,
};

fn pair(name: &str, value: &str) -> (String, String) {
    (name.to_string(), value.to_string())
}

fn raw(name: &str, value: &[u8]) -> (String, Vec<u8>) {
    (name.to_string(), value.to_vec())
}

fn stored_with_headers(headers: &str) -> StoredRequest {
    StoredRequest {
        id: "req-1".to_string(),
        webhook_id: "wh-1".to_string(),
        method: "POST".to_string(),
        headers: headers.to_string(),
        body: "hello world".to_string(),
        query: "".to_string(),
        created_at: "2025-01-01T00:00:00Z".to_string(),
    }
}

#[test]
fn header_value_text_reads_visible_ascii() {
    assert_eq!(header_value_text(&b"application/json".to_vec()), "application/json");
    assert_eq!(header_value_text(&b"a\tb ~".to_vec()), "a\tb ~");
    assert_eq!(header_value_text(&Vec::new()), "");
}

#[test]
fn header_value_text_is_empty_for_other_bytes() {
    assert_eq!(header_value_text(&vec![b'a', 0x7f]), "");
    assert_eq!(header_value_text(&vec![b'a', 0x1f]), "");
    assert_eq!(header_value_text(&vec![b'a', 0x80]), "");
    assert_eq!(header_value_text(&"caf\u{e9}".as_bytes().to_vec()), "");
    assert_eq!(header_value_text(&vec![b'\n']), "");
}

#[test]
fn headers_to_map_keeps_last_value_at_first_place() {
    let headers = vec![raw("a", b"1"), raw("b", b"2"), raw("a", b"3")];
    assert_eq!(headers_to_map(&headers), vec![pair("a", "3"), pair("b", "2")]);
}

#[test]
fn headers_to_map_blanks_unreadable_values() {
    let headers = vec![raw("x-bin", &[0xff, 0xfe]), raw("x-ok", b"fine")];
    assert_eq!(headers_to_map(&headers), vec![pair("x-bin", ""), pair("x-ok", "fine")]);
    assert_eq!(headers_to_map(&Vec::new()), Vec::<(String, String)>::new());
}

#[test]
fn headers_to_json_writes_an_object() {
    let headers = vec![raw("content-type", b"text/plain"), raw("x-test", b"123")];
    assert_eq!(headers_to_json(&headers), "{\"content-type\":\"text/plain\",\"x-test\":\"123\"}");
    assert_eq!(headers_to_json(&Vec::new()), "{}");
}

#[test]
fn headers_to_json_escapes_and_merges() {
    let headers = vec![raw("q", b"say \"hi\""), raw("q", b"back\\slash")];
    assert_eq!(headers_to_json(&headers), "{\"q\":\"back\\\\slash\"}");
}

#[test]
fn put_entry_replaces_or_appends() {
    let mut entries = vec![pair("a", "1"), pair("b", "2")];
    put_entry(&mut entries, "b".to_string(), "changed".to_string());
    assert_eq!(entries, vec![pair("a", "1"), pair("b", "changed")]);
    put_entry(&mut entries, "c".to_string(), "3".to_string());
    assert_eq!(entries, vec![pair("a", "1"), pair("b", "changed"), pair("c", "3")]);
    let mut empty: Vec<(String, String)> = Vec::new();
    put_entry(&mut empty, "k".to_string(), "v".to_string());
    assert_eq!(empty, vec![pair("k", "v")]);
}

#[test]
fn collect_mapping_binds_each_name_once() {
    let pairs = vec![pair("x", "1"), pair("y", "2"), pair("x", "3"), pair("y", "4"), pair("z", "5")];
    assert_eq!(collect_mapping(&pairs), vec![pair("x", "3"), pair("y", "4"), pair("z", "5")]);
    let again = collect_mapping(&collect_mapping(&pairs));
    assert_eq!(again, collect_mapping(&pairs));
}

#[test]
fn clone_entries_copies_every_pair() {
    let pairs = vec![pair("x", "1"), pair("y", "2")];
    assert_eq!(clone_entries(&pairs), pairs);
}

#[test]
fn decode_body_keeps_utf8_and_drops_the_rest() {
    assert_eq!(decode_body(&b"hello".to_vec()), "hello");
    assert_eq!(decode_body(&"gr\u{fc}\u{df}e \u{1f600}".as_bytes().to_vec()), "gr\u{fc}\u{df}e \u{1f600}");
    assert_eq!(decode_body(&Vec::new()), "");
    assert_eq!(decode_body(&vec![0xff, 0xfe, 0xfd]), "");
    assert_eq!(decode_body(&vec![b'o', b'k', 0xc3]), "");
}

#[test]
fn keep_sendable_skips_bad_names_and_values() {
    let entries = vec![
        pair("x-test", "123"),
        pair("bad name", "1"),
        pair("", "1"),
        pair("x-newline", "a\nb"),
        pair("x-delete", "a\u{7f}"),
        pair("x-tab", "a\tb"),
        pair("x-utf8", "caf\u{e9}"),
        pair("Content-Type", "text/plain"),
    ];
    assert_eq!(
        keep_sendable(&entries),
        vec![
            pair("x-test", "123"),
            pair("x-tab", "a\tb"),
            pair("x-utf8", "caf\u{e9}"),
            pair("Content-Type", "text/plain"),
        ]
    );
}

#[test]
fn forward_request_rebuilds_the_request() {
    let call: OutboundCall = forward_request("http://mock.url", &stored_with_headers(r#"{"x-test":"123"}"#));
    assert_eq!(call.url, "http://mock.url");
    assert_eq!(call.body, "hello world");
    assert_eq!(call.headers, vec![pair("x-test", "123")]);
}

#[test]
fn forward_request_reads_headers_back_sorted_and_filtered() {
    let stored = stored_with_headers(r#"{"b":"2","a":"1","bad name":"x","c":"line\nbreak"}"#);
    let call = forward_request("http://t", &stored);
    assert_eq!(call.headers, vec![pair("a", "1"), pair("b", "2")]);
}

#[test]
fn forward_request_without_readable_headers_sends_none() {
    for text in ["", "not json", "[1,2]", r#"{"a":1}"#, r#"{"a":"1""#] {
        let call = forward_request("http://t", &stored_with_headers(text));
        assert!(call.headers.is_empty(), "headers read from {:?}", text);
        assert_eq!(call.body, "hello world");
    }
}

#[test]
fn headers_written_are_read_back() {
    let headers = vec![raw("x-b", b"2"), raw("x-a", b"say \"hi\""), raw("x-b", b"3")];
    let stored = stored_with_headers(&headers_to_json(&headers));
    let call = forward_request("http://t", &stored);
    assert_eq!(call.headers, vec![pair("x-a", "say \"hi\""), pair("x-b", "3")]);
}

#[test]
fn outbound_call_clone_is_equal() {
    let call = forward_request("http://t", &stored_with_headers(r#"{"a":"1"}"#));
    let copy = call.clone();
    assert_eq!(copy.url, call.url);
    assert_eq!(copy.headers, call.headers);
    assert_eq!(copy.body, call.body);
}

#[test]
fn keep_where_goes_by_the_marks() {
    let entries = vec![pair("a", "1"), pair("b", "2"), pair("c", "3")];
    assert_eq!(keep_where(&entries, &vec![true, false, true]), vec![pair("a", "1"), pair("c", "3")]);
    assert_eq!(keep_where(&entries, &vec![false, false, false]), Vec::<(String, String)>::new());
    assert_eq!(keep_where(&entries, &vec![true, true, true]), entries);
    assert_eq!(keep_where(&entries, &vec![false, true]), vec![pair("b", "2")]);
    assert_eq!(keep_where(&entries, &vec![true, true, true, true]), entries);
    assert_eq!(keep_where(&Vec::new(), &vec![true]), Vec::<(String, String)>::new());
}

#[test]
fn sendable_marks_tell_good_headers_from_bad() {
    let entries = vec![
        pair("x-test", "123"),
        pair("bad name", "1"),
        pair("x-newline", "a\nb"),
        pair("", ""),
        pair("x-empty", ""),
    ];
    assert_eq!(sendable_marks(&entries), vec![true, false, false, false, true]);
    assert_eq!(sendable_marks(&Vec::new()), Vec::<bool>::new());
}

#[test]
fn header_names_are_letters_digits_and_fifteen_signs() {
    let signs = "!#$%&'*+-.^_`|~";
    for code in 0u8..128 {
        let c = code as char;
        let expected = c.is_ascii_alphanumeric() || signs.contains(c);
        let marks = sendable_marks(&vec![(c.to_string(), "v".to_string())]);
        assert_eq!(marks, vec![expected], "name {:?}", c);
    }
    assert_eq!(sendable_marks(&vec![pair("caf\u{e9}", "v")]), vec![false]);
    assert_eq!(sendable_marks(&vec![pair("X-Mixed-Case_1", "v")]), vec![true]);
}

#[test]
fn header_names_are_one_to_65535_bytes_long() {
    assert_eq!(sendable_marks(&vec![pair("", "v")]), vec![false]);
    assert_eq!(sendable_marks(&vec![pair("a", "v")]), vec![true]);
    assert_eq!(sendable_marks(&vec![("a".repeat(64), "v".to_string())]), vec![true]);
    assert_eq!(sendable_marks(&vec![("a".repeat(65), "v".to_string())]), vec![true]);
    assert_eq!(sendable_marks(&vec![("a".repeat(65535), "v".to_string())]), vec![true]);
    assert_eq!(sendable_marks(&vec![("a".repeat(65536), "v".to_string())]), vec![false]);
    assert_eq!(sendable_marks(&vec![(format!("{} ", "a".repeat(64)), "v".to_string())]), vec![false]);
}

#[test]
fn header_values_admit_all_but_control_bytes() {
    for code in 0u8..128 {
        let c = code as char;
        let expected = (code >= 32 && code != 127) || code == 9;
        let marks = sendable_marks(&vec![("x".to_string(), c.to_string())]);
        assert_eq!(marks, vec![expected], "value {:?}", c);
    }
    assert_eq!(sendable_marks(&vec![pair("x", "caf\u{e9} \u{1f600}")]), vec![true]);
}
