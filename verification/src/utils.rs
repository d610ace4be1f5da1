//! Headers, bodies and outbound calls: how raw headers become a mapping and a JSON
//! text, and how a stored request is made ready to be sent again. The calls into
//! `serde_json`, `http`, `uuid`, `chrono` and `String::from_utf8` stand here, each
//! behind a function that says what it takes on trust.

use crate::mapping::{
    distinct_names, lemma_mapping_distinct, lemma_put_appends, lemma_put_replaces, put, to_mapping, Pairs,
};
use crate::models::StoredRequest;
use vstd::prelude::*;
use vstd::utf8::{decode_utf8, encode_utf8, valid_utf8};

verus! {

/// The JSON text that `serde_json` writes for an object with these string members, in
/// this order.
pub uninterp spec fn json_object_text(entries: Seq<(Seq<char>, Seq<char>)>) -> Seq<char>;

/// The members of the JSON object that `text` holds, as `serde_json` reads them into a
/// `BTreeMap<String, String>`; `None` where `text` is no such object.
pub uninterp spec fn json_object_entries(text: Seq<char>) -> Option<Seq<(Seq<char>, Seq<char>)>>;

/// A byte that `http` lets stand in a header name: an ASCII letter or digit, or one
/// of ``!#$%&'*+-.^_`|~``.
pub open spec fn header_name_byte(b: u8) -> bool {
    ||| 48 <= b <= 57
    ||| 65 <= b <= 90
    ||| 97 <= b <= 122
    ||| b == 33
    ||| 35 <= b <= 39
    ||| b == 42
    ||| b == 43
    ||| b == 45
    ||| b == 46
    ||| 94 <= b <= 96
    ||| b == 124
    ||| b == 126
}

/// Whether `http` accepts `name` as the name of a header: it is 1 to 65535 bytes long
/// and every byte is one that may stand there.
pub open spec fn header_name_accepted(name: Seq<char>) -> bool {
    &&& 1 <= encode_utf8(name).len() <= 65535
    &&& forall|i: int| 0 <= i < encode_utf8(name).len() ==> header_name_byte(#[trigger] encode_utf8(name)[i])
}

/// Writes the pairs as one JSON object through `serde::Serializer::collect_map` on a
/// `serde_json::Serializer`, which emits the members in the order given. The text is
/// a function of the pairs alone; it is named, not described.
#[verifier::external_body]
pub(crate) fn encode_object(entries: &Vec<(String, String)>) -> (text: String)
    ensures
        text@ == json_object_text(entries.deep_view()),
{
    let mut out: Vec<u8> = Vec::new();
    let mut writer = serde_json::Serializer::new(&mut out);
    let _ = serde::Serializer::collect_map(&mut writer, entries.iter().map(|entry| (&entry.0, &entry.1)));
    String::from_utf8(out).unwrap_or_default()
}

/// Reads `text` with `serde_json::from_str` as a `BTreeMap<String, String>` and hands
/// out its members in the map's order. The outcome is a function of the text alone; it
/// is named, not described.
#[verifier::external_body]
pub(crate) fn decode_object(text: &str) -> (entries: Option<Vec<(String, String)>>)
    ensures
        entries.deep_view() == json_object_entries(text@),
{
    let parsed: Result<std::collections::BTreeMap<String, String>, serde_json::Error> = serde_json::from_str(text);
    parsed.ok().map(|members| members.into_iter().collect())
}

/// Asks `http::HeaderName::from_bytes` whether it accepts the name. It refuses the
/// empty name and one longer than 65535 bytes, and looks every byte up in a table that
/// admits letters, digits and fifteen signs.
#[verifier::external_body]
pub(crate) fn accepts_header_name(name: &str) -> (accepted: bool)
    ensures
        accepted == header_name_accepted(name@),
{
    axum::http::HeaderName::from_bytes(name.as_bytes()).is_ok()
}

/// A byte that `http` lets stand in a header value: anything from the space upwards
/// but the delete character, or a tab.
pub open spec fn header_value_byte(b: u8) -> bool {
    (b >= 32 && b != 127) || b == 9
}

/// Whether `http` accepts `value` as the value of a header: every byte of its UTF-8
/// form is one that may stand there.
pub open spec fn header_value_accepted(value: Seq<char>) -> bool {
    forall|i: int| 0 <= i < encode_utf8(value).len() ==> header_value_byte(#[trigger] encode_utf8(value)[i])
}

/// Asks `http::HeaderValue::from_str` whether it accepts the value. It scans the bytes
/// of the text and refuses it when one of them is a control character other than the
/// tab.
#[verifier::external_body]
pub(crate) fn accepts_header_value(value: &str) -> (accepted: bool)
    ensures
        accepted == header_value_accepted(value@),
{
    axum::http::HeaderValue::from_str(value).is_ok()
}

/// Asks `http::StatusCode::from_u16` whether it accepts the code, which it does from
/// 100 up to 999.
#[verifier::external_body]
pub(crate) fn accepts_status_code(code: u16) -> (accepted: bool)
    ensures
        accepted == (100 <= code <= 999),
{
    axum::http::StatusCode::from_u16(code).is_ok()
}

/// Calls `String::from_utf8`: the text that the bytes encode, or `None` where they are
/// not UTF-8.
#[verifier::external_body]
pub(crate) fn text_from_utf8(bytes: &Vec<u8>) -> (text: Option<String>)
    ensures
        text is Some <==> valid_utf8(bytes@),
        text matches Some(s) ==> s@ == decode_utf8(bytes@),
{
    String::from_utf8(bytes.to_vec()).ok()
}

/// Draws a random identifier with `uuid::Uuid::new_v4` and writes it in the usual
/// hyphenated form. It is random, so nothing is claimed of it. The call fails only
/// where the operating system cannot supply random bytes.
#[verifier::external_body]
pub(crate) fn fresh_identifier() -> (id: String) {
    uuid::Uuid::new_v4().to_string()
}

/// Reads the clock with `chrono::Utc::now` and writes the instant with `to_rfc3339`.
/// It depends on the time of the call, so nothing is claimed of it. The call fails
/// only where the system clock stands before 1970.
#[verifier::external_body]
pub(crate) fn current_timestamp() -> (stamp: String) {
    chrono::Utc::now().to_rfc3339()
}

/// The text of a request body: what the bytes encode, or nothing where they are not
/// UTF-8.
pub open spec fn body_text(bytes: Seq<u8>) -> Seq<char> {
    if valid_utf8(bytes) {
        decode_utf8(bytes)
    } else {
        Seq::empty()
    }
}

/// Decodes a request body. A body that is not UTF-8 is kept as the empty text.
pub fn decode_body(bytes: &Vec<u8>) -> (text: String)
    ensures
        text@ == body_text(bytes@),
{
    match text_from_utf8(bytes) {
        Some(text) => text,
        None => String::new(),
    }
}

/// A byte that may stand in a header value shown as text: printable ASCII or a tab.
pub open spec fn visible_ascii(b: u8) -> bool {
    (32 <= b && b < 127) || b == 9
}

/// Whether every byte is visible ASCII.
pub open spec fn all_visible_ascii(bytes: Seq<u8>) -> bool {
    forall|i: int| 0 <= i < bytes.len() ==> visible_ascii(#[trigger] bytes[i])
}

/// The text of a header value: its bytes read as ASCII characters, or nothing where
/// one of them is not visible ASCII.
pub open spec fn header_text(bytes: Seq<u8>) -> Seq<char> {
    if all_visible_ascii(bytes) {
        Seq::new(bytes.len(), |i: int| bytes[i] as char)
    } else {
        Seq::empty()
    }
}

/// ASCII bytes are UTF-8 and decode to themselves.
proof fn lemma_ascii_decodes(bytes: Seq<u8>)
    requires
        all_visible_ascii(bytes),
    ensures
        valid_utf8(bytes),
        decode_utf8(bytes) == Seq::new(bytes.len(), |i: int| bytes[i] as char),
{
    let chars = Seq::new(bytes.len(), |i: int| bytes[i] as char);
    assert forall|i: int| 0 <= i < chars.len() implies '\0' <= #[trigger] chars[i] <= '\u{7f}' by {
        assert(visible_ascii(bytes[i]));
    }
    assert(vstd::utf8::is_ascii_chars(chars));
    vstd::utf8::is_ascii_chars_encode_utf8(chars);
    assert forall|i: int| 0 <= i < bytes.len() implies vstd::utf8::encode_utf8(chars)[i] == bytes[i] by {
        assert(visible_ascii(bytes[i]));
        assert(chars[i] as u8 == bytes[i]);
    }
    assert(vstd::utf8::encode_utf8(chars) =~= bytes);
    vstd::utf8::encode_utf8_valid_utf8(chars);
    vstd::utf8::encode_utf8_decode_utf8(chars);
}

/// Reads a header value as text. A value with a byte outside visible ASCII is kept as
/// the empty text.
pub fn header_value_text(bytes: &Vec<u8>) -> (text: String)
    ensures
        text@ == header_text(bytes@),
{
    let mut i: usize = 0;
    while i < bytes.len()
        invariant
            i <= bytes.len(),
            forall|k: int| 0 <= k < i ==> visible_ascii(#[trigger] bytes@[k]),
        decreases bytes.len() - i,
    {
        let b: u8 = bytes[i];
        if !((32 <= b && b < 127) || b == 9) {
            return String::new();
        }
        i += 1;
    }
    proof {
        lemma_ascii_decodes(bytes@);
    }
    match text_from_utf8(bytes) {
        Some(text) => text,
        None => String::new(),
    }
}

/// Raw headers with each value read as text.
pub open spec fn header_pairs(headers: Seq<(Seq<char>, Seq<u8>)>) -> Pairs {
    Seq::new(headers.len(), |i: int| (headers[i].0, header_text(headers[i].1)))
}

/// The mapping from name to value text that a list of raw headers denotes.
pub open spec fn header_map(headers: Seq<(Seq<char>, Seq<u8>)>) -> Pairs {
    to_mapping(header_pairs(headers))
}

/// Binds `name` to `value` in the list.
pub fn put_entry(entries: &mut Vec<(String, String)>, name: String, value: String)
    ensures
        final(entries).deep_view() == put(old(entries).deep_view(), name@, value@),
{
    let ghost before = entries.deep_view();
    let mut i: usize = 0;
    while i < entries.len()
        invariant
            i <= entries.len(),
            entries.deep_view() == before,
            before == old(entries).deep_view(),
            forall|k: int| 0 <= k < i ==> (#[trigger] before[k]).0 != name@,
        decreases entries.len() - i,
    {
        assert(before[i as int] == entries@[i as int].deep_view());
        if entries[i].0 == name {
            entries.set(i, (name, value));
            proof {
                assert(entries.deep_view() =~= before.update(i as int, (name@, value@)));
                lemma_put_replaces(before, i as int, name@, value@);
            }
            return ;
        }
        i += 1;
    }
    entries.push((name, value));
    proof {
        assert(entries.deep_view() =~= before.push((name@, value@)));
        lemma_put_appends(before, name@, value@);
    }
}

/// Collects pairs into a mapping: one entry per name, the last value given for it.
pub fn collect_mapping(pairs: &Vec<(String, String)>) -> (map: Vec<(String, String)>)
    ensures
        map.deep_view() == to_mapping(pairs.deep_view()),
        distinct_names(map.deep_view()),
{
    proof {
        lemma_mapping_distinct(pairs.deep_view());
    }
    let mut map: Vec<(String, String)> = Vec::new();
    let mut i: usize = 0;
    assert(pairs.deep_view().take(0) =~= Seq::empty());
    assert(map.deep_view() =~= Seq::empty());
    while i < pairs.len()
        invariant
            i <= pairs.len(),
            map.deep_view() == to_mapping(pairs.deep_view().take(i as int)),
        decreases pairs.len() - i,
    {
        proof {
            let upto = pairs.deep_view().take(i as int + 1);
            assert(upto.drop_last() =~= pairs.deep_view().take(i as int));
            assert(upto.last() == pairs@[i as int].deep_view());
        }
        put_entry(&mut map, pairs[i].0.clone(), pairs[i].1.clone());
        i += 1;
    }
    assert(pairs.deep_view().take(i as int) =~= pairs.deep_view());
    map
}

/// Turns raw headers into a mapping from name to value text.
pub fn headers_to_map(headers: &Vec<(String, Vec<u8>)>) -> (map: Vec<(String, String)>)
    ensures
        map.deep_view() == header_map(headers.deep_view()),
        distinct_names(map.deep_view()),
{
    let mut texts: Vec<(String, String)> = Vec::new();
    let mut i: usize = 0;
    while i < headers.len()
        invariant
            i <= headers.len(),
            texts.len() == i,
            forall|k: int| 0 <= k < i ==> (#[trigger] texts.deep_view()[k]) == header_pairs(headers.deep_view())[k],
        decreases headers.len() - i,
    {
        let ghost so_far = texts.deep_view();
        let value = header_value_text(&headers[i].1);
        texts.push((headers[i].0.clone(), value));
        proof {
            assert(headers@[i as int].1.deep_view() =~= headers@[i as int].1@);
            assert(texts.deep_view() =~= so_far.push((headers@[i as int].0@, header_text(headers@[i as int].1@))));
        }
        i += 1;
    }
    assert(texts.deep_view() =~= header_pairs(headers.deep_view()));
    collect_mapping(&texts)
}

/// Writes raw headers as the JSON object of their mapping.
pub fn headers_to_json(headers: &Vec<(String, Vec<u8>)>) -> (text: String)
    ensures
        text@ == json_object_text(header_map(headers.deep_view())),
{
    let map = headers_to_map(headers);
    encode_object(&map)
}

/// An outbound HTTP POST, ready to be sent.
#[derive(Debug)]
pub struct OutboundCall {
    pub url: String,
    pub headers: Vec<(String, String)>,
    pub body: String,
}

/// Mathematical value of an [`OutboundCall`].
pub struct OutboundCallView {
    pub url: Seq<char>,
    pub headers: Pairs,
    pub body: Seq<char>,
}

impl View for OutboundCall {
    type V = OutboundCallView;

    open spec fn view(&self) -> OutboundCallView {
        OutboundCallView { url: self.url@, headers: self.headers.deep_view(), body: self.body@ }
    }
}

impl Clone for OutboundCall {
    fn clone(&self) -> (copy: Self)
        ensures
            copy@ == self@,
    {
        OutboundCall { url: self.url.clone(), headers: clone_entries(&self.headers), body: self.body.clone() }
    }
}

/// A copy of the list.
pub fn clone_entries(entries: &Vec<(String, String)>) -> (copy: Vec<(String, String)>)
    ensures
        copy.deep_view() == entries.deep_view(),
{
    let mut copy: Vec<(String, String)> = Vec::new();
    let mut i: usize = 0;
    assert(copy.deep_view() =~= entries.deep_view().take(0));
    while i < entries.len()
        invariant
            i <= entries.len(),
            copy.deep_view() == entries.deep_view().take(i as int),
        decreases entries.len() - i,
    {
        let ghost so_far = copy.deep_view();
        copy.push((entries[i].0.clone(), entries[i].1.clone()));
        assert(copy.deep_view() =~= so_far.push((entries@[i as int].0@, entries@[i as int].1@)));
        i += 1;
    }
    assert(entries.deep_view().take(i as int) =~= entries.deep_view());
    copy
}

/// Whether a header can go out on the wire: the transport accepts both its name and
/// its value.
pub open spec fn sendable(entry: (Seq<char>, Seq<char>)) -> bool {
    header_name_accepted(entry.0) && header_value_accepted(entry.1)
}

/// The entries that can go out on the wire, in order.
pub open spec fn sendable_entries(entries: Pairs) -> Pairs {
    entries.filter(|entry: (Seq<char>, Seq<char>)| sendable(entry))
}

/// The headers with which a stored header text is sent again: its members that the
/// transport accepts. A text that is no JSON object of strings has none.
pub open spec fn outbound_headers(stored: Seq<char>) -> Pairs {
    match json_object_entries(stored) {
        Some(entries) => sendable_entries(entries),
        None => Seq::empty(),
    }
}

/// The call that sends `request` again to `url`: a POST of its body, with the stored
/// headers that can go out.
pub open spec fn outbound_call(url: Seq<char>, request: crate::models::StoredRequestView) -> OutboundCallView {
    OutboundCallView { url, headers: outbound_headers(request.headers), body: request.body }
}

/// The first `n` entries that are marked to be kept, in order. An entry without a
/// mark is not kept.
pub open spec fn kept_upto(entries: Pairs, keep: Seq<bool>, n: int) -> Pairs
    decreases n,
{
    if n <= 0 {
        Seq::empty()
    } else {
        let before = kept_upto(entries, keep, n - 1);
        if n - 1 < keep.len() && keep[n - 1] {
            before.push(entries[n - 1])
        } else {
            before
        }
    }
}

/// The entries that are marked to be kept, in order.
pub open spec fn kept_where(entries: Pairs, keep: Seq<bool>) -> Pairs {
    kept_upto(entries, keep, entries.len() as int)
}

/// Where every entry is marked exactly when it can go out on the wire, the entries
/// kept are the sendable ones.
pub proof fn lemma_kept_are_sendable(entries: Pairs, keep: Seq<bool>, n: int)
    requires
        0 <= n <= entries.len(),
        keep.len() == entries.len(),
        forall|i: int| 0 <= i < entries.len() ==> keep[i] == sendable(#[trigger] entries[i]),
    ensures
        kept_upto(entries, keep, n) == sendable_entries(entries.take(n)),
    decreases n,
{
    reveal(Seq::filter);
    if n > 0 {
        lemma_kept_are_sendable(entries, keep, n - 1);
        assert(entries.take(n).drop_last() =~= entries.take(n - 1));
        assert(entries.take(n).last() == entries[n - 1]);
    }
}

/// Keeps the entries whose mark is set and skips the others. A list of marks that is
/// too short leaves the entries beyond it out.
pub fn keep_where(entries: &Vec<(String, String)>, keep: &Vec<bool>) -> (kept: Vec<(String, String)>)
    ensures
        kept.deep_view() == kept_where(entries.deep_view(), keep@),
{
    let mut kept: Vec<(String, String)> = Vec::new();
    let mut i: usize = 0;
    assert(kept.deep_view() =~= Seq::empty());
    while i < entries.len()
        invariant
            i <= entries.len(),
            kept.deep_view() == kept_upto(entries.deep_view(), keep@, i as int),
        decreases entries.len() - i,
    {
        let ghost so_far = kept.deep_view();
        if i < keep.len() && keep[i] {
            kept.push((entries[i].0.clone(), entries[i].1.clone()));
            assert(kept.deep_view() =~= so_far.push(entries.deep_view()[i as int]));
        }
        i += 1;
    }
    kept
}

/// Marks each entry by whether the transport accepts both its name and its value.
pub fn sendable_marks(entries: &Vec<(String, String)>) -> (marks: Vec<bool>)
    ensures
        marks@.len() == entries@.len(),
        forall|i: int| 0 <= i < entries@.len() ==> marks@[i] == sendable(#[trigger] entries.deep_view()[i]),
{
    let mut marks: Vec<bool> = Vec::new();
    let mut i: usize = 0;
    while i < entries.len()
        invariant
            i <= entries.len(),
            marks@.len() == i,
            forall|k: int| 0 <= k < i ==> marks@[k] == sendable(#[trigger] entries.deep_view()[k]),
        decreases entries.len() - i,
    {
        let name_ok = accepts_header_name(entries[i].0.as_str());
        let value_ok = accepts_header_value(entries[i].1.as_str());
        assert(entries.deep_view()[i as int] == (entries@[i as int].0@, entries@[i as int].1@));
        marks.push(name_ok && value_ok);
        i += 1;
    }
    marks
}

/// Keeps the headers that the transport accepts and silently skips the others.
pub fn keep_sendable(entries: &Vec<(String, String)>) -> (kept: Vec<(String, String)>)
    ensures
        kept.deep_view() == sendable_entries(entries.deep_view()),
{
    let marks = sendable_marks(entries);
    proof {
        lemma_kept_are_sendable(entries.deep_view(), marks@, entries.deep_view().len() as int);
        assert(entries.deep_view().take(entries.deep_view().len() as int) =~= entries.deep_view());
    }
    keep_where(entries, &marks)
}

/// Builds the outbound copy of `req` for `forward_url`. The stored header text is read
/// back; headers that the transport would refuse are dropped, and an unreadable header
/// text leaves the call without headers.
pub fn forward_request(forward_url: &str, req: &StoredRequest) -> (call: OutboundCall)
    ensures
        call@ == outbound_call(forward_url@, req@),
{
    let headers = match decode_object(req.headers.as_str()) {
        Some(entries) => keep_sendable(&entries),
        None => Vec::new(),
    };
    assert(headers.deep_view() =~= outbound_headers(req.headers@));
    OutboundCall { url: forward_url.to_owned(), headers, body: req.body.clone() }
}

} // verus!
