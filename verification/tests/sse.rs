use saelora::api::chat::sse::{
    classify_sse_data, done_frame, extract_sse_data, find_subsequence, frame_chunk,
    next_sse_event, persist_step, sse_data_of_text, take_event, PersistStep, SseData,
};

#[test]
fn find_subsequence_first_position() {
    assert_eq!(find_subsequence(b"abcabc", b"ca"), Some(2));
    assert_eq!(find_subsequence(b"abc", b"abcd"), None);
    assert_eq!(find_subsequence(b"aaa", b"aa"), Some(0));
    assert_eq!(find_subsequence(b"xyz", b"q"), None);
}

#[test]
fn events_split_on_blank_lines() {
    let (ev, n) = next_sse_event(b"data: a\n\ndata: b\n\n").unwrap();
    assert_eq!(ev, b"data: a".to_vec());
    assert_eq!(n, 9);
    let (ev, n) = next_sse_event(b"data: a\r\n\r\nrest").unwrap();
    assert_eq!(ev, b"data: a".to_vec());
    assert_eq!(n, 11);
    assert!(next_sse_event(b"data: partial\n").is_none());
}

#[test]
fn data_lines_are_joined() {
    assert_eq!(extract_sse_data(b"event: x\ndata: one\r\ndata:two \n: c"), "one\ntwo");
    assert_eq!(sse_data_of_text("id: 1"), "");
    assert_eq!(sse_data_of_text("  data:  [DONE] "), "[DONE]");
    assert_eq!(extract_sse_data(b"data: caf\xc3\xa9"), "caf\u{e9}");
    assert_eq!(extract_sse_data(b"data: \xff"), "\u{fffd}");
}

#[test]
fn buffer_is_consumed_event_by_event() {
    let mut buf = b"data: a\n\ndata: b\n\ndata: c".to_vec();
    assert_eq!(take_event(&mut buf), Some("a".to_string()));
    assert_eq!(take_event(&mut buf), Some("b".to_string()));
    assert_eq!(take_event(&mut buf), None);
    assert_eq!(buf, b"data: c".to_vec());
}

#[test]
fn classify_and_frame() {
    assert_eq!(classify_sse_data("  "), SseData::Blank);
    assert_eq!(classify_sse_data(" [DONE]\n"), SseData::Done);
    assert_eq!(classify_sse_data("{}"), SseData::Chunk);
    assert_eq!(frame_chunk("{\"a\":1}"), b"data: {\"a\":1}\n\n".to_vec());
    assert_eq!(done_frame(), b"data: [DONE]\n\n".to_vec());
}

#[test]
fn assistant_text_is_saved_once() {
    let mut persisted = false;
    assert_eq!(persist_step(&mut persisted, "hello"), PersistStep::Append);
    assert!(persisted);
    assert_eq!(persist_step(&mut persisted, "hello"), PersistStep::AlreadyHandled);
    let mut p2 = false;
    assert_eq!(persist_step(&mut p2, "  "), PersistStep::NothingToSave);
    assert!(p2);
}
