//! Tests of the streaming protocol engine: frame reassembly, event
//! decoding, payload parsing, termination, and delta extraction.

use nanoai::error::StreamError;
use nanoai::event::decode_event;
use nanoai::event::is_sentinel;
use nanoai::frame::FrameBuffer;
use nanoai::parse::parse_payload;
use nanoai::stream::visible_delta;
use nanoai::stream::StreamEngine;
use nanoai::stream::StreamWrapper;
use nanoai::types::Role;
use nanoai::types::StreamCompletionResponse;

/// One SSE frame whose payload is a valid incremental completion
/// carrying `content` as the first choice's delta text.
fn frame_with(content: &str) -> Vec<u8> {
    let json = format!(
        "{{\"id\":\"c1\",\"created\":1,\"model\":\"m\",\"system_fingerprint\":null,\"object\":\"chat.completion.chunk\",\"choices\":[{{\"index\":0,\"finish_reason\":null,\"delta\":{{\"role\":\"assistant\",\"content\":\"{}\"}}}}]}}",
        content
    );
    format!("data: {}\n\n", json).into_bytes()
}

fn ok_items(items: Vec<Result<StreamCompletionResponse, StreamError>>) -> Vec<StreamCompletionResponse> {
    items.into_iter().map(|i| i.expect("expected a parsed completion")).collect()
}

#[test]
fn frame_buffer_waits_for_delimiter() {
    let mut buf = FrameBuffer::new();
    buf.append(b"data: partial");
    assert!(buf.extract_next_frame().is_none());
    buf.append(b" frame\n");
    assert!(buf.extract_next_frame().is_none());
    buf.append(b"\n");
    let frame = buf.extract_next_frame().expect("a complete frame");
    assert_eq!(frame, b"data: partial frame\n\n".to_vec());
    assert!(buf.is_empty());
}

#[test]
fn frame_buffer_extracts_frames_in_order() {
    let mut buf = FrameBuffer::new();
    buf.append(b"data: a\n\ndata: b\n\nrest");
    assert_eq!(buf.extract_next_frame().unwrap(), b"data: a\n\n".to_vec());
    assert_eq!(buf.extract_next_frame().unwrap(), b"data: b\n\n".to_vec());
    assert!(buf.extract_next_frame().is_none());
    assert_eq!(buf.len(), 4);
    assert_eq!(buf.take_residue(), b"rest".to_vec());
    assert!(buf.is_empty());
}

#[test]
fn multi_line_data_join() {
    let payload = decode_event(b"data: foo\ndata: bar\n\n");
    assert_eq!(payload, b"foo\nbar".to_vec());
}

#[test]
fn comment_and_other_lines_ignored() {
    let payload = decode_event(b": keep-alive\nevent: message\ndata: {\"a\":1}\n\n");
    assert_eq!(payload, b"{\"a\":1}".to_vec());
}

#[test]
fn frame_without_data_lines_is_empty() {
    let payload = decode_event(b": ping\n\n");
    assert_eq!(payload, b"".to_vec());
}

#[test]
fn data_lines_are_trimmed() {
    let payload = decode_event(b"  data: spaced  \r\n\n");
    assert_eq!(payload, b"spaced".to_vec());
}

#[test]
fn sentinel_is_recognised() {
    assert!(is_sentinel(b"[DONE]"));
    assert!(!is_sentinel(b"[DONE] "));
    assert!(!is_sentinel(b"[done]"));
    assert_eq!(decode_event(b"data: [DONE]\n\n"), b"[DONE]".to_vec());
}

#[test]
fn sentinel_must_be_the_whole_payload() {
    // A multi-line payload that merely contains the sentinel text is
    // an ordinary payload, not a terminator.
    let mut engine = StreamEngine::new();
    let items = engine.push_chunk(b"data: x\ndata: [DONE]\n\n");
    assert_eq!(items.len(), 1);
    match &items[0] {
        Err(StreamError::MalformedPayload { payload, .. }) => {
            assert_eq!(payload, "x\n[DONE]");
        }
        other => panic!("expected a malformed-payload error, got {:?}", other),
    }
    assert!(!engine.is_closed());
}

#[test]
fn data_prefix_requires_the_space() {
    // Only the literal prefix `data: ` marks a payload line.
    let payload = decode_event(b"data:foo\ndata: bar\n\n");
    assert_eq!(payload, b"bar".to_vec());
}

#[test]
fn engine_parses_a_complete_stream() {
    let wrapper = StreamWrapper::new();
    let mut engine = wrapper.engine();
    let mut bytes = frame_with("Hel");
    bytes.extend_from_slice(&frame_with("lo"));
    bytes.extend_from_slice(b"data: [DONE]\n\n");
    let items = ok_items(engine.push_chunk(&bytes));
    assert_eq!(items.len(), 2);
    assert_eq!(items[0].id, "c1");
    assert_eq!(items[0].created, 1);
    assert_eq!(items[0].model, "m");
    assert_eq!(items[0].system_fingerprint, None);
    assert_eq!(items[0].object, "chat.completion.chunk");
    assert_eq!(items[0].choices.len(), 1);
    assert_eq!(items[0].choices[0].index, 0);
    assert_eq!(items[0].choices[0].finish_reason, None);
    assert_eq!(items[0].choices[0].delta.role, Some(Role::Assistant));
    assert_eq!(items[0].choices[0].delta.content.as_deref(), Some("Hel"));
    assert_eq!(items[1].delta_content(), "lo");
    assert!(engine.is_closed());
}

#[test]
fn chunk_boundaries_do_not_matter() {
    // One stream, cut at awkward places: mid-line, between the two
    // delimiter bytes, and byte by byte.
    let mut whole: Vec<u8> = Vec::new();
    whole.extend_from_slice(&frame_with("a"));
    whole.extend_from_slice(b": comment\n\n");
    whole.extend_from_slice(&frame_with("b"));

    let mut reference = StreamEngine::new();
    let texts_whole: Vec<String> = ok_items(reference.push_chunk(&whole))
        .iter()
        .map(|c| c.delta_content())
        .collect();
    assert_eq!(texts_whole, vec!["a".to_string(), "b".to_string()]);

    let cut = whole.len() / 3;
    let mut split_engine = StreamEngine::new();
    let mut texts_split: Vec<String> = Vec::new();
    for part in [&whole[..cut], &whole[cut..cut + 1], &whole[cut + 1..]] {
        for item in ok_items(split_engine.push_chunk(part)) {
            texts_split.push(item.delta_content());
        }
    }
    assert_eq!(texts_split, texts_whole);

    let mut byte_engine = StreamEngine::new();
    let mut texts_bytes: Vec<String> = Vec::new();
    for byte in &whole {
        for item in ok_items(byte_engine.push_chunk(&[*byte])) {
            texts_bytes.push(item.delta_content());
        }
    }
    assert_eq!(texts_bytes, texts_whole);
}

#[test]
fn byte_at_a_time_buffering_matches_whole() {
    let mut whole: Vec<u8> = Vec::new();
    whole.extend_from_slice(&frame_with("x"));
    whole.extend_from_slice(&frame_with("y"));

    let mut one_call = StreamEngine::new();
    let payloads_whole = one_call.push_payloads(&whole);

    let mut stepwise = StreamEngine::new();
    let mut payloads_bytes: Vec<Vec<u8>> = Vec::new();
    for byte in &whole {
        payloads_bytes.extend(stepwise.push_payloads(&[*byte]));
    }
    assert_eq!(payloads_bytes, payloads_whole);
}

#[test]
fn sentinel_ends_stream_within_a_chunk() {
    let mut engine = StreamEngine::new();
    let mut bytes = frame_with("kept");
    bytes.extend_from_slice(b"data: [DONE]\n\n");
    bytes.extend_from_slice(&frame_with("discarded"));
    let items = engine.push_chunk(&bytes);
    assert_eq!(items.len(), 1);
    assert_eq!(items[0].as_ref().unwrap().delta_content(), "kept");
    assert!(engine.is_closed());
    let later = engine.push_chunk(&frame_with("ignored"));
    assert!(later.is_empty());
    assert!(engine.is_closed());
}

#[test]
fn malformed_payload_is_an_error_item_not_a_panic() {
    let mut engine = StreamEngine::new();
    let mut bytes = b"data: {\"bad\": }\n\n".to_vec();
    bytes.extend_from_slice(&frame_with("after"));
    let items = engine.push_chunk(&bytes);
    assert_eq!(items.len(), 2);
    match &items[0] {
        Err(StreamError::MalformedPayload { payload, reason }) => {
            assert_eq!(payload, "{\"bad\": }");
            assert!(!reason.is_empty());
        }
        other => panic!("expected a malformed-payload error, got {:?}", other),
    }
    assert_eq!(items[1].as_ref().unwrap().delta_content(), "after");
    assert!(!engine.is_closed());
}

#[test]
fn well_formed_json_with_wrong_schema_is_an_error_item() {
    let items = parse_payload(b"{\"id\":\"x\"}");
    match items {
        Err(StreamError::MalformedPayload { payload, .. }) => {
            assert_eq!(payload, "{\"id\":\"x\"}");
        }
        other => panic!("expected a malformed-payload error, got {:?}", other),
    }
}

#[test]
fn parse_rejects_bad_fields() {
    // created as a string
    assert!(parse_payload(
        b"{\"id\":\"x\",\"created\":\"1\",\"model\":\"m\",\"object\":\"o\",\"choices\":[]}"
    )
    .is_err());
    // choices not an array
    assert!(parse_payload(
        b"{\"id\":\"x\",\"created\":1,\"model\":\"m\",\"object\":\"o\",\"choices\":3}"
    )
    .is_err());
    // index out of the 32-bit range
    assert!(parse_payload(
        b"{\"id\":\"x\",\"created\":1,\"model\":\"m\",\"object\":\"o\",\"choices\":[{\"index\":4294967296,\"delta\":{}}]}"
    )
    .is_err());
    // unknown role name
    assert!(parse_payload(
        b"{\"id\":\"x\",\"created\":1,\"model\":\"m\",\"object\":\"o\",\"choices\":[{\"index\":0,\"delta\":{\"role\":\"robot\"}}]}"
    )
    .is_err());
    // delta not an object
    assert!(parse_payload(
        b"{\"id\":\"x\",\"created\":1,\"model\":\"m\",\"object\":\"o\",\"choices\":[{\"index\":0,\"delta\":5}]}"
    )
    .is_err());
}

#[test]
fn parse_accepts_minimal_choice() {
    let parsed = parse_payload(
        b"{\"id\":\"x\",\"created\":1,\"model\":\"m\",\"object\":\"o\",\"choices\":[{\"index\":2,\"delta\":{}}]}",
    )
    .expect("a minimal choice parses");
    assert_eq!(parsed.choices.len(), 1);
    assert_eq!(parsed.choices[0].index, 2);
    assert_eq!(parsed.choices[0].delta.role, None);
    assert_eq!(parsed.choices[0].delta.content, None);
    assert_eq!(parsed.choices[0].finish_reason, None);
    assert_eq!(parsed.delta_content(), "");
}

#[test]
fn duplicate_keys_resolve_to_the_last_value() {
    // The JSON parser keeps one entry per key, the last one written.
    let parsed = parse_payload(
        b"{\"id\":\"a\",\"id\":\"b\",\"created\":1,\"model\":\"m\",\"object\":\"o\",\"choices\":[]}",
    )
    .expect("duplicate keys are resolved by the parser");
    assert_eq!(parsed.id, "b");
}

#[test]
fn invalid_bytes_are_decoded_lossily() {
    // The payload bytes are not valid UTF-8 and not valid JSON: the
    // error item carries the lossily decoded text, with the invalid
    // byte replaced.
    let mut engine = StreamEngine::new();
    let items = engine.push_chunk(b"data: \xff\n\n");
    assert_eq!(items.len(), 1);
    match &items[0] {
        Err(StreamError::MalformedPayload { payload, .. }) => {
            assert_eq!(payload, "\u{fffd}");
        }
        other => panic!("expected a malformed-payload error, got {:?}", other),
    }
}

#[test]
fn empty_deltas_are_filtered_errors_are_not() {
    let mut engine = StreamEngine::new();
    let mut bytes = frame_with("");
    bytes.extend_from_slice(&frame_with("hi"));
    let items = engine.push_chunk(&bytes);
    assert_eq!(items.len(), 2);
    let mut texts: Vec<String> = Vec::new();
    for item in items {
        if let Some(shown) = visible_delta(item) {
            texts.push(shown.expect("both frames are valid"));
        }
    }
    assert_eq!(texts, vec!["hi".to_string()]);

    let passed = visible_delta(Err(StreamError::TransportFailure("reset".to_string())));
    match passed {
        Some(Err(StreamError::TransportFailure(m))) => assert_eq!(m, "reset"),
        other => panic!("expected the error to pass through, got {:?}", other),
    }
}

#[test]
fn invalid_encoding_passes_through_the_adapter() {
    // The variant is reserved: the engine never raises it under the
    // lossy decoding policy, but the adapter must pass it through
    // like every other error.
    let passed = visible_delta(Err(StreamError::InvalidEncoding));
    assert!(matches!(passed, Some(Err(StreamError::InvalidEncoding))));
}

#[test]
fn transport_failure_closes_the_stream() {
    let mut engine = StreamEngine::new();
    engine.push_chunk(b"data: partial");
    let err = engine.transport_failure("connection reset".to_string());
    match err {
        StreamError::TransportFailure(m) => assert_eq!(m, "connection reset"),
        other => panic!("expected a transport failure, got {:?}", other),
    }
    assert!(engine.is_closed());
    assert!(engine.push_chunk(&frame_with("late")).is_empty());
}

#[test]
fn finish_returns_residue_and_closes() {
    let mut engine = StreamEngine::new();
    let items = engine.push_chunk(b"data: left over");
    assert!(items.is_empty());
    let residue = engine.finish();
    assert_eq!(residue, b"data: left over".to_vec());
    assert!(engine.is_closed());
}
