//! The client side: addresses, replies and event streams.

use axp::client::attached::{AttachJobOptions, AttachedJob};
use axp::client::error::{Error, RpcError};
use axp::client::rpc::{attach_refusal, decode_rpc_response, RpcResponse};
use axp::client::sse::{parse_sse_frames, SseFrameDecoder};
use axp::client::url::{form_length, judge_base, path_length, Client};
use axp::proto::ids::{JobId, SessionId};
use axp::proto::job::{JobAttachRequest, LogEventFrame, LogStreamProto};

fn json(text: &str) -> serde_json::Value {
    serde_json::from_str(text).expect("json")
}

/// The frame that event data writes.
fn frame_of(data: &[u8]) -> LogEventFrame {
    let v: serde_json::Value = serde_json::from_slice(data).expect("frame json");
    LogEventFrame {
        job_id: JobId(v["job_id"].as_str().expect("job_id").to_owned()),
        seq: v["seq"].as_u64().expect("seq"),
        stream: match v["stream"].as_str().expect("stream") {
            "stdout" => LogStreamProto::Stdout,
            "stderr" => LogStreamProto::Stderr,
            other => panic!("unknown stream {other}"),
        },
        data: v["data"]
            .as_array()
            .expect("data")
            .iter()
            .map(|b| b.as_u64().expect("byte") as u8)
            .collect(),
        ts_millis: v["ts_millis"].as_u64().expect("ts_millis"),
    }
}

fn frames_of(events: Vec<Vec<u8>>) -> Vec<LogEventFrame> {
    events.iter().map(|data| frame_of(data)).collect()
}

fn frame_json(frame: &LogEventFrame) -> String {
    let stream = match frame.stream {
        LogStreamProto::Stdout => "stdout",
        LogStreamProto::Stderr => "stderr",
    };
    format!(
        "{{\"job_id\":\"{}\",\"seq\":{},\"stream\":\"{stream}\",\"data\":{:?},\"ts_millis\":{}}}",
        frame.job_id.0, frame.seq, frame.data, frame.ts_millis
    )
}

#[test]
fn success_response_decodes_result() {
    let response = RpcResponse {
        jsonrpc: "2.0".to_owned(),
        id: json("1"),
        result: Some(json(r#"{"ok": true}"#)),
        error: None,
    };
    let result = decode_rpc_response(response).expect("success");
    assert_eq!(result, json(r#"{"ok": true}"#));
}

#[test]
fn error_response_decodes_rpc_error() {
    let response: RpcResponse<serde_json::Value> = RpcResponse {
        jsonrpc: "2.0".to_owned(),
        id: json("1"),
        result: None,
        error: Some(RpcError::new(-32601, "method not found".to_owned(), None)),
    };
    let err = decode_rpc_response(response).expect_err("rpc error");
    assert!(matches!(err, Error::Rpc { code: -32601, .. }));
    assert_eq!(err.text(), "json-rpc error -32601: method not found");
}

fn rpc_response(
    jsonrpc: &str,
    id: serde_json::Value,
    result: Option<serde_json::Value>,
    error: Option<RpcError>,
) -> RpcResponse<serde_json::Value> {
    RpcResponse {
        jsonrpc: jsonrpc.to_owned(),
        id,
        result,
        error,
    }
}

#[test]
fn response_rejects_malformed_envelopes() {
    let ok = json(r#"{"ok": true}"#);
    for (response, expected) in [
        (
            rpc_response("1.0", json("1"), Some(ok.clone()), None),
            "unexpected jsonrpc version 1.0",
        ),
        (
            rpc_response("2.0", json("2"), Some(ok.clone()), None),
            "unexpected response id 2",
        ),
        (
            rpc_response("2.0", json("\"1\""), Some(ok.clone()), None),
            "unexpected response id \"1\"",
        ),
        (
            rpc_response("2.0", json("1.0"), Some(ok.clone()), None),
            "unexpected response id 1.0",
        ),
        (
            rpc_response(
                "2.0",
                json("1"),
                Some(ok),
                Some(RpcError::new(-32603, "internal error".to_owned(), None)),
            ),
            "response contained both result and error",
        ),
        (
            rpc_response("2.0", json("1"), None, None),
            "response contained neither result nor error",
        ),
    ] {
        let err = decode_rpc_response(response).expect_err("invalid response");
        assert!(
            matches!(&err, Error::InvalidRpcResponse(message) if message == expected),
            "{err:?}"
        );
    }
}

#[test]
fn refused_attach_is_an_error_object_or_a_status() {
    let object = RpcError::new(-32001, "gone".to_owned(), None);
    assert!(matches!(
        attach_refusal(404, Some(object)),
        Error::Rpc { code: -32001, .. }
    ));
    assert_eq!(attach_refusal(404, None).text(), "http status 404");
}

#[test]
fn sse_data_lines_decode_frames() {
    let frame = LogEventFrame {
        job_id: JobId("j_1".to_owned()),
        seq: 0,
        stream: LogStreamProto::Stdout,
        data: b"hello\n".to_vec(),
        ts_millis: 10,
    };
    let body = format!("id:0\ndata:{}\n\n", frame_json(&frame));
    let frames = frames_of(parse_sse_frames(body.as_bytes()));
    assert_eq!(frames, vec![frame]);
}

#[test]
fn sse_multiple_data_lines_decode_one_frame() {
    let frame = LogEventFrame {
        job_id: JobId("j_2".to_owned()),
        seq: 2,
        stream: LogStreamProto::Stderr,
        data: b"hello\nworld\n".to_vec(),
        ts_millis: 12,
    };
    let json = frame_json(&frame);
    let split = json.find(',').expect("comma") + 1;
    let body = format!("id:2\ndata:{}\ndata:{}\n\n", &json[..split], &json[split..]);

    let events = parse_sse_frames(body.as_bytes());
    assert!(events[0].contains(&b'\n'), "data lines are joined by a line feed");
    assert_eq!(frames_of(events), vec![frame]);
}

#[test]
fn sse_decoder_handles_split_utf8_and_crlf_boundaries() {
    let frame = LogEventFrame {
        job_id: JobId("héllo".to_owned()),
        seq: 7,
        stream: LogStreamProto::Stdout,
        data: b"hello\n".to_vec(),
        ts_millis: 11,
    };
    let body =
        "id:7\r\ndata:{\"job_id\":\"héllo\",\"seq\":7,\"stream\":\"stdout\",\"data\":[104,101,108,108,111,10],\"ts_millis\":11}\r\n\r\n"
            .to_owned();
    let bytes = body.into_bytes();
    let split = bytes
        .iter()
        .position(|byte| *byte == 0xC3)
        .expect("utf8 byte")
        + 1;

    let mut decoder = SseFrameDecoder::default();
    let mut frames = frames_of(decoder.push(&bytes[..split]));
    frames.extend(frames_of(decoder.push(&bytes[split..])));
    frames.extend(frames_of(decoder.finish()));

    assert_eq!(frames, vec![frame]);
}

#[test]
fn chunks_may_be_cut_anywhere() {
    let body = b"id:1\r\ndata:a\r\n\r\n:comment\n\ndata:b\ndata:c\n\ndata:tail";
    let whole = parse_sse_frames(body);
    assert_eq!(
        whole,
        vec![b"a".to_vec(), b"b\nc".to_vec(), b"tail".to_vec()]
    );
    for cut in 0..=body.len() {
        let mut decoder = SseFrameDecoder::default();
        let mut events = decoder.push(&body[..cut]);
        events.extend(decoder.push(&body[cut..]));
        events.extend(decoder.finish());
        assert_eq!(events, whole, "cut at {cut}");
    }
}

#[test]
fn attached_job_hands_data_out_in_order() {
    let mut attached = AttachedJob::new();
    assert_eq!(attached.next_frame(), None);
    attached.receive(b"data:a\n\nda");
    attached.receive(b"ta:b\n\ndata:c");
    assert_eq!(attached.next_frame(), Some(b"a".to_vec()));
    attached.end();
    assert_eq!(attached.next_frame(), Some(b"b".to_vec()));
    assert_eq!(attached.next_frame(), Some(b"c".to_vec()));
    assert_eq!(attached.next_frame(), None);
}

#[test]
fn attach_options_carry_the_last_event_id() {
    assert_eq!(AttachJobOptions::new(), AttachJobOptions::default());
    assert_eq!(AttachJobOptions::new().resume_header(), None);
    let options = AttachJobOptions::new().with_last_event_id(17);
    assert_eq!(options.last_event_id, Some(17));
    assert_eq!(options.resume_header().as_deref(), Some("17"));
}

#[test]
fn base_url_is_http_with_a_host_and_a_closing_slash() {
    let url = |text: &str| Client::new(text).map(|c| c.rpc_url().as_str().to_owned());
    assert_eq!(url("http://127.0.0.1:7300").unwrap(), "http://127.0.0.1:7300/");
    assert_eq!(url("http://host/api").unwrap(), "http://host/api/");
    assert_eq!(url("http://host/api/").unwrap(), "http://host/api/");
    match url("https://host") {
        Err(Error::InvalidBaseUrl(reason)) => assert_eq!(reason, "unsupported scheme https"),
        other => panic!("expected InvalidBaseUrl, got {other:?}"),
    }
    match url("host") {
        Err(e) => assert!(e.text().starts_with("url error: "), "{e:?}"),
        other => panic!("expected Url, got {other:?}"),
    }
    assert!(matches!(
        judge_base("http", false, "/"),
        Err(Error::InvalidBaseUrl(reason)) if reason == "missing host"
    ));
}

#[test]
fn attach_url_carries_the_request() {
    let client = Client::new("http://host/api").ok().expect("client");
    let url = client
        .attach_url(&JobAttachRequest {
            session_id: SessionId("s 1".to_owned()),
            cap_token: "ct_&".to_owned(),
            job_id: JobId("j_1".to_owned()),
            from_offset: 9,
        })
        .ok()
        .expect("url");
    assert_eq!(
        url.as_str(),
        "http://host/api/job/attach?session_id=s+1&cap_token=ct_%26&job_id=j_1&from_offset=9"
    );
}

/// The room that texts need in a URL is counted as they are written there.
#[test]
fn lengths_in_a_url_are_those_of_the_escaped_texts() {
    let mut texts: Vec<String> = (0u8..128).map(|b| format!("a{}a", b as char)).collect();
    texts.push("\u{e9}\u{20ac}\u{1f600}".to_owned());
    texts.push("plain".to_owned());
    for text in &texts {
        let mut url = reqwest::Url::parse("http://host/").unwrap();
        let before = url.as_str().len() as u128;
        url.query_pairs_mut().append_pair("k", text);
        assert_eq!(url.as_str().len() as u128, before + 3 + form_length(text), "{text:?}");

        let mut url = reqwest::Url::parse("http://host/").unwrap();
        url.set_path(&format!("/{text}"));
        assert_eq!(url.path().len() as u128, 1 + path_length(text), "{text:?}");
    }
}

#[test]
fn cloned_client_keeps_its_base_url() {
    let client = Client::new("http://host/api").ok().expect("client");
    assert_eq!(client.clone().rpc_url().as_str(), "http://host/api/");
}
