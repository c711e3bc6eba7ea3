use orderbook_sync::exchange_api_types::{OrderBookDelta, WsMessage};
use orderbook_sync::stream_reader::{
    classify_frame, FrameKind, ReaderAction, ReaderInput, ReaderPhase, StreamReader,
};
use orderbook_sync::text::{contains_bytes, decimal_text};
use orderbook_sync::wire_text::{
    pong_reply, snapshot_url, stream_endpoint, subscribe_request, subscription_topic,
};

#[test]
fn numbers_are_written_in_base_ten() {
    assert_eq!(decimal_text(0), "0");
    assert_eq!(decimal_text(7), "7");
    assert_eq!(decimal_text(10), "10");
    assert_eq!(decimal_text(50), "50");
    assert_eq!(decimal_text(1_234_567_890), "1234567890");
    assert_eq!(decimal_text(u64::MAX), "18446744073709551615");
    for n in [0u64, 9, 10, 99, 100, 101, 1 << 40, u64::MAX - 1] {
        assert_eq!(decimal_text(n), n.to_string());
    }
}

#[test]
fn search_finds_a_needle_anywhere() {
    assert!(contains_bytes(b"hello", b""));
    assert!(contains_bytes(b"", b""));
    assert!(!contains_bytes(b"", b"a"));
    assert!(contains_bytes(b"hello", b"hello"));
    assert!(contains_bytes(b"hello", b"he"));
    assert!(contains_bytes(b"hello", b"lo"));
    assert!(contains_bytes(b"hello", b"ll"));
    assert!(!contains_bytes(b"hello", b"hello!"));
    assert!(!contains_bytes(b"hello", b"lol"));
    assert!(contains_bytes(b"aaab", b"aab"));
}

#[test]
fn frames_are_told_apart_by_their_markers() {
    assert_eq!(classify_frame("{\"cmd\":\"PING\",\"ts\":1}"), FrameKind::Ping);
    assert_eq!(classify_frame("PING"), FrameKind::Ping);
    assert_eq!(classify_frame("{\"id\":\"x\",\"success\":true}"), FrameKind::Ack);
    assert_eq!(classify_frame("success PING"), FrameKind::Ping);
    assert_eq!(classify_frame("{\"ts\":1,\"data\":{}}"), FrameKind::Data);
    assert_eq!(classify_frame("ping"), FrameKind::Data);
    assert_eq!(classify_frame("Success"), FrameKind::Data);
    assert_eq!(classify_frame(""), FrameKind::Data);
    assert_eq!(classify_frame("P\u{e9}ING succ\u{e9}ss"), FrameKind::Data);
}

#[test]
fn topic_names_symbol_and_depth() {
    assert_eq!(subscription_topic("PERP_ETH_USDT", 50), "orderbookupdate@PERP_ETH_USDT@50");
    assert_eq!(subscription_topic("", 0), "orderbookupdate@@0");
}

#[test]
fn subscribe_request_is_the_compact_object() {
    assert_eq!(
        subscribe_request("client_id_x", "PERP_ETH_USDT", 50),
        "{\"cmd\":\"SUBSCRIBE\",\"id\":\"client_id_x\",\"params\":[\"orderbookupdate@PERP_ETH_USDT@50\"]}"
    );
}

#[test]
fn subscribe_request_is_what_serde_json_writes() {
    for (id, symbol, depth) in [
        ("client_id_x", "PERP_ETH_USDT", 50u64),
        ("quo\"te", "back\\slash", 0),
        ("line\nfeed\ttab", "\u{1}\u{1f}\u{7f}", 7),
        ("\u{e9}\u{4e2d}\u{1f600}", "", u64::MAX),
    ] {
        let mut object = serde_json::Map::new();
        object.insert("id".to_string(), serde_json::Value::String(id.to_string()));
        object.insert("cmd".to_string(), serde_json::Value::String("SUBSCRIBE".to_string()));
        object.insert(
            "params".to_string(),
            serde_json::Value::Array(vec![serde_json::Value::String(format!(
                "orderbookupdate@{}@{}",
                symbol, depth
            ))]),
        );
        let want = serde_json::Value::Object(object).to_string();
        assert_eq!(subscribe_request(id, symbol, depth), want);
    }
}

#[test]
fn subscribe_request_escapes_what_json_cannot_hold() {
    assert_eq!(
        subscribe_request("a\"b", "x\\y", 1),
        "{\"cmd\":\"SUBSCRIBE\",\"id\":\"a\\\"b\",\"params\":[\"orderbookupdate@x\\\\y@1\"]}"
    );
}

#[test]
fn pong_carries_the_time() {
    assert_eq!(pong_reply(1_700_000_000_123), "{\"cmd\":\"PONG\",\"ts\":1700000000123}");
    assert_eq!(pong_reply(0), "{\"cmd\":\"PONG\",\"ts\":0}");
    let mut object = serde_json::Map::new();
    object.insert("cmd".to_string(), serde_json::Value::String("PONG".to_string()));
    object.insert("ts".to_string(), serde_json::Value::from(u64::MAX));
    assert_eq!(pong_reply(u64::MAX), serde_json::Value::Object(object).to_string());
}

#[test]
fn snapshot_address_names_symbol_and_depth() {
    assert_eq!(
        snapshot_url("https://api.woox.io/v3/public/orderbook", "PERP_ETH_USDT", 50),
        "https://api.woox.io/v3/public/orderbook?symbol=PERP_ETH_USDT&maxLevel=50"
    );
}

#[test]
fn endpoint_is_the_parsed_address() {
    assert_eq!(
        stream_endpoint("wss://wss.woox.io/v3/public"),
        Some("wss://wss.woox.io/v3/public".to_string())
    );
    assert_eq!(
        stream_endpoint("WSS://WSS.Woox.IO:443/v3/../public"),
        Some("wss://wss.woox.io/public".to_string())
    );
    assert_eq!(stream_endpoint("https://example.net"), Some("https://example.net/".to_string()));
    assert_eq!(stream_endpoint("not an address"), None);
    assert_eq!(stream_endpoint(""), None);
    assert_eq!(stream_endpoint("/v3/public"), None);
    for raw in ["wss://wss.woox.io/v3/public", "http://[::1]:80/a b", "nonsense", "x:y"] {
        let want = url::Url::parse(raw).ok().map(|parsed| parsed.as_str().to_string());
        assert_eq!(stream_endpoint(raw), want);
    }
}

fn message(ts: Option<u64>, with_data: bool) -> WsMessage {
    let data = if with_data {
        Some(OrderBookDelta { prev_ts: 9, bids: vec![], asks: vec![] })
    } else {
        None
    };
    WsMessage { ts, data }
}

fn reading() -> StreamReader {
    let mut reader = StreamReader::new();
    assert_eq!(reader.current_phase(), ReaderPhase::Connecting);
    assert!(matches!(reader.step(ReaderInput::Connected), ReaderAction::Subscribe));
    assert_eq!(reader.current_phase(), ReaderPhase::Subscribing);
    assert!(matches!(reader.step(ReaderInput::Sent), ReaderAction::Read));
    assert_eq!(reader.current_phase(), ReaderPhase::Reading);
    reader
}

#[test]
fn reader_fails_when_it_cannot_connect_or_subscribe() {
    let mut reader = StreamReader::new();
    assert!(matches!(reader.step(ReaderInput::ConnectFailed), ReaderAction::Abort));
    assert_eq!(reader.current_phase(), ReaderPhase::Failed);
    assert!(matches!(reader.step(ReaderInput::Connected), ReaderAction::Ignore));
    assert_eq!(reader.current_phase(), ReaderPhase::Failed);

    let mut reader = StreamReader::new();
    assert!(matches!(reader.step(ReaderInput::Connected), ReaderAction::Subscribe));
    assert!(matches!(reader.step(ReaderInput::SendFailed), ReaderAction::Abort));
    assert_eq!(reader.current_phase(), ReaderPhase::Failed);
}

#[test]
fn reader_answers_a_challenge_before_it_reads_on() {
    let mut reader = reading();
    assert!(matches!(reader.step(ReaderInput::Text(FrameKind::Ping)), ReaderAction::Pong));
    assert_eq!(reader.current_phase(), ReaderPhase::Answering);
    assert!(matches!(reader.step(ReaderInput::Text(FrameKind::Data)), ReaderAction::Ignore));
    assert_eq!(reader.current_phase(), ReaderPhase::Answering);
    assert!(matches!(reader.step(ReaderInput::Sent), ReaderAction::Read));
    assert_eq!(reader.current_phase(), ReaderPhase::Reading);

    assert!(matches!(reader.step(ReaderInput::Text(FrameKind::Ping)), ReaderAction::Pong));
    assert!(matches!(reader.step(ReaderInput::SendFailed), ReaderAction::Abort));
    assert_eq!(reader.current_phase(), ReaderPhase::Failed);
}

#[test]
fn reader_discards_acknowledgements_and_frames_that_are_no_text() {
    let mut reader = reading();
    assert!(matches!(reader.step(ReaderInput::Text(FrameKind::Ack)), ReaderAction::Read));
    assert_eq!(reader.current_phase(), ReaderPhase::Reading);
    assert!(matches!(reader.step(ReaderInput::NotText), ReaderAction::Read));
    assert_eq!(reader.current_phase(), ReaderPhase::Reading);
}

#[test]
fn reader_forwards_only_frames_with_sequence_and_payload() {
    let mut reader = reading();
    assert!(matches!(reader.step(ReaderInput::Text(FrameKind::Data)), ReaderAction::Decode));
    assert_eq!(reader.current_phase(), ReaderPhase::Decoding);
    match reader.step(ReaderInput::Decoded(message(Some(10), true))) {
        ReaderAction::Forward(event) => {
            assert_eq!(event.ts, 10);
            assert_eq!(event.prev_ts, 9);
        }
        other => panic!("{:?}", other),
    }
    assert_eq!(reader.current_phase(), ReaderPhase::Forwarding);
    assert!(matches!(reader.step(ReaderInput::Forwarded), ReaderAction::Read));
    assert_eq!(reader.current_phase(), ReaderPhase::Reading);

    for (ts, with_data) in [(None, true), (Some(10), false), (None, false)] {
        assert!(matches!(reader.step(ReaderInput::Text(FrameKind::Data)), ReaderAction::Decode));
        assert!(matches!(
            reader.step(ReaderInput::Decoded(message(ts, with_data))),
            ReaderAction::Read
        ));
        assert_eq!(reader.current_phase(), ReaderPhase::Reading);
    }
}

#[test]
fn reader_skips_a_frame_that_cannot_be_decoded() {
    let mut reader = reading();
    assert!(matches!(reader.step(ReaderInput::Text(FrameKind::Data)), ReaderAction::Decode));
    assert!(matches!(reader.step(ReaderInput::Undecodable), ReaderAction::SkipFrame));
    assert_eq!(reader.current_phase(), ReaderPhase::Reading);
}

#[test]
fn reader_stops_when_consumer_or_connection_is_gone() {
    let mut reader = reading();
    assert!(matches!(reader.step(ReaderInput::Text(FrameKind::Data)), ReaderAction::Decode));
    assert!(matches!(
        reader.step(ReaderInput::Decoded(message(Some(1), true))),
        ReaderAction::Forward(_)
    ));
    assert!(matches!(reader.step(ReaderInput::ConsumerGone), ReaderAction::Stop));
    assert_eq!(reader.current_phase(), ReaderPhase::Stopped);
    assert!(matches!(reader.step(ReaderInput::Text(FrameKind::Data)), ReaderAction::Ignore));
    assert_eq!(reader.current_phase(), ReaderPhase::Stopped);

    let mut reader = reading();
    assert!(matches!(reader.step(ReaderInput::ConnectionEnded), ReaderAction::Stop));
    assert_eq!(reader.current_phase(), ReaderPhase::Stopped);
}
