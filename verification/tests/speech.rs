use mlxtop::client::{
    check_health, read_health, Fetch, FetchAction, FetchEvent, HealthError, LlmTelemetryClient,
    Page, Poll, PollError, PollStage,
};
use mlxtop::completion::{latest_completion, newest_log, parse_llm_completion_line, tail_start};
use mlxtop::json::{get, json_value, parse_json, search, value_as_u64, Json, Wanted};
use mlxtop::mlx::{merge_mlx_telemetry, mlx_metadata_is_empty};
use mlxtop::model::{LlmTelemetry, MlxTelemetry};
use mlxtop::sampling::LlmLogStats;
use mlxtop::server::{
    http_request_text, login_body, may_authenticate, parse_api_key, parse_http_response,
    read_http_response, MAX_HTTP_RESPONSE_BYTES,
};

const SECOND: u64 = 1_000_000_000;

#[test]
fn requests_are_written_for_one_answer() {
    let headers = vec![("Cookie".to_owned(), "session=1".to_owned())];
    assert_eq!(
        http_request_text("127.0.0.1", 8080, "GET", "/health", &headers, ""),
        "GET /health HTTP/1.1\r\nHost: 127.0.0.1:8080\r\nConnection: close\r\nCookie: session=1\r\n\r\n"
    );
    assert_eq!(
        http_request_text("host", 1, "POST", "/login", &Vec::new(), "{ä}"),
        "POST /login HTTP/1.1\r\nHost: host:1\r\nConnection: close\r\nContent-Length: 4\r\n\r\n{ä}"
    );
}

#[test]
fn answers_are_read_with_their_headers() {
    let raw = "HTTP/1.1 200 OK\r\nSet-Cookie: omlx=abc; Path=/\r\nBroken\r\nX-A:  b \r\n\r\n{\"a\":1}\r\n\r\n";
    let response = parse_http_response(raw).expect("an answer");
    assert_eq!(response.status, 200);
    assert_eq!(response.header("set-cookie"), Some("omlx=abc; Path=/"));
    assert_eq!(response.header("SET-COOKIE"), Some("omlx=abc; Path=/"));
    assert_eq!(response.header("x-a"), Some("b"));
    assert_eq!(response.header("missing"), None);
    assert_eq!(response.body, "{\"a\":1}\r\n\r\n");
    assert_eq!(response.session_cookie().as_deref(), Some("omlx=abc"));
    let refused = parse_http_response("HTTP/1.1 401 No\r\nSet-Cookie: a=b\r\n\r\n").expect("one");
    assert_eq!(refused.session_cookie(), None);
    assert!(parse_http_response("HTTP/1.1 200 OK\r\n").is_none());
    assert!(parse_http_response("HTTP/1.1\r\n\r\n").is_none());
    assert!(parse_http_response("HTTP/1.1 70000 X\r\n\r\n").is_none());
    assert!(parse_http_response("\r\n\r\n").is_none());
}

#[test]
fn bytes_that_are_no_text_are_replaced_and_long_answers_refused() {
    let mut raw = b"HTTP/1.1 200 OK\r\n\r\n".to_vec();
    raw.extend_from_slice(&[b'a', 0xff, b'b']);
    let response = read_http_response(&raw).expect("an answer");
    assert_eq!(response.body, "a\u{fffd}b");
    raw.resize(MAX_HTTP_RESPONSE_BYTES, b'x');
    assert!(read_http_response(&raw).is_some());
    raw.push(b'x');
    assert!(read_http_response(&raw).is_none());
}

#[test]
fn keys_are_quoted_and_kept_at_home() {
    assert_eq!(login_body("a\"b"), "{\"api_key\":\"a\\\"b\",\"remember\":true}");
    assert_eq!(
        login_body("\\ \u{8}\t\n\u{c}\r\u{1}\u{1f}\u{7f}é/"),
        "{\"api_key\":\"\\\\ \\b\\t\\n\\f\\r\\u0001\\u001f\u{7f}é/\",\"remember\":true}"
    );
    assert!(may_authenticate("localhost", false));
    assert!(!may_authenticate("192.168.1.10", false));
    assert!(may_authenticate("192.168.1.10", true));
    assert_eq!(
        parse_api_key("# key\nexport API_KEY=\"abc\"\nAPI_KEY=later\n").as_deref(),
        Some("abc")
    );
    assert_eq!(parse_api_key("API_KEY=\nAPI_KEY=later"), None);
    assert_eq!(parse_api_key("OTHER=1"), None);
}

#[test]
fn documents_become_trees() {
    let document = parse_json(
        r#"{"b":[null,true,-1,2.5,"téxt"],"a":{"deep":18446744073709551615},"n":-0.5}"#,
    )
    .expect("JSON");
    let Json::Object(fields) = &document else { panic!("an object") };
    let keys: Vec<&str> = fields.iter().map(|field| field.0.as_str()).collect();
    assert_eq!(keys, ["a", "b", "n"]);
    let Some(Json::Array(items)) = get(&document, "b") else { panic!("an array") };
    assert!(matches!(items[0], Json::Null));
    assert!(matches!(items[1], Json::Bool(true)));
    assert!(matches!(&items[4], Json::Text(text) if text == "téxt"));
    assert_eq!(value_as_u64(&items[2]), None);
    assert_eq!(value_as_u64(&items[3]), Some(2));
    assert_eq!(value_as_u64(json_value(&document, "a/deep").expect("deep")), Some(u64::MAX));
    assert!(json_value(&document, "a/missing").is_none());
    assert!(search(&document, "deep", Wanted::Count).is_some());
    assert!(search(&document, "deep", Wanted::Text).is_none());
    assert!(parse_json("{").is_none());
    assert!(parse_json("").is_none());
}

#[test]
fn health_errors_are_told_apart() {
    assert_eq!(read_health(500, "{}").err(), Some(HealthError::Status(500)));
    assert_eq!(read_health(200, "not json").err(), Some(HealthError::InvalidJson));
    assert_eq!(read_health(200, "{\"status\":1}").err(), Some(HealthError::Unrecognized));
    assert!(read_health(200, "{\"default_model\":null}").is_ok());
    assert!(read_health(200, "{\"engine_pool\":{}}").is_ok());
    assert_eq!(check_health(None).err(), Some(HealthError::InvalidJson));
}

#[test]
fn a_refused_session_is_renewed_once() {
    let mut fetch = Fetch::new();
    assert_eq!(fetch.step(FetchEvent::Begun(false)), FetchAction::Login);
    assert_eq!(fetch.step(FetchEvent::LoggedIn(true)), FetchAction::Ask);
    assert_eq!(fetch.step(FetchEvent::Answered(Some(401))), FetchAction::Renew);
    assert_eq!(fetch.step(FetchEvent::LoggedIn(true)), FetchAction::Ask);
    assert_eq!(fetch.step(FetchEvent::Answered(Some(401))), FetchAction::GiveUp);
    assert_eq!(fetch.step(FetchEvent::Begun(true)), FetchAction::Ask);
    assert_eq!(fetch.step(FetchEvent::Answered(Some(200))), FetchAction::Read);
    assert_eq!(fetch.step(FetchEvent::Answered(None)), FetchAction::GiveUp);
    assert_eq!(fetch.step(FetchEvent::LoggedIn(false)), FetchAction::GiveUp);
}

#[test]
fn failures_wait_longer_and_keep_the_last_answer() {
    let mut client = LlmTelemetryClient::new("host".into(), 1, 0);
    assert!(client.is_due(0));
    client.settle(0, Some(LlmTelemetry { active_requests: Some(1), ..LlmTelemetry::nothing() }));
    assert!(!client.is_due(SECOND - 1));
    assert!(client.is_due(SECOND));
    let mut now = SECOND;
    for wait in [1, 2, 4, 8, 16, 30, 30] {
        client.settle(now, None);
        assert_eq!(client.next_poll, now + wait * SECOND);
        now = client.next_poll;
    }
    assert_eq!(client.cached.as_ref().and_then(|t| t.active_requests), Some(1));
    client.settle(now, Some(LlmTelemetry::nothing()));
    assert_eq!(client.retry_backoff, 1);
    assert!(client.note_stats(true));
    assert!(!client.note_stats(true));
    client.note_unhealthy();
    assert!(client.note_stats(true));
}

#[test]
fn metadata_is_asked_for_less_often_once_it_is_known() {
    let mut client = LlmTelemetryClient::new("host".into(), 1, 0);
    client.take_metadata(0, None, None);
    assert_eq!(client.next_metadata_poll, 10 * SECOND);
    let device = parse_json(r#"{"device_name":"GPU"}"#).expect("JSON");
    client.take_metadata(0, Some(&device), None);
    assert_eq!(client.next_metadata_poll, 60 * SECOND);
    client.take_metadata(0, None, None);
    assert_eq!(client.mlx_metadata.device_name.as_deref(), Some("GPU"));
    let health = parse_json(r#"{"default_model":"m"}"#).expect("JSON");
    let telemetry = client.compose(&health, None, 7);
    assert_eq!(telemetry.observed_at, Some(7));
    assert_eq!(telemetry.status.as_deref(), Some("healthy"));
    assert_eq!(telemetry.mlx.device_name.as_deref(), Some("GPU"));
}

#[test]
fn merging_prefers_what_is_newer() {
    let base = MlxTelemetry {
        version: Some("1".into()),
        active_memory: Some(1),
        ..MlxTelemetry::nothing()
    };
    let update = MlxTelemetry { version: Some("2".into()), ..MlxTelemetry::nothing() };
    let merged = merge_mlx_telemetry(&base, &update);
    assert_eq!(merged.version.as_deref(), Some("2"));
    assert_eq!(merged.active_memory, Some(1));
    assert!(mlx_metadata_is_empty(&MlxTelemetry::nothing()));
    assert!(!mlx_metadata_is_empty(&merged));
    assert_eq!(merge_mlx_telemetry(&merged, &merged), merged);
}

#[test]
fn the_last_completion_of_the_newest_log_counts() {
    let log = "Chat completion: model=a, 1 tokens in 1.0s (1.0 tok/s)\n\
               noise\nChat completion: model=b, 2 tokens in 1.0s (2.0 tok/s), prompt: 3, x\nend";
    let last = latest_completion(log).expect("a completion");
    assert_eq!(last.model.as_deref(), Some("b"));
    assert_eq!(last.prompt_tokens, Some(3));
    assert!(latest_completion("nothing").is_none());
    for line in [
        "Chat completion: model=a",
        "Chat completion: model=a, x tokens in 1.0s (1.0 tok/s)",
        "Chat completion: model=a, 1 tokens in fasts (1.0 tok/s)",
        "Chat completion: model=a, 1 tokens in 1.0s (fast tok/s)",
        "model=a, 1 tokens in 1.0s (1.0 tok/s)",
    ] {
        assert!(parse_llm_completion_line(line).is_none(), "{line}");
    }
    let stats = |model: &str, observed_at| LlmLogStats {
        model: Some(model.into()),
        observed_at,
        ..LlmLogStats::default()
    };
    let list = vec![stats("old", Some(1)), stats("new", Some(5)), stats("unknown", None)];
    assert_eq!(newest_log(list).model.as_deref(), Some("new"));
    let list = vec![stats("first", Some(5)), stats("second", Some(5))];
    assert_eq!(newest_log(list).model.as_deref(), Some("second"));
    assert_eq!(newest_log(Vec::new()).model, None);
}

#[test]
fn the_end_of_a_long_log_is_searched() {
    assert_eq!(tail_start(100), 0);
    assert_eq!(tail_start(256 * 1024), 0);
    assert_eq!(tail_start(256 * 1024 + 7), 7);
}

#[test]
fn a_poll_asks_for_health_statistics_and_settings() {
    let mut client = LlmTelemetryClient::new("host".into(), 1, 0);
    let mut poll = Poll::new();
    assert_eq!(poll.stage, PollStage::Health);
    assert!(!poll.page_fetched(&mut client, None, 0));
    assert_eq!(poll.stage, PollStage::Health);
    poll.health_answered(&mut client, Some((200, r#"{"default_model":"m"}"#.into())));
    assert_eq!(poll.stage, PollStage::Fetching(Page::Stats));
    assert!(poll.page_fetched(&mut client, None, 5));
    assert_eq!(client.last_stats_available, Some(false));
    assert_eq!(poll.stage, PollStage::Fetching(Page::DeviceInfo));
    let device = parse_json(r#"{"device_name":"GPU"}"#);
    poll.page_fetched(&mut client, device, 6);
    assert_eq!(poll.stage, PollStage::Fetching(Page::GlobalSettings));
    assert!(poll.telemetry(&client, 9).is_none());
    poll.page_fetched(&mut client, None, 7);
    assert_eq!(poll.stage, PollStage::Fetching(Page::Settings));
    poll.page_fetched(&mut client, None, 8);
    assert_eq!(poll.stage, PollStage::Answered);
    assert_eq!(client.next_metadata_poll, 60 * SECOND + 5);
    let telemetry = poll.telemetry(&client, 9).expect("telemetry");
    assert_eq!(telemetry.observed_at, Some(9));
    assert_eq!(telemetry.mlx.device_name.as_deref(), Some("GPU"));

    let mut again = Poll::new();
    again.health_answered(&mut client, Some((200, r#"{"engine_pool":{}}"#.into())));
    assert!(again.page_fetched(&mut client, parse_json("{}"), 60 * SECOND));
    assert_eq!(again.stage, PollStage::Answered);
    assert_eq!(Page::Stats.path(), "/admin/api/stats?scope=session");
    assert_eq!(Page::Settings.path(), "/admin/api/settings");
}

#[test]
fn a_poll_fails_with_the_health() {
    let mut client = LlmTelemetryClient::new("host".into(), 1, 0);
    client.note_stats(true);
    let mut poll = Poll::new();
    poll.health_answered(&mut client, None);
    assert_eq!(poll.stage, PollStage::Failed(PollError::Unreachable));
    assert_eq!(client.last_stats_available, None);
    for (status, body, error) in [
        (503, "{}", HealthError::Status(503)),
        (200, "{", HealthError::InvalidJson),
        (200, "{}", HealthError::Unrecognized),
    ] {
        let mut poll = Poll::new();
        poll.health_answered(&mut client, Some((status, body.into())));
        assert_eq!(poll.stage, PollStage::Failed(PollError::Health(error)));
        assert!(poll.telemetry(&client, 0).is_none());
    }
}
