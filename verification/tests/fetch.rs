use ai_status_watcher::clock::{now_secs, secs_of_reading};
use ai_status_watcher::fetch::{fetch_status, refusal, FetchEvent, FetchNext};
use ai_status_watcher::status::{RawLast, RawService, RawStatus};

fn error_of(event: FetchEvent) -> String {
    match fetch_status(event) {
        FetchNext::Finished(Err(error)) => error,
        _ => panic!("no error"),
    }
}

#[test]
fn success_codes_are_decoded() {
    for code in [200, 201, 204, 299] {
        assert!(matches!(fetch_status(FetchEvent::Answered(code)), FetchNext::Decode));
    }
}

#[test]
fn other_codes_are_refusals() {
    assert_eq!(error_of(FetchEvent::Answered(404)), "HTTP 404 Not Found");
    assert_eq!(error_of(FetchEvent::Answered(500)), "HTTP 500 Internal Server Error");
    assert_eq!(error_of(FetchEvent::Answered(503)), "HTTP 503 Service Unavailable");
    assert_eq!(error_of(FetchEvent::Answered(199)), "HTTP 199 <unknown status code>");
    assert_eq!(error_of(FetchEvent::Answered(300)), "HTTP 300 Multiple Choices");
    assert_eq!(error_of(FetchEvent::Answered(999)), "HTTP 999 <unknown status code>");
    assert_eq!(error_of(FetchEvent::Answered(100)), "HTTP 100 Continue");
}

#[test]
fn refusals_are_told_as_reqwest_writes_the_code() {
    for code in (100u16..1000).filter(|code| !(200..300).contains(code)) {
        let status = reqwest::StatusCode::from_u16(code).unwrap();
        assert!(!status.is_success());
        assert_eq!(error_of(FetchEvent::Answered(code)), format!("HTTP {}", status));
    }
}

#[test]
fn a_refusal_names_the_status_line() {
    assert_eq!(refusal("418 I'm a teapot"), "HTTP 418 I'm a teapot");
}

#[test]
fn failures_end_the_fetch() {
    assert_eq!(error_of(FetchEvent::ClientFailed("builder".to_string())), "builder");
    assert_eq!(error_of(FetchEvent::SendFailed("timed out".to_string())), "网络错误: timed out");
    assert_eq!(error_of(FetchEvent::DecodeFailed("expected value".to_string())), "expected value");
}

#[test]
fn a_decoded_report_is_the_result() {
    let raw = RawStatus { generated_at: 17, services: vec![] };
    match fetch_status(FetchEvent::Decoded(raw)) {
        FetchNext::Finished(Ok(raw)) => {
            assert_eq!(raw.generated_at, 17);
            assert!(raw.services.is_empty());
        }
        _ => panic!("no report"),
    }
}

#[test]
fn fetch_status_parses_api() {
    assert!(matches!(fetch_status(FetchEvent::Answered(200)), FetchNext::Decode));
    let services = vec![
        RawService {
            model: "gpt-5".to_string(),
            uptime_bits: 99.9f64.to_bits(),
            last: Some(RawLast { ts: 1, ok: true, latency_ms: Some(800), error: None }),
        },
        RawService { model: "qwen".to_string(), uptime_bits: 0.0f64.to_bits(), last: None },
    ];
    let decoded = FetchEvent::Decoded(RawStatus { generated_at: 1_700_000_000, services });
    let raw = match fetch_status(decoded) {
        FetchNext::Finished(result) => result.expect("API 应可访问"),
        FetchNext::Decode => panic!("not finished"),
    };
    assert!(!raw.services.is_empty());
    for s in &raw.services {
        assert!(!s.model.is_empty());
        assert!(!f64::from_bits(s.uptime_bits).is_nan());
    }
    assert_eq!(raw.services.len(), 2);
    assert_eq!(raw.services[0].model, "gpt-5");
    assert_eq!(f64::from_bits(raw.services[0].uptime_bits), 99.9);
}

#[test]
fn a_clock_before_the_epoch_counts_as_at_it() {
    assert_eq!(secs_of_reading(None), 0);
    assert_eq!(secs_of_reading(Some(12)), 12);
}

#[test]
fn the_clock_is_read() {
    let before = std::time::SystemTime::now()
        .duration_since(std::time::UNIX_EPOCH)
        .unwrap()
        .as_secs();
    let now = now_secs();
    let after = std::time::SystemTime::now()
        .duration_since(std::time::UNIX_EPOCH)
        .unwrap()
        .as_secs();
    assert!(before <= now && now <= after);
}
