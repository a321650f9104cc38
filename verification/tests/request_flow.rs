use oproxy::request_flow::{
    request_start, request_step, ChainOutcome, EngineAction, EngineEvent, Refusal, RequestStage,
    RequestState, UpstreamHead,
};
use oproxy::wire::HeaderMap;

fn head(ct: &str, len: Option<u64>, te: Option<&str>) -> UpstreamHead {
    UpstreamHead {
        content_type: ct.to_string(),
        content_length: len,
        transfer_encoding: te.map(str::to_string),
    }
}

fn headers(pairs: &[(&str, &str)]) -> HeaderMap {
    HeaderMap { entries: pairs.iter().map(|(k, v)| (k.to_string(), v.to_string())).collect() }
}

fn step(s: RequestState, e: EngineEvent) -> (RequestState, EngineAction) {
    request_step(&s, e)
}

fn to_upstream(s: RequestState) -> RequestState {
    let (s, a) = step(s, EngineEvent::Head { is_connect: false, streaming_class: false });
    assert_eq!(a, EngineAction::ReadBody(1024));
    let (s, a) = step(s, EngineEvent::BodyRead { within_limit: true });
    assert_eq!(a, EngineAction::RunRequestChain);
    let (s, a) = step(s, EngineEvent::RequestChain(ChainOutcome::Continue));
    assert_eq!(a, EngineAction::PrepareUpstream);
    let (s, a) = step(s, EngineEvent::Upstream { self_proxy: false, method_valid: true });
    assert_eq!(a, EngineAction::Send);
    s
}

#[test]
fn connect_is_refused_with_bad_gateway() {
    let (s, a) = step(request_start(1024, false), EngineEvent::Head { is_connect: true, streaming_class: false });
    assert_eq!(a, EngineAction::Refuse(Refusal::ConnectUnhandled));
    assert_eq!(s.stage, RequestStage::Done);
    assert_eq!(Refusal::ConnectUnhandled.status(), 502);
    assert_eq!(Refusal::ConnectUnhandled.message(1024), "CONNECT should be handled upstream");
}

#[test]
fn oversized_body_is_refused() {
    let (s, _) = step(request_start(1024, false), EngineEvent::Head { is_connect: false, streaming_class: false });
    let (_, a) = step(s, EngineEvent::BodyRead { within_limit: false });
    assert_eq!(a, EngineAction::Refuse(Refusal::BodyTooLarge));
    assert_eq!(Refusal::BodyTooLarge.status(), 413);
    assert_eq!(
        Refusal::BodyTooLarge.message(1024),
        "Request body exceeds the 1024 byte limit. Raise max_body_bytes in settings to increase it."
    );
}

#[test]
fn middleware_can_stop_or_answer_the_request() {
    let (s, _) = step(request_start(1024, false), EngineEvent::Head { is_connect: false, streaming_class: false });
    let (s, _) = step(s, EngineEvent::BodyRead { within_limit: true });
    let (_, a) = step(s, EngineEvent::RequestChain(ChainOutcome::Stopped));
    assert_eq!(a, EngineAction::Refuse(Refusal::RequestStopped));
    assert_eq!(Refusal::RequestStopped.status(), 403);
    let (_, a) = step(s, EngineEvent::RequestChain(ChainOutcome::Intercepted));
    assert_eq!(a, EngineAction::ServeIntercepted);
}

#[test]
fn proxy_loop_and_bad_method_are_refused() {
    let (s, _) = step(request_start(1024, false), EngineEvent::Head { is_connect: false, streaming_class: false });
    let (s, _) = step(s, EngineEvent::BodyRead { within_limit: true });
    let (s, _) = step(s, EngineEvent::RequestChain(ChainOutcome::Continue));
    let (_, a) = step(s, EngineEvent::Upstream { self_proxy: true, method_valid: true });
    assert_eq!(a, EngineAction::Refuse(Refusal::ProxyLoop));
    assert_eq!(
        Refusal::ProxyLoop.message(0),
        "Proxy error: Proxy loop detected (request forwarded to the proxy itself)"
    );
    let (_, a) = step(s, EngineEvent::Upstream { self_proxy: false, method_valid: false });
    assert_eq!(a, EngineAction::Refuse(Refusal::InvalidMethod));
    assert_eq!(Refusal::InvalidMethod.status(), 400);
}

#[test]
fn grpc_response_gets_trailers_and_alt_svc() {
    let s = to_upstream(request_start(1024, true));
    let (s, a) = step(s, EngineEvent::Sent(Some(head("application/grpc", Some(10), None))));
    assert_eq!(a, EngineAction::RunResponseChain { stream: false });
    let (_, a) = step(
        s,
        EngineEvent::ResponseChain { proceed: true, status: 200, headers: headers(&[]), content_length: Some(10) },
    );
    assert_eq!(a, EngineAction::Deliver { stream: false, grpc_trailers: true, alt_svc: true });
    let (_, a) = step(
        s,
        EngineEvent::ResponseChain { proceed: true, status: 500, headers: headers(&[]), content_length: None },
    );
    assert_eq!(a, EngineAction::Deliver { stream: false, grpc_trailers: false, alt_svc: true });
    let (_, a) = step(
        s,
        EngineEvent::ResponseChain { proceed: false, status: 200, headers: headers(&[]), content_length: None },
    );
    assert_eq!(a, EngineAction::Refuse(Refusal::ResponseStopped));
}

#[test]
fn event_streams_and_chunked_responses_stream() {
    let s = to_upstream(request_start(1024, false));
    let (s2, a) = step(s, EngineEvent::Sent(Some(head("text/event-stream", None, None))));
    assert_eq!(a, EngineAction::RunResponseChain { stream: true });
    let (_, a) = step(
        s2,
        EngineEvent::ResponseChain { proceed: true, status: 200, headers: headers(&[]), content_length: None },
    );
    assert_eq!(a, EngineAction::Deliver { stream: true, grpc_trailers: false, alt_svc: false });
    let (_, a) = step(s, EngineEvent::Sent(Some(head("application/json", None, Some("chunked")))));
    assert_eq!(a, EngineAction::RunResponseChain { stream: true });
    let (_, a) = step(s, EngineEvent::Sent(None));
    assert_eq!(a, EngineAction::RecordFailure);
}

#[test]
fn streaming_path_reads_encoded_responses_up_to_the_limit() {
    let (s, a) = step(request_start(100, false), EngineEvent::Head { is_connect: false, streaming_class: true });
    assert_eq!(a, EngineAction::RunRequestChain);
    assert!(s.streaming_path);
    let (s, _) = step(s, EngineEvent::RequestChain(ChainOutcome::Continue));
    let (s, _) = step(s, EngineEvent::Upstream { self_proxy: false, method_valid: true });
    let (s, a) = step(s, EngineEvent::Sent(Some(head("application/json", None, Some("chunked")))));
    assert_eq!(a, EngineAction::RunResponseChain { stream: false });
    let (plain, a) = step(
        s,
        EngineEvent::ResponseChain { proceed: true, status: 200, headers: headers(&[]), content_length: None },
    );
    assert_eq!(plain.stage, RequestStage::Done);
    assert_eq!(a, EngineAction::Deliver { stream: true, grpc_trailers: false, alt_svc: false });
    let (s, a) = step(
        s,
        EngineEvent::ResponseChain {
            proceed: true,
            status: 200,
            headers: headers(&[("Content-Encoding", "gzip")]),
            content_length: None,
        },
    );
    assert_eq!(a, EngineAction::ReadChunk);
    let (s, a) = step(s, EngineEvent::Chunk(60));
    assert_eq!(a, EngineAction::ReadChunk);
    assert_eq!(s.read, 60);
    let (done, a) = step(s, EngineEvent::End);
    assert_eq!(done.stage, RequestStage::Done);
    assert_eq!(a, EngineAction::Deliver { stream: false, grpc_trailers: false, alt_svc: false });
    let (_, a) = step(s, EngineEvent::Chunk(41));
    assert_eq!(a, EngineAction::Refuse(Refusal::EncodedTooLarge));
    assert_eq!(
        Refusal::EncodedTooLarge.message(100),
        "encoded response exceeded max_body_bytes (100) while normalizing content-encoding"
    );
}
