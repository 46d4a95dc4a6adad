use static_render::fallback::{static_error, FallbackTemplate};
use static_render::protocol::{encode_incoming, Header, IncomingMessage, OutgoingMessage, RenderData};
use static_render::protocol::decode_outgoing;
use static_render::render::{RenderAction, RenderContext, RenderEvent, RenderMachine};
use static_render::trace::TraceMapping;

fn contains(hay: &[u8], needle: &[u8]) -> bool {
    hay.windows(needle.len()).any(|w| w == needle)
}

fn template() -> FallbackTemplate {
    FallbackTemplate { head: b"<html><body>".to_vec(), tail: b"</body></html>".to_vec() }
}

fn context(maps: Vec<TraceMapping>) -> RenderContext {
    RenderContext {
        context_path: b"app/page.jsx".to_vec(),
        data: RenderData {
            method: b"GET".to_vec(),
            path: b"/".to_vec(),
            headers: vec![Header { name: b"accept".to_vec(), value: b"text/html".to_vec() }],
        },
        mappings: maps,
        template: template(),
    }
}

#[test]
fn static_error_builds_exact_page_and_issue() {
    let (asset, issue) = static_error(
        &b"app/page.jsx".to_vec(),
        &b"oops & <bad>".to_vec(),
        &b"oops & <bad>".to_vec(),
        Some(137),
        &template(),
    );
    assert_eq!(asset.status_code, 200);
    assert_eq!(asset.content_type, b"text/html".to_vec());
    let expected: Vec<u8> = [
        b"<html><body>".as_slice(),
        b"<h1>Error rendering page</h1><h2>Message</h2><pre>",
        b"oops &amp; &lt;bad&gt;",
        b"</pre>",
        b"<h2>Exit status</h2><pre>137</pre>",
        b"</body></html>",
    ]
    .concat();
    assert_eq!(asset.body, expected);
    assert_eq!(issue.context, b"app/page.jsx".to_vec());
    assert_eq!(issue.message, b"oops & <bad>".to_vec());
    assert_eq!(issue.status, Some(137));
}

#[test]
fn static_error_without_status_shows_the_notice() {
    let (asset, issue) =
        static_error(&b"p".to_vec(), &b"m".to_vec(), &b"m".to_vec(), None, &template());
    assert!(contains(&asset.body, b"<h3>No exit status</h3>"));
    assert!(!contains(&asset.body, b"Exit status</h2>"));
    assert_eq!(issue.status, None);
}

#[test]
fn static_error_renders_negative_status() {
    let (asset, _issue) =
        static_error(&b"p".to_vec(), &b"m".to_vec(), &b"m".to_vec(), Some(-9), &template());
    assert!(contains(&asset.body, b"<h2>Exit status</h2><pre>-9</pre>"));
}

#[test]
fn static_error_renders_extreme_statuses() {
    let (asset, _issue) =
        static_error(&b"p".to_vec(), &b"m".to_vec(), &b"m".to_vec(), Some(i32::MIN), &template());
    assert!(contains(&asset.body, b"<pre>-2147483648</pre>"));
    let (asset, _issue) =
        static_error(&b"p".to_vec(), &b"m".to_vec(), &b"m".to_vec(), Some(0), &template());
    assert!(contains(&asset.body, b"<pre>0</pre>"));
}

#[test]
fn successful_render_returns_the_worker_response() {
    // Scenario: the worker answers 200 text/html with a small body.
    let (m, a) = RenderMachine::start(context(vec![]));
    assert!(matches!(a, RenderAction::AcquireOperation));
    let (m, a) = m.step(RenderEvent::Acquired);
    let frame = match a {
        Some(RenderAction::SendFrame(f)) => f,
        _ => panic!("expected a frame to send"),
    };
    // The frame is the encoded Headers message of the request data.
    match decode_outgoing(&frame) {
        Some(OutgoingMessage::Headers(d)) => assert_eq!(d.path, b"/".to_vec()),
        None => panic!("the outgoing frame must decode on the worker side"),
    }
    let (m, a) = m.step(RenderEvent::Sent);
    assert!(matches!(a, Some(RenderAction::ReceiveFrame)));
    let answer = encode_incoming(&IncomingMessage::Response {
        status_code: 200,
        content_type: b"text/html".to_vec(),
        body: b"<p>hi</p>".to_vec(),
    });
    let (m, a) = m.step(RenderEvent::FrameReceived(answer));
    assert!(matches!(a, Some(RenderAction::ReturnToPool)));
    let (asset, issue) = m.finish();
    assert!(issue.is_none());
    assert_eq!(asset.status_code, 200);
    assert_eq!(asset.content_type, b"text/html".to_vec());
    assert_eq!(asset.body, b"<p>hi</p>".to_vec());
}

#[test]
fn worker_error_is_source_mapped_and_reported_raw() {
    // Scenario: the worker reports an error; the source map rewrites
    // foo.js:10:3 to page.jsx:4:1.
    let maps = vec![TraceMapping {
        generated: b"foo.js:10:3".to_vec(),
        original: b"page.jsx:4:1".to_vec(),
    }];
    let (m, _) = RenderMachine::start(context(maps));
    let (m, _) = m.step(RenderEvent::Acquired);
    let (m, _) = m.step(RenderEvent::Sent);
    let answer = encode_incoming(&IncomingMessage::Error(
        b"ReferenceError: x is not defined\n at foo.js:10:3".to_vec(),
    ));
    let (m, a) = m.step(RenderEvent::FrameReceived(answer));
    assert!(matches!(a, Some(RenderAction::WaitOrKill)));
    // The worker was still alive; termination confirmed no exit code.
    let (m, a) = m.step(RenderEvent::Exited(None));
    assert!(matches!(a, Some(RenderAction::EmitIssue)));
    let (asset, issue) = m.finish();
    let issue = issue.expect("a failed render emits an issue");
    assert_eq!(asset.status_code, 200);
    // The page shows the recovered location.
    assert!(contains(&asset.body, b"page.jsx:4:1"));
    assert!(!contains(&asset.body, b"foo.js:10:3"));
    // The issue carries the untranslated raw text and no exit status.
    assert!(contains(&issue.message, b"foo.js:10:3"));
    assert_eq!(issue.status, None);
    assert!(contains(&asset.body, b"<h3>No exit status</h3>"));
}

#[test]
fn spawn_failure_falls_back_without_an_operation() {
    // Scenario: the pool cannot produce a worker at all.
    let (m, _) = RenderMachine::start(context(vec![]));
    let (m, a) = m.step(RenderEvent::SpawnFailed(b"no runtime binary".to_vec()));
    assert!(matches!(a, Some(RenderAction::EmitIssue)));
    let (asset, issue) = m.finish();
    let issue = issue.expect("a failed render emits an issue");
    assert_eq!(asset.status_code, 200);
    assert!(contains(&asset.body, b"<h3>No exit status</h3>"));
    assert!(contains(&issue.message, b"no runtime binary"));
    assert!(!issue.message.is_empty());
    assert_eq!(issue.status, None);
}

#[test]
fn protocol_error_kills_the_worker_and_reports_its_exit_code() {
    // Scenario: the channel breaks mid-receive; the worker is killed with
    // exit code 137.
    let (m, _) = RenderMachine::start(context(vec![]));
    let (m, _) = m.step(RenderEvent::Acquired);
    let (m, _) = m.step(RenderEvent::Sent);
    let (m, a) = m.step(RenderEvent::RecvFailed(b"broken pipe".to_vec()));
    assert!(matches!(a, Some(RenderAction::WaitOrKill)));
    let (m, a) = m.step(RenderEvent::Exited(Some(137)));
    assert!(matches!(a, Some(RenderAction::EmitIssue)));
    let (asset, issue) = m.finish();
    let issue = issue.expect("a failed render emits an issue");
    assert!(contains(&asset.body, b"<h2>Exit status</h2><pre>137</pre>"));
    assert_eq!(issue.status, Some(137));
    assert!(contains(&issue.message, b"broken pipe"));
}

#[test]
fn send_failure_falls_back() {
    let (m, _) = RenderMachine::start(context(vec![]));
    let (m, _) = m.step(RenderEvent::Acquired);
    let (m, a) = m.step(RenderEvent::SendFailed(b"pipe closed early".to_vec()));
    assert!(matches!(a, Some(RenderAction::WaitOrKill)));
    let (m, _) = m.step(RenderEvent::Exited(Some(1)));
    let (asset, issue) = m.finish();
    let issue = issue.expect("a failed render emits an issue");
    assert_eq!(asset.status_code, 200);
    assert!(contains(&issue.message, b"pipe closed early"));
    assert!(contains(&asset.body, b"pipe closed early"));
    assert_eq!(issue.status, Some(1));
}

#[test]
fn malformed_frame_is_a_protocol_violation() {
    let (m, _) = RenderMachine::start(context(vec![]));
    let (m, _) = m.step(RenderEvent::Acquired);
    let (m, _) = m.step(RenderEvent::Sent);
    let (m, a) = m.step(RenderEvent::FrameReceived(b"garbage".to_vec()));
    assert!(matches!(a, Some(RenderAction::WaitOrKill)));
    let (m, _) = m.step(RenderEvent::Exited(None));
    let (_asset, issue) = m.finish();
    let issue = issue.expect("a failed render emits an issue");
    assert!(contains(&issue.message, b"malformed or unrecognized message"));
}

#[test]
fn bad_content_type_is_fatal_to_the_call() {
    // The mime parser really runs here: a content type without a slash is
    // not a MIME type, so the response is rejected.
    let (m, _) = RenderMachine::start(context(vec![]));
    let (m, _) = m.step(RenderEvent::Acquired);
    let (m, _) = m.step(RenderEvent::Sent);
    let answer = encode_incoming(&IncomingMessage::Response {
        status_code: 200,
        content_type: b"not a mime type".to_vec(),
        body: b"body".to_vec(),
    });
    let (m, a) = m.step(RenderEvent::FrameReceived(answer));
    assert!(matches!(a, Some(RenderAction::WaitOrKill)));
    let (m, _) = m.step(RenderEvent::Exited(Some(0)));
    let (asset, issue) = m.finish();
    let issue = issue.expect("a failed render emits an issue");
    assert_eq!(asset.status_code, 200);
    assert!(contains(&issue.message, b"invalid content type"));
    assert!(contains(&issue.message, b"not a mime type"));
}

#[test]
fn content_type_with_parameters_is_accepted() {
    let (m, _) = RenderMachine::start(context(vec![]));
    let (m, _) = m.step(RenderEvent::Acquired);
    let (m, _) = m.step(RenderEvent::Sent);
    let answer = encode_incoming(&IncomingMessage::Response {
        status_code: 201,
        content_type: b"text/html; charset=utf-8".to_vec(),
        body: b"ok".to_vec(),
    });
    let (m, a) = m.step(RenderEvent::FrameReceived(answer));
    assert!(matches!(a, Some(RenderAction::ReturnToPool)));
    let (asset, issue) = m.finish();
    assert!(issue.is_none());
    assert_eq!(asset.status_code, 201);
    assert_eq!(asset.content_type, b"text/html; charset=utf-8".to_vec());
}
