//! The render orchestrator: one render call as an explicit state machine.
//!
//! Rendering alternates decisions with outside work — acquiring a worker from
//! the pool, writing a frame to the worker's channel, reading its answer,
//! terminating the process. The machine owns every decision: the driver
//! performs the returned action (spawn, send, receive, wait-or-kill, emit)
//! and feeds the outcome back as the next event. Every failure path ends in
//! a synthesized fallback page plus exactly one issue record, and a checked
//! out worker is always either returned healthy to the pool or terminated
//! through wait-or-kill — never both, never neither.

use vstd::prelude::*;
use crate::fallback::FallbackTemplate;
use crate::fallback::Issue;
use crate::fallback::RenderedAsset;
use crate::fallback::fallback_body_seq;
use crate::fallback::static_error;
use crate::protocol::IncomingModel;
use crate::protocol::OutgoingModel;
use crate::protocol::RenderData;
use crate::protocol::dec_incoming;
use crate::protocol::decode_incoming;
use crate::protocol::enc_outgoing;
use crate::protocol::encode_headers_frame;
use crate::text::lit;
use crate::text::lit_vec;
use crate::text::push_all;
use crate::trace::TraceMapping;
use crate::trace::trace_seq;
use crate::trace::trace_stack;
use core::str::FromStr;
use vstd::utf8::encode_scalar;
use vstd::utf8::encode_utf8;

verus! {

/// Whether the given bytes are UTF-8 text that parses as a MIME media type.
/// Parsing is a function of the bytes alone.
pub uninterp spec fn mime_parse_ok(bytes: Seq<u8>) -> bool;

/// Relies on `mime::Mime::from_str` (crate `mime`): a deterministic parser,
/// so whether a byte string names a MIME media type depends on the bytes
/// alone. Bytes that are not UTF-8 cannot name one.
#[verifier::external_body]
fn content_type_parses(bytes: &Vec<u8>) -> (r: bool)
    ensures
        r == mime_parse_ok(bytes@),
{
    match core::str::from_utf8(bytes) {
        Ok(s) => mime::Mime::from_str(s).is_ok(),
        Err(_) => false,
    }
}

/// The issue text for a worker that could not be spawned.
pub open spec fn spawn_issue_text(detail: Seq<u8>) -> Seq<u8> {
    lit("spawning a render worker: ") + detail
}

/// The issue text for a channel failure while sending the request headers.
pub open spec fn send_issue_text(detail: Seq<u8>) -> Seq<u8> {
    lit("sending request headers to the render worker: ") + detail
}

/// The issue text for a channel failure while awaiting the worker's answer.
pub open spec fn recv_issue_text(detail: Seq<u8>) -> Seq<u8> {
    lit("receiving from the render worker: ") + detail
}

/// The issue text for a frame that does not decode as any incoming message.
pub open spec fn protocol_issue_text() -> Seq<u8> {
    lit("malformed or unrecognized message from the render worker")
}

/// The issue text for a response whose content type is not a MIME type.
pub open spec fn mime_issue_text(content_type: Seq<u8>) -> Seq<u8> {
    lit("invalid content type in the worker response: ") + content_type
}

/// The issue text for an error the worker itself reported; it carries the
/// untranslated raw text, while the fallback page shows the recovered one.
pub open spec fn worker_issue_text(raw: Seq<u8>) -> Seq<u8> {
    lit("render worker error: ") + raw
}

/// The immutable context of one render call.
pub struct RenderContext {
    /// The asset path named as the issue's context.
    pub context_path: Vec<u8>,
    /// The request snapshot sent to the worker.
    pub data: RenderData,
    /// The bundle's recorded source mapping, for stack trace recovery.
    pub mappings: Vec<TraceMapping>,
    /// The fallback page skeleton.
    pub template: FallbackTemplate,
}

/// Where one render call stands.
pub enum RenderState {
    /// The pool has been asked for a worker.
    AwaitOperation,
    /// A worker is checked out; the Headers frame is being sent.
    AwaitSend,
    /// The Headers frame is out; the worker's answer is awaited.
    AwaitReceive,
    /// The call has failed and the worker is being terminated; the page will
    /// show `shown`, the issue will carry `reported`.
    AwaitExit { shown: Vec<u8>, reported: Vec<u8> },
    /// The worker answered with a usable response.
    Done { asset: RenderedAsset },
    /// The call failed; the fallback page and the issue are ready.
    Failed { asset: RenderedAsset, issue: Issue },
}

/// What the driver must do next.
pub enum RenderAction {
    /// Check a worker out of the pool.
    AcquireOperation,
    /// Write this frame to the worker's channel.
    SendFrame(Vec<u8>),
    /// Read one whole frame from the worker's channel.
    ReceiveFrame,
    /// Terminate the worker: graceful wait first, forced kill after the
    /// grace period, and report the exit status.
    WaitOrKill,
    /// Return the worker to the pool healthy.
    ReturnToPool,
    /// Hand the issue held by the `Failed` state to the diagnostics
    /// sink.
    EmitIssue,
}

/// What the outside world answered.
pub enum RenderEvent {
    /// The pool produced a worker.
    Acquired,
    /// The pool could not produce a worker.
    SpawnFailed(Vec<u8>),
    /// The frame was written in full.
    Sent,
    /// The channel failed while sending.
    SendFailed(Vec<u8>),
    /// One whole frame arrived from the worker.
    FrameReceived(Vec<u8>),
    /// The channel failed or closed before a frame arrived.
    RecvFailed(Vec<u8>),
    /// The worker was terminated; its exit code, where one is known.
    Exited(Option<i32>),
}

/// Which events a state can answer.
pub open spec fn accepts(state: RenderState, event: RenderEvent) -> bool {
    match state {
        RenderState::AwaitOperation => event is Acquired || event is SpawnFailed,
        RenderState::AwaitSend => event is Sent || event is SendFailed,
        RenderState::AwaitReceive => event is FrameReceived || event is RecvFailed,
        RenderState::AwaitExit { .. } => event is Exited,
        RenderState::Done { .. } => false,
        RenderState::Failed { .. } => false,
    }
}

/// A state in which the render call is over.
pub open spec fn terminal(state: RenderState) -> bool {
    state is Done || state is Failed
}

/// One render call in flight. The ghost counters record how often each
/// irreversible action has been handed out, so resource safety is a stated
/// invariant rather than a convention.
pub struct RenderMachine {
    pub ctx: RenderContext,
    pub state: RenderState,
    /// Workers checked out of the pool.
    pub checkouts: Ghost<nat>,
    /// WaitOrKill actions handed out.
    pub kills: Ghost<nat>,
    /// ReturnToPool actions handed out.
    pub checkins: Ghost<nat>,
    /// EmitIssue actions handed out.
    pub issues: Ghost<nat>,
}

impl RenderMachine {
    /// The machine invariant: what each state says about the actions handed
    /// out so far and about the values a terminal state holds.
    pub open spec fn inv(&self) -> bool {
        match self.state {
            RenderState::AwaitOperation => self.checkouts@ == 0 && self.kills@ == 0
                && self.checkins@ == 0 && self.issues@ == 0,
            RenderState::AwaitSend => self.checkouts@ == 1 && self.kills@ == 0 && self.checkins@
                == 0 && self.issues@ == 0,
            RenderState::AwaitReceive => self.checkouts@ == 1 && self.kills@ == 0 && self.checkins@
                == 0 && self.issues@ == 0,
            RenderState::AwaitExit { shown, reported } => self.checkouts@ == 1 && self.kills@
                == 1 && self.checkins@ == 0 && self.issues@ == 0 && reported@.len() > 0,
            RenderState::Done { .. } => self.checkouts@ == 1 && self.kills@ == 0 && self.checkins@
                == 1 && self.issues@ == 0,
            RenderState::Failed { asset, issue } => self.checkins@ == 0 && self.kills@
                == self.checkouts@ && self.checkouts@ <= 1 && self.issues@ == 1
                && asset.status_code == 200 && asset.content_type@ == lit("text/html")
                && issue.context@ == self.ctx.context_path@ && issue.message@.len() > 0 && (exists|
                message: Seq<u8>,
            |
                asset.body@ == fallback_body_seq(
                    self.ctx.template.head@,
                    self.ctx.template.tail@,
                    message,
                    issue.status,
                )),
        }
    }

    /// Begins a render call: the first action is always to ask the pool for
    /// a worker bound to the bundle.
    pub fn start(ctx: RenderContext) -> (r: (RenderMachine, RenderAction))
        ensures
            r.0.ctx == ctx,
            r.0.state is AwaitOperation,
            r.0.checkouts@ == 0 && r.0.kills@ == 0 && r.0.checkins@ == 0 && r.0.issues@ == 0,
            r.0.inv(),
            r.1 is AcquireOperation,
    {
        let m = RenderMachine {
            ctx,
            state: RenderState::AwaitOperation,
            checkouts: Ghost(0),
            kills: Ghost(0),
            checkins: Ghost(0),
            issues: Ghost(0),
        };
        (m, RenderAction::AcquireOperation)
    }

    /// Feeds one event to the machine and checkins what to do next; `None`
    /// means the call is over and `finish` may be taken.
    pub fn step(self, event: RenderEvent) -> (r: (RenderMachine, Option<RenderAction>))
        requires
            self.inv(),
            accepts(self.state, event),
        ensures
            r.0.inv(),
            r.0.ctx == self.ctx,
            // Bookkeeping: the counters count exactly the actions handed out.
            r.0.checkouts@ == self.checkouts@ + (if event is Acquired {
                1int
            } else {
                0int
            }),
            r.0.kills@ == self.kills@ + (if r.1 == Some(RenderAction::WaitOrKill) {
                1int
            } else {
                0int
            }),
            r.0.checkins@ == self.checkins@ + (if r.1 == Some(RenderAction::ReturnToPool) {
                1int
            } else {
                0int
            }),
            r.0.issues@ == self.issues@ + (if r.1 == Some(RenderAction::EmitIssue) {
                1int
            } else {
                0int
            }),
            // A worker is acquired: send the Headers frame.
            self.state is AwaitOperation && event is Acquired ==> r.0.state is AwaitSend && (
            r.1 matches Some(RenderAction::SendFrame(f)) && f@ == enc_outgoing(
                OutgoingModel::Headers(self.ctx.data@),
            )),
            // The pool cannot produce a worker: fall back with no worker to
            // terminate.
            event matches RenderEvent::SpawnFailed(detail) ==> (
            r.1 == Some(RenderAction::EmitIssue) && (r.0.state matches RenderState::Failed {
                asset,
                issue,
            } && asset.body@ == fallback_body_seq(
                self.ctx.template.head@,
                self.ctx.template.tail@,
                spawn_issue_text(detail@),
                None,
            ) && issue.message@ == spawn_issue_text(detail@) && issue.status is None)),
            // The frame went out: await the worker's one answer.
            self.state is AwaitSend && event is Sent ==> r.0.state is AwaitReceive && r.1 == Some(
                RenderAction::ReceiveFrame,
            ),
            // The channel failed while sending: terminate the worker.
            event matches RenderEvent::SendFailed(detail) ==> (r.1 == Some(
                RenderAction::WaitOrKill,
            ) && (r.0.state matches RenderState::AwaitExit { shown, reported } && shown@
                == send_issue_text(detail@) && reported@ == send_issue_text(detail@))),
            // A frame arrived: decode it and decide.
            event matches RenderEvent::FrameReceived(frame) ==> match dec_incoming(frame@) {
                Some(IncomingModel::Response { status_code, content_type, body }) => {
                    if mime_parse_ok(content_type) {
                        // A usable response: the render call is done and the
                        // worker goes back to the pool healthy.
                        r.1 == Some(RenderAction::ReturnToPool) && (
                        r.0.state matches RenderState::Done { asset } && asset.status_code
                            == status_code && asset.content_type@ == content_type && asset.body@
                            == body)
                    } else {
                        // The content type does not parse: a protocol error,
                        // fatal to this call.
                        r.1 == Some(RenderAction::WaitOrKill) && (
                        r.0.state matches RenderState::AwaitExit { shown, reported } && shown@
                            == mime_issue_text(content_type) && reported@ == mime_issue_text(
                            content_type,
                        ))
                    }
                },
                Some(IncomingModel::Error(text)) => {
                    // The worker reported an error: the page shows the
                    // source-mapped text, the issue keeps the raw text.
                    r.1 == Some(RenderAction::WaitOrKill) && (
                    r.0.state matches RenderState::AwaitExit { shown, reported } && shown@
                        == trace_seq(text, self.ctx.mappings@) && reported@ == worker_issue_text(
                        text,
                    ))
                },
                None => {
                    // Not a message of the protocol: a protocol violation.
                    r.1 == Some(RenderAction::WaitOrKill) && (
                    r.0.state matches RenderState::AwaitExit { shown, reported } && shown@
                        == protocol_issue_text() && reported@ == protocol_issue_text())
                },
            },
            // The channel failed before a frame arrived: terminate the
            // worker.
            event matches RenderEvent::RecvFailed(detail) ==> (r.1 == Some(
                RenderAction::WaitOrKill,
            ) && (r.0.state matches RenderState::AwaitExit { shown, reported } && shown@
                == recv_issue_text(detail@) && reported@ == recv_issue_text(detail@))),
            // The worker is gone: synthesize the fallback page and emit the
            // issue.
            self.state matches RenderState::AwaitExit { shown, reported } ==> (
            event matches RenderEvent::Exited(status) ==> (r.1 == Some(RenderAction::EmitIssue)
                && (r.0.state matches RenderState::Failed { asset, issue } && asset.body@
                == fallback_body_seq(
                self.ctx.template.head@,
                self.ctx.template.tail@,
                shown@,
                status,
            ) && issue.message@ == reported@ && issue.status == status))),
    {
        let RenderMachine { ctx, state, checkouts, kills, checkins, issues } = self;
        match (state, event) {
            (RenderState::AwaitOperation, RenderEvent::Acquired) => {
                let frame = encode_headers_frame(&ctx.data);
                let m = RenderMachine {
                    ctx,
                    state: RenderState::AwaitSend,
                    checkouts: Ghost(checkouts@ + 1),
                    kills,
                    checkins,
                    issues,
                };
                (m, Some(RenderAction::SendFrame(frame)))
            },
            (RenderState::AwaitOperation, RenderEvent::SpawnFailed(detail)) => {
                let mut message = lit_vec("spawning a render worker: ");
                push_all(&mut message, &detail);
                let (asset, issue) = static_error(
                    &ctx.context_path,
                    &message,
                    &message,
                    None,
                    &ctx.template,
                );
                proof {
                    lemma_issue_texts_nonempty();
                    assert(message@ == spawn_issue_text(detail@));
                    assert(message@.len() > 0);
                    assert(asset.body@ == fallback_body_seq(
                        ctx.template.head@,
                        ctx.template.tail@,
                        message@,
                        None,
                    ));
                }
                let m = RenderMachine {
                    ctx,
                    state: RenderState::Failed { asset, issue },
                    checkouts,
                    kills,
                    checkins,
                    issues: Ghost(issues@ + 1),
                };
                (m, Some(RenderAction::EmitIssue))
            },
            (RenderState::AwaitSend, RenderEvent::Sent) => {
                let m = RenderMachine {
                    ctx,
                    state: RenderState::AwaitReceive,
                    checkouts,
                    kills,
                    checkins,
                    issues,
                };
                (m, Some(RenderAction::ReceiveFrame))
            },
            (RenderState::AwaitSend, RenderEvent::SendFailed(detail)) => {
                let mut message = lit_vec("sending request headers to the render worker: ");
                push_all(&mut message, &detail);
                let mut reported: Vec<u8> = Vec::new();
                push_all(&mut reported, &message);
                proof {
                    lemma_issue_texts_nonempty();
                    assert(message@ == send_issue_text(detail@));
                    assert(message@.len() > 0);
                    assert(reported@ =~= message@);
                }
                let m = RenderMachine {
                    ctx,
                    state: RenderState::AwaitExit { shown: message, reported },
                    checkouts,
                    kills: Ghost(kills@ + 1),
                    checkins,
                    issues,
                };
                (m, Some(RenderAction::WaitOrKill))
            },
            (RenderState::AwaitReceive, RenderEvent::FrameReceived(frame)) => {
                match decode_incoming(&frame) {
                    Some(crate::protocol::IncomingMessage::Response {
                        status_code,
                        content_type,
                        body,
                    }) => {
                        if content_type_parses(&content_type) {
                            let asset = RenderedAsset { status_code, content_type, body };
                            let m = RenderMachine {
                                ctx,
                                state: RenderState::Done { asset },
                                checkouts,
                                kills,
                                checkins: Ghost(checkins@ + 1),
                                issues,
                            };
                            (m, Some(RenderAction::ReturnToPool))
                        } else {
                            let mut message = lit_vec(
                                "invalid content type in the worker response: ",
                            );
                            push_all(&mut message, &content_type);
                            let mut reported: Vec<u8> = Vec::new();
                            push_all(&mut reported, &message);
                            proof {
                                lemma_issue_texts_nonempty();
                                assert(message@ == mime_issue_text(content_type@));
                                assert(message@.len() > 0);
                                assert(reported@ =~= message@);
                            }
                            let m = RenderMachine {
                                ctx,
                                state: RenderState::AwaitExit { shown: message, reported },
                                checkouts,
                                kills: Ghost(kills@ + 1),
                                checkins,
                                issues,
                            };
                            (m, Some(RenderAction::WaitOrKill))
                        }
                    },
                    Some(crate::protocol::IncomingMessage::Error(text)) => {
                        let shown = trace_stack(&text, &ctx.mappings);
                        let mut reported = lit_vec("render worker error: ");
                        push_all(&mut reported, &text);
                        proof {
                            lemma_issue_texts_nonempty();
                            assert(reported@ == worker_issue_text(text@));
                            assert(reported@.len() > 0);
                        }
                        let m = RenderMachine {
                            ctx,
                            state: RenderState::AwaitExit { shown, reported },
                            checkouts,
                            kills: Ghost(kills@ + 1),
                            checkins,
                            issues,
                        };
                        (m, Some(RenderAction::WaitOrKill))
                    },
                    None => {
                        let message = lit_vec(
                            "malformed or unrecognized message from the render worker",
                        );
                        let mut reported: Vec<u8> = Vec::new();
                        push_all(&mut reported, &message);
                        proof {
                            lemma_issue_texts_nonempty();
                            assert(message@ == protocol_issue_text());
                            assert(message@.len() > 0);
                            assert(reported@ =~= message@);
                        }
                        let m = RenderMachine {
                            ctx,
                            state: RenderState::AwaitExit { shown: message, reported },
                            checkouts,
                            kills: Ghost(kills@ + 1),
                            checkins,
                            issues,
                        };
                        (m, Some(RenderAction::WaitOrKill))
                    },
                }
            },
            (RenderState::AwaitReceive, RenderEvent::RecvFailed(detail)) => {
                let mut message = lit_vec("receiving from the render worker: ");
                push_all(&mut message, &detail);
                let mut reported: Vec<u8> = Vec::new();
                push_all(&mut reported, &message);
                proof {
                    lemma_issue_texts_nonempty();
                    assert(message@ == recv_issue_text(detail@));
                    assert(message@.len() > 0);
                    assert(reported@ =~= message@);
                }
                let m = RenderMachine {
                    ctx,
                    state: RenderState::AwaitExit { shown: message, reported },
                    checkouts,
                    kills: Ghost(kills@ + 1),
                    checkins,
                    issues,
                };
                (m, Some(RenderAction::WaitOrKill))
            },
            (RenderState::AwaitExit { shown, reported }, RenderEvent::Exited(status)) => {
                let (asset, issue) = static_error(
                    &ctx.context_path,
                    &shown,
                    &reported,
                    status,
                    &ctx.template,
                );
                proof {
                    assert(asset.body@ == fallback_body_seq(
                        ctx.template.head@,
                        ctx.template.tail@,
                        shown@,
                        status,
                    ));
                }
                let m = RenderMachine {
                    ctx,
                    state: RenderState::Failed { asset, issue },
                    checkouts,
                    kills,
                    checkins,
                    issues: Ghost(issues@ + 1),
                };
                (m, Some(RenderAction::EmitIssue))
            },
            (st, _) => {
                // Unreachable: `accepts` admits no other pairing.
                let m = RenderMachine { ctx, state: st, checkouts, kills, checkins, issues };
                (m, None)
            },
        }
    }

    /// Takes the outcome of a finished call: the asset to serve, and the
    /// issue that was emitted where the call failed.
    pub fn finish(self) -> (r: (RenderedAsset, Option<Issue>))
        requires
            terminal(self.state),
        ensures
            self.state matches RenderState::Done { asset } ==> r == (asset, None::<Issue>),
            self.state matches RenderState::Failed { asset, issue } ==> r == (
                asset,
                Some(issue),
            ),
    {
        match self {
            RenderMachine { state: RenderState::Done { asset }, .. } => (asset, None),
            RenderMachine { state: RenderState::Failed { asset, issue }, .. } => (
                asset,
                Some(issue),
            ),
            RenderMachine { ctx, state, .. } => {
                proof {
                    assert(false);
                }
                (
                    RenderedAsset { status_code: 200, content_type: Vec::new(), body: Vec::new() },
                    None,
                )
            },
        }
    }
}

proof fn lemma_encode_utf8_nonempty(chars: Seq<char>)
    requires
        chars.len() > 0,
    ensures
        encode_utf8(chars).len() > 0,
{
    assert(encode_scalar(chars[0] as u32).len() > 0);
    assert(encode_utf8(chars) == encode_scalar(chars[0] as u32) + encode_utf8(chars.drop_first()));
}

/// Every issue text starts with a fixed non-empty prefix, so an emitted
/// issue never carries an empty message.
proof fn lemma_issue_texts_nonempty()
    ensures
        forall|d: Seq<u8>| (#[trigger] spawn_issue_text(d)).len() > 0,
        forall|d: Seq<u8>| (#[trigger] send_issue_text(d)).len() > 0,
        forall|d: Seq<u8>| (#[trigger] recv_issue_text(d)).len() > 0,
        protocol_issue_text().len() > 0,
        forall|d: Seq<u8>| (#[trigger] mime_issue_text(d)).len() > 0,
        forall|d: Seq<u8>| (#[trigger] worker_issue_text(d)).len() > 0,
{
    reveal_strlit("spawning a render worker: ");
    reveal_strlit("sending request headers to the render worker: ");
    reveal_strlit("receiving from the render worker: ");
    reveal_strlit("malformed or unrecognized message from the render worker");
    reveal_strlit("invalid content type in the worker response: ");
    reveal_strlit("render worker error: ");
    lemma_encode_utf8_nonempty(("spawning a render worker: ")@);
    lemma_encode_utf8_nonempty(("sending request headers to the render worker: ")@);
    lemma_encode_utf8_nonempty(("receiving from the render worker: ")@);
    lemma_encode_utf8_nonempty(("malformed or unrecognized message from the render worker")@);
    lemma_encode_utf8_nonempty(("invalid content type in the worker response: ")@);
    lemma_encode_utf8_nonempty(("render worker error: ")@);
}

/// Total coverage of failure paths: however a render call failed — the pool
/// could not spawn, the channel broke, the worker violated the protocol or
/// reported an error, the content type did not parse — the caller holds a
/// status-200 HTML document whose body is the fallback page, and exactly one
/// issue with a non-empty message was emitted.
pub proof fn lemma_failure_coverage(m: &RenderMachine)
    requires
        m.inv(),
        m.state is Failed,
    ensures
        m.state matches RenderState::Failed { asset, issue } ==> asset.status_code == 200
            && asset.content_type@ == lit("text/html") && issue.message@.len() > 0
            && issue.context@ == m.ctx.context_path@ && (exists|message: Seq<u8>|
            asset.body@ == fallback_body_seq(
                m.ctx.template.head@,
                m.ctx.template.tail@,
                message,
                issue.status,
            )),
        m.issues@ == 1,
{
}

/// Resource safety: when a render call is over, every worker it checked out
/// was resolved exactly once — returned healthy on the success path, put
/// through wait-or-kill on every failure path — and never both.
pub proof fn lemma_resource_safety(m: &RenderMachine)
    requires
        m.inv(),
        terminal(m.state),
    ensures
        m.kills@ + m.checkins@ == m.checkouts@,
        m.checkouts@ <= 1,
        m.state is Done ==> m.checkins@ == 1 && m.kills@ == 0,
        m.state is Failed && m.checkouts@ == 1 ==> m.kills@ == 1 && m.checkins@ == 0,
{
}

} // verus!
