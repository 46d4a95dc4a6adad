//! The fallback renderer: when rendering cannot complete, it synthesizes a
//! best-effort HTML error page and a structured issue record, so a render
//! call always yields a renderable document and never a transport-level
//! error.

use vstd::prelude::*;
use crate::escape::escape_seq;
use crate::escape::escape_html;
use crate::numeral::dec_signed;
use crate::numeral::push_dec_signed;
use crate::text::lit;
use crate::text::push_lit;
use crate::text::push_all;

verus! {

/// The page skeleton handed in by the templating layer: the bytes
/// before and after its body-insertion point.
pub struct FallbackTemplate {
    pub head: Vec<u8>,
    pub tail: Vec<u8>,
}

/// The final output of a render call: a byte body stamped with a status code
/// and a content type.
pub struct RenderedAsset {
    pub status_code: u16,
    pub content_type: Vec<u8>,
    pub body: Vec<u8>,
}

/// A structured diagnostic handed to the diagnostics sink whenever
/// rendering fails; it never affects the render call's own result.
pub struct Issue {
    pub context: Vec<u8>,
    pub message: Vec<u8>,
    pub status: Option<i32>,
}

/// A body injected into the template at its insertion point.
pub open spec fn with_body_seq(head: Seq<u8>, body: Seq<u8>, tail: Seq<u8>) -> Seq<u8> {
    head + body + tail
}

/// The human-readable rendering of the worker's exit status, or the notice
/// that none is known.
pub open spec fn status_block_seq(status: Option<i32>) -> Seq<u8> {
    match status {
        Some(code) => lit("<h2>Exit status</h2><pre>") + dec_signed(code as int) + lit("</pre>"),
        None => lit("<h3>No exit status</h3>"),
    }
}

/// The HTML fragment embedding the escaped error message and the exit-status
/// block.
pub open spec fn error_fragment_seq(message: Seq<u8>, status: Option<i32>) -> Seq<u8> {
    lit("<h1>Error rendering page</h1><h2>Message</h2><pre>") + escape_seq(message) + lit("</pre>")
        + status_block_seq(status)
}

/// The whole body of a fallback page for the given error message and exit
/// status, injected into the given template.
pub open spec fn fallback_body_seq(
    head: Seq<u8>,
    tail: Seq<u8>,
    message: Seq<u8>,
    status: Option<i32>,
) -> Seq<u8> {
    with_body_seq(head, error_fragment_seq(message, status), tail)
}

/// Injects `body` into the template's body-insertion point.
pub fn with_body(template: &FallbackTemplate, body: &Vec<u8>) -> (r: Vec<u8>)
    ensures
        r@ == with_body_seq(template.head@, body@, template.tail@),
{
    let mut out: Vec<u8> = Vec::new();
    push_all(&mut out, &template.head);
    push_all(&mut out, body);
    push_all(&mut out, &template.tail);
    proof {
        assert(out@ =~= with_body_seq(template.head@, body@, template.tail@));
    }
    out
}

/// Synthesizes the fallback page and the issue record for a failed render
/// call.
///
/// `message` is what the page shows (HTML-escaped); `reported` is what the
/// issue carries, unescaped — for a worker-reported error the page shows the
/// source-mapped text while the issue keeps the untranslated raw text.
/// `status` is the terminated worker's exit status, where one is known.
/// The returned asset is always a status-200 HTML document.
pub fn static_error(
    context_path: &Vec<u8>,
    message: &Vec<u8>,
    reported: &Vec<u8>,
    status: Option<i32>,
    template: &FallbackTemplate,
) -> (r: (RenderedAsset, Issue))
    ensures
        r.0.status_code == 200,
        r.0.content_type@ == lit("text/html"),
        r.0.body@ == fallback_body_seq(template.head@, template.tail@, message@, status),
        r.1.context@ == context_path@,
        r.1.message@ == reported@,
        r.1.status == status,
{
    let mut fragment: Vec<u8> = Vec::new();
    push_lit(&mut fragment, "<h1>Error rendering page</h1><h2>Message</h2><pre>");
    let escaped = escape_html(message);
    push_all(&mut fragment, &escaped);
    push_lit(&mut fragment, "</pre>");
    match status {
        Some(code) => {
            push_lit(&mut fragment, "<h2>Exit status</h2><pre>");
            push_dec_signed(&mut fragment, code);
            push_lit(&mut fragment, "</pre>");
        },
        None => {
            push_lit(&mut fragment, "<h3>No exit status</h3>");
        },
    }
    proof {
        assert(fragment@ =~= error_fragment_seq(message@, status));
    }
    let body = with_body(template, &fragment);
    let mut issue_message: Vec<u8> = Vec::new();
    push_all(&mut issue_message, reported);
    let mut context: Vec<u8> = Vec::new();
    push_all(&mut context, context_path);
    let asset = RenderedAsset {
        status_code: 200,
        content_type: crate::text::lit_vec("text/html"),
        body,
    };
    let issue = Issue { context, message: issue_message, status };
    proof {
        assert(issue.message@ =~= reported@);
        assert(issue.context@ =~= context_path@);
    }
    (asset, issue)
}

} // verus!
