//! The render protocol: the message schema exchanged with a worker process
//! and its deterministic, versioned wire encoding.
//!
//! Framing: every message starts with a version byte and a tag byte; each
//! variable-length field is preceded by its length as eight little-endian
//! bytes, so bodies of arbitrary length survive the wire byte-for-byte.
//! Exactly one incoming message answers one outgoing message; an unknown
//! version or tag, a truncated frame, or trailing bytes all decode to `None`
//! and are treated by the caller as a protocol violation.

use vstd::prelude::*;

verus! {

/// One request header sent to the worker.
pub struct Header {
    pub name: Vec<u8>,
    pub value: Vec<u8>,
}

/// The request context passed to a worker: a read-only snapshot taken once
/// per render call.
pub struct RenderData {
    pub method: Vec<u8>,
    pub path: Vec<u8>,
    pub headers: Vec<Header>,
}

/// A message sent from the host to the worker.
pub enum OutgoingMessage {
    Headers(RenderData),
}

/// A message received from the worker in answer to an outgoing message.
pub enum IncomingMessage {
    Response { status_code: u16, content_type: Vec<u8>, body: Vec<u8> },
    Error(Vec<u8>),
}

/// Mathematical model of a header.
pub struct HeaderModel {
    pub name: Seq<u8>,
    pub value: Seq<u8>,
}

/// Mathematical model of the request context.
pub struct RenderDataModel {
    pub method: Seq<u8>,
    pub path: Seq<u8>,
    pub headers: Seq<HeaderModel>,
}

/// Mathematical model of an outgoing message.
pub enum OutgoingModel {
    Headers(RenderDataModel),
}

/// Mathematical model of an incoming message.
pub enum IncomingModel {
    Response { status_code: u16, content_type: Seq<u8>, body: Seq<u8> },
    Error(Seq<u8>),
}

impl View for Header {
    type V = HeaderModel;

    open spec fn view(&self) -> HeaderModel {
        HeaderModel { name: self.name@, value: self.value@ }
    }
}

impl View for RenderData {
    type V = RenderDataModel;

    open spec fn view(&self) -> RenderDataModel {
        RenderDataModel {
            method: self.method@,
            path: self.path@,
            headers: Seq::new(self.headers@.len(), |i: int| self.headers@[i]@),
        }
    }
}

impl View for OutgoingMessage {
    type V = OutgoingModel;

    open spec fn view(&self) -> OutgoingModel {
        match self {
            OutgoingMessage::Headers(d) => OutgoingModel::Headers(d@),
        }
    }
}

impl View for IncomingMessage {
    type V = IncomingModel;

    open spec fn view(&self) -> IncomingModel {
        match self {
            IncomingMessage::Response { status_code, content_type, body } => {
                IncomingModel::Response {
                    status_code: *status_code,
                    content_type: content_type@,
                    body: body@,
                }
            },
            IncomingMessage::Error(text) => IncomingModel::Error(text@),
        }
    }
}

/// Fields small enough for their length to ride in eight bytes; every value
/// built in executable code satisfies this.
pub open spec fn fits_field(s: Seq<u8>) -> bool {
    s.len() < 0x1_0000_0000_0000_0000
}

pub open spec fn wf_header(h: HeaderModel) -> bool {
    fits_field(h.name) && fits_field(h.value)
}

pub open spec fn wf_render_data(d: RenderDataModel) -> bool {
    &&& fits_field(d.method)
    &&& fits_field(d.path)
    &&& d.headers.len() < 0x1_0000_0000_0000_0000
    &&& forall|i: int| 0 <= i < d.headers.len() ==> wf_header(#[trigger] d.headers[i])
}

pub open spec fn wf_outgoing(m: OutgoingModel) -> bool {
    match m {
        OutgoingModel::Headers(d) => wf_render_data(d),
    }
}

pub open spec fn wf_incoming(m: IncomingModel) -> bool {
    match m {
        IncomingModel::Response { status_code, content_type, body } => fits_field(content_type)
            && fits_field(body),
        IncomingModel::Error(text) => fits_field(text),
    }
}

/// Protocol version carried as the first byte of every message.
pub const WIRE_VERSION: u8 = 1;

pub const TAG_HEADERS: u8 = 1;

pub const TAG_RESPONSE: u8 = 1;

pub const TAG_ERROR: u8 = 2;

/// Eight little-endian bytes of `n`.
#[verifier::opaque]
pub open spec fn enc_u64(n: u64) -> Seq<u8> {
    let n1 = n / 256;
    let n2 = n1 / 256;
    let n3 = n2 / 256;
    let n4 = n3 / 256;
    let n5 = n4 / 256;
    let n6 = n5 / 256;
    let n7 = n6 / 256;
    seq![
        (n % 256) as u8,
        (n1 % 256) as u8,
        (n2 % 256) as u8,
        (n3 % 256) as u8,
        (n4 % 256) as u8,
        (n5 % 256) as u8,
        (n6 % 256) as u8,
        (n7 % 256) as u8,
    ]
}

/// The value of eight little-endian bytes.
#[verifier::opaque]
pub open spec fn dec_u64(b: Seq<u8>) -> u64
    recommends
        b.len() == 8,
{
    (b[0] + 256 * b[1] + 65536 * b[2] + 16777216 * b[3] + 4294967296 * b[4] + 1099511627776 * b[5]
        + 281474976710656 * b[6] + 72057594037927936 * b[7]) as u64
}

/// Two little-endian bytes of `n`.
#[verifier::opaque]
pub open spec fn enc_u16(n: u16) -> Seq<u8> {
    seq![(n % 256) as u8, (n / 256) as u8]
}

/// The value of two little-endian bytes.
#[verifier::opaque]
pub open spec fn dec_u16(b: Seq<u8>) -> u16
    recommends
        b.len() == 2,
{
    (b[0] + 256 * b[1]) as u16
}

pub broadcast proof fn lemma_enc_u64_len(n: u64)
    ensures
        (#[trigger] enc_u64(n)).len() == 8,
{
    reveal(enc_u64);
}

pub broadcast proof fn lemma_enc_u16_len(n: u16)
    ensures
        (#[trigger] enc_u16(n)).len() == 2,
{
    reveal(enc_u16);
}

/// A length-prefixed field.
pub open spec fn enc_field(s: Seq<u8>) -> Seq<u8> {
    enc_u64(s.len() as u64) + s
}

pub open spec fn enc_header(h: HeaderModel) -> Seq<u8> {
    enc_field(h.name) + enc_field(h.value)
}

pub open spec fn enc_headers(hs: Seq<HeaderModel>) -> Seq<u8>
    decreases hs.len(),
{
    if hs.len() == 0 {
        Seq::empty()
    } else {
        enc_header(hs[0]) + enc_headers(hs.drop_first())
    }
}

pub open spec fn enc_render_data(d: RenderDataModel) -> Seq<u8> {
    enc_field(d.method) + enc_field(d.path) + enc_u64(d.headers.len() as u64) + enc_headers(
        d.headers,
    )
}

/// The wire bytes of an outgoing message.
pub open spec fn enc_outgoing(m: OutgoingModel) -> Seq<u8> {
    match m {
        OutgoingModel::Headers(d) => seq![WIRE_VERSION, TAG_HEADERS] + enc_render_data(d),
    }
}

/// The wire bytes of an incoming message.
pub open spec fn enc_incoming(m: IncomingModel) -> Seq<u8> {
    match m {
        IncomingModel::Response { status_code, content_type, body } => {
            seq![WIRE_VERSION, TAG_RESPONSE] + enc_u16(status_code) + enc_field(content_type)
                + enc_field(body)
        },
        IncomingModel::Error(text) => seq![WIRE_VERSION, TAG_ERROR] + enc_field(text),
    }
}

/// Appends the eight little-endian bytes of `n` to `out`.
pub fn push_u64(out: &mut Vec<u8>, n: u64)
    ensures
        final(out)@ == old(out)@ + enc_u64(n),
{
    let n1 = n / 256;
    let n2 = n1 / 256;
    let n3 = n2 / 256;
    let n4 = n3 / 256;
    let n5 = n4 / 256;
    let n6 = n5 / 256;
    let n7 = n6 / 256;
    out.push((n % 256) as u8);
    out.push((n1 % 256) as u8);
    out.push((n2 % 256) as u8);
    out.push((n3 % 256) as u8);
    out.push((n4 % 256) as u8);
    out.push((n5 % 256) as u8);
    out.push((n6 % 256) as u8);
    out.push((n7 % 256) as u8);
    proof {
        reveal(enc_u64);
        assert(final(out)@ =~= old(out)@ + enc_u64(n));
    }
}

/// Appends the two little-endian bytes of `n` to `out`.
pub fn push_u16(out: &mut Vec<u8>, n: u16)
    ensures
        final(out)@ == old(out)@ + enc_u16(n),
{
    out.push((n % 256) as u8);
    out.push((n / 256) as u8);
    proof {
        reveal(enc_u16);
        assert(final(out)@ =~= old(out)@ + enc_u16(n));
    }
}

/// Appends a length-prefixed field to `out`.
pub fn push_field(out: &mut Vec<u8>, s: &Vec<u8>)
    ensures
        final(out)@ == old(out)@ + enc_field(s@),
{
    push_u64(out, s.len() as u64);
    crate::text::push_all(out, s);
    proof {
        assert(final(out)@ =~= old(out)@ + enc_field(s@));
    }
}

/// Encodes an outgoing message for the wire.
pub fn encode_outgoing(m: &OutgoingMessage) -> (r: Vec<u8>)
    ensures
        r@ == enc_outgoing(m@),
{
    match m {
        OutgoingMessage::Headers(d) => encode_headers_frame(d),
    }
}

/// Encodes the sole outgoing message of a render call, a Headers frame
/// carrying the request data.
pub fn encode_headers_frame(d: &RenderData) -> (r: Vec<u8>)
    ensures
        r@ == enc_outgoing(OutgoingModel::Headers(d@)),
{
    let mut out: Vec<u8> = Vec::new();
    out.push(WIRE_VERSION);
    {
        {
            out.push(TAG_HEADERS);
            push_field(&mut out, &d.method);
            push_field(&mut out, &d.path);
            push_u64(&mut out, d.headers.len() as u64);
            let ghost hs = d@.headers;
            let n = d.headers.len();
            let mut i: usize = 0;
            while i < n
                invariant
                    n == d.headers@.len(),
                    hs == d@.headers,
                    hs.len() == n,
                    forall|j: int| 0 <= j < n ==> hs[j] == #[trigger] d.headers@[j]@,
                    i <= n,
                    out@ == seq![WIRE_VERSION, TAG_HEADERS] + enc_field(d@.method) + enc_field(
                        d@.path,
                    ) + enc_u64(n as u64) + enc_headers(hs.take(i as int)),
                decreases n - i,
            {
                let h = &d.headers[i];
                push_field(&mut out, &h.name);
                push_field(&mut out, &h.value);
                proof {
                    assert(hs.take(i + 1) =~= hs.take(i as int).push(hs[i as int]));
                    lemma_enc_headers_push(hs.take(i as int), hs[i as int]);
                    assert(out@ =~= seq![WIRE_VERSION, TAG_HEADERS] + enc_field(d@.method)
                        + enc_field(d@.path) + enc_u64(n as u64) + enc_headers(hs.take(i + 1)));
                }
                i = i + 1;
            }
            proof {
                assert(hs.take(n as int) =~= hs);
                assert(out@ =~= enc_outgoing(OutgoingModel::Headers(d@)));
            }
        }
    }
    out
}

proof fn lemma_enc_headers_push(hs: Seq<HeaderModel>, h: HeaderModel)
    ensures
        enc_headers(hs.push(h)) == enc_headers(hs) + enc_header(h),
    decreases hs.len(),
{
    if hs.len() == 0 {
        assert(hs.push(h).drop_first() =~= Seq::<HeaderModel>::empty());
        assert(enc_headers(Seq::<HeaderModel>::empty()) =~= Seq::<u8>::empty());
        assert(hs.push(h)[0] == h);
        assert(enc_headers(hs.push(h)) =~= enc_headers(hs) + enc_header(h));
    } else {
        assert(hs.push(h).drop_first() =~= hs.drop_first().push(h));
        lemma_enc_headers_push(hs.drop_first(), h);
        assert(enc_headers(hs.push(h)) =~= enc_headers(hs) + enc_header(h));
    }
}

/// Encodes an incoming message for the wire; used by the worker side of the
/// protocol and by tests that play the worker.
pub fn encode_incoming(m: &IncomingMessage) -> (r: Vec<u8>)
    ensures
        r@ == enc_incoming(m@),
{
    let mut out: Vec<u8> = Vec::new();
    out.push(WIRE_VERSION);
    match m {
        IncomingMessage::Response { status_code, content_type, body } => {
            out.push(TAG_RESPONSE);
            push_u16(&mut out, *status_code);
            push_field(&mut out, content_type);
            push_field(&mut out, body);
            proof {
                assert(out@ =~= enc_incoming(m@));
            }
        },
        IncomingMessage::Error(text) => {
            out.push(TAG_ERROR);
            push_field(&mut out, text);
            proof {
                assert(out@ =~= enc_incoming(m@));
            }
        },
    }
    out
}

} // verus!

verus! {

/// Result of parsing a `u64` at `pos`: the value and the next position.
pub open spec fn parse_u64(s: Seq<u8>, pos: int) -> Option<(u64, int)> {
    if 0 <= pos && pos + 8 <= s.len() {
        Some((dec_u64(s.subrange(pos, pos + 8)), pos + 8))
    } else {
        None
    }
}

/// Result of parsing a `u16` at `pos`.
pub open spec fn parse_u16(s: Seq<u8>, pos: int) -> Option<(u16, int)> {
    if 0 <= pos && pos + 2 <= s.len() {
        Some((dec_u16(s.subrange(pos, pos + 2)), pos + 2))
    } else {
        None
    }
}

/// Result of parsing a length-prefixed field at `pos`.
pub open spec fn parse_field(s: Seq<u8>, pos: int) -> Option<(Seq<u8>, int)> {
    match parse_u64(s, pos) {
        Some((n, p)) => {
            if p + n <= s.len() {
                Some((s.subrange(p, p + n), p + n))
            } else {
                None
            }
        },
        None => None,
    }
}

/// Result of parsing `count` headers starting at `pos`.
pub open spec fn parse_headers(s: Seq<u8>, pos: int, count: nat) -> Option<(Seq<HeaderModel>, int)>
    decreases count,
{
    if count == 0 {
        Some((Seq::empty(), pos))
    } else {
        match parse_field(s, pos) {
            Some((name, p1)) => match parse_field(s, p1) {
                Some((value, p2)) => match parse_headers(s, p2, (count - 1) as nat) {
                    Some((rest, p3)) => Some(
                        (seq![HeaderModel { name, value }] + rest, p3),
                    ),
                    None => None,
                },
                None => None,
            },
            None => None,
        }
    }
}

/// The outgoing message a wire frame holds, if it is well-formed: right
/// version, known tag, intact fields, no trailing bytes.
pub open spec fn dec_outgoing(s: Seq<u8>) -> Option<OutgoingModel> {
    if s.len() >= 2 && s[0] == WIRE_VERSION && s[1] == TAG_HEADERS {
        match parse_field(s, 2) {
            Some((method, p1)) => match parse_field(s, p1) {
                Some((path, p2)) => match parse_u64(s, p2) {
                    Some((count, p3)) => match parse_headers(s, p3, count as nat) {
                        Some((headers, p4)) => {
                            if p4 == s.len() {
                                Some(OutgoingModel::Headers(RenderDataModel { method, path, headers }))
                            } else {
                                None
                            }
                        },
                        None => None,
                    },
                    None => None,
                },
                None => None,
            },
            None => None,
        }
    } else {
        None
    }
}

/// The incoming message a wire frame holds, if it is well-formed.
pub open spec fn dec_incoming(s: Seq<u8>) -> Option<IncomingModel> {
    if s.len() >= 2 && s[0] == WIRE_VERSION && s[1] == TAG_RESPONSE {
        match parse_u16(s, 2) {
            Some((status_code, p1)) => match parse_field(s, p1) {
                Some((content_type, p2)) => match parse_field(s, p2) {
                    Some((body, p3)) => {
                        if p3 == s.len() {
                            Some(IncomingModel::Response { status_code, content_type, body })
                        } else {
                            None
                        }
                    },
                    None => None,
                },
                None => None,
            },
            None => None,
        }
    } else if s.len() >= 2 && s[0] == WIRE_VERSION && s[1] == TAG_ERROR {
        match parse_field(s, 2) {
            Some((text, p1)) => {
                if p1 == s.len() {
                    Some(IncomingModel::Error(text))
                } else {
                    None
                }
            },
            None => None,
        }
    } else {
        None
    }
}

proof fn lemma_u64_round(n: u64)
    ensures
        dec_u64(enc_u64(n)) == n,
{
    reveal(enc_u64);
    reveal(dec_u64);
    let n1 = n / 256;
    let n2 = n1 / 256;
    let n3 = n2 / 256;
    let n4 = n3 / 256;
    let n5 = n4 / 256;
    let n6 = n5 / 256;
    let n7 = n6 / 256;
    assert(n == 256 * n1 + n % 256);
    assert(n1 == 256 * n2 + n1 % 256);
    assert(n2 == 256 * n3 + n2 % 256);
    assert(n3 == 256 * n4 + n3 % 256);
    assert(n4 == 256 * n5 + n4 % 256);
    assert(n5 == 256 * n6 + n5 % 256);
    assert(n6 == 256 * n7 + n6 % 256);
    assert(n7 < 256);
    assert(enc_u64(n)[0] == (n % 256) as u8);
    assert(enc_u64(n)[7] == (n7 % 256) as u8);
}

proof fn lemma_u16_round(n: u16)
    ensures
        dec_u16(enc_u16(n)) == n,
{
    reveal(enc_u16);
    reveal(dec_u16);
    assert(n == 256 * (n / 256) + n % 256);
    assert(n / 256 < 256);
}

proof fn lemma_parse_u64_at(c: Seq<u8>, n: u64, rest: Seq<u8>)
    ensures
        parse_u64(c + enc_u64(n) + rest, c.len() as int) == Some((n, c.len() as int + 8)),
{
    broadcast use lemma_enc_u64_len;

    let s = c + enc_u64(n) + rest;
    assert(s.subrange(c.len() as int, c.len() + 8 as int) =~= enc_u64(n));
    lemma_u64_round(n);
}

proof fn lemma_parse_u16_at(c: Seq<u8>, n: u16, rest: Seq<u8>)
    ensures
        parse_u16(c + enc_u16(n) + rest, c.len() as int) == Some((n, c.len() as int + 2)),
{
    broadcast use lemma_enc_u16_len;

    let s = c + enc_u16(n) + rest;
    assert(s.subrange(c.len() as int, c.len() + 2 as int) =~= enc_u16(n));
    lemma_u16_round(n);
}

proof fn lemma_parse_field_at(c: Seq<u8>, f: Seq<u8>, rest: Seq<u8>)
    requires
        fits_field(f),
    ensures
        parse_field(c + enc_field(f) + rest, c.len() as int) == Some(
            (f, c.len() as int + 8 + f.len() as int),
        ),
{
    broadcast use lemma_enc_u64_len;

    let s = c + enc_field(f) + rest;
    let n = f.len() as u64;
    assert(s =~= c + enc_u64(n) + (f + rest));
    lemma_parse_u64_at(c, n, f + rest);
    assert(n == f.len());
    assert(c.len() + 8 + n <= s.len());
    assert(s.subrange(c.len() + 8 as int, c.len() + 8 + n as int) =~= f);
}

} // verus!

verus! {

proof fn lemma_parse_headers_at(c: Seq<u8>, hs: Seq<HeaderModel>, rest: Seq<u8>)
    requires
        forall|i: int| 0 <= i < hs.len() ==> wf_header(#[trigger] hs[i]),
    ensures
        parse_headers(c + enc_headers(hs) + rest, c.len() as int, hs.len()) == Some(
            (hs, c.len() as int + enc_headers(hs).len() as int),
        ),
    decreases hs.len(),
{
    broadcast use lemma_enc_u64_len;

    let s = c + enc_headers(hs) + rest;
    if hs.len() == 0 {
        assert(enc_headers(hs) =~= Seq::<u8>::empty());
        assert(s =~= c + rest);
        assert(parse_headers(s, c.len() as int, 0) == Some(
            (Seq::<HeaderModel>::empty(), c.len() as int),
        ));
        assert(hs =~= Seq::<HeaderModel>::empty());
    } else {
        let h = hs[0];
        let tail = hs.drop_first();
        assert(enc_headers(hs) == enc_header(h) + enc_headers(tail));
        // parse the name
        assert(s =~= c + enc_field(h.name) + (enc_field(h.value) + enc_headers(tail) + rest));
        lemma_parse_field_at(c, h.name, enc_field(h.value) + enc_headers(tail) + rest);
        let p1 = c.len() as int + 8 + h.name.len() as int;
        assert(parse_field(s, c.len() as int) == Some((h.name, p1)));
        // parse the value
        let c1 = c + enc_field(h.name);
        assert(s =~= c1 + enc_field(h.value) + (enc_headers(tail) + rest));
        lemma_parse_field_at(c1, h.value, enc_headers(tail) + rest);
        let p2 = c1.len() as int + 8 + h.value.len() as int;
        assert(c1.len() == c.len() + enc_field(h.name).len());
        assert(p2 == p1 + 8 + h.value.len() as int);
        assert(parse_field(s, p1) == Some((h.value, p2)));
        // parse the remaining headers
        let c2 = c1 + enc_field(h.value);
        assert(s =~= c2 + enc_headers(tail) + rest);
        lemma_parse_headers_at(c2, tail, rest);
        assert(c2.len() as int == p2);
        let p3 = c2.len() as int + enc_headers(tail).len() as int;
        assert(parse_headers(s, p2, tail.len()) == Some((tail, p3)));
        assert((hs.len() - 1) as nat == tail.len());
        assert(seq![HeaderModel { name: h.name, value: h.value }] + tail =~= hs);
        assert(p3 == c.len() as int + enc_headers(hs).len() as int);
        assert(parse_headers(s, c.len() as int, hs.len()) == Some((hs, p3)));
    }
}

/// Round trip of the outgoing side of the protocol: a Headers message,
/// encoded and decoded again, reproduces the original request data exactly.
pub proof fn lemma_outgoing_round_trip(m: OutgoingModel)
    requires
        wf_outgoing(m),
    ensures
        dec_outgoing(enc_outgoing(m)) == Some(m),
{
    broadcast use lemma_enc_u64_len;

    match m {
        OutgoingModel::Headers(d) => {
            let s = enc_outgoing(m);
            let pre: Seq<u8> = seq![WIRE_VERSION, TAG_HEADERS];
            let count = d.headers.len() as u64;
            assert(s == pre + enc_render_data(d));
            assert(s.len() >= 2 && s[0] == WIRE_VERSION && s[1] == TAG_HEADERS);
            // method
            assert(s =~= pre + enc_field(d.method) + (enc_field(d.path) + enc_u64(count)
                + enc_headers(d.headers)));
            lemma_parse_field_at(
                pre,
                d.method,
                enc_field(d.path) + enc_u64(count) + enc_headers(d.headers),
            );
            let p1 = 2 + 8 + d.method.len() as int;
            assert(parse_field(s, 2) == Some((d.method, p1)));
            // path
            let c1 = pre + enc_field(d.method);
            assert(s =~= c1 + enc_field(d.path) + (enc_u64(count) + enc_headers(d.headers)));
            lemma_parse_field_at(c1, d.path, enc_u64(count) + enc_headers(d.headers));
            let p2 = c1.len() as int + 8 + d.path.len() as int;
            assert(p2 == p1 + 8 + d.path.len() as int);
            assert(parse_field(s, p1) == Some((d.path, p2)));
            // header count
            let c2 = c1 + enc_field(d.path);
            assert(s =~= c2 + enc_u64(count) + enc_headers(d.headers));
            lemma_parse_u64_at(c2, count, enc_headers(d.headers));
            let p3 = c2.len() as int + 8;
            assert(c2.len() as int == p2);
            assert(parse_u64(s, p2) == Some((count, p3)));
            assert(count as nat == d.headers.len());
            // headers
            let c3 = c2 + enc_u64(count);
            assert(s =~= c3 + enc_headers(d.headers) + Seq::<u8>::empty());
            lemma_parse_headers_at(c3, d.headers, Seq::<u8>::empty());
            let p4 = c3.len() as int + enc_headers(d.headers).len() as int;
            assert(c3.len() as int == p3);
            assert(parse_headers(s, p3, count as nat) == Some((d.headers, p4)));
            assert(p4 == s.len());
            assert(dec_outgoing(s) == Some(OutgoingModel::Headers(
                RenderDataModel { method: d.method, path: d.path, headers: d.headers },
            )));
            assert(RenderDataModel { method: d.method, path: d.path, headers: d.headers } == d);
        },
    }
}

/// Round trip of the incoming side of the protocol: a Response or Error
/// message, encoded and decoded again, reproduces the original fields
/// exactly, byte for byte.
pub proof fn lemma_incoming_round_trip(m: IncomingModel)
    requires
        wf_incoming(m),
    ensures
        dec_incoming(enc_incoming(m)) == Some(m),
{
    broadcast use lemma_enc_u64_len, lemma_enc_u16_len;

    match m {
        IncomingModel::Response { status_code, content_type, body } => {
            let s = enc_incoming(m);
            let pre: Seq<u8> = seq![WIRE_VERSION, TAG_RESPONSE];
            assert(s.len() >= 2 && s[0] == WIRE_VERSION && s[1] == TAG_RESPONSE);
            // status code
            assert(s =~= pre + enc_u16(status_code) + (enc_field(content_type) + enc_field(body)));
            lemma_parse_u16_at(pre, status_code, enc_field(content_type) + enc_field(body));
            let p1: int = 4int;
            assert(parse_u16(s, 2) == Some((status_code, p1)));
            // content type
            let c1 = pre + enc_u16(status_code);
            assert(s =~= c1 + enc_field(content_type) + enc_field(body));
            lemma_parse_field_at(c1, content_type, enc_field(body));
            let p2 = c1.len() as int + 8 + content_type.len() as int;
            assert(c1.len() as int == p1);
            assert(parse_field(s, p1) == Some((content_type, p2)));
            // body
            let c2 = c1 + enc_field(content_type);
            assert(s =~= c2 + enc_field(body) + Seq::<u8>::empty());
            assert(c2 + enc_field(body) + Seq::<u8>::empty() =~= c2 + enc_field(body));
            lemma_parse_field_at(c2, body, Seq::<u8>::empty());
            let p3 = c2.len() as int + 8 + body.len() as int;
            assert(c2.len() as int == p2);
            assert(parse_field(s, p2) == Some((body, p3)));
            assert(p3 == s.len());
        },
        IncomingModel::Error(text) => {
            let s = enc_incoming(m);
            let pre: Seq<u8> = seq![WIRE_VERSION, TAG_ERROR];
            assert(s.len() >= 2 && s[0] == WIRE_VERSION && s[1] == TAG_ERROR);
            assert(TAG_ERROR != TAG_RESPONSE);
            assert(s =~= pre + enc_field(text) + Seq::<u8>::empty());
            assert(pre + enc_field(text) + Seq::<u8>::empty() =~= pre + enc_field(text));
            lemma_parse_field_at(pre, text, Seq::<u8>::empty());
            let p1 = 2 + 8 + text.len() as int;
            assert(parse_field(s, 2) == Some((text, p1)));
            assert(p1 == s.len());
        },
    }
}

} // verus!

verus! {

/// Reads a little-endian `u64` at `pos`.
fn read_u64(s: &Vec<u8>, pos: usize) -> (r: Option<(u64, usize)>)
    ensures
        match r {
            Some((v, p)) => parse_u64(s@, pos as int) == Some((v, p as int)),
            None => parse_u64(s@, pos as int) is None,
        },
{
    proof {
        reveal(dec_u64);
    }
    if pos < s.len() && s.len() - pos >= 8 {
        let b0 = s[pos] as u64;
        let b1 = s[pos + 1] as u64;
        let b2 = s[pos + 2] as u64;
        let b3 = s[pos + 3] as u64;
        let b4 = s[pos + 4] as u64;
        let b5 = s[pos + 5] as u64;
        let b6 = s[pos + 6] as u64;
        let b7 = s[pos + 7] as u64;
        let v = b0 + 256 * b1 + 65536 * b2 + 16777216 * b3 + 4294967296 * b4 + 1099511627776 * b5
            + 281474976710656 * b6 + 72057594037927936 * b7;
        proof {
            let w = s@.subrange(pos as int, pos as int + 8);
            assert(w[0] == s@[pos as int]);
            assert(w[1] == s@[pos as int + 1]);
            assert(w[2] == s@[pos as int + 2]);
            assert(w[3] == s@[pos as int + 3]);
            assert(w[4] == s@[pos as int + 4]);
            assert(w[5] == s@[pos as int + 5]);
            assert(w[6] == s@[pos as int + 6]);
            assert(w[7] == s@[pos as int + 7]);
            assert(v == dec_u64(w));
        }
        Some((v, pos + 8))
    } else {
        if pos >= s.len() {
            return None;
        }
        None
    }
}

/// Reads a little-endian `u16` at `pos`.
fn read_u16(s: &Vec<u8>, pos: usize) -> (r: Option<(u16, usize)>)
    ensures
        match r {
            Some((v, p)) => parse_u16(s@, pos as int) == Some((v, p as int)),
            None => parse_u16(s@, pos as int) is None,
        },
{
    proof {
        reveal(dec_u16);
    }
    if pos < s.len() && s.len() - pos >= 2 {
        let b0 = s[pos] as u16;
        let b1 = s[pos + 1] as u16;
        let v = b0 + 256 * b1;
        proof {
            let w = s@.subrange(pos as int, pos as int + 2);
            assert(w[0] == s@[pos as int]);
            assert(w[1] == s@[pos as int + 1]);
            assert(v == dec_u16(w));
        }
        Some((v, pos + 2))
    } else {
        if pos >= s.len() {
            return None;
        }
        None
    }
}

/// Reads a length-prefixed field at `pos`, copying its bytes out.
fn read_field(s: &Vec<u8>, pos: usize) -> (r: Option<(Vec<u8>, usize)>)
    ensures
        match r {
            Some((f, p)) => parse_field(s@, pos as int) == Some((f@, p as int)),
            None => parse_field(s@, pos as int) is None,
        },
{
    match read_u64(s, pos) {
        Some((n, p)) => {
            let slen = s.len();
            if n <= (slen - p) as u64 {
                let len = n as usize;
                let mut f: Vec<u8> = Vec::new();
                let mut i: usize = 0;
                while i < len
                    invariant
                        slen == s@.len(),
                        p + len <= slen,
                        i <= len,
                        f@ == s@.subrange(p as int, p as int + i as int),
                    decreases len - i,
                {
                    f.push(s[p + i]);
                    proof {
                        assert(s@.subrange(p as int, p as int + (i + 1)) =~= s@.subrange(
                            p as int,
                            p as int + i as int,
                        ).push(s@[p as int + i as int]));
                    }
                    i = i + 1;
                }
                Some((f, p + len))
            } else {
                None
            }
        },
        None => None,
    }
}

/// Decodes a wire frame into an incoming message; `None` marks a protocol
/// violation (wrong version, unknown tag, truncated frame, trailing bytes).
pub fn decode_incoming(s: &Vec<u8>) -> (r: Option<IncomingMessage>)
    ensures
        match r {
            Some(m) => dec_incoming(s@) == Some(m@),
            None => dec_incoming(s@) is None,
        },
{
    if s.len() < 2 || s[0] != WIRE_VERSION {
        return None;
    }
    let tag = s[1];
    if tag == TAG_RESPONSE {
        match read_u16(s, 2) {
            Some((status_code, p1)) => match read_field(s, p1) {
                Some((content_type, p2)) => match read_field(s, p2) {
                    Some((body, p3)) => {
                        if p3 == s.len() {
                            Some(IncomingMessage::Response { status_code, content_type, body })
                        } else {
                            None
                        }
                    },
                    None => None,
                },
                None => None,
            },
            None => None,
        }
    } else if tag == TAG_ERROR {
        match read_field(s, 2) {
            Some((text, p1)) => {
                if p1 == s.len() {
                    Some(IncomingMessage::Error(text))
                } else {
                    None
                }
            },
            None => None,
        }
    } else {
        None
    }
}

/// Decodes a wire frame into an outgoing message; the worker side of the
/// protocol. `None` marks a protocol violation.
pub fn decode_outgoing(s: &Vec<u8>) -> (r: Option<OutgoingMessage>)
    ensures
        match r {
            Some(m) => dec_outgoing(s@) == Some(m@),
            None => dec_outgoing(s@) is None,
        },
{
    if s.len() < 2 || s[0] != WIRE_VERSION || s[1] != TAG_HEADERS {
        return None;
    }
    let (method, p1) = match read_field(s, 2) {
        Some(x) => x,
        None => {
            return None;
        },
    };
    let (path, p2) = match read_field(s, p1) {
        Some(x) => x,
        None => {
            return None;
        },
    };
    let (count, p3) = match read_u64(s, p2) {
        Some(x) => x,
        None => {
            return None;
        },
    };
    let mut headers: Vec<Header> = Vec::new();
    let mut pos = p3;
    let mut i: u64 = 0;
    while i < count
        invariant
            i <= count,
            headers@.len() == i,
            s@.len() >= 2 && s@[0] == WIRE_VERSION && s@[1] == TAG_HEADERS,
            parse_field(s@, 2) == Some((method@, p1 as int)),
            parse_field(s@, p1 as int) == Some((path@, p2 as int)),
            parse_u64(s@, p2 as int) == Some((count, p3 as int)),
            pos <= s@.len(),
            match parse_headers(s@, pos as int, (count - i) as nat) {
                Some((rest, pend)) => parse_headers(s@, p3 as int, count as nat) == Some(
                    (Seq::new(headers@.len(), |j: int| headers@[j]@) + rest, pend),
                ),
                None => parse_headers(s@, p3 as int, count as nat) is None,
            },
        decreases count - i,
    {
        let ghost models = Seq::new(headers@.len(), |j: int| headers@[j]@);
        let (name, q1) = match read_field(s, pos) {
            Some(x) => x,
            None => {
                proof {
                    assert(parse_headers(s@, pos as int, (count - i) as nat) is None);
                    assert(parse_headers(s@, p3 as int, count as nat) is None);
                    assert(dec_outgoing(s@) is None);
                }
                return None;
            },
        };
        let (value, q2) = match read_field(s, q1) {
            Some(x) => x,
            None => {
                proof {
                    assert(parse_field(s@, pos as int) == Some((name@, q1 as int)));
                    assert(parse_headers(s@, pos as int, (count - i) as nat) is None);
                    assert(parse_headers(s@, p3 as int, count as nat) is None);
                    assert(dec_outgoing(s@) is None);
                }
                return None;
            },
        };
        headers.push(Header { name, value });
        proof {
            let h = HeaderModel { name: name@, value: value@ };
            assert(Seq::new(headers@.len(), |j: int| headers@[j]@) =~= models.push(h));
            assert forall|rest2: Seq<HeaderModel>|
                models.push(h) + rest2 =~= models + (seq![h] + rest2) by {
                assert(models.push(h) + rest2 =~= models + (seq![h] + rest2));
            }
        }
        pos = q2;
        i = i + 1;
    }
    proof {
        assert(parse_headers(s@, pos as int, 0) == Some(
            (Seq::<HeaderModel>::empty(), pos as int),
        ));
        assert(Seq::new(headers@.len(), |j: int| headers@[j]@) + Seq::<HeaderModel>::empty()
            =~= Seq::new(headers@.len(), |j: int| headers@[j]@));
    }
    if pos == s.len() {
        let d = RenderData { method, path, headers };
        proof {
            assert(d@.headers =~= Seq::new(d.headers@.len(), |j: int| d.headers@[j]@));
        }
        Some(OutgoingMessage::Headers(d))
    } else {
        None
    }
}

} // verus!

