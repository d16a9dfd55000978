//! Direct polling of an IoTaWatt energy monitor on the LAN.
//!
//! One plain-HTTP GET per poll: a request is one write followed by a read of exactly the bytes that
//! `Content-Length` announces. The house total is a named output of the device, the servers' draw
//! a named input, which the status document identifies by channel number only: the name is
//! resolved to its channel through `/config.txt` once per healthy stretch. When the device stops
//! answering, both values go back to the Home Assistant sensors.
use vstd::prelude::*;
use vstd::string::*;
use vstd::utf8::{decode_utf8, valid_utf8};
use crate::number::{opt_quantity, Quantity, QuantityV};
use crate::text::{
    after, begins, blank, concat, debug_text, decimal, eq_ignore_case, halves, is_blank, joined,
    lines, lines_of, parse_unsigned, parsed_unsigned, push_decimal, quoted, rhalves, same,
    same_folded, split_first, split_last, split_words, strip_prefix, texts, trim, trimmed, words,
};
use crate::time;
use crate::time::{clamped, MILLISECOND};

verus! {

/// Refuse to buffer more than this from the device.
pub const MAX_BODY: usize = 262144;

/// Never poll faster than this, whatever the configuration says.
pub const MIN_POLL_MS: u64 = 200;

pub const MAX_POLL_MS: u64 = 300_000;

pub const MIN_TIMEOUT_MS: u64 = 200;

pub const MAX_TIMEOUT_MS: u64 = 30_000;

// ---------------- the response ----------------

/// A blank line starts here.
pub open spec fn blank_line_at(s: Seq<u8>, i: int) -> bool {
    &&& 0 <= i
    &&& i + 4 <= s.len()
    &&& s[i] == 13
    &&& s[i + 1] == 10
    &&& s[i + 2] == 13
    &&& s[i + 3] == 10
}

/// Where the headers end: the place of the first blank line.
pub open spec fn headers_end(s: Seq<u8>) -> Option<int>
    decreases s.len(),
{
    if s.len() < 4 {
        None
    } else if blank_line_at(s, 0) {
        Some(0)
    } else {
        match headers_end(s.drop_first()) {
            Some(i) => Some(i + 1),
            None => None,
        }
    }
}

/// The first blank line is a blank line, and there is none before it.
pub proof fn lemma_headers_end(s: Seq<u8>)
    ensures
        match headers_end(s) {
            Some(i) => blank_line_at(s, i) && forall|k: int| 0 <= k < i ==> !blank_line_at(s, k),
            None => forall|k: int| !blank_line_at(s, k),
        },
    decreases s.len(),
{
    if s.len() >= 4 && !blank_line_at(s, 0) {
        let t = s.drop_first();
        lemma_headers_end(t);
        assert forall|k: int| 0 < k && blank_line_at(s, k) implies blank_line_at(t, k - 1) by {
            assert(t[k - 1] == s[k]);
            assert(t[k] == s[k + 1]);
            assert(t[k + 1] == s[k + 2]);
            assert(t[k + 2] == s[k + 3]);
        }
        match headers_end(t) {
            Some(i) => {
                assert(s[i + 1] == t[i]);
                assert(s[i + 2] == t[i + 1]);
                assert(s[i + 3] == t[i + 2]);
                assert(s[i + 4] == t[i + 3]);
                assert forall|k: int| 0 <= k < i + 1 implies !blank_line_at(s, k) by {
                    if blank_line_at(s, k) && k > 0 {
                        assert(blank_line_at(t, k - 1));
                    }
                }
            },
            None => {
                assert forall|k: int| !blank_line_at(s, k) by {
                    if blank_line_at(s, k) && k > 0 {
                        assert(blank_line_at(t, k - 1));
                    }
                }
            },
        }
    }
}

/// End of the header block, if the buffer already holds it.
pub fn head_end(raw: &[u8]) -> (r: Option<usize>)
    ensures
        match r {
            Some(i) => headers_end(raw@) == Some(i as int) && i + 4 <= raw@.len(),
            None => headers_end(raw@) is None,
        },
{
    proof {
        lemma_headers_end(raw@);
    }
    let n = raw.len();
    let mut i: usize = 0;
    while n >= 4 && i <= n - 4
        invariant
            n == raw@.len(),
            i <= n,
            forall|k: int| 0 <= k < i ==> !blank_line_at(raw@, k),
            match headers_end(raw@) {
                Some(j) => blank_line_at(raw@, j) && forall|k: int|
                    0 <= k < j ==> !blank_line_at(raw@, k),
                None => forall|k: int| !blank_line_at(raw@, k),
            },
        decreases n - i,
    {
        if raw[i] == 13 && raw[i + 1] == 10 && raw[i + 2] == 13 && raw[i + 3] == 10 {
            assert(blank_line_at(raw@, i as int));
            return Some(i);
        }
        assert(!blank_line_at(raw@, i as int));
        i = i + 1;
    }
    proof {
        assert forall|k: int| !blank_line_at(raw@, k) by {
            if blank_line_at(raw@, k) {
                assert(k < i);
            }
        }
    }
    None
}

/// What std says of bytes that are not UTF-8.
pub uninterp spec fn utf8_fault(bytes: Seq<u8>) -> Seq<char>;

/// Calls `std::str::from_utf8`: the text of bytes that are UTF-8. What it says of any others is
/// named by `utf8_fault`.
#[verifier::external_body]
fn utf8_text(b: &[u8]) -> (r: Result<String, String>)
    ensures
        match r {
            Ok(t) => valid_utf8(b@) && t@ == decode_utf8(b@),
            Err(e) => !valid_utf8(b@) && e@ == utf8_fault(b@),
        },
{
    std::str::from_utf8(b).map(str::to_string).map_err(|e| e.to_string())
}

/// The length that the first `Content-Length` header announces.
pub open spec fn announced_length(lines: Seq<Seq<char>>) -> Option<nat>
    decreases lines.len(),
{
    if lines.len() == 0 {
        None
    } else {
        match halves(lines[0], ':') {
            Some((k, v)) if same_folded(trimmed(k), "content-length"@) => parsed_unsigned(
                trimmed(v),
                usize::MAX as nat,
            ),
            _ => announced_length(lines.drop_first()),
        }
    }
}

/// The length that a header block announces.
pub open spec fn head_length(head: Seq<u8>) -> Option<nat> {
    if valid_utf8(head) {
        announced_length(lines_of(decode_utf8(head)))
    } else {
        None
    }
}

/// A length that may be missing, as a natural number.
pub open spec fn length_view(r: Option<usize>) -> Option<nat> {
    match r {
        Some(n) => Some(n as nat),
        None => None,
    }
}

/// `Content-Length` from a header block. Anything else falls back to reading until the connection
/// closes.
pub fn content_length(head: &[u8]) -> (r: Option<usize>)
    ensures
        length_view(r) == head_length(head@),
{
    let t = match utf8_text(head) {
        Ok(t) => t,
        Err(_) => {
            return None;
        },
    };
    let ls = lines(t.as_str());
    let ghost all = texts(ls@);
    let mut i: usize = 0;
    assert(all.skip(0) =~= all);
    while i < ls.len()
        invariant
            i <= ls@.len(),
            all == texts(ls@),
            all == lines_of(t@),
            valid_utf8(head@),
            t@ == decode_utf8(head@),
            announced_length(all) == announced_length(all.skip(i as int)),
        decreases ls@.len() - i,
    {
        let ghost rest = all.skip(i as int);
        assert(rest[0] == ls@[i as int]@);
        assert(rest.drop_first() =~= all.skip(i + 1));
        match split_first(ls[i].as_str(), ':') {
            Some((k, v)) => {
                if eq_ignore_case(trim(k), "content-length") {
                    return match parse_unsigned(trim(v), usize::MAX as u64) {
                        Some(n) => Some(n as usize),
                        None => None,
                    };
                }
            },
            None => {},
        }
        i = i + 1;
    }
    None
}

/// The status line of a header block.
pub open spec fn status_line(head: Seq<char>) -> Seq<char> {
    let l = lines_of(head);
    if l.len() == 0 {
        trimmed(Seq::empty())
    } else {
        trimmed(l[0])
    }
}

/// What a response is refused for, if anything.
pub open spec fn response_error(raw: Seq<u8>) -> Option<Seq<char>> {
    match headers_end(raw) {
        None => Some("truncated response: no end of headers"@),
        Some(end) => {
            let head = raw.take(end);
            if !valid_utf8(head) {
                Some("non-UTF-8 response headers: "@ + utf8_fault(head))
            } else {
                let line = status_line(decode_utf8(head));
                if words(line).len() > 1 && words(line)[1] == "200"@ {
                    None
                } else {
                    Some("unexpected response status: "@ + debug_text(line))
                }
            }
        },
    }
}

/// The body of a sound response: what follows the blank line, up to the length announced where
/// that much has arrived.
pub open spec fn body_of(raw: Seq<u8>) -> Seq<u8> {
    let end = headers_end(raw)->0;
    let rest = raw.skip(end + 4);
    match head_length(raw.take(end)) {
        Some(n) => if n <= rest.len() {
            rest.take(n as int)
        } else {
            rest
        },
        None => rest,
    }
}

/// The bytes from `from` up to `to`.
fn bytes_of(raw: &[u8], from: usize, to: usize) -> (r: Vec<u8>)
    requires
        from <= to <= raw@.len(),
    ensures
        r@ == raw@.subrange(from as int, to as int),
{
    let mut out: Vec<u8> = Vec::new();
    let mut i: usize = from;
    while i < to
        invariant
            from <= i <= to <= raw@.len(),
            out@ == raw@.subrange(from as int, i as int),
        decreases to - i,
    {
        out.push(raw[i]);
        assert(out@ =~= raw@.subrange(from as int, i + 1));
        i = i + 1;
    }
    out
}

/// Checks the status line and returns the body, trimmed to `Content-Length` when it is present.
/// The device never uses chunked encoding, so everything after the blank line is the body.
pub fn split_body(raw: &[u8]) -> (r: Result<Vec<u8>, String>)
    ensures
        match r {
            Ok(b) => response_error(raw@) is None && b@ == body_of(raw@),
            Err(e) => response_error(raw@) == Some(e@),
        },
{
    let end = match head_end(raw) {
        Some(end) => end,
        None => {
            return Err("truncated response: no end of headers".to_string());
        },
    };
    let head = bytes_of(raw, 0, end);
    assert(head@ =~= raw@.take(end as int));
    let t = match utf8_text(head.as_slice()) {
        Ok(t) => t,
        Err(e) => {
            return Err(concat("non-UTF-8 response headers: ", e.as_str()));
        },
    };
    let ls = lines(t.as_str());
    proof {
        reveal_strlit("");
        assert(""@ =~= Seq::empty());
    }
    let line = if ls.len() > 0 {
        assert(lines_of(t@)[0] == ls@[0]@);
        trim(ls[0].as_str())
    } else {
        trim("")
    };
    assert(line@ == status_line(t@));
    let w = split_words(line);
    if !(w.len() > 1 && same(w[1].as_str(), "200")) {
        proof {
            if w@.len() > 1 {
                assert(words(line@)[1] == w@[1]@);
            }
        }
        return Err(concat("unexpected response status: ", quoted(line).as_str()));
    }
    assert(words(line@)[1] == w@[1]@);
    let total = raw.len();
    let start = end + 4;
    let have = total - start;
    let to = match content_length(head.as_slice()) {
        Some(n) => if n <= have {
            start + n
        } else {
            raw.len()
        },
        None => raw.len(),
    };
    let body = bytes_of(raw, start, to);
    assert(body@ =~= body_of(raw@));
    Ok(body)
}

/// A response being read.
#[derive(Debug)]
pub struct HttpReader {
    buf: Vec<u8>,
    /// Where the headers end, and the length that they announce.
    framing: Option<(usize, Option<usize>)>,
}

/// The response is complete: everything that its headers announce has arrived.
pub open spec fn complete(raw: Seq<u8>) -> bool {
    match headers_end(raw) {
        Some(end) => match head_length(raw.take(end)) {
            Some(n) => raw.len() >= end + 4 + n,
            None => false,
        },
        None => false,
    }
}

impl View for HttpReader {
    type V = Seq<u8>;

    closed spec fn view(&self) -> Seq<u8> {
        self.buf@
    }
}

/// The headers stay where they ended.
proof fn lemma_headers_stay(s: Seq<u8>, more: Seq<u8>)
    requires
        headers_end(s) is Some,
    ensures
        headers_end(s + more) == headers_end(s),
        (s + more).take(headers_end(s)->0) == s.take(headers_end(s)->0),
{
    let t = s + more;
    let i = headers_end(s)->0;
    lemma_headers_end(s);
    lemma_headers_end(t);
    assert(blank_line_at(t, i));
    assert forall|k: int| 0 <= k < i implies !blank_line_at(t, k) by {
        if blank_line_at(t, k) {
            assert(blank_line_at(s, k));
        }
    }
    let j = headers_end(t)->0;
    assert(!(j < i));
    assert(!(i < j));
    assert(t.take(i) =~= s.take(i));
}

impl HttpReader {
    /// What has been worked out of the headers is what they say.
    pub closed spec fn wf(self) -> bool {
        match self.framing {
            Some((end, len)) => headers_end(self.buf@) == Some(end as int) && length_view(len)
                == head_length(self.buf@.take(end as int)) && end + 4 <= self.buf@.len(),
            None => headers_end(self.buf@) is None,
        }
    }

    /// Nothing read yet.
    pub fn new() -> (r: HttpReader)
        ensures
            r@ == Seq::<u8>::empty(),
            r.wf(),
    {
        HttpReader { buf: Vec::new(), framing: None }
    }

    /// Whether the announced body is complete, so that there is no need to wait for the close.
    pub fn is_complete(&self) -> (r: bool)
        requires
            self.wf(),
        ensures
            r == complete(self@),
    {
        match self.framing {
            Some((end, Some(len))) => self.buf.len() - (end + 4) >= len,
            _ => false,
        }
    }

    /// More of the response. Refused where it grows beyond what is buffered.
    pub fn feed(&mut self, chunk: &[u8]) -> (r: Result<(), String>)
        requires
            old(self).wf(),
            old(self)@.len() + chunk@.len() <= usize::MAX,
        ensures
            final(self).wf(),
            final(self)@ == old(self)@ + chunk@,
            match r {
                Ok(_) => final(self)@.len() <= MAX_BODY,
                Err(e) => final(self)@.len() > MAX_BODY && e@
                    == "response larger than 262144 bytes"@,
            },
    {
        let ghost was = self.buf@;
        self.buf.extend_from_slice(chunk);
        assert(self.buf@ =~= was + chunk@);
        match self.framing {
            Some((end, len)) => {
                proof {
                    lemma_headers_stay(was, chunk@);
                }
            },
            None => match head_end(self.buf.as_slice()) {
                Some(end) => {
                    let head = bytes_of(self.buf.as_slice(), 0, end);
                    assert(head@ =~= self.buf@.take(end as int));
                    let len = content_length(head.as_slice());
                    self.framing = Some((end, len));
                },
                None => {},
            },
        }
        if self.buf.len() > MAX_BODY {
            return Err("response larger than 262144 bytes".to_string());
        }
        Ok(())
    }

    /// The body of the response, or what is wrong with it.
    pub fn finish(&self) -> (r: Result<Vec<u8>, String>)
        ensures
            match r {
                Ok(b) => response_error(self@) is None && b@ == body_of(self@),
                Err(e) => response_error(self@) == Some(e@),
            },
    {
        split_body(self.buf.as_slice())
    }
}

/// A complete response is no longer than what it announces lets the body be.
pub proof fn complete_body_is_as_announced(raw: Seq<u8>)
    requires
        complete(raw),
        response_error(raw) is None,
    ensures
        body_of(raw).len() == head_length(raw.take(headers_end(raw)->0))->0,
{
    lemma_headers_end(raw);
}

// ---------------- the request ----------------

/// Where the device listens.
#[derive(Clone, Debug, PartialEq)]
pub struct Endpoint {
    pub host: String,
    pub port: u16,
}

/// The model of an `Endpoint`.
pub type EndpointV = (Seq<char>, u16);

impl View for Endpoint {
    type V = EndpointV;

    open spec fn view(&self) -> EndpointV {
        (self.host@, self.port)
    }
}

/// The host and port part of a URL without its scheme.
pub open spec fn authority(rest: Seq<char>) -> Seq<char> {
    trimmed(
        match halves(rest, '/') {
            Some((a, _)) => a,
            None => rest,
        },
    )
}

/// What std says of a text that is no port number.
pub uninterp spec fn port_fault(s: Seq<char>) -> Seq<char>;

/// Calls `str::parse::<u16>` of std, which reads digits, with or without a plus sign before them, up
/// to 65535. What it says of any other text is named by `port_fault`.
#[verifier::external_body]
fn parse_port(s: &str) -> (r: Result<u16, String>)
    ensures
        match r {
            Ok(n) => parsed_unsigned(s@, u16::MAX as nat) == Some(n as nat),
            Err(e) => parsed_unsigned(s@, u16::MAX as nat) is None && e@ == port_fault(s@),
        },
{
    s.parse::<u16>().map_err(|e| e.to_string())
}

/// What is wrong with a URL, or where it leads.
pub open spec fn endpoint_of(url: Seq<char>) -> Result<EndpointV, Seq<char>> {
    let s = trimmed(url);
    let rest = match after(s, "http://"@) {
        Some(r) => r,
        None => s,
    };
    let a = authority(rest);
    if begins(s, "https://"@) {
        Err(
            "the IoTaWatt is polled over plain HTTP, https is not supported: "@ + debug_text(s),
        )
    } else if a.len() == 0 {
        Err("no host in the iotawatt url "@ + debug_text(s))
    } else {
        match rhalves(a, ':') {
            Some((h, p)) => match parsed_unsigned(p, u16::MAX as nat) {
                Some(port) => if h.len() == 0 {
                    Err("no host in the iotawatt url "@ + debug_text(s))
                } else {
                    Ok((h, port as u16))
                },
                None => Err(
                    "bad port in the iotawatt url "@ + debug_text(s) + ": "@ + port_fault(p),
                ),
            },
            None => Ok((a, 80)),
        }
    }
}

/// The endpoint as the `Host` header names it: without the port where it is the default.
pub open spec fn host_text(e: EndpointV) -> Seq<char> {
    if e.1 == 80 {
        e.0
    } else {
        e.0 + ":"@ + decimal(e.1 as nat)
    }
}

impl Endpoint {
    /// The endpoint that a URL names.
    pub fn parse(url: &str) -> (r: Result<Endpoint, String>)
        ensures
            match r {
                Ok(e) => endpoint_of(url@) == Ok::<EndpointV, Seq<char>>(e@),
                Err(m) => endpoint_of(url@) == Err::<EndpointV, Seq<char>>(m@),
            },
    {
        let s = trim(url);
        if strip_prefix(s, "https://").is_some() {
            return Err(
                concat(
                    "the IoTaWatt is polled over plain HTTP, https is not supported: ",
                    quoted(s).as_str(),
                ),
            );
        }
        let rest = match strip_prefix(s, "http://") {
            Some(r) => r,
            None => s,
        };
        let a = trim(
            match split_first(rest, '/') {
                Some((a, _)) => a,
                None => rest,
            },
        );
        if a.unicode_len() == 0 {
            return Err(concat("no host in the iotawatt url ", quoted(s).as_str()));
        }
        match split_last(a, ':') {
            Some((h, p)) => match parse_port(p) {
                Ok(port) => {
                    if h.unicode_len() == 0 {
                        return Err(concat("no host in the iotawatt url ", quoted(s).as_str()));
                    }
                    Ok(Endpoint { host: h.to_string(), port })
                },
                Err(e) => {
                    let mut m = concat("bad port in the iotawatt url ", quoted(s).as_str());
                    m.append(": ");
                    m.append(e.as_str());
                    Err(m)
                },
            },
            None => Ok(Endpoint { host: a.to_string(), port: 80 }),
        }
    }

    /// The endpoint as the `Host` header names it.
    pub fn to_text(&self) -> (r: String)
        ensures
            r@ == host_text(self@),
    {
        let mut out = self.host.clone();
        if self.port != 80 {
            out.append(":");
            push_decimal(&mut out, self.port as u64);
        }
        out
    }
}

/// The GET request for a path.
pub open spec fn request_text(path: Seq<char>, e: EndpointV) -> Seq<char> {
    "GET "@ + path + " HTTP/1.1\r\nHost: "@ + host_text(e)
        + "\r\nUser-Agent: barclock\r\nAccept: application/json\r\nConnection: close\r\n\r\n"@
}

/// The GET request for a path.
pub fn http_request(path: &str, e: &Endpoint) -> (r: String)
    ensures
        r@ == request_text(path@, e@),
{
    let mut out = concat("GET ", path);
    out.append(" HTTP/1.1\r\nHost: ");
    out.append(e.to_text().as_str());
    out.append(
        "\r\nUser-Agent: barclock\r\nAccept: application/json\r\nConnection: close\r\n\r\n",
    );
    out
}

/// Why nothing was read in time.
pub fn timeout_message(e: &Endpoint, timeout_ms: u64) -> (r: String)
    ensures
        r@ == "no answer from "@ + host_text(e@) + " within "@ + decimal(timeout_ms as nat)
            + " ms"@,
{
    let mut out = concat("no answer from ", e.to_text().as_str());
    out.append(" within ");
    push_decimal(&mut out, timeout_ms);
    out.append(" ms");
    out
}

// ---------------- the documents ----------------

/// `/status?inputs=yes&outputs=yes`
#[derive(Debug)]
pub struct Status {
    pub inputs: Vec<StatusInput>,
    pub outputs: Vec<StatusOutput>,
}

#[derive(Debug)]
pub struct StatusInput {
    pub channel: i64,
    /// The watts, where they are a finite number or the text of one.
    pub watts: Option<Quantity>,
}

#[derive(Debug)]
pub struct StatusOutput {
    pub name: String,
    /// The value, where it is a finite number or the text of one.
    pub value: Option<Quantity>,
}

/// The place of the first output with this name, in any case, or the number of outputs.
pub open spec fn output_place(outputs: Seq<StatusOutput>, name: Seq<char>) -> int
    decreases outputs.len(),
{
    if outputs.len() == 0 || same_folded(outputs[0].name@, name) {
        0
    } else {
        1 + output_place(outputs.drop_first(), name)
    }
}

/// The place of the first input on this channel, or the number of inputs.
pub open spec fn input_place(inputs: Seq<StatusInput>, channel: i64) -> int
    decreases inputs.len(),
{
    if inputs.len() == 0 || inputs[0].channel == channel {
        0
    } else {
        1 + input_place(inputs.drop_first(), channel)
    }
}

/// The value of a named output.
pub open spec fn output_value(s: Status, name: Seq<char>) -> Option<QuantityV> {
    let i = output_place(s.outputs@, trimmed(name));
    if blank(name) || i >= s.outputs@.len() {
        None
    } else {
        opt_quantity(s.outputs@[i].value)
    }
}

/// The watts of a channel.
pub open spec fn input_value(s: Status, channel: i64) -> Option<QuantityV> {
    let i = input_place(s.inputs@, channel);
    if i >= s.inputs@.len() {
        None
    } else {
        opt_quantity(s.inputs@[i].watts)
    }
}

fn copied(q: &Option<Quantity>) -> (r: Option<Quantity>)
    ensures
        opt_quantity(r) == opt_quantity(*q),
{
    match q {
        Some(q) => Some(q.clone()),
        None => None,
    }
}

/// The names of the outputs, in order.
pub open spec fn output_names_of(outputs: Seq<StatusOutput>) -> Seq<Seq<char>> {
    outputs.map_values(|o: StatusOutput| o.name@)
}

impl Status {
    /// The value of a named output; names match in any case.
    pub fn output_watts(&self, name: &str) -> (r: Option<Quantity>)
        ensures
            opt_quantity(r) == output_value(*self, name@),
    {
        if is_blank(name) {
            return None;
        }
        let want = trim(name);
        let mut i: usize = 0;
        assert(self.outputs@.skip(0) =~= self.outputs@);
        while i < self.outputs.len()
            invariant
                i <= self.outputs@.len(),
                want@ == trimmed(name@),
                !blank(name@),
                output_place(self.outputs@, want@) == i + output_place(
                    self.outputs@.skip(i as int),
                    want@,
                ),
            decreases self.outputs@.len() - i,
        {
            assert(self.outputs@.skip(i as int)[0] == self.outputs@[i as int]);
            if eq_ignore_case(self.outputs[i].name.as_str(), want) {
                return copied(&self.outputs[i].value);
            }
            assert(self.outputs@.skip(i as int).drop_first() =~= self.outputs@.skip(i + 1));
            i = i + 1;
        }
        None
    }

    /// The watts of a channel.
    pub fn input_watts(&self, channel: i64) -> (r: Option<Quantity>)
        ensures
            opt_quantity(r) == input_value(*self, channel),
    {
        let mut i: usize = 0;
        assert(self.inputs@.skip(0) =~= self.inputs@);
        while i < self.inputs.len()
            invariant
                i <= self.inputs@.len(),
                input_place(self.inputs@, channel) == i + input_place(
                    self.inputs@.skip(i as int),
                    channel,
                ),
            decreases self.inputs@.len() - i,
        {
            assert(self.inputs@.skip(i as int)[0] == self.inputs@[i as int]);
            if self.inputs[i].channel == channel {
                return copied(&self.inputs[i].watts);
            }
            assert(self.inputs@.skip(i as int).drop_first() =~= self.inputs@.skip(i + 1));
            i = i + 1;
        }
        None
    }

    /// The names of the outputs.
    pub fn output_names(&self) -> (r: Vec<String>)
        ensures
            texts(r@) == output_names_of(self.outputs@),
    {
        let mut out: Vec<String> = Vec::new();
        let mut i: usize = 0;
        while i < self.outputs.len()
            invariant
                i <= self.outputs@.len(),
                out@.len() == i,
                forall|k: int| 0 <= k < i ==> (#[trigger] out@[k])@ == self.outputs@[k].name@,
            decreases self.outputs@.len() - i,
        {
            out.push(self.outputs[i].name.clone());
            i = i + 1;
        }
        assert(texts(out@) =~= output_names_of(self.outputs@));
        out
    }
}

/// `/config.txt`. Unused input slots are empty.
#[derive(Debug)]
pub struct DeviceConfig {
    pub inputs: Vec<Option<ConfigInput>>,
}

#[derive(Debug)]
pub struct ConfigInput {
    pub channel: i64,
    pub name: String,
}

/// The channel of the first input with this name, in any case.
pub open spec fn channel_named(inputs: Seq<Option<ConfigInput>>, name: Seq<char>) -> Option<i64>
    decreases inputs.len(),
{
    if inputs.len() == 0 {
        None
    } else {
        match inputs[0] {
            Some(c) if same_folded(trimmed(c.name@), name) => Some(c.channel),
            _ => channel_named(inputs.drop_first(), name),
        }
    }
}

impl DeviceConfig {
    /// The channel of a named input; names match in any case.
    pub fn channel_of(&self, name: &str) -> (r: Option<i64>)
        ensures
            r == channel_named(self.inputs@, trimmed(name@)),
    {
        let want = trim(name);
        let mut i: usize = 0;
        assert(self.inputs@.skip(0) =~= self.inputs@);
        while i < self.inputs.len()
            invariant
                i <= self.inputs@.len(),
                want@ == trimmed(name@),
                channel_named(self.inputs@, want@) == channel_named(
                    self.inputs@.skip(i as int),
                    want@,
                ),
            decreases self.inputs@.len() - i,
        {
            assert(self.inputs@.skip(i as int)[0] == self.inputs@[i as int]);
            match &self.inputs[i] {
                Some(c) => {
                    if eq_ignore_case(trim(c.name.as_str()), want) {
                        return Some(c.channel);
                    }
                },
                None => {},
            }
            assert(self.inputs@.skip(i as int).drop_first() =~= self.inputs@.skip(i + 1));
            i = i + 1;
        }
        None
    }
}

// ---------------- the poller ----------------

/// What the poller tells the screen.
#[derive(Debug, Clone, PartialEq)]
pub enum PowerEvent {
    /// Fresh watts straight from the device. `None` = not configured, or absent from the response.
    Live { house: Option<Quantity>, servers: Option<Quantity> },
    /// The device stopped answering: go back to the Home Assistant sensors.
    Down,
}

/// The model of a `PowerEvent`.
#[verifier::ext_equal]
pub enum PowerEventV {
    Live { house: Option<QuantityV>, servers: Option<QuantityV> },
    Down,
}

impl View for PowerEvent {
    type V = PowerEventV;

    open spec fn view(&self) -> PowerEventV {
        match self {
            PowerEvent::Live { house, servers } => PowerEventV::Live {
                house: opt_quantity(*house),
                servers: opt_quantity(*servers),
            },
            PowerEvent::Down => PowerEventV::Down,
        }
    }
}

/// The spans of polling, from the configured milliseconds.
pub open spec fn paced(poll_interval_ms: u64, timeout_ms: u64) -> (int, int) {
    (
        clamped(poll_interval_ms, MIN_POLL_MS, MAX_POLL_MS) * MILLISECOND,
        clamped(timeout_ms, MIN_TIMEOUT_MS, MAX_TIMEOUT_MS) * MILLISECOND,
    )
}

/// The span between two polls and the span that one may take, from the configured milliseconds.
pub fn timings(poll_interval_ms: u64, timeout_ms: u64) -> (r: (u64, u64))
    ensures
        r.0 == clamped(poll_interval_ms, MIN_POLL_MS, MAX_POLL_MS) * MILLISECOND,
        r.1 == clamped(timeout_ms, MIN_TIMEOUT_MS, MAX_TIMEOUT_MS) * MILLISECOND,
        (r.0 as int, r.1 as int) == paced(poll_interval_ms, timeout_ms),
{
    (
        time::clamp(poll_interval_ms, MIN_POLL_MS, MAX_POLL_MS) * MILLISECOND,
        time::clamp(timeout_ms, MIN_TIMEOUT_MS, MAX_TIMEOUT_MS) * MILLISECOND,
    )
}

/// The polling side of the monitor.
#[derive(Debug)]
pub struct Poller {
    pub house_output: String,
    pub servers_input: String,
    pub give_up_after: u32,
    /// Channel of the named servers input. Cleared whenever the device goes away, so that a
    /// reconfigured monitor is picked up on the way back.
    pub servers_channel: Option<i64>,
    pub name_warned: bool,
    pub failures: u32,
    pub fell_back: bool,
    pub last_error: String,
}

/// The model of a `Poller`.
#[verifier::ext_equal]
pub struct PollerV {
    pub house_output: Seq<char>,
    pub servers_input: Seq<char>,
    pub give_up_after: u32,
    pub servers_channel: Option<i64>,
    pub name_warned: bool,
    pub failures: u32,
    pub fell_back: bool,
    pub last_error: Seq<char>,
}

impl View for Poller {
    type V = PollerV;

    open spec fn view(&self) -> PollerV {
        PollerV {
            house_output: self.house_output@,
            servers_input: self.servers_input@,
            give_up_after: self.give_up_after,
            servers_channel: self.servers_channel,
            name_warned: self.name_warned,
            failures: self.failures,
            fell_back: self.fell_back,
            last_error: self.last_error@,
        }
    }
}

/// What comes of a poll: lines for the journal that somebody should see, and an event.
#[derive(Debug)]
pub struct PollStep {
    pub warnings: Vec<String>,
    pub event: Option<PowerEvent>,
}

/// One more failure counted.
pub open spec fn counted(failures: u32) -> u32 {
    if failures == u32::MAX {
        failures
    } else {
        (failures + 1) as u32
    }
}

/// This failure makes the poller give up on the device.
pub open spec fn gives_up(p: PollerV) -> bool {
    counted(p.failures) >= p.give_up_after && !p.fell_back
}

/// After a failed poll.
pub open spec fn failed_poll(p: PollerV, error: Seq<char>) -> PollerV {
    let q = PollerV { failures: counted(p.failures), last_error: error, ..p };
    if gives_up(p) {
        PollerV { fell_back: true, servers_channel: None, name_warned: false, ..q }
    } else {
        q
    }
}

/// What is warned about after a failed poll: a reason that is new, and giving up.
pub open spec fn failure_warnings(p: PollerV, error: Seq<char>) -> Seq<Seq<char>> {
    let n = decimal(counted(p.failures) as nat);
    let first = if error != p.last_error {
        seq!["iotawatt: "@ + error + " (attempt "@ + n + ")"@]
    } else {
        Seq::empty()
    };
    if gives_up(p) {
        first.push(
            "iotawatt: unreachable after "@ + n
                + " polls, house and servers fall back to the Home Assistant sensors"@,
        )
    } else {
        first
    }
}

/// After an answer.
pub open spec fn answered_poll(p: PollerV) -> PollerV {
    if p.failures > 0 {
        PollerV { failures: 0, fell_back: false, last_error: Seq::empty(), ..p }
    } else {
        p
    }
}

/// The servers' channel is still to be asked for.
pub open spec fn wants_channel(p: PollerV) -> bool {
    p.servers_channel is None && !blank(p.servers_input)
}

/// After the device's configuration was read.
pub open spec fn resolved(p: PollerV, channel: Option<i64>) -> PollerV {
    match channel {
        Some(ch) => PollerV { servers_channel: Some(ch), name_warned: false, ..p },
        None => PollerV { name_warned: true, ..p },
    }
}

/// The house output is configured, and the device does not have it.
pub open spec fn house_missing(p: PollerV, s: Status) -> bool {
    output_value(s, p.house_output) is None && !blank(p.house_output)
}

/// The watts that a status carries.
pub open spec fn live_event(p: PollerV, s: Status) -> PowerEventV {
    PowerEventV::Live {
        house: output_value(s, p.house_output),
        servers: match p.servers_channel {
            Some(ch) => input_value(s, ch),
            None => None,
        },
    }
}

/// A poller before its first poll.
pub open spec fn new_poller(house: Seq<char>, servers: Seq<char>, allowed: u32) -> PollerV {
    PollerV {
        house_output: house,
        servers_input: servers,
        give_up_after: if allowed == 0 {
            1
        } else {
            allowed
        },
        servers_channel: None,
        name_warned: false,
        failures: 0,
        fell_back: false,
        last_error: Seq::empty(),
    }
}

/// What is sent to the screen after a failed poll.
pub open spec fn failure_event(p: PollerV) -> Option<PowerEventV> {
    if gives_up(p) {
        Some(PowerEventV::Down)
    } else {
        None
    }
}

/// A poller that has reported a status.
pub open spec fn reported(p: PollerV, s: Status) -> PollerV {
    PollerV { name_warned: p.name_warned || house_missing(p, s), ..p }
}

/// How many warnings a status gives.
pub open spec fn status_warnings(p: PollerV, s: Status) -> nat {
    if house_missing(p, s) && !p.name_warned {
        1
    } else {
        0
    }
}

/// A name that the device does not have is worth a warning.
pub open spec fn channel_warned(p: PollerV, channel: Option<i64>) -> bool {
    channel is None && !p.name_warned
}

/// A list of texts as an error message shows it.
pub open spec fn list_text(names: Seq<Seq<char>>) -> Seq<char> {
    "["@ + joined(names.map_values(|n: Seq<char>| debug_text(n)), ", "@) + "]"@
}

fn list_of(names: &Vec<String>) -> (r: String)
    ensures
        r@ == list_text(texts(names@)),
{
    let mut q: Vec<String> = Vec::new();
    let mut i: usize = 0;
    while i < names.len()
        invariant
            i <= names@.len(),
            q@.len() == i,
            forall|k: int| 0 <= k < i ==> (#[trigger] q@[k])@ == debug_text(names@[k]@),
        decreases names@.len() - i,
    {
        q.push(quoted(names[i].as_str()));
        i = i + 1;
    }
    assert(texts(q@) =~= texts(names@).map_values(|n: Seq<char>| debug_text(n)));
    let mut out = concat("[", crate::text::join(&q, ", ").as_str());
    out.append("]");
    out
}

impl Poller {
    /// A poller that gives up after so many failures in a row, at least one.
    pub fn new(house_output: &str, servers_input: &str, failures_before_fallback: u32) -> (r: Poller)
        ensures
            r@ == (PollerV {
                house_output: house_output@,
                servers_input: servers_input@,
                give_up_after: if failures_before_fallback == 0 {
                    1
                } else {
                    failures_before_fallback
                },
                servers_channel: None,
                name_warned: false,
                failures: 0,
                fell_back: false,
                last_error: Seq::empty(),
            }),
            r@ == new_poller(house_output@, servers_input@, failures_before_fallback),
    {
        Poller {
            house_output: house_output.to_string(),
            servers_input: servers_input.to_string(),
            give_up_after: if failures_before_fallback == 0 { 1 } else { failures_before_fallback },
            servers_channel: None,
            name_warned: false,
            failures: 0,
            fell_back: false,
            last_error: String::new(),
        }
    }

    /// A poll failed.
    pub fn on_failure(&mut self, error: String) -> (r: PollStep)
        ensures
            final(self)@ == failed_poll(old(self)@, error@),
            texts(r.warnings@) == failure_warnings(old(self)@, error@),
            match r.event {
                Some(e) => gives_up(old(self)@) && e@ == PowerEventV::Down,
                None => !gives_up(old(self)@),
            },
            (match r.event {
                Some(e) => Some(e@),
                None => None,
            }) == failure_event(old(self)@),
    {
        let ghost p = self@;
        let mut warnings: Vec<String> = Vec::new();
        if self.failures < u32::MAX {
            self.failures = self.failures + 1;
        }
        if !same(error.as_str(), self.last_error.as_str()) {
            let mut m = concat("iotawatt: ", error.as_str());
            m.append(" (attempt ");
            push_decimal(&mut m, self.failures as u64);
            m.append(")");
            warnings.push(m);
        }
        self.last_error = error;
        let mut event = None;
        if self.failures >= self.give_up_after && !self.fell_back {
            let mut m = "iotawatt: unreachable after ".to_string();
            push_decimal(&mut m, self.failures as u64);
            m.append(" polls, house and servers fall back to the Home Assistant sensors");
            warnings.push(m);
            self.fell_back = true;
            self.servers_channel = None;
            self.name_warned = false;
            event = Some(PowerEvent::Down);
        }
        assert(texts(warnings@) =~= failure_warnings(p, error@));
        PollStep { warnings, event }
    }

    /// The device answered. Whether the servers' channel is to be asked for.
    pub fn on_answer(&mut self) -> (r: bool)
        ensures
            final(self)@ == answered_poll(old(self)@),
            r == wants_channel(final(self)@),
    {
        if self.failures > 0 {
            self.failures = 0;
            self.fell_back = false;
            self.last_error = String::new();
        }
        self.servers_channel.is_none() && !is_blank(self.servers_input.as_str())
    }

    /// The device's configuration was read: it has the input on this channel, or no such input.
    /// The latter is warned about once.
    pub fn on_channel(&mut self, channel: Option<i64>) -> (r: Option<String>)
        ensures
            final(self)@ == resolved(old(self)@, channel),
            match r {
                Some(m) => channel is None && !old(self).name_warned && m@
                    == "iotawatt: no input named "@ + debug_text(old(self).servers_input@)
                    + " on the device, the servers value stays on Home Assistant"@,
                None => channel is Some || old(self).name_warned,
            },
            r is Some <==> channel_warned(old(self)@, channel),
    {
        match channel {
            Some(ch) => {
                self.servers_channel = Some(ch);
                self.name_warned = false;
                None
            },
            None => {
                if self.name_warned {
                    return None;
                }
                self.name_warned = true;
                let mut m = concat(
                    "iotawatt: no input named ",
                    quoted(self.servers_input.as_str()).as_str(),
                );
                m.append(" on the device, the servers value stays on Home Assistant");
                Some(m)
            },
        }
    }

    /// A status to report. An output that the device does not have is warned about once.
    pub fn on_status(&mut self, status: &Status) -> (r: PollStep)
        ensures
            final(self)@ == (PollerV {
                name_warned: old(self).name_warned || house_missing(old(self)@, *status),
                ..old(self)@
            }),
            r.event matches Some(e) && e@ == live_event(old(self)@, *status),
            texts(r.warnings@) == if house_missing(old(self)@, *status) && !old(self).name_warned {
                seq![
                    "iotawatt: no output named "@ + debug_text(old(self).house_output@)
                        + " on the device (it has "@ + list_text(
                        output_names_of(status.outputs@),
                    ) + ")"@,
                ]
            } else {
                Seq::empty()
            },
            final(self)@ == reported(old(self)@, *status),
            r.warnings@.len() == status_warnings(old(self)@, *status),
    {
        let mut warnings: Vec<String> = Vec::new();
        let house = status.output_watts(self.house_output.as_str());
        if house.is_none() && !is_blank(self.house_output.as_str()) && !self.name_warned {
            let mut m = concat(
                "iotawatt: no output named ",
                quoted(self.house_output.as_str()).as_str(),
            );
            m.append(" on the device (it has ");
            m.append(list_of(&status.output_names()).as_str());
            m.append(")");
            warnings.push(m);
            self.name_warned = true;
        }
        let servers = match self.servers_channel {
            Some(ch) => status.input_watts(ch),
            None => None,
        };
        proof {
            let want = if house_missing(old(self)@, *status) && !old(self).name_warned {
                seq![
                    "iotawatt: no output named "@ + debug_text(old(self).house_output@)
                        + " on the device (it has "@ + list_text(
                        output_names_of(status.outputs@),
                    ) + ")"@,
                ]
            } else {
                Seq::empty()
            };
            assert(texts(warnings@) =~= want);
        }
        PollStep { warnings, event: Some(PowerEvent::Live { house, servers }) }
    }
}

} // verus!
