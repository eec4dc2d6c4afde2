//! HTTP/1.1 as the Firecracker API speaks it over a Unix socket: the text of a
//! request, and a reader that takes a response in whatever pieces it arrives,
//! headers first and then exactly as many bytes as they announce.

use crate::scan::{self, eq_ignore_ascii_case, lines_of, parse_number, second_word_of,
    split_at_colon, trim};
use crate::text::{self, decimal};
use vstd::prelude::*;
use vstd::utf8;

verus! {

// ------------------------------------------------------------------- requests

/// The head of a request with a body of `len` bytes, and of JSON if there is
/// one.
pub open spec fn request_head_text(method: Seq<char>, path: Seq<char>, len: nat) -> Seq<char> {
    let head = method + " "@ + path
        + " HTTP/1.1\r\nHost: localhost\r\nConnection: close\r\nContent-Length: "@ + text::dec(len)
        + "\r\n"@;
    (if len > 0 {
        head + "Content-Type: application/json\r\n"@
    } else {
        head
    }) + "\r\n"@
}

/// The head of a request; the body follows it as it is.
pub fn request_head(method: &str, path: &str, body: &str) -> (r: String)
    ensures
        r@ == request_head_text(method@, path@, utf8::encode_utf8(body@).len()),
{
    let len = text::byte_len(body);
    let digits = decimal(len as u64);
    let mut out = text::cat3(method, " ", path);
    out.append(" HTTP/1.1\r\nHost: localhost\r\nConnection: close\r\nContent-Length: ");
    out.append(digits.as_str());
    out.append("\r\n");
    if len > 0 {
        out.append("Content-Type: application/json\r\n");
    }
    out.append("\r\n");
    out
}

// ------------------------------------------------------------ response headers

/// Why a response is no answer, or no good one.
#[derive(Debug)]
pub enum HttpError {
    /// The head holds no line.
    NoStatusLine,
    /// The status line has no second word.
    NoStatusCode,
    /// The second word of the status line is no number below 65536, for the
    /// reason given.
    BadStatusCode { reason: String },
    /// The connection ended before the head was complete.
    ClosedInHead,
    /// The connection ended with `have` of `want` bytes of the body.
    ClosedInBody { have: usize, want: usize },
    /// The status is not in the 200s; `body` is what the server said.
    Refused { status: u16, body: String },
}

impl HttpError {
    /// The error in words, for a request with `method` to `path`.
    pub open spec fn text(&self, method: Seq<char>, path: Seq<char>) -> Seq<char> {
        match *self {
            HttpError::NoStatusLine => "malformed HTTP response: no status line"@,
            HttpError::NoStatusCode => "malformed HTTP status line"@,
            HttpError::BadStatusCode { reason } => "non-numeric HTTP status code: "@ + reason@,
            HttpError::ClosedInHead => {
                "Firecracker closed the connection before sending a complete response header"@
            },
            HttpError::ClosedInBody { have, want } => {
                "Firecracker closed the connection with only "@ + text::dec(have as nat) + "/"@
                    + text::dec(want as nat) + " body bytes sent"@
            },
            HttpError::Refused { status, body } => {
                "Firecracker "@ + method + " "@ + path + " -> HTTP "@ + text::dec(status as nat)
                    + ": "@ + body@
            },
        }
    }

    pub fn message(&self, method: &str, path: &str) -> (r: String)
        ensures
            r@ == self.text(method@, path@),
    {
        match self {
            HttpError::NoStatusLine => "malformed HTTP response: no status line".to_owned(),
            HttpError::NoStatusCode => "malformed HTTP status line".to_owned(),
            HttpError::BadStatusCode { reason } => text::cat2(
                "non-numeric HTTP status code: ",
                reason.as_str(),
            ),
            HttpError::ClosedInHead => {
                "Firecracker closed the connection before sending a complete response header".to_owned()
            },
            HttpError::ClosedInBody { have, want } => {
                let have = decimal(*have as u64);
                let want = decimal(*want as u64);
                text::cat5(
                    "Firecracker closed the connection with only ",
                    have.as_str(),
                    "/",
                    want.as_str(),
                    " body bytes sent",
                )
            },
            HttpError::Refused { status, body } => {
                let status = decimal(*status as u64);
                let mut out = text::cat5("Firecracker ", method, " ", path, " -> HTTP ");
                out.append(status.as_str());
                out.append(": ");
                out.append(body.as_str());
                out
            },
        }
    }
}

/// What the head of a response says.
#[derive(Debug, Clone, Copy, PartialEq, Eq, Structural)]
pub struct Head {
    pub status: u16,
    pub content_length: usize,
}

/// What can be wrong with the head of a response.
pub enum HeadView {
    NoStatusLine,
    NoStatusCode,
    /// The word in place of the status is no status.
    BadStatusCode(Seq<char>),
    Good(Head),
}

/// The line is a `Content-Length` header, whatever the case of its name.
pub open spec fn is_length_line(line: Seq<char>) -> bool {
    match scan::split_colon(line) {
        Some(kv) => scan::equal_ignoring_case(kv.0, "content-length"@),
        None => false,
    }
}

/// The length that the first `Content-Length` header gives; 0 without one and
/// for one that is no number.
pub open spec fn announced_length(lines: Seq<Seq<char>>) -> nat
    decreases lines.len(),
{
    if lines.len() == 0 {
        0
    } else if is_length_line(lines[0]) {
        match scan::number_up_to(scan::trimmed((scan::split_colon(lines[0])->0).1), usize::MAX as nat) {
            Some(n) => n,
            None => 0,
        }
    } else {
        announced_length(lines.skip(1))
    }
}

/// What is said of a word that is no status.
pub uninterp spec fn status_complaint(word: Seq<char>) -> Seq<char>;

/// The `Display` form of the error that `str::parse` into a `u16` gives: the same
/// word is always refused in the same words. Which words these are is left
/// unsaid. `requires` leaves out the numbers below 65536, which are not refused.
#[verifier::external_body]
fn complain(word: &str) -> (r: String)
    requires
        scan::number_up_to(word@, u16::MAX as nat) is None,
    ensures
        r@ == status_complaint(word@),
{
    match word.parse::<u16>() {
        Ok(_) => String::new(),
        Err(e) => e.to_string(),
    }
}

/// The head of a response, read as text.
pub open spec fn head_of(head: Seq<char>) -> HeadView {
    let lines = scan::lines(head);
    if lines.len() == 0 {
        HeadView::NoStatusLine
    } else {
        match scan::second_word(lines[0]) {
            None => HeadView::NoStatusCode,
            Some(word) => match scan::number_up_to(word, u16::MAX as nat) {
                None => HeadView::BadStatusCode(word),
                Some(status) => HeadView::Good(
                    Head {
                        status: status as u16,
                        content_length: announced_length(lines.skip(1)) as usize,
                    },
                ),
            },
        }
    }
}

fn length_in(lines: &Vec<String>) -> (r: usize)
    requires
        lines@.len() > 0,
    ensures
        r == announced_length(text::views(lines@).skip(1)),
{
    let ghost all = text::views(lines@);
    let mut i: usize = 1;
    while i < lines.len()
        invariant
            1 <= i <= lines@.len(),
            all == text::views(lines@),
            announced_length(all.skip(i as int)) == announced_length(all.skip(1)),
        decreases lines@.len() - i,
    {
        proof {
            assert(all.skip(i as int)[0] == lines@[i as int]@);
            assert(all.skip(i as int).skip(1) =~= all.skip(i + 1));
        }
        if let Some((key, value)) = split_at_colon(lines[i].as_str()) {
            if eq_ignore_ascii_case(key.as_str(), "content-length") {
                let value = trim(value.as_str());
                return match parse_number(value.as_str(), usize::MAX as u64) {
                    Some(n) => n as usize,
                    None => 0,
                };
            }
        }
        i += 1;
    }
    0
}

/// Reads the head of a response.
pub fn parse_head(head: &str) -> (r: Result<Head, HttpError>)
    ensures
        match r {
            Ok(h) => head_of(head@) == HeadView::Good(h),
            Err(HttpError::NoStatusLine) => head_of(head@) is NoStatusLine,
            Err(HttpError::NoStatusCode) => head_of(head@) is NoStatusCode,
            Err(HttpError::BadStatusCode { reason }) => head_of(head@) is BadStatusCode && reason@
                == status_complaint(head_of(head@)->BadStatusCode_0),
            Err(_) => false,
        },
{
    let lines = lines_of(head);
    if lines.len() == 0 {
        return Err(HttpError::NoStatusLine);
    }
    proof {
        assert(scan::lines(head@)[0] == lines@[0]@);
    }
    let word = match second_word_of(lines[0].as_str()) {
        Some(w) => w,
        None => {
            return Err(HttpError::NoStatusCode);
        },
    };
    let status = match parse_number(word.as_str(), 65535) {
        Some(n) => n,
        None => {
            return Err(HttpError::BadStatusCode { reason: complain(word.as_str()) });
        },
    };
    let content_length = length_in(&lines);
    Ok(Head { status: status as u16, content_length })
}

// -------------------------------------------------------------------- reading

/// An empty line ends the head at `k`: CR LF CR LF stands there.
pub open spec fn ends_head_at(raw: Seq<u8>, k: int) -> bool {
    0 <= k && k + 4 <= raw.len() && raw[k] == 13 && raw[k + 1] == 10 && raw[k + 2] == 13 && raw[k
        + 3] == 10
}

/// The first place from `k` on at which the head ends.
pub open spec fn head_end_from(raw: Seq<u8>, k: int) -> Option<int>
    decreases raw.len() - k,
{
    if k < 0 || k + 4 > raw.len() {
        None
    } else if ends_head_at(raw, k) {
        Some(k)
    } else {
        head_end_from(raw, k + 1)
    }
}

/// What the bytes received so far amount to.
pub enum Received {
    /// The head is not complete.
    PartOfHead,
    /// The head is complete and makes no sense.
    BadHead(HeadView),
    /// `have` bytes of a longer body are there.
    PartOfBody { have: nat, want: nat },
    /// The response is complete.
    Complete { status: u16, body: Seq<u8> },
}

pub open spec fn received(raw: Seq<u8>) -> Received {
    match head_end_from(raw, 0) {
        None => Received::PartOfHead,
        Some(end) => match head_of(text::utf8_lossy(raw.take(end))) {
            HeadView::Good(head) => {
                let body = raw.skip(end + 4);
                if body.len() < head.content_length {
                    Received::PartOfBody { have: body.len(), want: head.content_length as nat }
                } else {
                    Received::Complete {
                        status: head.status,
                        body: body.take(head.content_length as int),
                    }
                }
            },
            bad => Received::BadHead(bad),
        },
    }
}

/// How far a reader has come.
#[derive(Debug)]
pub enum Progress {
    /// More bytes are needed.
    More,
    /// The head makes no sense.
    Failed(HttpError),
    /// The response is complete.
    Complete { status: u16, body: Vec<u8> },
}

/// A response in the course of arriving.
pub struct ResponseReader {
    raw: Vec<u8>,
    head: Option<(usize, Head)>,
}

impl ResponseReader {
    /// The bytes received so far.
    pub closed spec fn bytes(&self) -> Seq<u8> {
        self.raw@
    }

    /// The head that is kept is the head of what was received.
    pub closed spec fn wf(&self) -> bool {
        match self.head {
            Some((end, head)) => head_end_from(self.raw@, 0) == Some(end as int) && head_of(
                text::utf8_lossy(self.raw@.take(end as int)),
            ) == HeadView::Good(head),
            None => true,
        }
    }

    pub fn new() -> (r: Self)
        ensures
            r.wf(),
            r.bytes() == Seq::<u8>::empty(),
    {
        ResponseReader { raw: Vec::new(), head: None }
    }

    /// Takes the next piece of the response and says what has arrived.
    pub fn feed(&mut self, chunk: &[u8]) -> (r: Progress)
        requires
            old(self).wf(),
        ensures
            final(self).wf(),
            final(self).bytes() == old(self).bytes() + chunk@,
            match r {
                Progress::More => received(final(self).bytes()) is PartOfHead || received(
                    final(self).bytes(),
                ) is PartOfBody,
                Progress::Failed(HttpError::NoStatusLine) => received(final(self).bytes())
                    == Received::BadHead(HeadView::NoStatusLine),
                Progress::Failed(HttpError::NoStatusCode) => received(final(self).bytes())
                    == Received::BadHead(HeadView::NoStatusCode),
                Progress::Failed(HttpError::BadStatusCode { reason }) => received(
                    final(self).bytes(),
                ) matches Received::BadHead(HeadView::BadStatusCode(word)) && reason@
                    == status_complaint(word),
                Progress::Failed(_) => false,
                Progress::Complete { status, body } => received(final(self).bytes())
                    == (Received::Complete { status, body: body@ }),
            },
    {
        let ghost before = self.raw@;
        self.raw.extend_from_slice(chunk);
        proof {
            assert(self.raw@ =~= before + chunk@);
            if self.head is Some {
                let end = (self.head->0).0 as int;
                lemma_head_end_stays(before, chunk@, 0, end);
                assert(self.raw@.take(end) =~= before.take(end));
            }
        }
        if self.head.is_none() {
            match find_head_end(&self.raw) {
                None => {
                    return Progress::More;
                },
                Some(end) => {
                    let head_bytes = prefix(&self.raw, end);
                    let head_text = text::text_lossy(&head_bytes);
                    match parse_head(head_text.as_str()) {
                        Ok(head) => {
                            self.head = Some((end, head));
                        },
                        Err(e) => {
                            return Progress::Failed(e);
                        },
                    }
                },
            }
        }
        match self.head {
            None => Progress::More,
            Some((end, head)) => {
                proof {
                    lemma_head_end(self.raw@, 0);
                }
                let have: usize = self.raw.len() - end - 4;
                if have < head.content_length {
                    Progress::More
                } else {
                    let body = middle(&self.raw, end + 4, end + 4 + head.content_length);
                    proof {
                        assert(body@ =~= self.raw@.skip(end + 4).take(head.content_length as int));
                    }
                    Progress::Complete { status: head.status, body }
                }
            },
        }
    }

    /// The connection ended although more was needed.
    pub fn closed(&self) -> (r: HttpError)
        requires
            self.wf(),
            received(self.bytes()) is PartOfHead || received(self.bytes()) is PartOfBody,
        ensures
            match r {
                HttpError::ClosedInHead => received(self.bytes()) is PartOfHead,
                HttpError::ClosedInBody { have, want } => received(self.bytes())
                    == (Received::PartOfBody { have: have as nat, want: want as nat }),
                _ => false,
            },
    {
        match find_head_end(&self.raw) {
            None => HttpError::ClosedInHead,
            Some(end) => {
                let head_bytes = prefix(&self.raw, end);
                let head_text = text::text_lossy(&head_bytes);
                proof {
                    lemma_head_end(self.raw@, 0);
                }
                match parse_head(head_text.as_str()) {
                    Ok(head) => HttpError::ClosedInBody {
                        have: self.raw.len() - end - 4,
                        want: head.content_length,
                    },
                    Err(e) => e,
                }
            },
        }
    }
}

fn prefix(v: &Vec<u8>, n: usize) -> (r: Vec<u8>)
    requires
        n <= v@.len(),
    ensures
        r@ == v@.take(n as int),
{
    let r = middle(v, 0, n);
    proof {
        assert(r@ =~= v@.take(n as int));
    }
    r
}

fn middle(v: &Vec<u8>, from: usize, to: usize) -> (r: Vec<u8>)
    requires
        from <= to <= v@.len(),
    ensures
        r@ == v@.subrange(from as int, to as int),
{
    let mut out: Vec<u8> = Vec::new();
    let mut i: usize = from;
    while i < to
        invariant
            from <= i <= to <= v@.len(),
            out@ == v@.subrange(from as int, i as int),
        decreases to - i,
    {
        out.push(v[i]);
        proof {
            assert(v@.subrange(from as int, i + 1) =~= v@.subrange(from as int, i as int).push(
                v@[i as int],
            ));
        }
        i += 1;
    }
    out
}

fn find_head_end(raw: &Vec<u8>) -> (r: Option<usize>)
    ensures
        match r {
            Some(end) => head_end_from(raw@, 0) == Some(end as int) && end + 4 <= raw@.len(),
            None => head_end_from(raw@, 0) is None,
        },
{
    if raw.len() < 4 {
        return None;
    }
    let mut k: usize = 0;
    while k <= raw.len() - 4
        invariant
            4 <= raw@.len(),
            k <= raw@.len() - 3,
            head_end_from(raw@, k as int) == head_end_from(raw@, 0),
        decreases raw@.len() - k,
    {
        if raw[k] == 13 && raw[k + 1] == 10 && raw[k + 2] == 13 && raw[k + 3] == 10 {
            return Some(k);
        }
        k += 1;
    }
    None
}

proof fn lemma_head_end(raw: Seq<u8>, k: int)
    requires
        0 <= k,
    ensures
        head_end_from(raw, k) is Some ==> ends_head_at(raw, head_end_from(raw, k)->0)
            && head_end_from(raw, k)->0 >= k,
    decreases raw.len() - k,
{
    if k + 4 <= raw.len() && !ends_head_at(raw, k) {
        lemma_head_end(raw, k + 1);
    }
}

/// More bytes do not move the end of the head.
proof fn lemma_head_end_stays(raw: Seq<u8>, more: Seq<u8>, k: int, end: int)
    requires
        0 <= k,
        head_end_from(raw, k) == Some(end),
    ensures
        head_end_from(raw + more, k) == Some(end),
        k <= end,
        end + 4 <= raw.len(),
    decreases raw.len() - k,
{
    if !ends_head_at(raw, k) {
        assert(!ends_head_at(raw + more, k));
        lemma_head_end_stays(raw, more, k + 1, end);
    }
}

/// A response that is complete stays what it is, whatever bytes follow it: the
/// reader never waits for the connection to close.
pub proof fn complete_response_is_final(raw: Seq<u8>, more: Seq<u8>)
    requires
        received(raw) is Complete || received(raw) is BadHead,
    ensures
        received(raw + more) == received(raw),
{
    let end = head_end_from(raw, 0)->0;
    lemma_head_end_stays(raw, more, 0, end);
    assert((raw + more).take(end) =~= raw.take(end));
    if received(raw) is Complete {
        let head = head_of(text::utf8_lossy(raw.take(end)))->Good_0;
        assert((raw + more).skip(end + 4).take(head.content_length as int) =~= raw.skip(
            end + 4,
        ).take(head.content_length as int));
    }
}

// -------------------------------------------------------------------- verdict

/// Turns a complete response into success or failure: success is a status in
/// the 200s.
pub fn conclude(status: u16, body: Vec<u8>) -> (r: Result<(), HttpError>)
    ensures
        r is Ok <==> 200 <= status < 300,
        match r {
            Ok(_) => true,
            Err(HttpError::Refused { status: s, body: b }) => s == status && b@
                == text::utf8_lossy(body@),
            Err(_) => false,
        },
{
    if status < 200 || status >= 300 {
        let said = text::text_lossy(&body);
        return Err(HttpError::Refused { status, body: said });
    }
    Ok(())
}

// ------------------------------------------------------------------------ laws

/// A request names its method and its path, announces as many bytes as its body
/// has, and JSON if it has any, and ends its head with an empty line.
#[verifier::spinoff_prover]
#[verifier::rlimit(50)]
pub proof fn a_request_announces_its_body(method: Seq<char>, path: Seq<char>, len: nat)
    ensures
        ({
            let head = request_head_text(method, path, len);
            let first = method + " "@ + path + " HTTP/1.1\r\n"@;
            &&& head.len() >= first.len() + 4
            &&& head.take(first.len() as int) == first
            &&& head.skip(head.len() - 4) == "\r\n\r\n"@
            &&& text::holds(head, "\r\nContent-Length: "@ + text::dec(len) + "\r\n"@)
            &&& text::holds(head, "\r\nHost: localhost\r\n"@)
            &&& text::holds(head, "\r\nConnection: close\r\n"@)
            &&& len > 0 ==> text::holds(head, "\r\nContent-Type: application/json\r\n"@)
            &&& len == 0 ==> head == method + " "@ + path
                + " HTTP/1.1\r\nHost: localhost\r\nConnection: close\r\nContent-Length: 0\r\n\r\n"@
        }),
{
    reveal_strlit(" ");
    reveal_strlit("\r\n");
    reveal_strlit("\r\n\r\n");
    reveal_strlit(" HTTP/1.1\r\n");
    reveal_strlit(" HTTP/1.1");
    reveal_strlit("Host: localhost\r\n");
    reveal_strlit("\r\nHost: localhost\r\n");
    reveal_strlit("Connection: close");
    reveal_strlit("\r\nConnection: close\r\n");
    reveal_strlit("\r\nContent-Length: ");
    reveal_strlit("Content-Length: ");
    reveal_strlit("Content-Type: application/json\r\n");
    reveal_strlit("\r\nContent-Type: application/json\r\n");
    reveal_strlit(" HTTP/1.1\r\nHost: localhost\r\nConnection: close\r\nContent-Length: ");
    reveal_strlit(
        " HTTP/1.1\r\nHost: localhost\r\nConnection: close\r\nContent-Length: 0\r\n\r\n",
    );
    let head = request_head_text(method, path, len);
    let line = method + " "@ + path;
    let fixed = " HTTP/1.1\r\nHost: localhost\r\nConnection: close\r\nContent-Length: "@;
    let digits = text::dec(len);
    let tail = if len > 0 {
        "Content-Type: application/json\r\n"@ + "\r\n"@
    } else {
        "\r\n"@
    };
    assert(head =~= line + fixed + digits + "\r\n"@ + tail);
    let first = line + " HTTP/1.1\r\n"@;
    assert(head.take(first.len() as int) =~= first);
    assert(head.skip(head.len() - 4) =~= "\r\n\r\n"@);
    assert(fixed =~= " HTTP/1.1"@ + "\r\nHost: localhost\r\n"@ + "Connection: close"@
        + "\r\nContent-Length: "@);
    text::lemma_holds(
        line + " HTTP/1.1"@,
        "\r\nHost: localhost\r\n"@,
        "Connection: close"@ + "\r\nContent-Length: "@ + digits + "\r\n"@ + tail,
        line + " HTTP/1.1"@ + "\r\nHost: localhost\r\n"@ + ("Connection: close"@
            + "\r\nContent-Length: "@ + digits + "\r\n"@ + tail),
    );
    assert(head =~= line + " HTTP/1.1"@ + "\r\nHost: localhost\r\n"@ + ("Connection: close"@
        + "\r\nContent-Length: "@ + digits + "\r\n"@ + tail));
    let a = line + " HTTP/1.1\r\n"@ + "Host: localhost"@;
    reveal_strlit("Host: localhost");
    assert(head =~= a + "\r\nConnection: close\r\n"@ + ("Content-Length: "@ + digits + "\r\n"@
        + tail));
    text::lemma_holds(
        a,
        "\r\nConnection: close\r\n"@,
        "Content-Length: "@ + digits + "\r\n"@ + tail,
        head,
    );
    let b = a + "\r\n"@ + "Connection: close"@;
    let announced = "\r\nContent-Length: "@ + digits + "\r\n"@;
    assert(head =~= b + announced + tail);
    text::lemma_holds(b, announced, tail, head);
    if len > 0 {
        let c = b + "\r\nContent-Length: "@ + digits;
        assert(head =~= c + "\r\nContent-Type: application/json\r\n"@ + "\r\n"@);
        text::lemma_holds(
            c,
            "\r\nContent-Type: application/json\r\n"@,
            "\r\n"@,
            head,
        );
    } else {
        assert(digits =~= seq!['0']);
        assert(head =~= line
            + " HTTP/1.1\r\nHost: localhost\r\nConnection: close\r\nContent-Length: 0\r\n\r\n"@);
    }
}

/// The length of a body is what the first header called `Content-Length` says,
/// whatever the case of its name and the white space around the number; without
/// one, or with one that is no number, there is no body.
pub proof fn the_first_length_counts(lines: Seq<Seq<char>>, i: int)
    ensures
        (forall|j: int| 0 <= j < lines.len() ==> !is_length_line(#[trigger] lines[j]))
            ==> announced_length(lines) == 0,
        0 <= i < lines.len() && is_length_line(lines[i]) && (forall|j: int|
            0 <= j < i ==> !is_length_line(#[trigger] lines[j])) ==> {
            let n = scan::number_up_to(
                scan::trimmed((scan::split_colon(lines[i])->0).1),
                usize::MAX as nat,
            );
            &&& n is Some ==> announced_length(lines) == n->0
            &&& n is None ==> announced_length(lines) == 0
        },
    decreases lines.len(),
{
    if lines.len() > 0 {
        let rest = lines.skip(1);
        the_first_length_counts(rest, i - 1);
        if forall|j: int| 0 <= j < lines.len() ==> !is_length_line(#[trigger] lines[j]) {
            assert(!is_length_line(lines[0]));
            assert forall|j: int| 0 <= j < rest.len() implies !is_length_line(
                #[trigger] rest[j],
            ) by {
                assert(rest[j] == lines[j + 1]);
            }
        }
        if 0 < i < lines.len() && is_length_line(lines[i]) && (forall|j: int|
            0 <= j < i ==> !is_length_line(#[trigger] lines[j])) {
            assert(!is_length_line(lines[0]));
            assert(rest[i - 1] == lines[i]);
            assert forall|j: int| 0 <= j < i - 1 implies !is_length_line(#[trigger] rest[j]) by {
                assert(rest[j] == lines[j + 1]);
            }
        }
    }
}

/// A header gives the length if and only if its name is `Content-Length`, in
/// capital or small letters.
pub proof fn a_header_is_told_by_its_name(key: Seq<char>, value: Seq<char>)
    requires
        !key.contains(':'),
    ensures
        is_length_line(key + seq![':'] + value) <==> scan::equal_ignoring_case(
            key,
            "content-length"@,
        ),
        !is_length_line(key),
{
    scan::a_header_is_split_at_its_first_colon(key, value);
}

/// The status of a response is the number behind the first blank of its first
/// line; the headers follow on the other lines.
pub proof fn the_status_is_on_the_first_line(
    version: Seq<char>,
    status: u16,
    rest: Seq<char>,
    headers: Seq<char>,
)
    requires
        version.len() > 0,
        forall|i: int| 0 <= i < version.len() ==> !scan::is_space(#[trigger] version[i]),
        rest.len() == 0 || scan::is_space(rest[0]),
        !rest.contains('\n'),
    ensures
        ({
            let line = version + seq![' '] + text::dec(status as nat) + rest;
            head_of(line + seq!['\r', '\n'] + headers) == HeadView::Good(
                Head {
                    status,
                    content_length: announced_length(scan::lines(headers)) as usize,
                },
            )
        }),
{
    let digits = text::dec(status as nat);
    let line = version + seq![' '] + digits + rest;
    let whole = line + seq!['\r', '\n'] + headers;
    text::a_number_is_written_in_digits(status as nat);
    scan::a_written_number_is_read_back(status as nat);
    assert forall|i: int| 0 <= i < digits.len() implies !scan::is_space(#[trigger] digits[i]) by {}
    assert(!line.contains('\n')) by {
        assert forall|i: int| 0 <= i < line.len() implies line[i] != '\n' by {
            let v = version.len() as int;
            let d = digits.len() as int;
            if i < v {
                assert(!scan::is_space(version[i]));
            } else if v < i <= v + d {
                assert(line[i] == digits[i - v - 1]);
                assert(!scan::is_space(digits[i - v - 1]));
            } else if i > v + d {
                assert(line[i] == rest[i - v - d - 1]);
                assert(rest.contains(rest[i - v - d - 1]));
            }
        }
    }
    scan::lines_are_split_at_line_feeds(line, headers);
    scan::the_second_word_follows_the_first(version, digits, rest);
    let all = scan::lines(whole);
    assert(all == seq![line] + scan::lines(headers));
    assert(all[0] == line);
    assert(all.skip(1) =~= scan::lines(headers));
}

/// A response is complete once the bytes that its head announces have arrived
/// behind the first empty line, and these are its body; before that it is not, and
/// what is missing is known.
pub proof fn the_body_is_what_is_announced(raw: Seq<u8>)
    ensures
        received(raw) is PartOfHead <==> forall|k: int| !#[trigger] ends_head_at(raw, k),
        received(raw) is Complete || received(raw) is PartOfBody ==> exists|end: int|
            {
                let head = head_of(text::utf8_lossy(raw.take(end)))->Good_0;
                &&& #[trigger] ends_head_at(raw, end)
                &&& forall|k: int| 0 <= k < end ==> !#[trigger] ends_head_at(raw, k)
                &&& head_of(text::utf8_lossy(raw.take(end))) is Good
                &&& raw.len() - end - 4 >= head.content_length ==> received(raw) == (
                Received::Complete {
                    status: head.status,
                    body: raw.subrange(end + 4, end + 4 + head.content_length),
                })
                &&& raw.len() - end - 4 < head.content_length ==> received(raw) == (
                Received::PartOfBody {
                    have: (raw.len() - end - 4) as nat,
                    want: head.content_length as nat,
                })
            },
{
    lemma_head_end_is_first(raw, 0);
    if head_end_from(raw, 0) is Some {
        let end = head_end_from(raw, 0)->0;
        assert(ends_head_at(raw, end));
        if head_of(text::utf8_lossy(raw.take(end))) is Good {
            let head = head_of(text::utf8_lossy(raw.take(end)))->Good_0;
            assert(head_of(text::utf8_lossy(raw.take(end))) == HeadView::Good(head));
            if raw.len() - end - 4 >= head.content_length {
                assert(raw.skip(end + 4).take(head.content_length as int) =~= raw.subrange(
                    end + 4,
                    end + 4 + head.content_length,
                ));
            }
        }
    }
}

proof fn lemma_head_end_is_first(raw: Seq<u8>, k: int)
    requires
        0 <= k,
    ensures
        head_end_from(raw, k) matches Some(end) ==> ends_head_at(raw, end) && k <= end && forall|
            j: int,
        |
            k <= j < end ==> !#[trigger] ends_head_at(raw, j),
        head_end_from(raw, k) is None ==> forall|j: int|
            k <= j ==> !#[trigger] ends_head_at(raw, j),
    decreases raw.len() - k,
{
    if k + 4 <= raw.len() && !ends_head_at(raw, k) {
        lemma_head_end_is_first(raw, k + 1);
    }
}

/// What went wrong with a request is told with its method and path and with what
/// the server said, or with how much of the body had arrived.
pub proof fn errors_tell_what_was_said(
    method: Seq<char>,
    path: Seq<char>,
    status: u16,
    body: String,
    have: usize,
    want: usize,
)
    ensures
        (HttpError::Refused { status, body }).text(method, path) == "Firecracker "@ + method + " "@
            + path + " -> HTTP "@ + text::dec(status as nat) + ": "@ + body@,
        (HttpError::ClosedInBody { have, want }).text(method, path)
            == "Firecracker closed the connection with only "@ + text::dec(have as nat) + "/"@
            + text::dec(want as nat) + " body bytes sent"@,
        (HttpError::BadStatusCode { reason: body }).text(method, path)
            == "non-numeric HTTP status code: "@ + body@,
{
}

/// A head that has no first line, no second word on it, or no number there, makes
/// no sense, and what is wrong with it is told in this order.
pub proof fn a_head_that_makes_no_sense_is_told(line: Seq<char>, headers: Seq<char>)
    requires
        !line.contains('\n'),
    ensures
        head_of(Seq::empty()) is NoStatusLine,
        scan::second_word(line) is None ==> head_of(line + seq!['\r', '\n'] + headers) is NoStatusCode,
        scan::second_word(line) matches Some(word) && scan::number_up_to(word, 65535) is None
            ==> head_of(line + seq!['\r', '\n'] + headers) == HeadView::BadStatusCode(
            scan::second_word(line)->0,
        ),
{
    scan::lines_are_split_at_line_feeds(line, headers);
    let all = scan::lines(line + seq!['\r', '\n'] + headers);
    assert(all[0] == line);
}

} // verus!
