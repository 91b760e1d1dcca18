//! Per-request terminal logging.
//!
//! Exactly one line per HTTP request, on completion, with a category tag
//! derived from the path:
//!
//! ```text
//! INFO  rescope::http: [API] POST /v1/auth/otp/verify/email 401 2ms body={"loginId":"x"} resp={"errorCode":"E061102"}
//! DEBUG rescope::http: [UI] GET /assets/index-Bx2.js 200 0ms
//! ```
//!
//! `[API]`/`[EMU]` log at INFO (except `/health`, which harnesses poll);
//! `[UI]`/`[DOCS]` log at DEBUG. Request bodies are captured only for
//! `[API]`/`[EMU]` requests with text-like content types, truncated to a
//! cap; response bodies only for error statuses (>= 400). Headers are
//! never logged. Secrets in bodies are shown deliberately: this is a
//! dev-only emulator and seeing what an SDK sent is the point.
use crate::text;
use vstd::prelude::*;

verus! {

/// Extra bytes read past the cap so we can tell "exactly cap" from
/// "keeps going" without buffering unbounded input.
pub const TRUNCATION_SLACK: usize = 1;

/// The target that lines are logged under.
pub const LOG_TARGET: &'static str = "rescope::http";

/// How many bytes of a body are logged unless configured otherwise.
pub const DEFAULT_BODY_MAX: usize = 256;

/// What a request is about.
#[derive(Clone, Copy, Debug, PartialEq, Eq, Structural)]
pub enum Category {
    Api,
    Emu,
    Docs,
    Ui,
}

impl Category {
    /// The tag of this category.
    pub open spec fn tagged(self) -> Seq<char> {
        match self {
            Category::Api => "[API]"@,
            Category::Emu => "[EMU]"@,
            Category::Docs => "[DOCS]"@,
            Category::Ui => "[UI]"@,
        }
    }

    /// The tag of this category.
    pub fn tag(self) -> (r: &'static str)
        ensures
            r@ == self.tagged(),
    {
        match self {
            Category::Api => "[API]",
            Category::Emu => "[EMU]",
            Category::Docs => "[DOCS]",
            Category::Ui => "[UI]",
        }
    }
}

/// The category of a request path, by its prefix.
pub open spec fn category_of(path: Seq<char>) -> Category {
    if "/v1/"@.is_prefix_of(path) || "/v2/keys/"@.is_prefix_of(path)
        || "/.well-known/"@.is_prefix_of(path) || "/oauth/"@.is_prefix_of(path) {
        Category::Api
    } else if "/emulator/"@.is_prefix_of(path) || path == "/health"@ {
        Category::Emu
    } else if path == "/docs"@ || path == "/openapi.json"@ {
        Category::Docs
    } else {
        Category::Ui
    }
}

/// Classify a request path into its log category by prefix.
pub fn classify(path: &str) -> (r: Category)
    ensures
        r == category_of(path@),
{
    if text::starts_with(path, "/v1/") || text::starts_with(path, "/v2/keys/")
        || text::starts_with(path, "/.well-known/") || text::starts_with(path, "/oauth/") {
        Category::Api
    } else if text::starts_with(path, "/emulator/") || text::same(path, "/health") {
        Category::Emu
    } else if text::same(path, "/docs") || text::same(path, "/openapi.json") {
        Category::Docs
    } else {
        Category::Ui
    }
}

/// Whether the line of such a request is for debugging only.
pub open spec fn debug_only(category: Category, path: Seq<char>) -> bool {
    category == Category::Ui || category == Category::Docs || path == "/health"@
}

/// `[UI]`/`[DOCS]` traffic logs at DEBUG, as does `/health`: test
/// harnesses poll it and it would drum at INFO.
pub fn logs_at_debug(category: Category, path: &str) -> (r: bool)
    ensures
        r == debug_only(category, path@),
{
    category == Category::Ui || category == Category::Docs || text::same(path, "/health")
}

/// Body-logging knobs, read once at router build time (not per request).
#[derive(Clone, Copy, Debug, PartialEq, Eq, Structural)]
pub struct BodyLogConfig {
    pub enabled: bool,
    pub max: usize,
}

impl Default for BodyLogConfig {
    fn default() -> (r: Self)
        ensures
            r == (BodyLogConfig { enabled: true, max: DEFAULT_BODY_MAX }),
    {
        BodyLogConfig { enabled: true, max: DEFAULT_BODY_MAX }
    }
}

/// The cap that a setting stands for: a positive number that fits, or else the default.
pub open spec fn cap_from(max: Option<Seq<char>>) -> usize {
    match max {
        Some(setting) => match text::unsigned(setting) {
            Some(n) => if 0 < n <= usize::MAX {
                n as usize
            } else {
                DEFAULT_BODY_MAX
            },
            None => DEFAULT_BODY_MAX,
        },
        None => DEFAULT_BODY_MAX,
    }
}

/// Whether these settings stand for this configuration.
pub open spec fn configured(
    body: Option<Seq<char>>,
    max: Option<Seq<char>>,
    cfg: BodyLogConfig,
) -> bool {
    cfg.enabled == (body != Some("0"@)) && cfg.max == cap_from(max)
}

impl BodyLogConfig {
    /// `RESCOPE_LOG_BODY=0` disables body logging; anything else (or
    /// unset) leaves it on. `RESCOPE_LOG_BODY_MAX` overrides the cap;
    /// unparseable or zero values fall back to the default.
    pub fn from_vars(body: Option<&str>, max: Option<&str>) -> (r: Self)
        ensures
            r.enabled == (text::shown_str(body) != Some("0"@)),
            r.max == cap_from(text::shown_str(max)),
            configured(text::shown_str(body), text::shown_str(max), r),
    {
        let enabled = match body {
            Some(setting) => !text::same(setting, "0"),
            None => true,
        };
        let max: usize = match max {
            Some(setting) => match text::parse_usize(setting) {
                Some(n) => if n > 0 {
                    n
                } else {
                    DEFAULT_BODY_MAX
                },
                None => DEFAULT_BODY_MAX,
            },
            None => DEFAULT_BODY_MAX,
        };
        BodyLogConfig { enabled, max }
    }
}

/// The media type of a content type: what comes before the parameters, in lower case.
pub open spec fn media_type(content_type: Seq<char>) -> Seq<char> {
    text::trimmed(text::before(content_type, ';')).map_values(|c: char| text::ascii_lower(c))
}

/// Whether a body of this content type is text.
pub open spec fn textual(content_type: Option<Seq<char>>) -> bool {
    match content_type {
        Some(ct) => {
            ||| media_type(ct) == "application/json"@
            ||| media_type(ct) == "application/x-www-form-urlencoded"@
            ||| "text/"@.is_prefix_of(media_type(ct))
            ||| "+json"@.is_suffix_of(media_type(ct))
        },
        None => false,
    }
}

/// Only text-like payloads are ever logged; binary and multipart bodies
/// are not even buffered.
pub fn is_textual(content_type: Option<&str>) -> (r: bool)
    ensures
        r == textual(text::shown_str(content_type)),
{
    let ct = match content_type {
        Some(ct) => ct,
        None => return false,
    };
    let chars = text::to_chars(ct);
    let end = text::find(&chars, ';');
    proof {
        text::lemma_position(ct@, ';');
    }
    let head = text::from_chars(&chars, 0, end);
    assert(head@ =~= text::before(ct@, ';'));
    let trimmed = text::trim(head.as_str());
    let lower = text::to_ascii_lowercase(trimmed.as_str());
    text::same(lower.as_str(), "application/json") || text::same(
        lower.as_str(),
        "application/x-www-form-urlencoded",
    ) || text::starts_with(lower.as_str(), "text/") || text::ends_with(lower.as_str(), "+json")
}

/// What `String::from_utf8_lossy` makes of bytes.
pub uninterp spec fn lossy_text(bytes: Seq<u8>) -> Seq<char>;

/// `String::from_utf8_lossy`: the text that the bytes are in UTF-8. Where they are not UTF-8, it
/// puts replacement characters for what is malformed; how is left to the name `lossy_text`.
#[verifier::external_body]
fn from_utf8_lossy(bytes: &[u8]) -> (r: String)
    ensures
        r@ == lossy_text(bytes@),
        vstd::utf8::valid_utf8(bytes@) ==> r@ == vstd::utf8::decode_utf8(bytes@),
{
    String::from_utf8_lossy(bytes).into_owned()
}

/// `s` with every run of white space as one space.
pub open spec fn squashed(s: Seq<char>) -> Seq<char>
    decreases s.len(),
{
    if s.len() == 0 {
        s
    } else if !text::is_space(s.last()) {
        squashed(s.drop_last()).push(s.last())
    } else if s.len() > 1 && text::is_space(s[s.len() - 2]) {
        squashed(s.drop_last())
    } else {
        squashed(s.drop_last()).push(' ')
    }
}

/// The text of a body as one line, before it is cut.
pub open spec fn one_line(body: Seq<char>) -> Seq<char> {
    squashed(text::trimmed(body))
}

/// What is kept of a body: the characters of its line that fit into `cap` bytes.
pub open spec fn kept(body: Seq<char>, cap: nat) -> Seq<char> {
    text::cut(one_line(body), cap)
}

/// Whether anything of a body was cut off, here or where it was read.
pub open spec fn shortened(body: Seq<char>, cap: nat, source_truncated: bool) -> bool {
    source_truncated || text::byte_len(one_line(body)) > cap
}

/// A body as it is logged: what is kept of it, and a marker where anything was cut off.
pub open spec fn logged(body: Seq<char>, cap: nat, source_truncated: bool) -> Seq<char> {
    if shortened(body, cap, source_truncated) {
        kept(body, cap).push('\u{2026}')
    } else {
        kept(body, cap)
    }
}

/// Every run of white space as one space. `room` is how much to set aside for the result.
fn squash(chars: &Vec<char>, room: usize) -> (r: Vec<char>)
    ensures
        r@ == squashed(chars@),
{
    let mut line: Vec<char> = Vec::with_capacity(room);
    let mut in_whitespace = false;
    let mut i: usize = 0;
    assert(chars@.take(0) =~= Seq::<char>::empty());
    while i < chars.len()
        invariant
            i <= chars@.len(),
            line@ == squashed(chars@.take(i as int)),
            in_whitespace == (i > 0 && text::is_space(chars@[i - 1])),
        decreases chars@.len() - i,
    {
        let ch: char = chars[i];
        assert(chars@.take(i + 1).drop_last() =~= chars@.take(i as int));
        if text::is_whitespace(ch) {
            if !in_whitespace {
                line.push(' ');
            }
            in_whitespace = true;
        } else {
            line.push(ch);
            in_whitespace = false;
        }
        i += 1;
    }
    assert(chars@.take(i as int) =~= chars@);
    line
}

/// The text of a body as it is logged. No line is longer than can be counted.
pub fn format_text(body: &str, cap: usize, source_truncated: bool) -> (r: String)
    ensures
        r@ == logged(body@, cap as nat, source_truncated),
        text::byte_len(one_line(body@)) <= usize::MAX,
{
    let size: usize = text::utf8_len(body);
    proof {
        text::lemma_trimmed_bytes(body@);
        lemma_squashed_bytes(text::trimmed(body@));
    }
    let room: usize = if size < cap {
        size
    } else {
        cap
    };
    let trimmed = text::trim(body);
    let line = squash(&text::to_chars(trimmed.as_str()), room);
    let (count, _) = text::fit(&line, cap);
    let mut r = text::from_chars(&line, 0, count);
    assert(r@ =~= kept(body@, cap as nat));
    if source_truncated || count < line.len() {
        r.push('\u{2026}');
    }
    r
}

/// Collapse a captured body to a single trimmed line and truncate it to
/// `cap` bytes, appending `…` when anything was cut (here or upstream).
pub fn format_body(bytes: &[u8], cap: usize, source_truncated: bool) -> (r: String)
    ensures
        r@ == logged(lossy_text(bytes@), cap as nat, source_truncated),
        text::byte_len(one_line(lossy_text(bytes@))) <= usize::MAX,
        vstd::utf8::valid_utf8(bytes@) ==> r@ == logged(
            vstd::utf8::decode_utf8(bytes@),
            cap as nat,
            source_truncated,
        ),
{
    let body = from_utf8_lossy(bytes);
    format_text(body.as_str(), cap, source_truncated)
}

/// A part of a line that may be missing.
pub open spec fn segment(label: Seq<char>, content: Option<Seq<char>>) -> Seq<char> {
    match content {
        Some(content) => label + content,
        None => ""@,
    }
}

/// The line of a request.
pub open spec fn log_line(
    category: Category,
    method: Seq<char>,
    path_and_query: Seq<char>,
    status: u16,
    latency_ms: u128,
    body: Option<Seq<char>>,
    resp: Option<Seq<char>>,
) -> Seq<char> {
    category.tagged() + " "@ + method + " "@ + path_and_query + " "@ + text::decimal(status as nat)
        + " "@ + text::decimal(latency_ms as nat) + "ms"@ + segment(" body="@, body) + segment(
        " resp="@,
        resp,
    )
}

/// The one place a log line is assembled. Deliberately takes no headers: header values
/// (Authorization in particular) cannot leak into logs because they never reach this function.
pub fn build_line(
    category: Category,
    method: &str,
    path_and_query: &str,
    status: u16,
    latency_ms: u128,
    body: Option<&str>,
    resp: Option<&str>,
) -> (r: String)
    ensures
        r@ == log_line(
            category,
            method@,
            path_and_query@,
            status,
            latency_ms,
            text::shown_str(body),
            text::shown_str(resp),
        ),
{
    let mut line: String = category.tag().to_owned();
    line.append(" ");
    line.append(method);
    line.append(" ");
    line.append(path_and_query);
    line.append(" ");
    line.append(text::to_decimal(status as u128).as_str());
    line.append(" ");
    line.append(text::to_decimal(latency_ms).as_str());
    line.append("ms");
    proof {
        reveal_strlit("");
    }
    let ghost head = line@;
    if let Some(body) = body {
        line.append(" body=");
        line.append(body);
    }
    assert(line@ =~= head + segment(" body="@, text::shown_str(body)));
    let ghost head = line@;
    if let Some(resp) = resp {
        line.append(" resp=");
        line.append(resp);
    }
    assert(line@ =~= head + segment(" resp="@, text::shown_str(resp)));
    line
}

/// The bytes of the chunks, one after the other.
pub open spec fn joined(chunks: Seq<Vec<u8>>) -> Seq<u8>
    decreases chunks.len(),
{
    if chunks.len() == 0 {
        Seq::empty()
    } else {
        joined(chunks.drop_last()) + chunks.last()@
    }
}

/// What has been read of a body that is to be logged.
#[derive(Debug)]
pub struct Capture {
    cap: usize,
    chunks: Vec<Vec<u8>>,
    total: usize,
}

/// Whether more of a body is to be read, once this many bytes of it were.
pub open spec fn reads_on(read: nat, cap: usize) -> bool {
    read <= cap
}

/// How reading a body ended.
#[derive(Clone, Copy, Debug, PartialEq, Eq, Structural)]
pub enum ReadOutcome {
    /// The body ended within the bound; the chunks hold it entirely.
    Complete,
    /// The bound was hit; the rest of the body is still to come.
    HasMore,
    /// The body errored mid-read; the error must be replayed downstream.
    Errored,
}

/// What the handler is to be given in place of what was read.
#[derive(Debug)]
pub enum Replay {
    /// The whole body.
    Whole(Vec<u8>),
    /// These chunks and then what is left to read.
    ThenRest(Vec<Vec<u8>>),
    /// These chunks and then the error.
    ThenError(Vec<Vec<u8>>),
}

impl Replay {
    /// The bytes that the handler is given.
    pub open spec fn bytes(self) -> Seq<u8> {
        match self {
            Replay::Whole(bytes) => bytes@,
            Replay::ThenRest(chunks) => joined(chunks@),
            Replay::ThenError(chunks) => joined(chunks@),
        }
    }
}

/// A captured body: what of it can be logged, whether there is more, and what the handler is to
/// be given.
#[derive(Debug)]
pub struct Captured {
    pub prefix: Vec<u8>,
    pub truncated: bool,
    pub replay: Replay,
}

impl Capture {
    /// The cap on what is logged.
    pub closed spec fn limit(self) -> usize {
        self.cap
    }

    /// The chunks that have been read.
    pub closed spec fn pieces(self) -> Seq<Vec<u8>> {
        self.chunks@
    }

    /// The bytes that have been read.
    pub open spec fn bytes(self) -> Seq<u8> {
        joined(self.pieces())
    }

    /// Whether the count of the bytes is right and the chunks before the last one were within the
    /// bound.
    pub closed spec fn wf(self) -> bool {
        &&& self.cap < usize::MAX
        &&& self.total == joined(self.chunks@).len()
        &&& self.chunks@.len() > 0 ==> joined(self.chunks@.drop_last()).len() <= self.cap
    }

    /// Nothing has been read yet.
    pub fn new(cap: usize) -> (r: Self)
        requires
            cap < usize::MAX,
        ensures
            r.wf(),
            r.limit() == cap,
            r.bytes() == Seq::<u8>::empty(),
            r.pieces() == Seq::<Vec<u8>>::empty(),
    {
        Capture { cap, chunks: Vec::new(), total: 0 }
    }

    /// Whether another chunk is to be read: as long as no more than the cap has been.
    pub fn wants_more(&self) -> (r: bool)
        requires
            self.wf(),
        ensures
            r == (self.bytes().len() <= self.limit()),
            r == reads_on(self.bytes().len(), self.limit()),
    {
        let bound: usize = self.cap + TRUNCATION_SLACK;
        self.total < bound
    }

    /// A chunk was read.
    pub fn push(&mut self, chunk: Vec<u8>)
        requires
            old(self).wf(),
            old(self).bytes().len() <= old(self).limit(),
            old(self).bytes().len() + chunk@.len() <= usize::MAX,
        ensures
            final(self).wf(),
            final(self).limit() == old(self).limit(),
            final(self).bytes() == old(self).bytes() + chunk@,
            final(self).pieces() == old(self).pieces().push(chunk),
    {
        self.total = self.total + chunk.len();
        let ghost before = self.chunks@;
        self.chunks.push(chunk);
        assert(self.chunks@.drop_last() =~= before);
    }
}

/// The bytes of the chunks up to one of them are among those of all.
proof fn lemma_joined_prefix(chunks: Seq<Vec<u8>>, n: int)
    requires
        0 <= n <= chunks.len(),
    ensures
        joined(chunks.take(n)).is_prefix_of(joined(chunks)),
    decreases chunks.len() - n,
{
    if n < chunks.len() {
        lemma_joined_prefix(chunks, n + 1);
        assert(chunks.take(n + 1).drop_last() =~= chunks.take(n));
    } else {
        assert(chunks.take(n) =~= chunks);
    }
}

/// The first bytes of the chunks, `cap` at most.
fn first_bytes(chunks: &Vec<Vec<u8>>, cap: usize) -> (r: Vec<u8>)
    ensures
        r@ == (if joined(chunks@).len() <= cap {
            joined(chunks@)
        } else {
            joined(chunks@).take(cap as int)
        }),
{
    let mut prefix: Vec<u8> = Vec::new();
    let mut i: usize = 0;
    assert(chunks@.take(0) =~= Seq::<Vec<u8>>::empty());
    while i < chunks.len() && prefix.len() < cap
        invariant
            i <= chunks@.len(),
            prefix@.len() <= cap,
            prefix@ == (if joined(chunks@.take(i as int)).len() <= cap {
                joined(chunks@.take(i as int))
            } else {
                joined(chunks@.take(i as int)).take(cap as int)
            }),
        decreases chunks@.len() - i,
    {
        let ghost before = prefix@;
        let mut j: usize = 0;
        let chunk = &chunks[i];
        while j < chunk.len() && prefix.len() < cap
            invariant
                j <= chunk@.len(),
                prefix@.len() <= cap,
                prefix@ == before + chunk@.take(j as int),
            decreases chunk@.len() - j,
        {
            prefix.push(chunk[j]);
            j += 1;
            assert(prefix@ =~= before + chunk@.take(j as int));
        }
        proof {
            assert(chunks@.take(i + 1).drop_last() =~= chunks@.take(i as int));
            let all = joined(chunks@.take(i + 1));
            assert(all =~= before + chunk@);
            if j == chunk@.len() {
                assert(prefix@ =~= all);
            } else {
                assert(prefix@ =~= all.take(cap as int));
            }
        }
        i += 1;
    }
    proof {
        lemma_joined_prefix(chunks@, i as int);
        let read = joined(chunks@.take(i as int));
        if i == chunks@.len() {
            assert(chunks@.take(i as int) =~= chunks@);
        } else {
            assert(joined(chunks@).take(cap as int) =~= prefix@);
            if joined(chunks@).len() <= cap {
                assert(joined(chunks@) =~= prefix@);
            }
        }
    }
    prefix
}

/// The chunks one after the other.
fn concat(chunks: &Vec<Vec<u8>>) -> (r: Vec<u8>)
    ensures
        r@ == joined(chunks@),
{
    let mut r: Vec<u8> = Vec::new();
    let mut i: usize = 0;
    assert(chunks@.take(0) =~= Seq::<Vec<u8>>::empty());
    while i < chunks.len()
        invariant
            i <= chunks@.len(),
            r@ == joined(chunks@.take(i as int)),
        decreases chunks@.len() - i,
    {
        assert(chunks@.take(i + 1).drop_last() =~= chunks@.take(i as int));
        r.extend_from_slice(chunks[i].as_slice());
        assert(r@ =~= joined(chunks@.take(i + 1)));
        i += 1;
    }
    assert(chunks@.take(i as int) =~= chunks@);
    r
}

/// Whether this becomes of a body that was read so far and ended so.
pub open spec fn captured_is(capture: Capture, outcome: ReadOutcome, r: Captured) -> bool {
    &&& r.prefix@ == (if capture.bytes().len() <= capture.limit() {
        capture.bytes()
    } else {
        capture.bytes().take(capture.limit() as int)
    })
    &&& r.truncated == (capture.bytes().len() > capture.limit())
    &&& match outcome {
        ReadOutcome::Complete => r.replay matches Replay::Whole(bytes) && bytes@ == capture.bytes(),
        ReadOutcome::HasMore => r.replay matches Replay::ThenRest(chunks) && chunks@
            == capture.pieces(),
        ReadOutcome::Errored => r.replay matches Replay::ThenError(chunks) && chunks@
            == capture.pieces(),
    }
}

/// What becomes of a body that was read up to just past the cap: the loggable prefix (at most
/// `cap` bytes), whether the body continued past the cap, and what yields the original bytes, all
/// of them, to the handler.
pub fn buffer_prefix(capture: Capture, outcome: ReadOutcome) -> (r: Captured)
    requires
        capture.wf(),
    ensures
        r.prefix@ == (if capture.bytes().len() <= capture.limit() {
            capture.bytes()
        } else {
            capture.bytes().take(capture.limit() as int)
        }),
        r.truncated == (capture.bytes().len() > capture.limit()),
        match outcome {
            ReadOutcome::Complete => r.replay matches Replay::Whole(bytes) && bytes@
                == capture.bytes(),
            ReadOutcome::HasMore => r.replay matches Replay::ThenRest(chunks) && chunks@
                == capture.pieces(),
            ReadOutcome::Errored => r.replay matches Replay::ThenError(chunks) && chunks@
                == capture.pieces(),
        },
        r.replay.bytes() == capture.bytes(),
        captured_is(capture, outcome, r),
{
    let prefix = first_bytes(&capture.chunks, capture.cap);
    let truncated = capture.total > capture.cap;
    let replay = match outcome {
        ReadOutcome::Complete => Replay::Whole(concat(&capture.chunks)),
        ReadOutcome::HasMore => Replay::ThenRest(capture.chunks),
        ReadOutcome::Errored => Replay::ThenError(capture.chunks),
    };
    Captured { prefix, truncated, replay }
}

/// What of a request decides how it is logged.
#[derive(Debug)]
pub struct RequestHead {
    pub method: String,
    pub path: String,
    /// The path with the query string, where the target has them.
    pub path_and_query: Option<String>,
    /// The text of the `Content-Type` header.
    pub content_type: Option<String>,
}

/// What of a response decides how it is logged.
#[derive(Debug)]
pub struct ResponseHead {
    pub status: u16,
    /// The text of the `Content-Type` header.
    pub content_type: Option<String>,
    /// How long the handler took.
    pub latency_ms: u128,
}

/// The loggable prefix of a body, and whether the body continued past the cap.
#[derive(Debug)]
pub struct BodyPrefix {
    pub prefix: Vec<u8>,
    pub truncated: bool,
}

/// What is known so far of a request that is to be logged.
pub struct LogSeen {
    pub request_body: Option<BodyPrefix>,
    pub response: Option<ResponseHead>,
    pub response_body: Option<BodyPrefix>,
    /// Whether the line was logged.
    pub logged: bool,
}

/// What logging a request does next.
#[derive(Debug)]
pub enum LogStep {
    /// Read the request's body up to just past `cap` bytes.
    CaptureRequest { cap: usize },
    /// Hand the request to the handler, and take the time.
    RunInner,
    /// Read the response's body up to just past `cap` bytes.
    CaptureResponse { cap: usize },
    /// Log the line under this target, for debugging only or not.
    Emit { target: &'static str, debug: bool, line: String },
    /// Send the response.
    Finish,
}

/// Whether the request's body is to be logged.
pub open spec fn captures_request(cfg: BodyLogConfig, req: RequestHead) -> bool {
    &&& cfg.enabled
    &&& category_of(req.path@) == Category::Api || category_of(req.path@) == Category::Emu
    &&& textual(text::shown(req.content_type))
}

/// Whether the response's body is to be logged.
pub open spec fn captures_response(cfg: BodyLogConfig, response: ResponseHead) -> bool {
    &&& cfg.enabled
    &&& response.status >= 400
    &&& textual(text::shown(response.content_type))
}

/// What is logged of a body: nothing where it was not captured or is empty.
pub open spec fn body_logged(captured: bool, body: Option<BodyPrefix>, cap: usize) -> Option<
    Seq<char>,
> {
    match body {
        Some(body) => if captured && body.prefix@.len() > 0 {
            Some(logged(lossy_text(body.prefix@), cap as nat, body.truncated))
        } else {
            None
        },
        None => None,
    }
}

/// The target of a request as received.
pub open spec fn target(req: RequestHead) -> Seq<char> {
    match req.path_and_query {
        Some(path_and_query) => path_and_query@,
        None => req.path@,
    }
}

/// Which step follows: capturing the request's body, where it is to be logged, the handler,
/// capturing the response's body, where it is to be logged, the line, and the response.
pub open spec fn log_is(cfg: BodyLogConfig, req: RequestHead, seen: LogSeen, step: LogStep) -> bool {
    if captures_request(cfg, req) && seen.request_body is None {
        step == (LogStep::CaptureRequest { cap: cfg.max })
    } else {
        match seen.response {
            None => step is RunInner,
            Some(response) => if captures_response(cfg, response) && seen.response_body is None {
                step == (LogStep::CaptureResponse { cap: cfg.max })
            } else if seen.logged {
                step is Finish
            } else {
                &&& step matches LogStep::Emit { target: under, debug, line }
                &&& under@ == LOG_TARGET@
                &&& debug == debug_only(category_of(req.path@), req.path@)
                &&& line@ == log_line(
                    category_of(req.path@),
                    req.method@,
                    target(req),
                    response.status,
                    response.latency_ms,
                    body_logged(captures_request(cfg, req), seen.request_body, cfg.max),
                    body_logged(captures_response(cfg, response), seen.response_body, cfg.max),
                )
            },
        }
    }
}

/// What is logged of a body.
fn format_captured(captured: bool, body: &Option<BodyPrefix>, cap: usize) -> (r: Option<String>)
    ensures
        text::shown(r) == body_logged(captured, *body, cap),
{
    match body {
        Some(body) => if captured && body.prefix.len() > 0 {
            Some(format_body(body.prefix.as_slice(), cap, body.truncated))
        } else {
            None
        },
        None => None,
    }
}

/// A borrowed optional text.
fn borrowed(t: &Option<String>) -> (r: Option<&str>)
    ensures
        text::shown_str(r) == text::shown(*t),
{
    match t {
        Some(t) => Some(t.as_str()),
        None => None,
    }
}

/// The next step of logging a request.
pub fn log_request(cfg: BodyLogConfig, req: &RequestHead, seen: &LogSeen) -> (r: LogStep)
    ensures
        log_is(cfg, *req, *seen, r),
{
    let category = classify(req.path.as_str());
    let capture_request = cfg.enabled && (category == Category::Api || category == Category::Emu)
        && is_textual(borrowed(&req.content_type));
    if capture_request && seen.request_body.is_none() {
        return LogStep::CaptureRequest { cap: cfg.max };
    }
    let response = match &seen.response {
        None => return LogStep::RunInner,
        Some(response) => response,
    };
    let capture_response = cfg.enabled && response.status >= 400 && is_textual(
        borrowed(&response.content_type),
    );
    if capture_response && seen.response_body.is_none() {
        return LogStep::CaptureResponse { cap: cfg.max };
    }
    if seen.logged {
        return LogStep::Finish;
    }
    let body_log = format_captured(capture_request, &seen.request_body, cfg.max);
    let resp_log = format_captured(capture_response, &seen.response_body, cfg.max);
    let path_and_query = match &req.path_and_query {
        Some(path_and_query) => path_and_query.as_str(),
        None => req.path.as_str(),
    };
    let line = build_line(
        category,
        req.method.as_str(),
        path_and_query,
        response.status,
        response.latency_ms,
        borrowed(&body_log),
        borrowed(&resp_log),
    );
    LogStep::Emit {
        target: LOG_TARGET,
        debug: logs_at_debug(category, req.path.as_str()),
        line,
    }
}

/// Squashing a text never makes it longer in bytes.
proof fn lemma_squashed_bytes(s: Seq<char>)
    ensures
        text::byte_len(squashed(s)) <= text::byte_len(s),
    decreases s.len(),
{
    if s.len() > 0 {
        let rest = s.drop_last();
        lemma_squashed_bytes(rest);
        assert(rest.push(s.last()) =~= s);
        text::lemma_byte_len_push(rest, s.last());
        text::lemma_byte_len_push(squashed(rest), s.last());
        text::lemma_byte_len_push(squashed(rest), ' ');
    }
}

/// The words of a text: its runs of characters that are no white space.
pub open spec fn words(s: Seq<char>) -> Seq<Seq<char>>
    decreases s.len(),
{
    if s.len() == 0 {
        Seq::empty()
    } else {
        let before = words(s.drop_last());
        if text::is_space(s.last()) {
            before
        } else if s.len() == 1 || text::is_space(s[s.len() - 2]) {
            before.push(seq![s.last()])
        } else {
            before.drop_last().push(before.last().push(s.last()))
        }
    }
}

/// The words with one space between each two.
pub open spec fn spaced(words: Seq<Seq<char>>) -> Seq<char>
    decreases words.len(),
{
    if words.len() == 0 {
        Seq::empty()
    } else if words.len() == 1 {
        words[0]
    } else {
        spaced(words.drop_last()).push(' ') + words.last()
    }
}

/// Whether this is a word: some characters, none of them white space.
pub open spec fn is_word(s: Seq<char>) -> bool {
    s.len() > 0 && forall|i: int| 0 <= i < s.len() ==> !text::is_space(#[trigger] s[i])
}

/// The words of a text are words, and there are some where it has any character that is no white
/// space, such as its last one.
proof fn lemma_words_are_words(s: Seq<char>)
    ensures
        forall|i: int| 0 <= i < words(s).len() ==> is_word(#[trigger] words(s)[i]),
        s.len() > 0 && !text::is_space(s.last()) ==> words(s).len() > 0,
        s.len() > 0 && !text::is_space(s[0]) ==> words(s).len() > 0,
    decreases s.len(),
{
    if s.len() > 0 {
        let rest = s.drop_last();
        lemma_words_are_words(rest);
        if !text::is_space(s.last()) && s.len() > 1 && !text::is_space(s[s.len() - 2]) {
            assert(rest.last() == s[s.len() - 2]);
            let grown = words(rest).last().push(s.last());
            assert(is_word(words(rest)[words(rest).len() - 1]));
            assert(is_word(grown));
        }
    }
}

/// One more character in the last word is one more character in the line.
proof fn lemma_spaced_grows(w: Seq<Seq<char>>, c: char)
    requires
        w.len() > 0,
    ensures
        spaced(w.drop_last().push(w.last().push(c))) == spaced(w).push(c),
{
    let grown = w.drop_last().push(w.last().push(c));
    assert(grown.drop_last() =~= w.drop_last());
    assert(grown.last() == w.last().push(c));
    if w.len() == 1 {
        assert(spaced(grown) =~= spaced(w).push(c));
    } else {
        assert(spaced(grown) =~= spaced(w).push(c));
    }
}

/// A squashed text that does not begin with white space is its words with one space between each
/// two, and one more space where the text ends with white space.
proof fn lemma_squashed_is_spaced(s: Seq<char>)
    requires
        s.len() > 0,
        !text::is_space(s[0]),
    ensures
        squashed(s) == (if text::is_space(s.last()) {
            spaced(words(s)).push(' ')
        } else {
            spaced(words(s))
        }),
    decreases s.len(),
{
    let rest = s.drop_last();
    if s.len() == 1 {
        assert(words(rest) =~= Seq::<Seq<char>>::empty());
        assert(words(s) =~= seq![seq![s.last()]]);
        assert(squashed(rest) =~= Seq::<char>::empty());
        assert(squashed(s) =~= seq![s.last()]);
    } else {
        lemma_squashed_is_spaced(rest);
        lemma_words_are_words(rest);
        assert(rest.last() == s[s.len() - 2]);
        if !text::is_space(s.last()) {
            if text::is_space(rest.last()) {
                let w = words(rest).push(seq![s.last()]);
                assert(w.drop_last() =~= words(rest));
                assert(spaced(w) =~= spaced(words(rest)).push(' ').push(s.last()));
            } else {
                lemma_spaced_grows(words(rest), s.last());
            }
        }
    }
}

/// White space at the start adds no word.
proof fn lemma_words_skip_space(s: Seq<char>)
    requires
        s.len() > 0,
        text::is_space(s[0]),
    ensures
        words(s) == words(s.drop_first()),
    decreases s.len(),
{
    if s.len() == 1 {
        assert(s.drop_last() =~= s.drop_first());
    } else {
        lemma_words_skip_space(s.drop_last());
        assert(s.drop_last().drop_first() =~= s.drop_first().drop_last());
        let tail = s.drop_first();
        assert(tail.last() == s.last());
        if s.len() > 2 {
            assert(tail[tail.len() - 2] == s[s.len() - 2]);
        }
    }
}

/// Trimming a text leaves its words.
proof fn lemma_trimmed_words(s: Seq<char>)
    ensures
        words(text::trimmed(s)) == words(s),
{
    lemma_trimmed_start_words(s);
    lemma_trimmed_end_words(text::trimmed_start(s));
}

/// Trimming the start of a text leaves its words.
proof fn lemma_trimmed_start_words(s: Seq<char>)
    ensures
        words(text::trimmed_start(s)) == words(s),
    decreases s.len(),
{
    if s.len() > 0 && text::is_space(s[0]) {
        lemma_words_skip_space(s);
        lemma_trimmed_start_words(s.drop_first());
    }
}

/// Trimming the end of a text leaves its words.
proof fn lemma_trimmed_end_words(s: Seq<char>)
    ensures
        words(text::trimmed_end(s)) == words(s),
    decreases s.len(),
{
    if s.len() > 0 && text::is_space(s.last()) {
        lemma_trimmed_end_words(s.drop_last());
    }
}

/// A word behind a text that is empty or ends with white space is its last word.
proof fn lemma_word_behind(s: Seq<char>, word: Seq<char>)
    requires
        s.len() == 0 || text::is_space(s.last()),
        is_word(word),
    ensures
        words(s + word) == words(s).push(word),
    decreases word.len(),
{
    let all = s + word;
    let less = word.drop_last();
    assert(all.last() == word.last());
    assert(!text::is_space(word[word.len() - 1]));
    assert(all.drop_last() =~= s + less);
    if word.len() == 1 {
        assert(s + less =~= s);
        assert(seq![all.last()] =~= word);
        if all.len() > 1 {
            assert(all[all.len() - 2] == s.last());
        }
    } else {
        assert(is_word(less)) by {
            assert forall|i: int| 0 <= i < less.len() implies !text::is_space(#[trigger] less[i]) by {
                assert(less[i] == word[i]);
            }
        }
        lemma_word_behind(s, less);
        assert(all[all.len() - 2] == word[word.len() - 2]);
        let before = words(all.drop_last());
        assert(before =~= words(s).push(less));
        assert(before.drop_last() =~= words(s));
        assert(before.last().push(all.last()) =~= word);
    }
}

/// Words with a space between each two have these words.
proof fn lemma_words_of_spaced(w: Seq<Seq<char>>)
    requires
        forall|i: int| 0 <= i < w.len() ==> is_word(#[trigger] w[i]),
    ensures
        words(spaced(w)) == w,
    decreases w.len(),
{
    if w.len() == 0 {
        assert(words(spaced(w)) =~= w);
    } else if w.len() == 1 {
        let nothing = Seq::<char>::empty();
        lemma_word_behind(nothing, w[0]);
        assert(nothing + w[0] =~= w[0]);
        assert(words(nothing).push(w[0]) =~= w);
    } else {
        let rest = w.drop_last();
        assert forall|i: int| 0 <= i < rest.len() implies is_word(#[trigger] rest[i]) by {
            assert(rest[i] == w[i]);
        }
        lemma_words_of_spaced(rest);
        let head = spaced(rest).push(' ');
        assert(head.drop_last() =~= spaced(rest));
        assert(words(head) == rest);
        assert(is_word(w[w.len() - 1]));
        lemma_word_behind(head, w.last());
        assert(rest.push(w.last()) =~= w);
    }
}

/// A body's line is its words with one space between each two, whatever white space was between
/// them, before them and behind them. So it has no white space at either end, no two spaces side
/// by side, and is its own line.
pub proof fn law_line_is_the_words(body: Seq<char>)
    ensures
        one_line(body) == spaced(words(body)),
        forall|i: int| 0 <= i < words(body).len() ==> is_word(#[trigger] words(body)[i]),
        one_line(body).len() > 0 ==> !text::is_space(one_line(body)[0]) && !text::is_space(
            one_line(body).last(),
        ),
        forall|i: int|
            0 <= i < one_line(body).len() - 1 ==> !(text::is_space(#[trigger] one_line(body)[i])
                && text::is_space(one_line(body)[i + 1])),
        one_line(one_line(body)) == one_line(body),
{
    lemma_line_is_spaced(body);
    lemma_words_are_words(body);
    lemma_words_of_spaced(words(body));
    lemma_line_is_spaced(one_line(body));
    lemma_spaced_is_tight(words(body));
}

/// A body's line is its words with one space between each two.
proof fn lemma_line_is_spaced(body: Seq<char>)
    ensures
        one_line(body) == spaced(words(body)),
{
    let trimmed = text::trimmed(body);
    lemma_trimmed_words(body);
    text::lemma_trimmed_ends(body);
    if trimmed.len() > 0 {
        lemma_squashed_is_spaced(trimmed);
    } else {
        assert(words(trimmed) =~= Seq::<Seq<char>>::empty());
        assert(one_line(body) =~= spaced(words(body)));
    }
}

/// Words with a space between each two have white space at neither end and no two spaces side by
/// side.
proof fn lemma_spaced_is_tight(w: Seq<Seq<char>>)
    requires
        forall|i: int| 0 <= i < w.len() ==> is_word(#[trigger] w[i]),
    ensures
        w.len() > 0 ==> spaced(w).len() > 0,
        spaced(w).len() > 0 ==> !text::is_space(spaced(w)[0]) && !text::is_space(spaced(w).last()),
        forall|i: int|
            0 <= i < spaced(w).len() - 1 ==> !(text::is_space(#[trigger] spaced(w)[i])
                && text::is_space(spaced(w)[i + 1])),
    decreases w.len(),
{
    if w.len() == 1 {
        assert(is_word(w[0]));
        assert(spaced(w)[spaced(w).len() - 1] == spaced(w).last());
    } else if w.len() > 1 {
        let rest = w.drop_last();
        assert forall|i: int| 0 <= i < rest.len() implies is_word(#[trigger] rest[i]) by {
            assert(rest[i] == w[i]);
        }
        lemma_spaced_is_tight(rest);
        let word = w.last();
        assert(is_word(w[w.len() - 1]));
        let line = spaced(w);
        let n = spaced(rest).len() as int;
        assert(line[0] == spaced(rest)[0]);
        assert(line.last() == word[word.len() - 1]);
        assert forall|i: int| 0 <= i < line.len() - 1 implies !(text::is_space(#[trigger] line[i])
            && text::is_space(line[i + 1])) by {
            if i < n - 1 {
                assert(line[i] == spaced(rest)[i]);
                assert(line[i + 1] == spaced(rest)[i + 1]);
            } else if i == n - 1 {
                assert(line[i] == spaced(rest).last());
            } else {
                assert(line[i + 1] == word[i - n]);
            }
        }
    }
}

/// A body that was read in full and whose line fits is logged as its words with one space between
/// each two, and logging that again gives the same.
pub proof fn law_logging_again_changes_nothing(body: Seq<char>, cap: nat)
    requires
        text::byte_len(one_line(body)) <= cap,
    ensures
        logged(body, cap, false) == spaced(words(body)),
        logged(logged(body, cap, false), cap, false) == logged(body, cap, false),
{
    law_line_is_the_words(body);
    law_cap_and_marker(body, cap, false);
    law_cap_and_marker(one_line(body), cap, false);
}

/// What a cap does to the full line: let `full` be what is logged of a body that was read in full
/// under a cap that its line fits, such as the largest there is. Under any cap, what is logged is
/// the longest run of characters from the start of `full` that fits and the marker, where `full`
/// does not fit; and otherwise `full`, with the marker where the body was cut before.
pub proof fn law_cap_cuts_the_full_line(
    body: Seq<char>,
    largest: nat,
    cap: nat,
    source_truncated: bool,
)
    requires
        text::byte_len(one_line(body)) <= largest,
    ensures
        ({
            let full = logged(body, largest, false);
            logged(body, cap, source_truncated) == (if text::byte_len(full) > cap {
                text::cut(full, cap).push('\u{2026}')
            } else if source_truncated {
                full.push('\u{2026}')
            } else {
                full
            })
        }),
{
    law_cap_and_marker(body, largest, false);
    law_cap_and_marker(body, cap, source_truncated);
}

/// The squashed text has no white space but single spaces.
proof fn lemma_squashed(s: Seq<char>)
    ensures
        forall|i: int|
            0 <= i < squashed(s).len() ==> #[trigger] squashed(s)[i] == ' ' || !text::is_space(
                squashed(s)[i],
            ),
    decreases s.len(),
{
    if s.len() > 0 {
        let before = squashed(s.drop_last());
        lemma_squashed(s.drop_last());
        assert forall|i: int| 0 <= i < squashed(s).len() implies #[trigger] squashed(s)[i] == ' '
            || !text::is_space(squashed(s)[i]) by {
            if i < before.len() {
                assert(squashed(s)[i] == before[i]);
            }
        }
    }
}

/// A logged body is one line: it holds no white space but spaces, so no line break.
pub proof fn law_logged_body_is_one_line(body: Seq<char>, cap: nat, source_truncated: bool)
    ensures
        forall|i: int|
            0 <= i < logged(body, cap, source_truncated).len() ==> #[trigger] logged(
                body,
                cap,
                source_truncated,
            )[i] == ' ' || !text::is_space(logged(body, cap, source_truncated)[i]),
        !logged(body, cap, source_truncated).contains('\n'),
{
    lemma_squashed(text::trimmed(body));
    text::lemma_fitting(one_line(body), cap);
    let line = logged(body, cap, source_truncated);
    assert forall|i: int| 0 <= i < line.len() implies #[trigger] line[i] == ' '
        || !text::is_space(line[i]) by {
        if i < kept(body, cap).len() {
            assert(line[i] == one_line(body)[i]);
        }
    }
}

/// What is kept of a body takes at most `cap` bytes, as many as fit; and the marker stands behind
/// it exactly where something was cut off. A body whose line fits and that was read in full is
/// logged in full.
pub proof fn law_cap_and_marker(body: Seq<char>, cap: nat, source_truncated: bool)
    ensures
        text::byte_len(kept(body, cap)) <= cap,
        kept(body, cap).is_prefix_of(one_line(body)),
        kept(body, cap).len() < one_line(body).len() ==> text::byte_len(
            one_line(body).take(kept(body, cap).len() as int + 1),
        ) > cap,
        kept(body, cap) == one_line(body) <==> text::byte_len(one_line(body)) <= cap,
        shortened(body, cap, source_truncated) ==> logged(body, cap, source_truncated) == kept(
            body,
            cap,
        ).push('\u{2026}'),
        !shortened(body, cap, source_truncated) ==> logged(body, cap, source_truncated)
            == one_line(body),
{
    let line = one_line(body);
    text::lemma_fitting(line, cap);
    if kept(body, cap) == line {
        assert(text::fitting(line, cap) == line.len());
    }
    if text::byte_len(line) <= cap {
        assert(line.take(line.len() as int) =~= line);
    }
}

/// Whether no character of `s` is a line break.
pub open spec fn unbroken(s: Seq<char>) -> bool {
    forall|i: int| 0 <= i < s.len() ==> #[trigger] s[i] != '\n'
}

/// The digits of a number hold no line break.
proof fn lemma_decimal_unbroken(n: nat)
    ensures
        unbroken(text::decimal(n)),
    decreases n,
{
    if n >= 10 {
        lemma_decimal_unbroken(n / 10);
    }
}

/// Each request is logged as one line: no body can break it. (A method and a request target hold
/// no line breaks.)
pub proof fn law_one_line_per_request(
    cfg: BodyLogConfig,
    req: RequestHead,
    seen: LogSeen,
    step: LogStep,
)
    requires
        log_is(cfg, req, seen, step),
        unbroken(req.method@),
        unbroken(target(req)),
    ensures
        step matches LogStep::Emit { line, .. } ==> unbroken(line@),
{
    if let LogStep::Emit { line, .. } = step {
        let response = seen.response->0;
        let category = category_of(req.path@);
        reveal_strlit("[API]");
        reveal_strlit("[EMU]");
        reveal_strlit("[DOCS]");
        reveal_strlit("[UI]");
        reveal_strlit(" ");
        reveal_strlit("ms");
        reveal_strlit(" body=");
        reveal_strlit(" resp=");
        reveal_strlit("");
        lemma_decimal_unbroken(response.status as nat);
        lemma_decimal_unbroken(response.latency_ms as nat);
        let captured = captures_request(cfg, req);
        let body = body_logged(captured, seen.request_body, cfg.max);
        let resp = body_logged(
            captures_response(cfg, response),
            seen.response_body,
            cfg.max,
        );
        lemma_segment_unbroken(" body="@, captured, seen.request_body, cfg.max);
        lemma_segment_unbroken(
            " resp="@,
            captures_response(cfg, response),
            seen.response_body,
            cfg.max,
        );
        assert(unbroken(category.tagged()));
        assert(unbroken(" "@) && unbroken("ms"@));
        assert(unbroken(segment(" body="@, body)) && unbroken(segment(" resp="@, resp)));
    }
}

/// The part of a line with a body in it holds no line break.
proof fn lemma_segment_unbroken(
    label: Seq<char>,
    captured: bool,
    body: Option<BodyPrefix>,
    cap: usize,
)
    requires
        unbroken(label),
    ensures
        unbroken(segment(label, body_logged(captured, body, cap))),
{
    reveal_strlit("");
    if let Some(prefix) = body {
        let t = lossy_text(prefix.prefix@);
        law_logged_body_is_one_line(t, cap as nat, prefix.truncated);
        let shown = logged(t, cap as nat, prefix.truncated);
        assert forall|i: int| 0 <= i < shown.len() implies #[trigger] shown[i] != '\n' by {
            if shown[i] == '\n' {
                assert(shown.contains('\n'));
            }
        }
    }
}

/// Each request is logged as exactly one event: each step asks for what is still missing, so none
/// is taken twice; the event comes once the handler has answered, and the response is sent once
/// the event was logged.
pub proof fn law_each_step_is_taken_once(
    cfg: BodyLogConfig,
    req: RequestHead,
    seen: LogSeen,
    step: LogStep,
)
    requires
        log_is(cfg, req, seen, step),
    ensures
        step is CaptureRequest ==> seen.request_body is None,
        step is RunInner ==> seen.response is None,
        step is CaptureResponse ==> seen.response is Some && seen.response_body is None,
        step is Emit ==> seen.response is Some && !seen.logged,
        step is Finish ==> seen.response is Some && seen.logged,
        seen.request_body is Some && seen.response is Some && seen.response_body is Some ==> (
        step is Emit <==> !seen.logged) && (step is Finish <==> seen.logged),
{
}

/// Whether a path is one of those whose requests are shown by default.
pub open spec fn shown_by_default(path: Seq<char>) -> bool {
    ||| "/v1/"@.is_prefix_of(path)
    ||| "/v2/keys/"@.is_prefix_of(path)
    ||| "/.well-known/"@.is_prefix_of(path)
    ||| "/oauth/"@.is_prefix_of(path)
    ||| "/emulator/"@.is_prefix_of(path)
}

/// The event of a request is logged under the target `rescope::http`, begins with the tag of its
/// path, the method, the target as received, the status and the latency, and is for debugging only
/// unless the path is one that is shown by default. The path of the health check is none.
pub proof fn law_event_of_a_request(
    cfg: BodyLogConfig,
    req: RequestHead,
    seen: LogSeen,
    step: LogStep,
)
    requires
        log_is(cfg, req, seen, step),
        step is Emit,
    ensures
        step->Emit_target@ == "rescope::http"@,
        ({
            let response = seen.response->0;
            (category_of(req.path@).tagged() + " "@ + req.method@ + " "@ + target(req) + " "@
                + text::decimal(response.status as nat) + " "@ + text::decimal(
                response.latency_ms as nat,
            ) + "ms"@).is_prefix_of(step->Emit_line@)
        }),
        step->Emit_debug == !shown_by_default(req.path@),
        !shown_by_default("/health"@),
{
    let path = req.path@;
    reveal_strlit("/v1/");
    reveal_strlit("/v2/keys/");
    reveal_strlit("/.well-known/");
    reveal_strlit("/oauth/");
    reveal_strlit("/emulator/");
    reveal_strlit("/health");
    let health = "/health"@;
    assert(!shown_by_default(health)) by {
        assert(health[1] == 'h');
        if "/v1/"@.is_prefix_of(health) {
            assert("/v1/"@[1] == health[1]);
        }
        if "/oauth/"@.is_prefix_of(health) {
            assert("/oauth/"@[1] == health[1]);
        }
    }
    let response = seen.response->0;
    let head = category_of(path).tagged() + " "@ + req.method@ + " "@ + target(req) + " "@
        + text::decimal(response.status as nat) + " "@ + text::decimal(response.latency_ms as nat)
        + "ms"@;
    let body = segment(
        " body="@,
        body_logged(captures_request(cfg, req), seen.request_body, cfg.max),
    );
    let resp = segment(
        " resp="@,
        body_logged(captures_response(cfg, response), seen.response_body, cfg.max),
    );
    assert(step->Emit_line@ =~= head + (body + resp));
}

/// With body logging disabled, no body is read and the line names none.
pub proof fn law_disabled_logs_no_bodies(
    cfg: BodyLogConfig,
    req: RequestHead,
    seen: LogSeen,
    step: LogStep,
)
    requires
        log_is(cfg, req, seen, step),
        !cfg.enabled,
    ensures
        !(step is CaptureRequest),
        !(step is CaptureResponse),
        step matches LogStep::Emit { line, .. } ==> line@ == log_line(
            category_of(req.path@),
            req.method@,
            target(req),
            seen.response->0.status,
            seen.response->0.latency_ms,
            None,
            None,
        ),
{
}

/// A response's body is read and logged only where the status is an error, and a request's only
/// where the request is for the API or the emulator itself.
pub proof fn law_bodies_are_logged_only_where_due(
    cfg: BodyLogConfig,
    req: RequestHead,
    seen: LogSeen,
    step: LogStep,
)
    requires
        log_is(cfg, req, seen, step),
    ensures
        step is CaptureResponse ==> seen.response is Some && seen.response->0.status >= 400,
        step is CaptureRequest ==> category_of(req.path@) == Category::Api || category_of(req.path@)
            == Category::Emu,
        step is Emit && seen.response->0.status < 400 ==> step->Emit_line@ == log_line(
            category_of(req.path@),
            req.method@,
            target(req),
            seen.response->0.status,
            seen.response->0.latency_ms,
            body_logged(captures_request(cfg, req), seen.request_body, cfg.max),
            None,
        ),
        step is Emit && category_of(req.path@) != Category::Api && category_of(req.path@)
            != Category::Emu ==> step->Emit_line@ == log_line(
            category_of(req.path@),
            req.method@,
            target(req),
            seen.response->0.status,
            seen.response->0.latency_ms,
            None,
            body_logged(
                captures_response(cfg, seen.response->0),
                seen.response_body,
                cfg.max,
            ),
        ),
{
}

/// Of the headers, only whether the content is text plays a part: requests and responses that
/// agree on that and on all that is no header are logged alike.
pub proof fn law_headers_do_not_reach_the_line(
    cfg: BodyLogConfig,
    req: RequestHead,
    seen: LogSeen,
    step: LogStep,
    other_req: RequestHead,
    other: LogSeen,
    other_step: LogStep,
)
    requires
        log_is(cfg, req, seen, step),
        log_is(cfg, other_req, other, other_step),
        other_req.method@ == req.method@,
        other_req.path@ == req.path@,
        target(other_req) == target(req),
        textual(text::shown(other_req.content_type)) == textual(text::shown(req.content_type)),
        other.request_body == seen.request_body,
        other.response_body == seen.response_body,
        other.logged == seen.logged,
        seen.response matches Some(a) && other.response matches Some(b) && a.status == b.status
            && a.latency_ms == b.latency_ms && textual(text::shown(a.content_type)) == textual(
            text::shown(b.content_type),
        ),
        step is Emit,
    ensures
        other_step is Emit,
        other_step->Emit_line@ == step->Emit_line@,
        other_step->Emit_debug == step->Emit_debug,
{
}

/// The bytes of two runs of chunks are those of the one and then those of the other.
pub proof fn lemma_joined_add(a: Seq<Vec<u8>>, b: Seq<Vec<u8>>)
    ensures
        joined(a + b) == joined(a) + joined(b),
    decreases b.len(),
{
    if b.len() == 0 {
        assert(a + b =~= a);
        assert(joined(a) + joined(b) =~= joined(a));
    } else {
        lemma_joined_add(a, b.drop_last());
        assert((a + b).drop_last() =~= a + b.drop_last());
        assert(joined(a + b) =~= joined(a) + joined(b));
    }
}

/// Reading the first `n` chunks of a body for the log loses nothing: what the handler is given for
/// them, followed by the chunks that were not read, is the body that came in. And no more was held
/// than the cap and one chunk.
pub proof fn law_handler_sees_the_whole_body(
    body: Seq<Vec<u8>>,
    n: int,
    capture: Capture,
    captured: Captured,
)
    requires
        0 <= n <= body.len(),
        capture.wf(),
        capture.pieces() == body.take(n),
        captured.replay.bytes() == capture.bytes(),
    ensures
        captured.replay.bytes() + joined(body.skip(n)) == joined(body),
        n > 0 ==> joined(body.take(n - 1)).len() <= capture.limit(),
{
    lemma_joined_add(body.take(n), body.skip(n));
    assert(body.take(n) + body.skip(n) =~= body);
    if n > 0 {
        assert(body.take(n).drop_last() =~= body.take(n - 1));
    }
}

} // verus!
