//! Which requests are logged how: categories, settings, content types, bodies and the line.
use crate::request_log::{
    self, BodyLogConfig, BodyPrefix, Capture, Captured, Category, LogSeen, LogStep, ReadOutcome,
    Replay, RequestHead,
};
use crate::text;
use vstd::prelude::*;

verus! {

/// Whether this is a path of the API.
pub open spec fn of_the_api(path: Seq<char>) -> bool {
    ||| "/v1/"@.is_prefix_of(path)
    ||| "/v2/keys/"@.is_prefix_of(path)
    ||| "/.well-known/"@.is_prefix_of(path)
    ||| "/oauth/"@.is_prefix_of(path)
}

/// Whether this is a path of the emulator itself.
pub open spec fn of_the_emulator(path: Seq<char>) -> bool {
    "/emulator/"@.is_prefix_of(path) || path == "/health"@
}

/// Whether this is a path of the documentation.
pub open spec fn of_the_docs(path: Seq<char>) -> bool {
    path == "/docs"@ || path == "/openapi.json"@
}

/// No path is of two kinds.
proof fn lemma_kinds_are_apart(path: Seq<char>)
    ensures
        !(of_the_api(path) && of_the_emulator(path)),
        !(of_the_api(path) && of_the_docs(path)),
        !(of_the_emulator(path) && of_the_docs(path)),
{
    reveal_strlit("/v1/");
    reveal_strlit("/v2/keys/");
    reveal_strlit("/.well-known/");
    reveal_strlit("/oauth/");
    reveal_strlit("/emulator/");
    reveal_strlit("/health");
    reveal_strlit("/docs");
    reveal_strlit("/openapi.json");
    if of_the_api(path) {
        assert(path[1] == "/v1/"@[1] || path[1] == "/.well-known/"@[1] || (path[1] == "/oauth/"@[1]
            && path[2] == "/oauth/"@[2])) by {
            if "/v1/"@.is_prefix_of(path) {
                assert(path[1] == "/v1/"@[1]);
            } else if "/v2/keys/"@.is_prefix_of(path) {
                assert(path[1] == "/v2/keys/"@[1]);
            } else if "/.well-known/"@.is_prefix_of(path) {
                assert(path[1] == "/.well-known/"@[1]);
            } else {
                assert(path[1] == "/oauth/"@[1]);
                assert(path[2] == "/oauth/"@[2]);
            }
        }
    }
    if of_the_emulator(path) {
        assert(path[1] == 'e' || path[1] == 'h') by {
            if "/emulator/"@.is_prefix_of(path) {
                assert(path[1] == "/emulator/"@[1]);
            }
        }
    }
    if of_the_docs(path) {
        assert(path[1] == 'd' || (path[1] == 'o' && path[2] == 'p'));
    }
}

/// Every path belongs to the category that its beginning says, and to the UI where it says none;
/// and each category has its tag. Requests for the API and for the emulator are shown by default,
/// those for its health are not, and neither are any others.
pub proof fn law_categories(path: Seq<char>)
    ensures
        request_log::category_of(path) == Category::Api <==> of_the_api(path),
        request_log::category_of(path) == Category::Emu <==> of_the_emulator(path),
        request_log::category_of(path) == Category::Docs <==> of_the_docs(path),
        request_log::category_of(path) == Category::Ui <==> !of_the_api(path) && !of_the_emulator(
            path,
        ) && !of_the_docs(path),
        Category::Api.tagged() == "[API]"@,
        Category::Emu.tagged() == "[EMU]"@,
        Category::Docs.tagged() == "[DOCS]"@,
        Category::Ui.tagged() == "[UI]"@,
        !request_log::debug_only(request_log::category_of(path), path) <==> (of_the_api(path)
            || "/emulator/"@.is_prefix_of(path)),
{
    lemma_kinds_are_apart(path);
    reveal_strlit("/emulator/");
    reveal_strlit("/health");
    if "/emulator/"@.is_prefix_of(path) {
        assert(path[1] == "/emulator/"@[1]);
    }
}

/// Bodies are logged unless the setting is `0`. The cap is the number that the setting stands for,
/// where it is positive and fits, and 256 otherwise, as it is without a setting.
pub proof fn law_settings(
    body: Option<Seq<char>>,
    max: Option<Seq<char>>,
    cfg: BodyLogConfig,
    digits: Seq<char>,
)
    requires
        request_log::configured(body, max, cfg),
        digits.len() > 0,
        forall|i: int| 0 <= i < digits.len() ==> '0' <= #[trigger] digits[i] <= '9',
    ensures
        cfg.enabled <==> body != Some("0"@),
        max is None ==> cfg.max == 256,
        max == Some(digits) && 0 < text::number_of(digits) <= usize::MAX ==> cfg.max
            == text::number_of(digits),
        max == Some(digits) && (text::number_of(digits) == 0 || text::number_of(digits)
            > usize::MAX) ==> cfg.max == 256,
        max == Some(seq!['+'] + digits) && 0 < text::number_of(digits) <= usize::MAX ==> cfg.max
            == text::number_of(digits),
        (max matches Some(setting) && (setting.len() == 0 || setting == seq!['+'])) ==> cfg.max
            == 256,
        (max matches Some(setting) && (exists|i: int|
            0 <= i < setting.len() && !('0' <= #[trigger] setting[i] <= '9') && (i > 0
                || setting[i] != '+'))) ==> cfg.max == 256,
{
    text::law_number_is_read(digits, digits);
    if let Some(setting) = max {
        text::law_number_is_read(digits, setting);
        if setting == seq!['+'] {
            assert(setting.drop_first() =~= Seq::<char>::empty());
        }
    }
}

/// Whether this type, in whatever case, is JSON, a form, or some kind of text or JSON.
pub open spec fn is_text(media_type: Seq<char>) -> bool {
    let t = media_type.map_values(|c: char| text::ascii_lower(c));
    ||| t == "application/json"@
    ||| t == "application/x-www-form-urlencoded"@
    ||| exists|rest: Seq<char>| t == #[trigger] ("text/"@ + rest)
    ||| exists|rest: Seq<char>| t == #[trigger] (rest + "+json"@)
}

/// Whether content is text goes by its type alone, in whatever case, with white space around it or
/// without, and whatever parameters come behind it; content without a type is none.
pub proof fn law_content_type(
    lead: Seq<char>,
    media_type: Seq<char>,
    trail: Seq<char>,
    parameters: Seq<char>,
)
    requires
        forall|i: int| 0 <= i < lead.len() ==> text::is_space(#[trigger] lead[i]),
        forall|i: int| 0 <= i < trail.len() ==> text::is_space(#[trigger] trail[i]),
        media_type.len() > 0 ==> !text::is_space(media_type[0]) && !text::is_space(
            media_type.last(),
        ),
        !media_type.contains(';'),
    ensures
        request_log::textual(Some(lead + media_type + trail)) == is_text(media_type),
        request_log::textual(Some(lead + media_type + trail + seq![';'] + parameters)) == is_text(
            media_type,
        ),
        !request_log::textual(None),
{
    let written = lead + media_type + trail;
    assert(!written.contains(';')) by {
        if written.contains(';') {
            let i = choose|i: int| 0 <= i < written.len() && written[i] == ';';
            let n = lead.len() as int;
            if i < n {
                assert(text::is_space(lead[i]));
            } else if i < n + media_type.len() {
                assert(media_type[i - n] == ';');
            } else {
                assert(text::is_space(trail[i - n - media_type.len()]));
            }
        }
    }
    text::law_split_at_first(written, ';', parameters);
    text::law_trim_takes_only_the_ends(lead, media_type, trail);
    let t = media_type.map_values(|c: char| text::ascii_lower(c));
    assert(request_log::media_type(written) == t);
    if "text/"@.is_prefix_of(t) {
        assert(t =~= "text/"@ + t.skip("text/"@.len() as int));
    }
    if "+json"@.is_suffix_of(t) {
        assert(t =~= t.take(t.len() - "+json"@.len()) + "+json"@);
    }
    assert forall|rest: Seq<char>| t == #[trigger] ("text/"@ + rest) implies "text/"@.is_prefix_of(
        t,
    ) by {
        assert(("text/"@ + rest).take("text/"@.len() as int) =~= "text/"@);
    }
    assert forall|rest: Seq<char>| t == #[trigger] (rest + "+json"@) implies "+json"@.is_suffix_of(
        t,
    ) by {
        assert((rest + "+json"@).skip(rest.len() as int) =~= "+json"@);
    }
}

/// With body logging enabled, the body of every request for the API or the emulator that holds text
/// is read, up to just past the cap, before the handler runs; and that of every response with an
/// error that holds text, before the line is logged. No other body is read.
pub proof fn law_bodies_are_read_where_due(
    cfg: BodyLogConfig,
    req: RequestHead,
    seen: LogSeen,
    step: LogStep,
)
    requires
        request_log::log_is(cfg, req, seen, step),
    ensures
        request_due(cfg, req) && seen.request_body is None <==> step is CaptureRequest,
        step matches LogStep::CaptureRequest { cap } ==> cap == cfg.max,
        (!request_due(cfg, req) || seen.request_body is Some) && seen.response is None <==> (
        step is RunInner),
        (!request_due(cfg, req) || seen.request_body is Some) && (
        seen.response matches Some(response) && cfg.enabled && response.status >= 400
            && request_log::textual(text::shown(response.content_type))
            && seen.response_body is None) <==> step is CaptureResponse,
        step matches LogStep::CaptureResponse { cap } ==> cap == cfg.max,
{
    law_categories(req.path@);
}

/// Whether the request's body is to be logged.
pub open spec fn request_due(cfg: BodyLogConfig, req: RequestHead) -> bool {
    &&& cfg.enabled
    &&& request_log::textual(text::shown(req.content_type))
    &&& {
        ||| "/v1/"@.is_prefix_of(req.path@)
        ||| "/v2/keys/"@.is_prefix_of(req.path@)
        ||| "/.well-known/"@.is_prefix_of(req.path@)
        ||| "/oauth/"@.is_prefix_of(req.path@)
        ||| "/emulator/"@.is_prefix_of(req.path@)
        ||| req.path@ == "/health"@
    }
}

/// Once the line is due it holds, behind the tag, the method, the target, the status and the
/// latency, the request's body where it was to be logged and is not empty, then the response's
/// likewise, each behind its label, and nothing else.
pub proof fn law_line_of_a_request(
    cfg: BodyLogConfig,
    req: RequestHead,
    seen: LogSeen,
    step: LogStep,
    tag: Seq<char>,
)
    requires
        request_log::log_is(cfg, req, seen, step),
        of_the_api(req.path@) ==> tag == "[API]"@,
        of_the_emulator(req.path@) ==> tag == "[EMU]"@,
        of_the_docs(req.path@) ==> tag == "[DOCS]"@,
        !of_the_api(req.path@) && !of_the_emulator(req.path@) && !of_the_docs(req.path@) ==> tag
            == "[UI]"@,
    ensures
        step matches LogStep::Emit { line, .. } ==> {
            &&& !seen.logged
            &&& seen.response matches Some(response)
            &&& line@ == tag + " "@ + req.method@ + " "@ + (match req.path_and_query {
                Some(path_and_query) => path_and_query@,
                None => req.path@,
            }) + " "@ + text::decimal(response.status as nat) + " "@ + text::decimal(
                response.latency_ms as nat,
            ) + "ms"@ + told(" body="@, request_due(cfg, req), seen.request_body, cfg.max) + told(
                " resp="@,
                cfg.enabled && response.status >= 400 && request_log::textual(
                    text::shown(response.content_type),
                ),
                seen.response_body,
                cfg.max,
            )
        },
        step is Finish ==> seen.logged,
{
    law_categories(req.path@);
    reveal_strlit("");
    assert(""@ =~= Seq::<char>::empty());
}

/// The part of a line that tells a body: nothing where it was not to be logged, was not read or is
/// empty.
pub open spec fn told(
    label: Seq<char>,
    due: bool,
    body: Option<BodyPrefix>,
    cap: usize,
) -> Seq<char> {
    if due && body is Some && body->0.prefix@.len() > 0 {
        label + request_log::logged(
            request_log::lossy_text(body->0.prefix@),
            cap as nat,
            body->0.truncated,
        )
    } else {
        Seq::empty()
    }
}

/// The bytes of chunks are those of each chunk, one after the other.
pub proof fn law_chunks_add_up(a: Seq<Vec<u8>>, b: Seq<Vec<u8>>, chunk: Vec<u8>)
    ensures
        request_log::joined(Seq::<Vec<u8>>::empty()) == Seq::<u8>::empty(),
        request_log::joined(seq![chunk]) == chunk@,
        request_log::joined(a + b) == request_log::joined(a) + request_log::joined(b),
{
    request_log::lemma_joined_add(a, b);
    reveal_with_fuel(request_log::joined, 2);
    assert(seq![chunk].drop_last() =~= Seq::<Vec<u8>>::empty());
    assert(request_log::joined(seq![chunk]) =~= chunk@);
}

/// Of a body that was read, the log gets what is within the cap, and is told whether that was all;
/// the handler gets every byte, and behind it what is left to read, or the error.
pub proof fn law_captured_body(capture: Capture, outcome: ReadOutcome, captured: Captured)
    requires
        request_log::captured_is(capture, outcome, captured),
    ensures
        captured.prefix@.is_prefix_of(capture.bytes()),
        captured.prefix@.len() <= capture.limit(),
        captured.prefix@.len() == capture.limit() || captured.prefix@ == capture.bytes(),
        captured.truncated <==> captured.prefix@ != capture.bytes(),
        captured.replay.bytes() == capture.bytes(),
        outcome == ReadOutcome::Complete <==> captured.replay is Whole,
        outcome == ReadOutcome::HasMore <==> captured.replay is ThenRest,
        outcome == ReadOutcome::Errored <==> captured.replay is ThenError,
        captured.replay matches Replay::ThenRest(chunks) ==> chunks@ == capture.pieces(),
        captured.replay matches Replay::ThenError(chunks) ==> chunks@ == capture.pieces(),
{
}

/// A body is read until more of it was read than the cap allows, which tells a body that goes on
/// from one that just fits; and no further.
pub proof fn law_reading_stops_just_past_the_cap(read: nat, cap: usize)
    ensures
        read <= cap ==> request_log::reads_on(read, cap),
        read > cap ==> !request_log::reads_on(read, cap),
{
}

} // verus!
