//! Static flow-runtime assets served for the `descope-wc` web component.
//!
//! The widget fetches its screen config and per-screen HTML from
//! `<base-static-url>/pages/<projectId>/<version>/<file>`. The three assets are
//! served for ANY project id / version path segment, so the emulator answers
//! regardless of which project the SDK targets.
use crate::routes::auth::flow;
use crate::text;
use vstd::prelude::*;

verus! {

/// The three assets.
#[derive(Debug)]
pub struct FlowAssets {
    pub config_json: String,
    pub sign_in_html: String,
    pub sign_in_password_html: String,
}

/// An answer with an asset, or without one.
#[derive(Debug)]
pub struct AssetReply<'a> {
    pub status: u16,
    pub content_type: Option<&'static str>,
    pub cache_control: Option<&'static str>,
    pub body: &'a str,
}

/// Whether `reply` serves this asset as this type of content.
pub open spec fn serves(reply: AssetReply, body: Seq<char>, content_type: Seq<char>) -> bool {
    &&& reply.status == 200
    &&& text::shown_str(reply.content_type) == Some(content_type)
    &&& text::shown_str(reply.cache_control) == Some("no-cache"@)
    &&& reply.body@ == body
}

/// Whether `reply` says that there is no such asset.
pub open spec fn misses(reply: AssetReply) -> bool {
    &&& reply.status == 404
    &&& reply.content_type is None
    &&& reply.cache_control is None
    &&& reply.body@ == "flow asset not found"@
}

/// The file name of a path: what comes behind its last slash, or all of it where it has none.
pub open spec fn file_name(path: Seq<char>) -> Seq<char> {
    text::behind_last(path, '/')
}

/// Which asset a path asks for. Only its file name counts, not the project id or the version, and
/// there is no asset but the three.
pub open spec fn serve_is(path: Seq<char>, assets: FlowAssets, reply: AssetReply) -> bool {
    if file_name(path) == "config.json"@ {
        serves(reply, assets.config_json@, "application/json"@)
    } else if file_name(path) == "signInPassword.html"@ {
        serves(reply, assets.sign_in_password_html@, "text/html; charset=utf-8"@)
    } else if file_name(path) == "signIn.html"@ {
        serves(reply, assets.sign_in_html@, "text/html; charset=utf-8"@)
    } else {
        misses(reply)
    }
}

/// GET /pages/*rest: serve a flow asset by the request path tail.
///
/// Matching ignores the projectId/version path segments and keys off the file
/// name only:
///
/// * `.../config.json`: config.json (application/json)
/// * `.../signInPassword.html`: password screen (text/html)
/// * `.../signIn.html`: email screen (text/html)
///
/// Anything else is answered 404.
pub fn serve<'a>(path: &str, assets: &'a FlowAssets) -> (r: AssetReply<'a>)
    ensures
        serve_is(path@, *assets, r),
{
    let file = text::after_last(path, '/');
    let (body, content_type) = if text::same(file.as_str(), "config.json") {
        (assets.config_json.as_str(), "application/json")
    } else if text::same(file.as_str(), "signInPassword.html") {
        (assets.sign_in_password_html.as_str(), "text/html; charset=utf-8")
    } else if text::same(file.as_str(), "signIn.html") {
        (assets.sign_in_html.as_str(), "text/html; charset=utf-8")
    } else {
        return AssetReply {
            status: 404,
            content_type: None,
            cache_control: None,
            body: "flow asset not found",
        };
    };
    AssetReply {
        status: 200,
        content_type: Some(content_type),
        cache_control: Some("no-cache"),
        body,
    }
}

/// Every screen that a flow shows is served under its id, with `.html` behind it, in whatever
/// directory: the email screen as its page and the password screen as its own.
pub proof fn law_every_screen_is_served(head: Seq<char>, assets: FlowAssets, reply: AssetReply)
    requires
        head.len() == 0 || head.last() == '/',
    ensures
        serve_is(head + (flow::SCREEN_SIGNIN@ + ".html"@), assets, reply) ==> serves(
            reply,
            assets.sign_in_html@,
            "text/html; charset=utf-8"@,
        ),
        serve_is(head + (flow::SCREEN_PASSWORD@ + ".html"@), assets, reply) ==> serves(
            reply,
            assets.sign_in_password_html@,
            "text/html; charset=utf-8"@,
        ),
{
    reveal_strlit("config.json");
    reveal_strlit("signInPassword.html");
    reveal_strlit("signIn.html");
    reveal_strlit("signIn");
    reveal_strlit("signInPassword");
    reveal_strlit(".html");
    let email = "signIn.html"@;
    let password = "signInPassword.html"@;
    assert(email =~= flow::SCREEN_SIGNIN@ + ".html"@);
    assert(password =~= flow::SCREEN_PASSWORD@ + ".html"@);
    text::lemma_behind_last(head, email, '/');
    text::lemma_behind_last(head, password, '/');
    assert(email.len() != password.len());
    assert(email.last() == 'l' && password.last() == 'l' && "config.json"@.last() == 'n');
}

/// The directory that a file is asked for in does not matter.
pub proof fn law_only_the_file_name_counts(
    head: Seq<char>,
    other: Seq<char>,
    file: Seq<char>,
    assets: FlowAssets,
    reply: AssetReply,
)
    requires
        head.len() == 0 || head.last() == '/',
        other.len() == 0 || other.last() == '/',
        !file.contains('/'),
    ensures
        file_name(head + file) == file,
        serve_is(head + file, assets, reply) <==> serve_is(other + file, assets, reply),
{
    text::lemma_behind_last(head, file, '/');
    text::lemma_behind_last(other, file, '/');
}

/// In whatever directory, the three files are served, each as what it is and not to be kept, and
/// any other file is not there.
pub proof fn law_three_files_are_served(
    head: Seq<char>,
    file: Seq<char>,
    assets: FlowAssets,
    reply: AssetReply,
)
    requires
        head.len() == 0 || head.last() == '/',
        !file.contains('/'),
        serve_is(head + file, assets, reply),
    ensures
        reply.status == 200 || reply.status == 404,
        reply.status == 200 <==> file == "config.json"@ || file == "signIn.html"@ || file
            == "signInPassword.html"@,
        reply.status == 200 ==> (reply.cache_control matches Some(control) && control@
            == "no-cache"@),
        file == "config.json"@ ==> reply.body@ == assets.config_json@ && (
        reply.content_type matches Some(t) && t@ == "application/json"@),
        file == "signIn.html"@ ==> reply.body@ == assets.sign_in_html@ && (
        reply.content_type matches Some(t) && t@ == "text/html; charset=utf-8"@),
        file == "signInPassword.html"@ ==> reply.body@ == assets.sign_in_password_html@ && (
        reply.content_type matches Some(t) && t@ == "text/html; charset=utf-8"@),
        reply.status == 404 ==> reply.body@ == "flow asset not found"@
            && reply.content_type is None && reply.cache_control is None,
{
    reveal_strlit("config.json");
    reveal_strlit("signInPassword.html");
    reveal_strlit("signIn.html");
    text::lemma_behind_last(head, file, '/');
    assert("signIn.html"@.len() != "signInPassword.html"@.len());
    assert("config.json"@.len() != "signInPassword.html"@.len());
    assert("config.json"@[0] != "signIn.html"@[0]);
}

} // verus!
