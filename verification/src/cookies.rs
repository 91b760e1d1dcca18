//! The session and refresh cookies.
use crate::headers::{append_set_cookie, no_headers};
use crate::text;
use axum::http::HeaderMap;
use vstd::prelude::*;

verus! {

/// The session cookie. Scripts may read it: the web SDK takes the session token from it.
pub open spec fn session_cookie(session_jwt: Seq<char>, session_ttl: u64) -> Seq<char> {
    "DS="@ + session_jwt + "; SameSite=None; Secure; Path=/; Max-Age="@ + text::decimal(
        session_ttl as nat,
    )
}

/// The refresh cookie. Scripts cannot read it.
pub open spec fn refresh_cookie(refresh_jwt: Seq<char>) -> Seq<char> {
    "DSR="@ + refresh_jwt + "; HttpOnly; SameSite=None; Secure; Path=/"@
}

/// The headers that set both cookies.
pub open spec fn auth_cookies(
    session_jwt: Seq<char>,
    refresh_jwt: Seq<char>,
    session_ttl: u64,
) -> Map<Seq<char>, Seq<Seq<u8>>> {
    crate::headers::no_values().insert(
        "set-cookie"@,
        seq![
            vstd::utf8::encode_utf8(session_cookie(session_jwt, session_ttl)),
            vstd::utf8::encode_utf8(refresh_cookie(refresh_jwt)),
        ],
    )
}

/// The digits of a number can stand in a header.
proof fn lemma_decimal_is_header_safe(n: nat)
    ensures
        crate::headers::header_safe(text::decimal(n)),
    decreases n,
{
    if n >= 10 {
        lemma_decimal_is_header_safe(n / 10);
    }
}

/// Build Set-Cookie headers for DS (session) and DSR (refresh) cookies.
///
/// Both cookies use `SameSite=None; Secure` so they are sent on cross-origin
/// requests — e.g. a browser app on `http://localhost:4200` calling this
/// emulator on `http://localhost:4600`. `Secure` is mandatory alongside
/// `SameSite=None`; browsers treat `http://localhost` as a secure context, so
/// the attribute is honored over plain HTTP there.
///
/// The DS (session) cookie is intentionally NOT `HttpOnly`: the web SDK reads the
/// session JWT straight from `document.cookie`, so the session survives a full-page
/// reload without a re-login. The DSR (refresh) cookie stays `HttpOnly`
/// — JS never reads it; it rides along on the credentialed refresh request.
pub fn build_auth_cookies(session_jwt: &str, refresh_jwt: &str, session_ttl: u64) -> (r: HeaderMap)
    requires
        crate::headers::header_safe(session_jwt@),
        crate::headers::header_safe(refresh_jwt@),
    ensures
        crate::headers::header_values(r) == auth_cookies(session_jwt@, refresh_jwt@, session_ttl),
{
    let mut headers = no_headers();

    let mut ds: String = "DS=".to_owned();
    ds.append(session_jwt);
    ds.append("; SameSite=None; Secure; Path=/; Max-Age=");
    ds.append(text::to_decimal(session_ttl as u128).as_str());
    let mut dsr: String = "DSR=".to_owned();
    dsr.append(refresh_jwt);
    dsr.append("; HttpOnly; SameSite=None; Secure; Path=/");

    proof {
        reveal_strlit("DS=");
        reveal_strlit("; SameSite=None; Secure; Path=/; Max-Age=");
        reveal_strlit("DSR=");
        reveal_strlit("; HttpOnly; SameSite=None; Secure; Path=/");
        lemma_decimal_is_header_safe(session_ttl as nat);
        assert(crate::headers::header_safe(ds@));
        assert(crate::headers::header_safe(dsr@));
    }
    append_set_cookie(&mut headers, ds.as_str());
    append_set_cookie(&mut headers, dsr.as_str());
    proof {
        let cookies = auth_cookies(session_jwt@, refresh_jwt@, session_ttl);
        assert(crate::headers::header_values(headers)["set-cookie"@] =~= cookies["set-cookie"@]);
        assert(crate::headers::header_values(headers) =~= cookies);
    }
    headers
}

} // verus!
