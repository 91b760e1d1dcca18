//! Tokens in `Authorization` headers.
use crate::text;
use vstd::prelude::*;

verus! {

/// A bearer token without the project id and colon that may come before it.
pub open spec fn bare_token(credentials: Seq<char>) -> Seq<char> {
    match text::behind(credentials, ':') {
        Some(token) => token,
        None => credentials,
    }
}

/// A bearer token without the project id and colon that may come before it.
pub fn strip_project_id(credentials: &str) -> (r: String)
    ensures
        r@ == bare_token(credentials@),
{
    let chars = text::to_chars(credentials);
    let colon = text::find(&chars, ':');
    proof {
        text::lemma_position(credentials@, ':');
    }
    if colon < chars.len() {
        let r = text::from_chars(&chars, colon + 1, chars.len());
        assert(r@ =~= credentials@.skip(colon + 1));
        r
    } else {
        credentials.to_owned()
    }
}

/// What comes before the first colon is dropped with it, and credentials without a colon are the
/// token itself.
pub proof fn law_project_id_is_dropped(project_id: Seq<char>, token: Seq<char>)
    requires
        !project_id.contains(':'),
    ensures
        bare_token(project_id + ":"@ + token) == token,
        !token.contains(':') ==> bare_token(token) == token,
{
    reveal_strlit(":");
    text::law_split_at_first(project_id, ':', token);
    assert(project_id + ":"@ + token =~= project_id + seq![':'] + token);
}

} // verus!
