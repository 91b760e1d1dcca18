//! Which of a user's tokens a logout from everywhere took back.
use crate::store::text_map::TextMap;
use vstd::prelude::*;

verus! {

/// For each user who logged out everywhere, the time, in seconds since the epoch, before which
/// tokens must not have been issued. There is one such store for refresh tokens and one for session
/// tokens.
#[derive(Debug)]
pub struct UserRevocations {
    boundaries: TextMap<u64>,
}

/// Whether a token issued at `iat` was taken back.
pub open spec fn taken_back(boundary: Option<u64>, iat: u64) -> bool {
    match boundary {
        Some(revoked_at) => iat < revoked_at,
        None => false,
    }
}

/// Whether a token issued at `iat` was taken back.
pub fn is_taken_back(boundary: Option<u64>, iat: u64) -> (r: bool)
    ensures
        r == taken_back(boundary, iat),
{
    match boundary {
        Some(revoked_at) => iat < revoked_at,
        None => false,
    }
}

/// The boundary of this user, where there is one.
pub open spec fn boundary_of(boundaries: Map<Seq<char>, u64>, user_id: Seq<char>) -> Option<u64> {
    if boundaries.contains_key(user_id) {
        Some(boundaries[user_id])
    } else {
        None
    }
}

/// The second after `now`, where there is one.
pub open spec fn next_second(now: u64) -> u64 {
    if now < u64::MAX {
        (now + 1) as u64
    } else {
        now
    }
}

/// A time later than the issue of every other token so far: the second after `now`, since times
/// are whole seconds, or the issue of the token presented, should the clock be behind it.
pub open spec fn end_of_issue(now: u64, iat: u64) -> u64 {
    if next_second(now) < iat {
        iat
    } else {
        next_second(now)
    }
}

/// A time later than the issue of every other token so far.
pub fn after_last_issue(now: u64, iat: u64) -> (r: u64)
    ensures
        r == end_of_issue(now, iat),
{
    let next: u64 = now.saturating_add(1);
    if next < iat {
        iat
    } else {
        next
    }
}

/// The boundaries once this user logged out everywhere and tokens issued before `revoked_at` are
/// taken back: a boundary only ever moves forward.
pub open spec fn raised(
    boundaries: Map<Seq<char>, u64>,
    user_id: Seq<char>,
    revoked_at: u64,
) -> Map<Seq<char>, u64> {
    if boundaries.contains_key(user_id) && revoked_at <= boundaries[user_id] {
        boundaries
    } else {
        boundaries.insert(user_id, revoked_at)
    }
}

impl View for UserRevocations {
    type V = Map<Seq<char>, u64>;

    closed spec fn view(&self) -> Map<Seq<char>, u64> {
        self.boundaries@
    }
}

impl UserRevocations {
    /// Whether each user is there once.
    pub closed spec fn wf(self) -> bool {
        self.boundaries.wf()
    }

    /// No user has logged out everywhere.
    pub fn new() -> (r: Self)
        ensures
            r.wf(),
            r@ == Map::<Seq<char>, u64>::empty(),
    {
        UserRevocations { boundaries: TextMap::new() }
    }

    /// The boundary of this user, where there is one.
    pub fn boundary(&self, user_id: &str) -> (r: Option<u64>)
        requires
            self.wf(),
        ensures
            r == boundary_of(self@, user_id@),
    {
        match self.boundaries.get(user_id) {
            Some(revoked_at) => Some(*revoked_at),
            None => None,
        }
    }

    /// Take back the tokens of this user that were issued before `revoked_at`.
    pub fn raise(&mut self, user_id: String, revoked_at: u64)
        requires
            old(self).wf(),
        ensures
            final(self).wf(),
            final(self)@ == raised(old(self)@, user_id@, revoked_at),
    {
        match self.boundary(user_id.as_str()) {
            Some(before) => {
                if revoked_at > before {
                    self.boundaries.insert(user_id, revoked_at);
                }
            },
            None => {
                self.boundaries.insert(user_id, revoked_at);
            },
        }
    }
}

/// A logout from everywhere at `now` takes back every refresh token of the user issued so far,
/// whichever token was presented: those issued before `now`, those issued within its second, and
/// those older than the one presented. No other user is concerned.
pub proof fn law_logout_takes_back_every_token(
    boundaries: Map<Seq<char>, u64>,
    user_id: Seq<char>,
    now: u64,
    iat: u64,
    token_iat: u64,
    other: Seq<char>,
)
    ensures
        ({
            let after = raised(boundaries, user_id, end_of_issue(now, iat));
            &&& token_iat < now ==> taken_back(boundary_of(after, user_id), token_iat)
            &&& token_iat <= now && now < u64::MAX ==> taken_back(
                boundary_of(after, user_id),
                token_iat,
            )
            &&& token_iat < iat ==> taken_back(boundary_of(after, user_id), token_iat)
            &&& other != user_id ==> boundary_of(after, other) == boundary_of(boundaries, other)
        }),
{
}

/// A refresh token issued in a later second than a logout from everywhere, and not before the one
/// presented, is not taken back by it: only an earlier logout can have done so.
pub proof fn law_later_tokens_stay(
    boundaries: Map<Seq<char>, u64>,
    user_id: Seq<char>,
    now: u64,
    iat: u64,
    token_iat: u64,
)
    requires
        token_iat > now,
        token_iat >= iat,
        !taken_back(boundary_of(boundaries, user_id), token_iat),
    ensures
        !taken_back(
            boundary_of(raised(boundaries, user_id, end_of_issue(now, iat)), user_id),
            token_iat,
        ),
{
}

/// A token once taken back stays so, whoever logs out afterwards.
pub proof fn law_taken_back_for_good(
    boundaries: Map<Seq<char>, u64>,
    holder: Seq<char>,
    token_iat: u64,
    user_id: Seq<char>,
    revoked_at: u64,
)
    requires
        taken_back(boundary_of(boundaries, holder), token_iat),
    ensures
        taken_back(boundary_of(raised(boundaries, user_id, revoked_at), holder), token_iat),
{
}

/// The order in which a user's logouts arrive does not matter.
pub proof fn law_logouts_commute(
    boundaries: Map<Seq<char>, u64>,
    user_id: Seq<char>,
    first: u64,
    second: u64,
)
    ensures
        raised(raised(boundaries, user_id, first), user_id, second) == raised(
            raised(boundaries, user_id, second),
            user_id,
            first,
        ),
{
    assert(raised(raised(boundaries, user_id, first), user_id, second) =~= raised(
        raised(boundaries, user_id, second),
        user_id,
        first,
    ));
}

/// A token was taken back exactly where its holder has a boundary and it was issued before that;
/// whoever never logged out everywhere keeps every token.
pub proof fn law_boundary_parts_the_tokens(
    boundaries: Map<Seq<char>, u64>,
    holder: Seq<char>,
    iat: u64,
)
    ensures
        taken_back(boundary_of(boundaries, holder), iat) <==> boundaries.contains_key(holder) && iat
            < boundaries[holder],
{
}

/// Taking back a user's tokens up to some time sets the user's boundary to that time, unless it is
/// later already, and sets no other boundary.
pub proof fn law_raise_moves_one_boundary(
    boundaries: Map<Seq<char>, u64>,
    user_id: Seq<char>,
    revoked_at: u64,
    other: Seq<char>,
)
    ensures
        ({
            let after = raised(boundaries, user_id, revoked_at);
            &&& after.contains_key(user_id)
            &&& after[user_id] >= revoked_at
            &&& boundaries.contains_key(user_id) ==> after[user_id] >= boundaries[user_id]
            &&& after[user_id] == revoked_at || (boundaries.contains_key(user_id) && after[user_id]
                == boundaries[user_id])
            &&& other != user_id ==> (after.contains_key(other) <==> boundaries.contains_key(other))
            &&& other != user_id && boundaries.contains_key(other) ==> after[other]
                == boundaries[other]
        }),
{
}

} // verus!
