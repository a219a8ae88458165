//! Who is calling: the identity that a session token carries, and the rules
//! by which a caller may act.
use crate::clock::Timestamp;
use vstd::prelude::*;
use vstd::string::StrSliceExecFns;

verus! {

/// How long a session lasts: one day, in seconds.
pub const SESSION_SECONDS: i64 = 86_400;

/// What a session token states.
#[derive(Debug)]
pub struct Claims {
    /// The resident's identifier.
    pub sub: u32,
    /// The resident's name.
    pub name: String,
    /// The caller's role: `admin` or `user`.
    pub role: String,
    /// When the session ends, in seconds since the Unix epoch.
    pub exp: usize,
}

/// A caller whose token was found valid.
pub struct AuthenticatedUser {
    /// The caller's identifier.
    pub id: u32,
    /// The caller's name.
    pub name: String,
    /// The caller's role: `admin` or `user`.
    pub role: String,
}

/// The second at which a session that starts at `now` ends, as a token
/// states it.
pub open spec fn session_end(now: Timestamp) -> usize {
    (now.seconds + SESSION_SECONDS) as usize
}

/// The scheme word and the blank with which a bearer credential begins.
pub open spec fn bearer_prefix() -> Seq<char> {
    seq!['B', 'e', 'a', 'r', 'e', 'r', ' ']
}

impl Claims {
    /// The claims of a session of `id`, begun at `now` and lasting a day.
    pub fn for_session(id: u32, name: String, role: String, now: Timestamp) -> (claims: Claims)
        requires
            now.seconds <= i64::MAX - SESSION_SECONDS,
        ensures
            claims.sub == id,
            claims.name == name,
            claims.role == role,
            claims.exp == session_end(now),
    {
        let end: i64 = now.seconds + SESSION_SECONDS;
        Claims {
            sub: id,
            name,
            role,
            exp: #[verifier::truncate]
            (end as usize),
        }
    }
}

impl AuthenticatedUser {
    /// The caller that valid claims stand for.
    pub fn from_claims(claims: Claims) -> (user: AuthenticatedUser)
        ensures
            user.id == claims.sub,
            user.name == claims.name,
            user.role == claims.role,
    {
        AuthenticatedUser { id: claims.sub, name: claims.name, role: claims.role }
    }

    /// Whether the caller has the role `admin`.
    pub open spec fn has_admin_role(&self) -> bool {
        self.role@ == seq!['a', 'd', 'm', 'i', 'n']
    }

    /// Tells whether the caller is an administrator.
    pub fn is_admin(&self) -> (yes: bool)
        ensures
            yes == self.has_admin_role(),
    {
        proof {
            reveal_strlit("admin");
            assert("admin"@ =~= seq!['a', 'd', 'm', 'i', 'n']);
        }
        self.role == "admin".to_owned()
    }
}

/// The token of an `Authorization` header: what follows `Bearer ` where the
/// header begins with it, and nothing for any other header.
pub fn bearer_token(header: &str) -> (token: Option<&str>)
    ensures
        token is Some <==> bearer_prefix().is_prefix_of(header@),
        token matches Some(t) ==> t@ == header@.skip(7) && header@ == bearer_prefix() + t@,
{
    proof {
        reveal_strlit("Bearer ");
        assert("Bearer "@ =~= bearer_prefix());
    }
    let n = header.unicode_len();
    if n < 7 {
        return None;
    }
    let head = header.substring_char(0, 7);
    if head.to_owned() == "Bearer ".to_owned() {
        let token = header.substring_char(7, n);
        assert(token@ =~= header@.skip(7));
        assert(header@ =~= bearer_prefix() + token@);
        Some(token)
    } else {
        None
    }
}

} // verus!
