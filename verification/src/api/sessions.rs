//! The backend's endpoints and their paths.

use vstd::prelude::*;

verus! {

/// An endpoint of the backend. Session endpoints carry the session's
/// identifier.
#[derive(Debug, Clone, Copy)]
pub enum Endpoint {
    Register,
    Login,
    Refresh,
    Logout,
    /// The collection of sessions: listing and creation.
    Sessions,
    /// One session: lookup and deletion.
    Session(u128),
    JoinSession(u128),
    LeaveSession(u128),
    MatchmakingQueue,
    MatchmakingStatus,
}

/// The lower-case hexadecimal digit for `n`, which is below 16.
pub open spec fn hex_digit(n: int) -> char {
    if n == 0 {
        '0'
    } else if n == 1 {
        '1'
    } else if n == 2 {
        '2'
    } else if n == 3 {
        '3'
    } else if n == 4 {
        '4'
    } else if n == 5 {
        '5'
    } else if n == 6 {
        '6'
    } else if n == 7 {
        '7'
    } else if n == 8 {
        '8'
    } else if n == 9 {
        '9'
    } else if n == 10 {
        'a'
    } else if n == 11 {
        'b'
    } else if n == 12 {
        'c'
    } else if n == 13 {
        'd'
    } else if n == 14 {
        'e'
    } else {
        'f'
    }
}

/// The `k`-th of the 32 four-bit groups of `id`, counted from the most
/// significant.
pub open spec fn nibble(id: u128, k: int) -> int {
    (id as int / vstd::arithmetic::power::pow(16, (31 - k) as nat)) % 16
}

/// How many hyphens stand before position `i` of a hyphenated identifier.
pub open spec fn hyphens_before(i: int) -> int {
    if i < 8 {
        0
    } else if i < 13 {
        1
    } else if i < 18 {
        2
    } else if i < 23 {
        3
    } else {
        4
    }
}

/// The usual text of a UUID: 32 lower-case hexadecimal digits, most
/// significant first, in groups of 8, 4, 4, 4 and 12 joined by hyphens.
pub open spec fn hyphenated(id: u128) -> Seq<char> {
    Seq::new(
        36,
        |i: int|
            if i == 8 || i == 13 || i == 18 || i == 23 {
                '-'
            } else {
                hex_digit(nibble(id, i - hyphens_before(i)))
            },
    )
}

/// Formats an identifier with `uuid::Uuid::from_u128` and the `Display`
/// of `uuid::Uuid`. The result is taken to be the hyphenated lower-case
/// text of the identifier.
#[verifier::external_body]
fn uuid_text(id: u128) -> (text: String)
    ensures
        text@ == hyphenated(id),
{
    uuid::Uuid::from_u128(id).to_string()
}

impl Endpoint {
    /// The path of the endpoint below the backend's base address.
    pub open spec fn spec_path(&self) -> Seq<char> {
        match self {
            Endpoint::Register => "/api/v1/auth/register"@,
            Endpoint::Login => "/api/v1/auth/login"@,
            Endpoint::Refresh => "/api/v1/auth/refresh"@,
            Endpoint::Logout => "/api/v1/auth/logout"@,
            Endpoint::Sessions => "/api/v1/sessions"@,
            Endpoint::Session(id) => "/api/v1/sessions/"@ + hyphenated(*id),
            Endpoint::JoinSession(id) => "/api/v1/sessions/"@ + hyphenated(*id) + "/join"@,
            Endpoint::LeaveSession(id) => "/api/v1/sessions/"@ + hyphenated(*id) + "/leave"@,
            Endpoint::MatchmakingQueue => "/api/v1/matchmaking/queue"@,
            Endpoint::MatchmakingStatus => "/api/v1/matchmaking/status"@,
        }
    }

    /// The path of the endpoint below the backend's base address.
    pub fn path(&self) -> (path: String)
        ensures
            path@ == self.spec_path(),
    {
        match self {
            Endpoint::Register => String::from_str("/api/v1/auth/register"),
            Endpoint::Login => String::from_str("/api/v1/auth/login"),
            Endpoint::Refresh => String::from_str("/api/v1/auth/refresh"),
            Endpoint::Logout => String::from_str("/api/v1/auth/logout"),
            Endpoint::Sessions => String::from_str("/api/v1/sessions"),
            Endpoint::Session(id) => {
                let text = uuid_text(*id);
                String::from_str("/api/v1/sessions/").concat(text.as_str())
            },
            Endpoint::JoinSession(id) => {
                let text = uuid_text(*id);
                String::from_str("/api/v1/sessions/").concat(text.as_str()).concat("/join")
            },
            Endpoint::LeaveSession(id) => {
                let text = uuid_text(*id);
                String::from_str("/api/v1/sessions/").concat(text.as_str()).concat("/leave")
            },
            Endpoint::MatchmakingQueue => String::from_str("/api/v1/matchmaking/queue"),
            Endpoint::MatchmakingStatus => String::from_str("/api/v1/matchmaking/status"),
        }
    }
}

} // verus!
