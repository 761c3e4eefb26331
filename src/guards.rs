//! Request guards: reading the bearer token out of an `Authorization` header
//! and deciding, from the outcome of checking it, whether a request passes.

use vstd::prelude::*;

verus! {

/// White space as Unicode's White_Space property defines it, the set that
/// `char::is_whitespace` tests.
pub open spec fn is_space(c: char) -> bool {
    let n = c as u32;
    ||| 0x9 <= n <= 0xd
    ||| n == 0x20
    ||| n == 0x85
    ||| n == 0xa0
    ||| n == 0x1680
    ||| 0x2000 <= n <= 0x200a
    ||| n == 0x2028
    ||| n == 0x2029
    ||| n == 0x202f
    ||| n == 0x205f
    ||| n == 0x3000
}

pub open spec fn bearer_prefix() -> Seq<char> {
    seq!['B', 'e', 'a', 'r', 'e', 'r', ' ']
}

/// `s` with every leading repetition of `"Bearer "` removed.
pub open spec fn strip_bearer(s: Seq<char>) -> Seq<char>
    decreases s.len(),
{
    if 7 <= s.len() && s.take(7) == bearer_prefix() {
        strip_bearer(s.skip(7))
    } else {
        s
    }
}

/// `s` without leading white space.
pub open spec fn trim_spaces_start(s: Seq<char>) -> Seq<char>
    decreases s.len(),
{
    if s.len() > 0 && is_space(s[0]) {
        trim_spaces_start(s.skip(1))
    } else {
        s
    }
}

/// `s` without trailing white space.
pub open spec fn trim_spaces_end(s: Seq<char>) -> Seq<char>
    decreases s.len(),
{
    if s.len() > 0 && is_space(s.last()) {
        trim_spaces_end(s.drop_last())
    } else {
        s
    }
}

/// `s` without leading double quotes.
pub open spec fn trim_quotes_start(s: Seq<char>) -> Seq<char>
    decreases s.len(),
{
    if s.len() > 0 && s[0] == '"' {
        trim_quotes_start(s.skip(1))
    } else {
        s
    }
}

/// `s` without trailing double quotes.
pub open spec fn trim_quotes_end(s: Seq<char>) -> Seq<char>
    decreases s.len(),
{
    if s.len() > 0 && s.last() == '"' {
        trim_quotes_end(s.drop_last())
    } else {
        s
    }
}

/// The token an `Authorization` header carries: any `"Bearer "` prefixes
/// removed, then surrounding white space, then surrounding double quotes.
pub open spec fn token_of(header: Seq<char>) -> Seq<char> {
    trim_quotes_end(trim_quotes_start(trim_spaces_end(trim_spaces_start(strip_bearer(header)))))
}

fn is_space_char(c: char) -> (b: bool)
    ensures
        b == is_space(c),
{
    let n = c as u32;
    (0x9 <= n && n <= 0xd) || n == 0x20 || n == 0x85 || n == 0xa0 || n == 0x1680 || (0x2000 <= n
        && n <= 0x200a) || n == 0x2028 || n == 0x2029 || n == 0x202f || n == 0x205f || n == 0x3000
}

/// Whether `"Bearer "` starts at `at` in `s`, whose length is `n`.
fn bearer_at(s: &str, n: usize, at: usize) -> (b: bool)
    requires
        n == s@.len(),
        at <= n,
    ensures
        b == (7 <= n - at && s@.subrange(at as int, at + 7) == bearer_prefix()),
{
    if n - at < 7 {
        return false;
    }
    let b = s.get_char(at) == 'B' && s.get_char(at + 1) == 'e' && s.get_char(at + 2) == 'a'
        && s.get_char(at + 3) == 'r' && s.get_char(at + 4) == 'e' && s.get_char(at + 5) == 'r'
        && s.get_char(at + 6) == ' ';
    if b {
        assert(s@.subrange(at as int, at + 7) =~= bearer_prefix());
    } else {
        assert(s@.subrange(at as int, at + 7) != bearer_prefix()) by {
            let t = s@.subrange(at as int, at + 7);
            if t == bearer_prefix() {
                assert(t[0] == 'B' && t[1] == 'e' && t[2] == 'a' && t[3] == 'r' && t[4] == 'e'
                    && t[5] == 'r' && t[6] == ' ');
            }
        }
    }
    b
}

/// The bearer token in an `Authorization` header.
pub fn bearer_token(header: &str) -> (r: String)
    ensures
        r@ == token_of(header@),
{
    let ghost s = header@;
    let n = header.unicode_len();
    let mut start: usize = 0;
    assert(s.subrange(0, n as int) =~= s);
    while bearer_at(header, n, start)
        invariant
            n == s.len(),
            s == header@,
            start <= n,
            strip_bearer(s.subrange(start as int, n as int)) == strip_bearer(s),
        decreases n - start,
    {
        proof {
            let t = s.subrange(start as int, n as int);
            assert(t.take(7) =~= s.subrange(start as int, start + 7));
            assert(t.skip(7) =~= s.subrange(start + 7, n as int));
        }
        start = start + 7;
    }
    proof {
        if 7 <= n - start {
            assert(s.subrange(start as int, start + 7) =~= s.subrange(start as int, n as int).take(7));
        }
    }
    let ghost stripped = s.subrange(start as int, n as int);
    assert(strip_bearer(s) == stripped);
    while start < n && is_space_char(header.get_char(start))
        invariant
            n == s.len(),
            s == header@,
            start <= n,
            trim_spaces_start(s.subrange(start as int, n as int)) == trim_spaces_start(stripped),
        decreases n - start,
    {
        assert(s.subrange(start as int, n as int).skip(1) =~= s.subrange(start + 1, n as int));
        start = start + 1;
    }
    let ghost trimmed_start = s.subrange(start as int, n as int);
    assert(trim_spaces_start(stripped) == trimmed_start);
    let mut end: usize = n;
    while end > start && is_space_char(header.get_char(end - 1))
        invariant
            n == s.len(),
            s == header@,
            start <= end <= n,
            trim_spaces_end(s.subrange(start as int, end as int)) == trim_spaces_end(trimmed_start),
        decreases end - start,
    {
        assert(s.subrange(start as int, end as int).drop_last() =~= s.subrange(
            start as int,
            end - 1,
        ));
        end = end - 1;
    }
    let ghost trimmed = s.subrange(start as int, end as int);
    assert(trim_spaces_end(trimmed_start) == trimmed);
    while start < end && header.get_char(start) == '"'
        invariant
            n == s.len(),
            s == header@,
            start <= end <= n,
            trim_quotes_start(s.subrange(start as int, end as int)) == trim_quotes_start(trimmed),
        decreases end - start,
    {
        assert(s.subrange(start as int, end as int).skip(1) =~= s.subrange(start + 1, end as int));
        start = start + 1;
    }
    let ghost unquoted_start = s.subrange(start as int, end as int);
    assert(trim_quotes_start(trimmed) == unquoted_start);
    while end > start && header.get_char(end - 1) == '"'
        invariant
            n == s.len(),
            s == header@,
            start <= end <= n,
            trim_quotes_end(s.subrange(start as int, end as int)) == trim_quotes_end(unquoted_start),
        decreases end - start,
    {
        assert(s.subrange(start as int, end as int).drop_last() =~= s.subrange(
            start as int,
            end - 1,
        ));
        end = end - 1;
    }
    header.substring_char(start, end).to_owned()
}

/// What checking the token of a request gave.
#[derive(Clone, Copy, Debug, PartialEq, Eq, Structural)]
pub enum TokenCheck {
    /// The request carries no `Authorization` header.
    Missing,
    /// The token is valid and names this user.
    Valid(i64),
    /// The token did not validate.
    Invalid,
}

/// Why a guard turned a request away.
#[derive(Clone, Copy, Debug, PartialEq, Eq, Structural)]
pub enum GuardRejection {
    Unauthorized,
    Forbidden,
}

impl GuardRejection {
    /// The HTTP status the request is answered with.
    pub fn status_code(&self) -> (r: u16)
        ensures
            r == (match self {
                GuardRejection::Unauthorized => 401u16,
                GuardRejection::Forbidden => 403u16,
            }),
    {
        match self {
            GuardRejection::Unauthorized => 401,
            GuardRejection::Forbidden => 403,
        }
    }
}

/// Admits only requests with a valid token, and knows whose it is.
#[derive(Clone, Copy, Debug, PartialEq, Eq, Structural)]
pub struct AuthGuard {
    pub user_id: i64,
}

/// Admits only requests without a valid token (login, registration).
#[derive(Clone, Copy, Debug, PartialEq, Eq, Structural)]
pub struct NoAuthGuard;

impl AuthGuard {
    /// A valid token admits its user; anything else is unauthorized.
    pub fn from_token_check(check: TokenCheck) -> (r: Result<AuthGuard, GuardRejection>)
        ensures
            r == (match check {
                TokenCheck::Valid(user_id) => Ok(AuthGuard { user_id }),
                _ => Err(GuardRejection::Unauthorized),
            }),
    {
        match check {
            TokenCheck::Valid(user_id) => Ok(AuthGuard { user_id }),
            _ => Err(GuardRejection::Unauthorized),
        }
    }
}

impl NoAuthGuard {
    /// A valid token is forbidden; a missing or invalid one passes.
    pub fn from_token_check(check: TokenCheck) -> (r: Result<NoAuthGuard, GuardRejection>)
        ensures
            r == (match check {
                TokenCheck::Valid(_) => Err(GuardRejection::Forbidden),
                _ => Ok(NoAuthGuard),
            }),
    {
        match check {
            TokenCheck::Valid(_) => Err(GuardRejection::Forbidden),
            _ => Ok(NoAuthGuard),
        }
    }
}

} // verus!
