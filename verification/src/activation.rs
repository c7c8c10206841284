//! How a second launch finds the first.

use crate::persistence::store::{is_profile_character, profile_character, profile_characters};
use crate::text::{characters, decimal, decimal_chars};
use vstd::prelude::*;
use vstd::string::*;

verus! {

/// How often a second launch tries to reach the first.
pub const CONNECT_ATTEMPTS: usize = 20;

/// The milliseconds between two tries.
pub const CONNECT_INTERVAL_MILLIS: u64 = 25;

/// `name` with a hyphen for each character that may not stand in an endpoint.
pub open spec fn scope_of(name: Seq<char>) -> Seq<char> {
    name.map_values(
        |character: char|
            if profile_character(character) {
                character
            } else {
                '-'
            },
    )
}

/// What tells the endpoints of one user from another's, by a number.
pub fn numbered_scope(user: u32) -> (scope: String)
    ensures
        scope@ == decimal_chars(user as nat),
{
    decimal(user as u64)
}

/// What tells the endpoints of one user from another's, by names.
pub fn named_scope(domain: &str, user: &str) -> (scope: String)
    ensures
        scope@ == scope_of(domain@ + "-"@ + user@),
        profile_characters(scope@),
{
    let mut name = domain.to_owned();
    name.append("-");
    name.append(user);
    let chars = characters(name.as_str());
    let mut scope = String::new();
    let mut index: usize = 0;
    proof {
        assert(scope@ =~= scope_of(chars@.take(0)));
    }
    while index < chars.len()
        invariant
            index <= chars@.len(),
            scope@ == scope_of(chars@.take(index as int)),
        decreases chars@.len() - index,
    {
        proof {
            assert(chars@.take(index + 1) =~= chars@.take(index as int).push(chars@[index as int]));
        }
        if is_profile_character(chars[index]) {
            scope.push(chars[index]);
        } else {
            scope.push('-');
        }
        index += 1;
        proof {
            assert(scope@ =~= scope_of(chars@.take(index as int)));
        }
    }
    proof {
        assert(chars@.take(index as int) =~= chars@);
    }
    scope
}

/// The endpoint at which the first launch of a user listens.
pub fn activation_endpoint(scope: &str) -> (name: String)
    ensures
        name@ == "agent-terminal-"@ + scope@ + "-activation"@,
{
    let mut name = "agent-terminal-".to_owned();
    name.append(scope);
    name.append("-activation");
    name
}

/// The file of that endpoint, where endpoints are files.
pub fn activation_file(scope: &str) -> (name: String)
    ensures
        name@ == "agent-terminal-"@ + scope@ + "-activation.sock"@,
{
    let mut name = "agent-terminal-".to_owned();
    name.append(scope);
    name.append("-activation.sock");
    name
}

/// What a launch does that could not listen itself.
#[derive(Clone, Copy, Debug, PartialEq, Eq, Structural)]
pub enum ClaimStep {
    /// Another launch was reached: it opens the window.
    Forwarded,
    /// It tries once more after the interval.
    Retry { attempt: usize },
    /// It takes the place of an endpoint that nobody listens at, or fails.
    Reclaim,
}

/// What follows a try to reach the first launch.
pub fn claim_step(attempt: usize, connected: bool) -> (step: ClaimStep)
    ensures
        step == if connected {
            ClaimStep::Forwarded
        } else if attempt + 1 < CONNECT_ATTEMPTS {
            ClaimStep::Retry { attempt: (attempt + 1) as usize }
        } else {
            ClaimStep::Reclaim
        },
        step is Forwarded <==> connected,
        step is Reclaim <==> !connected && attempt >= 19,
        step matches ClaimStep::Retry { attempt: next } ==> next == attempt + 1,
{
    if connected {
        ClaimStep::Forwarded
    } else if attempt < CONNECT_ATTEMPTS - 1 {
        ClaimStep::Retry { attempt: attempt + 1 }
    } else {
        ClaimStep::Reclaim
    }
}

/// A scope keeps every letter, digit, dot, underscore and hyphen where it stands,
/// and has a hyphen wherever something else stood.
pub proof fn law_scopes_keep_plain_characters(name: Seq<char>, index: int)
    requires
        0 <= index < name.len(),
    ensures
        ({
            let code = name[index] as int;
            let plain = 48 <= code <= 57 || 65 <= code <= 90 || 97 <= code <= 122 || code == 45
                || code == 46 || code == 95;
            &&& scope_of(name).len() == name.len()
            &&& plain ==> scope_of(name)[index] == name[index]
            &&& !plain ==> scope_of(name)[index] == '-'
        }),
{
}

} // verus!
