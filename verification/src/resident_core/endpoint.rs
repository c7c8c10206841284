//! The names by which a Resident Core is found.

use crate::bytes::{le_value, read_le};
use crate::crypto::{draw, drawn};
use crate::persistence::store::{
    has_profile_characters, law_plain_names_are_profiles, profile_character, profile_characters,
};
use crate::text::{
    after_prefix, decimal, decimal_chars, hex, hex_chars, hex_digit, law_digits_spell_the_number,
    strip_prefix,
};
use vstd::prelude::*;
use vstd::string::*;
use vstd::utf8::{encode_utf8, is_ascii_chars, is_ascii_chars_encode_utf8};

verus! {

/// Why a Resident Core cannot be named.
#[derive(Clone, Copy, Debug, PartialEq, Eq, Structural)]
pub enum EndpointError {
    ProfileLength,
    ProfileCharacters,
    Prefix,
    Randomness,
}

impl EndpointError {
    pub open spec fn spec_message(self) -> Seq<char> {
        match self {
            EndpointError::ProfileLength => {
                "Resident Core profile must contain 1 to 80 characters"@
            },
            EndpointError::ProfileCharacters => {
                "Resident Core profile may contain only ASCII letters, numbers, '.', '_' and '-'"@
            },
            EndpointError::Prefix => "invalid Resident Core endpoint prefix"@,
            EndpointError::Randomness => "generate Resident Core authentication randomness"@,
        }
    }

    pub fn message(self) -> (message: String)
        ensures
            message@ == self.spec_message(),
    {
        match self {
            EndpointError::ProfileLength => {
                "Resident Core profile must contain 1 to 80 characters".to_owned()
            },
            EndpointError::ProfileCharacters => {
                "Resident Core profile may contain only ASCII letters, numbers, '.', '_' and '-'".to_owned()
            },
            EndpointError::Prefix => "invalid Resident Core endpoint prefix".to_owned(),
            EndpointError::Randomness => {
                "generate Resident Core authentication randomness".to_owned()
            },
        }
    }
}

/// The name of a Resident Core.
#[derive(Debug, PartialEq, Eq)]
pub struct CoreEndpoint(String);

impl View for CoreEndpoint {
    type V = Seq<char>;

    closed spec fn view(&self) -> Seq<char> {
        self.0@
    }
}

impl Clone for CoreEndpoint {
    fn clone(&self) -> (copy: Self)
        ensures
            copy@ == self@,
    {
        proof {
            use_type_invariant(self);
        }
        CoreEndpoint(self.0.clone())
    }
}

/// The objection to a profile.
pub open spec fn profile_objection(profile: Seq<char>) -> Option<EndpointError> {
    if profile.len() == 0 || encode_utf8(profile).len() > 80 {
        Some(EndpointError::ProfileLength)
    } else if !profile_characters(profile) {
        Some(EndpointError::ProfileCharacters)
    } else {
        None
    }
}

/// The endpoint of a profile, or the objection to it.
pub open spec fn endpoint_name(profile: Seq<char>) -> Result<Seq<char>, EndpointError> {
    match profile_objection(profile) {
        Some(error) => Err(error),
        None => Ok("agent-terminal-"@ + profile),
    }
}

/// The endpoint that an argument names.
pub open spec fn named_endpoint(argument: Seq<char>) -> Result<Seq<char>, EndpointError> {
    match after_prefix(argument, "agent-terminal-"@) {
        Some(profile) => endpoint_name(profile),
        None => Err(EndpointError::Prefix),
    }
}

/// The profile of one launch during development.
pub open spec fn development_profile(process: u32, nonce: u64) -> Seq<char> {
    "development-"@ + decimal_chars(process as nat) + "-"@ + hex_chars(nonce as nat, 16)
}

/// The profile of a user.
pub open spec fn user_profile(user: u32, profile: Seq<char>) -> Seq<char> {
    decimal_chars(user as nat) + "-"@ + profile
}

/// Whether `result` is the endpoint or the error that is expected.
pub open spec fn names(
    result: Result<CoreEndpoint, EndpointError>,
    expected: Result<Seq<char>, EndpointError>,
) -> bool {
    match expected {
        Ok(name) => result is Ok && result->Ok_0@ == name,
        Err(error) => result is Err && result->Err_0 == error,
    }
}

impl CoreEndpoint {
    #[verifier::type_invariant]
    spec fn well_formed(self) -> bool {
        exists|profile: Seq<char>|
            #[trigger] endpoint_name(profile) == Ok::<Seq<char>, EndpointError>(self.0@)
    }

    pub fn for_profile(profile: &str) -> (endpoint: Result<Self, EndpointError>)
        ensures
            names(endpoint, endpoint_name(profile@)),
    {
        if profile.is_empty() || profile.as_bytes().len() > 80 {
            return Err(EndpointError::ProfileLength);
        }
        if !has_profile_characters(profile) {
            return Err(EndpointError::ProfileCharacters);
        }
        let mut name = "agent-terminal-".to_owned();
        name.append(profile);
        proof {
            assert(endpoint_name(profile@) == Ok::<Seq<char>, EndpointError>(name@));
        }
        Ok(CoreEndpoint(name))
    }

    /// The endpoint of a user.
    pub fn for_current_user(user: u32) -> (endpoint: Result<Self, EndpointError>)
        ensures
            names(endpoint, endpoint_name(user_profile(user, "default"@))),
    {
        Self::for_current_user_profile(user, "default")
    }

    /// The endpoint of one of a user's profiles.
    pub fn for_current_user_profile(user: u32, profile: &str) -> (endpoint: Result<
        Self,
        EndpointError,
    >)
        ensures
            names(endpoint, endpoint_name(user_profile(user, profile@))),
    {
        let mut name = decimal(user as u64);
        name.append("-");
        name.append(profile);
        Self::for_profile(name.as_str())
    }

    /// The endpoint of one launch during development, where `nonce` tells it
    /// from the others.
    pub fn for_development_nonce(user: u32, process: u32, nonce: u64) -> (endpoint: Result<
        Self,
        EndpointError,
    >)
        ensures
            names(endpoint, endpoint_name(user_profile(user, development_profile(process, nonce)))),
    {
        let mut profile = "development-".to_owned();
        profile.append(decimal(process as u64).as_str());
        profile.append("-");
        profile.append(hex(nonce, 16).as_str());
        Self::for_current_user_profile(user, profile.as_str())
    }

    /// The endpoint of a launch during development under a fresh nonce.
    pub fn for_development_launch(user: u32, process: u32) -> (endpoint: Result<
        Self,
        EndpointError,
    >)
        ensures
            exists|bytes: Option<[u8; 8]>| #[trigger]
                drawn(bytes) && match bytes {
                    Some(bytes) => names(
                        endpoint,
                        endpoint_name(
                            user_profile(
                                user,
                                development_profile(process, le_value(bytes@) as u64),
                            ),
                        ),
                    ),
                    None => endpoint is Err && endpoint->Err_0 == EndpointError::Randomness,
                },
    {
        match draw::<8>() {
            Some(bytes) => {
                let nonce = read_le(bytes.as_slice());
                Self::for_development_nonce(user, process, nonce)
            },
            None => Err(EndpointError::Randomness),
        }
    }

    pub fn from_argument(argument: String) -> (endpoint: Result<Self, EndpointError>)
        ensures
            names(endpoint, named_endpoint(argument@)),
    {
        match strip_prefix(argument.as_str(), "agent-terminal-") {
            Some(profile) => Self::for_profile(profile.as_str()),
            None => Err(EndpointError::Prefix),
        }
    }

    pub fn argument(&self) -> (argument: &str)
        ensures
            argument@ == self@,
    {
        self.0.as_str()
    }

    /// The argument in bytes.
    pub(crate) fn argument_bytes(&self) -> (bytes: &[u8])
        ensures
            bytes@ == encode_utf8(self@),
            bytes@.len() <= 95,
    {
        proof {
            use_type_invariant(self);
            let profile = choose|profile: Seq<char>|
                #[trigger] endpoint_name(profile) == Ok::<Seq<char>, EndpointError>(self.0@);
            reveal_strlit("agent-terminal-");
            assert(is_ascii_chars("agent-terminal-"@));
            assert(is_ascii_chars(profile));
            is_ascii_chars_encode_utf8(profile);
            is_ascii_chars_encode_utf8("agent-terminal-"@ + profile);
        }
        self.0.as_str().as_bytes()
    }

    /// The file name of the socket.
    pub fn socket_name(&self) -> (name: String)
        ensures
            name@ == hex_chars(endpoint_hash(encode_utf8(self@)) as nat, 16) + ".sock"@,
    {
        let mut name = hex(stable_endpoint_hash(self.0.as_str()), 16);
        name.append(".sock");
        name
    }

    /// The file name of the lock that is held while the socket is claimed.
    pub fn lock_name(&self) -> (name: String)
        ensures
            name@ == hex_chars(endpoint_hash(encode_utf8(self@)) as nat, 16) + ".lock"@,
    {
        let mut name = hex(stable_endpoint_hash(self.0.as_str()), 16);
        name.append(".lock");
        name
    }
}

/// The 64-bit FNV-1a hash of `bytes`.
pub open spec fn endpoint_hash(bytes: Seq<u8>) -> u64
    decreases bytes.len(),
{
    if bytes.len() == 0 {
        0xcbf2_9ce4_8422_2325
    } else {
        (endpoint_hash(bytes.drop_last()) ^ (bytes.last() as u64)).wrapping_mul(
            0x0000_0100_0000_01b3,
        )
    }
}

/// The 64-bit FNV-1a hash of an endpoint's name.
pub fn stable_endpoint_hash(endpoint: &str) -> (hash: u64)
    ensures
        hash == endpoint_hash(encode_utf8(endpoint@)),
{
    let bytes = endpoint.as_bytes();
    let mut hash: u64 = 0xcbf2_9ce4_8422_2325;
    let mut index: usize = 0;
    while index < bytes.len()
        invariant
            index <= bytes@.len(),
            bytes@ == encode_utf8(endpoint@),
            hash == endpoint_hash(bytes@.take(index as int)),
        decreases bytes@.len() - index,
    {
        hash = (hash ^ (bytes[index] as u64)).wrapping_mul(0x0000_0100_0000_01b3);
        index += 1;
        proof {
            assert(bytes@.take(index as int).drop_last() =~= bytes@.take(index - 1));
        }
    }
    proof {
        assert(bytes@.take(index as int) =~= bytes@);
    }
    hash
}

/// What an endpoint's argument names is the endpoint itself.
pub proof fn law_arguments_round_trip(profile: Seq<char>)
    requires
        endpoint_name(profile) is Ok,
    ensures
        named_endpoint(endpoint_name(profile)->Ok_0) == endpoint_name(profile),
{
    let prefix = "agent-terminal-"@;
    let name = prefix + profile;
    assert(name.subrange(0, prefix.len() as int) =~= prefix);
    assert(name.skip(prefix.len() as int) =~= profile);
}

/// Two profiles never share an endpoint.
pub proof fn law_profiles_are_isolated(first: Seq<char>, second: Seq<char>)
    requires
        endpoint_name(first) is Ok,
        endpoint_name(second) is Ok,
        first != second,
    ensures
        endpoint_name(first) != endpoint_name(second),
{
    let prefix = "agent-terminal-"@;
    if endpoint_name(first) == endpoint_name(second) {
        assert((prefix + first).skip(prefix.len() as int) =~= first);
        assert((prefix + second).skip(prefix.len() as int) =~= second);
    }
}

proof fn lemma_hex_injective(first: nat, second: nat, width: nat)
    requires
        hex_chars(first, width) == hex_chars(second, width),
        first < hex_range(width),
        second < hex_range(width),
    ensures
        first == second,
    decreases width,
{
    if width > 0 {
        let left = hex_chars(first, width);
        let right = hex_chars(second, width);
        assert(left.drop_last() =~= hex_chars(first / 16, (width - 1) as nat));
        assert(right.drop_last() =~= hex_chars(second / 16, (width - 1) as nat));
        lemma_hex_injective(first / 16, second / 16, (width - 1) as nat);
        assert(left.last() == hex_digit(first % 16));
        assert(right.last() == hex_digit(second % 16));
    }
}

proof fn lemma_hex_len(value: nat, width: nat)
    ensures
        hex_chars(value, width).len() == width,
    decreases width,
{
    if width > 0 {
        lemma_hex_len(value / 16, (width - 1) as nat);
    }
}

/// How many values `width` hexadecimal digits can take.
spec fn hex_range(width: nat) -> nat
    decreases width,
{
    if width == 0 {
        1
    } else {
        16 * hex_range((width - 1) as nat)
    }
}

/// Launches during development whose nonces differ have different profiles.
pub proof fn law_development_launches_are_isolated(
    user: u32,
    process: u32,
    first: u64,
    second: u64,
)
    requires
        first != second,
    ensures
        user_profile(user, development_profile(process, first)) != user_profile(
            user,
            development_profile(process, second),
        ),
{
    let head = decimal_chars(user as nat) + "-"@;
    let middle = "development-"@ + decimal_chars(process as nat) + "-"@;
    let left = user_profile(user, development_profile(process, first));
    let right = user_profile(user, development_profile(process, second));
    let start = (head.len() + middle.len()) as int;
    lemma_hex_len(first as nat, 16);
    lemma_hex_len(second as nat, 16);
    assert(left.skip(start) =~= hex_chars(first as nat, 16));
    assert(right.skip(start) =~= hex_chars(second as nat, 16));
    reveal_with_fuel(hex_range, 17);
    if left == right {
        lemma_hex_injective(first as nat, second as nat, 16);
    }
}

/// A Resident Core is named after a profile of up to eighty letters, digits, dots,
/// underscores and hyphens, and after no other.
pub proof fn law_endpoints_are_named_after_short_profiles(profile: Seq<char>)
    ensures
        endpoint_name(profile) is Ok <==> 1 <= profile.len() <= 80 && forall|i: int|
            0 <= i < profile.len() ==> {
                let code = (#[trigger] profile[i]) as int;
                48 <= code <= 57 || 65 <= code <= 90 || 97 <= code <= 122 || code == 45 || code
                    == 46 || code == 95
            },
        endpoint_name(profile) matches Ok(name) ==> name == "agent-terminal-"@ + profile,
        profile.len() == 0 ==> endpoint_name(profile) == Result::<Seq<char>, EndpointError>::Err(
            EndpointError::ProfileLength,
        ),
{
    if forall|i: int|
        0 <= i < profile.len() ==> {
            let code = (#[trigger] profile[i]) as int;
            48 <= code <= 57 || 65 <= code <= 90 || 97 <= code <= 122 || code == 45 || code == 46
                || code == 95
        } {
        law_plain_names_are_profiles(profile);
        assert(is_ascii_chars(profile));
        is_ascii_chars_encode_utf8(profile);
    }
    if endpoint_name(profile) is Ok {
        assert forall|i: int| 0 <= i < profile.len() implies ({
            let code = (#[trigger] profile[i]) as int;
            48 <= code <= 57 || 65 <= code <= 90 || 97 <= code <= 122 || code == 45 || code == 46
                || code == 95
        }) by {
            assert(profile_character(profile[i]));
        }
        assert(is_ascii_chars(profile));
        is_ascii_chars_encode_utf8(profile);
    }
}

/// No two users share a profile.
pub proof fn law_users_are_isolated(
    first: u32,
    second: u32,
    profile: Seq<char>,
    other: Seq<char>,
)
    requires
        user_profile(first, profile) == user_profile(second, other),
    ensures
        first == second,
        profile == other,
{
    let left = decimal_chars(first as nat);
    let right = decimal_chars(second as nat);
    let name = user_profile(first, profile);
    law_digits_spell_the_number(first as nat);
    law_digits_spell_the_number(second as nat);
    reveal_strlit("-");
    assert("-"@ =~= seq!['-']);
    assert(name[left.len() as int] == '-');
    assert(name[right.len() as int] == '-');
    if left.len() < right.len() {
        assert(name[left.len() as int] == right[left.len() as int]);
    }
    if right.len() < left.len() {
        assert(name[right.len() as int] == left[right.len() as int]);
    }
    assert(name.take(left.len() as int) =~= left);
    assert(name.take(right.len() as int) =~= right);
    assert(name.skip(left.len() as int + 1) =~= profile);
    assert(name.skip(right.len() as int + 1) =~= other);
}

/// The hash of a name goes on from that of its beginning, byte by byte, and begins
/// with a number of its own.
pub proof fn law_hashes_go_on(bytes: Seq<u8>, byte: u8)
    ensures
        endpoint_hash(Seq::empty()) == 14695981039346656037,
        endpoint_hash(bytes.push(byte)) == ((endpoint_hash(bytes) ^ (byte as u64)) as int
            * 1099511628211) % 0x1_0000_0000_0000_0000,
{
    assert(bytes.push(byte).drop_last() =~= bytes);
}

} // verus!
