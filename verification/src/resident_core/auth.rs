//! How a client knows that it speaks to the Resident Core of its own user.

use super::endpoint::CoreEndpoint;
use super::protocol::PROTOCOL_VERSION;
use crate::bytes::{le_bytes, le_value, lemma_le_bytes_len, put_le, put_slice, read_le};
use crate::crypto::{draw, drawn, hmac_sha256, sign_sha256, verify_sha256};
use crate::text::{decimal, decimal_chars, hex_digit, hex_digit_of};
use vstd::prelude::*;
use vstd::string::*;
use vstd::utf8::{
    encode_utf8, encode_utf8_decode_utf8, is_ascii_chars, is_ascii_chars_encode_utf8,
};

verus! {

/// How many identities are left to a Resident Core at least.
pub const CORE_ID_ALLOCATION_HEADROOM: u64 = 4294967296;

/// Why authentication fails.
#[derive(Clone, Copy, Debug, PartialEq, Eq, Structural)]
pub enum AuthError {
    SecretLength(usize),
    Randomness,
    Rejected,
}

impl AuthError {
    pub open spec fn spec_message(self) -> Seq<char> {
        match self {
            AuthError::SecretLength(length) => {
                "Resident Core authentication secret has invalid length: "@ + decimal_chars(
                    length as nat,
                )
            },
            AuthError::Randomness => "generate Resident Core authentication randomness"@,
            AuthError::Rejected => "Resident Core authentication failed"@,
        }
    }

    pub fn message(self) -> (message: String)
        ensures
            message@ == self.spec_message(),
    {
        match self {
            AuthError::SecretLength(length) => {
                let mut message =
                    "Resident Core authentication secret has invalid length: ".to_owned();
                message.append(decimal(length as u64).as_str());
                message
            },
            AuthError::Randomness => "generate Resident Core authentication randomness".to_owned(),
            AuthError::Rejected => "Resident Core authentication failed".to_owned(),
        }
    }
}

/// The 32 bytes of a slice of that length.
fn array_of(bytes: &[u8]) -> (array: [u8; 32])
    requires
        bytes@.len() == 32,
    ensures
        array@ == bytes@,
{
    let mut array: [u8; 32] = [0; 32];
    let mut index: usize = 0;
    while index < 32
        invariant
            index <= 32,
            bytes@.len() == 32,
            array@.len() == 32,
            forall|i: int| 0 <= i < index ==> array@[i] == bytes@[i],
        decreases 32 - index,
    {
        array[index] = bytes[index];
        index += 1;
    }
    proof {
        assert(array@ =~= bytes@);
    }
    array
}

/// The secret that a file of the given contents holds.
pub fn parse_auth_secret(bytes: Vec<u8>) -> (secret: Result<[u8; 32], AuthError>)
    ensures
        match secret {
            Ok(secret) => bytes@.len() == 32 && secret@ == bytes@,
            Err(error) => bytes@.len() != 32 && error == AuthError::SecretLength(
                bytes@.len() as usize,
            ),
        },
{
    if bytes.len() == 32 {
        Ok(array_of(bytes.as_slice()))
    } else {
        Err(AuthError::SecretLength(bytes.len()))
    }
}

/// Random bytes for a secret or a nonce.
pub fn fresh_secret() -> (secret: Result<[u8; 32], AuthError>)
    ensures
        match secret {
            Ok(secret) => drawn(Some(secret)),
            Err(error) => drawn(None::<[u8; 32]>) && error == AuthError::Randomness,
        },
{
    match draw::<32>() {
        Some(bytes) => Ok(bytes),
        None => Err(AuthError::Randomness),
    }
}

/// The first identity of a Resident Core that drew `random`.
pub open spec fn first_resource_id(random: u64) -> u64 {
    (random % ((u64::MAX - CORE_ID_ALLOCATION_HEADROOM) as u64) + 1) as u64
}

/// The first identity of a Resident Core that drew `random`.
pub fn core_resource_id(random: u64) -> (id: u64)
    ensures
        id == first_resource_id(random),
        id == random % ((u64::MAX - CORE_ID_ALLOCATION_HEADROOM) as u64) + 1,
        random < u64::MAX - 4294967296 ==> id == random + 1,
        random >= u64::MAX - 4294967296 ==> id == random - (u64::MAX - 4294967296) + 1,
        0 < id <= u64::MAX - CORE_ID_ALLOCATION_HEADROOM,
{
    random % (u64::MAX - CORE_ID_ALLOCATION_HEADROOM) + 1
}

/// A first identity drawn at random: it leaves room for as many identities as
/// the headroom has.
pub fn fresh_core_resource_id() -> (id: Result<u64, AuthError>)
    ensures
        match id {
            Ok(id) => {
                &&& 0 < id <= u64::MAX - CORE_ID_ALLOCATION_HEADROOM
                &&& exists|bytes: [u8; 8]| #[trigger]
                    drawn(Some(bytes)) && id == first_resource_id(le_value(bytes@) as u64)
            },
            Err(error) => drawn(None::<[u8; 8]>) && error == AuthError::Randomness,
        },
{
    match draw::<8>() {
        Some(bytes) => Ok(core_resource_id(read_le(bytes.as_slice()))),
        None => Err(AuthError::Randomness),
    }
}

/// What the name of a protected endpoint is derived from.
pub open spec fn endpoint_message(endpoint: Seq<char>) -> Seq<u8> {
    encode_utf8("agent-terminal-core-endpoint-v1\0"@) + encode_utf8(endpoint)
}

/// Two hexadecimal digits for each of `bytes`.
pub open spec fn hex_bytes(bytes: Seq<u8>) -> Seq<char>
    decreases bytes.len(),
{
    if bytes.len() == 0 {
        Seq::empty()
    } else {
        hex_bytes(bytes.drop_last()).push(hex_digit((bytes.last() / 16) as nat)).push(
            hex_digit((bytes.last() % 16) as nat),
        )
    }
}

/// The name of an endpoint that only those who know the secret can tell.
pub open spec fn protected_name(secret: Seq<u8>, endpoint: Seq<char>) -> Seq<char> {
    "agent-terminal-v1-"@ + hex_bytes(hmac_sha256(secret, endpoint_message(endpoint)))
}

pub fn protected_endpoint_name(auth_secret: &[u8; 32], endpoint: &CoreEndpoint) -> (name: String)
    ensures
        name@ == protected_name(auth_secret@, endpoint@),
{
    let mut message: Vec<u8> = Vec::new();
    proof {
        reveal_strlit("agent-terminal-core-endpoint-v1\0");
        assert(is_ascii_chars("agent-terminal-core-endpoint-v1\0"@));
        is_ascii_chars_encode_utf8("agent-terminal-core-endpoint-v1\0"@);
    }
    put_slice(&mut message, "agent-terminal-core-endpoint-v1\0".as_bytes());
    put_slice(&mut message, endpoint.argument_bytes());
    proof {
        assert(message@ =~= endpoint_message(endpoint@));
    }
    let digest = sign_sha256(auth_secret.as_slice(), message.as_slice());
    let mut name = "agent-terminal-v1-".to_owned();
    let ghost head = name@;
    let mut index: usize = 0;
    proof {
        assert(name@ =~= head + hex_bytes(digest@.take(0)));
    }
    while index < digest.len()
        invariant
            index <= digest@.len(),
            name@ == head + hex_bytes(digest@.take(index as int)),
        decreases digest@.len() - index,
    {
        let ghost before = name@;
        name.push(hex_digit_of(digest[index] / 16));
        name.push(hex_digit_of(digest[index] % 16));
        index += 1;
        proof {
            let bytes = digest@.take(index as int);
            assert(bytes.drop_last() =~= digest@.take(index - 1));
            assert(name@ =~= head + hex_bytes(bytes));
        }
    }
    proof {
        assert(digest@.take(index as int) =~= digest@);
    }
    name
}

/// What a Resident Core signs to prove that it knows the secret.
pub open spec fn auth_message(endpoint: Seq<char>, nonce: Seq<u8>) -> Seq<u8> {
    encode_utf8("agent-terminal-core-auth-v1\0"@) + le_bytes(PROTOCOL_VERSION as nat, 2)
        + encode_utf8(endpoint) + seq![0u8] + nonce
}

pub fn authentication_message(endpoint: &CoreEndpoint, nonce: &[u8; 32]) -> (message: Vec<u8>)
    ensures
        message@ == auth_message(endpoint@, nonce@),
        message@.len() <= 158,
{
    let mut message: Vec<u8> = Vec::new();
    proof {
        reveal_strlit("agent-terminal-core-auth-v1\0");
        assert(is_ascii_chars("agent-terminal-core-auth-v1\0"@));
        is_ascii_chars_encode_utf8("agent-terminal-core-auth-v1\0"@);
        lemma_le_bytes_len(PROTOCOL_VERSION as nat, 2);
    }
    put_slice(&mut message, "agent-terminal-core-auth-v1\0".as_bytes());
    put_le(&mut message, PROTOCOL_VERSION as u64, 2);
    put_slice(&mut message, endpoint.argument_bytes());
    message.push(0);
    put_slice(&mut message, nonce.as_slice());
    proof {
        assert(message@ =~= auth_message(endpoint@, nonce@));
    }
    message
}

/// The proof that the Resident Core at an endpoint gives for a nonce.
pub open spec fn proof_of(secret: Seq<u8>, endpoint: Seq<char>, nonce: Seq<u8>) -> Seq<u8> {
    hmac_sha256(secret, auth_message(endpoint, nonce))
}

pub fn server_proof(auth_secret: &[u8; 32], endpoint: &CoreEndpoint, nonce: &[u8; 32]) -> (tag: [u8;
    32])
    ensures
        tag@ == proof_of(auth_secret@, endpoint@, nonce@),
{
    let message = authentication_message(endpoint, nonce);
    let tag = sign_sha256(auth_secret.as_slice(), message.as_slice());
    array_of(tag.as_slice())
}

pub fn verify_server_proof(
    auth_secret: &[u8; 32],
    endpoint: &CoreEndpoint,
    nonce: &[u8; 32],
    tag: &[u8; 32],
) -> (result: Result<(), AuthError>)
    ensures
        match result {
            Ok(()) => tag@ == proof_of(auth_secret@, endpoint@, nonce@),
            Err(error) => tag@ != proof_of(auth_secret@, endpoint@, nonce@) && error
                == AuthError::Rejected,
        },
{
    let message = authentication_message(endpoint, nonce);
    if verify_sha256(auth_secret.as_slice(), message.as_slice(), tag.as_slice()) {
        Ok(())
    } else {
        Err(AuthError::Rejected)
    }
}

/// What is signed tells both the endpoint and the nonce: a proof for one pair
/// is a signature under no other.
pub proof fn law_messages_bind_endpoint_and_nonce(
    endpoint: Seq<char>,
    nonce: Seq<u8>,
    other_endpoint: Seq<char>,
    other_nonce: Seq<u8>,
)
    requires
        nonce.len() == 32,
        other_nonce.len() == 32,
        auth_message(endpoint, nonce) == auth_message(other_endpoint, other_nonce),
    ensures
        endpoint == other_endpoint,
        nonce == other_nonce,
{
    let message = auth_message(endpoint, nonce);
    let other = auth_message(other_endpoint, other_nonce);
    let head = encode_utf8("agent-terminal-core-auth-v1\0"@) + le_bytes(
        PROTOCOL_VERSION as nat,
        2,
    );
    let start = head.len() as int;
    let length = encode_utf8(endpoint).len() as int;
    assert(message.len() == start + length + 33);
    assert(other.len() == start + encode_utf8(other_endpoint).len() + 33);
    assert(message.subrange(start, start + length) =~= encode_utf8(endpoint));
    assert(other.subrange(start, start + length) =~= encode_utf8(other_endpoint));
    encode_utf8_decode_utf8(endpoint);
    encode_utf8_decode_utf8(other_endpoint);
    assert(message.skip(start + length + 1) =~= nonce);
    assert(other.skip(start + length + 1) =~= other_nonce);
}

/// The name of a protected endpoint is a prefix and two hexadecimal digits for each
/// byte of a tag that takes the secret to make.
pub proof fn law_protected_names_spell_a_tag(secret: Seq<u8>, endpoint: Seq<char>, index: int)
    ensures
        ({
            let tag = hmac_sha256(
                secret,
                encode_utf8("agent-terminal-core-endpoint-v1\0"@) + encode_utf8(endpoint),
            );
            let prefix = "agent-terminal-v1-"@;
            let name = protected_name(secret, endpoint);
            &&& name.len() == prefix.len() + 2 * tag.len()
            &&& name.take(prefix.len() as int) == prefix
            &&& 0 <= index < tag.len() ==> name[prefix.len() + 2 * index] == hex_digit(
                (tag[index] / 16) as nat,
            ) && name[prefix.len() + 2 * index + 1] == hex_digit((tag[index] % 16) as nat)
        }),
{
    let tag = hmac_sha256(secret, endpoint_message(endpoint));
    lemma_hex_bytes(tag, index);
    let prefix = "agent-terminal-v1-"@;
    assert(protected_name(secret, endpoint).take(prefix.len() as int) =~= prefix);
}

proof fn lemma_hex_bytes(bytes: Seq<u8>, index: int)
    ensures
        hex_bytes(bytes).len() == 2 * bytes.len(),
        0 <= index < bytes.len() ==> hex_bytes(bytes)[2 * index] == hex_digit(
            (bytes[index] / 16) as nat,
        ) && hex_bytes(bytes)[2 * index + 1] == hex_digit((bytes[index] % 16) as nat),
    decreases bytes.len(),
{
    if bytes.len() > 0 {
        lemma_hex_bytes(bytes.drop_last(), index);
    }
}

} // verus!
