//! Wire encoding of a username inside the fixed-size user data of a
//! connection request.
//!
//! Layout of the payload: eight bytes holding the length of the name as a
//! little-endian unsigned integer, then the UTF-8 bytes of the name, then
//! zeros up to the capacity.

use vstd::bytes::*;
use vstd::prelude::*;
use vstd::slice::*;
use vstd::utf8::*;

use crate::error::ChatError;
use crate::text::decode_text;

verus! {

/// Capacity of the user data that accompanies a connection request: the
/// netcode layer's `NETCODE_USER_DATA_BYTES`.
pub const USER_DATA_BYTES: usize = 256;

/// Width of the length prefix at the start of the payload.
pub const LENGTH_PREFIX_BYTES: usize = 8;

/// Longest username, in UTF-8 bytes, that fits behind the length prefix.
pub const MAX_USERNAME_BYTES: usize = 248;

/// The payload that carries `name`: prefix, UTF-8 bytes, zero padding.
pub open spec fn payload_of(name: Seq<char>) -> Seq<u8>
    recommends
        encode_utf8(name).len() <= MAX_USERNAME_BYTES,
{
    let body = encode_utf8(name);
    spec_u64_to_le_bytes(body.len() as u64) + body + Seq::new(
        (MAX_USERNAME_BYTES - body.len()) as nat,
        |i: int| 0u8,
    )
}

/// What writing `name` into a payload yields.
pub open spec fn encoded(name: Seq<char>) -> Result<Seq<u8>, ChatError> {
    if encode_utf8(name).len() <= MAX_USERNAME_BYTES {
        Ok(payload_of(name))
    } else {
        Err(ChatError::PayloadTooLarge)
    }
}

/// The length that the prefix of `payload` declares.
pub open spec fn declared_len(payload: Seq<u8>) -> nat {
    spec_u64_from_le_bytes(payload.subrange(0, LENGTH_PREFIX_BYTES as int)) as nat
}

/// The number of bytes that are read as the name: the declared length, but
/// never more than what lies behind the prefix.
pub open spec fn clamped_len(payload: Seq<u8>) -> nat {
    if declared_len(payload) > MAX_USERNAME_BYTES {
        MAX_USERNAME_BYTES as nat
    } else {
        declared_len(payload)
    }
}

/// The bytes of `payload` that are read as the name.
pub open spec fn name_bytes(payload: Seq<u8>) -> Seq<u8> {
    payload.subrange(
        LENGTH_PREFIX_BYTES as int,
        LENGTH_PREFIX_BYTES as int + clamped_len(payload) as int,
    )
}

/// What reading a payload yields.
pub open spec fn decoded(payload: Seq<u8>) -> Result<Seq<char>, ChatError> {
    if valid_utf8(name_bytes(payload)) {
        Ok(decode_utf8(name_bytes(payload)))
    } else {
        Err(ChatError::InvalidEncoding)
    }
}

/// A username as it travels in the user data of a connection request.
#[derive(Debug, PartialEq, Eq)]
pub struct Username(pub String);

impl Clone for Username {
    fn clone(&self) -> (r: Self)
        ensures
            r@ == self@,
    {
        Username(self.0.clone())
    }
}

impl View for Username {
    type V = Seq<char>;

    open spec fn view(&self) -> Seq<char> {
        self.0@
    }
}

impl Username {
    /// Writes the name into a fresh payload.
    ///
    /// Fails with `PayloadTooLarge` exactly when the UTF-8 form of the name
    /// exceeds `MAX_USERNAME_BYTES`.
    pub fn to_netcode_user_data(&self) -> (r: Result<[u8; USER_DATA_BYTES], ChatError>)
        ensures
            match encoded(self@) {
                Ok(payload) => r matches Ok(p) && p@ == payload,
                Err(e) => r == Err::<[u8; USER_DATA_BYTES], ChatError>(e),
            },
    {
        let bytes = self.0.as_str().as_bytes();
        let n = bytes.len();
        if n > MAX_USERNAME_BYTES {
            return Err(ChatError::PayloadTooLarge);
        }
        let mut user_data = [0u8; USER_DATA_BYTES];
        let prefix = u64_to_le_bytes(n as u64);
        let mut i: usize = 0;
        while i < LENGTH_PREFIX_BYTES
            invariant
                i <= LENGTH_PREFIX_BYTES,
                prefix@.len() == LENGTH_PREFIX_BYTES,
                forall|k: int| 0 <= k < i ==> user_data@[k] == prefix@[k],
                forall|k: int| i <= k < USER_DATA_BYTES ==> user_data@[k] == 0u8,
            decreases LENGTH_PREFIX_BYTES - i,
        {
            user_data[i] = prefix[i];
            i += 1;
        }
        let mut j: usize = 0;
        while j < n
            invariant
                j <= n <= MAX_USERNAME_BYTES,
                n == bytes@.len(),
                prefix@.len() == LENGTH_PREFIX_BYTES,
                forall|k: int| 0 <= k < LENGTH_PREFIX_BYTES ==> user_data@[k] == prefix@[k],
                forall|k: int| 0 <= k < j ==> user_data@[LENGTH_PREFIX_BYTES + k] == bytes@[k],
                forall|k: int|
                    LENGTH_PREFIX_BYTES + j <= k < USER_DATA_BYTES ==> user_data@[k] == 0u8,
            decreases n - j,
        {
            user_data[LENGTH_PREFIX_BYTES + j] = bytes[j];
            j += 1;
        }
        Ok(user_data)
    }

    /// Reads the name out of a payload.
    ///
    /// The declared length is clamped to `MAX_USERNAME_BYTES`, so no byte
    /// outside the payload is ever read. Fails with `InvalidEncoding` exactly
    /// when the bytes so selected are not valid UTF-8.
    pub fn from_user_data(user_data: &[u8; USER_DATA_BYTES]) -> (r: Result<Username, ChatError>)
        ensures
            match decoded(user_data@) {
                Ok(name) => r matches Ok(u) && u@ == name,
                Err(e) => r == Err::<Username, ChatError>(e),
            },
    {
        let all = user_data.as_slice();
        let declared = u64_from_le_bytes(slice_subrange(all, 0, LENGTH_PREFIX_BYTES));
        let len: usize = if declared > MAX_USERNAME_BYTES as u64 {
            MAX_USERNAME_BYTES
        } else {
            declared as usize
        };
        let body = slice_to_vec(slice_subrange(all, LENGTH_PREFIX_BYTES, LENGTH_PREFIX_BYTES + len));
        match decode_text(body) {
            Some(name) => Ok(Username(name)),
            None => Err(ChatError::InvalidEncoding),
        }
    }
}

/// Writing a name that fits and reading the payload back yields the name.
pub proof fn lemma_round_trip(name: Seq<char>)
    requires
        encode_utf8(name).len() <= MAX_USERNAME_BYTES,
    ensures
        encoded(name) is Ok,
        decoded(encoded(name)->Ok_0) == Ok::<Seq<char>, ChatError>(name),
{
    let body = encode_utf8(name);
    let payload = payload_of(name);
    lemma_auto_spec_u64_to_from_le_bytes();
    assert(payload.subrange(0, LENGTH_PREFIX_BYTES as int) =~= spec_u64_to_le_bytes(
        body.len() as u64,
    ));
    assert(name_bytes(payload) =~= body);
    encode_utf8_valid_utf8(name);
    encode_utf8_decode_utf8(name);
}

/// Whatever the prefix declares, the bytes read as the name lie inside the
/// payload, behind the prefix.
pub proof fn lemma_read_stays_inside(payload: Seq<u8>)
    requires
        payload.len() == USER_DATA_BYTES,
    ensures
        clamped_len(payload) <= MAX_USERNAME_BYTES,
        LENGTH_PREFIX_BYTES + clamped_len(payload) <= payload.len(),
        name_bytes(payload).len() == clamped_len(payload),
        forall|i: int|
            0 <= i < clamped_len(payload) ==> name_bytes(payload)[i] == payload[LENGTH_PREFIX_BYTES
                + i],
        declared_len(payload) > MAX_USERNAME_BYTES ==> name_bytes(payload) == payload.subrange(
            LENGTH_PREFIX_BYTES as int,
            USER_DATA_BYTES as int,
        ),
{
}

} // verus!
