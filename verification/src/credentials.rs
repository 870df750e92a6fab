use vstd::prelude::*;
use vstd::string::StrSliceExecFns;
use vstd::string::StringExecFns;

use rand::Rng;

use crate::codec::bytes_to_hex;
use crate::codec::hex_decode;
use crate::codec::hex_of;
use crate::codec::lemma_hex_of_injective;
use crate::codec::lemma_hex_of_len;
use crate::codec::str_eq;

verus! {

// Password hashing and its keyed cousin, the token tag, both rest on the
// same memory-hard digest. A stored credential is the salt and the digest of
// the password under that salt, both written in hex.

/// What `argon2`'s Argon2id digest returns for a given text and salt, with
/// the default parameters and a 32-byte output. It is a deterministic
/// function of the two arguments alone; it is named here, not restated.
pub uninterp spec fn argon2_tag(data: Seq<char>, salt: Seq<u8>) -> Seq<u8>;

/// The longest text the digest is fed; far below the 2^32 - 1 bytes that
/// `argon2` itself accepts, even with four UTF-8 bytes per character.
pub const MAX_DIGEST_LEN: usize = 0x0100_0000;

/// Relies on `argon2::Argon2::hash_password_into` under the crate's default
/// Argon2id parameters and a 32-byte output: for a password within the
/// crate's length bounds and a salt of 8 to 64 bytes it fills the whole
/// output buffer, and the result depends on the two inputs alone.
#[verifier::external_body]
pub(crate) fn argon2_digest(data: &str, salt: &[u8]) -> (r: Vec<u8>)
    requires
        8 <= salt@.len() <= 64,
        data@.len() <= MAX_DIGEST_LEN,
    ensures
        r@ == argon2_tag(data@, salt@),
        r@.len() == 32,
{
    let mut out = [0u8; 32];
    argon2::Argon2::default()
        .hash_password_into(data.as_bytes(), salt, &mut out)
        .expect("inputs are within the argon2 bounds");
    out.to_vec()
}

/// Relies on `rand::Rng::fill` over the thread-local generator to draw a
/// fresh salt; nothing is known of the bytes but their number.
#[verifier::external_body]
fn random_salt() -> (r: Vec<u8>)
    ensures
        r@.len() == 16,
{
    let mut b = [0u8; 16];
    rand::thread_rng().fill(&mut b[..]);
    b.to_vec()
}

/// The stored form of a password hashed under a given salt: the salt in hex,
/// a separator, the digest in hex.
pub open spec fn credential_of(password: Seq<char>, salt: Seq<u8>) -> Seq<char> {
    hex_of(salt) + seq!['$'] + hex_of(argon2_tag(password, salt))
}

/// Whether a stored credential text is the hash of the submitted password
/// under some 16-byte salt.
pub open spec fn credential_matches(stored: Seq<char>, password: Seq<char>) -> bool {
    exists|salt: Seq<u8>|
        salt.len() == 16 && argon2_tag(password, salt).len() == 32 && stored == credential_of(
            password,
            salt,
        )
}

/// Hashes a password under a fresh random salt. Whatever salt was drawn,
/// the result matches exactly the password it was made from.
pub fn hash_credential(password: &str) -> (r: String)
    requires
        password@.len() <= MAX_DIGEST_LEN,
    ensures
        credential_matches(r@, password@),
        r@.len() == 97,
{
    let salt = random_salt();
    let tag = argon2_digest(password, salt.as_slice());
    let mut s = bytes_to_hex(salt.as_slice());
    s.append("$");
    let t = bytes_to_hex(tag.as_slice());
    let r = s.concat(t.as_str());
    proof {
        reveal_strlit("$");
        assert(r@ =~= credential_of(password@, salt@));
        lemma_hex_of_len(salt@);
        lemma_hex_of_len(tag@);
        assert(credential_matches(r@, password@));
    }
    r
}

/// Decides whether a stored credential is the hash of the submitted
/// password: recomputes the digest under the stored salt and compares.
pub fn credential_check(stored: &str, password: &str) -> (r: bool)
    requires
        password@.len() <= MAX_DIGEST_LEN,
    ensures
        r == credential_matches(stored@, password@),
{
    let n = stored.unicode_len();
    if n != 97 {
        proof {
            lemma_credential_shape(stored@, password@);
        }
        return false;
    }
    if stored.get_char(32) != '$' {
        proof {
            lemma_credential_shape(stored@, password@);
        }
        return false;
    }
    let salt_hex = stored.substring_char(0, 32);
    let tag_hex = stored.substring_char(33, 97);
    proof {
        lemma_credential_split(stored@, password@);
    }
    let salt = match hex_decode(salt_hex) {
        Some(v) => v,
        None => {
            proof {
                if credential_matches(stored@, password@) {
                    let salt_w = choose|s: Seq<u8>|
                        s.len() == 16 && argon2_tag(password@, s).len() == 32 && stored@
                            == credential_of(password@, s);
                    lemma_hex_of_len(salt_w);
                    assert(salt_hex@ =~= hex_of(salt_w));
                }
            }
            return false;
        },
    };
    if salt.len() != 16 {
        proof {
            if credential_matches(stored@, password@) {
                let salt_w = choose|s: Seq<u8>|
                    s.len() == 16 && argon2_tag(password@, s).len() == 32 && stored@
                        == credential_of(password@, s);
                lemma_hex_of_len(salt_w);
                assert(salt_hex@ =~= hex_of(salt_w));
                lemma_hex_of_injective(salt@, salt_w);
            }
        }
        return false;
    }
    let tag = argon2_digest(password, salt.as_slice());
    let expect_hex = bytes_to_hex(tag.as_slice());
    let eq = str_eq(tag_hex, expect_hex.as_str());
    proof {
        if eq {
            assert(stored@ =~= credential_of(password@, salt@));
            assert(credential_matches(stored@, password@));
        } else {
            if credential_matches(stored@, password@) {
                let salt_w = choose|s: Seq<u8>|
                    s.len() == 16 && argon2_tag(password@, s).len() == 32 && stored@
                        == credential_of(password@, s);
                lemma_hex_of_len(salt_w);
                lemma_hex_of_len(argon2_tag(password@, salt_w));
                assert(salt_hex@ =~= hex_of(salt_w));
                lemma_hex_of_injective(salt@, salt_w);
                assert(tag_hex@ =~= hex_of(argon2_tag(password@, salt_w)));
                assert(false);
            }
        }
    }
    eq
}

/// A matching credential always has the fixed shape: 32 hex digits of salt,
/// a separator, 64 hex digits of tag.
proof fn lemma_credential_shape(stored: Seq<char>, password: Seq<char>)
    ensures
        credential_matches(stored, password) ==> stored.len() == 97 && stored[32] == '$',
{
    if credential_matches(stored, password) {
        let salt = choose|s: Seq<u8>|
            s.len() == 16 && argon2_tag(password, s).len() == 32 && stored == credential_of(
                password,
                s,
            );
        lemma_hex_of_len(salt);
        lemma_hex_of_len(argon2_tag(password, salt));
        assert(stored.len() == 97);
        assert(stored[32] == (hex_of(salt) + seq!['$'] + hex_of(argon2_tag(password, salt)))[32]);
    }
}

/// For a matching credential of the fixed shape, the two hex fields are the
/// encodings of the witness salt and tag.
proof fn lemma_credential_split(stored: Seq<char>, password: Seq<char>)
    requires
        stored.len() == 97,
    ensures
        credential_matches(stored, password) ==> {
            let salt = choose|s: Seq<u8>|
            s.len() == 16 && argon2_tag(password, s).len() == 32 && stored == credential_of(
                password,
                s,
            );
            stored.subrange(0, 32) == hex_of(salt) && stored.subrange(33, 97) == hex_of(
                argon2_tag(password, salt),
            )
        },
{
    if credential_matches(stored, password) {
        let salt = choose|s: Seq<u8>|
            s.len() == 16 && argon2_tag(password, s).len() == 32 && stored == credential_of(
                password,
                s,
            );
        lemma_hex_of_len(salt);
        lemma_hex_of_len(argon2_tag(password, salt));
        assert(stored.subrange(0, 32) =~= hex_of(salt));
        assert(stored.subrange(33, 97) =~= hex_of(argon2_tag(password, salt)));
    }
}

} // verus!
