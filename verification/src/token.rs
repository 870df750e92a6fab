use vstd::prelude::*;
use vstd::string::StrSliceExecFns;
use vstd::string::StringExecFns;

use crate::codec::bytes_to_hex;
use crate::codec::dec_fixed;
use crate::codec::dec_val;
use crate::codec::hex_of;
use crate::codec::is_dec_digit;
use crate::codec::lemma_dec_canonical;
use crate::codec::lemma_dec_fixed_shape;
use crate::codec::lemma_dec_fixed_val;
use crate::codec::lemma_hex_of_len;
use crate::codec::lemma_pow10_20_exceeds_u64;
use crate::codec::parse_dec;
use crate::codec::str_eq;
use crate::codec::to_dec_fixed;
use crate::credentials::argon2_digest;
use crate::credentials::argon2_tag;
use crate::credentials::MAX_DIGEST_LEN;

verus! {

// Session tokens: a self-contained, signed credential carrying the subject
// and an absolute expiry. The text is the expiry written with twenty decimal
// digits, a dot, the keyed tag of the payload in hex, a dot, and the subject.
// The tag binds subject and expiry to the issuer's secret, so the validator
// needs no store besides the revocation set.

/// How long an issued token stays valid, in seconds.
pub const TOKEN_TTL_SECONDS: u64 = 600;

/// What the keyed tag is computed over: the expiry digits and the subject.
pub open spec fn token_payload(subject: Seq<char>, exp: u64) -> Seq<char> {
    dec_fixed(exp as int, 20) + seq!['.'] + subject
}

/// The one token text the authority with this secret issues for a subject
/// and expiry.
pub open spec fn token_of(secret: Seq<u8>, subject: Seq<char>, exp: u64) -> Seq<char> {
    dec_fixed(exp as int, 20) + seq!['.'] + hex_of(
        argon2_tag(token_payload(subject, exp), secret),
    ) + seq!['.'] + subject
}

/// Whether a text is the well-formed token of this subject and expiry under
/// the given secret.
pub open spec fn is_token_for(
    secret: Seq<u8>,
    token: Seq<char>,
    subject: Seq<char>,
    exp: u64,
) -> bool {
    argon2_tag(token_payload(subject, exp), secret).len() == 32 && token == token_of(
        secret,
        subject,
        exp,
    )
}

/// Whether a presented token passes validation at time `now` against a set
/// of revoked tokens: not revoked, well formed under the secret, not expired.
pub open spec fn token_accepted(
    secret: Seq<u8>,
    token: Seq<char>,
    now: u64,
    banned: Set<Seq<char>>,
) -> bool {
    !banned.contains(token) && exists|subject: Seq<char>, exp: u64|
        is_token_for(secret, token, subject, exp) && exp > now
}

/// A well-formed token splits into its fixed-position fields.
proof fn lemma_token_split(secret: Seq<u8>, token: Seq<char>, subject: Seq<char>, exp: u64)
    requires
        is_token_for(secret, token, subject, exp),
    ensures
        token.len() == 86 + subject.len(),
        token.subrange(0, 20) == dec_fixed(exp as int, 20),
        token[20] == '.',
        token[85] == '.',
        token.subrange(21, 85) == hex_of(argon2_tag(token_payload(subject, exp), secret)),
        token.subrange(86, token.len() as int) == subject,
{
    lemma_dec_fixed_shape(exp as int, 20);
    lemma_hex_of_len(argon2_tag(token_payload(subject, exp), secret));
    assert(token.subrange(0, 20) =~= dec_fixed(exp as int, 20));
    assert(token.subrange(21, 85) =~= hex_of(argon2_tag(token_payload(subject, exp), secret)));
    assert(token.subrange(86, token.len() as int) =~= subject);
}

/// One token text never stands for two subjects or two expiries.
pub proof fn lemma_token_injective(
    secret: Seq<u8>,
    token: Seq<char>,
    s1: Seq<char>,
    e1: u64,
    s2: Seq<char>,
    e2: u64,
)
    requires
        is_token_for(secret, token, s1, e1),
        is_token_for(secret, token, s2, e2),
    ensures
        s1 == s2,
        e1 == e2,
{
    lemma_token_split(secret, token, s1, e1);
    lemma_token_split(secret, token, s2, e2);
    lemma_dec_fixed_shape(e1 as int, 20);
    lemma_dec_fixed_shape(e2 as int, 20);
    lemma_pow10_20_exceeds_u64();
    lemma_dec_fixed_val(e1 as int, 20);
    lemma_dec_fixed_val(e2 as int, 20);
    assert(dec_val(dec_fixed(e1 as int, 20)) == dec_val(dec_fixed(e2 as int, 20)));
    assert(s1 == s2);
}

/// Every fact that a witness to well-formedness forces on the token text.
proof fn lemma_witness_facts(secret: Seq<u8>, token: Seq<char>, s2: Seq<char>, e2: u64)
    requires
        is_token_for(secret, token, s2, e2),
    ensures
        token.len() == 86 + s2.len(),
        token.subrange(0, 20) == dec_fixed(e2 as int, 20),
        forall|i: int| 0 <= i < 20 ==> is_dec_digit(#[trigger] token.subrange(0, 20)[i]),
        dec_val(token.subrange(0, 20)) == e2,
        token[20] == '.',
        token[85] == '.',
        token.subrange(21, 85) == hex_of(argon2_tag(token_payload(s2, e2), secret)),
        token.subrange(86, token.len() as int) == s2,
{
    lemma_token_split(secret, token, s2, e2);
    lemma_dec_fixed_shape(e2 as int, 20);
    lemma_pow10_20_exceeds_u64();
    lemma_dec_fixed_val(e2 as int, 20);
}

/// Issues and validates the signed session tokens, holding the secret that
/// keys their tags.
pub struct TokenAuthority {
    secret: Vec<u8>,
}

impl TokenAuthority {
    pub closed spec fn secret(&self) -> Seq<u8> {
        self.secret@
    }

    /// The secret must be usable as a digest salt.
    pub open spec fn wf(&self) -> bool {
        8 <= self.secret().len() <= 64
    }

    pub fn new(secret: Vec<u8>) -> (r: TokenAuthority)
        requires
            8 <= secret@.len() <= 64,
        ensures
            r.wf(),
            r.secret() == secret@,
    {
        TokenAuthority { secret }
    }

    /// Mints the token for a subject that expires `TOKEN_TTL_SECONDS` from
    /// `now`.
    pub fn issue(&self, subject: &str, now: u64) -> (r: String)
        requires
            self.wf(),
            now <= u64::MAX - TOKEN_TTL_SECONDS,
            subject@.len() <= MAX_DIGEST_LEN - 21,
        ensures
            is_token_for(self.secret(), r@, subject@, (now + TOKEN_TTL_SECONDS) as u64),
    {
        let exp = now + TOKEN_TTL_SECONDS;
        let digits = to_dec_fixed(exp, 20);
        let mut payload = digits.clone();
        payload.append(".");
        payload.append(subject);
        proof {
            reveal_strlit(".");
            lemma_dec_fixed_shape(exp as int, 20);
            assert(payload@ =~= token_payload(subject@, exp));
        }
        let tag = argon2_digest(payload.as_str(), self.secret.as_slice());
        let tag_hex = bytes_to_hex(tag.as_slice());
        let mut token = digits;
        token.append(".");
        token.append(tag_hex.as_str());
        token.append(".");
        token.append(subject);
        proof {
            assert(token@ =~= token_of(self.secret(), subject@, exp));
        }
        token
    }

    /// Decides whether a text is a well-formed, unexpired token of this
    /// authority, and for which subject.
    pub fn validate(&self, token: &str, now: u64) -> (r: Option<String>)
        requires
            self.wf(),
            token@.len() <= MAX_DIGEST_LEN,
        ensures
            r is Some <==> exists|subject: Seq<char>, exp: u64|
                is_token_for(self.secret(), token@, subject, exp) && exp > now,
            r matches Some(s) ==> forall|subject: Seq<char>, exp: u64|
                is_token_for(self.secret(), token@, subject, exp) ==> subject == s@,
    {
        let ghost secret = self.secret();
        let n = token.unicode_len();
        if n < 86 {
            proof {
                assert forall|s2: Seq<char>, e2: u64|
                    !(is_token_for(secret, token@, s2, e2) && e2 > now) by {
                    if is_token_for(secret, token@, s2, e2) {
                        lemma_witness_facts(secret, token@, s2, e2);
                    }
                }
            }
            return None;
        }
        let digits = token.substring_char(0, 20);
        let exp = match parse_dec(digits) {
            Some(v) => v,
            None => {
                proof {
                    assert forall|s2: Seq<char>, e2: u64|
                        !(is_token_for(secret, token@, s2, e2) && e2 > now) by {
                        if is_token_for(secret, token@, s2, e2) {
                            lemma_witness_facts(secret, token@, s2, e2);
                            assert(digits@ == token@.subrange(0, 20));
                            assert(dec_val(digits@) == e2);
                            assert(false);
                        }
                    }
                }
                return None;
            },
        };
        if token.get_char(20) != '.' || token.get_char(85) != '.' {
            proof {
                assert forall|s2: Seq<char>, e2: u64|
                    !(is_token_for(secret, token@, s2, e2) && e2 > now) by {
                    if is_token_for(secret, token@, s2, e2) {
                        lemma_witness_facts(secret, token@, s2, e2);
                    }
                }
            }
            return None;
        }
        let subject = token.substring_char(86, n);
        let head = token.substring_char(0, 21);
        let mut payload = String::from_str(head);
        payload.append(subject);
        proof {
            lemma_dec_canonical(digits@);
            assert(digits@ =~= token@.subrange(0, 20));
            assert(payload@ =~= token_payload(subject@, exp));
        }
        let tag = argon2_digest(payload.as_str(), self.secret.as_slice());
        let tag_hex = bytes_to_hex(tag.as_slice());
        let mid = token.substring_char(21, 85);
        if !str_eq(mid, tag_hex.as_str()) {
            proof {
                assert forall|s2: Seq<char>, e2: u64|
                    !(is_token_for(secret, token@, s2, e2) && e2 > now) by {
                    if is_token_for(secret, token@, s2, e2) {
                        lemma_witness_facts(secret, token@, s2, e2);
                        assert(e2 == exp);
                        assert(s2 == subject@);
                        assert(token_payload(s2, e2) == payload@);
                        assert(mid@ == tag_hex@);
                        assert(false);
                    }
                }
            }
            return None;
        }
        if exp <= now {
            proof {
                assert forall|s2: Seq<char>, e2: u64|
                    !(is_token_for(secret, token@, s2, e2) && e2 > now) by {
                    if is_token_for(secret, token@, s2, e2) {
                        lemma_witness_facts(secret, token@, s2, e2);
                        assert(e2 == exp);
                        assert(e2 <= now);
                    }
                }
            }
            return None;
        }
        let out = String::from_str(subject);
        proof {
            assert(out@ == subject@);
            assert(token@ =~= token_of(secret, subject@, exp));
            assert(is_token_for(secret, token@, out@, exp));
            assert forall|s2: Seq<char>, e2: u64|
                is_token_for(secret, token@, s2, e2) implies s2 == out@ by {
                lemma_token_injective(secret, token@, subject@, exp, s2, e2);
            }
        }
        Some(out)
    }
}

/// The expiry a token claims in its leading digits. Every well-formed
/// token carries its expiry there, whatever the secret, so a revocation
/// store can bound an entry's lifetime by the token's remaining validity.
pub fn claimed_expiry(token: &str) -> (r: Option<u64>)
    ensures
        forall|secret: Seq<u8>, subject: Seq<char>, exp: u64|
            is_token_for(secret, token@, subject, exp) ==> r == Some(exp),
{
    let n = token.unicode_len();
    if n < 86 {
        proof {
            assert forall|secret: Seq<u8>, s2: Seq<char>, e2: u64|
                !is_token_for(secret, token@, s2, e2) by {
                if is_token_for(secret, token@, s2, e2) {
                    lemma_witness_facts(secret, token@, s2, e2);
                }
            }
        }
        return None;
    }
    let digits = token.substring_char(0, 20);
    match parse_dec(digits) {
        Some(v) => {
            proof {
                assert forall|secret: Seq<u8>, s2: Seq<char>, e2: u64|
                    is_token_for(secret, token@, s2, e2) implies v == e2 by {
                    lemma_witness_facts(secret, token@, s2, e2);
                    assert(digits@ == token@.subrange(0, 20));
                }
            }
            Some(v)
        },
        None => {
            proof {
                assert forall|secret: Seq<u8>, s2: Seq<char>, e2: u64|
                    !is_token_for(secret, token@, s2, e2) by {
                    if is_token_for(secret, token@, s2, e2) {
                        lemma_witness_facts(secret, token@, s2, e2);
                        assert(digits@ == token@.subrange(0, 20));
                        assert(false);
                    }
                }
            }
            None
        },
    }
}

/// A token, once revoked, fails validation while the revocation entry
/// stands.
pub proof fn lemma_revoked_token_rejected(
    secret: Seq<u8>,
    token: Seq<char>,
    now: u64,
    banned: Set<Seq<char>>,
)
    requires
        banned.contains(token),
    ensures
        !token_accepted(secret, token, now, banned),
{
}

/// Past its expiry a token fails validation on its own, even when the
/// revocation entry is gone.
pub proof fn lemma_expired_token_rejected(
    secret: Seq<u8>,
    token: Seq<char>,
    now: u64,
    banned: Set<Seq<char>>,
)
    requires
        forall|subject: Seq<char>, exp: u64|
            is_token_for(secret, token, subject, exp) ==> exp <= now,
    ensures
        !token_accepted(secret, token, now, banned.remove(token)),
{
}

/// A token issued for a subject validates back to exactly that subject, for
/// exactly its window, until revoked.
pub proof fn lemma_token_round_trip(
    secret: Seq<u8>,
    subject: Seq<char>,
    exp: u64,
    now: u64,
    banned: Set<Seq<char>>,
)
    requires
        argon2_tag(token_payload(subject, exp), secret).len() == 32,
        !banned.contains(token_of(secret, subject, exp)),
        now < exp,
    ensures
        token_accepted(secret, token_of(secret, subject, exp), now, banned),
        forall|s2: Seq<char>, e2: u64|
            is_token_for(secret, token_of(secret, subject, exp), s2, e2) ==> s2 == subject && e2
                == exp,
{
    let token = token_of(secret, subject, exp);
    assert(is_token_for(secret, token, subject, exp));
    assert forall|s2: Seq<char>, e2: u64|
        is_token_for(secret, token, s2, e2) implies s2 == subject && e2 == exp by {
        lemma_token_injective(secret, token, subject, exp, s2, e2);
    }
}

} // verus!
