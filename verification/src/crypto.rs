//! Secrets: random tokens, token digests, password hashes and ids.
use vstd::prelude::*;
use vstd::string::StringSliceAdditionalSpecFns;

verus! {

/// The SHA-256 digest of `data` (what `sha2::Sha256` computes).
pub uninterp spec fn sha256_digest(data: Seq<u8>) -> Seq<u8>;

/// The PHC string argon2 (default parameters) produces for `password` and
/// `salt`, or `None` where it fails.
pub uninterp spec fn argon2_phc(password: Seq<u8>, salt: Seq<u8>) -> Option<Seq<char>>;

/// Whether `password` matches the PHC string `hash`; `None` where `hash` does
/// not parse as one.
pub uninterp spec fn argon2_verdict(password: Seq<u8>, hash: Seq<char>) -> Option<bool>;

/// `sha2::Sha256::digest`: the 32-byte SHA-256 digest of `data`.
#[verifier::external_body]
fn sha256(data: &[u8]) -> (d: Vec<u8>)
    ensures
        d@ == sha256_digest(data@),
        d@.len() == 32,
{
    <sha2::Sha256 as sha2::Digest>::digest(data).to_vec()
}

/// `rand_core::OsRng::try_fill_bytes`: `n` bytes from the operating system's
/// random source, or `None` when that source fails.  The bytes are random, so
/// only their number is stated.
#[verifier::external_body]
fn os_random_bytes(n: usize) -> (r: Option<Vec<u8>>)
    ensures
        r matches Some(v) ==> v@.len() == n,
{
    let mut b = vec![0u8; n];
    match rand::RngCore::try_fill_bytes(&mut rand::rngs::OsRng, &mut b) {
        Ok(()) => Some(b),
        Err(_) => None,
    }
}

/// `argon2::Argon2::default().hash_password` with the salt `salt` (encoded by
/// `SaltString::encode_b64`), as a PHC string; `None` where either step fails.
/// The salt must be at least 3 bytes: `hash_password` turns the encoded salt
/// back into a `Salt` with `expect`, and `Salt::from_b64` refuses fewer than 4
/// Base64 characters.  A hash it makes verifies the same password again:
/// `verify_password` recomputes with the salt and parameters stored in it.
#[verifier::external_body]
fn argon2_hash(password: &[u8], salt: &[u8]) -> (r: Option<String>)
    requires
        salt@.len() >= 3,
    ensures
        match r {
            Some(h) => argon2_phc(password@, salt@) == Some(h@),
            None => argon2_phc(password@, salt@) is None,
        },
        r matches Some(h) ==> argon2_verdict(password@, h@) == Some(true),
{
    let s = match argon2::password_hash::SaltString::encode_b64(salt) {
        Ok(s) => s,
        Err(_) => return None,
    };
    match argon2::PasswordHasher::hash_password(&argon2::Argon2::default(), password, &s) {
        Ok(h) => Some(h.to_string()),
        Err(_) => None,
    }
}

/// `argon2::password_hash::PasswordHash::new` followed by
/// `Argon2::default().verify_password`: `None` when `hash` does not parse,
/// else whether the password matches it.
#[verifier::external_body]
fn argon2_check(password: &[u8], hash: &str) -> (r: Option<bool>)
    ensures
        r == argon2_verdict(password@, hash@),
{
    match argon2::password_hash::PasswordHash::new(hash) {
        Ok(ph) => Some(
            argon2::PasswordVerifier::verify_password(&argon2::Argon2::default(), password, &ph).is_ok(),
        ),
        Err(_) => None,
    }
}

/// `bytes` with the version-4 bits set in byte 6 and the RFC 4122 variant
/// bits in byte 8.
pub open spec fn uuid_v4_bytes(bytes: Seq<u8>) -> Seq<u8> {
    bytes.update(6, (bytes[6] & 0x0fu8) | 0x40u8).update(8, (bytes[8] & 0x3fu8) | 0x80u8)
}

/// The 32 hex digits `h` grouped 8-4-4-4-12 with hyphens.
pub open spec fn hyphenated(h: Seq<char>) -> Seq<char> {
    h.subrange(0, 8) + seq!['-'] + h.subrange(8, 12) + seq!['-'] + h.subrange(12, 16) + seq!['-']
        + h.subrange(16, 20) + seq!['-'] + h.subrange(20, 32)
}

/// The hyphenated lowercase text of the version-4 UUID built from 16 random bytes.
pub open spec fn uuid_v4_text(bytes: Seq<u8>) -> Seq<char> {
    hyphenated(hex_lower(uuid_v4_bytes(bytes)))
}

/// A character of a hyphenated UUID: a lowercase hex digit or a hyphen.
pub open spec fn uuid_char(c: char) -> bool {
    ('0' <= c <= '9') || ('a' <= c <= 'f') || c == '-'
}

proof fn lemma_hex_chars(b: Seq<u8>)
    ensures
        forall|i: int| 0 <= i < hex_lower(b).len() ==> uuid_char(#[trigger] hex_lower(b)[i]),
    decreases b.len(),
{
    if b.len() > 0 {
        lemma_hex_chars(b.drop_last());
        let d1 = (b.last() / 16) as nat;
        let d2 = (b.last() % 16) as nat;
        let p = hex_lower(b.drop_last());
        let h = hex_lower(b);
        assert(h == p.push(hex_digit(d1)).push(hex_digit(d2)));
        assert forall|i: int| 0 <= i < h.len() implies uuid_char(#[trigger] h[i]) by {
            if i < p.len() {
                assert(h[i] == p[i]);
            } else if i == p.len() {
                assert(h[i] == hex_digit(d1));
            } else {
                assert(h[i] == hex_digit(d2));
            }
        }
    }
}

/// The text of a version-4 UUID is 36 hex digits and hyphens.
pub proof fn lemma_uuid_text_shape(bytes: Seq<u8>)
    requires
        bytes.len() == 16,
    ensures
        uuid_v4_text(bytes).len() == 36,
        forall|i: int| 0 <= i < 36 ==> uuid_char(#[trigger] uuid_v4_text(bytes)[i]),
{
    let h = hex_lower(uuid_v4_bytes(bytes));
    lemma_hex_len(uuid_v4_bytes(bytes));
    lemma_hex_chars(uuid_v4_bytes(bytes));
    let t = uuid_v4_text(bytes);
    assert(t.len() == 36);
    assert forall|i: int| 0 <= i < 36 implies uuid_char(#[trigger] t[i]) by {
        if i < 8 {
            assert(t[i] == h[i]);
        } else if i == 8 || i == 13 || i == 18 || i == 23 {
            assert(t[i] == '-');
        } else if i < 13 {
            assert(t[i] == h[i - 1]);
        } else if i < 18 {
            assert(t[i] == h[i - 2]);
        } else if i < 23 {
            assert(t[i] == h[i - 3]);
        } else {
            assert(t[i] == h[i - 4]);
        }
    }
}

/// The text of the version-4 UUID built from 16 bytes: the version and
/// variant bits set, then hyphenated lowercase hex (what
/// `uuid::Builder::from_random_bytes(..).into_uuid().to_string()` gives).
pub fn uuid_text(bytes: &[u8]) -> (s: String)
    requires
        bytes@.len() == 16,
    ensures
        s@ == uuid_v4_text(bytes@),
{
    let mut b: Vec<u8> = Vec::new();
    let mut i: usize = 0;
    while i < bytes.len()
        invariant
            i <= bytes@.len(),
            b@ == bytes@.subrange(0, i as int),
        decreases bytes@.len() - i,
    {
        b.push(bytes[i]);
        i = i + 1;
    }
    assert(b@ == bytes@);
    let v6 = (b[6] & 0x0fu8) | 0x40u8;
    b.set(6, v6);
    let v8 = (b[8] & 0x3fu8) | 0x80u8;
    b.set(8, v8);
    assert(b@ == uuid_v4_bytes(bytes@));
    let hs = hex_encode(b.as_slice());
    let h = crate::text::str_chars(hs.as_str());
    proof {
        lemma_hex_len(b@);
    }
    let mut out: Vec<char> = Vec::new();
    crate::text::push_all(&mut out, crate::text::slice_to_vec(h.as_slice(), 0, 8).as_slice());
    out.push('-');
    crate::text::push_all(&mut out, crate::text::slice_to_vec(h.as_slice(), 8, 12).as_slice());
    out.push('-');
    crate::text::push_all(&mut out, crate::text::slice_to_vec(h.as_slice(), 12, 16).as_slice());
    out.push('-');
    crate::text::push_all(&mut out, crate::text::slice_to_vec(h.as_slice(), 16, 20).as_slice());
    out.push('-');
    crate::text::push_all(&mut out, crate::text::slice_to_vec(h.as_slice(), 20, 32).as_slice());
    assert(out@ == hyphenated(h@));
    crate::text::string_from_chars(out.as_slice())
}

/// A fresh random id: a version-4 UUID from 16 bytes of the operating
/// system's random source, or `None` when that source fails.
pub fn new_uuid() -> (r: Option<String>)
    ensures
        r matches Some(s) ==> (exists|b: Seq<u8>| b.len() == 16 && s@ == uuid_v4_text(b)) && s@.len()
            == 36 && forall|i: int| 0 <= i < 36 ==> uuid_char(#[trigger] s@[i]),
{
    match os_random_bytes(16) {
        Some(b) => {
            proof {
                lemma_uuid_text_shape(b@);
            }
            Some(uuid_text(b.as_slice()))
        },
        None => None,
    }
}

/// The lowercase hex digit of `d`.
pub open spec fn hex_digit(d: nat) -> char {
    if d < 10 {
        (('0' as u32) + d) as char
    } else {
        (('a' as u32) + (d - 10)) as char
    }
}

/// Lowercase hex: two digits per byte, high nibble first (what `hex::encode` produces).
pub open spec fn hex_lower(b: Seq<u8>) -> Seq<char>
    decreases b.len(),
{
    if b.len() == 0 {
        Seq::empty()
    } else {
        hex_lower(b.drop_last()).push(hex_digit((b.last() / 16) as nat)).push(
            hex_digit((b.last() % 16) as nat),
        )
    }
}

pub proof fn lemma_hex_len(b: Seq<u8>)
    ensures
        hex_lower(b).len() == 2 * b.len(),
    decreases b.len(),
{
    if b.len() > 0 {
        lemma_hex_len(b.drop_last());
    }
}

fn hex_digit_exec(d: u8) -> (c: char)
    requires
        d < 16,
    ensures
        c == hex_digit(d as nat),
{
    if d < 10 {
        let b: u8 = 48 + d;
        b as char
    } else {
        let b: u8 = 97 + (d - 10);
        b as char
    }
}

/// Lowercase hex of `b`.
pub fn hex_encode(b: &[u8]) -> (s: String)
    ensures
        s@ == hex_lower(b@),
{
    let mut v: Vec<char> = Vec::new();
    let mut i: usize = 0;
    while i < b.len()
        invariant
            i <= b@.len(),
            v@ == hex_lower(b@.subrange(0, i as int)),
        decreases b@.len() - i,
    {
        let x = b[i];
        v.push(hex_digit_exec(x / 16));
        v.push(hex_digit_exec(x % 16));
        proof {
            assert(b@.subrange(0, i + 1).drop_last() == b@.subrange(0, i as int));
        }
        i = i + 1;
    }
    assert(b@.subrange(0, b@.len() as int) == b@);
    crate::text::string_from_chars(v.as_slice())
}

/// The lowercase hex SHA-256 digest of `data`.
pub fn sha256_hex(data: &[u8]) -> (s: String)
    ensures
        s@ == hex_lower(sha256_digest(data@)),
        s@.len() == 64,
{
    let d = sha256(data);
    proof {
        lemma_hex_len(d@);
    }
    hex_encode(d.as_slice())
}

/// `nbytes` random bytes as lowercase hex (`None` when the random source fails).
pub fn random_token_hex(nbytes: usize) -> (r: Option<String>)
    ensures
        r matches Some(s) ==> exists|b: Seq<u8>| b.len() == nbytes && s@ == hex_lower(b),
{
    match os_random_bytes(nbytes) {
        Some(b) => Some(hex_encode(b.as_slice())),
        None => None,
    }
}

/// An argon2 hash of `password` under a fresh 16-byte salt; `Unauthorized`
/// when no salt or hash could be made.
pub fn hash_password(password: &str) -> (r: Result<String, crate::db::error::DbError>)
    ensures
        match r {
            Ok(h) => (exists|salt: Seq<u8>|
                salt.len() == 16 && argon2_phc(password.spec_bytes(), salt) == Some(h@))
                && argon2_verdict(password.spec_bytes(), h@) == Some(true),
            Err(e) => e == crate::db::error::DbError::Unauthorized,
        },
{
    let salt = match os_random_bytes(16) {
        Some(s) => s,
        None => {
            return Err(crate::db::error::DbError::Unauthorized);
        },
    };
    match argon2_hash(password.as_bytes(), salt.as_slice()) {
        Some(h) => Ok(h),
        None => Err(crate::db::error::DbError::Unauthorized),
    }
}

/// Whether `password` matches `hash`.  A hash that does not parse matches
/// nothing; a dummy hash is computed then so that both paths take similar time.
pub fn verify_password(password: &str, hash: &str) -> (b: bool)
    ensures
        b == (argon2_verdict(password.spec_bytes(), hash@) == Some(true)),
{
    match argon2_check(password.as_bytes(), hash) {
        Some(ok) => ok,
        None => {
            let _ = hash_password("dummy");
            false
        },
    }
}

} // verus!
