//! Authentication: bearer tokens, sessions, password checks, signup and the
//! account view that `whoami` shows.
use vstd::prelude::*;
use crate::error::{ApiError, DbFailure, Status, fails_with};
use crate::ident::Oid;
use crate::records::{Session, SignupData, User};
use argon2::password_hash::{PasswordHasher, PasswordVerifier};
use vstd::utf8::encode_utf8;

verus! {

/// A byte that an HTTP header value may hold when read as text: visible ASCII
/// or a horizontal tab.
pub open spec fn is_visible_ascii(b: u8) -> bool {
    (32 <= b && b < 127) || b == 9
}

/// The header value is text: every byte is visible ASCII.
pub open spec fn is_header_text(h: Seq<u8>) -> bool {
    forall|i: int| 0 <= i < h.len() ==> #[trigger] is_visible_ascii(h[i])
}

/// The bytes of `"Bearer "`.
pub open spec fn bearer_prefix() -> Seq<u8> {
    seq![0x42u8, 0x65u8, 0x61u8, 0x72u8, 0x65u8, 0x72u8, 0x20u8]
}

/// The characters that ASCII bytes spell.
pub open spec fn ascii_chars(b: Seq<u8>) -> Seq<char> {
    b.map_values(|x: u8| x as char)
}

/// The token an `Authorization` header carries: present, text, and
/// `"Bearer "` followed by the token.
pub open spec fn bearer_token_of(header: Option<Seq<u8>>) -> Option<Seq<char>> {
    match header {
        Some(h) => if is_header_text(h) && h.len() >= 7 && h.take(7) == bearer_prefix() {
            Some(ascii_chars(h.skip(7)))
        } else {
            None
        },
        None => None,
    }
}

/// Calls `String::from_utf8` on bytes that are all ASCII, which std documents
/// to succeed with one character per byte. The contract claims that
/// character-per-byte result.
#[verifier::external_body]
fn ascii_to_string(bytes: Vec<u8>) -> (s: String)
    requires
        forall|i: int| 0 <= i < bytes@.len() ==> bytes@[i] < 128,
    ensures
        s@ == ascii_chars(bytes@),
{
    match String::from_utf8(bytes) {
        Ok(s) => s,
        Err(_) => String::new(),
    }
}

/// The message of a request without a usable bearer token.
pub open spec fn missing_token_message() -> Seq<char> {
    "Missing or invalid token"@
}

/// Reads the bearer token from the raw `Authorization` header value.
pub fn bearer_token(header: Option<&[u8]>) -> (token: Result<String, ApiError>)
    ensures
        match bearer_token_of(
            match header {
                Some(h) => Some(h@),
                None => None,
            },
        ) {
            Some(t) => token matches Ok(s) && s@ == t,
            None => fails_with(token, Status::Unauthorized, missing_token_message()),
        },
{
    let refused = ApiError::new(Status::Unauthorized, "Missing or invalid token");
    let h = match header {
        Some(h) => h,
        None => {
            return Err(refused);
        },
    };
    let n = h.len();
    let mut i: usize = 0;
    while i < n
        invariant
            n == h@.len(),
            0 <= i <= n,
            header == Some(h),
            refused.status == Status::Unauthorized,
            refused.message@ == missing_token_message(),
            forall|j: int| 0 <= j < i ==> #[trigger] is_visible_ascii(h@[j]),
        decreases n - i,
    {
        let b = h[i];
        if !((32 <= b && b < 127) || b == 9) {
            assert(!is_visible_ascii(h@[i as int]));
            return Err(refused);
        }
        i = i + 1;
    }
    if n < 7 || h[0] != 0x42 || h[1] != 0x65 || h[2] != 0x61 || h[3] != 0x72 || h[4] != 0x65
        || h[5] != 0x72 || h[6] != 0x20 {
        proof {
            if n >= 7 {
                assert(h@.take(7)[0] == h@[0]);
                assert(h@.take(7)[1] == h@[1]);
                assert(h@.take(7)[2] == h@[2]);
                assert(h@.take(7)[3] == h@[3]);
                assert(h@.take(7)[4] == h@[4]);
                assert(h@.take(7)[5] == h@[5]);
                assert(h@.take(7)[6] == h@[6]);
            }
        }
        return Err(refused);
    }
    assert(h@.take(7) =~= bearer_prefix());
    let mut rest: Vec<u8> = Vec::new();
    let mut k: usize = 7;
    while k < n
        invariant
            n == h@.len(),
            7 <= k <= n,
            rest@ =~= h@.subrange(7, k as int),
            is_header_text(h@),
        decreases n - k,
    {
        rest.push(h[k]);
        k = k + 1;
    }
    assert(rest@ =~= h@.skip(7));
    assert forall|j: int| 0 <= j < rest@.len() implies rest@[j] < 128 by {
        assert(is_visible_ascii(h@[j + 7]));
    }
    Ok(ascii_to_string(rest))
}

/// The user whose session a token lookup found; failures of the lookup and a
/// missing session refuse the request.
pub fn session_user(lookup: Result<Option<Session>, DbFailure>) -> (user: Result<Oid, ApiError>)
    ensures
        match lookup {
            Err(_) => fails_with(user, Status::Unauthorized, "Session lookup failed"@),
            Ok(None) => fails_with(user, Status::Unauthorized, "Session not found"@),
            Ok(Some(s)) => user == Ok::<Oid, ApiError>(s.user_id),
        },
{
    match lookup {
        Err(_) => Err(ApiError::new(Status::Unauthorized, "Session lookup failed")),
        Ok(None) => Err(ApiError::new(Status::Unauthorized, "Session not found")),
        Ok(Some(s)) => Ok(s.user_id),
    }
}

/// The account a session's user lookup found.
pub fn session_account(lookup: Result<Option<User>, DbFailure>) -> (user: Result<User, ApiError>)
    ensures
        match lookup {
            Err(_) => fails_with(user, Status::InternalServerError, "User lookup failed"@),
            Ok(None) => fails_with(user, Status::Unauthorized, "User not found"@),
            Ok(Some(u)) => user == Ok::<User, ApiError>(u),
        },
{
    match lookup {
        Err(_) => Err(ApiError::new(Status::InternalServerError, "User lookup failed")),
        Ok(None) => Err(ApiError::new(Status::Unauthorized, "User not found")),
        Ok(Some(u)) => Ok(u),
    }
}

/// The account a login's lookup by email found.
pub fn login_account(lookup: Result<Option<User>, DbFailure>) -> (user: Result<User, ApiError>)
    ensures
        match lookup {
            Err(_) => fails_with(user, Status::Unauthorized, "Login failed"@),
            Ok(None) => fails_with(user, Status::Unauthorized, "Invalid credentials"@),
            Ok(Some(u)) => user == Ok::<User, ApiError>(u),
        },
{
    match lookup {
        Err(_) => Err(ApiError::new(Status::Unauthorized, "Login failed")),
        Ok(None) => Err(ApiError::new(Status::Unauthorized, "Invalid credentials")),
        Ok(Some(u)) => Ok(u),
    }
}

/// Whether `hash` parses as a PHC password-hash string; the result of
/// `PasswordHash::new` on it.
pub uninterp spec fn phc_hash_parses(hash: Seq<char>) -> bool;

/// Whether Argon2, with the parameters written in the PHC string `hash`,
/// computes that hash from `password`; the result of `verify_password`.
pub uninterp spec fn argon2_accepts(password: Seq<char>, hash: Seq<char>) -> bool;

/// `password` is the password that `hash` was made from.
pub open spec fn password_matches(password: Seq<char>, hash: Seq<char>) -> bool {
    phc_hash_parses(hash) && argon2_accepts(password, hash)
}

/// Calls `password_hash::PasswordHash::new`, which parses a PHC string. The
/// contract names its outcome: whether the text parses.
#[verifier::external_body]
fn phc_parses(hash: &str) -> (ok: bool)
    ensures
        ok == phc_hash_parses(hash@),
{
    argon2::password_hash::PasswordHash::new(hash).is_ok()
}

/// Calls `PasswordVerifier::verify_password` of `Argon2::default()` on the
/// password's bytes and the parsed PHC string (text that does not parse is
/// not accepted). The contract names its outcome, a function of the password
/// and the hash text alone.
#[verifier::external_body]
fn argon2_verify(password: &str, hash: &str) -> (ok: bool)
    ensures
        ok == argon2_accepts(password@, hash@),
{
    match argon2::password_hash::PasswordHash::new(hash) {
        Ok(parsed) => argon2::Argon2::default().verify_password(password.as_bytes(), &parsed).is_ok(),
        Err(_) => false,
    }
}

/// Argon2's limit on the length of a password, in bytes.
pub open spec fn max_password_bytes() -> nat {
    0xFFFF_FFFF
}

/// Calls `SaltString::generate` with the operating system's random source
/// (16 random bytes, Base64-encoded), then `PasswordHasher::hash_password` of
/// `Argon2::default()` on the password's bytes and that salt, and writes the
/// hash as a PHC string. The salt is random. The contract claims what holds of
/// every outcome: with a generated salt, argon2 refuses only a password longer
/// than 0xFFFFFFFF bytes (its other refusals are salt lengths outside 8 to
/// 0xFFFFFFFF bytes); and, as the argon2 documentation shows, the string
/// parses again and verifying the same password against it succeeds.
#[verifier::external_body]
fn argon2_hash_with_new_salt(password: &str) -> (hash: Option<String>)
    ensures
        encode_utf8(password@).len() <= max_password_bytes() ==> hash is Some,
        hash matches Some(h) ==> phc_hash_parses(h@) && argon2_accepts(password@, h@),
{
    let salt = argon2::password_hash::SaltString::generate(&mut argon2::password_hash::rand_core::OsRng);
    match argon2::Argon2::default().hash_password(password.as_bytes(), &salt) {
        Ok(h) => Some(h.to_string()),
        Err(_) => None,
    }
}

/// The answer to a login password check, from whether the stored hash parses
/// and whether Argon2 accepts the password against it.
pub fn password_verdict(hash_parses: bool, password_accepted: bool) -> (r: Result<(), ApiError>)
    ensures
        !hash_parses ==> fails_with(r, Status::Unauthorized, "Hash parse failed"@),
        hash_parses && !password_accepted ==> fails_with(r, Status::Unauthorized, "Invalid credentials"@),
        hash_parses && password_accepted ==> r is Ok,
{
    if !hash_parses {
        return Err(ApiError::new(Status::Unauthorized, "Hash parse failed"));
    }
    if !password_accepted {
        return Err(ApiError::new(Status::Unauthorized, "Invalid credentials"));
    }
    Ok(())
}

/// Checks a login password against the stored hash.
pub fn check_password(password: &str, stored_hash: &str) -> (r: Result<(), ApiError>)
    ensures
        !phc_hash_parses(stored_hash@) ==> fails_with(r, Status::Unauthorized, "Hash parse failed"@),
        phc_hash_parses(stored_hash@) && !argon2_accepts(password@, stored_hash@) ==> fails_with(
            r,
            Status::Unauthorized,
            "Invalid credentials"@,
        ),
        r is Ok <==> password_matches(password@, stored_hash@),
{
    let parses = phc_parses(stored_hash);
    if !parses {
        return password_verdict(false, false);
    }
    let accepted = argon2_verify(password, stored_hash);
    password_verdict(true, accepted)
}

/// Lower-case hexadecimal digit.
pub open spec fn is_lower_hex(c: char) -> bool {
    ('0' <= c && c <= '9') || ('a' <= c && c <= 'f')
}

/// The hyphenated lower-case text of a UUID: 36 characters, hyphens at
/// positions 8, 13, 18 and 23, hexadecimal digits elsewhere.
pub open spec fn is_uuid_text(t: Seq<char>) -> bool {
    &&& t.len() == 36
    &&& forall|i: int|
        0 <= i < 36 ==> if i == 8 || i == 13 || i == 18 || i == 23 {
            t[i] == '-'
        } else {
            is_lower_hex(#[trigger] t[i])
        }
}

/// The lower-case hexadecimal digit for `d` (below 16).
pub open spec fn hex_digit_char(d: nat) -> char {
    if d < 10 {
        (48 + d) as char
    } else {
        (87 + d) as char
    }
}

/// The last `width` lower-case hexadecimal digits of `n`, most significant
/// first.
pub open spec fn lower_hex(n: nat, width: nat) -> Seq<char>
    decreases width,
{
    if width == 0 {
        Seq::empty()
    } else {
        lower_hex(n / 16, (width - 1) as nat).push(hex_digit_char(n % 16))
    }
}

/// The hyphenated text of the UUID whose 128 bits are `n`: its 32
/// hexadecimal digits in groups of 8, 4, 4, 4 and 12.
pub open spec fn uuid_text_of(n: u128) -> Seq<char> {
    let h = lower_hex(n as nat, 32);
    h.subrange(0, 8) + seq!['-'] + h.subrange(8, 12) + seq!['-'] + h.subrange(12, 16) + seq!['-']
        + h.subrange(16, 20) + seq!['-'] + h.subrange(20, 32)
}

/// The 128 bits `n` are a version-4 (random) UUID of the RFC 4122 variant:
/// the version field (bits 76 to 79) is 4 and the variant field (bits 62 and
/// 63) is binary 10.
pub open spec fn is_version4_uuid(n: u128) -> bool {
    ((n >> 76u128) & 0xfu128) == 4 && ((n >> 62u128) & 0x3u128) == 2
}

/// Calls `uuid::Uuid::new_v4` and reads its 128 bits with `as_u128`. The
/// value is random; the contract claims what `new_v4` sets in every outcome:
/// the version and variant fields of a version-4 UUID.
#[verifier::external_body]
pub(crate) fn new_uuid() -> (n: u128)
    ensures
        is_version4_uuid(n),
{
    uuid::Uuid::new_v4().as_u128()
}

/// Calls `uuid::Uuid::from_u128` and writes the UUID with `to_string`. The
/// contract claims the text uuid's `Display` writes: the 32 lower-case
/// hexadecimal digits of the number, hyphenated 8-4-4-4-12.
#[verifier::external_body]
fn uuid_text(n: u128) -> (t: String)
    ensures
        t@ == uuid_text_of(n),
{
    uuid::Uuid::from_u128(n).to_string()
}

proof fn lemma_lower_hex(n: nat, width: nat)
    ensures
        lower_hex(n, width).len() == width,
        forall|i: int| 0 <= i < width ==> is_lower_hex(#[trigger] lower_hex(n, width)[i]),
    decreases width,
{
    if width > 0 {
        lemma_lower_hex(n / 16, (width - 1) as nat);
        let d = n % 16;
        assert(is_lower_hex(hex_digit_char(d)));
    }
}

/// The text of every UUID has the hyphenated lower-case shape.
pub proof fn lemma_uuid_text_shape(n: u128)
    ensures
        is_uuid_text(uuid_text_of(n)),
{
    let h = lower_hex(n as nat, 32);
    lemma_lower_hex(n as nat, 32);
    let t = uuid_text_of(n);
    assert forall|i: int| 0 <= i < 36 implies if i == 8 || i == 13 || i == 18 || i == 23 {
        t[i] == '-'
    } else {
        is_lower_hex(#[trigger] t[i])
    } by {
        if i < 8 {
            assert(t[i] == h[i]);
        } else if 8 < i < 13 {
            assert(t[i] == h[i - 1]);
        } else if 13 < i < 18 {
            assert(t[i] == h[i - 2]);
        } else if 18 < i < 23 {
            assert(t[i] == h[i - 3]);
        } else if 23 < i {
            assert(t[i] == h[i - 4]);
        }
    }
}

impl Session {
    /// A new session for `user_id` with a fresh random bearer token.
    pub fn open(user_id: Oid) -> (s: Session)
        ensures
            s.user_id == user_id,
            s.id.wf(),
            exists|n: u128| is_version4_uuid(n) && s.session_id@ == uuid_text_of(n),
            s.session_id@[14] == '4',
            s.session_id@[19] == '8' || s.session_id@[19] == '9' || s.session_id@[19] == 'a'
                || s.session_id@[19] == 'b',
            is_uuid_text(s.session_id@),
    {
        let n = new_uuid();
        let token = uuid_text(n);
        proof {
            lemma_uuid_text_shape(n);
            law_version4_text(n);
        }
        Session { id: Oid::fresh(), session_id: token, user_id }
    }
}

/// The bytes of the text `t`, one per character.
pub open spec fn text_bytes(t: Seq<char>) -> Seq<u8> {
    t.map_values(|c: char| c as u8)
}

/// A token handed out at login, sent back as `"Bearer <token>"`, is read back
/// as that same token.
pub proof fn law_issued_token_authenticates(token: Seq<char>)
    requires
        is_uuid_text(token),
    ensures
        bearer_token_of(Some(bearer_prefix() + text_bytes(token))) == Some(token),
{
    let h = bearer_prefix() + text_bytes(token);
    assert(h.take(7) =~= bearer_prefix());
    assert forall|i: int| 0 <= i < h.len() implies #[trigger] is_visible_ascii(h[i]) by {
        if i >= 7 {
            assert(h[i] == token[i - 7] as u8);
            if i - 7 == 8 || i - 7 == 13 || i - 7 == 18 || i - 7 == 23 {
            } else {
                assert(is_lower_hex(token[i - 7]));
            }
        }
    }
    assert forall|i: int| 0 <= i < token.len() implies (ascii_chars(h.skip(7))[i] == token[i]) by {
        let c = token[i];
        if i == 8 || i == 13 || i == 18 || i == 23 {
        } else {
            assert(is_lower_hex(token[i]));
        }
        assert(h.skip(7)[i] == c as u8);
    }
    assert(ascii_chars(h.skip(7)) =~= token);
}

impl User {
    /// The account for the signup data with the given id and password hash;
    /// no hash (hashing failed) is a server error.
    pub fn from_signup(id: Oid, data: SignupData, hash: Option<String>) -> (user: Result<User, ApiError>)
        ensures
            match hash {
                Some(h) => user matches Ok(u) && u.id == id && u.username == data.username
                    && u.email == data.email && u.first_name == data.first_name && u.last_name
                    == data.last_name && u.profile_picture_url == data.profile_picture_url
                    && u.password_hash == h,
                None => fails_with(user, Status::InternalServerError, "Hash error"@),
            },
    {
        let password_hash = match hash {
            Some(h) => h,
            None => {
                return Err(ApiError::new(Status::InternalServerError, "Hash error"));
            },
        };
        Ok(
            User {
                id,
                username: data.username,
                first_name: data.first_name,
                last_name: data.last_name,
                profile_picture_url: data.profile_picture_url,
                email: data.email,
                password_hash,
            },
        )
    }

    /// A new account for the signup data, with an id newly made by bson and
    /// the password stored as an Argon2 hash under a fresh random salt; a
    /// hashing failure is a server error. Of the id only that it fits in
    /// twelve bytes is stated: bson does not promise that two ids differ.
    pub fn register(data: SignupData) -> (user: Result<User, ApiError>)
        ensures
            match user {
                Ok(u) => {
                    &&& u.id.wf()
                    &&& u.username == data.username
                    &&& u.email == data.email
                    &&& u.first_name == data.first_name
                    &&& u.last_name == data.last_name
                    &&& u.profile_picture_url == data.profile_picture_url
                    &&& password_matches(data.password@, u.password_hash@)
                },
                Err(e) => e.status == Status::InternalServerError && e.message@ == "Hash error"@,
            },
            encode_utf8(data.password@).len() <= max_password_bytes() ==> user is Ok,
    {
        let hash = argon2_hash_with_new_salt(data.password.as_str());
        User::from_signup(Oid::fresh(), data, hash)
    }

    /// The account as `whoami` shows it: the password hash cleared.
    pub fn redacted(self) -> (shown: User)
        ensures
            shown.password_hash@ == Seq::<char>::empty(),
            shown.id == self.id,
            shown.username == self.username,
            shown.first_name == self.first_name,
            shown.last_name == self.last_name,
            shown.profile_picture_url == self.profile_picture_url,
            shown.email == self.email,
    {
        User { password_hash: String::new(), ..self }
    }
}

/// The answer to a signup whose account insert ended as `insert`.
#[derive(Clone, Copy, Debug, PartialEq, Eq, Structural)]
pub enum SignupOutcome {
    /// 201: the account was stored.
    Created,
    /// 409: "Username or email already exists".
    Conflict,
    /// 500: any other failure.
    Failed,
}

/// Decides the answer to a signup from how the insert went.
pub fn signup_outcome(insert: &Result<(), DbFailure>) -> (o: SignupOutcome)
    ensures
        match insert {
            Ok(()) => o == SignupOutcome::Created,
            Err(e) => if e.write_error_code == Some(crate::error::DUPLICATE_KEY_CODE) {
                o == SignupOutcome::Conflict
            } else {
                o == SignupOutcome::Failed
            },
        },
{
    match insert {
        Ok(()) => SignupOutcome::Created,
        Err(e) => if e.is_duplicate_key_error() {
            SignupOutcome::Conflict
        } else {
            SignupOutcome::Failed
        },
    }
}

proof fn lemma_lower_hex_digit(n: nat, width: nat, i: int)
    requires
        0 <= i < width,
    ensures
        lower_hex(n, width)[i] == hex_digit_char(
            (n as int / vstd::arithmetic::power::pow(16, (width - 1 - i) as nat)) as nat % 16,
        ),
    decreases width,
{
    reveal(vstd::arithmetic::power::pow);
    lemma_lower_hex(n, width);
    lemma_lower_hex(n / 16, (width - 1) as nat);
    if i == width - 1 {
        assert(vstd::arithmetic::power::pow(16, 0) == 1);
    } else {
        lemma_lower_hex_digit(n / 16, (width - 1) as nat, i);
        let p = vstd::arithmetic::power::pow(16, (width - 2 - i) as nat);
        vstd::arithmetic::power::lemma_pow_positive(16, (width - 2 - i) as nat);
        vstd::arithmetic::div_mod::lemma_div_denominator(n as int, 16, p);
        assert(vstd::arithmetic::power::pow(16, (width - 1 - i) as nat) == 16 * p);
    }
}

/// The version digit of a version-4 UUID's text is `4`, and its variant digit
/// is one of `8`, `9`, `a`, `b`.
pub proof fn law_version4_text(n: u128)
    requires
        is_version4_uuid(n),
    ensures
        uuid_text_of(n)[14] == '4',
        uuid_text_of(n)[19] == '8' || uuid_text_of(n)[19] == '9' || uuid_text_of(n)[19] == 'a'
            || uuid_text_of(n)[19] == 'b',
{
    let h = lower_hex(n as nat, 32);
    lemma_lower_hex(n as nat, 32);
    lemma_lower_hex_digit(n as nat, 32, 12);
    lemma_lower_hex_digit(n as nat, 32, 16);
    reveal_with_fuel(vstd::arithmetic::power::pow, 20);
    assert(vstd::arithmetic::power::pow(16, 19) == 0x1000_0000_0000_0000_0000int);
    assert(vstd::arithmetic::power::pow(16, 15) == 0x1000_0000_0000_0000int);
    let version = (n as int / 0x1000_0000_0000_0000_0000int) as nat % 16;
    let variant = (n as int / 0x1000_0000_0000_0000int) as nat % 16;
    assert(((n >> 76u128) & 0xfu128) == (n / 0x1000_0000_0000_0000_0000u128) % 16u128) by (bit_vector);
    assert(((n >> 62u128) & 0x3u128) == 2 ==> 8 <= (n / 0x1000_0000_0000_0000u128) % 16u128 <= 11) by (bit_vector);
    assert(version == 4);
    assert(8 <= variant <= 11);
    let t = uuid_text_of(n);
    assert(t[14] == h[12]);
    assert(t[19] == h[16]);
}

} // verus!
