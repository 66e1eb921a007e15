//! The FRITZ!Box AHA-HTTP-Interface session logic: the login
//! challenge-response, the session id life cycle and the handling of
//! switch command replies. The HTTP exchange itself happens outside.
use vstd::prelude::*;
use crate::crypto::{
    hex_error_message, hex_error_spec, HexError,
    encode_utf16le, hex_decode, hex_decode_spec, hex_encode, hex_lower,
    md5_compute, md5_digest, pbkdf2_sha256, pbkdf2_sha256_key32, to_lower_hex, utf16le,
};
use crate::text::{
    all_white_space, decimal, to_decimal, lemma_decimal_not_white, lemma_parse_decimal, lemma_trim_around,
    append_chars, chars_of, lemma_parsed_chars, lemma_split_concat, lemma_split_single, parse_u32,
    parse_u32_spec, split, split_spec, string_of, trim, trimmed, IntErrorKind,
};

verus! {

/// Why talking to the FRITZ!Box failed.
#[derive(Debug)]
pub enum FritzError {
    /// No user name was configured.
    MissingUsername,
    /// No password was configured.
    MissingPassword,
    /// The box refuses logins for this many more seconds after failed attempts.
    Throttled { seconds: u32 },
    /// A PBKDF2 challenge that does not have four `$`-separated fields.
    MalformedChallenge { challenge: String },
    /// A challenge salt that is not valid hex.
    InvalidSalt(HexError),
    /// A challenge iteration count that is not a decimal `u32`.
    InvalidIterations(IntErrorKind),
    /// The box answered the login with the unauthenticated session id.
    LoginFailed { user: String },
    /// The box answered a switch command with a non-success HTTP status.
    Rejected { cmd: String, status: u16, missing_permission: bool },
}

/// The message of an integer parsing error, as `ParseIntError` displays it.
pub open spec fn int_error_message(k: IntErrorKind) -> Seq<char> {
    match k {
        IntErrorKind::Empty => "cannot parse integer from empty string"@,
        IntErrorKind::InvalidDigit => "invalid digit found in string"@,
        IntErrorKind::PosOverflow => "number too large to fit in target type"@,
    }
}

/// The reason phrase registered for an HTTP status code, if any.
pub uninterp spec fn status_reason_text(status: u16) -> Option<Seq<char>>;

/// `reqwest::StatusCode::canonical_reason` of the code `status` (a code
/// outside 100..=999 is no status code and has none), named by
/// `status_reason_text`.
#[verifier::external_body]
fn status_reason(status: u16) -> (res: Option<String>)
    ensures
        res is Some <==> status_reason_text(status) is Some,
        res matches Some(r) ==> status_reason_text(status) == Some(r@),
{
    match reqwest::StatusCode::from_u16(status) {
        Ok(code) => match code.canonical_reason() {
            Some(r) => Some(r.to_string()),
            None => None,
        },
        Err(_) => None,
    }
}

/// How an HTTP status is written: the code, then for a valid code its
/// reason phrase (or `<unknown status code>`), as `StatusCode` displays it.
pub open spec fn status_text(status: u16) -> Seq<char> {
    if 100 <= status && status <= 999 {
        decimal(status as nat) + " "@ + match status_reason_text(status) {
            Some(r) => r,
            None => "<unknown status code>"@,
        }
    } else {
        decimal(status as nat)
    }
}

/// The message that reports an error to the user.
pub open spec fn error_message(e: FritzError) -> Seq<char> {
    match e {
        FritzError::MissingUsername => "FRITZ_USERNAME not found in .env"@,
        FritzError::MissingPassword => "FRITZ_PASSWORD not found in .env"@,
        FritzError::Throttled { seconds } => "FRITZ!Box is throttling logins after failed attempts; retry in "@
            + decimal(seconds as nat) + " s"@,
        FritzError::MalformedChallenge { challenge } => "malformed PBKDF2 challenge: '"@
            + challenge@ + "'"@,
        FritzError::InvalidSalt(h) => hex_error_message(h),
        FritzError::InvalidIterations(k) => int_error_message(k),
        FritzError::LoginFailed { user } => "FRITZ!Box login failed for user '"@ + user@
            + "'. Check FRITZ_USERNAME / FRITZ_PASSWORD and make sure that user has the 'Smart Home' permission (System > FRITZ!Box Users in the web UI)."@,
        FritzError::Rejected { cmd, status, missing_permission } => "FRITZ!Box rejected '"@ + cmd@
            + "' with HTTP "@ + status_text(status) + if missing_permission {
            " (the logged-in FRITZ!Box user may lack the 'Smart Home' permission)"@
        } else {
            Seq::<char>::empty()
        },
    }
}

fn push_text(out: &mut Vec<char>, text: &str)
    ensures
        final(out)@ == old(out)@ + text@,
{
    let chars = chars_of(text);
    append_chars(out, &chars);
}

impl FritzError {
    /// The message that reports the error to the user.
    pub fn message(&self) -> (res: String)
        ensures
            res@ == error_message(*self),
    {
        let mut out: Vec<char> = Vec::new();
        match self {
            FritzError::MissingUsername => {
                push_text(&mut out, "FRITZ_USERNAME not found in .env");
            },
            FritzError::MissingPassword => {
                push_text(&mut out, "FRITZ_PASSWORD not found in .env");
            },
            FritzError::Throttled { seconds } => {
                push_text(&mut out, "FRITZ!Box is throttling logins after failed attempts; retry in ");
                append_chars(&mut out, &to_decimal(*seconds as u64));
                push_text(&mut out, " s");
            },
            FritzError::MalformedChallenge { challenge } => {
                push_text(&mut out, "malformed PBKDF2 challenge: '");
                push_text(&mut out, challenge.as_str());
                push_text(&mut out, "'");
            },
            FritzError::InvalidSalt(h) => {
                let m = h.message();
                push_text(&mut out, m.as_str());
            },
            FritzError::InvalidIterations(k) => {
                match k {
                    IntErrorKind::Empty => push_text(&mut out, "cannot parse integer from empty string"),
                    IntErrorKind::InvalidDigit => push_text(&mut out, "invalid digit found in string"),
                    IntErrorKind::PosOverflow => push_text(&mut out, "number too large to fit in target type"),
                }
            },
            FritzError::LoginFailed { user } => {
                push_text(&mut out, "FRITZ!Box login failed for user '");
                push_text(&mut out, user.as_str());
                push_text(&mut out, "'. Check FRITZ_USERNAME / FRITZ_PASSWORD and make sure that user has the 'Smart Home' permission (System > FRITZ!Box Users in the web UI).");
            },
            FritzError::Rejected { cmd, status, missing_permission } => {
                push_text(&mut out, "FRITZ!Box rejected '");
                push_text(&mut out, cmd.as_str());
                push_text(&mut out, "' with HTTP ");
                append_chars(&mut out, &to_decimal(*status as u64));
                if 100 <= *status && *status <= 999 {
                    push_text(&mut out, " ");
                    match status_reason(*status) {
                        Some(r) => push_text(&mut out, r.as_str()),
                        None => push_text(&mut out, "<unknown status code>"),
                    }
                }
                if *missing_permission {
                    push_text(&mut out, " (the logged-in FRITZ!Box user may lack the 'Smart Home' permission)");
                }
            },
        }
        assert(out@ =~= error_message(*self));
        string_of(&out)
    }
}

/// The reply of `login_sid.lua`.
pub struct SessionInfo {
    /// Session id; all zeros while not authenticated.
    pub sid: String,
    /// Login challenge.
    pub challenge: String,
    /// Seconds during which logins are refused (decimal text, may be empty).
    pub block_time: String,
}

/// The number of seconds that a block-time text announces: the trimmed
/// text as a decimal `u32`, or 0 when it is not one.
pub open spec fn blocked_seconds_spec(block_time: Seq<char>) -> u32 {
    match parse_u32_spec(trimmed(block_time)) {
        Ok(v) => v,
        Err(_) => 0,
    }
}

/// A block time that the box writes as a decimal number of seconds,
/// possibly surrounded by white space, is read as that number.
pub proof fn law_block_time_decimal(seconds: u32, lead: Seq<char>, trail: Seq<char>)
    requires
        all_white_space(lead),
        all_white_space(trail),
    ensures
        blocked_seconds_spec(lead + decimal(seconds as nat) + trail) == seconds,
{
    lemma_decimal_not_white(seconds as nat);
    lemma_trim_around(lead, decimal(seconds as nat), trail);
    lemma_parse_decimal(seconds);
}

impl SessionInfo {
    /// Seconds for which the box refuses further logins (0 when none).
    pub fn blocked_seconds(&self) -> (res: u32)
        ensures
            res == blocked_seconds_spec(self.block_time@),
    {
        let chars = chars_of(self.block_time.as_str());
        let t = trim(&chars);
        match parse_u32(&t) {
            Ok(v) => v,
            Err(_) => 0,
        }
    }
}

/// The password as the legacy login hashes it: every character above
/// U+00FF replaced by `'.'`.
pub open spec fn clean_password(password: Seq<char>) -> Seq<char> {
    password.map_values(|c: char| if c as u32 > 255 { '.' } else { c })
}

/// AVM requires code points above 255 to be replaced with `'.'`: the
/// cleaned password keeps its length, holds only code points up to 255, and
/// keeps every character that already was one.
pub proof fn law_clean_password(password: Seq<char>)
    ensures
        clean_password(password).len() == password.len(),
        forall|i: int| 0 <= i < password.len() ==> #[trigger] clean_password(password)[i] as u32 <= 255,
        forall|i: int| 0 <= i < password.len() && password[i] as u32 <= 255 ==> #[trigger] clean_password(password)[i] == password[i],
{
}

/// The legacy (MD5) login response:
/// `<challenge>-<md5 of UTF-16LE("<challenge>-<cleaned password>") in hex>`.
pub open spec fn legacy_md5_response_spec(challenge: Seq<char>, password: Seq<char>) -> Seq<char> {
    challenge + seq!['-'] + hex_lower(
        md5_digest(utf16le(challenge + seq!['-'] + clean_password(password))),
    )
}

/// Legacy MD5 challenge-response for FRITZ!OS older than 7.24.
pub fn legacy_md5_response(challenge: &str, password: &str) -> (res: String)
    ensures
        res@ == legacy_md5_response_spec(challenge@, password@),
        res@.len() == challenge@.len() + 33,
{
    let ch = chars_of(challenge);
    let pw = chars_of(password);
    let mut text: Vec<char> = Vec::new();
    append_chars(&mut text, &ch);
    text.push('-');
    let ghost head = text@;
    let mut i: usize = 0;
    while i < pw.len()
        invariant
            i <= pw@.len(),
            pw@ == password@,
            text@ =~= head + clean_password(pw@.subrange(0, i as int)),
        decreases pw.len() - i,
    {
        let c = pw[i];
        if (c as u32) > 255 {
            text.push('.');
        } else {
            text.push(c);
        }
        i = i + 1;
        assert(text@ =~= head + clean_password(pw@.subrange(0, i as int)));
    }
    assert(pw@.subrange(0, pw@.len() as int) =~= pw@);
    assert(text@ =~= challenge@ + seq!['-'] + clean_password(password@));
    let bytes = encode_utf16le(&text);
    let digest = md5_compute(&bytes);
    legacy_response_from_digest(&ch, &digest)
}

/// The legacy response text for a challenge and the MD5 digest of its
/// UTF-16LE login text: `<challenge>-<digest in lowercase hex>`.
pub fn legacy_response_from_digest(challenge: &[char], digest: &[u8]) -> (res: String)
    ensures
        res@ == challenge@ + seq!['-'] + hex_lower(digest@),
{
    let hex = to_lower_hex(digest);
    let mut out: Vec<char> = Vec::new();
    append_chars(&mut out, challenge);
    out.push('-');
    append_chars(&mut out, &hex);
    assert(out@ =~= challenge@ + seq!['-'] + hex_lower(digest@));
    string_of(&out)
}

/// Why a login challenge could not be answered.
#[derive(Debug, Clone, Copy, PartialEq, Eq)]
pub enum ChallengeFailure {
    /// Not four `$`-separated fields after the `2$` prefix.
    Malformed,
    /// A salt that is not valid hex, and the error its decoding reports.
    BadSalt(HexError),
    /// An iteration count that is not a decimal `u32`.
    BadIterations(IntErrorKind),
}

/// Whether a challenge asks for the PBKDF2 login (prefix `2$`).
pub open spec fn is_pbkdf2_challenge(challenge: Seq<char>) -> bool {
    challenge.len() >= 2 && challenge[0] == '2' && challenge[1] == '$'
}

/// The fields of a PBKDF2 challenge after its `2$` prefix.
pub open spec fn pbkdf2_fields(challenge: Seq<char>) -> Seq<Seq<char>> {
    split_spec(challenge.subrange(2, challenge.len() as int), '$')
}

/// The login response to a challenge. A PBKDF2 challenge
/// `2$<iter1>$<salt1>$<iter2>$<salt2>` (salts in hex) is answered with
/// `<salt2>$<hex of PBKDF2(PBKDF2(password, salt1, iter1), salt2, iter2)>`;
/// any other challenge with the legacy MD5 response. Fields are checked in
/// the order salt1, iter1, salt2, iter2.
pub open spec fn compute_response_spec(challenge: Seq<char>, password: Seq<char>) -> Result<
    Seq<char>,
    ChallengeFailure,
> {
    if !is_pbkdf2_challenge(challenge) {
        Ok(legacy_md5_response_spec(challenge, password))
    } else {
        let f = pbkdf2_fields(challenge);
        if f.len() != 4 {
            Err(ChallengeFailure::Malformed)
        } else {
            match hex_decode_spec(f[1]) {
                None => Err(ChallengeFailure::BadSalt(hex_error_spec(vstd::utf8::encode_utf8(f[1])))),
                Some(salt1) => match parse_u32_spec(f[0]) {
                    Err(k) => Err(ChallengeFailure::BadIterations(k)),
                    Ok(iter1) => {
                        let hash1 = pbkdf2_sha256_key32(
                            vstd::utf8::encode_utf8(password),
                            salt1,
                            iter1,
                        );
                        match hex_decode_spec(f[3]) {
                            None => Err(
                                ChallengeFailure::BadSalt(hex_error_spec(vstd::utf8::encode_utf8(f[3]))),
                            ),
                            Some(salt2) => match parse_u32_spec(f[2]) {
                                Err(k) => Err(ChallengeFailure::BadIterations(k)),
                                Ok(iter2) => Ok(
                                    f[3] + seq!['$'] + hex_lower(
                                        pbkdf2_sha256_key32(hash1, salt2, iter2),
                                    ),
                                ),
                            },
                        }
                    },
                },
            }
        }
    }
}

/// Whether `e` is the error that reports `failure` for `challenge`.
pub open spec fn reports_failure(e: FritzError, failure: ChallengeFailure, challenge: Seq<char>) -> bool {
    match failure {
        ChallengeFailure::Malformed => e matches FritzError::MalformedChallenge { challenge: c }
            && c@ == challenge,
        ChallengeFailure::BadSalt(h) => e matches FritzError::InvalidSalt(h2) && h2 == h,
        ChallengeFailure::BadIterations(k) => e matches FritzError::InvalidIterations(k2) && k2
            == k,
    }
}

/// The PBKDF2 challenge with the given fields:
/// `2$<iter1>$<salt1>$<iter2>$<salt2>`.
pub open spec fn pbkdf2_challenge(iter1: Seq<char>, salt1: Seq<char>, iter2: Seq<char>, salt2: Seq<char>) -> Seq<char> {
    seq!['2', '$'] + iter1 + seq!['$'] + salt1 + seq!['$'] + iter2 + seq!['$'] + salt2
}

proof fn lemma_no_dollar_in_iterations(s: Seq<char>)
    requires
        parse_u32_spec(s) is Ok,
    ensures
        forall|i: int| 0 <= i < s.len() ==> s[i] != '$',
{
    lemma_parsed_chars(s);
    assert forall|i: int| 0 <= i < s.len() implies s[i] != '$' by {
        assert(crate::text::is_digit(s[i]) || (i == 0 && s[i] == '+'));
    }
}

proof fn lemma_no_dollar_in_salt(s: Seq<char>)
    requires
        hex_decode_spec(s) is Some,
    ensures
        forall|i: int| 0 <= i < s.len() ==> s[i] != '$',
{
    assert forall|i: int| 0 <= i < s.len() implies s[i] != '$' by {
        assert(crate::crypto::hex_value(s[i]) is Some);
    }
}

/// The challenge layout: a PBKDF2 challenge whose iteration counts are
/// decimal and whose salts are hex is answered with
/// `<salt2>$<hex of PBKDF2(PBKDF2(password, salt1, iter1), salt2, iter2)>`,
/// the password hashed as UTF-8.
pub proof fn law_pbkdf2_challenge_layout(
    iter1: Seq<char>,
    salt1: Seq<char>,
    iter2: Seq<char>,
    salt2: Seq<char>,
    password: Seq<char>,
)
    requires
        parse_u32_spec(iter1) is Ok,
        parse_u32_spec(iter2) is Ok,
        hex_decode_spec(salt1) is Some,
        hex_decode_spec(salt2) is Some,
    ensures
        compute_response_spec(pbkdf2_challenge(iter1, salt1, iter2, salt2), password) == Ok::<
            Seq<char>,
            ChallengeFailure,
        >(
            salt2 + seq!['$'] + hex_lower(
                pbkdf2_sha256_key32(
                    pbkdf2_sha256_key32(
                        vstd::utf8::encode_utf8(password),
                        hex_decode_spec(salt1)->0,
                        parse_u32_spec(iter1)->Ok_0,
                    ),
                    hex_decode_spec(salt2)->0,
                    parse_u32_spec(iter2)->Ok_0,
                ),
            ),
        ),
{
    let c = pbkdf2_challenge(iter1, salt1, iter2, salt2);
    let body = iter1 + seq!['$'] + salt1 + seq!['$'] + iter2 + seq!['$'] + salt2;
    assert(c.subrange(2, c.len() as int) =~= body);
    lemma_no_dollar_in_iterations(iter1);
    lemma_no_dollar_in_iterations(iter2);
    lemma_no_dollar_in_salt(salt1);
    lemma_no_dollar_in_salt(salt2);
    lemma_split_single(iter1, '$');
    lemma_split_single(salt1, '$');
    lemma_split_single(iter2, '$');
    lemma_split_single(salt2, '$');
    lemma_split_concat(iter1, '$', salt1);
    lemma_split_concat(iter1 + seq!['$'] + salt1, '$', iter2);
    lemma_split_concat(iter1 + seq!['$'] + salt1 + seq!['$'] + iter2, '$', salt2);
    assert(pbkdf2_fields(c) =~= seq![iter1, salt1, iter2, salt2]);
}

fn decode_salt(field: &Vec<char>) -> (res: Result<Vec<u8>, FritzError>)
    ensures
        res is Ok <==> hex_decode_spec(field@) is Some,
        res matches Ok(v) ==> v@ == hex_decode_spec(field@)->0,
        res matches Err(e) ==> e matches FritzError::InvalidSalt(h) && h == hex_error_spec(vstd::utf8::encode_utf8(field@)),
{
    let s = string_of(field);
    match hex_decode(s.as_str()) {
        Ok(v) => Ok(v),
        Err(e) => Err(FritzError::InvalidSalt(e)),
    }
}

fn parse_iterations(field: &Vec<char>) -> (res: Result<u32, FritzError>)
    ensures
        res is Ok <==> parse_u32_spec(field@) is Ok,
        res matches Ok(v) ==> parse_u32_spec(field@) == Ok::<u32, IntErrorKind>(v),
        res matches Err(e) ==> parse_u32_spec(field@) matches Err(k) && e matches FritzError::InvalidIterations(k2) && k2 == k,
{
    match parse_u32(field) {
        Ok(v) => Ok(v),
        Err(k) => Err(FritzError::InvalidIterations(k)),
    }
}

/// Computes the login response for a FRITZ!Box challenge.
///
/// FRITZ!OS >= 7.24 issues a PBKDF2 challenge prefixed with `2$`; older
/// firmware issues a legacy MD5 challenge.
pub fn compute_response(challenge: &str, password: &str) -> (res: Result<String, FritzError>)
    ensures
        res is Ok <==> compute_response_spec(challenge@, password@) is Ok,
        res matches Ok(r) ==> compute_response_spec(challenge@, password@) == Ok::<
            Seq<char>,
            ChallengeFailure,
        >(r@),
        res matches Err(e) ==> compute_response_spec(challenge@, password@) matches Err(f)
            && reports_failure(e, f, challenge@),
        !is_pbkdf2_challenge(challenge@) ==> (res matches Ok(r) && r@.len() == challenge@.len()
            + 33),
        is_pbkdf2_challenge(challenge@) ==> (res matches Ok(r) ==> r@.len() == pbkdf2_fields(
            challenge@,
        )[3].len() + 65),
{
    let c = chars_of(challenge);
    if !(c.len() >= 2 && c[0] == '2' && c[1] == '$') {
        return Ok(legacy_md5_response(challenge, password));
    }
    let mut rest: Vec<char> = Vec::new();
    let mut i: usize = 2;
    while i < c.len()
        invariant
            2 <= i <= c@.len(),
            rest@ =~= c@.subrange(2, i as int),
        decreases c.len() - i,
    {
        rest.push(c[i]);
        i = i + 1;
    }
    let parts = split(&rest, '$');
    let ghost f = parts@.map_values(|p: Vec<char>| p@);
    assert(f == pbkdf2_fields(challenge@));
    if parts.len() != 4 {
        return Err(FritzError::MalformedChallenge { challenge: challenge.to_owned() });
    }
    assert(f[0] == parts@[0]@ && f[1] == parts@[1]@ && f[2] == parts@[2]@ && f[3] == parts@[3]@);
    let salt1 = decode_salt(&parts[1])?;
    let iter1: u32 = parse_iterations(&parts[0])?;
    let hash1 = pbkdf2_sha256(password.as_bytes(), &salt1, iter1);
    let salt2 = decode_salt(&parts[3])?;
    let iter2: u32 = parse_iterations(&parts[2])?;
    let hash2 = pbkdf2_sha256(&hash1, &salt2, iter2);
    Ok(pbkdf2_response_from_key(&parts[3], &hash2))
}

/// The PBKDF2 response text for the second salt (as written in the
/// challenge) and the derived key: `<salt2>$<key in lowercase hex>`.
pub fn pbkdf2_response_from_key(salt2: &[char], key: &[u8]) -> (res: String)
    ensures
        res@ == salt2@ + seq!['$'] + hex_lower(key@),
{
    let hex = hex_encode(key);
    let hex_chars = chars_of(hex.as_str());
    let mut out: Vec<char> = Vec::new();
    append_chars(&mut out, salt2);
    out.push('$');
    append_chars(&mut out, &hex_chars);
    assert(out@ =~= salt2@ + seq!['$'] + hex_lower(key@));
    string_of(&out)
}

} // verus!

verus! {

/// Address of a FRITZ!Box on its own LAN, used when no host is configured.
pub open spec fn default_host() -> Seq<char> {
    "http://192.168.178.1"@
}

/// The session id of an unauthenticated session: sixteen zeros.
pub open spec fn default_sid() -> Seq<char> {
    "0000000000000000"@
}

fn default_host_string() -> (res: String)
    ensures
        res@ == default_host(),
{
    "http://192.168.178.1".to_owned()
}

fn default_sid_string() -> (res: String)
    ensures
        res@ == default_sid(),
{
    "0000000000000000".to_owned()
}

/// The plain state of a connection to the FRITZ!Box.
pub struct Session {
    /// Base URL of the box, e.g. `http://192.168.178.1`.
    pub host: String,
    /// Login user name.
    pub user: String,
    /// Login password.
    pub password: String,
    /// Current session id.
    pub sid: String,
}

/// A query parameter list, as plain character sequences.
pub open spec fn query_view(q: Seq<(String, String)>) -> Seq<(Seq<char>, Seq<char>)> {
    q.map_values(|p: (String, String)| (p.0@, p.1@))
}

fn pair(k: &str, v: &str) -> (res: (String, String))
    ensures
        res.0@ == k@,
        res.1@ == v@,
{
    (k.to_owned(), v.to_owned())
}

impl Session {
    /// A not yet authenticated session from the configured settings: the
    /// host defaults to [`default_host`]; a missing user name, then a
    /// missing password, is an error.
    pub fn from_settings(host: Option<String>, user: Option<String>, password: Option<String>) -> (res: Result<Session, FritzError>)
        ensures
            user is None ==> res matches Err(FritzError::MissingUsername),
            user is Some && password is None ==> res matches Err(FritzError::MissingPassword),
            user is Some && password is Some ==> (res matches Ok(s) && {
                &&& s.host@ == (match host {
                    Some(h) => h@,
                    None => default_host(),
                })
                &&& s.user@ == user->0@
                &&& s.password@ == password->0@
                &&& s.sid@ == default_sid()
            }),
    {
        let user = match user {
            Some(u) => u,
            None => return Err(FritzError::MissingUsername),
        };
        let password = match password {
            Some(p) => p,
            None => return Err(FritzError::MissingPassword),
        };
        let host = match host {
            Some(h) => h,
            None => default_host_string(),
        };
        Ok(Session { host, user, password, sid: default_sid_string() })
    }

    /// Whether the session holds a session id other than the
    /// unauthenticated one.
    pub open spec fn is_authenticated(&self) -> bool {
        self.sid@ != default_sid()
    }

    /// URL of the login endpoint: `<host>/login_sid.lua`.
    pub fn login_url(&self) -> (res: String)
        ensures
            res@ == self.host@ + "/login_sid.lua"@,
    {
        let mut out = chars_of(self.host.as_str());
        let tail = chars_of("/login_sid.lua");
        append_chars(&mut out, &tail);
        string_of(&out)
    }

    /// URL of the switch command endpoint:
    /// `<host>/webservices/homeautoswitch.lua`.
    pub fn aha_url(&self) -> (res: String)
        ensures
            res@ == self.host@ + "/webservices/homeautoswitch.lua"@,
    {
        let mut out = chars_of(self.host.as_str());
        let tail = chars_of("/webservices/homeautoswitch.lua");
        append_chars(&mut out, &tail);
        string_of(&out)
    }

    /// Query of the first login request, which fetches the challenge:
    /// `version=2`.
    pub fn challenge_query() -> (res: Vec<(String, String)>)
        ensures
            query_view(res@) == seq![("version"@, "2"@)],
    {
        let mut q: Vec<(String, String)> = Vec::new();
        q.push(pair("version", "2"));
        assert(query_view(q@) =~= seq![("version"@, "2"@)]);
        q
    }

    /// Query of the second login request, which answers `challenge`:
    /// `version=2`, `username=<user>`, `response=<response>`. Refused while
    /// the box announces a block time, or when the challenge cannot be
    /// answered.
    pub fn response_query(&self, challenge: &SessionInfo) -> (res: Result<Vec<(String, String)>, FritzError>)
        ensures
            blocked_seconds_spec(challenge.block_time@) > 0 ==> (res matches Err(
                FritzError::Throttled { seconds },
            ) && seconds == blocked_seconds_spec(challenge.block_time@)),
            blocked_seconds_spec(challenge.block_time@) == 0 ==> match compute_response_spec(
                challenge.challenge@,
                self.password@,
            ) {
                Ok(r) => res matches Ok(q) && query_view(q@) == seq![
                    ("version"@, "2"@),
                    ("username"@, self.user@),
                    ("response"@, r),
                ],
                Err(f) => res matches Err(e) && reports_failure(e, f, challenge.challenge@),
            },
    {
        let blocked: u32 = challenge.blocked_seconds();
        if blocked > 0 {
            return Err(FritzError::Throttled { seconds: blocked });
        }
        let response = compute_response(challenge.challenge.as_str(), self.password.as_str())?;
        let mut q: Vec<(String, String)> = Vec::new();
        q.push(pair("version", "2"));
        q.push(pair("username", self.user.as_str()));
        q.push(pair("response", response.as_str()));
        assert(query_view(q@) =~= seq![
            ("version"@, "2"@),
            ("username"@, self.user@),
            ("response"@, response@),
        ]);
        Ok(q)
    }

    /// Takes the session id of the reply to the login response; a reply
    /// that still carries the unauthenticated id means the login failed.
    pub fn accept_session(&mut self, session: &SessionInfo) -> (res: Result<(), FritzError>)
        ensures
            session.sid@ == default_sid() ==> (res matches Err(FritzError::LoginFailed { user })
                && user@ == old(self).user@),
            session.sid@ == default_sid() ==> *final(self) == *old(self),
            res is Ok <==> session.sid@ != default_sid(),
            res is Ok ==> final(self).is_authenticated(),
            session.sid@ != default_sid() ==> res is Ok && final(self).sid@ == session.sid@
                && final(self).host == old(self).host && final(self).user == old(self).user
                && final(self).password == old(self).password,
    {
        let unauthenticated = default_sid_string();
        if session.sid == unauthenticated {
            return Err(FritzError::LoginFailed { user: self.user.clone() });
        }
        self.sid = session.sid.clone();
        Ok(())
    }

    /// Query of a switch command: `switchcmd=<cmd>`, `sid=<sid>`, and
    /// `ain=<ain>` when a device is addressed.
    pub fn aha_query(&self, cmd: &str, ain: Option<&str>) -> (res: Vec<(String, String)>)
        ensures
            query_view(res@) == seq![("switchcmd"@, cmd@), ("sid"@, self.sid@)] + match ain {
                Some(a) => seq![("ain"@, a@)],
                None => Seq::empty(),
            },
    {
        let mut q: Vec<(String, String)> = Vec::new();
        q.push(pair("switchcmd", cmd));
        q.push(pair("sid", self.sid.as_str()));
        match ain {
            Some(a) => {
                q.push(pair("ain", a));
            },
            None => {},
        }
        assert(query_view(q@) =~= seq![("switchcmd"@, cmd@), ("sid"@, self.sid@)] + match ain {
            Some(a) => seq![("ain"@, a@)],
            None => Seq::<(Seq<char>, Seq<char>)>::empty(),
        });
        q
    }
}

/// Which attempt of a switch command a reply answers.
#[derive(Clone, Copy, Debug, PartialEq, Eq, Structural)]
pub enum AhaAttempt {
    /// The first request, with the session id held so far.
    First,
    /// The single retry after a fresh login.
    Retry,
}

/// What to do with the reply to a switch command.
#[derive(Debug)]
pub enum AhaAction {
    /// The session expired: log in again, then retry once.
    Relogin,
    /// The command succeeded; the reply body is the answer.
    Accept,
    /// The command failed for good.
    Reject(FritzError),
}

/// Whether an HTTP status is a success (2xx).
pub open spec fn is_success(status: u16) -> bool {
    200 <= status && status <= 299
}

/// HTTP 403 Forbidden.
pub open spec fn is_forbidden(status: u16) -> bool {
    status == 403
}

/// The decision on the reply to a switch command.
#[derive(Clone, Copy, Debug, PartialEq, Eq, Structural)]
pub enum AhaVerdict {
    /// Log in again and retry.
    Relogin,
    /// Take the reply.
    Accept,
    /// Fail, hinting at a missing permission when the status is 403.
    Reject { missing_permission: bool },
}

/// A 403 on the first attempt means that the session expired and asks for
/// one re-login and retry; otherwise a 2xx status is accepted and anything
/// else rejected, with a hint at a missing permission when it is a 403.
pub open spec fn aha_verdict(attempt: AhaAttempt, status: u16) -> AhaVerdict {
    if attempt == AhaAttempt::First && is_forbidden(status) {
        AhaVerdict::Relogin
    } else if is_success(status) {
        AhaVerdict::Accept
    } else {
        AhaVerdict::Reject { missing_permission: is_forbidden(status) }
    }
}

/// Decides on the reply to the switch command `cmd`.
pub fn aha_step(attempt: AhaAttempt, cmd: &str, status: u16) -> (res: AhaAction)
    ensures
        match aha_verdict(attempt, status) {
            AhaVerdict::Relogin => res is Relogin,
            AhaVerdict::Accept => res is Accept,
            AhaVerdict::Reject { missing_permission } => res matches AhaAction::Reject(
                FritzError::Rejected { cmd: c, status: s, missing_permission: m },
            ) && c@ == cmd@ && s == status && m == missing_permission,
        },
{
    if attempt == AhaAttempt::First && status == 403 {
        return AhaAction::Relogin;
    }
    if 200 <= status && status <= 299 {
        AhaAction::Accept
    } else {
        AhaAction::Reject(
            FritzError::Rejected { cmd: cmd.to_owned(), status, missing_permission: status == 403 },
        )
    }
}

/// A command is re-sent at most once: the reply to the retry never asks
/// for another login, and on the first attempt only a 403 does.
pub proof fn law_single_relogin(status: u16)
    ensures
        aha_verdict(AhaAttempt::Retry, status) != AhaVerdict::Relogin,
        aha_verdict(AhaAttempt::First, status) == AhaVerdict::Relogin <==> status == 403,
{
}

/// A reply is taken exactly when its status is a success, whichever the
/// attempt.
pub proof fn law_accept_iff_success(attempt: AhaAttempt, status: u16)
    ensures
        aha_verdict(attempt, status) == AhaVerdict::Accept <==> is_success(status),
{
}

/// A rejection hints at a missing permission exactly when the retry after
/// a fresh login is still forbidden.
pub proof fn law_permission_hint(attempt: AhaAttempt, status: u16)
    ensures
        aha_verdict(attempt, status) == (AhaVerdict::Reject { missing_permission: true }) <==> (
        attempt == AhaAttempt::Retry && status == 403),
{
}

} // verus!

verus! {

/// The legacy response hashes the challenge, a dash and the whole
/// password, every code point above 255 of it replaced by `'.'`, as
/// UTF-16LE: `<challenge>-<hex of md5(UTF-16LE(<challenge>-<cleaned>))>`,
/// for passwords of any length.
pub proof fn law_legacy_response(challenge: Seq<char>, password: Seq<char>)
    ensures
        legacy_md5_response_spec(challenge, password) == challenge + seq!['-'] + hex_lower(
            md5_digest(
                utf16le(
                    challenge + seq!['-'] + Seq::new(
                        password.len(),
                        |i: int| if password[i] as u32 > 255 { '.' } else { password[i] },
                    ),
                ),
            ),
        ),
{
    assert(clean_password(password) =~= Seq::new(
        password.len(),
        |i: int| if password[i] as u32 > 255 { '.' } else { password[i] },
    ));
}

/// The login text that the legacy response hashes holds the challenge, a
/// dash and every character of the password: for text below U+10000 it is
/// `2 * (challenge length + 1 + password length)` bytes long.
pub proof fn law_legacy_text_length(challenge: Seq<char>, password: Seq<char>)
    requires
        forall|i: int| 0 <= i < challenge.len() ==> (#[trigger] challenge[i] as u32) < 0x10000,
    ensures
        utf16le(challenge + seq!['-'] + clean_password(password)).len() == 2 * (challenge.len()
            + 1 + password.len()),
{
    let t = challenge + seq!['-'] + clean_password(password);
    assert forall|i: int| 0 <= i < t.len() implies (#[trigger] t[i] as u32) < 0x10000 by {
        if i < challenge.len() {
            assert(t[i] == challenge[i]);
        } else if i == challenge.len() {
            assert(t[i] == '-');
        } else {
            assert(t[i] == clean_password(password)[i - challenge.len() - 1]);
        }
    }
    crate::crypto::law_utf16le_bmp(t);
}

/// Only a challenge that begins with the two characters `2$` is a PBKDF2
/// challenge; every other challenge, including one that begins with `2`
/// but not `2$`, is answered with the legacy MD5 response.
pub proof fn law_legacy_unless_2_dollar(challenge: Seq<char>, password: Seq<char>)
    requires
        !(challenge.len() >= 2 && challenge[0] == '2' && challenge[1] == '$'),
    ensures
        compute_response_spec(challenge, password) == Ok::<Seq<char>, ChallengeFailure>(
            challenge + seq!['-'] + hex_lower(
                md5_digest(
                    utf16le(
                        challenge + seq!['-'] + Seq::new(
                            password.len(),
                            |i: int| if password[i] as u32 > 255 { '.' } else { password[i] },
                        ),
                    ),
                ),
            ),
        ),
{
    law_legacy_response(challenge, password);
}

/// A challenge that begins with `2$` is never answered with the legacy
/// response: it is answered with `<salt2>$<hex>` or refused.
pub proof fn law_2_dollar_is_pbkdf2(challenge: Seq<char>, password: Seq<char>)
    requires
        challenge.len() >= 2,
        challenge[0] == '2',
        challenge[1] == '$',
    ensures
        compute_response_spec(challenge, password) is Ok ==> pbkdf2_fields(challenge).len() == 4
            && compute_response_spec(challenge, password)->Ok_0.subrange(
            0,
            (pbkdf2_fields(challenge)[3].len() + 1) as int,
        ) == pbkdf2_fields(challenge)[3] + seq!['$'],
{
    if compute_response_spec(challenge, password) is Ok {
        let f = pbkdf2_fields(challenge);
        let r = compute_response_spec(challenge, password)->Ok_0;
        assert(r.subrange(0, (f[3].len() + 1) as int) =~= f[3] + seq!['$']);
    }
}

} // verus!
