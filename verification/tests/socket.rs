use plant_bot::crypto::{encode_utf16le, to_lower_hex, HexError};
use plant_bot::socket::{
    aha_step, compute_response, legacy_md5_response, legacy_response_from_digest,
    pbkdf2_response_from_key, AhaAction, AhaAttempt, FritzError, Session, SessionInfo,
};
use plant_bot::text::IntErrorKind;

fn info(sid: &str, challenge: &str, block_time: &str) -> SessionInfo {
    SessionInfo {
        sid: sid.to_string(),
        challenge: challenge.to_string(),
        block_time: block_time.to_string(),
    }
}

fn session() -> Session {
    Session::from_settings(None, Some("admin".to_string()), Some("1example!".to_string())).unwrap()
}

fn pairs(q: &[(String, String)]) -> Vec<(&str, &str)> {
    q.iter().map(|(k, v)| (k.as_str(), v.as_str())).collect()
}

#[test]
fn blocked_seconds_parses_trimmed_block_time() {
    assert_eq!(info("0", "c", " 30 ").blocked_seconds(), 30);
    assert_eq!(info("0", "c", "0").blocked_seconds(), 0);
    assert_eq!(info("0", "c", "").blocked_seconds(), 0);
    assert_eq!(info("0", "c", "soon").blocked_seconds(), 0);
    assert_eq!(info("0", "c", "99999999999").blocked_seconds(), 0);
    assert_eq!(info("0", "c", "\u{a0}\t 4294967295\u{2028}").blocked_seconds(), u32::MAX);
    assert_eq!(info("0", "c", "+7").blocked_seconds(), 7);
}

#[test]
fn pbkdf2_response_matches_avm_example() {
    let r = compute_response("2$10000$5A1711$2000$5A1722", "1example!").unwrap();
    assert_eq!(
        r,
        "5A1722$1798a1672bca7c6463d6b245f82b53703b0f50813401b03e4045a5861e689adb"
    );
}

#[test]
fn legacy_response_matches_avm_example() {
    assert_eq!(
        compute_response("1234567z", "äbc").unwrap(),
        "1234567z-9e224a41eeefa284df7bb0f26c2913e2"
    );
    assert_eq!(
        legacy_md5_response("1234567z", "äbc"),
        "1234567z-9e224a41eeefa284df7bb0f26c2913e2"
    );
}

#[test]
fn legacy_response_replaces_code_points_above_255() {
    assert_eq!(
        legacy_md5_response("1234567z", "a€b"),
        "1234567z-5d39d7d3ced2f29d8fcf3d1f74ba7e95"
    );
    assert_eq!(
        legacy_md5_response("1234567z", "a€b"),
        legacy_md5_response("1234567z", "a.b")
    );
}

#[test]
fn legacy_response_encodes_astral_challenge_as_surrogates() {
    assert_eq!(
        legacy_md5_response("ab😀", "x"),
        "ab😀-95ea40d2a8023b38c40d56fee920e2f3"
    );
}

#[test]
fn utf16le_and_lower_hex() {
    let s: Vec<char> = "a€😀".chars().collect();
    let expected: Vec<u8> = "a€😀".encode_utf16().flat_map(u16::to_le_bytes).collect();
    assert_eq!(encode_utf16le(&s), expected);
    let hex: String = to_lower_hex(&[0x00, 0x9f, 0xff, 0x10]).iter().collect();
    assert_eq!(hex, "009fff10");
}

#[test]
fn malformed_pbkdf2_challenge() {
    let e = compute_response("2$10000$5A1711$2000", "pw").unwrap_err();
    assert!(matches!(e, FritzError::MalformedChallenge { ref challenge } if challenge == "2$10000$5A1711$2000"));
    let e = compute_response("2$1$2$3$4$5", "pw").unwrap_err();
    assert!(matches!(e, FritzError::MalformedChallenge { .. }));
}

#[test]
fn invalid_salt_and_iterations() {
    assert!(matches!(
        compute_response("2$10000$5A171$2000$5A1722", "pw").unwrap_err(),
        FritzError::InvalidSalt(HexError::OddLength)
    ));
    assert!(matches!(
        compute_response("2$10000$5A1711$2000$5Z1722", "pw").unwrap_err(),
        FritzError::InvalidSalt(_)
    ));
    assert!(matches!(
        compute_response("2$1x$5A1711$2000$5A1722", "pw").unwrap_err(),
        FritzError::InvalidIterations(IntErrorKind::InvalidDigit)
    ));
    assert!(matches!(
        compute_response("2$10$5A1711$$5A1722", "pw").unwrap_err(),
        FritzError::InvalidIterations(IntErrorKind::Empty)
    ));
    // salt1 is checked before iter1
    assert!(matches!(
        compute_response("2$x$zz$1$00", "pw").unwrap_err(),
        FritzError::InvalidSalt(_)
    ));
}

#[test]
fn settings_defaults_and_missing_values() {
    let s = session();
    assert_eq!(s.host, "http://192.168.178.1");
    assert_eq!(s.sid, "0000000000000000");
    assert_eq!(s.user, "admin");
    let s = Session::from_settings(Some("http://10.0.0.1".into()), Some("u".into()), Some("p".into())).unwrap();
    assert_eq!(s.host, "http://10.0.0.1");
    assert!(matches!(
        Session::from_settings(None, None, Some("p".into())),
        Err(FritzError::MissingUsername)
    ));
    assert!(matches!(
        Session::from_settings(None, Some("u".into()), None),
        Err(FritzError::MissingPassword)
    ));
    assert!(matches!(Session::from_settings(None, None, None), Err(FritzError::MissingUsername)));
}

#[test]
fn urls_and_queries() {
    let s = session();
    assert_eq!(s.login_url(), "http://192.168.178.1/login_sid.lua");
    assert_eq!(s.aha_url(), "http://192.168.178.1/webservices/homeautoswitch.lua");
    assert_eq!(pairs(&Session::challenge_query()), vec![("version", "2")]);
    assert_eq!(
        pairs(&s.aha_query("setswitchon", Some("11630 0069103"))),
        vec![("switchcmd", "setswitchon"), ("sid", "0000000000000000"), ("ain", "11630 0069103")]
    );
    assert_eq!(
        pairs(&s.aha_query("getdevicelistinfos", None)),
        vec![("switchcmd", "getdevicelistinfos"), ("sid", "0000000000000000")]
    );
}

#[test]
fn response_query_answers_challenge() {
    let s = session();
    let q = s.response_query(&info("0000000000000000", "2$10000$5A1711$2000$5A1722", "0")).unwrap();
    assert_eq!(
        pairs(&q),
        vec![
            ("version", "2"),
            ("username", "admin"),
            ("response", "5A1722$1798a1672bca7c6463d6b245f82b53703b0f50813401b03e4045a5861e689adb"),
        ]
    );
}

#[test]
fn response_query_refused_while_throttled() {
    let s = session();
    let e = s.response_query(&info("0000000000000000", "2$1$00$1$00", "12")).unwrap_err();
    assert!(matches!(e, FritzError::Throttled { seconds: 12 }));
    let e = s.response_query(&info("0000000000000000", "2$1$00", "")).unwrap_err();
    assert!(matches!(e, FritzError::MalformedChallenge { .. }));
}

#[test]
fn accept_session_takes_new_sid_or_fails() {
    let mut s = session();
    let e = s.accept_session(&info("0000000000000000", "x", "")).unwrap_err();
    assert!(matches!(e, FritzError::LoginFailed { ref user } if user == "admin"));
    assert_eq!(s.sid, "0000000000000000");
    s.accept_session(&info("abcdef0123456789", "x", "")).unwrap();
    assert_eq!(s.sid, "abcdef0123456789");
}

#[test]
fn aha_step_relogins_once_then_decides() {
    assert!(matches!(aha_step(AhaAttempt::First, "setswitchon", 403), AhaAction::Relogin));
    assert!(matches!(aha_step(AhaAttempt::First, "setswitchon", 200), AhaAction::Accept));
    assert!(matches!(aha_step(AhaAttempt::Retry, "setswitchon", 204), AhaAction::Accept));
    assert!(matches!(
        aha_step(AhaAttempt::Retry, "setswitchon", 403),
        AhaAction::Reject(FritzError::Rejected { status: 403, missing_permission: true, .. })
    ));
    match aha_step(AhaAttempt::First, "setswitchoff", 500) {
        AhaAction::Reject(FritzError::Rejected { cmd, status, missing_permission }) => {
            assert_eq!(cmd, "setswitchoff");
            assert_eq!(status, 500);
            assert!(!missing_permission);
        }
        _ => panic!("expected a rejection"),
    }
    assert!(matches!(aha_step(AhaAttempt::First, "x", 300), AhaAction::Reject(_)));
    assert!(matches!(aha_step(AhaAttempt::First, "x", 199), AhaAction::Reject(_)));
}

fn hex_error_of(salt: &str) -> HexError {
    match compute_response(&format!("2$1${salt}$1$00"), "pw").unwrap_err() {
        FritzError::InvalidSalt(h) => h,
        other => panic!("unexpected {other:?}"),
    }
}

#[test]
fn invalid_salt_reports_the_hex_crate_error() {
    for salt in ["5A171", "5Z1711", "0g", "ä", "äa", "xx\u{e9}" ] {
        let expected = hex::decode(salt).unwrap_err();
        let got = hex_error_of(salt);
        let same = match (expected, got) {
            (hex::FromHexError::OddLength, HexError::OddLength) => true,
            (hex::FromHexError::InvalidHexCharacter { c, index }, HexError::InvalidHexCharacter { c: c2, index: i2 }) => c == c2 && index == i2,
            _ => false,
        };
        assert!(same, "{salt}: {got:?}");
        assert_eq!(FritzError::InvalidSalt(got).message(), expected.to_string());
    }
    assert_eq!(hex_error_of("5Z1711"), HexError::InvalidHexCharacter { c: 'Z', index: 1 });
    assert_eq!(hex_error_of("ä"), HexError::InvalidHexCharacter { c: '\u{c3}', index: 0 });
}

#[test]
fn error_messages() {
    assert_eq!(FritzError::MissingUsername.message(), "FRITZ_USERNAME not found in .env");
    assert_eq!(FritzError::MissingPassword.message(), "FRITZ_PASSWORD not found in .env");
    assert_eq!(
        FritzError::Throttled { seconds: 42 }.message(),
        "FRITZ!Box is throttling logins after failed attempts; retry in 42 s"
    );
    assert_eq!(
        FritzError::MalformedChallenge { challenge: "2$1".into() }.message(),
        "malformed PBKDF2 challenge: '2$1'"
    );
    for text in ["", "x1", "99999999999"] {
        let kind = match compute_response(&format!("2${text}$00$1$00"), "pw").unwrap_err() {
            FritzError::InvalidIterations(k) => k,
            other => panic!("unexpected {other:?}"),
        };
        assert_eq!(
            FritzError::InvalidIterations(kind).message(),
            text.parse::<u32>().unwrap_err().to_string()
        );
    }
    assert_eq!(
        FritzError::LoginFailed { user: "admin".into() }.message(),
        "FRITZ!Box login failed for user 'admin'. Check FRITZ_USERNAME / FRITZ_PASSWORD and make sure that user has the 'Smart Home' permission (System > FRITZ!Box Users in the web UI)."
    );
    for (status, missing) in [(403u16, true), (500, false), (404, false), (599, false), (42, false)] {
        let e = FritzError::Rejected { cmd: "setswitchon".into(), status, missing_permission: missing };
        let shown = reqwest::StatusCode::from_u16(status)
            .map(|s| s.to_string())
            .unwrap_or_else(|_| status.to_string());
        let hint = if missing {
            " (the logged-in FRITZ!Box user may lack the 'Smart Home' permission)"
        } else {
            ""
        };
        assert_eq!(e.message(), format!("FRITZ!Box rejected 'setswitchon' with HTTP {shown}{hint}"));
    }
    assert_eq!(
        FritzError::Rejected { cmd: "c".into(), status: 403, missing_permission: true }.message(),
        "FRITZ!Box rejected 'c' with HTTP 403 Forbidden (the logged-in FRITZ!Box user may lack the 'Smart Home' permission)"
    );
}

#[test]
fn response_text_from_hash() {
    let salt: Vec<char> = "5A1722".chars().collect();
    assert_eq!(pbkdf2_response_from_key(&salt, &[0x01, 0xab]), "5A1722$01ab");
    let ch: Vec<char> = "1234567z".chars().collect();
    assert_eq!(legacy_response_from_digest(&ch, &[0xff, 0x00]), "1234567z-ff00");
}

#[test]
fn session_authenticated_after_accept() {
    let mut s = session();
    s.accept_session(&info("1111111111111111", "x", "")).unwrap();
    assert_ne!(s.sid, "0000000000000000");
}

#[test]
fn response_lengths() {
    for (c, pw) in [("1234567z", "äbc"), ("", ""), ("ab😀", "x€")] {
        let r = legacy_md5_response(c, pw);
        assert_eq!(r.chars().count(), c.chars().count() + 33);
        assert!(r.chars().skip(c.chars().count() + 1).all(|ch| ch.is_ascii_hexdigit() && !ch.is_ascii_uppercase()));
    }
    let r = compute_response("2$1$00$1$5A1722", "pw").unwrap();
    assert_eq!(r.len(), "5A1722".len() + 65);
}
