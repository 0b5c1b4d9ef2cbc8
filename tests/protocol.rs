use checkpwn::config::Config;
use checkpwn::{
    arg_to_api_route, candidates_match, decide_account, decide_password, display_label,
    evaluate_acc_breach, hash_bytes, hash_password, identifiers_to_check, is_list_file_name,
    parse_range_response, password_verdict, range_answer_verdict, search_in_range, BreachVerdict,
    CheckableChoices, CheckpwnError, PassArg, RangeCandidate, RemoteStatus,
};

const QWERTY_DIGEST: &str = "B1B3773A05C0ED0176787A4F1574FF0075F7521E";
const QWERTY_SUFFIX: &str = "73A05C0ED0176787A4F1574FF0075F7521E";

fn is_upper_hex(s: &str) -> bool {
    s.chars().all(|c| c.is_ascii_digit() || ('A'..='F').contains(&c))
}

#[test]
fn digests_are_forty_upper_case_hex_digits() {
    for input in ["a", "qwerty", "correct horse battery staple", "p\u{e4}ssw\u{f6}rd"] {
        let d = hash_password(input);
        assert_eq!(d.len(), 40);
        assert!(is_upper_hex(&d));
        assert_eq!(d, hash_password(input));
    }
}

#[test]
fn digest_of_qwerty() {
    assert_eq!(hash_password("qwerty"), QWERTY_DIGEST);
    assert_eq!(hash_bytes(b"qwerty"), QWERTY_DIGEST);
}

#[test]
fn digest_of_empty_input() {
    assert_eq!(hash_bytes(b""), "DA39A3EE5E6B4B0D3255BFEF95601890AFD80709");
}

#[test]
fn password_route_sends_five_characters() {
    let route = arg_to_api_route(&CheckableChoices::PASS, &hash_password("qwerty"));
    let tail = route.strip_prefix("https://api.pwnedpasswords.com/range/").unwrap();
    assert_eq!(tail, "B1B37");
    assert_eq!(tail.len(), 5);

    let longer = arg_to_api_route(&CheckableChoices::PASS, "0123456789ABCDEF0123456789");
    assert_eq!(longer, "https://api.pwnedpasswords.com/range/01234");

    let shorter = arg_to_api_route(&CheckableChoices::PASS, "AB");
    assert_eq!(shorter, "https://api.pwnedpasswords.com/range/AB");
}

#[test]
fn account_routes_percent_encode_identifiers() {
    assert_eq!(
        arg_to_api_route(&CheckableChoices::ACC, "a b"),
        "https://haveibeenpwned.com/api/v3/breachedaccount/a%20b"
    );
    assert_eq!(
        arg_to_api_route(&CheckableChoices::PASTE, "j\u{e9}r\u{f4}me#1"),
        "https://haveibeenpwned.com/api/v3/pasteaccount/j%C3%A9r%C3%B4me%231"
    );
    assert_eq!(
        CheckableChoices::ACC.get_api_route("a b"),
        "https://haveibeenpwned.com/api/v3/breachedaccount/a b"
    );
}

#[test]
fn command_words_name_choices() {
    assert_eq!(CheckableChoices::from_arg("acc"), Some(CheckableChoices::ACC));
    assert_eq!(CheckableChoices::from_arg("pass"), Some(CheckableChoices::PASS));
    assert_eq!(CheckableChoices::from_arg("paste"), Some(CheckableChoices::PASTE));
    assert_eq!(CheckableChoices::from_arg("Acc"), None);
    assert_eq!(CheckableChoices::from_arg(""), None);
}

#[test]
fn round_trip_finds_suffix_with_count() {
    let body = format!("0018A45C4D1DEF81644B54AB7F969B88D65:1\r\n{}:42\r\n", QWERTY_SUFFIX);
    let candidates = parse_range_response(&body).unwrap();
    assert!(candidates_match(&candidates, QWERTY_SUFFIX));
    assert_eq!(search_in_range(&body, QWERTY_DIGEST), Ok(true));
}

#[test]
fn round_trip_ignores_padding() {
    let body = format!("0018A45C4D1DEF81644B54AB7F969B88D65:1\r\n{}:0\r\n", QWERTY_SUFFIX);
    let candidates = parse_range_response(&body).unwrap();
    assert_eq!(candidates.len(), 2);
    assert!(!candidates_match(&candidates, QWERTY_SUFFIX));
    assert_eq!(search_in_range(&body, QWERTY_DIGEST), Ok(false));
}

#[test]
fn matching_is_case_insensitive_at_the_boundary() {
    let body = format!("{}:5", QWERTY_SUFFIX.to_lowercase());
    let candidates = parse_range_response(&body).unwrap();
    assert_eq!(candidates[0].suffix, QWERTY_SUFFIX);
    assert!(candidates_match(&candidates, &QWERTY_SUFFIX.to_lowercase()));
}

#[test]
fn parse_keeps_order_counts_and_skips_empty_lines() {
    let body = "\nAAA:3\r\n\r\nbbb:18446744073709551615\nCCC:0";
    let candidates = parse_range_response(body).unwrap();
    assert_eq!(
        candidates,
        vec![
            RangeCandidate { suffix: String::from("AAA"), count: 3 },
            RangeCandidate { suffix: String::from("BBB"), count: u64::MAX },
            RangeCandidate { suffix: String::from("CCC"), count: 0 },
        ]
    );
    assert_eq!(parse_range_response("").unwrap(), Vec::new());
}

#[test]
fn parse_splits_at_the_first_colon() {
    assert_eq!(
        parse_range_response("AB:12:3"),
        Err(CheckpwnError::MalformedRangeResponse)
    );
    assert_eq!(
        parse_range_response(":7").unwrap(),
        vec![RangeCandidate { suffix: String::new(), count: 7 }]
    );
}

#[test]
fn missing_colon_is_malformed() {
    let body = format!("0018A45C4D1DEF81644B54AB7F969B88D65:1\n{}\n", QWERTY_SUFFIX);
    assert_eq!(
        parse_range_response(&body),
        Err(CheckpwnError::MalformedRangeResponse)
    );
    assert_eq!(
        search_in_range(&body, QWERTY_DIGEST),
        Err(CheckpwnError::MalformedRangeResponse)
    );
}

#[test]
fn bad_counts_are_malformed() {
    for body in ["ABC:", "ABC:x", "ABC: 3", "ABC:-1", "ABC:18446744073709551616"] {
        assert_eq!(
            parse_range_response(body),
            Err(CheckpwnError::MalformedRangeResponse),
            "{body}"
        );
    }
}

#[test]
fn account_decision_table() {
    assert_eq!(
        decide_account(RemoteStatus::NotFound, RemoteStatus::NotFound),
        Ok(BreachVerdict::NotBreached)
    );
    assert_eq!(
        decide_account(RemoteStatus::Found, RemoteStatus::NotFound),
        Ok(BreachVerdict::Breached)
    );
    assert_eq!(
        decide_account(RemoteStatus::Unauthorized, RemoteStatus::Unauthorized),
        Err(CheckpwnError::InvalidCredential)
    );
    assert_eq!(
        decide_account(RemoteStatus::ClientError(400), RemoteStatus::ClientError(400)),
        Err(CheckpwnError::UpstreamRejected)
    );
    assert_eq!(
        decide_account(RemoteStatus::NotFound, RemoteStatus::ClientError(400)),
        Ok(BreachVerdict::NotBreached)
    );
    assert_eq!(
        decide_account(RemoteStatus::NotFound, RemoteStatus::Found),
        Ok(BreachVerdict::Breached)
    );
    assert_eq!(
        decide_account(RemoteStatus::Found, RemoteStatus::Other(503)),
        Ok(BreachVerdict::Breached)
    );
    assert_eq!(
        decide_account(RemoteStatus::ClientError(400),
        RemoteStatus::NotFound), Err(CheckpwnError::UpstreamRejected)
    );
    assert_eq!(
        decide_account(RemoteStatus::ClientError(400),
        RemoteStatus::Found), Err(CheckpwnError::UpstreamRejected)
    );
    assert_eq!(
        decide_account(RemoteStatus::Other(429), RemoteStatus::NotFound),
        Err(CheckpwnError::UnrecognizedUpstreamStatus(429))
    );
    assert_eq!(
        decide_account(RemoteStatus::NotFound, RemoteStatus::Other(500)),
        Err(CheckpwnError::UnrecognizedUpstreamStatus(500))
    );
    assert_eq!(
        decide_account(RemoteStatus::NotFound, RemoteStatus::Unauthorized),
        Err(CheckpwnError::InvalidCredential)
    );
    assert_eq!(
        decide_account(RemoteStatus::Unauthorized, RemoteStatus::NotFound),
        Err(CheckpwnError::InvalidCredential)
    );
}

#[test]
fn status_codes_are_classified() {
    assert_eq!(RemoteStatus::from_code(200), RemoteStatus::Found);
    assert_eq!(RemoteStatus::from_code(404), RemoteStatus::NotFound);
    assert_eq!(RemoteStatus::from_code(400), RemoteStatus::ClientError(400));
    assert_eq!(RemoteStatus::from_code(401), RemoteStatus::Unauthorized);
    assert_eq!(RemoteStatus::from_code(403), RemoteStatus::Other(403));
    assert_eq!(evaluate_acc_breach(401, 401), Err(CheckpwnError::InvalidCredential));
    assert_eq!(evaluate_acc_breach(400, 400), Err(CheckpwnError::UpstreamRejected));
    assert_eq!(evaluate_acc_breach(400, 404), Err(CheckpwnError::UpstreamRejected));
    assert_eq!(evaluate_acc_breach(400, 200), Err(CheckpwnError::UpstreamRejected));
    assert_eq!(
        evaluate_acc_breach(403, 404),
        Err(CheckpwnError::UnrecognizedUpstreamStatus(403))
    );
}

#[test]
fn password_decision() {
    assert_eq!(decide_password(true), BreachVerdict::Breached);
    assert_eq!(decide_password(false), BreachVerdict::NotBreached);
    let body = format!("{}:9", QWERTY_SUFFIX);
    assert_eq!(password_verdict(&body, QWERTY_DIGEST), Ok(BreachVerdict::Breached));
    assert_eq!(
        password_verdict(&body, &hash_password("qwerty2")),
        Ok(BreachVerdict::NotBreached)
    );
    assert_eq!(
        password_verdict("nonsense", QWERTY_DIGEST),
        Err(CheckpwnError::MalformedRangeResponse)
    );
}

#[test]
fn verdict_words_and_labels() {
    assert_eq!(BreachVerdict::Breached.text(), "BREACH FOUND");
    assert_eq!(BreachVerdict::NotBreached.text(), "NO BREACH FOUND");
    assert!(BreachVerdict::Breached.is_breached());
    assert!(!BreachVerdict::NotBreached.is_breached());
    assert_eq!(display_label("hunter2", true), "********");
    assert_eq!(display_label("test@example.com", false), "test@example.com");
}

#[test]
fn list_skips_empty_lines() {
    let lines = vec![String::from("test@example.com"), String::from("")];
    let ids = identifiers_to_check(&lines);
    assert_eq!(ids, vec![String::from("test@example.com")]);
    assert_eq!(ids.len(), 1);
}

#[test]
fn list_lines_are_stripped() {
    let lines = vec![
        String::from(" a@b.com\t"),
        String::from(" \t "),
        String::from("user name\n"),
    ];
    assert_eq!(
        identifiers_to_check(&lines),
        vec![String::from("a@b.com"), String::from("username")]
    );
    assert!(identifiers_to_check(&Vec::new()).is_empty());
}

#[test]
fn list_file_names() {
    assert!(is_list_file_name("accounts.ls"));
    assert!(is_list_file_name(".ls"));
    assert!(!is_list_file_name("ls"));
    assert!(!is_list_file_name("test@example.com"));
    assert!(!is_list_file_name("accounts.lst"));
}

#[test]
fn secrets_are_wiped() {
    let mut secret = PassArg { password: String::from("hunter2") };
    secret.clear();
    assert_eq!(secret.password, "");
}

#[test]
fn configuration_needs_a_key() {
    let config = Config::new();
    assert_eq!(config.api_key, "");
    assert_eq!(config.api_key_for_account(), Err(CheckpwnError::ConfigurationMissing));
    let config = Config { api_key: String::from("SECRET-REDACTED") };
    assert_eq!(config.api_key_for_account(), Ok(String::from("SECRET-REDACTED")));
}

#[test]
fn range_answer_needs_status_ok() {
    let body = format!("{}:9", QWERTY_SUFFIX);
    assert_eq!(
        range_answer_verdict(200, &body, QWERTY_DIGEST),
        Ok(BreachVerdict::Breached)
    );
    assert_eq!(
        range_answer_verdict(503, &body, QWERTY_DIGEST),
        Err(CheckpwnError::UnrecognizedUpstreamStatus(503))
    );
}
