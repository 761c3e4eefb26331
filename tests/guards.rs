use efantasy::guards::{bearer_token, AuthGuard, GuardRejection, NoAuthGuard, TokenCheck};

fn std_token(header: &str) -> String {
    header.trim_start_matches("Bearer ").trim().trim_matches('"').to_string()
}

#[test]
fn bearer_token_plain() {
    assert_eq!(bearer_token("Bearer abc.def.ghi"), "abc.def.ghi");
}

#[test]
fn bearer_token_quoted_and_padded() {
    assert_eq!(bearer_token("Bearer   \"tok\"  "), "tok");
    assert_eq!(bearer_token("\"\"tok\"\""), "tok");
}

#[test]
fn bearer_token_repeated_prefix() {
    assert_eq!(bearer_token("Bearer Bearer xyz"), "xyz");
}

#[test]
fn bearer_token_without_prefix() {
    assert_eq!(bearer_token("  raw-token\t"), "raw-token");
    assert_eq!(bearer_token("bearer x"), "bearer x");
}

#[test]
fn bearer_token_edge_cases() {
    assert_eq!(bearer_token(""), "");
    assert_eq!(bearer_token("Bearer "), "");
    assert_eq!(bearer_token("\"\"\""), "");
    assert_eq!(bearer_token("\u{3000}tök\u{a0}"), "tök");
}

#[test]
fn bearer_token_agrees_with_std() {
    let headers = [
        "Bearer a",
        "Bearer  \" b \" ",
        "Bearer Bearer \"c\"",
        " Bearer d",
        "\u{2003}\"e\u{2028}\"",
        "Bearer\u{85}f",
        "x\"y\"",
    ];
    for h in headers {
        assert_eq!(bearer_token(h), std_token(h), "header {:?}", h);
    }
}

#[test]
fn auth_guard_decisions() {
    assert_eq!(AuthGuard::from_token_check(TokenCheck::Valid(7)), Ok(AuthGuard { user_id: 7 }));
    assert_eq!(
        AuthGuard::from_token_check(TokenCheck::Invalid),
        Err(GuardRejection::Unauthorized)
    );
    assert_eq!(
        AuthGuard::from_token_check(TokenCheck::Missing),
        Err(GuardRejection::Unauthorized)
    );
}

#[test]
fn no_auth_guard_decisions() {
    assert_eq!(
        NoAuthGuard::from_token_check(TokenCheck::Valid(7)),
        Err(GuardRejection::Forbidden)
    );
    assert_eq!(NoAuthGuard::from_token_check(TokenCheck::Invalid), Ok(NoAuthGuard));
    assert_eq!(NoAuthGuard::from_token_check(TokenCheck::Missing), Ok(NoAuthGuard));
}

#[test]
fn rejection_status_codes() {
    assert_eq!(GuardRejection::Unauthorized.status_code(), 401);
    assert_eq!(GuardRejection::Forbidden.status_code(), 403);
}
