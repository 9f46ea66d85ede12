//! Page state, artifact names and selectors.
use llm_browser_testkit::diagnostics::{
    artifact_file_name, full_context, inline_excerpt, page_state, slugify, PageState,
};
use llm_browser_testkit::selectors::{
    check_selector, escape_js, sanitize_selector, selector_is_useless, selector_matches_js,
    validate_selector,
};
use llm_browser_testkit::text::shorten;

fn state() -> PageState {
    PageState {
        url: "http://127.0.0.1:8082/auth/login".into(),
        title: "Immosai — Sign in".into(),
        visible_text: "Email address\nPassword\nSign in\nInvalid credentials.".into(),
        alerts: vec!["Invalid credentials.".into()],
    }
}

#[test]
fn test_inline_excerpt_contains_url_and_text() {
    let s = inline_excerpt(&state());
    assert!(s.contains("auth/login"));
    assert!(s.contains("visible:"));
    assert!(s.contains("alerts:"));
}

#[test]
fn test_inline_excerpt_newlines_flattened() {
    let s = inline_excerpt(&state());
    assert!(!s.contains('\n'));
}

#[test]
fn test_full_context_lists_alerts_and_screenshot() {
    let s = full_context(&state(), Some("artifacts/x.png"));
    assert!(s.contains("url:"));
    assert!(s.contains("alert:"));
    assert!(s.contains("screenshot: artifacts/x.png"));
}

#[test]
fn test_slugify() {
    assert_eq!(
        slugify("Login and open account", 60),
        "login-and-open-account"
    );
    assert_eq!(slugify("Äpfel & Birnen!", 60), "pfel-birnen");
    assert_eq!(slugify("a".repeat(100).as_str(), 20), "a".repeat(20));
}

#[test]
fn slugs_hold_lower_case_letters_digits_and_hyphens() {
    for name in ["Ünïcode — & Co.", "  spaces  ", "A_b/C\\d", "123 Go!"] {
        let slug = slugify(name, 12);
        assert!(slug.len() <= 12);
        assert!(slug
            .chars()
            .all(|c| c.is_ascii_lowercase() || c.is_ascii_digit() || c == '-'));
    }
}

#[test]
fn artifacts_are_named_after_their_step() {
    assert_eq!(
        artifact_file_name("Account", "Login and open account", 6, "wait"),
        "account__login-and-open-account__006-wait.png"
    );
}

#[test]
fn what_the_page_did_not_answer_is_a_default() {
    let s = page_state("http://x".to_owned(), None, None, None);
    assert_eq!(s.url, "http://x");
    assert_eq!(s.title, "unknown");
    assert_eq!(s.visible_text, "");
    assert!(s.alerts.is_empty());
    let s = page_state(
        "http://x".to_owned(),
        Some("T".to_owned()),
        Some("hello".to_owned()),
        Some("[\"first\",\"second\"]".to_owned()),
    );
    assert_eq!(s.title, "T");
    assert_eq!(s.visible_text, "hello");
    assert_eq!(s.alerts, vec!["first".to_owned(), "second".to_owned()]);
    let s = page_state(
        "http://x".to_owned(),
        None,
        None,
        Some("not a list".to_owned()),
    );
    assert!(s.alerts.is_empty());
}

#[test]
fn excerpts_are_one_line_whatever_the_page_holds() {
    let s = inline_excerpt(&PageState {
        url: "http://x/\n1".into(),
        title: "two\nlines".into(),
        visible_text: "\na\nb\n".into(),
        alerts: vec!["c\nd".into(), "e".into()],
    });
    assert_eq!(
        s,
        "page: http://x/ ⏎ 1 (two ⏎ lines) — visible: \"a ⏎ b\" — alerts: c ⏎ d | e"
    );
}

#[test]
fn page_texts_are_cut_between_characters() {
    let text = format!("a{}", "é".repeat(1000));
    let s = page_state("http://x".to_owned(), None, Some(text), None);
    assert_eq!(
        s.visible_text,
        format!("a{}...<truncated>", "é".repeat(749))
    );
    assert_eq!(
        inline_excerpt(&s),
        format!(
            "page: http://x (unknown) — visible: \"a{}...<truncated>\"",
            "é".repeat(79)
        )
    );
    let whole = "é".repeat(750);
    let s = page_state("http://x".to_owned(), None, Some(whole.clone()), None);
    assert_eq!(s.visible_text, whole);
}

#[test]
fn shortened_texts_keep_whole_characters() {
    assert_eq!(shorten("héllo", 6), "héllo");
    assert_eq!(shorten("héllo", 3), "hé...<truncated>");
    assert_eq!(shorten("héllo", 2), "h...<truncated>");
    assert_eq!(shorten("é", 1), "...<truncated>");
    for len in [1, 3, 4, 5] {
        assert_eq!(
            shorten("héllo", len),
            llm_browser_testkit::truncate("héllo", len)
        );
    }
}

#[test]
fn test_sanitize_trims_whitespace() {
    assert_eq!(sanitize_selector("  #login  "), "#login");
}

#[test]
fn test_sanitize_strips_code_fence() {
    assert_eq!(
        sanitize_selector("```css\nbutton.btn--primary\n```"),
        "button.btn--primary"
    );
}

#[test]
fn test_sanitize_strips_quotes() {
    assert_eq!(sanitize_selector("\"button#send\""), "button#send");
    assert_eq!(
        sanitize_selector("'input[name=email]'"),
        "input[name=email]"
    );
    assert_eq!(sanitize_selector("`a.login-link`"), "a.login-link");
}

#[test]
fn test_sanitize_empty() {
    assert_eq!(sanitize_selector("```\n\n```"), "");
    assert_eq!(sanitize_selector("   "), "");
}

#[test]
fn test_sanitize_quoted_fenced() {
    assert_eq!(sanitize_selector("```css\n\"div.card\"\n```"), "div.card");
}

#[test]
fn test_useless_selectors() {
    for bad in [
        "",
        "   ",
        "*",
        ":not(*)",
        ":not(anything)",
        "null",
        "undefined",
        "none",
        "N/A",
        "{",
        "{\"a\":1}",
        "json {\"a\":1}",
    ] {
        assert!(selector_is_useless(bad), "expected {bad:?} to be useless");
    }
}

#[test]
fn test_useful_selectors() {
    for good in [
        "#id",
        "button.btn",
        "input[name=email]",
        ":is(a, button)",
        "a > span.x",
        "div[aria-label='New chat']",
    ] {
        assert!(!selector_is_useless(good), "expected {good:?} to be useful");
    }
}

#[test]
fn test_validate_balanced() {
    assert!(validate_selector("div[aria-label='x']:nth-child(2)").is_ok());
    assert!(validate_selector("a:has(> span)").is_ok());
}

#[test]
fn test_validate_unbalanced() {
    assert!(validate_selector("div[aria-label").is_err());
    assert!(validate_selector("div:nth-child(2").is_err());
    assert!(validate_selector("div:not(").is_err());
    assert!(validate_selector("div[aria-label='x]").is_err());
}

#[test]
fn stray_closers_are_named() {
    assert!(check_selector("a)", "shown").is_err());
    assert!(check_selector("a]", "shown").is_err());
    // Brackets within a string close nothing.
    assert!(check_selector("a[title=')']", "shown").is_ok());
    // A quoted selector is shown with its escapes.
    let err = validate_selector("a[\"").expect_err("unbalanced");
    assert!(err.contains("\"a[\\\"\""), "got: {err}");
}

#[test]
fn selectors_stay_in_their_string() {
    assert_eq!(escape_js(r"a'b\c"), r"a\'b\\c");
    assert_eq!(
        selector_matches_js("a[title='x']"),
        r"document.querySelector('a[title=\'x\']') !== null"
    );
}
