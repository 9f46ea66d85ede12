//! Browser steps, element targeting and assertions.
use llm_browser_testkit::assertions::{
    find_preset, judge_agent, judge_lowered, run_agent, run_agent_step, run_assert,
    run_assert_def, run_custom, run_custom_preset, run_layout_preset, run_mcp, run_preset,
    AssertNext, AssertOutcomes, AssertStep, LayoutIssue,
};
use llm_browser_testkit::endpoints::EndpointRegistry;
use llm_browser_testkit::events::StepStatus;
use llm_browser_testkit::llm::EnvSettings;
use llm_browser_testkit::mcp_client::{McpContent, McpToolResult};
use llm_browser_testkit::scenario::{AssertDefinition, EndpointConfig, EndpointType};
use llm_browser_testkit::steps::{
    resolve_url, run_click, run_login, run_navigate_step, run_screenshot, run_type, run_wait,
    Poll, Saved, StepNext, StepResult,
};
use llm_browser_testkit::targeting::{
    extract_dom_info, page_content, resolve_selector, unusable_retry, PageContent, TargetNext,
    TargetPage,
};

fn done(next: StepNext) -> StepResult {
    match next {
        StepNext::Done(r) => r,
        _ => panic!("the step is not over"),
    }
}

fn expect(r: &StepResult, name: &str, status: StepStatus, message: &str) {
    assert_eq!(r.name, name);
    assert_eq!(r.status, status);
    assert_eq!(r.message, message);
}

fn ok() -> Option<Result<(), String>> {
    Some(Ok(()))
}

fn failed(e: &str) -> Option<Result<(), String>> {
    Some(Err(e.to_owned()))
}

fn selector(s: &str) -> Option<Result<String, String>> {
    Some(Ok(s.to_owned()))
}

#[test]
fn urls_are_resolved_against_the_base() {
    assert_eq!(resolve_url("https://x/y", "http://app"), "https://x/y");
    assert_eq!(resolve_url("/login", "http://app/"), "http://app/login");
    assert_eq!(resolve_url("login", "http://app"), "http://app/login");
}

#[test]
fn navigation() {
    assert!(matches!(
        run_navigate_step("http://app/x", &None),
        StepNext::Navigate { url } if url == "http://app/x"
    ));
    expect(
        &done(run_navigate_step("http://app/x", &ok())),
        "[navigate] http://app/x",
        StepStatus::Passed,
        "navigated to http://app/x",
    );
    expect(
        &done(run_navigate_step("http://app/x", &failed("refused"))),
        "[navigate] http://app/x",
        StepStatus::Failed,
        "navigation failed: refused",
    );
}

#[test]
fn clicks() {
    assert!(matches!(
        run_click("the button", false, &None, &None, &None),
        StepNext::Resolve
    ));
    assert!(matches!(
        run_click("the button", false, &selector("#b"), &None, &None),
        StepNext::Find { selector, timeout_ms: 10_000 } if selector == "#b"
    ));
    assert!(matches!(
        run_click("the button", true, &selector("#b"), &None, &None),
        StepNext::Find {
            timeout_ms: 5_000,
            ..
        }
    ));
    assert!(matches!(
        run_click("the button", false, &selector("#b"), &ok(), &None),
        StepNext::Click { selector } if selector == "#b"
    ));
    expect(
        &done(run_click("the button", false, &selector("#b"), &ok(), &ok())),
        "[click] the button",
        StepStatus::Passed,
        "clicked #b",
    );
    expect(
        &done(run_click("the button", false, &selector("#b"), &ok(), &failed("gone"))),
        "[click] the button",
        StepStatus::Failed,
        "click failed on #b: gone",
    );
    expect(
        &done(run_click("the button", false, &selector("#b"), &failed("late"), &None)),
        "[click] the button",
        StepStatus::Failed,
        "element #b not found: late",
    );
}

#[test]
fn idempotent_steps_skip_what_is_not_there() {
    let missing = Some(Err("no such element".to_owned()));
    expect(
        &done(run_click("x", true, &missing, &None, &None)),
        "[click] x",
        StepStatus::Skipped,
        "skipped (idempotent): no target found — no such element",
    );
    expect(
        &done(run_click("x", false, &missing, &None, &None)),
        "[click] x",
        StepStatus::Failed,
        "no such element",
    );
    expect(
        &done(run_type("x", "t", true, &selector("#i"), &failed("late"), &None, &None)),
        "[type] x",
        StepStatus::Skipped,
        "skipped (idempotent): element #i not present — late",
    );
    expect(
        &done(run_wait(
            "x",
            Some("#i"),
            None,
            Some(7),
            true,
            &None,
            &failed("late"),
            &None,
        )),
        "[wait] x",
        StepStatus::Skipped,
        "skipped (idempotent): wait for #i timed out after 7ms: late",
    );
}

#[test]
fn typing() {
    assert!(matches!(
        run_type("f", "hello", false, &selector("#i"), &ok(), &None, &None),
        StepNext::Click { .. }
    ));
    match run_type("f", "hello", false, &selector("input[name='a']"), &ok(), &ok(), &None) {
        StepNext::Type {
            selector,
            script,
            text,
        } => {
            assert_eq!(selector, "input[name='a']");
            assert_eq!(
                script,
                r"document.querySelector('input[name=\'a\']').value = '';"
            );
            assert_eq!(text, "hello");
        }
        _ => panic!("expected typing"),
    }
    expect(
        &done(run_type("f", "he\"llo", false, &selector("#i"), &ok(), &ok(), &ok())),
        "[type] f",
        StepStatus::Passed,
        "typed \"he\\\"llo\" into #i",
    );
    expect(
        &done(run_type("f", "x", false, &selector("#i"), &ok(), &failed("covered"), &None)),
        "[type] f",
        StepStatus::Failed,
        "click to focus #i failed: covered",
    );
    expect(
        &done(run_type("f", "x", false, &selector("#i"), &ok(), &ok(), &failed("gone"))),
        "[type] f",
        StepStatus::Failed,
        "type into #i failed: gone",
    );
}

#[test]
fn waits_for_text() {
    let look = |text_ok, elapsed_ms| {
        Some(Poll {
            selector_ok: false,
            text_ok,
            elapsed_ms,
        })
    };
    let wait = |selector: Option<&str>, poll: &Option<Poll>| {
        run_wait("t", selector, Some("it's"), Some(1000), false, &None, &None, poll)
    };
    match wait(None, &None) {
        StepNext::Poll {
            wait_ms,
            selector_js,
            text_js,
        } => {
            assert_eq!(wait_ms, 0);
            assert!(selector_js.is_none());
            assert_eq!(
                text_js,
                r"document.body ? document.body.innerText.includes('it\'s') : false"
            );
        }
        _ => panic!("expected a poll"),
    }
    assert!(matches!(
        wait(None, &look(false, 999)),
        StepNext::Poll { wait_ms: 250, .. }
    ));
    expect(
        &done(wait(None, &look(true, 5000))),
        "[wait] t",
        StepStatus::Passed,
        "text \"it's\" visible",
    );
    expect(
        &done(wait(None, &look(false, 1000))),
        "[wait] t",
        StepStatus::Failed,
        "wait for text \"it's\" timed out after 1000ms: the event waited for never came",
    );
    // Both conditions are required where both are given.
    assert!(matches!(
        wait(Some("#x"), &look(true, 10)),
        StepNext::Poll {
            selector_js: Some(_),
            ..
        }
    ));
    expect(
        &done(wait(
            Some("#x"),
            &Some(Poll {
                selector_ok: true,
                text_ok: true,
                elapsed_ms: 1,
            }),
        )),
        "[wait] t",
        StepStatus::Passed,
        "found #x and text \"it's\" visible",
    );
}

#[test]
fn waits_for_elements() {
    let wait = |resolved: &Option<Result<String, String>>, found: &Option<Result<(), String>>| {
        run_wait("t", None, None, None, false, resolved, found, &None)
    };
    assert!(matches!(wait(&None, &None), StepNext::Resolve));
    assert!(matches!(
        wait(&selector("#x"), &None),
        StepNext::Find {
            timeout_ms: 10_000,
            ..
        }
    ));
    expect(
        &done(wait(&selector("#x"), &ok())),
        "[wait] t",
        StepStatus::Passed,
        "found #x",
    );
}

#[test]
fn screenshots() {
    assert!(matches!(
        run_screenshot(None, &None),
        StepNext::Save { path } if path == "screenshot.png"
    ));
    expect(
        &done(run_screenshot(Some("a.png"), &Some(Saved::Written))),
        "[screenshot] a.png",
        StepStatus::Passed,
        "saved to a.png",
    );
    expect(
        &done(run_screenshot(Some("a.png"), &Some(Saved::NotTaken("x".to_owned())))),
        "[screenshot] a.png",
        StepStatus::Failed,
        "screenshot failed: x",
    );
    expect(
        &done(run_screenshot(Some("a.png"), &Some(Saved::NotWritten("x".to_owned())))),
        "[screenshot] a.png",
        StepStatus::Failed,
        "failed to write screenshot: x",
    );
}

#[test]
fn logins() {
    let mut outcomes: Vec<Result<(), String>> = Vec::new();
    let step = |outcomes: &Vec<Result<(), String>>| run_login("http://app/auth/login", "a@b", "pw", outcomes);
    let mut asked = Vec::new();
    loop {
        match step(&outcomes) {
            StepNext::Navigate { url } => asked.push(format!("open {url}")),
            StepNext::Find {
                selector,
                timeout_ms,
            } => asked.push(format!("find {selector} {timeout_ms}")),
            StepNext::Type { selector, text, .. } => asked.push(format!("type {text} into {selector}")),
            StepNext::Click { selector } => asked.push(format!("click {selector}")),
            StepNext::Done(r) => {
                assert_eq!(r.name, "[login] http://app/auth/login");
                assert_eq!(r.status, StepStatus::Passed);
                break;
            }
            _ => panic!("unexpected action"),
        }
        outcomes.push(Ok(()));
    }
    assert_eq!(
        asked,
        vec![
            "open http://app/auth/login",
            "find #email 5000",
            "type a@b into #email",
            "type pw into #password",
            "find input[name=\"cf-turnstile-response\"][value]:not([value=\"\"]) 30000",
            "click button.btn--landing.btn--primary",
            "find app-account-shell 30000",
        ]
    );
    // No login form: the session is already authenticated.
    let r = done(step(&vec![Ok(()), Err("timeout".to_owned())]));
    expect(
        &r,
        "[login] http://app/auth/login",
        StepStatus::Passed,
        "already authenticated",
    );
    let r = done(step(&vec![Err("refused".to_owned())]));
    assert_eq!(r.status, StepStatus::Failed);
    assert!(r.message.contains("refused"));
}

// ── Targeting ─────────────────────────────────────────────────────────

fn page() -> PageContent {
    page_content(
        "http://app/".to_owned(),
        Some("App".to_owned()),
        Some("Welcome".to_owned()),
    )
}

fn target_page() -> Option<Result<TargetPage, String>> {
    Some(Ok(TargetPage {
        content: page(),
        elements: extract_dom_info(Some(r#"["0: #a [a] \"A\"","1: #b [button] \"B\""]"#)),
    }))
}

fn target(
    first: Option<&str>,
    first_matches: Option<bool>,
    second: Option<&str>,
    second_matches: Option<bool>,
) -> TargetNext {
    resolve_selector(
        None,
        "the B button",
        &target_page(),
        &first.map(|s| Ok(s.to_owned())),
        first_matches,
        &second.map(|s| Ok(s.to_owned())),
        second_matches,
    )
}

#[test]
fn elements_are_listed_by_line() {
    assert_eq!(
        extract_dom_info(Some(r#"["one","two"]"#)),
        "one\ntwo"
    );
    assert_eq!(extract_dom_info(Some("[]")), "(no interactive elements found)");
    assert_eq!(extract_dom_info(None), "(no interactive elements found)");
    assert_eq!(
        extract_dom_info(Some("not json")),
        "(no interactive elements found)"
    );
}

#[test]
fn explicit_selectors_win() {
    assert!(matches!(
        resolve_selector(Some("#x"), "t", &None, &None, None, &None, None),
        TargetNext::Found(s) if s == "#x"
    ));
    assert!(matches!(
        resolve_selector(None, "t", &None, &None, None, &None, None),
        TargetNext::ReadPage
    ));
}

#[test]
fn the_llm_is_shown_the_page() {
    match target(None, None, None, None) {
        TargetNext::Ask { user, .. } => {
            assert_eq!(
                user,
                "Page URL: http://app/\nPage Title: App\n\nPage body text (first 4000 chars):\nWelcome\n\nInteractive elements:\n0: #a [a] \"A\"\n1: #b [button] \"B\"\n\nFind the CSS selector for: the B button"
            );
        }
        _ => panic!("expected a question"),
    }
}

#[test]
fn answers_are_checked_against_the_page() {
    assert!(matches!(
        target(Some("```css\n#b\n```"), None, None, None),
        TargetNext::Check { script } if script == "document.querySelector('#b') !== null"
    ));
    assert!(matches!(
        target(Some("#b"), Some(true), None, None),
        TargetNext::Found(s) if s == "#b"
    ));
    match target(Some("#c"), Some(false), None, None) {
        TargetNext::Ask { user, .. } => {
            assert!(user.starts_with("Your previous answer was not usable."));
            assert!(user.ends_with("No explanations."));
        }
        _ => panic!("expected one retry"),
    }
    assert!(matches!(
        target(Some("#c"), Some(false), Some("#b"), Some(true)),
        TargetNext::Found(s) if s == "#b"
    ));
    match target(Some("#c"), Some(false), Some("#d"), Some(false)) {
        TargetNext::Failed(m) => assert!(
            m.starts_with(
                "LLM element targeting failed: selector \"#d\" does not match any element on the page for \"the B button\""
            ),
            "got: {m}"
        ),
        _ => panic!("expected the end of the search"),
    }
}

#[test]
fn answers_that_are_no_selectors_fail() {
    match target(Some(":not(*)"), None, None, None) {
        TargetNext::Failed(m) => assert!(m.contains("(got \":not(*)\")"), "got: {m}"),
        _ => panic!("expected a failure"),
    }
    match target(Some("div[a"), None, None, None) {
        TargetNext::Failed(m) => assert!(m.contains("invalid selector"), "got: {m}"),
        _ => panic!("expected a failure"),
    }
    match target(Some("#c"), Some(false), Some("null"), None) {
        TargetNext::Unusable { first, raw } => {
            assert_eq!((first.as_str(), raw.as_str()), ("#c", "null"));
            assert_eq!(
                unusable_retry(&first, "the B button", &raw, "Welcome"),
                "LLM element targeting failed: selector \"#c\" matched nothing; the retry returned no usable selector for \"the B button\" (got \"null\"). Page excerpt: Welcome"
            );
        }
        _ => panic!("expected an unusable retry"),
    }
}

#[test]
fn failures_of_the_outside_are_passed_on() {
    assert!(matches!(
        resolve_selector(None, "t", &Some(Err("x".to_owned())), &None, None, &None, None),
        TargetNext::Failed(m) if m == "DOM extraction failed: x"
    ));
    assert!(matches!(
        resolve_selector(None, "t", &target_page(), &Some(Err("x".to_owned())), None, &None, None),
        TargetNext::Failed(m) if m == "LLM element targeting failed: x"
    ));
}

// ── Assertions ────────────────────────────────────────────────────────

fn registry() -> EndpointRegistry {
    let env = EnvSettings {
        base_url: None,
        llm_url: None,
        llm_model: None,
        llm_api_key: None,
        llm_headers: None,
        llm_call_attempts: None,
        headless: None,
    };
    let endpoint = |endpoint_type, url: &str, command: Option<&str>| EndpointConfig {
        endpoint_type,
        url: Some(url.to_owned()),
        command: command.map(str::to_owned),
        ..Default::default()
    };
    EndpointRegistry::from_config(
        &vec![
            (
                "default".to_owned(),
                EndpointConfig {
                    default_for: vec!["assertion".to_owned()],
                    ..endpoint(EndpointType::Llm, "http://llm", None)
                },
            ),
            (
                "vision".to_owned(),
                EndpointConfig {
                    vision: true,
                    ..endpoint(EndpointType::Llm, "http://vision", None)
                },
            ),
            (
                "bot".to_owned(),
                endpoint(EndpointType::A2a, "http://bot", None),
            ),
            (
                "db".to_owned(),
                EndpointConfig {
                    args: vec!["-y".to_owned()],
                    ..endpoint(EndpointType::Mcp, "", Some("npx"))
                },
            ),
            ("empty".to_owned(), endpoint(EndpointType::Mcp, "", None)),
        ],
        None,
        &env,
    )
}

fn verdict(next: AssertNext) -> StepResult {
    match next {
        AssertNext::Done(r) => r,
        _ => panic!("the assertion is not over"),
    }
}

fn said(s: &str) -> Option<Result<String, String>> {
    Some(Ok(s.to_owned()))
}

fn definition(name: &str) -> AssertDefinition {
    AssertDefinition {
        name: name.to_owned(),
        preset: None,
        prompt: None,
        system: None,
        user_template: None,
        assert_text: None,
        agent: None,
        task_template: None,
    }
}

fn nothing() -> AssertOutcomes {
    AssertOutcomes {
        reply: None,
        scan: None,
    }
}

fn step<'a>() -> AssertStep<'a> {
    AssertStep {
        definition: None,
        preset: None,
        prompt: None,
        assert_text: None,
        screenshot: false,
        endpoint: None,
    }
}

#[test]
fn presets_are_built_in() {
    for name in [
        "no_error_on_page",
        "text_visible",
        "element_exists",
        "visual_no_issues",
        "visual_no_overlaps",
        "visual_text_visible",
        "layout_no_issues",
    ] {
        assert!(find_preset(name).is_some(), "{name}");
    }
    assert!(find_preset("other").is_none());
}

#[test]
fn verdicts_of_the_llm() {
    assert_eq!(judge_lowered("n", "Pass!", "pass!").status, StepStatus::Passed);
    let r = judge_lowered("n", "FAIL: broken", "fail: broken");
    assert_eq!(r.status, StepStatus::Failed);
    assert_eq!(r.message, "FAIL: broken");
    let next = run_preset("no_error_on_page", None, &page(), false, &said("  PASS\n"));
    expect(
        &verdict(next),
        "[assert] no_error_on_page",
        StepStatus::Passed,
        "PASS",
    );
    let next = run_preset(
        "no_error_on_page",
        None,
        &page(),
        false,
        &Some(Err("HTTP 500".to_owned())),
    );
    expect(
        &verdict(next),
        "[assert] no_error_on_page",
        StepStatus::Failed,
        "LLM assertion call failed: HTTP 500",
    );
}

#[test]
fn preset_prompts_hold_the_page_and_the_text() {
    match run_preset("text_visible", Some("Hello"), &page(), false, &None) {
        AssertNext::Ask { user, .. } => {
            assert!(user.contains("TEXT TO FIND: \"Hello\""));
            assert!(user.contains("URL: http://app/"));
            assert!(user.contains("Welcome"));
        }
        _ => panic!("expected a question"),
    }
    let r = verdict(run_preset("visual_no_issues", None, &page(), false, &None));
    assert_eq!(r.status, StepStatus::Failed);
    assert!(r.message.contains("set screenshot = true"));
    expect(
        &verdict(run_preset("nope", None, &page(), false, &None)),
        "[assert] nope",
        StepStatus::Failed,
        "unknown assertion preset: nope",
    );
}

#[test]
fn templates_always_show_the_page() {
    let ask = |template: &str| match run_custom_preset(
        "p",
        "sys",
        template,
        Some("Hi"),
        &page(),
        &None,
    ) {
        AssertNext::Ask { system, user } => {
            assert_eq!(system, "sys");
            user
        }
        _ => panic!("expected a question"),
    };
    assert_eq!(
        ask("Is {expected_text} on {url}?"),
        "Is Hi on http://app/?\n\nPage URL: http://app/\nPage Title: App\n\nPage Content:\nWelcome"
    );
    assert_eq!(ask("{title}: {content}"), "App: Welcome");
}

#[test]
fn custom_prompts() {
    match run_custom("Is it nice?", &page(), true, &None) {
        AssertNext::Ask { user, .. } => {
            assert_eq!(
                user,
                "Page URL: http://app/\nPage Title: App\n\nPage Content:\nWelcome\n\nAssertion: Is it nice?\n\nA screenshot of the page is attached — inspect it for visual evidence when answering."
            );
        }
        _ => panic!("expected a question"),
    }
}

#[test]
fn layout_scans_need_no_llm() {
    assert!(matches!(run_layout_preset(&None), AssertNext::ScanLayout));
    expect(
        &verdict(run_layout_preset(&Some(Ok(vec![])))),
        "[assert] layout_no_issues",
        StepStatus::Passed,
        "PASS — no layout defects detected",
    );
    let issue = |n: usize| LayoutIssue {
        issue_type: "text-clipped".to_owned(),
        element: format!("p{n}"),
        detail: "cut".to_owned(),
    };
    expect(
        &verdict(run_layout_preset(&Some(Ok(vec![issue(0)])))),
        "[assert] layout_no_issues",
        StepStatus::Failed,
        "FAIL — 1 layout defect(s) detected:\n- [text-clipped] p0: cut",
    );
    let many = verdict(run_layout_preset(&Some(Ok((0..12).map(issue).collect()))));
    assert!(many.message.ends_with("- [text-clipped] p9: cut\n- … and 2 more"));
    expect(
        &verdict(run_layout_preset(&Some(Err("boom".to_owned())))),
        "[assert] layout_no_issues",
        StepStatus::Failed,
        "layout scan JS failed: boom",
    );
}

#[test]
fn agents_are_called_and_judged() {
    let r = registry();
    assert!(matches!(
        run_agent_step(&r, "bot", "do it", "agent:bot", &None),
        AssertNext::CallAgent { url, task } if url == "http://bot" && task == "do it"
    ));
    expect(
        &verdict(run_agent_step(&r, "ghost", "t", "x", &None)),
        "[agent] x",
        StepStatus::Failed,
        "agent endpoint 'ghost' not found",
    );
    expect(
        &verdict(run_agent_step(&r, "bot", "t", "x", &Some(Err("down".to_owned())))),
        "[agent] x",
        StepStatus::Failed,
        "agent call failed: down",
    );
    assert_eq!(judge_agent("n", "Pass ok", "pass ok").message, "PASS: Pass ok");
    assert_eq!(judge_agent("n", "FAIL no", "fail no").status, StepStatus::Failed);
    assert_eq!(judge_agent("n", "hm", "hm").message, "response: hm");
    let mut def = definition("check");
    def.task_template = Some("Please: {task}!".to_owned());
    assert!(matches!(
        run_agent(&r, &vec![def], "bot", "audit", Some("check"), &None),
        AssertNext::CallAgent { task, .. } if task == "Please: audit!"
    ));
}

#[test]
fn tools_are_called_and_judged() {
    let r = registry();
    assert!(matches!(
        run_mcp(&r, "db", "query", &None),
        AssertNext::CallTool { command, args } if command == "npx" && args == vec!["-y".to_owned()]
    ));
    expect(
        &verdict(run_mcp(&r, "empty", "query", &None)),
        "[mcp] empty:query",
        StepStatus::Failed,
        "MCP server 'empty' has no command configured",
    );
    let reply = |is_error| {
        Some(Ok(McpToolResult {
            content: vec![McpContent::Text {
                text: "42 rows".into(),
            }],
            isError: is_error,
        }))
    };
    expect(
        &verdict(run_mcp(&r, "db", "query", &reply(false))),
        "[mcp] db:query",
        StepStatus::Passed,
        "42 rows",
    );
    expect(
        &verdict(run_mcp(&r, "db", "query", &reply(true))),
        "[mcp] db:query",
        StepStatus::Failed,
        "42 rows",
    );
}

#[test]
fn definitions_choose_their_evaluation() {
    let r = registry();
    let mut agent = definition("audit");
    agent.agent = Some("bot".to_owned());
    agent.task_template = Some("Verify {expected_text} at {url}{task}".to_owned());
    agent.assert_text = Some("old".to_owned());
    // The text of the step wins over that of its definition.
    assert!(matches!(
        run_assert_def(&r, &agent, Some("new"), &page(), false, &nothing()),
        AssertNext::CallAgent { task, .. } if task == "Verify new at http://app/"
    ));
    assert!(matches!(
        run_assert_def(&r, &agent, None, &page(), false, &nothing()),
        AssertNext::CallAgent { task, .. } if task == "Verify old at http://app/"
    ));
    expect(
        &verdict(run_assert_def(&r, &agent, None, &page(), true, &nothing())),
        "[assert] audit",
        StepStatus::Failed,
        "agent-backed assertions do not support screenshots",
    );
    let mut layout = definition("l");
    layout.preset = Some("layout_no_issues".to_owned());
    assert!(matches!(
        run_assert_def(&r, &layout, None, &page(), false, &nothing()),
        AssertNext::ScanLayout
    ));
    expect(
        &verdict(run_assert_def(&r, &definition("d"), None, &page(), false, &nothing())),
        "[assert] d",
        StepStatus::Failed,
        "definition has no preset, prompt, or system+user_template",
    );
}

#[test]
fn assert_steps() {
    let r = registry();
    let some_page = Some(page());
    assert!(matches!(
        run_assert(&r, &vec![], &step(), None, &None, &None, &nothing()),
        AssertNext::ReadPage { wait_ms: 500 }
    ));
    expect(
        &verdict(run_assert(&r, &vec![], &step(), None, &some_page, &None, &nothing())),
        "[assert]",
        StepStatus::Skipped,
        "no definition, preset, or prompt specified",
    );
    let unknown = AssertStep {
        definition: Some("ghost"),
        ..step()
    };
    expect(
        &verdict(run_assert(&r, &vec![], &unknown, None, &some_page, &None, &nothing())),
        "[assert] ghost",
        StepStatus::Failed,
        "definition 'ghost' not found",
    );
    // The last definition of a name counts.
    let mut first = definition("d");
    first.prompt = Some("first?".to_owned());
    let mut last = definition("d");
    last.prompt = Some("last?".to_owned());
    let by_name = AssertStep {
        definition: Some("d"),
        ..step()
    };
    assert!(matches!(
        run_assert(&r, &vec![first, last], &by_name, None, &some_page, &None, &nothing()),
        AssertNext::Ask { user, .. } if user.contains("last?")
    ));
}

#[test]
fn pictures_need_a_vision_endpoint() {
    let r = registry();
    let some_page = Some(page());
    let mut visual = AssertStep {
        preset: Some("visual_no_overlaps"),
        screenshot: true,
        ..step()
    };
    let refused = verdict(run_assert(&r, &vec![], &visual, None, &some_page, &None, &nothing()));
    expect(
        &refused,
        "[assert]",
        StepStatus::Failed,
        "screenshot requested but endpoint 'default' does not declare vision = true (add vision = true to its [config.endpoints] entry)",
    );
    visual.endpoint = Some("vision");
    assert!(matches!(
        run_assert(&r, &vec![], &visual, None, &some_page, &None, &nothing()),
        AssertNext::Capture {
            max_dimension: 1400
        }
    ));
    assert!(matches!(
        run_assert(&r, &vec![], &visual, Some(900), &some_page, &None, &nothing()),
        AssertNext::Capture { max_dimension: 900 }
    ));
    let failed_capture = Some(Err("no tab".to_owned()));
    expect(
        &verdict(run_assert(&r, &vec![], &visual, None, &some_page, &failed_capture, &nothing())),
        "[assert]",
        StepStatus::Failed,
        "screenshot capture failed: no tab",
    );
    assert!(matches!(
        run_assert(&r, &vec![], &visual, None, &some_page, &said("data:..."), &nothing()),
        AssertNext::Ask { .. }
    ));
}
