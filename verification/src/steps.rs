//! The browser steps of a test: navigate, login, click, type, wait and
//! screenshot.
//!
//! Each step is a function from what has happened so far to what has to
//! happen next. What happened is given by the outcomes of the browser actions
//! that the step asked for; an outcome that is not there yet is `None`. The
//! caller performs the action that is asked for, and calls the function again
//! with its outcome, until the step is done.
use vstd::prelude::*;
use vstd::string::StringExecFns;
use crate::events::StepStatus;
use crate::llm;
use crate::selectors;
use crate::text;

verus! {

/// Result of a single step execution.
#[derive(Debug, Clone)]
pub struct StepResult {
    /// The step name.
    pub name: String,
    /// Whether the step passed, failed, or was skipped.
    pub status: StepStatus,
    /// Human-readable result message.
    pub message: String,
}

/// The outcome of a browser action: done, or what the browser said.
pub type Acted = Option<Result<(), String>>;

/// What a step asks for next.
pub enum StepNext {
    /// Open a page.
    Navigate {
        /// The full URL.
        url: String,
    },
    /// Find a selector for the target of the step.
    Resolve,
    /// Wait for an element.
    Find {
        /// CSS selector.
        selector: String,
        /// Longest time to wait.
        timeout_ms: u64,
    },
    /// Click the element.
    Click {
        /// CSS selector.
        selector: String,
    },
    /// Run the script, which empties the element, and type into it.
    Type {
        /// CSS selector.
        selector: String,
        /// Script that empties the element; its failure does not matter.
        script: String,
        /// What is typed.
        text: String,
    },
    /// Evaluate the scripts, after a pause.
    Poll {
        /// Milliseconds to wait before.
        wait_ms: u64,
        /// Script that says whether the element is there.
        selector_js: Option<String>,
        /// Script that says whether the text is there.
        text_js: String,
    },
    /// Save a picture of the page.
    Save {
        /// File name.
        path: String,
    },
    /// The step is over.
    Done(StepResult),
}

/// A result has that name, status and message.
pub open spec fn result_is(
    x: StepResult,
    name: Seq<char>,
    status: StepStatus,
    message: Seq<char>,
) -> bool {
    x.name@ == name && x.status == status && x.message@ == message
}

impl StepNext {
    /// The step is over with that name, status and message.
    pub open spec fn done(self, name: Seq<char>, status: StepStatus, message: Seq<char>) -> bool {
        self matches StepNext::Done(x) && result_is(x, name, status, message)
    }

    /// An element has to be found.
    pub open spec fn finds(self, selector: Seq<char>, timeout: u64) -> bool {
        self matches StepNext::Find { selector: s, timeout_ms } && s@ == selector && timeout_ms
            == timeout
    }

    /// An element has to be clicked.
    pub open spec fn clicks(self, selector: Seq<char>) -> bool {
        self matches StepNext::Click { selector: s } && s@ == selector
    }

    /// A text has to be typed.
    pub open spec fn types(self, selector: Seq<char>, typed: Seq<char>) -> bool {
        self matches StepNext::Type { selector: s, script, text } && s@ == selector && script@
            == clear_script(selector) && text@ == typed
    }

    /// A page has to be opened.
    pub open spec fn opens(self, page: Seq<char>) -> bool {
        self matches StepNext::Navigate { url } && url@ == page
    }
}

/// A result.
pub(crate) fn result(name: &str, status: StepStatus, message: &str) -> (r: StepResult)
    ensures
        result_is(r, name@, status, message@),
{
    StepResult { name: name.to_owned(), status, message: message.to_owned() }
}

/// A finished step.
fn finished(name: &str, status: StepStatus, message: &str) -> (r: StepNext)
    ensures
        r.done(name@, status, message@),
{
    StepNext::Done(result(name, status, message))
}

/// Two texts, one behind the other.
pub(crate) fn glue(a: &str, b: &str) -> (r: String)
    ensures
        r@ == a@ + b@,
{
    let mut s = a.to_owned();
    s.append(b);
    s
}

/// Three texts, one behind the other.
pub(crate) fn glue3(a: &str, b: &str, c: &str) -> (r: String)
    ensures
        r@ == a@ + b@ + c@,
{
    let mut s = a.to_owned();
    s.append(b);
    s.append(c);
    s
}

/// Four texts, one behind the other.
pub(crate) fn glue4(a: &str, b: &str, c: &str, d: &str) -> (r: String)
    ensures
        r@ == a@ + b@ + c@ + d@,
{
    let mut s = a.to_owned();
    s.append(b);
    s.append(c);
    s.append(d);
    s
}

/// The URL that a step means: absolute ones as they are, others below the
/// base URL.
pub open spec fn resolved_url(url: Seq<char>, base_url: Seq<char>) -> Seq<char> {
    if text::occurs_at(url, "http://"@, 0) || text::occurs_at(url, "https://"@, 0) {
        url
    } else if text::occurs_at(url, "/"@, 0) {
        text::without_trailing(base_url, '/') + url
    } else {
        text::without_trailing(base_url, '/') + "/"@ + url
    }
}

/// The URL that a step means.
pub fn resolve_url(url: &str, base_url: &str) -> (r: String)
    ensures
        r@ == resolved_url(url@, base_url@),
{
    if text::starts_with_text(url, "http://") || text::starts_with_text(url, "https://") {
        return url.to_owned();
    }
    let base = text::trim_trailing(base_url, '/');
    if text::starts_with_text(url, "/") {
        glue(base.as_str(), url)
    } else {
        glue3(base.as_str(), "/", url)
    }
}

/// The next move of a navigation.
pub open spec fn navigate_next(r: StepNext, full_url: Seq<char>, opened: Acted) -> bool {
    match opened {
        None => r.opens(full_url),
        Some(Ok(_)) => r.done(
            "[navigate] "@ + full_url,
            StepStatus::Passed,
            "navigated to "@ + full_url,
        ),
        Some(Err(e)) => r.done(
            "[navigate] "@ + full_url,
            StepStatus::Failed,
            "navigation failed: "@ + e@,
        ),
    }
}

/// Opens a page.
pub fn run_navigate_step(full_url: &str, opened: &Acted) -> (r: StepNext)
    ensures
        navigate_next(r, full_url@, *opened),
{
    let name = glue("[navigate] ", full_url);
    match opened {
        None => StepNext::Navigate { url: full_url.to_owned() },
        Some(Ok(_)) => {
            let message = glue("navigated to ", full_url);
            finished(name.as_str(), StepStatus::Passed, message.as_str())
        },
        Some(Err(e)) => {
            let message = glue("navigation failed: ", e.as_str());
            finished(name.as_str(), StepStatus::Failed, message.as_str())
        },
    }
}

/// The step is over because no selector was found for its target.
pub open spec fn without_target(
    r: StepNext,
    name: Seq<char>,
    idempotent: bool,
    reason: Seq<char>,
) -> bool {
    if idempotent {
        r.done(
            name,
            StepStatus::Skipped,
            "skipped (idempotent): no target found — "@ + reason,
        )
    } else {
        r.done(name, StepStatus::Failed, reason)
    }
}

/// The step is over because its element is not there.
pub open spec fn without_element(
    r: StepNext,
    name: Seq<char>,
    idempotent: bool,
    selector: Seq<char>,
    reason: Seq<char>,
) -> bool {
    if idempotent {
        r.done(
            name,
            StepStatus::Skipped,
            "skipped (idempotent): element "@ + selector + " not present — "@ + reason,
        )
    } else {
        r.done(
            name,
            StepStatus::Failed,
            "element "@ + selector + " not found: "@ + reason,
        )
    }
}

/// Ends a step for whose target no selector was found.
fn no_target(name: &str, idempotent: bool, reason: &str) -> (r: StepNext)
    ensures
        without_target(r, name@, idempotent, reason@),
{
    if idempotent {
        let message = glue("skipped (idempotent): no target found — ", reason);
        finished(name, StepStatus::Skipped, message.as_str())
    } else {
        finished(name, StepStatus::Failed, reason)
    }
}

/// Ends a step whose element is not there.
fn no_element(name: &str, idempotent: bool, selector: &str, reason: &str) -> (r: StepNext)
    ensures
        without_element(r, name@, idempotent, selector@, reason@),
{
    if idempotent {
        let message = glue4(
            "skipped (idempotent): element ",
            selector,
            " not present — ",
            reason,
        );
        finished(name, StepStatus::Skipped, message.as_str())
    } else {
        let message = glue4("element ", selector, " not found: ", reason);
        finished(name, StepStatus::Failed, message.as_str())
    }
}

/// How long a step looks for its element. Idempotent steps probe briefly: a
/// missing target means that the action was already done or does not apply,
/// and skipping is the success path.
pub open spec fn probe_ms(idempotent: bool) -> u64 {
    if idempotent {
        5000
    } else {
        10000
    }
}

/// How long a step looks for its element.
fn probe_time(idempotent: bool) -> (r: u64)
    ensures
        r == probe_ms(idempotent),
{
    if idempotent {
        5000
    } else {
        10000
    }
}

/// The next move of a click.
pub open spec fn click_next(
    r: StepNext,
    target: Seq<char>,
    idempotent: bool,
    resolved: Option<Result<String, String>>,
    found: Acted,
    clicked: Acted,
) -> bool {
    let name = "[click] "@ + target;
    match resolved {
        None => r is Resolve,
        Some(Err(reason)) => without_target(r, name, idempotent, reason@),
        Some(Ok(selector)) => match found {
            None => r.finds(selector@, probe_ms(idempotent)),
            Some(Err(e)) => without_element(r, name, idempotent, selector@, e@),
            Some(Ok(_)) => match clicked {
                None => r.clicks(selector@),
                Some(Ok(_)) => r.done(
                    name,
                    StepStatus::Passed,
                    "clicked "@ + selector@,
                ),
                Some(Err(e)) => r.done(
                    name,
                    StepStatus::Failed,
                    "click failed on "@ + selector@ + ": "@ + e@,
                ),
            },
        },
    }
}

/// Clicks an element. `resolved` is the selector that was found for the
/// target, or why there is none.
pub fn run_click(
    target: &str,
    idempotent: bool,
    resolved: &Option<Result<String, String>>,
    found: &Acted,
    clicked: &Acted,
) -> (r: StepNext)
    ensures
        click_next(r, target@, idempotent, *resolved, *found, *clicked),
{
    let name = glue("[click] ", target);
    let selector = match resolved {
        None => {
            return StepNext::Resolve;
        },
        Some(Err(reason)) => {
            return no_target(name.as_str(), idempotent, reason.as_str());
        },
        Some(Ok(s)) => s,
    };
    match found {
        None => {
            return StepNext::Find { selector: selector.clone(), timeout_ms: probe_time(idempotent) };
        },
        Some(Err(e)) => {
            return no_element(name.as_str(), idempotent, selector.as_str(), e.as_str());
        },
        Some(Ok(_)) => {},
    }
    match clicked {
        None => StepNext::Click { selector: selector.clone() },
        Some(Ok(_)) => {
            let message = glue("clicked ", selector.as_str());
            finished(name.as_str(), StepStatus::Passed, message.as_str())
        },
        Some(Err(e)) => {
            let message = glue4("click failed on ", selector.as_str(), ": ", e.as_str());
            finished(name.as_str(), StepStatus::Failed, message.as_str())
        },
    }
}

/// The script that empties an input element.
pub open spec fn clear_script(selector: Seq<char>) -> Seq<char> {
    "document.querySelector('"@ + text::replaced(selector, "'"@, "\\'"@) + "').value = '';"@
}

/// Types into an element.
fn typing(selector: &str, typed: &str) -> (r: StepNext)
    ensures
        r.types(selector@, typed@),
{
    let escaped = text::replace_text(selector, "'", "\\'");
    let script = glue3("document.querySelector('", escaped.as_str(), "').value = '';");
    StepNext::Type { selector: selector.to_owned(), script, text: typed.to_owned() }
}

/// The next move of typing into an element.
pub open spec fn type_next(
    r: StepNext,
    target: Seq<char>,
    typed: Seq<char>,
    idempotent: bool,
    resolved: Option<Result<String, String>>,
    found: Acted,
    focused: Acted,
    entered: Acted,
) -> bool {
    let name = "[type] "@ + target;
    match resolved {
        None => r is Resolve,
        Some(Err(reason)) => without_target(r, name, idempotent, reason@),
        Some(Ok(selector)) => match found {
            None => r.finds(selector@, probe_ms(idempotent)),
            Some(Err(e)) => without_element(r, name, idempotent, selector@, e@),
            Some(Ok(_)) => match focused {
                None => r.clicks(selector@),
                Some(Err(e)) => r.done(
                    name,
                    StepStatus::Failed,
                    "click to focus "@ + selector@ + " failed: "@ + e@,
                ),
                Some(Ok(_)) => match entered {
                    None => r.types(selector@, typed),
                    Some(Ok(_)) => r.done(
                        name,
                        StepStatus::Passed,
                        "typed "@ + text::quoted(typed) + " into "@ + selector@,
                    ),
                    Some(Err(e)) => r.done(
                        name,
                        StepStatus::Failed,
                        "type into "@ + selector@ + " failed: "@ + e@,
                    ),
                },
            },
        },
    }
}

/// Types a text into an element, which is clicked and emptied first.
pub fn run_type(
    target: &str,
    typed: &str,
    idempotent: bool,
    resolved: &Option<Result<String, String>>,
    found: &Acted,
    focused: &Acted,
    entered: &Acted,
) -> (r: StepNext)
    ensures
        type_next(r, target@, typed@, idempotent, *resolved, *found, *focused, *entered),
{
    let name = glue("[type] ", target);
    let selector = match resolved {
        None => {
            return StepNext::Resolve;
        },
        Some(Err(reason)) => {
            return no_target(name.as_str(), idempotent, reason.as_str());
        },
        Some(Ok(s)) => s,
    };
    match found {
        None => {
            return StepNext::Find { selector: selector.clone(), timeout_ms: probe_time(idempotent) };
        },
        Some(Err(e)) => {
            return no_element(name.as_str(), idempotent, selector.as_str(), e.as_str());
        },
        Some(Ok(_)) => {},
    }
    match focused {
        None => {
            return StepNext::Click { selector: selector.clone() };
        },
        Some(Err(e)) => {
            let message = glue4("click to focus ", selector.as_str(), " failed: ", e.as_str());
            return finished(name.as_str(), StepStatus::Failed, message.as_str());
        },
        Some(Ok(_)) => {},
    }
    match entered {
        None => typing(selector.as_str(), typed),
        Some(Ok(_)) => {
            let shown = text::quote(typed);
            let message = glue4("typed ", shown.as_str(), " into ", selector.as_str());
            finished(name.as_str(), StepStatus::Passed, message.as_str())
        },
        Some(Err(e)) => {
            let message = glue4("type into ", selector.as_str(), " failed: ", e.as_str());
            finished(name.as_str(), StepStatus::Failed, message.as_str())
        },
    }
}

/// What the last look at the page showed.
#[derive(Debug, Clone, Copy)]
pub struct Poll {
    /// Whether the element was there.
    pub selector_ok: bool,
    /// Whether the text was there.
    pub text_ok: bool,
    /// Milliseconds since the wait began.
    pub elapsed_ms: u64,
}

/// How long a wait lasts at most.
pub open spec fn wait_limit(timeout_ms: Option<u64>) -> u64 {
    match timeout_ms {
        Some(ms) => ms,
        None => 10000,
    }
}

/// The script that checks whether the page shows a text.
pub open spec fn text_script(wanted: Seq<char>) -> Seq<char> {
    "document.body ? document.body.innerText.includes('"@ + selectors::js_escaped(wanted)
        + "') : false"@
}

/// What a text wait found.
pub open spec fn seen_text(selector: Option<Seq<char>>, wanted: Seq<char>) -> Seq<char> {
    match selector {
        Some(s) => "found "@ + s + " and "@ + "text "@ + text::quoted(wanted) + " visible"@,
        None => "text "@ + text::quoted(wanted) + " visible"@,
    }
}

/// What a text wait waits for.
pub open spec fn awaited(selector: Option<Seq<char>>, wanted: Seq<char>) -> Seq<char> {
    match selector {
        Some(s) => s + " / "@ + "text "@ + text::quoted(wanted),
        None => "text "@ + text::quoted(wanted),
    }
}

/// What is said of a text wait that ran out of time.
pub open spec fn text_timeout(selector: Option<Seq<char>>, wanted: Seq<char>, limit: u64) -> Seq<char> {
    "wait for "@ + awaited(selector, wanted) + " timed out after "@ + text::dec(limit as nat)
        + "ms: the event waited for never came"@
}

/// A wait for text, and for an element where a selector is given, looks at
/// the page every quarter of a second until both are there or the time is up.
pub open spec fn waits_for_text(
    r: StepNext,
    name: Seq<char>,
    selector: Option<Seq<char>>,
    wanted: Seq<char>,
    limit: u64,
    idempotent: bool,
    poll: Option<Poll>,
) -> bool {
    if poll is Some && (selector is None || (poll->0).selector_ok) && (poll->0).text_ok {
        r.done(name, StepStatus::Passed, seen_text(selector, wanted))
    } else if poll is Some && (poll->0).elapsed_ms >= limit {
        if idempotent {
            r.done(
                name,
                StepStatus::Skipped,
                "skipped (idempotent): "@ + text_timeout(selector, wanted, limit),
            )
        } else {
            r.done(name, StepStatus::Failed, text_timeout(selector, wanted, limit))
        }
    } else {
        r matches StepNext::Poll { wait_ms, selector_js, text_js } && {
            &&& wait_ms == if poll is Some {
                250u64
            } else {
                0u64
            }
            &&& match selector_js {
                Some(js) => selector is Some && js@ == selectors::matches_js(selector->0),
                None => selector is None,
            }
            &&& text_js@ == text_script(wanted)
        }
    }
}

/// A wait for an element.
pub open spec fn waits_for_element(
    r: StepNext,
    name: Seq<char>,
    selector: Seq<char>,
    limit: u64,
    idempotent: bool,
    found: Acted,
) -> bool {
    match found {
        None => r.finds(selector, limit),
        Some(Ok(_)) => r.done(name, StepStatus::Passed, "found "@ + selector),
        Some(Err(e)) => {
            let message = "wait for "@ + selector + " timed out after "@ + text::dec(limit as nat)
                + "ms: "@ + e@;
            if idempotent {
                r.done(name, StepStatus::Skipped, "skipped (idempotent): "@ + message)
            } else {
                r.done(name, StepStatus::Failed, message)
            }
        },
    }
}

/// The next move of a wait for text.
fn wait_for_text(
    name: &str,
    selector: Option<&str>,
    wanted: &str,
    limit: u64,
    idempotent: bool,
    poll: &Option<Poll>,
) -> (r: StepNext)
    ensures
        waits_for_text(
            r,
            name@,
            match selector {
                Some(s) => Some(s@),
                None => None,
            },
            wanted@,
            limit,
            idempotent,
            *poll,
        ),
{
    let quoted = text::quote(wanted);
    let text_what = glue("text ", quoted.as_str());
    if let Some(p) = poll {
        if (selector.is_none() || p.selector_ok) && p.text_ok {
            let message = match selector {
                Some(s) => {
                    let mut m = glue3("found ", s, " and ");
                    m.append("text ");
                    m.append(quoted.as_str());
                    m.append(" visible");
                    m
                },
                None => glue(text_what.as_str(), " visible"),
            };
            return finished(name, StepStatus::Passed, message.as_str());
        }
        if p.elapsed_ms >= limit {
            let what = match selector {
                Some(s) => glue4(s, " / ", "text ", quoted.as_str()),
                None => text_what,
            };
            let mut message = glue3("wait for ", what.as_str(), " timed out after ");
            message.append(text::decimal(limit as u128).as_str());
            message.append("ms: the event waited for never came");
            if idempotent {
                let skipped = glue("skipped (idempotent): ", message.as_str());
                return finished(name, StepStatus::Skipped, skipped.as_str());
            }
            return finished(name, StepStatus::Failed, message.as_str());
        }
    }
    let selector_js = match selector {
        Some(s) => Some(selectors::selector_matches_js(s)),
        None => None,
    };
    let escaped = selectors::escape_js(wanted);
    let text_js = glue3(
        "document.body ? document.body.innerText.includes('",
        escaped.as_str(),
        "') : false",
    );
    let wait_ms: u64 = if poll.is_some() {
        250
    } else {
        0
    };
    StepNext::Poll { wait_ms, selector_js, text_js }
}

/// The next move of a wait for an element.
fn wait_for_element(name: &str, selector: &str, limit: u64, idempotent: bool, found: &Acted) -> (r:
    StepNext)
    ensures
        waits_for_element(r, name@, selector@, limit, idempotent, *found),
{
    match found {
        None => StepNext::Find { selector: selector.to_owned(), timeout_ms: limit },
        Some(Ok(_)) => {
            let message = glue("found ", selector);
            finished(name, StepStatus::Passed, message.as_str())
        },
        Some(Err(e)) => {
            let mut message = glue3("wait for ", selector, " timed out after ");
            message.append(text::decimal(limit as u128).as_str());
            message.append("ms: ");
            message.append(e.as_str());
            if idempotent {
                let skipped = glue("skipped (idempotent): ", message.as_str());
                finished(name, StepStatus::Skipped, skipped.as_str())
            } else {
                finished(name, StepStatus::Failed, message.as_str())
            }
        },
    }
}

/// The next move of a wait.
pub open spec fn wait_next(
    r: StepNext,
    target: Seq<char>,
    selector: Option<Seq<char>>,
    wanted: Option<Seq<char>>,
    timeout_ms: Option<u64>,
    idempotent: bool,
    resolved: Option<Result<String, String>>,
    found: Acted,
    poll: Option<Poll>,
) -> bool {
    let name = "[wait] "@ + target;
    let limit = wait_limit(timeout_ms);
    match (wanted, selector) {
        (Some(t), _) => waits_for_text(r, name, selector, t, limit, idempotent, poll),
        (None, Some(s)) => waits_for_element(r, name, s, limit, idempotent, found),
        (None, None) => match resolved {
            None => r is Resolve,
            Some(Err(reason)) => without_target(r, name, idempotent, reason@),
            Some(Ok(s)) => waits_for_element(r, name, s@, limit, idempotent, found),
        },
    }
}

/// Waits for an element, for a text, or for both. A wait for text needs no
/// selector and no LLM; a wait for neither an explicit selector nor a text
/// has its selector found first.
pub fn run_wait(
    target: &str,
    selector: Option<&str>,
    wanted: Option<&str>,
    timeout_ms: Option<u64>,
    idempotent: bool,
    resolved: &Option<Result<String, String>>,
    found: &Acted,
    poll: &Option<Poll>,
) -> (r: StepNext)
    ensures
        wait_next(
            r,
            target@,
            llm::option_view(selector),
            llm::option_view(wanted),
            timeout_ms,
            idempotent,
            *resolved,
            *found,
            *poll,
        ),
{
    let name = glue("[wait] ", target);
    let limit: u64 = match timeout_ms {
        Some(ms) => ms,
        None => 10000,
    };
    if let Some(t) = wanted {
        return wait_for_text(name.as_str(), selector, t, limit, idempotent, poll);
    }
    if let Some(s) = selector {
        return wait_for_element(name.as_str(), s, limit, idempotent, found);
    }
    match resolved {
        None => StepNext::Resolve,
        Some(Err(reason)) => no_target(name.as_str(), idempotent, reason.as_str()),
        Some(Ok(s)) => wait_for_element(name.as_str(), s.as_str(), limit, idempotent, found),
    }
}

/// What became of a screenshot.
pub enum Saved {
    /// It was written.
    Written,
    /// The browser took none, and said why.
    NotTaken(String),
    /// It could not be written, and why.
    NotWritten(String),
}

/// The next move of a screenshot.
pub open spec fn screenshot_next(r: StepNext, path: Option<Seq<char>>, saved: Option<Saved>) -> bool {
    let file = match path {
        Some(p) => p,
        None => "screenshot.png"@,
    };
    let name = "[screenshot] "@ + file;
    match saved {
        None => r matches StepNext::Save { path: p } && p@ == file,
        Some(Saved::Written) => r.done(name, StepStatus::Passed, "saved to "@ + file),
        Some(Saved::NotTaken(e)) => r.done(
            name,
            StepStatus::Failed,
            "screenshot failed: "@ + e@,
        ),
        Some(Saved::NotWritten(e)) => r.done(
            name,
            StepStatus::Failed,
            "failed to write screenshot: "@ + e@,
        ),
    }
}

/// Saves a picture of the page.
pub fn run_screenshot(path: Option<&str>, saved: &Option<Saved>) -> (r: StepNext)
    ensures
        screenshot_next(r, llm::option_view(path), *saved),
{
    let file = match path {
        Some(p) => p,
        None => "screenshot.png",
    };
    let name = glue("[screenshot] ", file);
    match saved {
        None => StepNext::Save { path: file.to_owned() },
        Some(Saved::Written) => {
            let message = glue("saved to ", file);
            finished(name.as_str(), StepStatus::Passed, message.as_str())
        },
        Some(Saved::NotTaken(e)) => {
            let message = glue("screenshot failed: ", e.as_str());
            finished(name.as_str(), StepStatus::Failed, message.as_str())
        },
        Some(Saved::NotWritten(e)) => {
            let message = glue("failed to write screenshot: ", e.as_str());
            finished(name.as_str(), StepStatus::Failed, message.as_str())
        },
    }
}

/// The page of the login form.
pub const LOGIN_URL: &'static str = "/auth/login";

/// The field for the account.
pub const EMAIL_FIELD: &'static str = "#email";

/// The field for the password.
pub const PASSWORD_FIELD: &'static str = "#password";

/// The token of the bot protection, once it is there.
pub const BOT_TOKEN: &'static str =
    "input[name=\"cf-turnstile-response\"][value]:not([value=\"\"])";

/// The button that sends the form.
pub const LOGIN_BUTTON: &'static str = "button.btn--landing.btn--primary";

/// The page of an authenticated user.
pub const ACCOUNT_SHELL: &'static str = "app-account-shell";

/// The number of actions of a login.
pub const LOGIN_ACTIONS: usize = 7;

/// The actions of a login, in order: open the page, look for the form, fill
/// it in, wait for the token of the bot protection, send it, and wait for
/// the page of an authenticated user.
pub open spec fn login_action(
    r: StepNext,
    i: int,
    url: Seq<char>,
    email: Seq<char>,
    password: Seq<char>,
) -> bool {
    if i == 0 {
        r.opens(url)
    } else if i == 1 {
        r.finds(EMAIL_FIELD@, 5000)
    } else if i == 2 {
        r.types(EMAIL_FIELD@, email)
    } else if i == 3 {
        r.types(PASSWORD_FIELD@, password)
    } else if i == 4 {
        r.finds(BOT_TOKEN@, 30000)
    } else if i == 5 {
        r.clicks(LOGIN_BUTTON@)
    } else {
        r.finds(ACCOUNT_SHELL@, 30000)
    }
}

/// What is said of a login action that failed.
pub open spec fn login_failure(i: int, e: Seq<char>) -> Seq<char> {
    if i == 0 {
        "navigation failed: "@ + e
    } else if i == 2 {
        "type into "@ + EMAIL_FIELD@ + " failed: "@ + e
    } else if i == 3 {
        "type into "@ + PASSWORD_FIELD@ + " failed: "@ + e
    } else if i == 4 {
        "wait for "@ + BOT_TOKEN@ + " timed out after 30000ms: "@ + e
    } else if i == 5 {
        "click failed on "@ + LOGIN_BUTTON@ + ": "@ + e
    } else {
        "wait for "@ + ACCOUNT_SHELL@ + " timed out after 30000ms: "@ + e
    }
}

/// The next move of a login.
pub open spec fn login_next(
    r: StepNext,
    full_url: Seq<char>,
    email: Seq<char>,
    password: Seq<char>,
    outcomes: Seq<Result<(), String>>,
) -> bool {
    let name = "[login] "@ + full_url;
    let n = outcomes.len();
    if n > 0 && outcomes[n - 1] is Err {
        if n == 2 {
            r.done(name, StepStatus::Passed, "already authenticated"@)
        } else {
            r.done(
                name,
                StepStatus::Failed,
                login_failure(n - 1, outcomes[n - 1]->Err_0@),
            )
        }
    } else if n < LOGIN_ACTIONS {
        login_action(r, n as int, full_url, email, password)
    } else {
        r.done(name, StepStatus::Passed, "logged in as "@ + email)
    }
}

/// Logs in where there is a login form, and passes silently where there is
/// none. `outcomes` are those of the actions so far.
pub fn run_login(
    full_url: &str,
    email: &str,
    password: &str,
    outcomes: &Vec<Result<(), String>>,
) -> (r: StepNext)
    requires
        outcomes@.len() <= LOGIN_ACTIONS,
    ensures
        login_next(r, full_url@, email@, password@, outcomes@),
{
    let name = glue("[login] ", full_url);
    let n: usize = outcomes.len();
    if n > 0 {
        if let Err(e) = &outcomes[n - 1] {
            if n == 2 {
                return finished(name.as_str(), StepStatus::Passed, "already authenticated");
            }
            let message = match n {
                1 => glue("navigation failed: ", e.as_str()),
                3 => glue4("type into ", EMAIL_FIELD, " failed: ", e.as_str()),
                4 => glue4("type into ", PASSWORD_FIELD, " failed: ", e.as_str()),
                5 => glue4("wait for ", BOT_TOKEN, " timed out after 30000ms: ", e.as_str()),
                6 => glue4("click failed on ", LOGIN_BUTTON, ": ", e.as_str()),
                _ => glue4("wait for ", ACCOUNT_SHELL, " timed out after 30000ms: ", e.as_str()),
            };
            return finished(name.as_str(), StepStatus::Failed, message.as_str());
        }
    }
    match n {
        0 => StepNext::Navigate { url: full_url.to_owned() },
        1 => StepNext::Find { selector: EMAIL_FIELD.to_owned(), timeout_ms: 5000 },
        2 => typing(EMAIL_FIELD, email),
        3 => typing(PASSWORD_FIELD, password),
        4 => StepNext::Find { selector: BOT_TOKEN.to_owned(), timeout_ms: 30000 },
        5 => StepNext::Click { selector: LOGIN_BUTTON.to_owned() },
        6 => StepNext::Find { selector: ACCOUNT_SHELL.to_owned(), timeout_ms: 30000 },
        _ => {
            let message = glue("logged in as ", email);
            finished(name.as_str(), StepStatus::Passed, message.as_str())
        },
    }
}

/// An idempotent step never fails for want of its target or its element.
pub proof fn law_idempotent_steps_skip(r: StepNext, name: Seq<char>, selector: Seq<char>, e: Seq<char>)
    ensures
        without_target(r, name, true, e) ==> (r matches StepNext::Done(x) && x.status
            == StepStatus::Skipped),
        without_element(r, name, true, selector, e) ==> (r matches StepNext::Done(x) && x.status
            == StepStatus::Skipped),
{
}

/// A navigation opens its URL, and passes if and only if that succeeded.
pub proof fn law_navigation_follows_its_outcome(r: StepNext, full_url: Seq<char>, opened: Acted)
    requires
        navigate_next(r, full_url, opened),
    ensures
        opened is None ==> (r matches StepNext::Navigate { url } && url@ == full_url),
        opened is Some ==> (r matches StepNext::Done(x) && (x.status == StepStatus::Passed <==>
            opened->0 is Ok) && (x.status == StepStatus::Failed <==> opened->0 is Err)),
{
}

/// A relative URL is put behind its base with one slash between them, however
/// many the base ends with; an absolute one is taken as it is.
pub proof fn law_urls_are_put_behind_their_base(url: Seq<char>, base: Seq<char>)
    ensures
        text::occurs_at(url, "http://"@, 0) || text::occurs_at(url, "https://"@, 0)
            ==> resolved_url(url, base) == url,
        resolved_url(url, base + seq!['/']) == resolved_url(url, base),
        !text::occurs_at(url, "http://"@, 0) && !text::occurs_at(url, "https://"@, 0) && (base.len()
            == 0 || base.last() != '/') ==> resolved_url(url, base) == if url.len() > 0 && url[0]
            == '/' {
            base + url
        } else {
            base + seq!['/'] + url
        },
{
    reveal_strlit("/");
    assert("/"@ =~= seq!['/']);
    assert((base + seq!['/']).drop_last() =~= base);
    if url.len() > 0 {
        assert(url.subrange(0, 1) =~= seq![url[0]]);
        assert(seq![url[0]][0] == url[0] && seq!['/'][0] == '/');
    }
}

/// A click passes if and only if its target was resolved, found and clicked.
/// It clicks the element that was resolved, and not before it was found. Where
/// the element is not there an idempotent step is skipped, another one fails;
/// a click that goes wrong always fails.
pub proof fn law_clicks_follow_their_outcomes(
    r: StepNext,
    target: Seq<char>,
    idempotent: bool,
    resolved: Option<Result<String, String>>,
    found: Acted,
    clicked: Acted,
)
    requires
        click_next(r, target, idempotent, resolved, found, clicked),
    ensures
        resolved is None ==> r is Resolve,
        resolved is Some && resolved->0 is Ok && found is None ==> (r matches StepNext::Find {
            selector,
            timeout_ms,
        } && selector@ == resolved->0->Ok_0@ && timeout_ms == if idempotent {
            5000u64
        } else {
            10000u64
        }),
        resolved is Some && resolved->0 is Ok && (found is Some && found->0 is Ok) && clicked is None ==> (
        r matches StepNext::Click { selector } && selector@ == resolved->0->Ok_0@),
        r is Click ==> (resolved is Some && resolved->0 is Ok) && (found is Some && found->0 is Ok) && clicked is None,
        r matches StepNext::Done(x) ==> {
            &&& x.status == StepStatus::Passed <==> ((resolved is Some && resolved->0 is Ok) && (found is Some && found->0 is Ok) && (clicked is Some && clicked->0 is Ok))
            &&& x.status == StepStatus::Skipped <==> idempotent && ((resolved is Some && resolved->0 is Err)
                || (resolved is Some && resolved->0 is Ok) && (found is Some && found->0 is Err))
        },
        !(r is Type) && !(r is Navigate) && !(r is Poll) && !(r is Save),
{
}

/// Typing passes if and only if the target was resolved, found, focused and
/// filled in. The text that is typed is the one of the step, into the element
/// that was resolved.
pub proof fn law_typing_follows_its_outcomes(
    r: StepNext,
    target: Seq<char>,
    typed: Seq<char>,
    idempotent: bool,
    resolved: Option<Result<String, String>>,
    found: Acted,
    focused: Acted,
    entered: Acted,
)
    requires
        type_next(r, target, typed, idempotent, resolved, found, focused, entered),
    ensures
        resolved is None ==> r is Resolve,
        resolved is Some && resolved->0 is Ok && found is None ==> (r matches StepNext::Find { selector, .. }
            && selector@ == resolved->0->Ok_0@),
        resolved is Some && resolved->0 is Ok && (found is Some && found->0 is Ok) && focused is None ==> (
        r matches StepNext::Click { selector } && selector@ == resolved->0->Ok_0@),
        resolved is Some && resolved->0 is Ok && (found is Some && found->0 is Ok) && (focused is Some && focused->0 is Ok)
            && entered is None ==> (r matches StepNext::Type { selector, text, .. } && selector@
            == resolved->0->Ok_0@ && text@ == typed),
        r matches StepNext::Done(x) ==> {
            &&& x.status == StepStatus::Passed <==> ((resolved is Some && resolved->0 is Ok) && (found is Some && found->0 is Ok) && (focused is Some && focused->0 is Ok) && (entered is Some && entered->0 is Ok))
            &&& x.status == StepStatus::Skipped <==> idempotent && ((resolved is Some && resolved->0 is Err)
                || (resolved is Some && resolved->0 is Ok) && (found is Some && found->0 is Err))
        },
{
}

/// A wait for text passes if and only if the text is there and, where a
/// selector is given, the element too. It goes on looking until then or until
/// its time is up, ten seconds where it sets none; then it fails, or is
/// skipped where it is idempotent. It never asks for a selector.
pub proof fn law_text_waits_need_all_they_wait_for(
    r: StepNext,
    target: Seq<char>,
    selector: Option<Seq<char>>,
    wanted: Seq<char>,
    timeout_ms: Option<u64>,
    idempotent: bool,
    resolved: Option<Result<String, String>>,
    found: Acted,
    poll: Option<Poll>,
)
    requires
        wait_next(
            r,
            target,
            selector,
            Some(wanted),
            timeout_ms,
            idempotent,
            resolved,
            found,
            poll,
        ),
    ensures
        ({
            let limit = if timeout_ms is Some {
                timeout_ms->0
            } else {
                10000u64
            };
            let there = poll is Some && poll->0.text_ok && (selector is None
                || poll->0.selector_ok);
            let over = poll is Some && poll->0.elapsed_ms >= limit;
            &&& there ==> (r matches StepNext::Done(x) && x.status == StepStatus::Passed)
            &&& !there && over ==> (r matches StepNext::Done(x) && x.status == if idempotent {
                StepStatus::Skipped
            } else {
                StepStatus::Failed
            })
            &&& !there && !over ==> r is Poll
            &&& r matches StepNext::Poll { selector_js, .. } ==> (selector_js is Some
                <==> selector is Some)
        }),
{
}

/// A wait for an element passes if and only if the element was found within
/// its time, ten seconds where it sets none.
pub proof fn law_element_waits_find_their_element(
    r: StepNext,
    target: Seq<char>,
    selector: Option<Seq<char>>,
    timeout_ms: Option<u64>,
    idempotent: bool,
    resolved: Option<Result<String, String>>,
    found: Acted,
    poll: Option<Poll>,
)
    requires
        wait_next(
            r,
            target,
            selector,
            None,
            timeout_ms,
            idempotent,
            resolved,
            found,
            poll,
        ),
    ensures
        ({
            let limit = if timeout_ms is Some {
                timeout_ms->0
            } else {
                10000u64
            };
            &&& r is Resolve <==> selector is None && resolved is None
            &&& selector is Some && found is None ==> (r matches StepNext::Find {
                selector: q,
                timeout_ms: t,
            } && q@ == selector->0 && t == limit)
            &&& selector is None && (resolved is Some && resolved->0 is Ok) && found is None ==> (
            r matches StepNext::Find { selector: q, timeout_ms: t } && q@ == resolved->0->Ok_0@
                && t == limit)
            &&& r matches StepNext::Done(x) ==> {
                let known = selector is Some || (resolved is Some && resolved->0 is Ok);
                &&& x.status == StepStatus::Passed <==> known && (found is Some && found->0 is Ok)
                &&& x.status == StepStatus::Skipped <==> idempotent && !(known
                    && (found is Some && found->0 is Ok))
            }
        }),
{
}

/// A screenshot passes if and only if it was written, to the path of the step
/// or else to `screenshot.png`.
pub proof fn law_screenshots_pass_when_written(
    r: StepNext,
    path: Option<Seq<char>>,
    saved: Option<Saved>,
)
    requires
        screenshot_next(r, path, saved),
    ensures
        saved is None ==> (r matches StepNext::Save { path: p } && p@ == if path is Some {
            path->0
        } else {
            "screenshot.png"@
        }),
        saved is Some ==> (r matches StepNext::Done(x) && (x.status == StepStatus::Passed <==>
            saved->0 is Written) && (x.status == StepStatus::Failed <==> !(saved->0 is Written))),
{
}

/// A login opens its page first, types the email and then the password into
/// their fields, and passes once all its actions succeeded, or where there is
/// no form to fill in; any other action that goes wrong fails it.
pub proof fn law_logins_fill_in_the_form(
    r: StepNext,
    full_url: Seq<char>,
    email: Seq<char>,
    password: Seq<char>,
    outcomes: Seq<Result<(), String>>,
)
    requires
        login_next(r, full_url, email, password, outcomes),
        forall|k: int| 0 <= k < outcomes.len() - 1 ==> (#[trigger] outcomes[k]) is Ok,
        outcomes.len() <= 7,
    ensures
        ({
            let n = outcomes.len();
            let good = n == 0 || outcomes[n - 1] is Ok;
            &&& n == 0 ==> (r matches StepNext::Navigate { url } && url@ == full_url)
            &&& n == 2 && good ==> (r matches StepNext::Type { selector, text, .. } && selector@
                == "#email"@ && text@ == email)
            &&& n == 3 && good ==> (r matches StepNext::Type { selector, text, .. } && selector@
                == "#password"@ && text@ == password)
            &&& n == 5 && good ==> r is Click
            &&& good && n < 7 ==> !(r is Done)
            &&& good && n == 7 ==> (r matches StepNext::Done(x) && x.status == StepStatus::Passed)
            &&& !good && n == 2 ==> (r matches StepNext::Done(x) && x.status == StepStatus::Passed)
            &&& !good && n != 2 ==> (r matches StepNext::Done(x) && x.status == StepStatus::Failed)
        }),
{
}

/// A step that did not pass says why: what the browser or the search said is in
/// its message, and the element that it was about.
pub proof fn law_steps_tell_the_reason(
    r: StepNext,
    target: Seq<char>,
    idempotent: bool,
    resolved: Option<Result<String, String>>,
    found: Acted,
    clicked: Acted,
)
    requires
        click_next(r, target, idempotent, resolved, found, clicked),
    ensures
        r matches StepNext::Done(x) ==> text::has_text(x.name@, target),
        resolved is Some && resolved->0 is Err ==> text::has_text(
            (r->Done_0).message@,
            resolved->0->Err_0@,
        ),
        resolved is Some && resolved->0 is Ok && found is Some && found->0 is Err
            ==> text::has_text((r->Done_0).message@, found->0->Err_0@) && text::has_text(
            (r->Done_0).message@,
            resolved->0->Ok_0@,
        ),
        resolved is Some && resolved->0 is Ok && found is Some && found->0 is Ok && clicked is Some
            && clicked->0 is Err ==> text::has_text((r->Done_0).message@, clicked->0->Err_0@)
            && text::has_text((r->Done_0).message@, resolved->0->Ok_0@),
{
    let none = Seq::<char>::empty();
    text::lemma_middle("[click] "@, target, none);
    assert("[click] "@ + target + none =~= "[click] "@ + target);
    match resolved {
        Some(Err(reason)) => {
            text::lemma_middle(none, reason@, none);
            assert(none + reason@ + none =~= reason@);
            let lead = "skipped (idempotent): no target found — "@;
            text::lemma_middle(lead, reason@, none);
            assert(lead + reason@ + none =~= lead + reason@);
        },
        Some(Ok(selector)) => {
            match found {
                Some(Err(e)) => {
                    lemma_two_parts(
                        "skipped (idempotent): element "@,
                        selector@,
                        " not present — "@,
                        e@,
                    );
                    lemma_two_parts("element "@, selector@, " not found: "@, e@);
                },
                _ => {},
            }
            match clicked {
                Some(Err(e)) => {
                    lemma_two_parts("click failed on "@, selector@, ": "@, e@);
                },
                _ => {},
            }
        },
        None => {},
    }
}

/// Both parts of a message stand in it.
proof fn lemma_two_parts(a: Seq<char>, s: Seq<char>, b: Seq<char>, e: Seq<char>)
    ensures
        text::has_text(a + s + b + e, s),
        text::has_text(a + s + b + e, e),
{
    text::lemma_middle(a, s, b + e);
    assert(a + s + (b + e) =~= a + s + b + e);
    text::lemma_middle(a + s + b, e, Seq::empty());
    assert(a + s + b + e + Seq::<char>::empty() =~= a + s + b + e);
}

/// A login looks for its form briefly and for what follows it longer, and says
/// what went wrong where it fails.
pub proof fn law_logins_wait_for_what_they_need(
    r: StepNext,
    full_url: Seq<char>,
    email: Seq<char>,
    password: Seq<char>,
    outcomes: Seq<Result<(), String>>,
)
    requires
        login_next(r, full_url, email, password, outcomes),
        outcomes.len() <= 7,
    ensures
        ({
            let n = outcomes.len();
            let good = n == 0 || outcomes[n - 1] is Ok;
            &&& good && n == 1 ==> (r matches StepNext::Find { selector, timeout_ms } && selector@
                == "#email"@ && timeout_ms == 5000)
            &&& good && n == 4 ==> (r matches StepNext::Find { timeout_ms, .. } && timeout_ms
                == 30000)
            &&& good && n == 6 ==> (r matches StepNext::Find { timeout_ms, .. } && timeout_ms
                == 30000)
            &&& !good && n != 2 ==> text::has_text(
                (r->Done_0).message@,
                outcomes[n - 1]->Err_0@,
            )
        }),
{
    let n = outcomes.len();
    if n > 0 && outcomes[n - 1] is Err {
        let e = outcomes[n - 1]->Err_0@;
        text::lemma_middle("navigation failed: "@, e, Seq::empty());
        assert("navigation failed: "@ + e + Seq::<char>::empty() =~= "navigation failed: "@ + e);
        lemma_two_parts("type into "@, EMAIL_FIELD@, " failed: "@, e);
        lemma_two_parts("type into "@, PASSWORD_FIELD@, " failed: "@, e);
        lemma_two_parts("wait for "@, BOT_TOKEN@, " timed out after 30000ms: "@, e);
        lemma_two_parts("click failed on "@, LOGIN_BUTTON@, ": "@, e);
        lemma_two_parts("wait for "@, ACCOUNT_SHELL@, " timed out after 30000ms: "@, e);
    }
}

/// The first look of a wait for text is at once, each further one after a
/// quarter of a second, and it looks for the text and the element of the step.
pub proof fn law_waits_look_again_after_a_pause(
    r: StepNext,
    target: Seq<char>,
    selector: Option<Seq<char>>,
    wanted: Seq<char>,
    timeout_ms: Option<u64>,
    idempotent: bool,
    resolved: Option<Result<String, String>>,
    found: Acted,
    poll: Option<Poll>,
)
    requires
        wait_next(
            r,
            target,
            selector,
            Some(wanted),
            timeout_ms,
            idempotent,
            resolved,
            found,
            poll,
        ),
    ensures
        r matches StepNext::Poll { wait_ms, selector_js, text_js } ==> {
            &&& poll is None ==> wait_ms == 0
            &&& poll is Some ==> wait_ms == 250
            &&& selector is Some ==> selector_js is Some && selector_js->0@
                == selectors::matches_js(selector->0)
            &&& text_js@ == text_script(wanted)
        },
        poll is None ==> r is Poll,
{
}

/// A failed navigation or screenshot says what went wrong.
pub proof fn law_browser_failures_are_told(
    r: StepNext,
    full_url: Seq<char>,
    opened: Acted,
    s: StepNext,
    path: Option<Seq<char>>,
    saved: Option<Saved>,
)
    requires
        navigate_next(r, full_url, opened),
        screenshot_next(s, path, saved),
    ensures
        opened is Some && opened->0 is Err ==> text::has_text(
            (r->Done_0).message@,
            opened->0->Err_0@,
        ),
        opened is Some ==> text::has_text((r->Done_0).name@, full_url),
        saved matches Some(Saved::NotTaken(e)) ==> text::has_text((s->Done_0).message@, e@),
        saved matches Some(Saved::NotWritten(e)) ==> text::has_text((s->Done_0).message@, e@),
{
    let none = Seq::<char>::empty();
    text::lemma_middle("[navigate] "@, full_url, none);
    assert("[navigate] "@ + full_url + none =~= "[navigate] "@ + full_url);
    if let Some(Err(e)) = opened {
        text::lemma_middle("navigation failed: "@, e@, none);
        assert("navigation failed: "@ + e@ + none =~= "navigation failed: "@ + e@);
    }
    match saved {
        Some(Saved::NotTaken(e)) => {
            text::lemma_middle("screenshot failed: "@, e@, none);
            assert("screenshot failed: "@ + e@ + none =~= "screenshot failed: "@ + e@);
        },
        Some(Saved::NotWritten(e)) => {
            text::lemma_middle("failed to write screenshot: "@, e@, none);
            assert("failed to write screenshot: "@ + e@ + none
                =~= "failed to write screenshot: "@ + e@);
        },
        _ => {},
    }
}

/// A login that cannot type says into which field.
pub proof fn law_logins_name_the_field(
    r: StepNext,
    full_url: Seq<char>,
    email: Seq<char>,
    password: Seq<char>,
    outcomes: Seq<Result<(), String>>,
)
    requires
        login_next(r, full_url, email, password, outcomes),
        outcomes.len() > 0,
        outcomes.last() is Err,
    ensures
        outcomes.len() == 3 ==> text::has_text((r->Done_0).message@, "#email"@),
        outcomes.len() == 4 ==> text::has_text((r->Done_0).message@, "#password"@),
        text::has_text((r->Done_0).name@, full_url),
{
    let e = outcomes.last()->Err_0@;
    lemma_two_parts("type into "@, "#email"@, " failed: "@, e);
    lemma_two_parts("type into "@, "#password"@, " failed: "@, e);
    text::lemma_middle("[login] "@, full_url, Seq::empty());
    assert("[login] "@ + full_url + Seq::<char>::empty() =~= "[login] "@ + full_url);
}

} // verus!
