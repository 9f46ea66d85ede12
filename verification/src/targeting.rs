//! Finding the element that a step means.
//!
//! Uses the explicit selector if there is one, otherwise asks the LLM to find
//! the element from the natural language description and the page DOM.
//!
//! LLM responses are sanitized and verified against the live page: a response
//! that is not a selector (empty, `:not(*)`, `null`, …) fails immediately with
//! the raw LLM output, and a selector that matches nothing triggers one retry
//! with feedback before failing.
use vstd::prelude::*;
use vstd::string::StringExecFns;
use crate::json;
use crate::llm;
use crate::selectors;
use crate::text;

verus! {

/// JavaScript to extract interactive elements from the current page.
/// Returns a JSON array of strings with tag, selector, and label.
pub const DOM_EXTRACT_JS: &'static str = "
(() => {
  const interactive = 'a, button, input, textarea, select, [role=\"button\"], [onclick], [tabindex], [data-testid], [aria-label]';
  const els = document.querySelectorAll(interactive);
  const info = [];
  const seen = new Set();
  els.forEach((el, i) => {
    const rect = el.getBoundingClientRect();
    if (rect.width === 0 || rect.height === 0) return;
    const tag = el.tagName.toLowerCase();
    let selector = '';
    if (el.id) selector = '#' + CSS.escape(el.id);
    else if (el.getAttribute('data-testid')) selector = '[data-testid=\"' + el.getAttribute('data-testid') + '\"]';
    else if (el.name) selector = '[name=\"' + CSS.escape(el.name) + '\"]';
    else if (el.className && typeof el.className === 'string') {
      const cls = el.className.trim().split(/\\\\s+/)[0];
      if (cls) selector = tag + '.' + CSS.escape(cls);
    }
    if (!selector) selector = tag;
    if (seen.has(selector)) return;
    seen.add(selector);

    let label = '';
    const aria = el.getAttribute('aria-label');
    if (aria) {
      label = aria;
    } else if (tag === 'input' || tag === 'textarea' || tag === 'select') {
      label = el.placeholder || el.name || el.getAttribute('aria-label') || '';
      if (el.type && !label) label = el.type;
    } else {
      label = (el.textContent || '').trim().substring(0, 80);
    }

    info.push(i + ': ' + selector + ' [' + tag + '] \"' + label + '\"');
  });
  return JSON.stringify(info);
})()
";

/// The script that reads the title of a page.
pub const TITLE_JS: &'static str = "document.title";

/// The script that reads the visible text of a page.
pub const BODY_TEXT_JS: &'static str =
    "document.body ? document.body.innerText : document.documentElement.innerText";

/// How many bytes of the visible text are kept.
pub const BODY_TEXT_LEN: usize = 8000;

/// What a page shows.
pub struct PageContent {
    /// Current URL.
    pub url: String,
    /// Title.
    pub title: String,
    /// Visible text (truncated).
    pub body_text: String,
}

/// The page content from what the page answered. What it did not answer is
/// left at a default. The text is cut after [`BODY_TEXT_LEN`] bytes, which
/// must be where a character ends.
pub fn page_content(url: String, title: Option<String>, body_text: Option<String>) -> (r: PageContent)
    requires
        body_text matches Some(t) ==> text::can_cut(t@, BODY_TEXT_LEN as nat),
    ensures
        r.url == url,
        r.title@ == match title {
            Some(t) => t@,
            None => "unknown"@,
        },
        r.body_text@ == match body_text {
            Some(t) => text::truncated(t@, BODY_TEXT_LEN as nat),
            None => Seq::empty(),
        },
{
    let shown = match &body_text {
        Some(t) => text::truncate(t.as_str(), BODY_TEXT_LEN),
        None => String::new(),
    };
    assert(body_text is None ==> shown@ =~= Seq::<char>::empty());
    let known = match title {
        Some(t) => t,
        None => "unknown".to_owned(),
    };
    PageContent { url, title: known, body_text: shown }
}

/// The interactive elements of a page, one to a line. `answer` is what the
/// page answered to [`DOM_EXTRACT_JS`].
pub open spec fn elements_text(answer: Option<Seq<char>>) -> Seq<char> {
    let list = match answer {
        Some(a) => json::string_list_of(a),
        None => Seq::empty(),
    };
    if list.len() == 0 {
        "(no interactive elements found)"@
    } else {
        text::joined(list, "\n"@)
    }
}

/// The interactive elements of a page, one to a line.
pub fn extract_dom_info(answer: Option<&str>) -> (r: String)
    ensures
        r@ == elements_text(
            match answer {
                Some(a) => Some(a@),
                None => None,
            },
        ),
{
    let list = match answer {
        Some(a) => json::string_list(a),
        None => Vec::new(),
    };
    assert(answer is None ==> text::views(list@) =~= Seq::<Seq<char>>::empty());
    assert(text::views(list@).len() == list@.len());
    if list.len() == 0 {
        return "(no interactive elements found)".to_owned();
    }
    text::join(&list, "\n")
}

/// What the LLM is shown of a page.
pub struct TargetPage {
    /// The page.
    pub content: PageContent,
    /// Its interactive elements, one to a line.
    pub elements: String,
}

/// What a search for a selector asks for next.
pub enum TargetNext {
    /// Read the page and its interactive elements.
    ReadPage,
    /// Ask the LLM.
    Ask {
        /// System prompt.
        system: String,
        /// User prompt.
        user: String,
    },
    /// Ask the page whether the selector matches an element.
    Check {
        /// The script.
        script: String,
    },
    /// The selector.
    Found(String),
    /// There is none, and why.
    Failed(String),
    /// There is none, as the second answer is no selector; see
    /// [`unusable_retry`].
    Unusable {
        /// The first selector.
        first: String,
        /// The second answer.
        raw: String,
    },
}

impl TargetNext {
    /// The LLM has to be asked.
    pub open spec fn asks(self, prompt: Seq<char>) -> bool {
        self matches TargetNext::Ask { system, user } && system@ == TARGETING_SYSTEM@ && user@
            == prompt
    }

    /// The page has to be asked about a selector.
    pub open spec fn checks(self, selector: Seq<char>) -> bool {
        self matches TargetNext::Check { script } && script@ == selectors::matches_js(selector)
    }

    /// The selector is found.
    pub open spec fn found(self, selector: Seq<char>) -> bool {
        self matches TargetNext::Found(s) && s@ == selector
    }

    /// There is no selector.
    pub open spec fn failed(self, message: Seq<char>) -> bool {
        self matches TargetNext::Failed(m) && m@ == message
    }
}

/// What the LLM is told about its task.
pub const TARGETING_SYSTEM: &'static str =
    "You are a browser automation selector generator. Given a web page's content and interactive elements, return ONLY the best CSS selector for the described element. Output nothing except the CSS selector. Prefer selectors in this order: #id, [data-testid=\"...\"], [name=\"...\"], tag.class, tag. Never output explanations, markdown, or extra text.";

/// How many bytes of the visible text the LLM is shown.
pub const PROMPT_TEXT_LEN: usize = 4000;

/// The page and the target, as both prompts show them.
pub open spec fn page_prompt(page: TargetPage, target: Seq<char>) -> Seq<char> {
    "Page URL: "@ + page.content.url@ + "\nPage Title: "@ + page.content.title@
        + "\n\nPage body text (first 4000 chars):\n"@ + text::truncated(
        page.content.body_text@,
        PROMPT_TEXT_LEN as nat,
    ) + "\n\nInteractive elements:\n"@ + page.elements@ + "\n\nFind the CSS selector for: "@
        + target
}

/// The prompt after an answer that matched nothing.
pub open spec fn retry_prompt(page: TargetPage, target: Seq<char>) -> Seq<char> {
    "Your previous answer was not usable. The selector must match at least one element currently present on the page.\n\n"@
        + page_prompt(page, target)
        + "\nReturn ONLY a single CSS selector that matches an existing element. No explanations."@
}

/// The page and the target, as both prompts show them.
fn show_page(page: &TargetPage, target: &str) -> (r: String)
    requires
        text::can_cut(page.content.body_text@, PROMPT_TEXT_LEN as nat),
    ensures
        r@ == page_prompt(*page, target@),
{
    let mut s = "Page URL: ".to_owned();
    s.append(page.content.url.as_str());
    s.append("\nPage Title: ");
    s.append(page.content.title.as_str());
    s.append("\n\nPage body text (first 4000 chars):\n");
    s.append(text::truncate(page.content.body_text.as_str(), PROMPT_TEXT_LEN).as_str());
    s.append("\n\nInteractive elements:\n");
    s.append(page.elements.as_str());
    s.append("\n\nFind the CSS selector for: ");
    s.append(target);
    s
}

/// An answer is no selector.
pub open spec fn no_selector(answer: Seq<char>) -> bool {
    let clean = selectors::sanitized(answer);
    selectors::useless(text::trimmed(clean), text::lowered(text::trimmed(clean)))
}

/// What is wrong with the selector of an answer, if anything is.
pub open spec fn selector_defect(answer: Seq<char>) -> Option<Seq<char>> {
    let clean = selectors::sanitized(answer);
    selectors::defect(clean, text::quoted(clean))
}

/// What is said of a first answer that is no selector.
pub open spec fn unusable_message(target: Seq<char>, answer: Seq<char>) -> Seq<char> {
    "LLM element targeting failed: the LLM did not return a usable selector for "@ + text::quoted(
        target,
    ) + " (got "@ + text::quoted(text::trimmed(answer))
        + "). Check the page state in the diagnostics above."@
}

/// What is said of a first answer that is malformed.
pub open spec fn invalid_message(target: Seq<char>, answer: Seq<char>, reason: Seq<char>) -> Seq<
    char,
> {
    "LLM element targeting failed: invalid selector for "@ + text::quoted(target) + ": "@ + reason
        + " (LLM response: "@ + text::quoted(text::trimmed(answer)) + ")"@
}

/// What is said when the second question got no answer.
pub open spec fn retry_failed_message(first: Seq<char>, e: Seq<char>) -> Seq<char> {
    "LLM element targeting failed: first answer "@ + text::quoted(first)
        + " matched nothing, retry also failed: "@ + e
}

/// What is said of a second answer that matches nothing.
pub open spec fn unmatched_message(target: Seq<char>, second: Seq<char>) -> Seq<char> {
    "LLM element targeting failed: selector "@ + text::quoted(second)
        + " does not match any element on the page for "@ + text::quoted(target)
        + ". Verify the page state in the diagnostics; the login/SPA may not have rendered."@
}

/// What a search does after the first selector matched nothing.
pub open spec fn after_mismatch(
    r: TargetNext,
    target: Seq<char>,
    page: TargetPage,
    first: Seq<char>,
    second: Option<Result<String, String>>,
    second_matches: Option<bool>,
) -> bool {
    match second {
        None => r.asks(retry_prompt(page, target)),
        Some(Err(e)) => r.failed(retry_failed_message(first, e@)),
        Some(Ok(answer)) => if no_selector(answer@) {
            r matches TargetNext::Unusable { first: f, raw } && f@ == first && raw@ == answer@
        } else {
            let clean = selectors::sanitized(answer@);
            match second_matches {
                None => r.checks(clean),
                Some(true) => r.found(clean),
                Some(false) => r.failed(unmatched_message(target, clean)),
            }
        },
    }
}

/// What a search does after the first answer.
pub open spec fn after_answer(
    r: TargetNext,
    target: Seq<char>,
    page: TargetPage,
    answer: Seq<char>,
    first_matches: Option<bool>,
    second: Option<Result<String, String>>,
    second_matches: Option<bool>,
) -> bool {
    let clean = selectors::sanitized(answer);
    if no_selector(answer) {
        r.failed(unusable_message(target, answer))
    } else {
        match selector_defect(answer) {
            Some(reason) => r.failed(invalid_message(target, answer, reason)),
            None => match first_matches {
                None => r.checks(clean),
                Some(true) => r.found(clean),
                Some(false) => after_mismatch(r, target, page, clean, second, second_matches),
            },
        }
    }
}

/// The next move after the first selector matched nothing.
fn mismatched(
    target: &str,
    page: &TargetPage,
    first: String,
    second: &Option<Result<String, String>>,
    second_matches: Option<bool>,
) -> (r: TargetNext)
    requires
        text::can_cut(page.content.body_text@, PROMPT_TEXT_LEN as nat),
    ensures
        after_mismatch(r, target@, *page, first@, *second, second_matches),
{
    let answer = match second {
        None => {
            let mut user = "Your previous answer was not usable. The selector must match at least one element currently present on the page.\n\n".to_owned();
            user.append(show_page(page, target).as_str());
            user.append(
                "\nReturn ONLY a single CSS selector that matches an existing element. No explanations.",
            );
            return TargetNext::Ask { system: TARGETING_SYSTEM.to_owned(), user };
        },
        Some(Err(e)) => {
            let mut m = "LLM element targeting failed: first answer ".to_owned();
            m.append(text::quote(first.as_str()).as_str());
            m.append(" matched nothing, retry also failed: ");
            m.append(e.as_str());
            return TargetNext::Failed(m);
        },
        Some(Ok(a)) => a,
    };
    let clean = selectors::sanitize_selector(answer.as_str());
    if selectors::selector_is_useless(clean.as_str()) {
        return TargetNext::Unusable { first, raw: answer.clone() };
    }
    match second_matches {
        None => TargetNext::Check { script: selectors::selector_matches_js(clean.as_str()) },
        Some(true) => TargetNext::Found(clean),
        Some(false) => {
            let mut m = "LLM element targeting failed: selector ".to_owned();
            m.append(text::quote(clean.as_str()).as_str());
            m.append(" does not match any element on the page for ");
            m.append(text::quote(target).as_str());
            m.append(
                ". Verify the page state in the diagnostics; the login/SPA may not have rendered.",
            );
            TargetNext::Failed(m)
        },
    }
}

/// The next move after the first answer.
fn answered(
    target: &str,
    page: &TargetPage,
    answer: &str,
    first_matches: Option<bool>,
    second: &Option<Result<String, String>>,
    second_matches: Option<bool>,
) -> (r: TargetNext)
    requires
        text::can_cut(page.content.body_text@, PROMPT_TEXT_LEN as nat),
    ensures
        after_answer(r, target@, *page, answer@, first_matches, *second, second_matches),
{
    let clean = selectors::sanitize_selector(answer);
    if selectors::selector_is_useless(clean.as_str()) {
        let mut m =
            "LLM element targeting failed: the LLM did not return a usable selector for ".to_owned();
        m.append(text::quote(target).as_str());
        m.append(" (got ");
        m.append(text::quote(text::trim_text(answer).as_str()).as_str());
        m.append("). Check the page state in the diagnostics above.");
        return TargetNext::Failed(m);
    }
    if let Err(reason) = selectors::validate_selector(clean.as_str()) {
        let mut m = "LLM element targeting failed: invalid selector for ".to_owned();
        m.append(text::quote(target).as_str());
        m.append(": ");
        m.append(reason.as_str());
        m.append(" (LLM response: ");
        m.append(text::quote(text::trim_text(answer).as_str()).as_str());
        m.append(")");
        return TargetNext::Failed(m);
    }
    match first_matches {
        None => TargetNext::Check { script: selectors::selector_matches_js(clean.as_str()) },
        Some(true) => TargetNext::Found(clean),
        Some(false) => mismatched(target, page, clean, second, second_matches),
    }
}

/// The next move of a search for a selector.
pub open spec fn target_next(
    r: TargetNext,
    css_override: Option<Seq<char>>,
    target: Seq<char>,
    page: Option<Result<TargetPage, String>>,
    first: Option<Result<String, String>>,
    first_matches: Option<bool>,
    second: Option<Result<String, String>>,
    second_matches: Option<bool>,
) -> bool {
    match css_override {
        Some(explicit) => r.found(explicit),
        None => match page {
            None => r is ReadPage,
            Some(Err(e)) => r.failed("DOM extraction failed: "@ + e@),
            Some(Ok(p)) => match first {
                None => r.asks(page_prompt(p, target)),
                Some(Err(e)) => r.failed("LLM element targeting failed: "@ + e@),
                Some(Ok(answer)) => after_answer(
                    r,
                    target,
                    p,
                    answer@,
                    first_matches,
                    second,
                    second_matches,
                ),
            },
        },
    }
}

/// Resolves a CSS selector for the target element. Uses the explicit selector
/// if provided, otherwise asks the LLM to find the element from the natural
/// language `target` description and page DOM. `first` and `second` are what
/// the LLM answered, `first_matches` and `second_matches` whether the page
/// has an element that matches; what has not happened yet is `None`. The
/// shown text is cut after [`PROMPT_TEXT_LEN`] bytes, which must be where a
/// character ends.
pub fn resolve_selector(
    css_override: Option<&str>,
    target: &str,
    page: &Option<Result<TargetPage, String>>,
    first: &Option<Result<String, String>>,
    first_matches: Option<bool>,
    second: &Option<Result<String, String>>,
    second_matches: Option<bool>,
) -> (r: TargetNext)
    requires
        *page matches Some(Ok(p)) ==> text::can_cut(
            p.content.body_text@,
            PROMPT_TEXT_LEN as nat,
        ),
    ensures
        target_next(
            r,
            llm::option_view(css_override),
            target@,
            *page,
            *first,
            first_matches,
            *second,
            second_matches,
        ),
{
    if let Some(explicit) = css_override {
        return TargetNext::Found(explicit.to_owned());
    }
    let known = match page {
        None => {
            return TargetNext::ReadPage;
        },
        Some(Err(e)) => {
            let mut m = "DOM extraction failed: ".to_owned();
            m.append(e.as_str());
            return TargetNext::Failed(m);
        },
        Some(Ok(p)) => p,
    };
    match first {
        None => TargetNext::Ask {
            system: TARGETING_SYSTEM.to_owned(),
            user: show_page(known, target),
        },
        Some(Err(e)) => {
            let mut m = "LLM element targeting failed: ".to_owned();
            m.append(e.as_str());
            TargetNext::Failed(m)
        },
        Some(Ok(answer)) => answered(
            target,
            known,
            answer.as_str(),
            first_matches,
            second,
            second_matches,
        ),
    }
}

/// How many bytes of the visible text are quoted.
pub const EXCERPT_LEN: usize = 300;

/// What is said of a second answer that is no selector. The quoted text is
/// cut after [`EXCERPT_LEN`] bytes, which must be where a character ends.
pub fn unusable_retry(first: &str, target: &str, raw: &str, body_text: &str) -> (r: String)
    requires
        text::can_cut(body_text@, EXCERPT_LEN as nat),
    ensures
        r@ == "LLM element targeting failed: selector "@ + text::quoted(first@)
            + " matched nothing; the retry returned no usable selector for "@ + text::quoted(
            target@,
        ) + " (got "@ + text::quoted(text::trimmed(raw@)) + "). Page excerpt: "@
            + text::truncated(body_text@, EXCERPT_LEN as nat),
{
    let mut m = "LLM element targeting failed: selector ".to_owned();
    m.append(text::quote(first).as_str());
    m.append(" matched nothing; the retry returned no usable selector for ");
    m.append(text::quote(target).as_str());
    m.append(" (got ");
    m.append(text::quote(text::trim_text(raw).as_str()).as_str());
    m.append("). Page excerpt: ");
    m.append(text::truncate(body_text, EXCERPT_LEN).as_str());
    m
}

/// An answer of the LLM becomes the selector of a step only when it is a
/// selector that the page has confirmed, and never after more than two
/// answers: once the second answer was checked, the search is over.
pub proof fn law_selector_is_confirmed(
    r: TargetNext,
    target: Seq<char>,
    page: TargetPage,
    answer: Seq<char>,
    first_matches: Option<bool>,
    second: Option<Result<String, String>>,
    second_matches: Option<bool>,
)
    requires
        after_answer(r, target, page, answer, first_matches, second, second_matches),
    ensures
        r matches TargetNext::Found(s) ==> {
            ||| !no_selector(answer) && first_matches == Some(true) && s@ == selectors::sanitized(
                answer,
            )
            ||| second matches Some(Ok(again)) && !no_selector(again@) && second_matches == Some(
                true,
            ) && s@ == selectors::sanitized(again@)
        },
        second is Some ==> !(r is Ask),
        second_matches is Some && second is Some ==> !(r is Ask) && (first_matches is Some ==> !(
        r is Check)),
{
}

/// The LLM is shown the page and told what to look for.
#[verifier::rlimit(60)]
pub proof fn law_prompts_show_page_and_target(page: TargetPage, target: Seq<char>)
    ensures
        text::has_text(page_prompt(page, target), page.content.url@),
        text::has_text(page_prompt(page, target), page.content.title@),
        text::has_text(page_prompt(page, target), page.elements@),
        text::has_text(page_prompt(page, target), target),
        text::has_text(retry_prompt(page, target), page_prompt(page, target)),
{
    let p = page_prompt(page, target);
    let a = "Page URL: "@;
    let b = "\nPage Title: "@;
    let c = "\n\nPage body text (first 4000 chars):\n"@;
    let body = text::truncated(page.content.body_text@, PROMPT_TEXT_LEN as nat);
    let d = "\n\nInteractive elements:\n"@;
    let e = "\n\nFind the CSS selector for: "@;
    let url = page.content.url@;
    let title = page.content.title@;
    let list = page.elements@;
    text::lemma_middle(a, url, b + title + c + body + d + list + e + target);
    assert(a + url + (b + title + c + body + d + list + e + target) =~= p);
    text::lemma_middle(a + url + b, title, c + body + d + list + e + target);
    assert(a + url + b + title + (c + body + d + list + e + target) =~= p);
    text::lemma_middle(a + url + b + title + c + body + d, list, e + target);
    assert(a + url + b + title + c + body + d + list + (e + target) =~= p);
    text::lemma_middle(a + url + b + title + c + body + d + list + e, target, Seq::empty());
    assert(a + url + b + title + c + body + d + list + e + target + Seq::<char>::empty() =~= p);
    text::lemma_middle(
        "Your previous answer was not usable. The selector must match at least one element currently present on the page.\n\n"@,
        p,
        "\nReturn ONLY a single CSS selector that matches an existing element. No explanations."@,
    );
}

/// Every element that the page lists is shown.
pub proof fn law_elements_are_all_shown(answer: Seq<char>, i: int)
    requires
        0 <= i < json::string_list_of(answer).len(),
    ensures
        text::has_text(elements_text(Some(answer)), json::string_list_of(answer)[i]),
{
    text::law_joined_holds_each(json::string_list_of(answer), "\n"@, i);
}

/// The search for an element: a selector that the step gives is taken as it
/// is; else the page is read, then the LLM asked, and its answer checked
/// against the page. An answer that matches is taken; the first that does not
/// is answered with one more question, the second ends the search. What fails on
/// the way ends it too.
pub proof fn law_search_takes_its_course(
    r: TargetNext,
    css_override: Option<Seq<char>>,
    target: Seq<char>,
    page: Option<Result<TargetPage, String>>,
    first: Option<Result<String, String>>,
    first_matches: Option<bool>,
    second: Option<Result<String, String>>,
    second_matches: Option<bool>,
)
    requires
        target_next(
            r,
            css_override,
            target,
            page,
            first,
            first_matches,
            second,
            second_matches,
        ),
    ensures
        css_override matches Some(given) ==> (r matches TargetNext::Found(s) && s@ == given),
        css_override is None ==> {
            let read = page is Some && page->0 is Ok;
            let told = read && first is Some && first->0 is Ok;
            let clean = selectors::sanitized(first->0->Ok_0@);
            let fit = told && !no_selector(first->0->Ok_0@) && selector_defect(first->0->Ok_0@)
                is None;
            let missed = fit && first_matches == Some(false);
            let again = missed && second is Some && second->0 is Ok;
            &&& page is None <==> r is ReadPage
            &&& page is Some && page->0 is Err ==> r is Failed
            &&& read && first is None ==> (r matches TargetNext::Ask { user, .. } && user@
                == page_prompt(page->0->Ok_0, target))
            &&& read && first is Some && first->0 is Err ==> r is Failed
            &&& told && !fit ==> r is Failed
            &&& fit && first_matches is None ==> (r matches TargetNext::Check { script }
                && script@ == selectors::matches_js(clean))
            &&& fit && first_matches == Some(true) ==> (r matches TargetNext::Found(s) && s@
                == clean)
            &&& missed && second is None ==> (r matches TargetNext::Ask { user, .. }
                && text::has_text(user@, page_prompt(page->0->Ok_0, target)) && user@ != page_prompt(
                page->0->Ok_0,
                target,
            ))
            &&& missed && second is Some && second->0 is Err ==> r is Failed
            &&& again && no_selector(second->0->Ok_0@) ==> r is Unusable
            &&& again && !no_selector(second->0->Ok_0@) ==> match second_matches {
                None => r matches TargetNext::Check { script } && script@ == selectors::matches_js(
                    selectors::sanitized(second->0->Ok_0@),
                ),
                Some(true) => r matches TargetNext::Found(s) && s@ == selectors::sanitized(
                    second->0->Ok_0@,
                ),
                Some(false) => r is Failed,
            }
        },
{
    if let Some(Ok(p)) = page {
        law_prompts_show_page_and_target(p, target);
        lemma_retry_is_longer(p, target);
    }
}

/// The second question is not the first.
proof fn lemma_retry_is_longer(page: TargetPage, target: Seq<char>)
    ensures
        retry_prompt(page, target).len() > page_prompt(page, target).len(),
{
    reveal_strlit("\nReturn ONLY a single CSS selector that matches an existing element. No explanations.");
}

/// The LLM is shown the text of the page, whole where it is short, and its
/// first four thousand bytes where it is long.
pub proof fn law_prompts_show_the_text_of_the_page(page: TargetPage, target: Seq<char>) -> (k: int)
    requires
        text::can_cut(page.content.body_text@, 4000),
    ensures
        0 <= k <= page.content.body_text@.len(),
        text::byte_len(page.content.body_text@) <= 4000 ==> text::has_text(
            page_prompt(page, target),
            page.content.body_text@,
        ),
        text::byte_len(page.content.body_text@) > 4000 ==> text::widths(
            page.content.body_text@.take(k),
        ) == 4000 && text::has_text(
            page_prompt(page, target),
            page.content.body_text@.take(k) + "...<truncated>"@,
        ),
{
    let k = text::law_truncated_is_the_beginning(page.content.body_text@, 4000);
    let body = text::truncated(page.content.body_text@, 4000);
    lemma_body_shown(
        "Page URL: "@ + page.content.url@ + "\nPage Title: "@ + page.content.title@
            + "\n\nPage body text (first 4000 chars):\n"@,
        body,
        "\n\nInteractive elements:\n"@,
        page.elements@,
        "\n\nFind the CSS selector for: "@,
        target,
        page_prompt(page, target),
    );
    k
}

/// The text of the page stands in the prompt.
proof fn lemma_body_shown(
    head: Seq<char>,
    body: Seq<char>,
    d: Seq<char>,
    list: Seq<char>,
    e: Seq<char>,
    target: Seq<char>,
    all: Seq<char>,
)
    requires
        all == head + body + d + list + e + target,
    ensures
        text::has_text(all, body),
{
    text::lemma_middle(head, body, d + list + e + target);
    assert(head + body + (d + list + e + target) =~= all);
}

} // verus!
