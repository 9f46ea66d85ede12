//! Assertions about a page: LLM presets and prompts, the DOM layout scan, and
//! assertions that an agent evaluates; and the steps that call an agent or an
//! MCP tool.
//!
//! Like the browser steps, each is a function from the outcomes of what was
//! asked for so far to what has to happen next.
use vstd::prelude::*;
use vstd::string::StringExecFns;
use crate::endpoints;
use crate::endpoints::{EndpointRegistry, TaskType};
use crate::events::StepStatus;
use crate::llm;
use crate::mcp_client;
use crate::mcp_client::McpToolResult;
use crate::named;
use crate::scenario::AssertDefinition;
use crate::steps;
use crate::steps::StepResult;
use crate::targeting::PageContent;
use crate::text;
use crate::vision;

verus! {

/// In-browser DOM layout scan for `layout_no_issues`.
///
/// Geometry-only checks (no LLM, no pixels):
/// 1. page horizontal overflow (`scrollWidth` > viewport width);
/// 2. visible, non-fixed elements that stick out of the viewport
///    (right/bottom edge) while still partially on screen;
/// 3. text clipped by `overflow: hidden` containers whose content
///    is measurably larger than the box;
/// 4. interactive elements (buttons/links/inputs) whose center point
///    is covered by a different element that would intercept the click.
///
/// Intentional stacking (off-canvas drawers, dropdown menus, badges,
/// fixed headers) is excluded by the position/relation filters.
pub const LAYOUT_SCAN_JS: &'static str = "
(() => {
  const issues = [];
  const push = (type, el, detail) => {
    if (issues.length >= 30) return;
    let element = el.tagName.toLowerCase();
    if (el.id) element += '#' + el.id;
    else if (typeof el.className === 'string' && el.className.trim())
      element += '.' + el.className.trim().split(/\\s+/).join('.');
    issues.push({ type, element, detail: String(detail).slice(0, 220) });
  };
  const vw = document.documentElement.clientWidth || window.innerWidth;
  const vh = document.documentElement.clientHeight || window.innerHeight;
  if (!vw || !vh) return JSON.stringify(issues);
  const de = document.documentElement;
  // 1. Page-level horizontal overflow.
  if (de.scrollWidth > vw + 2)
    push('page-overflow-x', de,
      'page scrollWidth ' + de.scrollWidth + ' exceeds viewport width ' + vw);
  const all = Array.prototype.slice.call(document.querySelectorAll('body *'));
  const visible = (cs) => cs.display !== 'none' && cs.visibility !== 'hidden' && parseFloat(cs.opacity || '1') !== 0;
  const hasContent = (el) =>
    ((el.textContent || '').trim().length > 0) ||
    !!el.querySelector('img,svg,video,canvas,iframe,button,input,textarea,select');
  // 2. Elements sticking out of the viewport (partially visible only).
  for (const el of all) {
    const cs = getComputedStyle(el);
    if (!visible(cs)) continue;
    const r = el.getBoundingClientRect();
    if (r.width < 2 || r.height < 2) continue;
    if (cs.position === 'fixed' || cs.position === 'sticky') continue;
    if (!hasContent(el) && el.children.length === 0) continue;
    if (r.top >= vh || r.left >= vw) continue; // fully offscreen = normal scroll content
    const overRight = r.right - vw;
    const overBottom = r.bottom - vh;
    if (overRight > 2 || overBottom > 2) {
      let where = '';
      if (overRight > 2 && overBottom > 2) where = 'right+bottom edges';
      else if (overRight > 2) where = 'right edge (' + Math.round(r.right) + ' > ' + vw + ')';
      else where = 'bottom edge (' + Math.round(r.bottom) + ' > ' + vh + ')';
      push('element-out-of-viewport', el, 'extends ' + Math.max(overRight, overBottom).toFixed(0) + 'px past the ' + where);
    }
  }
  // 3. Text clipped by overflow:hidden containers.
  for (const el of all) {
    const cs = getComputedStyle(el);
    if (cs.overflowX !== 'hidden' && cs.overflowY !== 'hidden') continue;
    if (el.scrollWidth <= el.clientWidth + 2 && el.scrollHeight <= el.clientHeight + 2) continue;
    if (!(el.textContent || '').trim()) continue;
    push('text-clipped', el,
      'content ' + el.scrollWidth + 'x' + el.scrollHeight +
      ' clipped to ' + el.clientWidth + 'x' + el.clientHeight);
  }
  // 4. Interactive elements covered by a different element.
  const interactive =
    'button, a[href], input, textarea, select, [role=\"button\"], [role=\"link\"], [role=\"menuitem\"], label, .mdc-button, .mat-mdc-button, .mat-mdc-icon-button, .mdc-fab';
  const targets = document.querySelectorAll(interactive);
  for (const el of targets) {
    const r = el.getBoundingClientRect();
    if (r.width < 6 || r.height < 6) continue;
    const cs = getComputedStyle(el);
    if (!visible(cs)) continue;
    const cx = r.left + r.width / 2;
    const cy = r.top + r.height / 2;
    if (cx < 0 || cy < 0 || cx > vw || cy > vh) continue;
    const top = document.elementFromPoint(cx, cy);
    if (!top || top === el || el.contains(top) || top.contains(el)) continue;
    const tcs = getComputedStyle(top);
    if (!visible(tcs)) continue;
    if (tcs.pointerEvents === 'none') continue;
    const tr = top.getBoundingClientRect();
    if (tr.width * tr.height < r.width * r.height * 0.25) continue;
    const tname = top.tagName.toLowerCase() + (top.id ? '#' + top.id : '') +
      (typeof top.className === 'string' && top.className.trim() ? '.' + top.className.trim().split(/\\s+/).join('.') : '');
    push('element-overlap', el,
      'center point at ' + Math.round(cx) + ',' + Math.round(cy) +
      ' is covered by <' + tname + '>');
  }
  return JSON.stringify(issues);
})()
";

/// System prompt of the preset `no_error_on_page`.
pub const NO_ERROR_ON_PAGE_SYSTEM: &'static str = "You are a QA tester. Evaluate if a web page contains error messages, stack traces, exception text, HTTP error codes, 'undefined' errors, or any indication of a malfunction. Be strict — even minor rendering glitches count as errors.";

/// User template of the preset `no_error_on_page`.
pub const NO_ERROR_ON_PAGE_TEMPLATE: &'static str = "Check if the following page content contains ANY errors or malfunctions:\n\nURL: {url}\nTitle: {title}\n\nPage Content:\n{content}\n\nRespond with exactly \"PASS\" if there are NO errors, or \"FAIL: <reason>\" if there are errors. Only respond with PASS or FAIL.";

/// System prompt of the preset `text_visible`.
pub const TEXT_VISIBLE_SYSTEM: &'static str = "You are a QA tester. Your task is to check if specific text is visible in the page content.";

/// User template of the preset `text_visible`.
pub const TEXT_VISIBLE_TEMPLATE: &'static str = "Check if the following text appears in the page content:\n\nTEXT TO FIND: \"{expected_text}\"\n\nURL: {url}\n\nPage Content:\n{content}\n\nRespond with exactly \"PASS\" if the text is present (even partial match is OK), or \"FAIL: text not found\" if it is not.";

/// System prompt of the preset `element_exists`.
pub const ELEMENT_EXISTS_SYSTEM: &'static str = "You are a QA tester. Check if a described UI element exists on a web page.";

/// User template of the preset `element_exists`.
pub const ELEMENT_EXISTS_TEMPLATE: &'static str = "Check if the following element exists on the page:\n\nELEMENT: \"{description}\"\n\nURL: {url}\n\nPage Content:\n{content}\n\nRespond with exactly \"PASS\" if the element exists, or \"FAIL: <reason>\" if it does not.";

/// System prompt of the preset `visual_no_issues`.
pub const VISUAL_NO_ISSUES_SYSTEM: &'static str = "You are a visual QA engineer inspecting a website screenshot. Detect clearly visible layout and rendering defects: overlapping elements that hide content or controls, clipped or truncated text, content cut off at the viewport edges, misaligned or broken UI, blank/empty panels where content is expected, broken or missing images, duplicated elements, or rendering glitches. Ignore subjective aesthetics, intentional stacking (dropdowns, tooltips, layered design), and content that is simply not loaded (empty states). Only report defects that a user would actually see or be blocked by.";

/// User template of the preset `visual_no_issues`.
pub const VISUAL_NO_ISSUES_TEMPLATE: &'static str = "Inspect the attached screenshot and the page text below.\n\nURL: {url}\nTitle: {title}\n\nPage Content:\n{content}\n\nAre there any clearly visible layout or rendering defects (overlaps, clipping, cut-off content, broken images, blank panels)? Respond with exactly \"PASS\" if the page renders cleanly, or \"FAIL: <describe each defect and where it appears>\" otherwise.";

/// System prompt of the preset `visual_no_overlaps`.
pub const VISUAL_NO_OVERLAPS_SYSTEM: &'static str = "You are a visual QA engineer inspecting a website screenshot for OVERLAPPING elements that harm usability: one element covering another element's text, buttons, links, or input fields (cookie banners, modals, popovers, chat widgets, sticky headers, or mispositioned layers that hide content or intercept clicks). Ignore intentional, non-harmful stacking (dropdowns, tooltips, badges over avatars, layered design where nothing is hidden or unclickable). Only fail on overlaps that visibly hide content or would block a click.";

/// User template of the preset `visual_no_overlaps`.
pub const VISUAL_NO_OVERLAPS_TEMPLATE: &'static str = "Inspect the attached screenshot and the page text below.\n\nURL: {url}\nTitle: {title}\n\nPage Content:\n{content}\n\nAre any elements overlapping in a way that hides page content, text, or interactive controls, or that would block clicks? Respond with exactly \"PASS\" if there are no such overlaps, or \"FAIL: <describe the overlapping elements and what they hide>\" otherwise.";

/// System prompt of the preset `visual_text_visible`.
pub const VISUAL_TEXT_VISIBLE_SYSTEM: &'static str = "You are a visual QA engineer inspecting a website screenshot. Determine whether a specific text is FULLY visible and readable: present in the viewport, not clipped, not cut off, not covered by another element, and not obscured by overlays or low contrast stacking. A partial word or a covered text counts as FAIL.";

/// User template of the preset `visual_text_visible`.
pub const VISUAL_TEXT_VISIBLE_TEMPLATE: &'static str = "Inspect the attached screenshot and the page text below.\n\nTEXT TO CHECK: \"{expected_text}\"\n\nURL: {url}\nTitle: {title}\n\nPage Content:\n{content}\n\nIs the text fully visible and readable in the screenshot (not clipped, covered, or hidden)? Respond with exactly \"PASS\" if it is fully visible, or \"FAIL: <explain what hides or clips it>\" otherwise.";

/// System prompt of the preset `layout_no_issues`.
pub const LAYOUT_NO_ISSUES_SYSTEM: &'static str = "DOM layout scanner: reports horizontal page overflow, elements sticking out of the viewport, clipped text in overflow:hidden containers, and interactive elements covered by other elements. Deterministic in-browser checks — no LLM call.";

/// User template of the preset `layout_no_issues`.
pub const LAYOUT_NO_ISSUES_TEMPLATE: &'static str = "Runs a deterministic DOM layout scan in the browser (no LLM call). Fails with the list of detected issues.";

/// The system prompt and user template of a built-in preset, if there is one of
/// that name.
pub open spec fn preset_of(name: Seq<char>) -> Option<(Seq<char>, Seq<char>)> {
    if name == "no_error_on_page"@ {
        Some((NO_ERROR_ON_PAGE_SYSTEM@, NO_ERROR_ON_PAGE_TEMPLATE@))
    } else if name == "text_visible"@ {
        Some((TEXT_VISIBLE_SYSTEM@, TEXT_VISIBLE_TEMPLATE@))
    } else if name == "element_exists"@ {
        Some((ELEMENT_EXISTS_SYSTEM@, ELEMENT_EXISTS_TEMPLATE@))
    } else if name == "visual_no_issues"@ {
        Some((VISUAL_NO_ISSUES_SYSTEM@, VISUAL_NO_ISSUES_TEMPLATE@))
    } else if name == "visual_no_overlaps"@ {
        Some((VISUAL_NO_OVERLAPS_SYSTEM@, VISUAL_NO_OVERLAPS_TEMPLATE@))
    } else if name == "visual_text_visible"@ {
        Some((VISUAL_TEXT_VISIBLE_SYSTEM@, VISUAL_TEXT_VISIBLE_TEMPLATE@))
    } else if name == "layout_no_issues"@ {
        Some((LAYOUT_NO_ISSUES_SYSTEM@, LAYOUT_NO_ISSUES_TEMPLATE@))
    } else {
        None
    }
}

/// The system prompt and user template of a built-in preset.
pub fn find_preset(name: &str) -> (r: Option<(&'static str, &'static str)>)
    ensures
        match r {
            Some((system, template)) => preset_of(name@) == Some((system@, template@)),
            None => preset_of(name@) is None,
        },
{
    if text::same_text(name, "no_error_on_page") {
        Some((NO_ERROR_ON_PAGE_SYSTEM, NO_ERROR_ON_PAGE_TEMPLATE))
    } else if text::same_text(name, "text_visible") {
        Some((TEXT_VISIBLE_SYSTEM, TEXT_VISIBLE_TEMPLATE))
    } else if text::same_text(name, "element_exists") {
        Some((ELEMENT_EXISTS_SYSTEM, ELEMENT_EXISTS_TEMPLATE))
    } else if text::same_text(name, "visual_no_issues") {
        Some((VISUAL_NO_ISSUES_SYSTEM, VISUAL_NO_ISSUES_TEMPLATE))
    } else if text::same_text(name, "visual_no_overlaps") {
        Some((VISUAL_NO_OVERLAPS_SYSTEM, VISUAL_NO_OVERLAPS_TEMPLATE))
    } else if text::same_text(name, "visual_text_visible") {
        Some((VISUAL_TEXT_VISIBLE_SYSTEM, VISUAL_TEXT_VISIBLE_TEMPLATE))
    } else if text::same_text(name, "layout_no_issues") {
        Some((LAYOUT_NO_ISSUES_SYSTEM, LAYOUT_NO_ISSUES_TEMPLATE))
    } else {
        None
    }
}

/// What an assertion asks for next.
pub enum AssertNext {
    /// Read the page, after a pause.
    ReadPage {
        /// Milliseconds to wait before.
        wait_ms: u64,
    },
    /// Capture the viewport.
    Capture {
        /// Longest edge of the picture.
        max_dimension: u32,
    },
    /// Ask the LLM, with the captured picture where there is one.
    Ask {
        /// System prompt.
        system: String,
        /// User prompt.
        user: String,
    },
    /// Run [`LAYOUT_SCAN_JS`] in the page.
    ScanLayout,
    /// Send a task to an agent.
    CallAgent {
        /// Where the agent is.
        url: String,
        /// The task.
        task: String,
    },
    /// Call a tool of an MCP server.
    CallTool {
        /// Command that starts the server.
        command: String,
        /// Its arguments.
        args: Vec<String>,
    },
    /// The step is over.
    Done(StepResult),
}

impl AssertNext {
    /// The step is over with that name, status and message.
    pub open spec fn done(self, name: Seq<char>, status: StepStatus, message: Seq<char>) -> bool {
        self matches AssertNext::Done(x) && steps::result_is(x, name, status, message)
    }

    /// The LLM has to be asked.
    pub open spec fn asks(self, sys: Seq<char>, prompt: Seq<char>) -> bool {
        self matches AssertNext::Ask { system, user } && system@ == sys && user@ == prompt
    }
}

/// A finished step.
fn finished(name: &str, status: StepStatus, message: &str) -> (r: AssertNext)
    ensures
        r.done(name@, status, message@),
{
    AssertNext::Done(steps::result(name, status, message))
}

/// The verdict of the LLM, with its lower-case form.
pub open spec fn passes(lower: Seq<char>) -> bool {
    text::occurs_at(text::trimmed(lower), "pass"@, 0)
}

/// The step that an answer of the LLM, with its lower-case form, ends.
pub open spec fn judged_as(r: StepResult, name: Seq<char>, answer: Seq<char>, lower: Seq<char>) -> bool {
    if passes(lower) {
        steps::result_is(r, name, StepStatus::Passed, "PASS"@)
    } else {
        steps::result_is(r, name, StepStatus::Failed, answer)
    }
}

/// Judges an answer of the LLM by its lower-case form: it passes when it
/// starts with "pass", and else fails with the answer.
pub fn judge_lowered(name: &str, answer: &str, lower: &str) -> (r: StepResult)
    ensures
        judged_as(r, name@, answer@, lower@),
{
    if text::starts_with_text(text::trim_text(lower).as_str(), "pass") {
        steps::result(name, StepStatus::Passed, "PASS")
    } else {
        steps::result(name, StepStatus::Failed, answer)
    }
}

/// An LLM assertion: the LLM is asked, and its answer judged.
pub open spec fn evaluates(
    r: AssertNext,
    name: Seq<char>,
    system: Seq<char>,
    user: Seq<char>,
    reply: Option<Result<String, String>>,
) -> bool {
    match reply {
        None => r.asks(system, user),
        Some(Err(e)) => r.done(
            name,
            StepStatus::Failed,
            "LLM assertion call failed: "@ + e@,
        ),
        Some(Ok(answer)) => r matches AssertNext::Done(x) && judged_as(
            x,
            name,
            answer@,
            text::lowered(answer@),
        ),
    }
}

/// Asks the LLM, or judges its answer.
fn evaluate(name: &str, system: &str, user: String, reply: &Option<Result<String, String>>) -> (r:
    AssertNext)
    ensures
        evaluates(r, name@, system@, user@, *reply),
{
    match reply {
        None => AssertNext::Ask { system: system.to_owned(), user },
        Some(Err(e)) => {
            let message = steps::glue("LLM assertion call failed: ", e.as_str());
            finished(name, StepStatus::Failed, message.as_str())
        },
        Some(Ok(answer)) => {
            let lower = text::lowercase(answer.as_str());
            AssertNext::Done(judge_lowered(name, answer.as_str(), lower.as_str()))
        },
    }
}

/// The text that an assertion expects.
pub open spec fn expected(assert_text: Option<Seq<char>>) -> Seq<char> {
    match assert_text {
        Some(t) => t,
        None => ""@,
    }
}

/// A template with its variables filled in.
pub open spec fn filled(template: Seq<char>, page: PageContent, wanted: Seq<char>) -> Seq<char> {
    text::replaced(
        text::replaced(
            text::replaced(
                text::replaced(
                    text::replaced(template, "{url}"@, page.url@),
                    "{title}"@,
                    page.title@,
                ),
                "{content}"@,
                page.body_text@,
            ),
            "{expected_text}"@,
            wanted,
        ),
        "{description}"@,
        ""@,
    )
}

/// The prompt of a template. A template that does not refer to the content
/// of the page gets it appended, so that the LLM always sees the page.
pub open spec fn template_prompt(template: Seq<char>, page: PageContent, wanted: Seq<char>) -> Seq<char> {
    if text::has_text(template, "{content}"@) {
        filled(template, page, wanted)
    } else {
        filled(template, page, wanted) + "\n\nPage URL: "@ + page.url@ + "\nPage Title: "@
            + page.title@ + "\n\nPage Content:\n"@ + page.body_text@
    }
}

/// Fills in the variables of a template.
fn fill(template: &str, page: &PageContent, wanted: &str) -> (r: String)
    ensures
        r@ == filled(template@, *page, wanted@),
{
    let a = text::replace_text(template, "{url}", page.url.as_str());
    let b = text::replace_text(a.as_str(), "{title}", page.title.as_str());
    let c = text::replace_text(b.as_str(), "{content}", page.body_text.as_str());
    let d = text::replace_text(c.as_str(), "{expected_text}", wanted);
    text::replace_text(d.as_str(), "{description}", "")
}

/// The prompt of a template.
fn build_prompt(template: &str, page: &PageContent, wanted: &str) -> (r: String)
    ensures
        r@ == template_prompt(template@, *page, wanted@),
{
    let mut prompt = fill(template, page, wanted);
    if !text::contains_text(template, "{content}") {
        prompt.append("\n\nPage URL: ");
        prompt.append(page.url.as_str());
        prompt.append("\nPage Title: ");
        prompt.append(page.title.as_str());
        prompt.append("\n\nPage Content:\n");
        prompt.append(page.body_text.as_str());
    }
    prompt
}

/// The text that an assertion expects.
fn expected_text(assert_text: Option<&str>) -> (r: &str)
    ensures
        r@ == expected(llm::option_view(assert_text)),
{
    match assert_text {
        Some(t) => t,
        None => "",
    }
}

/// Evaluates a custom preset: a system prompt and a user template.
pub fn run_custom_preset(
    name: &str,
    system: &str,
    template: &str,
    assert_text: Option<&str>,
    page: &PageContent,
    reply: &Option<Result<String, String>>,
) -> (r: AssertNext)
    ensures
        evaluates(
            r,
            "[assert] "@ + name@,
            system@,
            template_prompt(template@, *page, expected(llm::option_view(assert_text))),
            *reply,
        ),
{
    let label = steps::glue("[assert] ", name);
    let user = build_prompt(template, page, expected_text(assert_text));
    evaluate(label.as_str(), system, user, reply)
}

/// What a built-in preset does.
pub open spec fn preset_step(
    r: AssertNext,
    preset: Seq<char>,
    assert_text: Option<Seq<char>>,
    page: PageContent,
    has_image: bool,
    reply: Option<Result<String, String>>,
) -> bool {
    let name = "[assert] "@ + preset;
    match preset_of(preset) {
        None => r.done(name, StepStatus::Failed, "unknown assertion preset: "@ + preset),
        Some((system, template)) => if text::occurs_at(preset, "visual_"@, 0) && !has_image {
            r.done(
                name,
                StepStatus::Failed,
                "preset '"@ + preset
                    + "' evaluates the page screenshot — set screenshot = true on the assert step and point it at a vision endpoint (vision = true)"@,
            )
        } else {
            evaluates(
                r,
                name,
                system,
                template_prompt(template, page, expected(assert_text)),
                reply,
            )
        },
    }
}

/// Evaluates a built-in preset. Visual presets need a picture.
pub fn run_preset(
    preset_name: &str,
    assert_text: Option<&str>,
    page: &PageContent,
    has_image: bool,
    reply: &Option<Result<String, String>>,
) -> (r: AssertNext)
    ensures
        preset_step(
            r,
            preset_name@,
            llm::option_view(assert_text),
            *page,
            has_image,
            *reply,
        ),
{
    let label = steps::glue("[assert] ", preset_name);
    let (system, template) = match find_preset(preset_name) {
        Some(p) => p,
        None => {
            let message = steps::glue("unknown assertion preset: ", preset_name);
            return finished(label.as_str(), StepStatus::Failed, message.as_str());
        },
    };
    if text::starts_with_text(preset_name, "visual_") && !has_image {
        let message = steps::glue3(
            "preset '",
            preset_name,
            "' evaluates the page screenshot — set screenshot = true on the assert step and point it at a vision endpoint (vision = true)",
        );
        return finished(label.as_str(), StepStatus::Failed, message.as_str());
    }
    let user = build_prompt(template, page, expected_text(assert_text));
    evaluate(label.as_str(), system, user, reply)
}

/// What the LLM is told about a custom prompt.
pub const CUSTOM_SYSTEM: &'static str =
    "You are a QA tester evaluating a web page. Respond with exactly \"PASS\" if the assertion holds, or \"FAIL: <reason>\" if it does not.";

/// The prompt of a custom assertion.
pub open spec fn custom_prompt(prompt: Seq<char>, page: PageContent, has_image: bool) -> Seq<char> {
    let base = "Page URL: "@ + page.url@ + "\nPage Title: "@ + page.title@
        + "\n\nPage Content:\n"@ + page.body_text@ + "\n\nAssertion: "@ + prompt;
    if has_image {
        base
            + "\n\nA screenshot of the page is attached — inspect it for visual evidence when answering."@
    } else {
        base
    }
}

/// Evaluates a custom prompt.
pub fn run_custom(
    prompt: &str,
    page: &PageContent,
    has_image: bool,
    reply: &Option<Result<String, String>>,
) -> (r: AssertNext)
    ensures
        evaluates(
            r,
            "[assert] custom"@,
            CUSTOM_SYSTEM@,
            custom_prompt(prompt@, *page, has_image),
            *reply,
        ),
{
    let mut user = "Page URL: ".to_owned();
    user.append(page.url.as_str());
    user.append("\nPage Title: ");
    user.append(page.title.as_str());
    user.append("\n\nPage Content:\n");
    user.append(page.body_text.as_str());
    user.append("\n\nAssertion: ");
    user.append(prompt);
    if has_image {
        user.append(
            "\n\nA screenshot of the page is attached — inspect it for visual evidence when answering.",
        );
    }
    evaluate("[assert] custom", CUSTOM_SYSTEM, user, reply)
}

/// One detected layout defect (`layout_no_issues` preset).
#[derive(Debug, Clone)]
pub struct LayoutIssue {
    /// Kind of defect.
    pub issue_type: String,
    /// The element.
    pub element: String,
    /// What is wrong with it.
    pub detail: String,
}

/// The line of a layout defect.
pub open spec fn issue_line(issue: LayoutIssue) -> Seq<char> {
    "- ["@ + issue.issue_type@ + "] "@ + issue.element@ + ": "@ + issue.detail@
}

/// The lines of layout defects.
pub open spec fn issue_lines(issues: Seq<LayoutIssue>) -> Seq<Seq<char>> {
    issues.map_values(|i: LayoutIssue| issue_line(i))
}

/// How many defects are listed.
pub const LISTED_ISSUES: usize = 10;

/// The lines of a report: the first defects, and how many more there are.
pub open spec fn report_lines(issues: Seq<LayoutIssue>) -> Seq<Seq<char>> {
    if issues.len() > LISTED_ISSUES {
        issue_lines(issues.take(LISTED_ISSUES as int)).push(
            "- … and "@ + text::dec((issues.len() - LISTED_ISSUES) as nat) + " more"@,
        )
    } else {
        issue_lines(issues)
    }
}

/// What the layout scan does.
pub open spec fn layout_step(r: AssertNext, scan: Option<Result<Vec<LayoutIssue>, String>>) -> bool {
    let name = "[assert] layout_no_issues"@;
    match scan {
        None => r is ScanLayout,
        Some(Err(e)) => r.done(name, StepStatus::Failed, "layout scan JS failed: "@ + e@),
        Some(Ok(issues)) => if issues@.len() == 0 {
            r.done(name, StepStatus::Passed, "PASS — no layout defects detected"@)
        } else {
            r.done(
                name,
                StepStatus::Failed,
                "FAIL — "@ + text::dec(issues@.len()) + " layout defect(s) detected:\n"@
                    + text::joined(report_lines(issues@), "\n"@),
            )
        },
    }
}

/// The lines of a report.
fn list_issues(issues: &Vec<LayoutIssue>) -> (r: Vec<String>)
    ensures
        text::views(r@) == report_lines(issues@),
{
    let shown: usize = if issues.len() > LISTED_ISSUES {
        LISTED_ISSUES
    } else {
        issues.len()
    };
    let mut lines: Vec<String> = Vec::new();
    let mut i: usize = 0;
    assert(text::views(lines@) =~= issue_lines(issues@.take(0)));
    while i < shown
        invariant
            i <= shown <= issues@.len(),
            text::views(lines@) == issue_lines(issues@.take(i as int)),
        decreases shown - i,
    {
        let issue = &issues[i];
        let mut line = "- [".to_owned();
        line.append(issue.issue_type.as_str());
        line.append("] ");
        line.append(issue.element.as_str());
        line.append(": ");
        line.append(issue.detail.as_str());
        let ghost before = text::views(lines@);
        lines.push(line);
        assert(text::views(lines@) =~= before.push(line@));
        assert(issue_lines(issues@.take(i + 1)) =~= issue_lines(issues@.take(i as int)).push(
            issue_line(*issue),
        ));
        i += 1;
    }
    if issues.len() > LISTED_ISSUES {
        let more: usize = issues.len() - LISTED_ISSUES;
        let mut line = "- … and ".to_owned();
        line.append(text::decimal(more as u128).as_str());
        line.append(" more");
        let ghost before = text::views(lines@);
        lines.push(line);
        assert(text::views(lines@) =~= before.push(line@));
    } else {
        assert(issues@.take(i as int) =~= issues@);
    }
    lines
}

/// Runs the deterministic DOM layout scan (`layout_no_issues`).
///
/// The scan fails with the list of detected issues: horizontal page overflow,
/// visible elements sticking out of the viewport, text clipped by
/// `overflow: hidden` containers, and interactive elements covered by other
/// elements. No LLM call — checks are geometry-based so the check is free,
/// deterministic, and safe to run on every page × viewport variant.
pub fn run_layout_preset(scan: &Option<Result<Vec<LayoutIssue>, String>>) -> (r: AssertNext)
    ensures
        layout_step(r, *scan),
{
    let name = "[assert] layout_no_issues";
    match scan {
        None => AssertNext::ScanLayout,
        Some(Err(e)) => {
            let message = steps::glue("layout scan JS failed: ", e.as_str());
            finished(name, StepStatus::Failed, message.as_str())
        },
        Some(Ok(issues)) => {
            if issues.len() == 0 {
                return finished(name, StepStatus::Passed, "PASS — no layout defects detected");
            }
            let mut message = "FAIL — ".to_owned();
            message.append(text::decimal(issues.len() as u128).as_str());
            message.append(" layout defect(s) detected:\n");
            message.append(text::join(&list_issues(issues), "\n").as_str());
            finished(name, StepStatus::Failed, message.as_str())
        },
    }
}

/// The step that the reply of an agent, with its lower-case form, ends.
pub open spec fn agent_verdict(r: StepResult, name: Seq<char>, reply: Seq<char>, lower: Seq<char>) -> bool {
    if text::occurs_at(lower, "pass"@, 0) {
        steps::result_is(r, name, StepStatus::Passed, "PASS: "@ + reply)
    } else if text::occurs_at(lower, "fail"@, 0) {
        steps::result_is(r, name, StepStatus::Failed, reply)
    } else {
        steps::result_is(r, name, StepStatus::Passed, "response: "@ + reply)
    }
}

/// Judges the trimmed reply of an agent by its lower-case form.
pub fn judge_agent(name: &str, reply: &str, lower: &str) -> (r: StepResult)
    ensures
        agent_verdict(r, name@, reply@, lower@),
{
    if text::starts_with_text(lower, "pass") {
        let message = steps::glue("PASS: ", reply);
        steps::result(name, StepStatus::Passed, message.as_str())
    } else if text::starts_with_text(lower, "fail") {
        steps::result(name, StepStatus::Failed, reply)
    } else {
        let message = steps::glue("response: ", reply);
        steps::result(name, StepStatus::Passed, message.as_str())
    }
}

/// What a call of an agent does.
pub open spec fn agent_step(
    r: AssertNext,
    registry: EndpointRegistry,
    agent: Seq<char>,
    task: Seq<char>,
    display: Seq<char>,
    reply: Option<Result<String, String>>,
) -> bool {
    let name = "[agent] "@ + display;
    match endpoints::index_named(registry.eps(), agent) {
        None => r.done(name, StepStatus::Failed, "agent endpoint '"@ + agent + "' not found"@),
        Some(i) => if registry.eps()[i].url@.len() == 0 {
            r.done(name, StepStatus::Failed, "agent endpoint '"@ + agent + "' has no URL"@)
        } else {
            match reply {
                None => r matches AssertNext::CallAgent { url, task: t } && url@
                    == registry.eps()[i].url@ && t@ == task,
                Some(Err(e)) => r.done(name, StepStatus::Failed, "agent call failed: "@ + e@),
                Some(Ok(said)) => r matches AssertNext::Done(x) && agent_verdict(
                    x,
                    name,
                    text::trimmed(said@),
                    text::lowered(text::trimmed(said@)),
                ),
            }
        },
    }
}

/// Sends a task to an agent, or judges its reply.
pub fn run_agent_step(
    registry: &EndpointRegistry,
    agent_name: &str,
    task: &str,
    display_name: &str,
    reply: &Option<Result<String, String>>,
) -> (r: AssertNext)
    ensures
        agent_step(r, *registry, agent_name@, task@, display_name@, *reply),
{
    let name = steps::glue("[agent] ", display_name);
    let ep = match registry.get(agent_name) {
        Some(e) => e,
        None => {
            let message = steps::glue3("agent endpoint '", agent_name, "' not found");
            return finished(name.as_str(), StepStatus::Failed, message.as_str());
        },
    };
    if ep.url.as_str().is_empty() {
        let message = steps::glue3("agent endpoint '", agent_name, "' has no URL");
        return finished(name.as_str(), StepStatus::Failed, message.as_str());
    }
    match reply {
        None => AssertNext::CallAgent { url: ep.url.clone(), task: task.to_owned() },
        Some(Err(e)) => {
            let message = steps::glue("agent call failed: ", e.as_str());
            finished(name.as_str(), StepStatus::Failed, message.as_str())
        },
        Some(Ok(said)) => {
            let clean = text::trim_text(said.as_str());
            let lower = text::lowercase(clean.as_str());
            AssertNext::Done(judge_agent(name.as_str(), clean.as_str(), lower.as_str()))
        },
    }
}

/// The definition of a name: of several the last one counts.
pub open spec fn definition_of(definitions: Seq<AssertDefinition>, name: Seq<char>) -> Option<
    AssertDefinition,
>
    decreases definitions.len(),
{
    if definitions.len() == 0 {
        None
    } else if definitions.last().name@ == name {
        Some(definitions.last())
    } else {
        definition_of(definitions.drop_last(), name)
    }
}

/// The definition of a name.
pub fn find_definition<'a>(definitions: &'a Vec<AssertDefinition>, name: &str) -> (r: Option<
    &'a AssertDefinition,
>)
    ensures
        match r {
            Some(d) => definition_of(definitions@, name@) == Some(*d),
            None => definition_of(definitions@, name@) is None,
        },
{
    let mut i: usize = definitions.len();
    assert(definitions@.take(i as int) =~= definitions@);
    while i > 0
        invariant
            i <= definitions@.len(),
            definition_of(definitions@, name@) == definition_of(
                definitions@.take(i as int),
                name@,
            ),
        decreases i,
    {
        assert(definitions@.take(i as int).drop_last() =~= definitions@.take(i - 1));
        assert(definitions@.take(i as int).last() == definitions@[i - 1]);
        i -= 1;
        if text::same_text(definitions[i].name.as_str(), name) {
            return Some(&definitions[i]);
        }
    }
    None
}

/// The next move of an agent step.
pub open spec fn agent_next(
    r: AssertNext,
    registry: EndpointRegistry,
    definitions: Seq<AssertDefinition>,
    agent: Seq<char>,
    task: Seq<char>,
    definition: Option<Seq<char>>,
    reply: Option<Result<String, String>>,
) -> bool {
    let display = "agent:"@ + agent;
    match definition {
        None => agent_step(r, registry, agent, task, display, reply),
        Some(def_name) => match definition_of(definitions, def_name) {
            None => r.done(
                "[agent] "@ + def_name,
                StepStatus::Failed,
                "definition '"@ + def_name + "' not found"@,
            ),
            Some(def) => agent_step(
                r,
                registry,
                agent,
                text::replaced(
                    match def.task_template {
                        Some(t) => t@,
                        None => task,
                    },
                    "{task}"@,
                    task,
                ),
                display,
                reply,
            ),
        },
    }
}

/// Runs an agent step. With a definition the task goes into its template.
pub fn run_agent(
    registry: &EndpointRegistry,
    definitions: &Vec<AssertDefinition>,
    agent_name: &str,
    task: &str,
    definition: Option<&str>,
    reply: &Option<Result<String, String>>,
) -> (r: AssertNext)
    ensures
        agent_next(
            r,
            *registry,
            definitions@,
            agent_name@,
            task@,
            llm::option_view(definition),
            *reply,
        ),
{
    let display = steps::glue("agent:", agent_name);
    let def_name = match definition {
        None => {
            return run_agent_step(registry, agent_name, task, display.as_str(), reply);
        },
        Some(d) => d,
    };
    let def = match find_definition(definitions, def_name) {
        None => {
            let name = steps::glue("[agent] ", def_name);
            let message = steps::glue3("definition '", def_name, "' not found");
            return finished(name.as_str(), StepStatus::Failed, message.as_str());
        },
        Some(d) => d,
    };
    let template = match &def.task_template {
        Some(t) => t.as_str(),
        None => task,
    };
    let resolved = text::replace_text(template, "{task}", task);
    run_agent_step(registry, agent_name, resolved.as_str(), display.as_str(), reply)
}

/// The next move of a tool call.
pub open spec fn mcp_next(
    r: AssertNext,
    registry: EndpointRegistry,
    server: Seq<char>,
    tool: Seq<char>,
    reply: Option<Result<McpToolResult, String>>,
) -> bool {
    let name = "[mcp] "@ + server + ":"@ + tool;
    match endpoints::index_named(registry.eps(), server) {
        None => r.done(
            name,
            StepStatus::Failed,
            "MCP server endpoint '"@ + server + "' not found"@,
        ),
        Some(i) => {
            let ep = registry.eps()[i];
            if ep.command is None || ep.command->0@.len() == 0 {
                r.done(
                    name,
                    StepStatus::Failed,
                    "MCP server '"@ + server + "' has no command configured"@,
                )
            } else {
                match reply {
                    None => r matches AssertNext::CallTool { command, args } && command@
                        == ep.command->0@ && args@ == ep.args@,
                    Some(Err(e)) => r.done(
                        name,
                        StepStatus::Failed,
                        "MCP call failed: "@ + e@,
                    ),
                    Some(Ok(result)) => r.done(
                        name,
                        if result.isError {
                            StepStatus::Failed
                        } else {
                            StepStatus::Passed
                        },
                        mcp_client::blocks_text(result.content@),
                    ),
                }
            }
        },
    }
}

/// Calls a tool of an MCP server, or reads its result.
pub fn run_mcp(
    registry: &EndpointRegistry,
    server_name: &str,
    tool_name: &str,
    reply: &Option<Result<McpToolResult, String>>,
) -> (r: AssertNext)
    ensures
        mcp_next(r, *registry, server_name@, tool_name@, *reply),
{
    let name = steps::glue4("[mcp] ", server_name, ":", tool_name);
    let ep = match registry.get(server_name) {
        Some(e) => e,
        None => {
            let message = steps::glue3("MCP server endpoint '", server_name, "' not found");
            return finished(name.as_str(), StepStatus::Failed, message.as_str());
        },
    };
    let command = match &ep.command {
        Some(c) if !c.as_str().is_empty() => c,
        _ => {
            let message = steps::glue3("MCP server '", server_name, "' has no command configured");
            return finished(name.as_str(), StepStatus::Failed, message.as_str());
        },
    };
    match reply {
        None => AssertNext::CallTool {
            command: command.clone(),
            args: named::copy_strings(&ep.args),
        },
        Some(Err(e)) => {
            let message = steps::glue("MCP call failed: ", e.as_str());
            finished(name.as_str(), StepStatus::Failed, message.as_str())
        },
        Some(Ok(result)) => {
            let shown = result.to_text();
            if result.isError {
                finished(name.as_str(), StepStatus::Failed, shown.as_str())
            } else {
                finished(name.as_str(), StepStatus::Passed, shown.as_str())
            }
        },
    }
}

/// The text that an assertion expects: that of the step, else that of its
/// definition.
pub open spec fn wanted_text(def: AssertDefinition, assert_text: Option<Seq<char>>) -> Option<Seq<char>> {
    match assert_text {
        Some(t) => Some(t),
        None => match def.assert_text {
            Some(t) => Some(t@),
            None => None,
        },
    }
}

/// The task of an assertion that an agent evaluates.
pub open spec fn agent_task(def: AssertDefinition, page: PageContent, assert_text: Option<Seq<char>>) -> Seq<
    char,
> {
    text::replaced(
        filled(
            match def.task_template {
                Some(t) => t@,
                None => "Evaluate the assertion"@,
            },
            page,
            expected(wanted_text(def, assert_text)),
        ),
        "{task}"@,
        ""@,
    )
}

/// What was obtained for an assertion so far.
pub struct AssertOutcomes {
    /// The answer of the LLM or the agent, or why there is none.
    pub reply: Option<Result<String, String>>,
    /// The result of the layout scan.
    pub scan: Option<Result<Vec<LayoutIssue>, String>>,
}

/// What the assertion of a definition does: it is evaluated by an agent, by
/// its own prompts, by a preset or by a prompt, whichever it has first.
pub open spec fn definition_step(
    r: AssertNext,
    registry: EndpointRegistry,
    def: AssertDefinition,
    assert_text: Option<Seq<char>>,
    page: PageContent,
    has_image: bool,
    outcomes: AssertOutcomes,
) -> bool {
    let name = "[assert] "@ + def.name@;
    let wanted = wanted_text(def, assert_text);
    if def.agent is Some {
        if has_image {
            r.done(
                name,
                StepStatus::Failed,
                "agent-backed assertions do not support screenshots"@,
            )
        } else {
            agent_step(
                r,
                registry,
                def.agent->0@,
                agent_task(def, page, assert_text),
                def.name@,
                outcomes.reply,
            )
        }
    } else if def.system is Some && def.user_template is Some {
        evaluates(
            r,
            name,
            def.system->0@,
            template_prompt(def.user_template->0@, page, expected(wanted)),
            outcomes.reply,
        )
    } else if def.preset is Some {
        if def.preset->0@ == "layout_no_issues"@ {
            layout_step(r, outcomes.scan)
        } else {
            preset_step(r, def.preset->0@, wanted, page, has_image, outcomes.reply)
        }
    } else if def.prompt is Some {
        evaluates(
            r,
            "[assert] custom"@,
            CUSTOM_SYSTEM@,
            custom_prompt(def.prompt->0@, page, has_image),
            outcomes.reply,
        )
    } else {
        r.done(
            name,
            StepStatus::Failed,
            "definition has no preset, prompt, or system+user_template"@,
        )
    }
}

/// Evaluates the assertion of a definition.
pub fn run_assert_def(
    registry: &EndpointRegistry,
    def: &AssertDefinition,
    assert_text: Option<&str>,
    page: &PageContent,
    has_image: bool,
    outcomes: &AssertOutcomes,
) -> (r: AssertNext)
    ensures
        definition_step(
            r,
            *registry,
            *def,
            llm::option_view(assert_text),
            *page,
            has_image,
            *outcomes,
        ),
{
    let wanted: Option<&str> = match assert_text {
        Some(t) => Some(t),
        None => match &def.assert_text {
            Some(t) => Some(t.as_str()),
            None => None,
        },
    };
    assert(llm::option_view(wanted) == wanted_text(*def, llm::option_view(assert_text)));
    if let Some(agent) = &def.agent {
        if has_image {
            let name = steps::glue("[assert] ", def.name.as_str());
            return finished(
                name.as_str(),
                StepStatus::Failed,
                "agent-backed assertions do not support screenshots",
            );
        }
        let template = match &def.task_template {
            Some(t) => t.as_str(),
            None => "Evaluate the assertion",
        };
        let filled_in = fill(template, page, expected_text(wanted));
        let task = text::replace_text(filled_in.as_str(), "{task}", "");
        return run_agent_step(
            registry,
            agent.as_str(),
            task.as_str(),
            def.name.as_str(),
            &outcomes.reply,
        );
    }
    if let (Some(system), Some(template)) = (&def.system, &def.user_template) {
        return run_custom_preset(
            def.name.as_str(),
            system.as_str(),
            template.as_str(),
            wanted,
            page,
            &outcomes.reply,
        );
    }
    if let Some(preset) = &def.preset {
        if text::same_text(preset.as_str(), "layout_no_issues") {
            return run_layout_preset(&outcomes.scan);
        }
        return run_preset(preset.as_str(), wanted, page, has_image, &outcomes.reply);
    }
    if let Some(prompt) = &def.prompt {
        return run_custom(prompt.as_str(), page, has_image, &outcomes.reply);
    }
    let name = steps::glue("[assert] ", def.name.as_str());
    finished(
        name.as_str(),
        StepStatus::Failed,
        "definition has no preset, prompt, or system+user_template",
    )
}

/// What an assert step asks for.
pub struct AssertStep<'a> {
    /// Name of a definition.
    pub definition: Option<&'a str>,
    /// Name of a built-in preset.
    pub preset: Option<&'a str>,
    /// A custom prompt.
    pub prompt: Option<&'a str>,
    /// The text that is expected.
    pub assert_text: Option<&'a str>,
    /// Whether a picture of the page is attached.
    pub screenshot: bool,
    /// The endpoint of the step, or else of the test.
    pub endpoint: Option<&'a str>,
}

/// What an assert step does once the page, and the picture where one is asked
/// for, is there.
pub open spec fn assertion_step(
    r: AssertNext,
    registry: EndpointRegistry,
    definitions: Seq<AssertDefinition>,
    step: AssertStep<'_>,
    page: PageContent,
    outcomes: AssertOutcomes,
) -> bool {
    if step.definition is Some {
        match definition_of(definitions, step.definition->0@) {
            Some(def) => definition_step(
                r,
                registry,
                def,
                llm::option_view(step.assert_text),
                page,
                step.screenshot,
                outcomes,
            ),
            None => r.done(
                "[assert] "@ + step.definition->0@,
                StepStatus::Failed,
                "definition '"@ + step.definition->0@ + "' not found"@,
            ),
        }
    } else if step.preset is Some {
        if step.preset->0@ == "layout_no_issues"@ {
            layout_step(r, outcomes.scan)
        } else {
            preset_step(
                r,
                step.preset->0@,
                llm::option_view(step.assert_text),
                page,
                step.screenshot,
                outcomes.reply,
            )
        }
    } else if step.prompt is Some {
        evaluates(
            r,
            "[assert] custom"@,
            CUSTOM_SYSTEM@,
            custom_prompt(step.prompt->0@, page, step.screenshot),
            outcomes.reply,
        )
    } else {
        r.done(
            "[assert]"@,
            StepStatus::Skipped,
            "no definition, preset, or prompt specified"@,
        )
    }
}

/// Evaluates an assert step whose page, and picture where one is asked for,
/// is there.
fn evaluate_step(
    registry: &EndpointRegistry,
    definitions: &Vec<AssertDefinition>,
    step: &AssertStep<'_>,
    page: &PageContent,
    outcomes: &AssertOutcomes,
) -> (r: AssertNext)
    ensures
        assertion_step(r, *registry, definitions@, *step, *page, *outcomes),
{
    if let Some(def_name) = step.definition {
        return match find_definition(definitions, def_name) {
            Some(def) => run_assert_def(
                registry,
                def,
                step.assert_text,
                page,
                step.screenshot,
                outcomes,
            ),
            None => {
                let name = steps::glue("[assert] ", def_name);
                let message = steps::glue3("definition '", def_name, "' not found");
                finished(name.as_str(), StepStatus::Failed, message.as_str())
            },
        };
    }
    if let Some(preset_name) = step.preset {
        if text::same_text(preset_name, "layout_no_issues") {
            return run_layout_preset(&outcomes.scan);
        }
        return run_preset(
            preset_name,
            step.assert_text,
            page,
            step.screenshot,
            &outcomes.reply,
        );
    }
    if let Some(prompt) = step.prompt {
        return run_custom(prompt, page, step.screenshot, &outcomes.reply);
    }
    finished("[assert]", StepStatus::Skipped, "no definition, preset, or prompt specified")
}

/// The next move of an assertion.
pub open spec fn assert_next(
    r: AssertNext,
    registry: EndpointRegistry,
    definitions: Seq<AssertDefinition>,
    step: AssertStep<'_>,
    max_dimension: Option<u32>,
    page: Option<PageContent>,
    image: Option<Result<String, String>>,
    outcomes: AssertOutcomes,
) -> bool {
    match page {
        None => r == (AssertNext::ReadPage { wait_ms: 500 }),
        Some(p) => if !step.screenshot {
            assertion_step(r, registry, definitions, step, p, outcomes)
        } else {
            let ep = registry.eps()[registry.chosen(
                llm::option_view(step.endpoint),
                TaskType::Assertion,
            )->0];
            if !ep.vision {
                r.done(
                    "[assert]"@,
                    StepStatus::Failed,
                    "screenshot requested but endpoint '"@ + ep.name@
                        + "' does not declare vision = true (add vision = true to its [config.endpoints] entry)"@,
                )
            } else {
                match image {
                    None => r == (AssertNext::Capture {
                        max_dimension: match max_dimension {
                            Some(m) => m,
                            None => vision::DEFAULT_MAX_DIMENSION,
                        },
                    }),
                    Some(Err(e)) => r.done(
                        "[assert]"@,
                        StepStatus::Failed,
                        "screenshot capture failed: "@ + e@,
                    ),
                    Some(Ok(_)) => assertion_step(
                        r,
                        registry,
                        definitions,
                        step,
                        p,
                        outcomes,
                    ),
                }
            }
        },
    }
}

/// Runs an assert step: reads the page after half a second, captures the
/// viewport where a picture is asked for, and evaluates the assertion. A
/// picture needs an endpoint that declares `vision = true`.
///
/// `page` is what the page showed and `image` what the capture yielded; what
/// has not happened yet is `None`.
pub fn run_assert(
    registry: &EndpointRegistry,
    definitions: &Vec<AssertDefinition>,
    step: &AssertStep<'_>,
    max_dimension: Option<u32>,
    page: &Option<PageContent>,
    image: &Option<Result<String, String>>,
    outcomes: &AssertOutcomes,
) -> (r: AssertNext)
    requires
        step.screenshot ==> registry.chosen(
            llm::option_view(step.endpoint),
            TaskType::Assertion,
        ) is Some,
    ensures
        assert_next(
            r,
            *registry,
            definitions@,
            *step,
            max_dimension,
            *page,
            *image,
            *outcomes,
        ),
{
    let shown = match page {
        None => {
            return AssertNext::ReadPage { wait_ms: 500 };
        },
        Some(p) => p,
    };
    if step.screenshot {
        let ep = registry.resolve(step.endpoint, TaskType::Assertion);
        if !ep.vision {
            let message = steps::glue3(
                "screenshot requested but endpoint '",
                ep.name.as_str(),
                "' does not declare vision = true (add vision = true to its [config.endpoints] entry)",
            );
            return finished("[assert]", StepStatus::Failed, message.as_str());
        }
        match image {
            None => {
                let edge: u32 = match max_dimension {
                    Some(m) => m,
                    None => vision::DEFAULT_MAX_DIMENSION,
                };
                return AssertNext::Capture { max_dimension: edge };
            },
            Some(Err(e)) => {
                let message = steps::glue("screenshot capture failed: ", e.as_str());
                return finished("[assert]", StepStatus::Failed, message.as_str());
            },
            Some(Ok(_)) => {},
        }
    }
    evaluate_step(registry, definitions, step, shown, outcomes)
}

/// Whatever an assertion template says, the LLM is shown the content of the
/// page: the template refers to it, or it is appended.
pub proof fn law_assertions_see_the_page(template: Seq<char>, page: PageContent, wanted: Seq<char>)
    ensures
        ({
            let prompt = template_prompt(template, page, wanted);
            let from = prompt.len() - page.body_text@.len();
            text::has_text(template, "{content}"@) || (0 <= from && prompt.skip(from)
                == page.body_text@)
        }),
{
    let prompt = template_prompt(template, page, wanted);
    if !text::has_text(template, "{content}"@) {
        assert(prompt.skip(prompt.len() - page.body_text@.len()) =~= page.body_text@);
    }
}

/// The layout scan never asks the LLM.
pub proof fn law_layout_scan_is_free(r: AssertNext, scan: Option<Result<Vec<LayoutIssue>, String>>)
    requires
        layout_step(r, scan),
    ensures
        !(r is Ask),
{
}

/// A step passes if and only if the trimmed, lower-cased answer begins with
/// the letters p, a, s, s; else it fails with the answer as its message. So an
/// answer that begins with any other letter never passes, whatever follows.
pub proof fn law_verdict_is_the_first_word(
    r: StepResult,
    name: Seq<char>,
    answer: Seq<char>,
    lower: Seq<char>,
)
    requires
        judged_as(r, name, answer, lower),
    ensures
        ({
            let t = text::trimmed(lower);
            let says_pass = t.len() >= 4 && t[0] == 'p' && t[1] == 'a' && t[2] == 's' && t[3] == 's';
            &&& r.name@ == name
            &&& r.status == StepStatus::Passed <==> says_pass
            &&& r.status == StepStatus::Failed <==> !says_pass
            &&& !says_pass ==> r.message@ == answer
            &&& says_pass ==> r.message@ == seq!['P', 'A', 'S', 'S']
        }),
{
    reveal_strlit("pass");
    reveal_strlit("PASS");
    let t = text::trimmed(lower);
    assert("PASS"@ =~= seq!['P', 'A', 'S', 'S']);
    if t.len() >= 4 {
        let head = t.subrange(0, 4);
        if t[0] == 'p' && t[1] == 'a' && t[2] == 's' && t[3] == 's' {
            assert(head =~= "pass"@);
        }
        if head == "pass"@ {
            assert(head[0] == 'p' && head[1] == 'a' && head[2] == 's' && head[3] == 's');
        }
    }
}

/// An LLM assertion asks before it judges: without a reply the LLM is asked
/// with the given prompts, a failed call fails the step and says why, and an
/// answer is judged by its first word.
pub proof fn law_assertions_follow_the_answer(
    r: AssertNext,
    name: Seq<char>,
    system: Seq<char>,
    user: Seq<char>,
    reply: Option<Result<String, String>>,
)
    requires
        evaluates(r, name, system, user, reply),
    ensures
        reply is None <==> r is Ask,
        r matches AssertNext::Ask { system: s, user: u } ==> s@ == system && u@ == user,
        reply matches Some(Err(e)) ==> (r matches AssertNext::Done(x) && x.status
            == StepStatus::Failed && text::has_text(x.message@, e@)),
        reply matches Some(Ok(answer)) ==> (r matches AssertNext::Done(x) && {
            let t = text::trimmed(text::lowered(answer@));
            x.status == StepStatus::Passed <==> t.len() >= 4 && t[0] == 'p' && t[1] == 'a' && t[2]
                == 's' && t[3] == 's'
        }),
{
    match reply {
        None => {},
        Some(Err(e)) => {
            let m = "LLM assertion call failed: "@ + e@;
            let at = "LLM assertion call failed: "@.len() as int;
            assert(m.subrange(at, at + e@.len()) =~= e@);
            assert(text::occurs_at(m, e@, at));
        },
        Some(Ok(answer)) => {
            law_verdict_is_the_first_word(
                r->Done_0,
                name,
                answer@,
                text::lowered(answer@),
            );
        },
    }
}

/// The reply of an agent fails the step if and only if it begins with the
/// letters f, a, i, l, and is quoted at the end of the message.
pub proof fn law_agents_fail_in_so_many_words(
    r: StepResult,
    name: Seq<char>,
    reply: Seq<char>,
    lower: Seq<char>,
)
    requires
        agent_verdict(r, name, reply, lower),
    ensures
        r.name@ == name,
        r.status == StepStatus::Failed <==> lower.len() >= 4 && lower[0] == 'f' && lower[1] == 'a'
            && lower[2] == 'i' && lower[3] == 'l',
        r.status != StepStatus::Failed ==> r.status == StepStatus::Passed,
        r.message@.len() >= reply.len(),
        r.message@.skip(r.message@.len() - reply.len()) == reply,
{
    reveal_strlit("pass");
    reveal_strlit("fail");
    if lower.len() >= 4 {
        let head = lower.subrange(0, 4);
        if lower[0] == 'f' && lower[1] == 'a' && lower[2] == 'i' && lower[3] == 'l' {
            assert(head =~= "fail"@);
        }
        assert(head[0] == lower[0] && head[1] == lower[1] && head[2] == lower[2] && head[3]
            == lower[3]);
    }
    assert(r.message@.skip(r.message@.len() - reply.len()) =~= reply);
}

/// The layout scan passes if and only if it found nothing; else it fails, and
/// says how many defects there are and what the first is.
#[verifier::rlimit(60)]
pub proof fn law_layout_scan_reports_defects(
    r: AssertNext,
    scan: Option<Result<Vec<LayoutIssue>, String>>,
)
    requires
        layout_step(r, scan),
    ensures
        scan is None <==> r is ScanLayout,
        scan is Some ==> (r matches AssertNext::Done(x) && {
            &&& x.status == StepStatus::Passed <==> (scan->0 matches Ok(issues) && issues@.len()
                == 0)
            &&& x.status == StepStatus::Failed <==> (scan->0 is Err || (scan->0)->Ok_0@.len() > 0)
            &&& scan->0 matches Err(e) ==> text::has_text(x.message@, e@)
            &&& scan->0 matches Ok(issues) ==> issues@.len() > 0 ==> text::has_text(
                x.message@,
                text::dec(issues@.len()),
            ) && text::has_text(x.message@, issues@[0].detail@)
        }),
{
    match scan {
        None => {},
        Some(Err(e)) => {
            let lead = "layout scan JS failed: "@;
            text::lemma_middle(lead, e@, Seq::empty());
            assert(lead + e@ + Seq::<char>::empty() =~= lead + e@);
        },
        Some(Ok(issues)) => {
            if issues@.len() > 0 {
                let lead = "FAIL — "@;
                let count = text::dec(issues@.len());
                let mid = " layout defect(s) detected:\n"@;
                let lines = report_lines(issues@);
                let list = text::joined(lines, "\n"@);
                text::lemma_middle(lead, count, mid + list);
                assert(lead + count + (mid + list) =~= lead + count + mid + list);
                lemma_first_joined(lines, "\n"@);
                let rest = list.skip(lines[0].len() as int);
                let first = issues@[0];
                if issues@.len() > LISTED_ISSUES {
                    assert(issues@.take(LISTED_ISSUES as int)[0] == first);
                }
                assert(lines[0] == issue_line(first));
                let head = "- ["@ + first.issue_type@ + "] "@ + first.element@ + ": "@;
                text::lemma_middle(lead + count + mid + head, first.detail@, rest);
                assert(list =~= lines[0] + rest);
                assert(lead + count + mid + head + first.detail@ + rest =~= lead + count + mid
                    + list);
            }
        },
    }
}

/// Joined texts begin with the first.
proof fn lemma_first_joined(list: Seq<Seq<char>>, sep: Seq<char>)
    requires
        list.len() > 0,
    ensures
        text::joined(list, sep).len() >= list[0].len(),
        text::joined(list, sep).take(list[0].len() as int) == list[0],
    decreases list.len(),
{
    if list.len() > 1 {
        lemma_first_joined(list.drop_last(), sep);
        assert(text::joined(list, sep).take(list[0].len() as int) =~= text::joined(
            list.drop_last(),
            sep,
        ).take(list[0].len() as int));
    } else {
        assert(list[0].take(list[0].len() as int) =~= list[0]);
    }
}

/// Each variable of a template stands for its part of the page or the text
/// that is expected, and what stands around it is kept.
#[verifier::rlimit(60)]
pub proof fn law_templates_are_filled_in(
    before: Seq<char>,
    after: Seq<char>,
    page: PageContent,
    wanted: Seq<char>,
)
    requires
        text::lacks(before, '{'),
        text::lacks(after, '{'),
        text::lacks(page.url@, '{'),
        text::lacks(page.title@, '{'),
        text::lacks(page.body_text@, '{'),
        text::lacks(wanted, '{'),
    ensures
        filled(before + after, page, wanted) == before + after,
        filled(before + "{url}"@ + after, page, wanted) == before + page.url@ + after,
        filled(before + "{title}"@ + after, page, wanted) == before + page.title@ + after,
        filled(before + "{content}"@ + after, page, wanted) == before + page.body_text@ + after,
        filled(before + "{expected_text}"@ + after, page, wanted) == before + wanted + after,
        filled(before + "{description}"@ + after, page, wanted) == before + after,
{
    reveal_strlit("{url}");
    reveal_strlit("{title}");
    reveal_strlit("{content}");
    reveal_strlit("{expected_text}");
    reveal_strlit("{description}");
    reveal_strlit("");
    lemma_fill_plain(before + after, page, wanted);
    lemma_fill_plain(before + page.url@ + after, page, wanted);
    lemma_fill_plain(before + page.title@ + after, page, wanted);
    lemma_fill_plain(before + page.body_text@ + after, page, wanted);
    lemma_fill_plain(before + wanted + after, page, wanted);
    text::law_replacing_one_occurrence(before, "{url}"@, page.url@, after);
    text::law_replacing_one_occurrence(before, "{title}"@, page.title@, after);
    text::law_replacing_one_occurrence(before, "{content}"@, page.body_text@, after);
    text::law_replacing_one_occurrence(before, "{expected_text}"@, wanted, after);
    text::law_replacing_one_occurrence(before, "{description}"@, ""@, after);
    assert(before + ""@ + after =~= before + after);
    lemma_other_variable(before, "{title}"@, after, "{url}"@, page.url@);
    lemma_other_variable(before, "{content}"@, after, "{url}"@, page.url@);
    lemma_other_variable(before, "{content}"@, after, "{title}"@, page.title@);
    lemma_other_variable(before, "{expected_text}"@, after, "{url}"@, page.url@);
    lemma_other_variable(before, "{expected_text}"@, after, "{title}"@, page.title@);
    lemma_other_variable(before, "{expected_text}"@, after, "{content}"@, page.body_text@);
    lemma_other_variable(before, "{description}"@, after, "{url}"@, page.url@);
    lemma_other_variable(before, "{description}"@, after, "{title}"@, page.title@);
    lemma_other_variable(before, "{description}"@, after, "{content}"@, page.body_text@);
    lemma_other_variable(before, "{description}"@, after, "{expected_text}"@, wanted);
}

/// A text without braces has nothing to fill in.
proof fn lemma_fill_plain(s: Seq<char>, page: PageContent, wanted: Seq<char>)
    requires
        text::lacks(s, '{'),
    ensures
        text::replaced(s, "{url}"@, page.url@) == s,
        text::replaced(s, "{title}"@, page.title@) == s,
        text::replaced(s, "{content}"@, page.body_text@) == s,
        text::replaced(s, "{expected_text}"@, wanted) == s,
        text::replaced(s, "{description}"@, ""@) == s,
        filled(s, page, wanted) == s,
{
    reveal_strlit("{url}");
    reveal_strlit("{title}");
    reveal_strlit("{content}");
    reveal_strlit("{expected_text}");
    reveal_strlit("{description}");
    text::lemma_replaced_absent(s, "{url}"@, page.url@);
    text::lemma_replaced_absent(s, "{title}"@, page.title@);
    text::lemma_replaced_absent(s, "{content}"@, page.body_text@);
    text::lemma_replaced_absent(s, "{expected_text}"@, wanted);
    text::lemma_replaced_absent(s, "{description}"@, ""@);
}

/// One variable is not another.
proof fn lemma_other_variable(
    before: Seq<char>,
    there: Seq<char>,
    after: Seq<char>,
    from: Seq<char>,
    to: Seq<char>,
)
    requires
        text::lacks(before, '{'),
        text::lacks(after, '{'),
        there.len() >= 2,
        from.len() >= 2,
        there[0] == '{',
        from[0] == '{',
        there[1] != from[1],
        text::lacks(there.skip(1), '{'),
    ensures
        text::replaced(before + there + after, from, to) == before + there + after,
    decreases before.len(),
{
    let s = before + there + after;
    if before.len() > 0 {
        assert(s[0] == before[0]);
        if text::occurs_at(s, from, 0) {
            assert(s.subrange(0, from.len() as int)[0] == s[0]);
        }
        let rest = before.skip(1);
        assert forall|i: int| 0 <= i < rest.len() implies #[trigger] rest[i] != '{' by {
            assert(rest[i] == before[i + 1]);
        }
        assert(s.skip(1) =~= rest + there + after);
        lemma_other_variable(rest, there, after, from, to);
        assert(seq![s[0]] + (rest + there + after) =~= s);
    } else {
        assert(s[0] == '{' && s[1] == there[1]);
        if text::occurs_at(s, from, 0) {
            assert(s.subrange(0, from.len() as int)[1] == s[1]);
        }
        let rest = there.skip(1) + after;
        assert(s.skip(1) =~= rest);
        assert forall|i: int| 0 <= i < rest.len() implies #[trigger] rest[i] != '{' by {
            if i < there.len() - 1 {
                assert(there.skip(1)[i] == rest[i]);
            } else {
                assert(after[i - (there.len() - 1)] == rest[i]);
            }
        }
        text::lemma_replaced_absent(rest, from, to);
        assert(seq![s[0]] + rest =~= s);
    }
}

/// A custom prompt goes to the LLM with the address, the title and the content
/// of the page.
#[verifier::rlimit(60)]
pub proof fn law_custom_prompts_show_the_page(prompt: Seq<char>, page: PageContent, has_image: bool)
    ensures
        ({
            let p = custom_prompt(prompt, page, has_image);
            &&& text::has_text(p, prompt)
            &&& text::has_text(p, page.url@)
            &&& text::has_text(p, page.title@)
            &&& text::has_text(p, page.body_text@)
        }),
{
    let p = custom_prompt(prompt, page, has_image);
    let tail = if has_image {
        "\n\nA screenshot of the page is attached — inspect it for visual evidence when answering."@
    } else {
        Seq::empty()
    };
    let a = "Page URL: "@;
    let b = "\nPage Title: "@;
    let c = "\n\nPage Content:\n"@;
    let d = "\n\nAssertion: "@;
    text::lemma_middle(a, page.url@, b + page.title@ + c + page.body_text@ + d + prompt + tail);
    assert(a + page.url@ + (b + page.title@ + c + page.body_text@ + d + prompt + tail) =~= p);
    text::lemma_middle(a + page.url@ + b, page.title@, c + page.body_text@ + d + prompt + tail);
    assert(a + page.url@ + b + page.title@ + (c + page.body_text@ + d + prompt + tail) =~= p);
    text::lemma_middle(a + page.url@ + b + page.title@ + c, page.body_text@, d + prompt + tail);
    assert(a + page.url@ + b + page.title@ + c + page.body_text@ + (d + prompt + tail) =~= p);
    text::lemma_middle(a + page.url@ + b + page.title@ + c + page.body_text@ + d, prompt, tail);
    assert(a + page.url@ + b + page.title@ + c + page.body_text@ + d + prompt + tail =~= p);
}

/// Of definitions with one name the last counts.
pub proof fn law_last_definition_counts(definitions: Seq<AssertDefinition>, name: Seq<char>)
    ensures
        match definition_of(definitions, name) {
            Some(def) => exists|i: int|
                0 <= i < definitions.len() && #[trigger] definitions[i] == def && def.name@ == name
                    && forall|j: int|
                    i < j < definitions.len() ==> (#[trigger] definitions[j]).name@ != name,
            None => forall|j: int|
                0 <= j < definitions.len() ==> (#[trigger] definitions[j]).name@ != name,
        },
    decreases definitions.len(),
{
    if definitions.len() > 0 {
        let last = definitions.len() - 1;
        if definitions[last].name@ == name {
            assert(definitions[last] == definitions.last());
        } else {
            let rest = definitions.drop_last();
            law_last_definition_counts(rest, name);
            if let Some(def) = definition_of(rest, name) {
                let i = choose|i: int|
                    0 <= i < rest.len() && #[trigger] rest[i] == def && def.name@ == name
                        && forall|j: int|
                        i < j < rest.len() ==> (#[trigger] rest[j]).name@ != name;
                assert(definitions[i] == def);
                assert forall|j: int| i < j < definitions.len() implies (
                #[trigger] definitions[j]).name@ != name by {
                    if j < last {
                        assert(rest[j] == definitions[j]);
                    }
                }
            } else {
                assert forall|j: int| 0 <= j < definitions.len() implies (
                #[trigger] definitions[j]).name@ != name by {
                    if j < last {
                        assert(rest[j] == definitions[j]);
                    }
                }
            }
        }
    }
}

/// The text that a step expects wins over that of its definition, which counts
/// where the step gives none.
pub proof fn law_text_of_the_step_wins(def: AssertDefinition, own: Seq<char>)
    ensures
        wanted_text(def, Some(own)) == Some(own),
        def.assert_text matches Some(t) ==> wanted_text(def, None) == Some(t@),
        def.assert_text is None ==> wanted_text(def, None) is None,
{
}

/// A screenshot is only taken, and the LLM only asked about it, where the
/// endpoint declares vision; and nothing is evaluated before the page is
/// read and the picture taken.
pub proof fn law_screenshots_need_vision(
    r: AssertNext,
    registry: EndpointRegistry,
    definitions: Seq<AssertDefinition>,
    step: AssertStep<'_>,
    max_dimension: Option<u32>,
    page: Option<PageContent>,
    image: Option<Result<String, String>>,
    outcomes: AssertOutcomes,
)
    requires
        assert_next(r, registry, definitions, step, max_dimension, page, image, outcomes),
    ensures
        page is None <==> r is ReadPage,
        page is Some && step.screenshot ==> {
            let ep = registry.eps()[registry.chosen(
                llm::option_view(step.endpoint),
                TaskType::Assertion,
            )->0];
            &&& !ep.vision ==> (r matches AssertNext::Done(x) && x.status == StepStatus::Failed)
            &&& ep.vision && image is None ==> (r matches AssertNext::Capture { max_dimension: m }
                && (max_dimension matches Some(d) ==> m == d) && (max_dimension is None ==> m
                == 1400))
            &&& ep.vision && image is Some && image->0 is Err ==> (r matches AssertNext::Done(x)
                && x.status == StepStatus::Failed)
        },
        r is Capture ==> step.screenshot && image is None,
{
}

/// What an assert step evaluates: its definition, else its preset, else its
/// prompt; a step with none of them is skipped. So a plain prompt is put to the
/// LLM, and a definition that does not exist fails the step.
pub proof fn law_assert_steps_evaluate_what_they_name(
    r: AssertNext,
    registry: EndpointRegistry,
    definitions: Seq<AssertDefinition>,
    step: AssertStep<'_>,
    page: PageContent,
    outcomes: AssertOutcomes,
)
    requires
        assertion_step(r, registry, definitions, step, page, outcomes),
    ensures
        step.definition matches Some(d) && definition_of(definitions, d@) is None ==> (
        r matches AssertNext::Done(x) && x.status == StepStatus::Failed),
        step.definition is None && step.preset is None && step.prompt is None ==> (
        r matches AssertNext::Done(x) && x.status == StepStatus::Skipped),
        step.definition is None && step.preset is None && step.prompt is Some && outcomes.reply
            is None ==> (r matches AssertNext::Ask { user, .. } && text::has_text(
            user@,
            step.prompt->0@,
        ) && text::has_text(user@, page.body_text@)),
        step.definition is None && (step.preset matches Some(p) && preset_of(p@) is None) ==> (
        r matches AssertNext::Done(x) && x.status == StepStatus::Failed),
        step.definition is None && (step.preset matches Some(p) && text::occurs_at(
            p@,
            "visual_"@,
            0,
        )) && !step.screenshot ==> !(r is Ask),
{
    if step.definition is None && step.preset is None && step.prompt is Some {
        law_custom_prompts_show_the_page(step.prompt->0@, page, step.screenshot);
    }
    if let Some(p) = step.preset {
        if p@ == "layout_no_issues"@ {
            reveal_strlit("layout_no_issues");
            reveal_strlit("visual_");
            assert(!text::occurs_at(p@, "visual_"@, 0)) by {
                if text::occurs_at(p@, "visual_"@, 0) {
                    assert(p@.subrange(0, 7)[0] == p@[0]);
                }
            }
        }
    }
}

/// An agent is called at its own address with the task, a tool with the
/// command and arguments of its server; a missing endpoint, address or command
/// fails the step.
pub proof fn law_agents_and_tools_are_called_as_configured(
    r: AssertNext,
    registry: EndpointRegistry,
    agent: Seq<char>,
    task: Seq<char>,
    display: Seq<char>,
    reply: Option<Result<String, String>>,
)
    requires
        agent_step(r, registry, agent, task, display, reply),
    ensures
        r matches AssertNext::CallAgent { url, task: t } ==> {
            &&& t@ == task
            &&& reply is None
            &&& endpoints::index_named(registry.eps(), agent) matches Some(i) && url@
                == registry.eps()[i].url@ && url@.len() > 0
        },
        endpoints::index_named(registry.eps(), agent) is None ==> (r matches AssertNext::Done(x)
            && x.status == StepStatus::Failed),
        reply matches Some(Err(e)) ==> (r matches AssertNext::Done(x) && x.status
            == StepStatus::Failed),
        reply is None && (endpoints::index_named(registry.eps(), agent) matches Some(i)
            && registry.eps()[i].url@.len() > 0) ==> r is CallAgent,
{
}

/// A tool is called with the command and arguments of its server; its step
/// passes if and only if the tool reports no error.
pub proof fn law_tools_pass_without_error(
    r: AssertNext,
    registry: EndpointRegistry,
    server: Seq<char>,
    tool: Seq<char>,
    reply: Option<Result<McpToolResult, String>>,
)
    requires
        mcp_next(r, registry, server, tool, reply),
    ensures
        r matches AssertNext::CallTool { command, args } ==> {
            &&& reply is None
            &&& endpoints::index_named(registry.eps(), server) matches Some(i)
                && registry.eps()[i].command matches Some(c) && command@ == c@ && args@
                == registry.eps()[i].args@
        },
        r matches AssertNext::Done(x) ==> (x.status == StepStatus::Passed <==> (
        endpoints::index_named(registry.eps(), server) matches Some(i)
            && registry.eps()[i].command matches Some(c) && c@.len() > 0 && reply is Some
            && reply->0 is Ok && !(reply->0->Ok_0).isError)),
        r matches AssertNext::Done(x) ==> x.status == StepStatus::Passed || x.status
            == StepStatus::Failed,
{
}

/// A definition is evaluated by its agent, else by its own prompts, else by its
/// preset, else by its prompt; one with none of them fails.
pub proof fn law_definitions_are_evaluated_by_what_they_have_first(
    r: AssertNext,
    registry: EndpointRegistry,
    def: AssertDefinition,
    assert_text: Option<Seq<char>>,
    page: PageContent,
    has_image: bool,
    outcomes: AssertOutcomes,
)
    requires
        definition_step(r, registry, def, assert_text, page, has_image, outcomes),
    ensures
        def.agent is Some && has_image ==> (r matches AssertNext::Done(x) && x.status
            == StepStatus::Failed),
        def.agent is Some ==> !(r is Ask) && !(r is ScanLayout),
        def.agent is None ==> !(r is CallAgent),
        (def.agent is Some && !has_image && outcomes.reply is None && (endpoints::index_named(
            registry.eps(),
            def.agent->0@,
        ) matches Some(i) && registry.eps()[i].url@.len() > 0)) ==> (
        r matches AssertNext::CallAgent { task, .. } && task@ == agent_task(def, page, assert_text)),
        def.agent is None && def.system is Some && def.user_template is Some && outcomes.reply
            is None ==> (r matches AssertNext::Ask { system, user } && system@ == def.system->0@
            && user@ == template_prompt(
            def.user_template->0@,
            page,
            match wanted_text(def, assert_text) {
                Some(t) => t,
                None => ""@,
            },
        )),
        def.agent is None && (def.system is None || def.user_template is None) && (
        def.preset matches Some(p) && p@ == "layout_no_issues"@) ==> !(r is Ask) && (outcomes.scan
            is None ==> r is ScanLayout),
        def.agent is None && (def.system is None || def.user_template is None) && (
        def.preset matches Some(p) && p@ != "layout_no_issues"@ && preset_of(p@) is None) ==> (
        r matches AssertNext::Done(x) && x.status == StepStatus::Failed),
        def.agent is None && (def.system is None || def.user_template is None) && def.preset is None
            && def.prompt is Some && outcomes.reply is None ==> (
        r matches AssertNext::Ask { user, .. } && text::has_text(user@, def.prompt->0@)),
        def.agent is None && (def.system is None || def.user_template is None) && def.preset is None
            && def.prompt is None ==> (r matches AssertNext::Done(x) && x.status
            == StepStatus::Failed),
{
    if def.prompt is Some {
        law_custom_prompts_show_the_page(def.prompt->0@, page, has_image);
    }
}

/// The LLM sees the page with every template: where the template does not say
/// where, its address, title and content are put behind it.
pub proof fn law_templates_always_show_the_page(
    template: Seq<char>,
    page: PageContent,
    wanted: Seq<char>,
)
    ensures
        text::has_text(template, "{content}"@) ==> template_prompt(template, page, wanted) == filled(
            template,
            page,
            wanted,
        ),
        !text::has_text(template, "{content}"@) ==> {
            let p = template_prompt(template, page, wanted);
            let f = filled(template, page, wanted);
            &&& p.len() >= f.len() && p.take(f.len() as int) == f
            &&& text::has_text(p, page.url@)
            &&& text::has_text(p, page.title@)
            &&& text::has_text(p, page.body_text@)
        },
{
    if !text::has_text(template, "{content}"@) {
        let p = template_prompt(template, page, wanted);
        let f = filled(template, page, wanted);
        let a = "\n\nPage URL: "@;
        let b = "\nPage Title: "@;
        let c = "\n\nPage Content:\n"@;
        lemma_page_behind(f, a, page.url@, b, page.title@, c, page.body_text@, p);
    }
}

/// The page behind a template.
proof fn lemma_page_behind(
    f: Seq<char>,
    a: Seq<char>,
    url: Seq<char>,
    b: Seq<char>,
    title: Seq<char>,
    c: Seq<char>,
    body: Seq<char>,
    p: Seq<char>,
)
    requires
        p == f + a + url + b + title + c + body,
    ensures
        p.len() >= f.len(),
        p.take(f.len() as int) == f,
        text::has_text(p, url),
        text::has_text(p, title),
        text::has_text(p, body),
{
    assert(p.take(f.len() as int) =~= f);
    text::lemma_middle(f + a, url, b + title + c + body);
    assert(f + a + url + (b + title + c + body) =~= p);
    text::lemma_middle(f + a + url + b, title, c + body);
    assert(f + a + url + b + title + (c + body) =~= p);
    text::lemma_middle(f + a + url + b + title + c, body, Seq::empty());
    assert(f + a + url + b + title + c + body + Seq::<char>::empty() =~= p);
}

/// An agent step gives its agent the task, within the template of its
/// definition where it names one; a definition that is not there fails it.
pub proof fn law_agents_are_given_their_task(
    r: AssertNext,
    registry: EndpointRegistry,
    definitions: Seq<AssertDefinition>,
    agent: Seq<char>,
    task: Seq<char>,
    definition: Option<Seq<char>>,
    before: Seq<char>,
    after: Seq<char>,
)
    requires
        agent_next(r, registry, definitions, agent, task, definition, None),
        endpoints::index_named(registry.eps(), agent) matches Some(i)
            && registry.eps()[i].url@.len() > 0,
        text::lacks(before, '{') && text::lacks(after, '{'),
    ensures
        definition is None ==> (r matches AssertNext::CallAgent { task: t, .. } && t@ == task),
        definition is Some && definition_of(definitions, definition->0) is None ==> (
        r matches AssertNext::Done(x) && x.status == StepStatus::Failed),
        (definition is Some && (definition_of(definitions, definition->0) matches Some(def)
            && def.task_template matches Some(t) && t@ == before + "{task}"@ + after)) ==> (
        r matches AssertNext::CallAgent { task: t, .. } && t@ == before + task + after),
{
    reveal_strlit("{task}");
    text::law_replacing_one_occurrence(before, "{task}"@, task, after);
}

/// An assertion that an agent evaluates is put to it as its template says, or
/// else in general words.
pub proof fn law_agents_are_asked_to_evaluate(
    def: AssertDefinition,
    page: PageContent,
    assert_text: Option<Seq<char>>,
)
    ensures
        def.task_template is None ==> agent_task(def, page, assert_text)
            == "Evaluate the assertion"@,
        (def.task_template matches Some(t) && text::lacks(t@, '{')) ==> agent_task(
            def,
            page,
            assert_text,
        ) == def.task_template->0@,
{
    reveal_strlit("{task}");
    reveal_strlit("Evaluate the assertion");
    let wanted = expected(wanted_text(def, assert_text));
    let t = match def.task_template {
        Some(t) => t@,
        None => "Evaluate the assertion"@,
    };
    if text::lacks(t, '{') {
        lemma_fill_plain(t, page, wanted);
        text::lemma_replaced_absent(t, "{task}"@, ""@);
    } else if def.task_template is None {
        assert(text::lacks(t, '{'));
    }
}

/// There are seven presets; the visual ones are told by their names.
pub proof fn law_presets_are_known_by_name(name: Seq<char>)
    ensures
        preset_of(name) is Some <==> {
            ||| name == "no_error_on_page"@
            ||| name == "text_visible"@
            ||| name == "element_exists"@
            ||| name == "visual_no_issues"@
            ||| name == "visual_no_overlaps"@
            ||| name == "visual_text_visible"@
            ||| name == "layout_no_issues"@
        },
{
}

/// A visual preset without a picture fails, and so does one that is not known;
/// any other asks the LLM, with the page and the text that is expected.
pub proof fn law_visual_presets_need_a_picture(
    r: AssertNext,
    preset: Seq<char>,
    assert_text: Option<Seq<char>>,
    page: PageContent,
    has_image: bool,
    reply: Option<Result<String, String>>,
)
    requires
        preset_step(r, preset, assert_text, page, has_image, reply),
    ensures
        preset_of(preset) is None ==> (r matches AssertNext::Done(x) && x.status
            == StepStatus::Failed),
        preset_of(preset) is Some && text::occurs_at(preset, "visual_"@, 0) && !has_image ==> (
        r matches AssertNext::Done(x) && x.status == StepStatus::Failed),
        preset_of(preset) is Some && (has_image || !text::occurs_at(preset, "visual_"@, 0))
            && reply is None ==> (r matches AssertNext::Ask { system, user } && preset_of(preset)
            == Some((system@, (preset_of(preset)->0).1)) && user@ == template_prompt(
            (preset_of(preset)->0).1,
            page,
            match assert_text {
                Some(t) => t,
                None => ""@,
            },
        )),
{
}

/// The page is read after a short pause, before anything else.
pub proof fn law_pages_are_read_after_a_pause(
    r: AssertNext,
    registry: EndpointRegistry,
    definitions: Seq<AssertDefinition>,
    step: AssertStep<'_>,
    max_dimension: Option<u32>,
    image: Option<Result<String, String>>,
    outcomes: AssertOutcomes,
)
    requires
        assert_next(r, registry, definitions, step, max_dimension, None, image, outcomes),
    ensures
        r matches AssertNext::ReadPage { wait_ms } && wait_ms == 500,
{
}

/// Up to ten defects are listed, a line for each in their order; where there are
/// more, one line more tells how many are left.
pub proof fn law_ten_defects_are_listed(issues: Seq<LayoutIssue>, i: int)
    requires
        0 <= i < issues.len(),
    ensures
        issues.len() <= 10 ==> report_lines(issues).len() == issues.len(),
        issues.len() > 10 ==> report_lines(issues).len() == 11 && text::has_text(
            report_lines(issues)[10],
            text::dec((issues.len() - 10) as nat),
        ),
        i < 10 ==> text::has_text(report_lines(issues)[i], issues[i].detail@),
{
    if issues.len() > 10 {
        let more = text::dec((issues.len() - 10) as nat);
        text::lemma_middle("- … and "@, more, " more"@);
        assert(issues.take(10).len() == 10);
    }
    if i < 10 {
        let one = issues[i];
        if issues.len() > 10 {
            assert(issues.take(10)[i] == one);
        }
        assert(report_lines(issues)[i] == issue_line(one));
        let head = "- ["@ + one.issue_type@ + "] "@ + one.element@ + ": "@;
        text::lemma_middle(head, one.detail@, Seq::empty());
        assert(head + one.detail@ + Seq::<char>::empty() =~= issue_line(one));
    }
}

} // verus!
