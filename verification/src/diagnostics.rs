//! Failure diagnostics — page-state capture and artifact writing.
//!
//! When a step fails, the runner captures the current page state (URL,
//! title, visible text, error-ish alert elements) and saves a screenshot.
//! The formatted context is appended to step messages so CI logs answer the
//! classic "why did the wait time out?" question instead of printing a bare
//! timeout message.
use vstd::prelude::*;
use vstd::string::StringExecFns;
use crate::json;
use crate::llm;
use crate::text;

verus! {

/// Maximum length of visible text kept in the in-message excerpt.
pub const EXCERPT_LEN: usize = 160;

/// Maximum length of visible text kept for the printed diagnostics block.
pub const FULL_TEXT_LEN: usize = 1500;

/// JavaScript that collects visible "alert-like" elements — error banners,
/// toast/snackbars, validation messages, error cards.
pub const DIAGNOSTIC_ALERTS_JS: &'static str = r#"
(() => {
  const sel = '[role="alert"], [aria-live="assertive"], .alert, .error, .error-message, .errorMessage, .error-text, [data-error], [class*="error"], [class*="Error"], mat-snack-bar-container, .mat-mdc-snack-bar-container, .toast, .notification';
  const els = document.querySelectorAll(sel);
  const out = [];
  const seen = new Set();
  els.forEach((el) => {
    if (el.offsetParent === null && !el.closest('mat-snack-bar-container')) return;
    const text = (el.innerText || el.textContent || '').trim();
    if (!text || seen.has(text)) return;
    seen.add(text);
    out.push(text.substring(0, 200));
  });
  return JSON.stringify(out.slice(0, 6));
})()
"#;

/// Snapshot of the page at the moment a step failed.
pub struct PageState {
    /// Current URL.
    pub url: String,
    /// `document.title`.
    pub title: String,
    /// Visible body text (truncated).
    pub visible_text: String,
    /// Text of visible error/alert elements (truncated, deduplicated).
    pub alerts: Vec<String>,
}

/// The state of a page from what could be read of it.
pub open spec fn is_state(
    r: PageState,
    url: String,
    title: Option<String>,
    visible_text: Option<String>,
    alerts: Option<String>,
) -> bool {
    &&& r.url == url
    &&& r.title@ == llm::or_default(title, "unknown"@)
    &&& r.visible_text@ == match visible_text {
        Some(t) => text::shortened(t@, FULL_TEXT_LEN as nat),
        None => Seq::empty(),
    }
    &&& text::views(r.alerts@) == match alerts {
        Some(a) => json::string_list_of(a@),
        None => Seq::empty(),
    }
}

/// The page state from what the page answered. Never fails: what it did not
/// answer is left at a default, so that capturing it cannot mask the failure
/// of the step. `alerts` is the answer to [`DIAGNOSTIC_ALERTS_JS`].
pub fn page_state(
    url: String,
    title: Option<String>,
    visible_text: Option<String>,
    alerts: Option<String>,
) -> (r: PageState)
    ensures
        is_state(r, url, title, visible_text, alerts),
{
    let shown = match &visible_text {
        Some(t) => text::shorten(t.as_str(), FULL_TEXT_LEN),
        None => String::new(),
    };
    assert(visible_text is None ==> shown@ =~= Seq::<char>::empty());
    let list = match &alerts {
        Some(a) => json::string_list(a.as_str()),
        None => Vec::new(),
    };
    assert(alerts is None ==> text::views(list@) =~= Seq::<Seq<char>>::empty());
    PageState { url, title: llm::value_or(&title, "unknown"), visible_text: shown, alerts: list }
}

/// A text on one line.
pub open spec fn flattened(s: Seq<char>) -> Seq<char> {
    text::replaced(s, "\n"@, " ⏎ "@)
}

/// A flattened text has no line break.
proof fn lemma_flattened(s: Seq<char>)
    ensures
        text::lacks(flattened(s), '\n'),
{
    reveal_strlit("\n");
    reveal_strlit(" ⏎ ");
    assert("\n"@ =~= seq!['\n']);
    text::lemma_replaced_lacks(s, "\n"@, " ⏎ "@, '\n');
}

/// Puts a text on one line.
fn flatten(s: &str) -> (r: String)
    ensures
        r@ == flattened(s@),
        text::lacks(r@, '\n'),
{
    proof {
        lemma_flattened(s@);
    }
    text::replace_text(s, "\n", " ⏎ ")
}

/// The one-line excerpt of a page state.
pub open spec fn excerpt_of(state: PageState) -> Seq<char> {
    let visible = text::trimmed(state.visible_text@);
    "page: "@ + flattened(state.url@) + " ("@ + flattened(state.title@) + ")"@ + (if visible.len()
        > 0 {
        " — visible: \""@ + flattened(text::shortened(visible, EXCERPT_LEN as nat)) + "\""@
    } else {
        Seq::empty()
    }) + (if state.alerts@.len() > 0 {
        " — alerts: "@ + flattened(text::joined(text::views(state.alerts@), " | "@))
    } else {
        Seq::empty()
    })
}

/// Compact one-line excerpt of the page state, appended to step messages so
/// the summary line in CI logs stays self-contained.
pub fn inline_excerpt(state: &PageState) -> (r: String)
    ensures
        r@ == excerpt_of(*state),
        !r@.contains('\n'),
{
    proof {
        reveal_strlit("page: ");
        reveal_strlit(" (");
        reveal_strlit(")");
        reveal_strlit(" — visible: \"");
        reveal_strlit("\"");
        reveal_strlit(" — alerts: ");
    }
    let mut out = "page: ".to_owned();
    out.append(flatten(state.url.as_str()).as_str());
    out.append(" (");
    out.append(flatten(state.title.as_str()).as_str());
    out.append(")");
    let trimmed = text::trim_text(state.visible_text.as_str());
    let mut visible = String::new();
    if !trimmed.as_str().is_empty() {
        let excerpt = text::shorten(trimmed.as_str(), EXCERPT_LEN);
        visible = " — visible: \"".to_owned();
        visible.append(flatten(excerpt.as_str()).as_str());
        visible.append("\"");
    }
    assert(trimmed@.len() == 0 ==> visible@ =~= Seq::<char>::empty());
    assert(text::lacks(visible@, '\n'));
    out.append(visible.as_str());
    let mut alerts = String::new();
    if state.alerts.len() > 0 {
        alerts = " — alerts: ".to_owned();
        alerts.append(flatten(text::join(&state.alerts, " | ").as_str()).as_str());
    }
    assert(state.alerts@.len() == 0 ==> alerts@ =~= Seq::<char>::empty());
    assert(text::lacks(alerts@, '\n'));
    out.append(alerts.as_str());
    assert(text::lacks(out@, '\n'));
    out
}

/// One line for each alert.
pub open spec fn alert_lines(alerts: Seq<Seq<char>>) -> Seq<char>
    decreases alerts.len(),
{
    if alerts.len() == 0 {
        Seq::empty()
    } else {
        alert_lines(alerts.drop_last()) + "\n    │ alert:    "@ + alerts.last()
    }
}

/// The diagnostics block of a page state.
pub open spec fn context_of(state: PageState, screenshot: Option<Seq<char>>) -> Seq<char> {
    let visible = text::trimmed(state.visible_text@);
    "    │ url:      "@ + state.url@ + "\n    │ title:    "@ + state.title@ + alert_lines(
        text::views(state.alerts@),
    ) + (if visible.len() > 0 {
        "\n    │ content:  "@ + visible
    } else {
        Seq::empty()
    }) + (match screenshot {
        Some(path) => "\n    📸 screenshot: "@ + path,
        None => Seq::empty(),
    })
}

/// Multi-line diagnostics block printed after a step failure.
pub fn full_context(state: &PageState, screenshot: Option<&str>) -> (r: String)
    ensures
        r@ == context_of(*state, llm::option_view(screenshot)),
{
    let mut out = "    │ url:      ".to_owned();
    out.append(state.url.as_str());
    out.append("\n    │ title:    ");
    out.append(state.title.as_str());
    let ghost all = text::views(state.alerts@);
    let mut alerts = String::new();
    let mut i: usize = 0;
    assert(all.take(0) =~= Seq::<Seq<char>>::empty());
    while i < state.alerts.len()
        invariant
            all == text::views(state.alerts@),
            i <= state.alerts@.len(),
            alerts@ == alert_lines(all.take(i as int)),
        decreases state.alerts@.len() - i,
    {
        assert(all.take(i + 1).drop_last() =~= all.take(i as int));
        assert(all.take(i + 1).last() == state.alerts@[i as int]@);
        alerts.append("\n    │ alert:    ");
        alerts.append(state.alerts[i].as_str());
        i += 1;
    }
    assert(all.take(i as int) =~= all);
    out.append(alerts.as_str());
    let trimmed = text::trim_text(state.visible_text.as_str());
    let mut content = String::new();
    if !trimmed.as_str().is_empty() {
        content = "\n    │ content:  ".to_owned();
        content.append(trimmed.as_str());
    }
    assert(trimmed@.len() == 0 ==> content@ =~= Seq::<char>::empty());
    out.append(content.as_str());
    let mut shot = String::new();
    if let Some(path) = screenshot {
        shot = "\n    📸 screenshot: ".to_owned();
        shot.append(path);
    }
    assert(screenshot is None ==> shot@ =~= Seq::<char>::empty());
    out.append(shot.as_str());
    out
}

/// A letter or digit in lower case; a dash for anything else.
pub open spec fn slug_char(c: char) -> char {
    if 'a' <= c <= 'z' || '0' <= c <= '9' {
        c
    } else if 'A' <= c <= 'Z' {
        text::lower_char(c)
    } else {
        '-'
    }
}

/// `s` with every run of dashes made one dash.
pub open spec fn collapsed(s: Seq<char>) -> Seq<char>
    decreases s.len(),
{
    if s.len() == 0 {
        s
    } else {
        let before = collapsed(s.drop_last());
        if s.last() == '-' && before.len() > 0 && before.last() == '-' {
            before
        } else {
            before.push(s.last())
        }
    }
}

/// `s` without a dash at its front.
pub open spec fn without_leading_dash(s: Seq<char>) -> Seq<char> {
    if s.len() > 0 && s[0] == '-' {
        s.skip(1)
    } else {
        s
    }
}

/// `s` without a dash at its end.
pub open spec fn without_trailing_dash(s: Seq<char>) -> Seq<char> {
    if s.len() > 0 && s.last() == '-' {
        s.drop_last()
    } else {
        s
    }
}

/// The slug of a name before it is cut.
pub open spec fn long_slug(name: Seq<char>) -> Seq<char> {
    without_trailing_dash(
        without_leading_dash(collapsed(name.map_values(|c: char| slug_char(c)))),
    )
}

/// A name as letters, digits and single dashes, no longer than `max_len`.
pub open spec fn slug_of(name: Seq<char>, max_len: nat) -> Seq<char> {
    let slug = long_slug(name);
    if slug.len() > max_len {
        slug.take(max_len as int)
    } else {
        slug
    }
}

/// Sanitizes a test/step name for use in artifact file names.
pub fn slugify(name: &str, max_len: usize) -> (r: String)
    ensures
        r@ == slug_of(name@, max_len as nat),
{
    let v = text::chars_of(name);
    let ghost mapped = name@.map_values(|c: char| slug_char(c));
    let mut out: Vec<char> = Vec::new();
    let mut i: usize = 0;
    assert(mapped.take(0) =~= Seq::<char>::empty());
    while i < v.len()
        invariant
            v@ == name@,
            mapped == name@.map_values(|c: char| slug_char(c)),
            i <= v@.len(),
            out@ == collapsed(mapped.take(i as int)),
        decreases v@.len() - i,
    {
        let c = v[i];
        let d = if ('a' <= c && c <= 'z') || ('0' <= c && c <= '9') {
            c
        } else if 'A' <= c && c <= 'Z' {
            text::ascii_lower_char(c)
        } else {
            '-'
        };
        assert(mapped.take(i + 1).drop_last() =~= mapped.take(i as int));
        assert(mapped.take(i + 1).last() == d);
        if !(d == '-' && out.len() > 0 && out[out.len() - 1] == '-') {
            out.push(d);
        }
        i += 1;
    }
    assert(mapped.take(i as int) =~= mapped);
    let from: usize = if out.len() > 0 && out[0] == '-' {
        1
    } else {
        0
    };
    let ghost led = out@.skip(from as int);
    assert(out@.skip(0) =~= out@);
    let mut to: usize = out.len();
    if from < to && out[to - 1] == '-' {
        to -= 1;
    }
    assert(out@.subrange(from as int, to as int) =~= without_trailing_dash(led));
    if to - from > max_len {
        let r = text::text_between(&out, from, from + max_len);
        assert(r@ =~= out@.subrange(from as int, to as int).take(max_len as int));
        r
    } else {
        text::text_between(&out, from, to)
    }
}

/// The file name of a failure screenshot.
pub open spec fn artifact_name(scenario: Seq<char>, test: Seq<char>, step: nat, kind: Seq<char>) -> Seq<
    char,
> {
    slug_of(scenario, 40) + "__"@ + slug_of(test, 40) + "__"@ + text::zero_padded(step, 3) + "-"@
        + kind + ".png"@
}

/// The file name of a failure screenshot, after the scenario, the test and
/// the step.
pub fn artifact_file_name(scenario: &str, test: &str, step_index: usize, step_kind: &str) -> (r:
    String)
    ensures
        r@ == artifact_name(scenario@, test@, step_index as nat, step_kind@),
{
    let mut s = slugify(scenario, 40);
    s.append("__");
    s.append(slugify(test, 40).as_str());
    s.append("__");
    s.append(text::pad_zeros(step_index as u128, 3).as_str());
    s.append("-");
    s.append(step_kind);
    s.append(".png");
    s
}

/// What `collapsed` keeps.
proof fn lemma_collapsed(s: Seq<char>)
    ensures
        forall|i: int| 0 <= i < collapsed(s).len() ==> s.contains(#[trigger] collapsed(s)[i]),
        forall|i: int|
            0 <= i < collapsed(s).len() - 1 ==> !(collapsed(s)[i] == '-' && #[trigger] collapsed(
                s,
            )[i + 1] == '-'),
    decreases s.len(),
{
    if s.len() > 0 {
        let init = s.drop_last();
        lemma_collapsed(init);
        let c = collapsed(s);
        assert forall|i: int| 0 <= i < c.len() implies s.contains(#[trigger] c[i]) by {
            if i < collapsed(init).len() {
                let x = collapsed(init)[i];
                assert(init.contains(x));
                let k = init.index_of(x);
                assert(s[k] == x);
            } else {
                assert(s[s.len() - 1] == c[i]);
            }
        }
    }
}

/// A slug holds only lower-case letters, digits and dashes, never two dashes
/// in a row, does not begin with a dash and keeps to its length.
pub proof fn law_slug_alphabet(name: Seq<char>, max_len: nat)
    ensures
        slug_of(name, max_len).len() <= max_len,
        forall|i: int|
            0 <= i < slug_of(name, max_len).len() ==> ({
                let c = #[trigger] slug_of(name, max_len)[i];
                'a' <= c <= 'z' || '0' <= c <= '9' || c == '-'
            }),
        forall|i: int|
            0 <= i < slug_of(name, max_len).len() - 1 ==> !(slug_of(name, max_len)[i] == '-'
                && #[trigger] slug_of(name, max_len)[i + 1] == '-'),
        slug_of(name, max_len).len() > 0 ==> slug_of(name, max_len)[0] != '-',
{
    let mapped = name.map_values(|c: char| slug_char(c));
    let c = collapsed(mapped);
    lemma_collapsed(mapped);
    let s = slug_of(name, max_len);
    let shift: int = if c.len() > 0 && c[0] == '-' {
        1
    } else {
        0
    };
    assert forall|i: int| 0 <= i < s.len() implies s[i] == c[i + shift] by {}
    assert forall|i: int| 0 <= i < s.len() implies ({
        let x = #[trigger] s[i];
        'a' <= x <= 'z' || '0' <= x <= '9' || x == '-'
    }) by {
        assert(s[i] == c[i + shift]);
        assert(mapped.contains(c[i + shift]));
        let k = mapped.index_of(c[i + shift]);
        assert(mapped[k] == slug_char(name[k]));
    }
    assert forall|i: int| 0 <= i < s.len() - 1 implies !(s[i] == '-' && #[trigger] s[i + 1] == '-') by {
        assert(s[i] == c[i + shift]);
        assert(s[i + 1] == c[i + shift + 1]);
        assert(!(c[i + shift] == '-' && c[(i + shift) + 1] == '-'));
    }
    if s.len() > 0 {
        assert(s[0] == c[0 + shift]);
        if shift == 1 {
            assert(!(c[0] == '-' && c[0int + 1] == '-'));
        }
    }
}

/// The excerpt of a page shows its address and title, what can be read of it
/// and each of its alerts.
#[verifier::rlimit(60)]
pub proof fn law_excerpts_show_the_page(state: PageState)
    requires
        text::lacks(state.url@, '\n'),
        text::lacks(state.title@, '\n'),
    ensures
        text::has_text(excerpt_of(state), state.url@),
        text::has_text(excerpt_of(state), state.title@),
        text::trimmed(state.visible_text@).len() > 0 ==> text::has_text(
            excerpt_of(state),
            flattened(text::shortened(text::trimmed(state.visible_text@), 160)),
        ),
        state.alerts@.len() > 0 ==> text::has_text(
            excerpt_of(state),
            flattened(text::joined(text::views(state.alerts@), " | "@)),
        ),
{
    reveal_strlit("\n");
    text::lemma_replaced_absent(state.url@, "\n"@, " ⏎ "@);
    text::lemma_replaced_absent(state.title@, "\n"@, " ⏎ "@);
    let visible = text::trimmed(state.visible_text@);
    let seen = flattened(text::shortened(visible, 160));
    let told = flattened(text::joined(text::views(state.alerts@), " | "@));
    let v = if visible.len() > 0 {
        " — visible: \""@ + seen + "\""@
    } else {
        Seq::empty()
    };
    let a = if state.alerts@.len() > 0 {
        " — alerts: "@ + told
    } else {
        Seq::empty()
    };
    lemma_excerpt_parts(state.url@, state.title@, v, a, excerpt_of(state));
    if visible.len() > 0 {
        text::lemma_middle(" — visible: \""@, seen, "\""@);
        lemma_part_within(excerpt_of(state), v, seen);
    }
    if state.alerts@.len() > 0 {
        text::lemma_middle(" — alerts: "@, told, Seq::empty());
        assert(" — alerts: "@ + told + Seq::<char>::empty() =~= a);
        lemma_part_within(excerpt_of(state), a, told);
    }
}

/// The parts of an excerpt.
proof fn lemma_excerpt_parts(
    url: Seq<char>,
    title: Seq<char>,
    v: Seq<char>,
    a: Seq<char>,
    all: Seq<char>,
)
    requires
        all == "page: "@ + url + " ("@ + title + ")"@ + v + a,
    ensures
        text::has_text(all, url),
        text::has_text(all, title),
        text::has_text(all, v),
        text::has_text(all, a),
{
    let p = "page: "@;
    let b = " ("@;
    let e = ")"@;
    text::lemma_middle(p, url, b + title + e + v + a);
    assert(p + url + (b + title + e + v + a) =~= all);
    text::lemma_middle(p + url + b, title, e + v + a);
    assert(p + url + b + title + (e + v + a) =~= all);
    text::lemma_middle(p + url + b + title + e, v, a);
    text::lemma_middle(p + url + b + title + e + v, a, Seq::empty());
    assert(p + url + b + title + e + v + a + Seq::<char>::empty() =~= all);
}

/// What stands in a part stands in the whole.
proof fn lemma_part_within(all: Seq<char>, part: Seq<char>, s: Seq<char>)
    requires
        text::has_text(all, part),
        text::has_text(part, s),
    ensures
        text::has_text(all, s),
{
    let i = choose|i: int| text::occurs_at(all, part, i);
    let k = choose|k: int| text::occurs_at(part, s, k);
    assert(all.subrange(i, i + part.len()) == part);
    assert(all.subrange(i + k, i + k + s.len()) =~= part.subrange(k, k + s.len()));
    assert(text::occurs_at(all, s, i + k));
}

/// The full context shows the page, every alert and where the picture is.
#[verifier::rlimit(60)]
pub proof fn law_contexts_show_everything(state: PageState, screenshot: Option<Seq<char>>, i: int)
    ensures
        text::has_text(context_of(state, screenshot), state.url@),
        text::has_text(context_of(state, screenshot), state.title@),
        text::has_text(context_of(state, screenshot), text::trimmed(state.visible_text@)),
        screenshot matches Some(path) ==> text::has_text(context_of(state, screenshot), path),
        0 <= i < state.alerts@.len() ==> text::has_text(
            context_of(state, screenshot),
            state.alerts@[i]@,
        ),
{
    let all = context_of(state, screenshot);
    let url = state.url@;
    let title = state.title@;
    let visible = text::trimmed(state.visible_text@);
    let told = alert_lines(text::views(state.alerts@));
    let v = if visible.len() > 0 {
        "\n    │ content:  "@ + visible
    } else {
        Seq::empty()
    };
    let p = match screenshot {
        Some(path) => "\n    📸 screenshot: "@ + path,
        None => Seq::empty(),
    };
    let a = "    │ url:      "@;
    let b = "\n    │ title:    "@;
    text::lemma_middle(a, url, b + title + told + v + p);
    assert(a + url + (b + title + told + v + p) =~= all);
    text::lemma_middle(a + url + b, title, told + v + p);
    assert(a + url + b + title + (told + v + p) =~= all);
    let head = a + url + b + title;
    if visible.len() > 0 {
        text::lemma_middle(head + told + "\n    │ content:  "@, visible, p);
        assert(head + told + "\n    │ content:  "@ + visible + p =~= all);
    } else {
        assert(visible =~= Seq::<char>::empty());
        text::lemma_middle(Seq::empty(), visible, all);
        assert(Seq::<char>::empty() + visible + all =~= all);
    }
    if let Some(path) = screenshot {
        text::lemma_middle(head + told + v + "\n    📸 screenshot: "@, path, Seq::empty());
        assert(head + told + v + "\n    📸 screenshot: "@ + path + Seq::<char>::empty() =~= all);
    }
    if 0 <= i < state.alerts@.len() {
        let views = text::views(state.alerts@);
        assert(views[i] == state.alerts@[i]@);
        lemma_alert_listed(views, i);
        let at = choose|at: int| text::occurs_at(told, views[i], at);
        let n = views[i].len() as int;
        assert(all.subrange(head.len() + at, head.len() + at + n) =~= told.subrange(at, at + n));
        assert(text::occurs_at(all, views[i], head.len() + at));
    }
}

/// Every alert has its line.
proof fn lemma_alert_listed(alerts: Seq<Seq<char>>, i: int)
    requires
        0 <= i < alerts.len(),
    ensures
        text::has_text(alert_lines(alerts), alerts[i]),
    decreases alerts.len(),
{
    let all = alert_lines(alerts);
    let rest = alert_lines(alerts.drop_last());
    if i == alerts.len() - 1 {
        let head = rest + "\n    │ alert:    "@;
        text::lemma_middle(head, alerts.last(), Seq::empty());
        assert(head + alerts.last() + Seq::<char>::empty() =~= all);
    } else {
        lemma_alert_listed(alerts.drop_last(), i);
        let at = choose|at: int| text::occurs_at(rest, alerts.drop_last()[i], at);
        let n = alerts[i].len() as int;
        assert(all.subrange(at, at + n) =~= rest.subrange(at, at + n));
        assert(text::occurs_at(all, alerts[i], at));
    }
}

/// A name of small letters and digits is its own slug, as far as it fits, and
/// the case of a name does not matter to its slug.
pub proof fn law_plain_names_are_their_slugs(name: Seq<char>, max_len: nat)
    ensures
        (forall|i: int|
            0 <= i < name.len() ==> ('a' <= #[trigger] name[i] <= 'z' || '0' <= name[i] <= '9'))
            ==> slug_of(name, max_len) == if name.len() > max_len {
            name.take(max_len as int)
        } else {
            name
        },
        slug_of(text::lower_ascii(name), max_len) == slug_of(name, max_len),
{
    let mapped = name.map_values(|c: char| slug_char(c));
    if forall|i: int|
        0 <= i < name.len() ==> ('a' <= #[trigger] name[i] <= 'z' || '0' <= name[i] <= '9') {
        assert(mapped =~= name);
        lemma_collapsed_plain(name);
        if name.len() > 0 {
            assert(name[0] != '-');
            assert(name[name.len() - 1] != '-');
        }
    }
    assert(text::lower_ascii(name).map_values(|c: char| slug_char(c)) =~= mapped);
}

/// Without dashes there is nothing to collapse.
proof fn lemma_collapsed_plain(s: Seq<char>)
    requires
        forall|i: int| 0 <= i < s.len() ==> ('a' <= #[trigger] s[i] <= 'z' || '0' <= s[i] <= '9'),
    ensures
        collapsed(s) == s,
    decreases s.len(),
{
    if s.len() > 0 {
        assert forall|i: int| 0 <= i < s.drop_last().len() implies ('a' <= #[trigger] s.drop_last()[i]
            <= 'z' || '0' <= s.drop_last()[i] <= '9') by {
            assert(s.drop_last()[i] == s[i]);
        }
        lemma_collapsed_plain(s.drop_last());
        assert(s[s.len() - 1] != '-');
        assert(s.drop_last().push(s.last()) =~= s);
    }
}

/// The words of a name are parted by one dash, whatever stands between them.
pub proof fn law_words_are_parted_by_a_dash(a: Seq<char>, gap: Seq<char>, b: Seq<char>)
    requires
        a.len() > 0,
        b.len() > 0,
        gap.len() > 0,
        forall|i: int| 0 <= i < a.len() ==> ('a' <= #[trigger] a[i] <= 'z' || '0' <= a[i] <= '9'),
        forall|i: int| 0 <= i < b.len() ==> ('a' <= #[trigger] b[i] <= 'z' || '0' <= b[i] <= '9'),
        forall|i: int|
            0 <= i < gap.len() ==> !('a' <= #[trigger] gap[i] <= 'z') && !('A' <= gap[i] <= 'Z')
                && !('0' <= gap[i] <= '9'),
    ensures
        slug_of(a + gap + b, a.len() + 1 + b.len()) == a + seq!['-'] + b,
{
    let name = a + gap + b;
    let mapped = name.map_values(|c: char| slug_char(c));
    let dashes = Seq::new(gap.len(), |i: int| '-');
    assert(mapped =~= a + dashes + b);
    lemma_collapsed_plain(a);
    lemma_collapsed_dashes(a, dashes);
    lemma_collapsed_words(a + dashes, b);
    let all = a + seq!['-'] + b;
    assert(collapsed(mapped) =~= all);
    assert(all[0] == a[0] && a[0] != '-');
    assert(all.last() == b[b.len() - 1] && b[b.len() - 1] != '-');
    assert(all.len() == a.len() + 1 + b.len());
}

/// Dashes behind a word become one.
proof fn lemma_collapsed_dashes(a: Seq<char>, dashes: Seq<char>)
    requires
        a.len() > 0,
        collapsed(a) == a,
        a.last() != '-',
        dashes.len() > 0,
        forall|i: int| 0 <= i < dashes.len() ==> #[trigger] dashes[i] == '-',
    ensures
        collapsed(a + dashes) == a + seq!['-'],
    decreases dashes.len(),
{
    let s = a + dashes;
    assert(s.drop_last() =~= a + dashes.drop_last());
    assert(s.last() == dashes[dashes.len() - 1]);
    if dashes.len() == 1 {
        assert(a + dashes.drop_last() =~= a);
        assert(a.push('-') =~= a + seq!['-']);
    } else {
        assert forall|i: int| 0 <= i < dashes.drop_last().len() implies #[trigger] dashes.drop_last()[i]
            == '-' by {
            assert(dashes.drop_last()[i] == dashes[i]);
        }
        lemma_collapsed_dashes(a, dashes.drop_last());
        assert((a + seq!['-']).last() == '-');
    }
}

/// A word is put behind what is collapsed as it is.
proof fn lemma_collapsed_words(s: Seq<char>, b: Seq<char>)
    requires
        forall|i: int| 0 <= i < b.len() ==> #[trigger] b[i] != '-',
    ensures
        collapsed(s + b) == collapsed(s) + b,
    decreases b.len(),
{
    if b.len() == 0 {
        assert(s + b =~= s);
        assert(collapsed(s) + b =~= collapsed(s));
    } else {
        assert forall|i: int| 0 <= i < b.drop_last().len() implies #[trigger] b.drop_last()[i]
            != '-' by {
            assert(b.drop_last()[i] == b[i]);
        }
        lemma_collapsed_words(s, b.drop_last());
        assert((s + b).drop_last() =~= s + b.drop_last());
        assert(b[b.len() - 1] != '-');
        assert((collapsed(s) + b.drop_last()).push(b.last()) =~= collapsed(s) + b);
    }
}

/// The file of a picture is named by its scenario, its test, the number of the
/// step in three places at least, and the kind of the step.
#[verifier::rlimit(60)]
pub proof fn law_artifacts_are_named_by_their_step(
    scenario: Seq<char>,
    test: Seq<char>,
    step: nat,
    kind: Seq<char>,
)
    ensures
        ({
            let name = artifact_name(scenario, test, step, kind);
            &&& text::has_text(name, slug_of(scenario, 40))
            &&& text::has_text(name, slug_of(test, 40))
            &&& text::has_text(name, text::dec(step))
            &&& text::has_text(name, kind)
            &&& name.len() >= 4 && name.skip(name.len() - 4) == ".png"@
        }),
{
    reveal_strlit(".png");
    let name = artifact_name(scenario, test, step, kind);
    let s = slug_of(scenario, 40);
    let t = slug_of(test, 40);
    let n = text::zero_padded(step, 3);
    let d = text::dec(step);
    let zeros = n.take(n.len() - d.len());
    assert(n =~= zeros + d);
    text::lemma_middle(Seq::empty(), s, "__"@ + t + "__"@ + n + "-"@ + kind + ".png"@);
    assert(Seq::<char>::empty() + s + ("__"@ + t + "__"@ + n + "-"@ + kind + ".png"@) =~= name);
    text::lemma_middle(s + "__"@, t, "__"@ + n + "-"@ + kind + ".png"@);
    assert(s + "__"@ + t + ("__"@ + n + "-"@ + kind + ".png"@) =~= name);
    text::lemma_middle(s + "__"@ + t + "__"@ + zeros, d, "-"@ + kind + ".png"@);
    assert(s + "__"@ + t + "__"@ + zeros + d + ("-"@ + kind + ".png"@) =~= name);
    text::lemma_middle(s + "__"@ + t + "__"@ + n + "-"@, kind, ".png"@);
    assert(name.skip(name.len() - 4) =~= ".png"@);
}

/// The state of a page is what was read: its text as far as fifteen hundred
/// bytes, its alerts in their order; what could not be read is unknown or empty.
pub proof fn law_states_hold_what_was_read(
    r: PageState,
    url: String,
    title: Option<String>,
    visible_text: Option<String>,
    alerts: Option<String>,
)
    requires
        is_state(r, url, title, visible_text, alerts),
    ensures
        r.url@ == url@,
        title matches Some(t) ==> r.title@ == t@,
        title is None ==> r.title@ == "unknown"@,
        visible_text is None ==> r.visible_text@.len() == 0,
        (visible_text matches Some(t) && text::byte_len(t@) <= 1500) ==> r.visible_text@
            == visible_text->0@,
        (visible_text matches Some(t) && text::byte_len(t@) > 1500) ==> r.visible_text@
            == text::floor_prefix(visible_text->0@, 1500) + "...<truncated>"@,
        alerts is None ==> r.alerts@.len() == 0,
        alerts matches Some(a) ==> text::views(r.alerts@) == json::string_list_of(a@),
{
    assert(text::views(r.alerts@).len() == r.alerts@.len());
}

} // verus!
