//! CSS selector sanitization and validation for LLM-generated selectors.
//!
//! The LLM sometimes returns garbage instead of a CSS selector (explanations,
//! JSON objects, `:not(*)`, `null`, stray quotes or code fences). These
//! helpers normalize the response and reject values that can never match an
//! element, so step errors show the LLM's actual output instead of a cryptic
//! "element :not(*) not found".
use vstd::prelude::*;
use vstd::string::StringExecFns;
use crate::text;

verus! {

/// `s` begins and ends with `c`, which are not the same character of it.
pub open spec fn wrapped(s: Seq<char>, c: char) -> bool {
    s.len() >= 2 && s[0] == c && s.last() == c
}

/// `s` without its first and last character.
pub open spec fn inside(s: Seq<char>) -> Seq<char> {
    s.subrange(1, s.len() - 1)
}

/// What follows the first line break of `s`, without surrounding white space;
/// `s` itself where there is none.
pub open spec fn after_first_line(s: Seq<char>) -> Seq<char> {
    match first_break(s, 0) {
        Some(i) => text::trimmed(s.skip(i + 1)),
        None => s,
    }
}

/// The position of the first line break, from `i` on.
pub open spec fn first_break(s: Seq<char>, i: int) -> Option<int>
    decreases s.len() - i,
{
    if i < 0 || i >= s.len() {
        None
    } else if s[i] == '\n' {
        Some(i)
    } else {
        first_break(s, i + 1)
    }
}

/// `s` without a code fence and its language tag.
pub open spec fn unfenced(s: Seq<char>) -> Seq<char> {
    if text::occurs_at(s, "```"@, 0) {
        let rest = s.skip(3);
        let body = if text::occurs_at(rest, "```"@, rest.len() - 3) {
            rest.take(rest.len() - 3)
        } else {
            rest
        };
        after_first_line(text::trimmed(body))
    } else {
        s
    }
}

/// `s` without the quotes around it: backticks first, then one pair of single
/// or double quotes.
pub open spec fn unquoted(s: Seq<char>) -> Seq<char> {
    let t = if wrapped(s, '`') {
        inside(s)
    } else {
        s
    };
    if wrapped(t, '"') || wrapped(t, '\'') {
        inside(t)
    } else {
        t
    }
}

/// What is left of a raw selector.
pub open spec fn sanitized(raw: Seq<char>) -> Seq<char> {
    text::trimmed(unquoted(unfenced(text::trimmed(raw))))
}

/// Whether `v` begins and ends with `c`.
fn is_wrapped(v: &Vec<char>, c: char) -> (r: bool)
    ensures
        r == wrapped(v@, c),
{
    v.len() >= 2 && v[0] == c && v[v.len() - 1] == c
}

/// Removes a code fence and its language tag.
fn strip_fence(s: String) -> (r: String)
    ensures
        r@ == unfenced(s@),
{
    if !text::starts_with_text(s.as_str(), "```") {
        return s;
    }
    proof {
        reveal_strlit("```");
    }
    let v = text::chars_of(s.as_str());
    let rest = text::text_between(&v, 3, v.len());
    assert(rest@ =~= s@.skip(3));
    let w = text::chars_of(rest.as_str());
    let end: usize = if text::ends_with_text(rest.as_str(), "```") {
        w.len() - 3
    } else {
        w.len()
    };
    let body = text::text_between(&w, 0, end);
    assert(rest@.subrange(0, end as int) =~= rest@.take(end as int));
    assert(end == rest@.len() ==> rest@.take(end as int) =~= rest@);
    let inner = text::trim_text(body.as_str());
    let u = text::chars_of(inner.as_str());
    let mut i: usize = 0;
    while i < u.len()
        invariant
            u@ == inner@,
            i <= u@.len(),
            first_break(inner@, 0) == first_break(inner@, i as int),
            unfenced(s@) == after_first_line(inner@),
        decreases u@.len() - i,
    {
        if u[i] == '\n' {
            let after = text::text_between(&u, i + 1, u.len());
            assert(after@ =~= inner@.skip(i + 1));
            return text::trim_text(after.as_str());
        }
        i += 1;
    }
    inner
}

/// Removes the quotes around a selector.
fn strip_quotes(s: String) -> (r: String)
    ensures
        r@ == unquoted(s@),
{
    let v = text::chars_of(s.as_str());
    let t = if is_wrapped(&v, '`') {
        text::text_between(&v, 1, v.len() - 1)
    } else {
        s
    };
    let w = text::chars_of(t.as_str());
    if is_wrapped(&w, '"') || is_wrapped(&w, '\'') {
        text::text_between(&w, 1, w.len() - 1)
    } else {
        t
    }
}

/// Strips common LLM response noise from a raw selector string: surrounding
/// whitespace, code fences (with optional language tag), and outer
/// single/double/backtick quotes.
///
/// Returns an empty string when nothing meaningful remains.
pub fn sanitize_selector(raw: &str) -> (r: String)
    ensures
        r@ == sanitized(raw@),
{
    let s = strip_quotes(strip_fence(text::trim_text(raw)));
    text::trim_text(s.as_str())
}

/// A trimmed selector, with its lower-case form, can never match a real
/// element.
pub open spec fn useless(s: Seq<char>, lower: Seq<char>) -> bool {
    ||| s.len() == 0
    ||| lower == "*"@
    ||| lower == ":not(*)"@
    ||| lower == "null"@
    ||| lower == "undefined"@
    ||| lower == "none"@
    ||| lower == "n/a"@
    ||| lower == "na"@
    ||| lower == "nil"@
    ||| text::occurs_at(lower, ":not("@, 0)
    ||| text::occurs_at(lower, "{"@, 0)
    ||| text::occurs_at(lower, "json"@, 0)
    ||| text::has_text(s, "\n"@)
}

/// Whether a trimmed selector, with its lower-case form, can never match a
/// real element.
pub fn is_useless(s: &str, lower: &str) -> (r: bool)
    ensures
        r == useless(s@, lower@),
{
    s.is_empty() || text::same_text(lower, "*") || text::same_text(lower, ":not(*)")
        || text::same_text(lower, "null") || text::same_text(lower, "undefined") || text::same_text(
        lower,
        "none",
    ) || text::same_text(lower, "n/a") || text::same_text(lower, "na") || text::same_text(
        lower,
        "nil",
    ) || text::starts_with_text(lower, ":not(") || text::starts_with_text(lower, "{")
        || text::starts_with_text(lower, "json") || text::contains_text(s, "\n")
}

/// Returns `true` when a sanitized selector can never match a real element,
/// i.e. the LLM clearly did not produce a selector at all.
///
/// Used to fail fast with a readable error instead of handing the garbage to
/// the browser's `querySelector`.
pub fn selector_is_useless(sel: &str) -> (r: bool)
    ensures
        r == useless(text::trimmed(sel@), text::lowered(text::trimmed(sel@))),
{
    let s = text::trim_text(sel);
    is_useless(s.as_str(), text::lowercase(s.as_str()).as_str())
}

/// What is known of a selector after reading a part of it.
pub struct Scan {
    /// Open parentheses.
    pub parens: int,
    /// Open brackets.
    pub brackets: int,
    /// The quote that is open.
    pub quote: Option<char>,
    /// The first closing character that closes nothing.
    pub stray: Option<char>,
}

/// What is known of a selector after reading all of `s`.
pub open spec fn scan(s: Seq<char>) -> Scan
    decreases s.len(),
{
    if s.len() == 0 {
        Scan { parens: 0, brackets: 0, quote: None, stray: None }
    } else {
        let before = scan(s.drop_last());
        let c = s.last();
        if before.stray is Some {
            before
        } else if before.quote is Some {
            if before.quote == Some(c) {
                Scan { quote: None, ..before }
            } else {
                before
            }
        } else if c == '"' || c == '\'' {
            Scan { quote: Some(c), ..before }
        } else {
            let parens = before.parens + if c == '(' {
                1int
            } else if c == ')' {
                -1int
            } else {
                0int
            };
            let brackets = before.brackets + if c == '[' {
                1int
            } else if c == ']' {
                -1int
            } else {
                0int
            };
            Scan {
                parens,
                brackets,
                quote: None,
                stray: if parens < 0 || brackets < 0 {
                    Some(c)
                } else {
                    None
                },
            }
        }
    }
}

/// What is wrong with a selector, with its quoted form: a closing character
/// that closes nothing, an open quote, or open brackets.
pub open spec fn defect(sel: Seq<char>, shown: Seq<char>) -> Option<Seq<char>> {
    let end = scan(sel);
    if end.stray is Some {
        Some("unbalanced '"@ + seq![end.stray->0] + "' in selector: "@ + shown)
    } else if end.quote is Some {
        Some("unterminated quote in selector: "@ + shown)
    } else if end.parens != 0 || end.brackets != 0 {
        Some("unbalanced brackets in selector: "@ + shown)
    } else {
        None
    }
}

/// A stray character stays the first one.
proof fn lemma_stray_stays(s: Seq<char>, i: int)
    requires
        0 <= i <= s.len(),
        scan(s.take(i)).stray is Some,
    ensures
        scan(s).stray == scan(s.take(i)).stray,
    decreases s.len() - i,
{
    if i < s.len() {
        assert(s.take(i + 1).drop_last() =~= s.take(i));
        lemma_stray_stays(s, i + 1);
    } else {
        assert(s.take(i) =~= s);
    }
}

/// Checks a selector, with its quoted form.
pub fn check_selector(sel: &str, shown: &str) -> (r: Result<(), String>)
    ensures
        match r {
            Ok(_) => defect(sel@, shown@) is None,
            Err(reason) => defect(sel@, shown@) == Some(reason@),
        },
{
    let v = text::chars_of(sel);
    let mut parens: i128 = 0;
    let mut brackets: i128 = 0;
    let mut quote: Option<char> = None;
    let mut i: usize = 0;
    assert(v@.take(0) =~= Seq::<char>::empty());
    while i < v.len()
        invariant
            v@ == sel@,
            i <= v@.len(),
            scan(v@.take(i as int)) == (Scan {
                parens: parens as int,
                brackets: brackets as int,
                quote,
                stray: None,
            }),
            0 <= parens <= i,
            0 <= brackets <= i,
        decreases v@.len() - i,
    {
        let c = v[i];
        assert(v@.take(i + 1).drop_last() =~= v@.take(i as int));
        assert(v@.take(i + 1).last() == c);
        match quote {
            Some(q) => {
                if c == q {
                    quote = None;
                }
            },
            None => {
                if c == '"' || c == '\'' {
                    quote = Some(c);
                } else if c == '(' {
                    parens += 1;
                } else if c == ')' {
                    parens -= 1;
                } else if c == '[' {
                    brackets += 1;
                } else if c == ']' {
                    brackets -= 1;
                }
                if parens < 0 || brackets < 0 {
                    proof {
                        lemma_stray_stays(v@, i + 1);
                    }
                    let mut s = "unbalanced '".to_owned();
                    let ghost head = s@;
                    s.push(c);
                    assert(s@ =~= head + seq![c]);
                    s.append("' in selector: ");
                    s.append(shown);
                    return Err(s);
                }
            },
        }
        i += 1;
    }
    assert(v@.take(i as int) =~= v@);
    if quote.is_some() {
        let mut s = "unterminated quote in selector: ".to_owned();
        s.append(shown);
        return Err(s);
    }
    if parens != 0 || brackets != 0 {
        let mut s = "unbalanced brackets in selector: ".to_owned();
        s.append(shown);
        return Err(s);
    }
    Ok(())
}

/// Basic syntactic sanity check for a selector before it is executed.
///
/// Returns a human-readable reason when the selector is obviously malformed
/// (unbalanced brackets/parens/quotes), or `Ok` otherwise. This is a cheap
/// pre-flight only — the browser's `querySelector` remains the authority.
pub fn validate_selector(sel: &str) -> (r: Result<(), String>)
    ensures
        match r {
            Ok(_) => defect(sel@, text::quoted(sel@)) is None,
            Err(reason) => defect(sel@, text::quoted(sel@)) == Some(reason@),
        },
{
    check_selector(sel, text::quote(sel).as_str())
}

/// `s` as the content of a single-quoted JavaScript string.
pub open spec fn js_escaped(s: Seq<char>) -> Seq<char> {
    text::replaced(text::replaced(s, "\\"@, "\\\\"@), "'"@, "\\'"@)
}

/// Escapes a text for a single-quoted JavaScript string.
pub fn escape_js(s: &str) -> (r: String)
    ensures
        r@ == js_escaped(s@),
{
    let a = text::replace_text(s, "\\", "\\\\");
    text::replace_text(a.as_str(), "'", "\\'")
}

/// The script that checks whether a selector matches an element.
pub open spec fn matches_js(selector: Seq<char>) -> Seq<char> {
    "document.querySelector('"@ + js_escaped(selector) + "') !== null"@
}

/// Builds the JavaScript snippet that checks whether a selector matches at
/// least one element on the current page.
pub fn selector_matches_js(selector: &str) -> (r: String)
    ensures
        r@ == matches_js(selector@),
{
    let mut s = "document.querySelector('".to_owned();
    s.append(escape_js(selector).as_str());
    s.append("') !== null");
    s
}

/// A backslash stands before every quote, and never before the end: a
/// single-quoted string with this content ends where it should. `odd` says
/// whether an unpaired backslash precedes `s`.
pub open spec fn stays_quoted(s: Seq<char>, odd: bool) -> bool
    decreases s.len(),
{
    if s.len() == 0 {
        !odd
    } else if s[0] == '\\' {
        stays_quoted(s.skip(1), !odd)
    } else {
        (s[0] == '\'' ==> odd) && stays_quoted(s.skip(1), false)
    }
}

/// The script's string literal for a selector: each backslash doubled, each
/// quote behind a backslash.
pub open spec fn js_literal(s: Seq<char>) -> Seq<char>
    decreases s.len(),
{
    if s.len() == 0 {
        Seq::empty()
    } else if s[0] == '\\' {
        seq!['\\', '\\'] + js_literal(s.skip(1))
    } else if s[0] == '\'' {
        seq!['\\', '\''] + js_literal(s.skip(1))
    } else {
        seq![s[0]] + js_literal(s.skip(1))
    }
}

/// Each backslash doubled.
spec fn doubled(s: Seq<char>) -> Seq<char>
    decreases s.len(),
{
    if s.len() == 0 {
        Seq::empty()
    } else if s[0] == '\\' {
        seq!['\\', '\\'] + doubled(s.skip(1))
    } else {
        seq![s[0]] + doubled(s.skip(1))
    }
}

/// Replacing single characters goes character by character.
proof fn lemma_doubled(s: Seq<char>)
    ensures
        text::replaced(s, seq!['\\'], seq!['\\', '\\']) == doubled(s),
    decreases s.len(),
{
    let from = seq!['\\'];
    if s.len() > 0 {
        lemma_doubled(s.skip(1));
        if s[0] == '\\' {
            assert(s.subrange(0, 1) =~= from);
        } else {
            assert(s.subrange(0, 1)[0] != from[0]);
        }
    }
}

/// Escaping the quotes of a text with doubled backslashes gives its literal.
proof fn lemma_literal(s: Seq<char>)
    ensures
        text::replaced(doubled(s), seq!['\''], seq!['\\', '\'']) == js_literal(s),
    decreases s.len(),
{
    reveal_with_fuel(text::replaced, 3);
    let from = seq!['\''];
    let to = seq!['\\', '\''];
    let d = doubled(s);
    if s.len() > 0 {
        lemma_literal(s.skip(1));
        let rest = doubled(s.skip(1));
        if s[0] == '\\' {
            assert(d.subrange(0, 1)[0] != from[0]);
            assert(d.skip(1) =~= seq!['\\'] + rest);
            assert(d.skip(1).subrange(0, 1)[0] != from[0]);
            assert(d.skip(1).skip(1) =~= rest);
            assert(seq!['\\'] + (seq!['\\'] + text::replaced(rest, from, to)) =~= seq!['\\', '\\']
                + text::replaced(rest, from, to));
        } else {
            assert(d.skip(1) =~= rest);
            if s[0] == '\'' {
                assert(d.subrange(0, 1) =~= from);
            } else {
                assert(d.subrange(0, 1)[0] != from[0]);
            }
        }
    }
}

/// A literal keeps its quotes behind unpaired backslashes.
proof fn lemma_stays_quoted(s: Seq<char>)
    ensures
        stays_quoted(js_literal(s), false),
    decreases s.len(),
{
    reveal_with_fuel(stays_quoted, 3);
    if s.len() > 0 {
        lemma_stays_quoted(s.skip(1));
        let rest = js_literal(s.skip(1));
        let l = js_literal(s);
        if s[0] == '\\' || s[0] == '\'' {
            assert(l.skip(1).skip(1) =~= rest);
            assert(l.skip(1)[0] == s[0]);
        } else {
            assert(l.skip(1) =~= rest);
        }
    }
}

/// Whatever text a selector is, it cannot end the script's string literal
/// that holds it.
pub proof fn law_selector_stays_in_its_string(selector: Seq<char>)
    ensures
        js_escaped(selector) == js_literal(selector),
        stays_quoted(js_escaped(selector), false),
{
    reveal_strlit("\\");
    reveal_strlit("\\\\");
    reveal_strlit("'");
    reveal_strlit("\\'");
    assert("\\"@ =~= seq!['\\']);
    assert("\\\\"@ =~= seq!['\\', '\\']);
    assert("'"@ =~= seq!['\'']);
    assert("\\'"@ =~= seq!['\\', '\'']);
    lemma_doubled(selector);
    lemma_literal(selector);
    lemma_stays_quoted(selector);
}

/// What is left of a fenced text is a part of it.
proof fn lemma_unfenced_is_a_part(s: Seq<char>) -> (part: (int, int))
    ensures
        0 <= part.0 <= part.1 <= s.len(),
        unfenced(s) == s.subrange(part.0, part.1),
{
    reveal_strlit("```");
    if !text::occurs_at(s, "```"@, 0) {
        assert(s.subrange(0, s.len() as int) =~= s);
        return (0, s.len() as int);
    }
    let rest = s.skip(3);
    let end = if text::occurs_at(rest, "```"@, rest.len() - 3) {
        rest.len() - 3
    } else {
        rest.len() as int
    };
    let body = rest.take(end);
    assert(end == rest.len() ==> body =~= rest);
    let (i, j) = text::law_trimmed_is_a_part(body);
    let inner = text::trimmed(body);
    assert(inner =~= s.subrange(3 + i, 3 + j));
    match first_break(inner, 0) {
        Some(n) => {
            lemma_first_break(inner, 0);
            let after = inner.skip(n + 1);
            let (a, b) = text::law_trimmed_is_a_part(after);
            assert(text::trimmed(after) =~= s.subrange(3 + i + n + 1 + a, 3 + i + n + 1 + b));
            (3 + i + n + 1 + a, 3 + i + n + 1 + b)
        },
        None => (3 + i, 3 + j),
    }
}

/// What `first_break` says.
proof fn lemma_first_break(s: Seq<char>, i: int)
    requires
        0 <= i <= s.len(),
    ensures
        match first_break(s, i) {
            Some(n) => i <= n < s.len() && s[n] == '\n' && forall|k: int|
                i <= k < n ==> #[trigger] s[k] != '\n',
            None => forall|k: int| i <= k < s.len() ==> #[trigger] s[k] != '\n',
        },
    decreases s.len() - i,
{
    if i < s.len() && s[i] != '\n' {
        lemma_first_break(s, i + 1);
    }
}

/// What is left of a quoted text is a part of it.
proof fn lemma_unquoted_is_a_part(t: Seq<char>) -> (part: (int, int))
    ensures
        0 <= part.0 <= part.1 <= t.len(),
        unquoted(t) == t.subrange(part.0, part.1),
{
    let (x, u) = if wrapped(t, '`') {
        (1int, inside(t))
    } else {
        (0int, t)
    };
    let (y, v) = if wrapped(u, '"') || wrapped(u, '\'') {
        (1int, inside(u))
    } else {
        (0int, u)
    };
    assert(v =~= t.subrange(x + y, x + y + v.len()));
    (x + y, x + y + v.len())
}

/// A part of a part of a text is a part of the text.
proof fn lemma_part_of_part(s: Seq<char>, a: int, b: int, c: int, d: int)
    requires
        0 <= a <= b <= s.len(),
        0 <= c <= d <= b - a,
    ensures
        s.subrange(a, b).subrange(c, d) == s.subrange(a + c, a + d),
{
    assert(s.subrange(a, b).subrange(c, d) =~= s.subrange(a + c, a + d));
}

/// The cleaned selector is a part of the raw answer, character for character.
#[verifier::rlimit(60)]
pub proof fn law_sanitizing_only_cuts(raw: Seq<char>) -> (part: (int, int))
    ensures
        0 <= part.0 <= part.1 <= raw.len(),
        sanitized(raw) == raw.subrange(part.0, part.1),
{
    let s = text::trimmed(raw);
    let t = unfenced(s);
    let v = unquoted(t);
    let (a, b) = text::law_trimmed_is_a_part(raw);
    let (c, d) = lemma_unfenced_is_a_part(s);
    lemma_part_of_part(raw, a, b, c, d);
    let (e, f) = lemma_unquoted_is_a_part(t);
    lemma_part_of_part(raw, a + c, a + d, e, f);
    let (g, h) = text::law_trimmed_is_a_part(v);
    lemma_part_of_part(raw, a + c + e, a + c + f, g, h);
    (a + c + e + g, a + c + e + h)
}

/// An answer without surrounding white space, fence or quotes is returned
/// unchanged.
#[verifier::rlimit(60)]
pub proof fn law_clean_selectors_are_kept(raw: Seq<char>)
    requires
        raw.len() > 0 ==> {
            &&& !text::is_space(raw[0])
            &&& !text::is_space(raw.last())
            &&& raw[0] != '`' && raw[0] != '"' && raw[0] != '\''
        },
    ensures
        sanitized(raw) == raw,
{
    reveal_strlit("```");
    text::law_trimmed_text_stays(raw);
    if text::occurs_at(raw, "```"@, 0) {
        assert(raw.subrange(0, 3)[0] == raw[0]);
    }
}

/// A pair of quotes of one kind around a clean selector is removed, with the
/// white space outside and inside them.
#[verifier::rlimit(60)]
pub proof fn law_quotes_are_removed(quote: char, before: Seq<char>, selector: Seq<char>, after: Seq<char>)
    requires
        quote == '`' || quote == '"' || quote == '\'',
        forall|k: int| 0 <= k < before.len() ==> text::is_space(#[trigger] before[k]),
        forall|k: int| 0 <= k < after.len() ==> text::is_space(#[trigger] after[k]),
        selector.len() > 0,
        !text::is_space(selector[0]),
        !text::is_space(selector.last()),
        selector[0] != '`' && selector[0] != '"' && selector[0] != '\'',
    ensures
        sanitized(seq![quote] + before + selector + after + seq![quote]) == selector,
        sanitized(before + (seq![quote] + selector + seq![quote]) + after) == selector,
{
    reveal_strlit("```");
    let padded = before + selector + after;
    let q = seq![quote] + padded + seq![quote];
    assert(seq![quote] + before + selector + after + seq![quote] =~= q);
    assert(padded.len() > 0);
    assert(padded[0] == if before.len() > 0 {
        before[0]
    } else {
        selector[0]
    });
    lemma_quoted_part(quote, padded);
    text::law_space_around_is_ignored(before, selector, after);
    let p = seq![quote] + selector + seq![quote];
    lemma_quoted_part(quote, selector);
    text::law_space_around_is_ignored(before, p, after);
    text::law_trimmed_text_stays(p);
    text::law_trimmed_text_stays(selector);
}

/// One pair of quotes is removed.
proof fn lemma_quoted_part(quote: char, s: Seq<char>)
    requires
        quote == '`' || quote == '"' || quote == '\'',
        s.len() > 0,
        s[0] != '`' && s[0] != '"' && s[0] != '\'',
    ensures
        ({
            let q = seq![quote] + s + seq![quote];
            &&& text::trimmed(q) == q
            &&& unfenced(q) == q
            &&& unquoted(q) == s
        }),
{
    reveal_strlit("```");
    let q = seq![quote] + s + seq![quote];
    text::law_trimmed_text_stays(q);
    if text::occurs_at(q, "```"@, 0) {
        assert(q.subrange(0, 3)[1] == s[0]);
    }
    assert(inside(q) =~= s);
}

/// A code fence around a clean selector is removed, with its language tag.
#[verifier::rlimit(60)]
pub proof fn law_fence_is_removed(tag: Seq<char>, selector: Seq<char>)
    requires
        tag.len() > 0 ==> !text::is_space(tag[0]),
        text::lacks(tag, '\n'),
        text::lacks(selector, '\n'),
        selector.len() > 0,
        !text::is_space(selector[0]),
        !text::is_space(selector.last()),
        selector[0] != '`' && selector[0] != '"' && selector[0] != '\'',
    ensures
        sanitized("```"@ + tag + "\n"@ + selector + "\n```"@) == selector,
{
    reveal_strlit("```");
    reveal_strlit("\n");
    reveal_strlit("\n```");
    let raw = "```"@ + tag + "\n"@ + selector + "\n```"@;
    text::law_trimmed_text_stays(raw);
    assert(raw.subrange(0, 3) =~= "```"@);
    let rest = raw.skip(3);
    assert(rest =~= tag + "\n"@ + selector + "\n```"@);
    assert(rest.subrange(rest.len() - 3, rest.len() as int) =~= "```"@);
    let body = rest.take(rest.len() - 3);
    if tag.len() > 0 {
        let line = tag + "\n"@ + selector;
        assert(body =~= Seq::<char>::empty() + line + "\n"@);
        text::law_space_around_is_ignored(Seq::empty(), line, "\n"@);
        let n = tag.len() as int;
        lemma_first_break(line, 0);
        assert(line[n] == '\n');
        assert forall|k: int| 0 <= k < n implies #[trigger] line[k] != '\n' by {
            assert(line[k] == tag[k]);
        }
        assert(line.skip(n + 1) =~= selector);
        text::law_trimmed_text_stays(selector);
    } else {
        assert(body =~= "\n"@ + selector + "\n"@);
        text::law_space_around_is_ignored("\n"@, selector, "\n"@);
        lemma_first_break(selector, 0);
    }
    assert(unfenced(raw) == selector);
    text::law_trimmed_text_stays(selector);
}

/// What is no selector at all: nothing, several lines, or what answers in
/// place of one. Everything on one line that begins like a selector is one.
pub proof fn law_selectors_are_told_from_excuses(s: Seq<char>, lower: Seq<char>)
    ensures
        s.len() == 0 ==> useless(s, lower),
        (exists|i: int| 0 <= i < s.len() && #[trigger] s[i] == '\n') ==> useless(s, lower),
        lower.len() > 0 && lower[0] == '{' ==> useless(s, lower),
        lower == seq!['*'] ==> useless(s, lower),
        lower == seq!['n', 'u', 'l', 'l'] ==> useless(s, lower),
        lower == seq!['n', 'o', 'n', 'e'] ==> useless(s, lower),
        lower == seq!['n', '/', 'a'] ==> useless(s, lower),
        lower == seq!['n', 'a'] ==> useless(s, lower),
        lower == seq!['n', 'i', 'l'] ==> useless(s, lower),
        lower == seq!['u', 'n', 'd', 'e', 'f', 'i', 'n', 'e', 'd'] ==> useless(s, lower),
        lower.len() >= 5 && lower.take(5) == seq![':', 'n', 'o', 't', '('] ==> useless(s, lower),
        lower.len() >= 4 && lower.take(4) == seq!['j', 's', 'o', 'n'] ==> useless(s, lower),
        s.len() > 0 && lower.len() > 0 && text::lacks(s, '\n') && lower[0] != '*' && lower[0]
            != ':' && lower[0] != '{' && lower[0] != 'n' && lower[0] != 'u' && lower[0] != 'j'
            ==> !useless(s, lower),
        s.len() > 0 && text::lacks(s, '\n') && lower.len() > 9 && lower.take(4) != seq![
            'j',
            's',
            'o',
            'n',
        ] && lower[0] != ':' && lower[0] != '{' ==> !useless(s, lower),
{
    reveal_strlit("*");
    reveal_strlit(":not(*)");
    reveal_strlit("null");
    reveal_strlit("undefined");
    reveal_strlit("none");
    reveal_strlit("n/a");
    reveal_strlit("na");
    reveal_strlit("nil");
    reveal_strlit(":not(");
    reveal_strlit("{");
    reveal_strlit("json");
    reveal_strlit("\n");
    assert("*"@ =~= seq!['*']);
    assert("null"@ =~= seq!['n', 'u', 'l', 'l']);
    assert("none"@ =~= seq!['n', 'o', 'n', 'e']);
    assert("n/a"@ =~= seq!['n', '/', 'a']);
    assert("na"@ =~= seq!['n', 'a']);
    assert("nil"@ =~= seq!['n', 'i', 'l']);
    assert("undefined"@ =~= seq!['u', 'n', 'd', 'e', 'f', 'i', 'n', 'e', 'd']);
    assert(":not("@ =~= seq![':', 'n', 'o', 't', '(']);
    assert("json"@ =~= seq!['j', 's', 'o', 'n']);
    assert forall|i: int| 0 <= i < s.len() && #[trigger] s[i] == '\n' implies useless(s, lower) by {
        assert(s.subrange(i, i + 1) =~= "\n"@);
        assert(text::occurs_at(s, "\n"@, i));
    }
    if text::lacks(s, '\n') && text::has_text(s, "\n"@) {
        let i = choose|i: int| text::occurs_at(s, "\n"@, i);
        assert(s.subrange(i, i + 1)[0] == s[i]);
        assert(s[i] == '\n');
    }
    if lower.len() >= 5 {
        assert(lower.take(5) =~= lower.subrange(0, 5));
        assert(lower.subrange(0, 5)[0] == lower[0]);
    }
    if lower.len() >= 4 {
        assert(lower.take(4) =~= lower.subrange(0, 4));
        assert(lower.subrange(0, 4)[0] == lower[0]);
    }
    if lower.len() >= 1 {
        assert(lower.subrange(0, 1)[0] == lower[0]);
        if lower[0] == '{' {
            assert(lower.subrange(0, 1) =~= "{"@);
        }
    }
}

/// Neither a quote nor a bracket.
pub open spec fn plain(c: char) -> bool {
    c != '(' && c != ')' && c != '[' && c != ']' && c != '"' && c != '\''
}

/// Plain characters do not change what is open.
proof fn lemma_scan_plain(s: Seq<char>, t: Seq<char>)
    requires
        forall|i: int| 0 <= i < t.len() ==> plain(#[trigger] t[i]),
    ensures
        scan(s + t) == scan(s),
    decreases t.len(),
{
    if t.len() == 0 {
        assert(s + t =~= s);
    } else {
        assert forall|i: int| 0 <= i < t.drop_last().len() implies plain(
            #[trigger] t.drop_last()[i],
        ) by {
            assert(t.drop_last()[i] == t[i]);
        }
        lemma_scan_plain(s, t.drop_last());
        assert((s + t).drop_last() =~= s + t.drop_last());
        assert((s + t).last() == t.last());
        assert(plain(t[t.len() - 1]));
        lemma_scan_sane(s);
    }
}

/// A scan that found nothing stray has nothing below zero open.
proof fn lemma_scan_sane(s: Seq<char>)
    ensures
        scan(s).stray is None ==> scan(s).parens >= 0 && scan(s).brackets >= 0,
        scan(s).quote matches Some(q) ==> q == '"' || q == '\'',
    decreases s.len(),
{
    if s.len() > 0 {
        lemma_scan_sane(s.drop_last());
    }
}

/// Within a quote nothing counts but its end.
proof fn lemma_scan_quoted(s: Seq<char>, t: Seq<char>, q: char)
    requires
        scan(s).stray is None,
        scan(s).quote == Some(q),
        text::lacks(t, q),
    ensures
        scan(s + t) == scan(s),
    decreases t.len(),
{
    if t.len() == 0 {
        assert(s + t =~= s);
    } else {
        assert forall|i: int| 0 <= i < t.drop_last().len() implies #[trigger] t.drop_last()[i]
            != q by {
            assert(t.drop_last()[i] == t[i]);
        }
        lemma_scan_quoted(s, t.drop_last(), q);
        assert((s + t).drop_last() =~= s + t.drop_last());
        assert((s + t).last() == t.last());
        assert(t[t.len() - 1] != q);
    }
}

/// One character more.
proof fn lemma_scan_push(s: Seq<char>, c: char)
    ensures
        (s + seq![c]).len() > 0,
        (s + seq![c]).drop_last() == s,
        (s + seq![c]).last() == c,
{
    assert((s + seq![c]).drop_last() =~= s);
}

/// A selector is sound when its brackets and quotes pair up: plain text keeps
/// it so, and so do a bracketed part and a quoted one, whatever the quotes
/// hold. A bracket or quote that is not closed, or closes nothing, is a defect,
/// and stays one where it closes nothing.
pub proof fn law_selectors_pair_their_brackets(
    s: Seq<char>,
    t: Seq<char>,
    quote: char,
    shown: Seq<char>,
)
    requires
        defect(s, shown) is None,
        quote == '"' || quote == '\'',
    ensures
        defect(Seq::empty(), shown) is None,
        defect(s + seq!['('], shown) is Some,
        defect(s + seq!['['], shown) is Some,
        defect(s + seq![quote], shown) is Some,
        defect(s + seq![')'], shown) is Some,
        defect(s + seq![']'], shown) is Some,
        defect(s + seq![')'] + t, shown) is Some,
        defect(s + seq![']'] + t, shown) is Some,
        (forall|i: int| 0 <= i < t.len() ==> plain(#[trigger] t[i])) ==> {
            &&& defect(s + t, shown) is None
            &&& defect(s + seq!['('] + t + seq![')'], shown) is None
            &&& defect(s + seq!['['] + t + seq![']'], shown) is None
            &&& defect(s + seq!['('] + t + seq![']'], shown) is Some
            &&& defect(s + seq!['['] + t + seq![')'], shown) is Some
        },
        text::lacks(t, quote) ==> defect(s + seq![quote] + t + seq![quote], shown) is None,
{
    lemma_scan_push(s, '(');
    lemma_scan_push(s, '[');
    lemma_scan_push(s, quote);
    lemma_scan_push(s, ')');
    lemma_scan_push(s, ']');
    lemma_stray_behind(s + seq![')'], t);
    lemma_stray_behind(s + seq![']'], t);
    if forall|i: int| 0 <= i < t.len() ==> plain(#[trigger] t[i]) {
        lemma_scan_plain(s, t);
        lemma_scan_plain(s + seq!['('], t);
        lemma_scan_plain(s + seq!['['], t);
        lemma_scan_push(s + seq!['('] + t, ')');
        lemma_scan_push(s + seq!['['] + t, ']');
        lemma_scan_push(s + seq!['('] + t, ']');
        lemma_scan_push(s + seq!['['] + t, ')');
    }
    if text::lacks(t, quote) {
        lemma_scan_quoted(s + seq![quote], t, quote);
        lemma_scan_push(s + seq![quote] + t, quote);
    }
}

/// What closes nothing is not mended by what follows.
proof fn lemma_stray_behind(s: Seq<char>, t: Seq<char>)
    requires
        scan(s).stray is Some,
    ensures
        scan(s + t) == scan(s),
    decreases t.len(),
{
    if t.len() == 0 {
        assert(s + t =~= s);
    } else {
        lemma_stray_behind(s, t.drop_last());
        assert((s + t).drop_last() =~= s + t.drop_last());
    }
}

/// The script that asks whether a selector matches puts the question to the
/// page's own selector engine and compares its answer with null.
pub proof fn law_match_script_asks_the_page(selector: Seq<char>)
    requires
        text::lacks(selector, '\\'),
        text::lacks(selector, '\''),
    ensures
        matches_js(selector) == "document.querySelector('"@ + selector + "') !== null"@,
{
    reveal_strlit("\\");
    reveal_strlit("'");
    text::lemma_replaced_absent(selector, "\\"@, "\\\\"@);
    text::lemma_replaced_absent(selector, "'"@, "\\'"@);
}

/// Quotes with nothing but space between them hold no selector.
#[verifier::rlimit(60)]
pub proof fn law_empty_quotes_hold_nothing(quote: char)
    requires
        quote == '`' || quote == '"' || quote == '\'',
    ensures
        sanitized(seq![quote, quote]).len() == 0,
{
    reveal_strlit("```");
    let q = seq![quote, quote];
    text::law_white_space(quote);
    text::law_trimmed_text_stays(q);
    assert(!text::occurs_at(q, "```"@, 0));
    assert(unfenced(q) == q);
    let inner = inside(q);
    assert(inner =~= Seq::<char>::empty());
    assert(unquoted(q) =~= Seq::<char>::empty());
    assert(text::trimmed(Seq::<char>::empty()) =~= Seq::<char>::empty());
}

} // verus!
