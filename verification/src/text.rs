//! Text as sequences of characters.
//!
//! Everything the crate prints, parses or redacts goes through the small set
//! of string operations below. Each is stated over `Seq<char>`.
use vstd::prelude::*;
use vstd::string::StringExecFns;

verus! {

/// `String::push` appends one character at the end of the string.
pub assume_specification[ String::push ](s: &mut String, c: char)
    ensures
        final(s)@ == old(s)@.push(c),
;

/// `pat` stands in `s` at position `i`.
pub open spec fn occurs_at(s: Seq<char>, pat: Seq<char>, i: int) -> bool {
    &&& 0 <= i <= s.len() - pat.len()
    &&& s.subrange(i, i + pat.len()) == pat
}

/// `pat` stands somewhere in `s`.
pub open spec fn has_text(s: Seq<char>, pat: Seq<char>) -> bool {
    exists|i: int| #[trigger] occurs_at(s, pat, i)
}

/// `s` with every leftmost, non-overlapping occurrence of `from` replaced by
/// `to`.
pub open spec fn replaced(s: Seq<char>, from: Seq<char>, to: Seq<char>) -> Seq<char>
    decreases s.len(),
{
    if from.len() == 0 || s.len() == 0 {
        s
    } else if occurs_at(s, from, 0) {
        to + replaced(s.skip(from.len() as int), from, to)
    } else {
        seq![s[0]] + replaced(s.skip(1), from, to)
    }
}

/// How many bytes `s` takes in UTF-8.
pub open spec fn byte_len(s: Seq<char>) -> nat {
    vstd::utf8::encode_utf8(s).len()
}

/// How many bytes `s` takes in UTF-8.
pub fn byte_count(s: &str) -> (r: usize)
    ensures
        r == byte_len(s@),
{
    s.as_bytes().len()
}

/// The characters of `s`, as a vector.
pub fn chars_of(s: &str) -> (r: Vec<char>)
    ensures
        r@ == s@,
{
    let mut r: Vec<char> = Vec::new();
    for c in it: s.chars()
        invariant
            it.seq() == s@,
            r@ == s@.take(it.index() as int),
    {
        r.push(c);
        assert(r@ =~= s@.take(it.index() as int + 1));
    }
    assert(s@.take(s@.len() as int) =~= s@);
    r
}

/// The string made of the characters of `v` from `from` up to `to`.
pub fn text_between(v: &Vec<char>, from: usize, to: usize) -> (r: String)
    requires
        from <= to <= v@.len(),
    ensures
        r@ == v@.subrange(from as int, to as int),
{
    let mut r = String::new();
    let mut i: usize = from;
    assert(r@ =~= v@.subrange(from as int, from as int));
    while i < to
        invariant
            from <= i <= to <= v@.len(),
            r@ == v@.subrange(from as int, i as int),
        decreases to - i,
    {
        r.push(v[i]);
        assert(r@ =~= v@.subrange(from as int, i as int + 1));
        i += 1;
    }
    r
}

/// Whether `pat` stands in `s` at position `i`.
pub fn occurs_here(s: &Vec<char>, pat: &Vec<char>, i: usize) -> (r: bool)
    ensures
        r == occurs_at(s@, pat@, i as int),
{
    if s.len() < pat.len() || s.len() - pat.len() < i {
        return false;
    }
    let mut j: usize = 0;
    while j < pat.len()
        invariant
            j <= pat@.len(),
            i + pat@.len() <= s@.len(),
            s@.subrange(i as int, i + j) == pat@.take(j as int),
        decreases pat@.len() - j,
    {
        assert(i + j < s.len());
        if s[i + j] != pat[j] {
            assert(s@.subrange(i as int, i + pat@.len())[j as int] == s@[i + j]);
            return false;
        }
        assert(s@.subrange(i as int, i + j + 1) =~= pat@.take(j + 1));
        j += 1;
    }
    assert(pat@.take(j as int) =~= pat@);
    true
}

/// Whether the two texts are the same.
pub fn same_text(a: &str, b: &str) -> (r: bool)
    ensures
        r == (a@ == b@),
{
    a.to_owned() == b.to_owned()
}

/// Whether `pat` occurs in `s`.
pub fn contains_text(s: &str, pat: &str) -> (r: bool)
    ensures
        r == has_text(s@, pat@),
{
    let sv = chars_of(s);
    let pv = chars_of(pat);
    if sv.len() < pv.len() {
        return false;
    }
    let last: usize = sv.len() - pv.len();
    let mut i: usize = 0;
    while i <= last
        invariant
            sv@ == s@,
            pv@ == pat@,
            pv@.len() <= sv@.len(),
            last == sv@.len() - pv@.len(),
            i <= last + 1,
            forall|k: int| 0 <= k < i ==> !occurs_at(s@, pat@, k),
        decreases last + 1 - i,
    {
        if occurs_here(&sv, &pv, i) {
            return true;
        }
        if i == last {
            return false;
        }
        i += 1;
    }
    false
}

/// `s` with every leftmost, non-overlapping occurrence of `from` replaced by
/// `to`; `s` itself when `from` is empty.
pub fn replace_text(s: &str, from: &str, to: &str) -> (r: String)
    ensures
        r@ == replaced(s@, from@, to@),
{
    if from.is_empty() {
        return s.to_owned();
    }
    let sv = chars_of(s);
    let fv = chars_of(from);
    let mut r = String::new();
    let mut i: usize = 0;
    assert(sv@.skip(0) =~= s@);
    assert(r@ + replaced(sv@.skip(0), from@, to@) =~= replaced(s@, from@, to@));
    while i < sv.len()
        invariant
            sv@ == s@,
            fv@ == from@,
            fv@.len() > 0,
            i <= sv@.len(),
            r@ + replaced(sv@.skip(i as int), from@, to@) == replaced(s@, from@, to@),
        decreases sv@.len() - i,
    {
        let ghost rest = sv@.skip(i as int);
        let ghost before = r@;
        proof {
            lemma_occurs_shift(sv@, fv@, i as int);
        }
        if occurs_here(&sv, &fv, i) {
            r.append(to);
            assert(rest.skip(fv@.len() as int) =~= sv@.skip(i + fv@.len()));
            assert(before + (to@ + replaced(sv@.skip(i + fv@.len()), from@, to@)) =~= r@ + replaced(
                sv@.skip(i + fv@.len()),
                from@,
                to@,
            ));
            i += fv.len();
        } else {
            r.push(sv[i]);
            assert(rest.skip(1) =~= sv@.skip(i + 1));
            assert(before + (seq![rest[0]] + replaced(sv@.skip(i + 1), from@, to@)) =~= r@
                + replaced(sv@.skip(i + 1), from@, to@));
            i += 1;
        }
    }
    assert(r@ + replaced(sv@.skip(i as int), from@, to@) =~= r@);
    r
}

/// Whether `s` begins with `pat`.
pub fn starts_with_text(s: &str, pat: &str) -> (r: bool)
    ensures
        r == occurs_at(s@, pat@, 0),
{
    occurs_here(&chars_of(s), &chars_of(pat), 0)
}

/// Whether `s` ends with `pat`.
pub fn ends_with_text(s: &str, pat: &str) -> (r: bool)
    ensures
        r == occurs_at(s@, pat@, s@.len() - pat@.len()),
{
    let sv = chars_of(s);
    let pv = chars_of(pat);
    if sv.len() < pv.len() {
        return false;
    }
    occurs_here(&sv, &pv, sv.len() - pv.len())
}

/// How many characters come before the first `c`; all, where there is none.
pub open spec fn index_of(s: Seq<char>, c: char) -> int
    decreases s.len(),
{
    if s.len() == 0 || s[0] == c {
        0
    } else {
        1 + index_of(s.skip(1), c)
    }
}

/// How many characters come before the first `c`; all, where there is none.
pub fn find_char(s: &Vec<char>, c: char) -> (r: usize)
    ensures
        r == index_of(s@, c),
        r <= s@.len(),
        r < s@.len() ==> s@[r as int] == c,
{
    let mut i: usize = 0;
    assert(s@.skip(0) =~= s@);
    while i < s.len() && s[i] != c
        invariant
            i <= s@.len(),
            index_of(s@, c) == i + index_of(s@.skip(i as int), c),
        decreases s@.len() - i,
    {
        assert(s@.skip(i as int).skip(1) =~= s@.skip(i + 1));
        i += 1;
    }
    i
}

/// Whether `s` holds the character `c`.
pub fn contains_char(s: &str, c: char) -> (r: bool)
    ensures
        r == s@.contains(c),
{
    let v = chars_of(s);
    let mut i: usize = 0;
    while i < v.len()
        invariant
            v@ == s@,
            i <= v@.len(),
            forall|k: int| 0 <= k < i ==> v@[k] != c,
        decreases v@.len() - i,
    {
        if v[i] == c {
            assert(s@[i as int] == c);
            return true;
        }
        i += 1;
    }
    false
}

/// Unicode's `White_Space` property, which `str::trim` goes by.
pub open spec fn is_space(c: char) -> bool {
    ||| '\u{9}' <= c <= '\u{d}'
    ||| c == ' '
    ||| c == '\u{85}'
    ||| c == '\u{a0}'
    ||| c == '\u{1680}'
    ||| '\u{2000}' <= c <= '\u{200a}'
    ||| c == '\u{2028}'
    ||| c == '\u{2029}'
    ||| c == '\u{202f}'
    ||| c == '\u{205f}'
    ||| c == '\u{3000}'
}

/// Whether `c` has Unicode's `White_Space` property.
pub fn space(c: char) -> (r: bool)
    ensures
        r == is_space(c),
{
    ('\u{9}' <= c && c <= '\u{d}') || c == ' ' || c == '\u{85}' || c == '\u{a0}' || c == '\u{1680}' || (
    '\u{2000}' <= c && c <= '\u{200a}') || c == '\u{2028}' || c == '\u{2029}' || c == '\u{202f}' || c
        == '\u{205f}' || c == '\u{3000}'
}

/// `s` without its leading white space.
pub open spec fn trimmed_start(s: Seq<char>) -> Seq<char>
    decreases s.len(),
{
    if s.len() > 0 && is_space(s[0]) {
        trimmed_start(s.skip(1))
    } else {
        s
    }
}

/// `s` without its trailing white space.
pub open spec fn trimmed_end(s: Seq<char>) -> Seq<char>
    decreases s.len(),
{
    if s.len() > 0 && is_space(s.last()) {
        trimmed_end(s.drop_last())
    } else {
        s
    }
}

/// `s` without its leading and trailing white space.
pub open spec fn trimmed(s: Seq<char>) -> Seq<char> {
    trimmed_end(trimmed_start(s))
}

/// `s` without its leading and trailing white space.
pub fn trim_text(s: &str) -> (r: String)
    ensures
        r@ == trimmed(s@),
{
    let v = chars_of(s);
    let mut from: usize = 0;
    assert(s@.skip(0) =~= s@);
    while from < v.len() && space(v[from])
        invariant
            v@ == s@,
            from <= v@.len(),
            trimmed_start(s@.skip(from as int)) == trimmed_start(s@),
        decreases v@.len() - from,
    {
        assert(s@.skip(from as int).skip(1) =~= s@.skip(from + 1));
        from += 1;
    }
    let ghost rest = s@.skip(from as int);
    let mut to: usize = v.len();
    assert(s@.subrange(from as int, to as int) =~= rest);
    while from < to && space(v[to - 1])
        invariant
            v@ == s@,
            from <= to <= v@.len(),
            trimmed_end(s@.subrange(from as int, to as int)) == trimmed_end(rest),
        decreases to,
    {
        assert(s@.subrange(from as int, to as int).drop_last() =~= s@.subrange(
            from as int,
            to - 1,
        ));
        to -= 1;
    }
    text_between(&v, from, to)
}

/// `s` without the trailing run of `c`.
pub open spec fn without_trailing(s: Seq<char>, c: char) -> Seq<char>
    decreases s.len(),
{
    if s.len() > 0 && s.last() == c {
        without_trailing(s.drop_last(), c)
    } else {
        s
    }
}

/// `s` without the trailing run of `c`.
pub fn trim_trailing(s: &str, c: char) -> (r: String)
    ensures
        r@ == without_trailing(s@, c),
{
    let v = chars_of(s);
    let mut to: usize = v.len();
    assert(s@.take(to as int) =~= s@);
    while 0 < to && v[to - 1] == c
        invariant
            v@ == s@,
            to <= v@.len(),
            without_trailing(s@.take(to as int), c) == without_trailing(s@, c),
        decreases to,
    {
        assert(s@.take(to as int).drop_last() =~= s@.take(to - 1));
        to -= 1;
    }
    assert(s@.subrange(0, to as int) =~= s@.take(to as int));
    text_between(&v, 0, to)
}

/// The character of the digit `d`.
pub open spec fn digit(d: nat) -> char {
    (48 + d) as char
}

/// The decimal text of `n`.
pub open spec fn dec(n: nat) -> Seq<char>
    decreases n,
{
    if n < 10 {
        seq![digit(n)]
    } else {
        dec(n / 10).push(digit(n % 10))
    }
}

/// The decimal text of `n`.
pub fn decimal(n: u128) -> (r: String)
    ensures
        r@ == dec(n as nat),
    decreases n,
{
    let mut s = if n < 10 {
        String::new()
    } else {
        decimal(n / 10)
    };
    let d: u8 = (n % 10) as u8;
    s.push((48 + d) as char);
    s
}

/// Different numbers have different decimal texts.
pub proof fn lemma_dec_injective(a: nat, b: nat)
    requires
        dec(a) == dec(b),
    ensures
        a == b,
    decreases a,
{
    reveal_with_fuel(dec, 2);
    assert(dec(a).last() == digit(a % 10));
    assert(dec(b).last() == digit(b % 10));
    assert(a % 10 == b % 10);
    if a >= 10 && b >= 10 {
        assert(dec(a).drop_last() =~= dec(a / 10));
        assert(dec(b).drop_last() =~= dec(b / 10));
        lemma_dec_injective(a / 10, b / 10);
    } else if a >= 10 {
        assert(dec(a).len() == dec(a / 10).len() + 1);
        assert(dec(a / 10).len() >= 1);
    } else if b >= 10 {
        assert(dec(b).len() == dec(b / 10).len() + 1);
        assert(dec(b / 10).len() >= 1);
    }
}

/// `s` with as many spaces behind it as make it `width` characters long.
pub open spec fn left_aligned(s: Seq<char>, width: nat) -> Seq<char> {
    if s.len() < width {
        s + Seq::new((width - s.len()) as nat, |i: int| ' ')
    } else {
        s
    }
}

/// `s` with as many spaces behind it as make it `width` characters long.
pub fn align_left(s: &str, width: usize) -> (r: String)
    ensures
        r@ == left_aligned(s@, width as nat),
{
    let mut n: usize = chars_of(s).len();
    let mut out = s.to_owned();
    let ghost len = s@.len();
    assert(out@ =~= s@ + Seq::new(0, |i: int| ' '));
    while n < width
        invariant
            len == s@.len(),
            len <= n,
            n <= width || n == len,
            out@ == s@ + Seq::new((n - len) as nat, |i: int| ' '),
        decreases width - n,
    {
        out.push(' ');
        assert(out@ =~= s@ + Seq::new((n + 1 - len) as nat, |i: int| ' '));
        n += 1;
    }
    assert(out@ =~= left_aligned(s@, width as nat));
    out
}

/// The ASCII lower-case form of `c`; any other character is itself.
pub open spec fn lower_char(c: char) -> char {
    if 'A' <= c <= 'Z' {
        ((c as u32) + 32) as char
    } else {
        c
    }
}

/// The ASCII lower-case form of `s`.
pub open spec fn lower_ascii(s: Seq<char>) -> Seq<char> {
    s.map_values(|c: char| lower_char(c))
}

/// The ASCII lower-case form of `c`.
pub fn ascii_lower_char(c: char) -> (r: char)
    ensures
        r == lower_char(c),
{
    if 'A' <= c && c <= 'Z' {
        let code: u8 = (c as u32) as u8;
        (code + 32) as char
    } else {
        c
    }
}

/// The ASCII lower-case form of `s`.
pub fn ascii_lowercase(s: &str) -> (r: String)
    ensures
        r@ == lower_ascii(s@),
{
    let v = chars_of(s);
    let mut r = String::new();
    let mut i: usize = 0;
    assert(r@ =~= lower_ascii(v@.take(0)));
    while i < v.len()
        invariant
            i <= v@.len(),
            r@ == lower_ascii(v@.take(i as int)),
        decreases v@.len() - i,
    {
        r.push(ascii_lower_char(v[i]));
        assert(r@ =~= lower_ascii(v@.take(i + 1)));
        i += 1;
    }
    assert(v@.take(i as int) =~= s@);
    r
}

/// The texts of a list with `sep` between them.
pub open spec fn joined(list: Seq<Seq<char>>, sep: Seq<char>) -> Seq<char>
    decreases list.len(),
{
    if list.len() == 0 {
        Seq::empty()
    } else if list.len() == 1 {
        list[0]
    } else {
        joined(list.drop_last(), sep) + sep + list.last()
    }
}

/// The views of a list of strings.
pub open spec fn views(list: Seq<String>) -> Seq<Seq<char>> {
    list.map_values(|s: String| s@)
}

/// The texts of a list with `sep` between them.
pub fn join(list: &Vec<String>, sep: &str) -> (r: String)
    ensures
        r@ == joined(views(list@), sep@),
{
    let ghost all = views(list@);
    let mut out = String::new();
    let mut i: usize = 0;
    assert(all.take(0) =~= Seq::<Seq<char>>::empty());
    while i < list.len()
        invariant
            all == views(list@),
            i <= list@.len(),
            out@ == joined(all.take(i as int), sep@),
        decreases list@.len() - i,
    {
        assert(all.take(i + 1).drop_last() =~= all.take(i as int));
        assert(all.take(i + 1).last() == list@[i as int]@);
        if i == 0 {
            out = list[0].clone();
        } else {
            out.append(sep);
            out.append(list[i].as_str());
        }
        i += 1;
    }
    assert(all.take(i as int) =~= all);
    out
}

/// The decimal text of `n` behind as many zeros as make it `width` digits
/// long.
pub open spec fn zero_padded(n: nat, width: nat) -> Seq<char> {
    let digits = dec(n);
    if digits.len() < width {
        Seq::new((width - digits.len()) as nat, |i: int| '0') + digits
    } else {
        digits
    }
}

/// The decimal text of `n` behind as many zeros as make it `width` digits
/// long.
pub fn pad_zeros(n: u128, width: usize) -> (r: String)
    ensures
        r@ == zero_padded(n as nat, width as nat),
{
    let digits = decimal(n);
    let v = chars_of(digits.as_str());
    let mut out = String::new();
    let mut k: usize = v.len();
    let ghost len = v@.len();
    assert(out@ =~= Seq::new(0, |i: int| '0'));
    while k < width
        invariant
            len <= k,
            k <= width || k == len,
            out@ == Seq::new((k - len) as nat, |i: int| '0'),
        decreases width - k,
    {
        out.push('0');
        assert(out@ =~= Seq::new((k + 1 - len) as nat, |i: int| '0'));
        k += 1;
    }
    out.append(digits.as_str());
    assert(out@ =~= zero_padded(n as nat, width as nat));
    out
}

/// The decimal text of `n` with a comma before every three digits.
pub open spec fn grouped(n: nat) -> Seq<char>
    decreases n,
{
    if n < 1000 {
        dec(n)
    } else {
        grouped(n / 1000) + ","@ + zero_padded(n % 1000, 3)
    }
}

/// The decimal text of `n` with a comma before every three digits.
pub fn group_digits(n: u128) -> (r: String)
    ensures
        r@ == grouped(n as nat),
    decreases n,
{
    if n < 1000 {
        return decimal(n);
    }
    let mut s = group_digits(n / 1000);
    s.append(",");
    s.append(pad_zeros(n % 1000, 3).as_str());
    s
}

/// The Unicode lower-case form of a text.
pub uninterp spec fn lowered(s: Seq<char>) -> Seq<char>;

/// Every character is ASCII.
pub open spec fn all_ascii(s: Seq<char>) -> bool {
    forall|i: int| 0 <= i < s.len() ==> (#[trigger] s[i]) as u32 <= 127
}

/// `str::to_lowercase`: the Unicode lower-case form of a text, which depends
/// on the text alone. On ASCII text it changes `A` to `Z` and nothing else.
#[verifier::external_body]
pub(crate) fn lowercase(s: &str) -> (r: String)
    ensures
        r@ == lowered(s@),
        all_ascii(s@) ==> r@ == lower_ascii(s@),
{
    s.to_lowercase()
}

/// The text as Rust source would write it, in double quotes.
pub uninterp spec fn quoted(s: Seq<char>) -> Seq<char>;

/// `{:?}` on a text: its quoted and escaped form, which depends on the text
/// alone.
#[verifier::external_body]
pub(crate) fn quote(s: &str) -> (r: String)
    ensures
        r@ == quoted(s@),
{
    format!("{s:?}")
}

/// How many bytes `c` takes in UTF-8.
pub open spec fn char_width(c: char) -> nat {
    if c as u32 <= 0x7f {
        1
    } else if c as u32 <= 0x7ff {
        2
    } else if c as u32 <= 0xffff {
        3
    } else {
        4
    }
}

/// How many bytes `c` takes in UTF-8.
fn width(c: char) -> (r: usize)
    ensures
        r == char_width(c),
{
    let code: u32 = c as u32;
    if code <= 0x7f {
        1
    } else if code <= 0x7ff {
        2
    } else if code <= 0xffff {
        3
    } else {
        4
    }
}

/// The beginning of `s` that takes `n` bytes, if `n` is where a character
/// ends.
pub open spec fn byte_prefix(s: Seq<char>, n: nat) -> Option<Seq<char>>
    decreases s.len(),
{
    if n == 0 {
        Some(Seq::empty())
    } else if s.len() == 0 || char_width(s[0]) > n {
        None
    } else {
        match byte_prefix(s.skip(1), (n - char_width(s[0])) as nat) {
            Some(rest) => Some(seq![s[0]] + rest),
            None => None,
        }
    }
}

/// `s` is no longer than `n` bytes, or can be cut there.
pub open spec fn can_cut(s: Seq<char>, n: nat) -> bool {
    byte_len(s) <= n || byte_prefix(s, n) is Some
}

/// `s`, or its first `n` bytes and a marker where it is longer.
pub open spec fn truncated(s: Seq<char>, n: nat) -> Seq<char> {
    if byte_len(s) <= n {
        s
    } else {
        byte_prefix(s, n)->0 + "...<truncated>"@
    }
}

/// The beginning of `s` that takes `n` bytes, if `n` is where a character
/// ends.
fn cut(s: &str, n: usize) -> (r: Option<String>)
    ensures
        match r {
            Some(t) => byte_prefix(s@, n as nat) == Some(t@),
            None => byte_prefix(s@, n as nat) is None,
        },
{
    let v = chars_of(s);
    let mut left: usize = n;
    let mut i: usize = 0;
    let mut out = String::new();
    assert(v@.skip(0) =~= s@);
    assert forall|rest: Seq<char>| #[trigger] (out@ + rest) == rest by {
        assert(out@ + rest =~= rest);
    }
    while 0 < left
        invariant
            v@ == s@,
            i <= v@.len(),
            match byte_prefix(v@.skip(i as int), left as nat) {
                Some(rest) => byte_prefix(s@, n as nat) == Some(out@ + rest),
                None => byte_prefix(s@, n as nat) is None,
            },
        decreases v@.len() - i,
    {
        if i == v.len() {
            return None;
        }
        let w: usize = width(v[i]);
        if w > left {
            return None;
        }
        let ghost before = out@;
        assert(v@.skip(i as int).skip(1) =~= v@.skip(i + 1));
        out.push(v[i]);
        proof {
            if let Some(rest) = byte_prefix(v@.skip(i + 1), (left - w) as nat) {
                assert(before + (seq![v@[i as int]] + rest) =~= out@ + rest);
            }
        }
        left -= w;
        i += 1;
    }
    assert(out@ + Seq::<char>::empty() =~= out@);
    Some(out)
}

/// Whether `s` is no longer than `n` bytes, or can be cut there.
pub fn cuttable(s: &str, n: usize) -> (r: bool)
    ensures
        r == can_cut(s@, n as nat),
{
    byte_count(s) <= n || cut(s, n).is_some()
}

/// The longest beginning of `s` that takes at most `n` bytes.
pub open spec fn floor_prefix(s: Seq<char>, n: nat) -> Seq<char>
    decreases s.len(),
{
    if s.len() == 0 || char_width(s[0]) > n {
        Seq::empty()
    } else {
        seq![s[0]] + floor_prefix(s.skip(1), (n - char_width(s[0])) as nat)
    }
}

/// `s`, or as many whole characters of it as fit in `n` bytes and a marker
/// where it is longer.
pub open spec fn shortened(s: Seq<char>, n: nat) -> Seq<char> {
    if byte_len(s) <= n {
        s
    } else {
        floor_prefix(s, n) + "...<truncated>"@
    }
}

/// Where `n` bytes can be cut off, that is what the longest beginning is.
proof fn lemma_floor_prefix(s: Seq<char>, n: nat)
    ensures
        byte_prefix(s, n) matches Some(t) ==> floor_prefix(s, n) == t,
    decreases s.len(),
{
    if s.len() > 0 && char_width(s[0]) <= n {
        lemma_floor_prefix(s.skip(1), (n - char_width(s[0])) as nat);
    }
}

/// A text that can be cut at a length is shortened by cutting it there.
pub proof fn law_shortened_is_cut(s: Seq<char>, n: nat)
    requires
        can_cut(s, n),
    ensures
        shortened(s, n) == truncated(s, n),
{
    lemma_floor_prefix(s, n);
}

/// Shortens a string to at most the given length in bytes, appending a marker
/// if something was left out. A character that does not fit as a whole is
/// left out.
pub fn shorten(s: &str, max_len: usize) -> (r: String)
    ensures
        r@ == shortened(s@, max_len as nat),
{
    if byte_count(s) <= max_len {
        return s.to_owned();
    }
    let v = chars_of(s);
    let mut left: usize = max_len;
    let mut i: usize = 0;
    let mut out = String::new();
    assert(v@.skip(0) =~= s@);
    assert(out@ + floor_prefix(s@, max_len as nat) =~= floor_prefix(s@, max_len as nat));
    while i < v.len() && width(v[i]) <= left
        invariant
            v@ == s@,
            i <= v@.len(),
            floor_prefix(s@, max_len as nat) == out@ + floor_prefix(
                v@.skip(i as int),
                left as nat,
            ),
        decreases v@.len() - i,
    {
        let w: usize = width(v[i]);
        let ghost before = out@;
        assert(v@.skip(i as int).skip(1) =~= v@.skip(i + 1));
        out.push(v[i]);
        assert(before + (seq![v@[i as int]] + floor_prefix(v@.skip(i + 1), (left - w) as nat))
            =~= out@ + floor_prefix(v@.skip(i + 1), (left - w) as nat));
        left -= w;
        i += 1;
    }
    assert(out@ + Seq::<char>::empty() =~= out@);
    out.append("...<truncated>");
    out
}

/// Truncates a string to the given maximum length in bytes, appending a
/// marker if truncation occurred. The length must be where a character ends.
pub fn truncate(s: &str, max_len: usize) -> (r: String)
    requires
        can_cut(s@, max_len as nat),
    ensures
        r@ == truncated(s@, max_len as nat),
{
    if byte_count(s) <= max_len {
        s.to_owned()
    } else {
        let mut out = match cut(s, max_len) {
            Some(t) => t,
            None => String::new(),
        };
        out.append("...<truncated>");
        out
    }
}

/// Every character is a decimal digit.
pub open spec fn all_digits(s: Seq<char>) -> bool {
    forall|i: int| 0 <= i < s.len() ==> '0' <= #[trigger] s[i] <= '9'
}

/// The number that decimal digits stand for.
pub open spec fn digits_value(s: Seq<char>) -> nat
    decreases s.len(),
{
    if s.len() == 0 {
        0
    } else {
        10 * digits_value(s.drop_last()) + (s.last() as u32 - 48) as nat
    }
}

/// The unsigned number that a text holds: decimal digits, behind a plus sign
/// or not, of a value up to `max`.
pub open spec fn parsed_uint(s: Seq<char>, max: nat) -> Option<nat> {
    let digits = if s.len() > 0 && s[0] == '+' {
        s.skip(1)
    } else {
        s
    };
    if digits.len() > 0 && all_digits(digits) && digits_value(digits) <= max {
        Some(digits_value(digits))
    } else {
        None
    }
}

/// More digits do not make a number smaller.
proof fn lemma_digits_grow(s: Seq<char>, i: int)
    requires
        0 <= i <= s.len(),
        all_digits(s),
    ensures
        digits_value(s.take(i)) <= digits_value(s),
    decreases s.len() - i,
{
    if i < s.len() {
        lemma_digits_grow(s, i + 1);
        assert(s.take(i + 1).drop_last() =~= s.take(i));
        assert('0' <= s[i] <= '9');
    } else {
        assert(s.take(i) =~= s);
    }
}

/// The unsigned number that a text holds, if it is no more than `max`.
pub fn parse_uint(s: &str, max: u64) -> (r: Option<u64>)
    ensures
        match r {
            Some(n) => parsed_uint(s@, max as nat) == Some(n as nat),
            None => parsed_uint(s@, max as nat) is None,
        },
{
    let v = chars_of(s);
    let from: usize = if v.len() > 0 && v[0] == '+' {
        1
    } else {
        0
    };
    let ghost digits = v@.skip(from as int);
    assert(v@.skip(0) =~= v@);
    if v.len() == from {
        return None;
    }
    let mut n: u64 = 0;
    let mut i: usize = from;
    assert(digits.take(0) =~= Seq::<char>::empty());
    while i < v.len()
        invariant
            v@ == s@,
            from <= i <= v@.len(),
            digits == v@.skip(from as int),
            digits == (if s@.len() > 0 && s@[0] == '+' {
                s@.skip(1)
            } else {
                s@
            }),
            digits.len() > 0,
            n <= max,
            all_digits(digits.take(i - from)),
            n == digits_value(digits.take(i - from)),
        decreases v@.len() - i,
    {
        let c = v[i];
        assert(digits[i - from] == c);
        if c < '0' || '9' < c {
            return None;
        }
        let d: u64 = c as u64 - 48;
        assert(digits.take(i - from + 1).drop_last() =~= digits.take(i - from));
        assert(all_digits(digits.take(i - from + 1)));
        let wide: u128 = 10 * (n as u128) + d as u128;
        assert(digits_value(digits.take(i - from + 1)) == wide);
        if wide > max as u128 {
            proof {
                if all_digits(digits) {
                    lemma_digits_grow(digits, i - from + 1);
                }
            }
            return None;
        }
        n = wide as u64;
        i += 1;
    }
    assert(digits.take(i - from) =~= digits);
    Some(n)
}

/// An occurrence at `i` is an occurrence at the front of what follows `i`.
proof fn lemma_occurs_shift(s: Seq<char>, pat: Seq<char>, i: int)
    requires
        0 <= i <= s.len(),
    ensures
        occurs_at(s, pat, i) == occurs_at(s.skip(i), pat, 0),
{
    if i + pat.len() <= s.len() {
        assert(s.skip(i).subrange(0, pat.len() as int) =~= s.subrange(i, i + pat.len()));
    }
}

/// A text is one line with the line break at its end.
pub open spec fn is_line(s: Seq<char>) -> bool {
    &&& s.len() > 0
    &&& s.last() == '\n'
    &&& !s.drop_last().contains('\n')
}

/// A text without line breaks becomes a line.
pub proof fn lemma_line(s: Seq<char>)
    requires
        !s.contains('\n'),
    ensures
        is_line(s + "\n"@),
{
    reveal_strlit("\n");
    assert((s + "\n"@).drop_last() =~= s);
}

/// `s` does not hold `c`.
pub open spec fn lacks(s: Seq<char>, c: char) -> bool {
    forall|i: int| 0 <= i < s.len() ==> #[trigger] s[i] != c
}

/// A replacement brings in only what it puts there, and takes a replaced
/// character out.
pub proof fn lemma_replaced_lacks(s: Seq<char>, from: Seq<char>, to: Seq<char>, c: char)
    requires
        lacks(to, c),
        lacks(s, c) || from == seq![c],
    ensures
        lacks(replaced(s, from, to), c),
    decreases s.len(),
{
    if from.len() > 0 && s.len() > 0 {
        if occurs_at(s, from, 0) {
            lemma_replaced_lacks(s.skip(from.len() as int), from, to, c);
        } else {
            lemma_replaced_lacks(s.skip(1), from, to, c);
            if s[0] == c {
                assert(s.subrange(0, 1) =~= seq![c]);
                assert(occurs_at(s, from, 0));
            }
        }
    }
}

/// Of the ASCII characters, the space, the tab and the line breaks are white
/// space, and no other.
pub proof fn law_white_space(c: char)
    requires
        c as u32 <= 127,
    ensures
        is_space(c) <==> (c == ' ' || c == '\t' || c == '\n' || c == '\r' || c == '\u{b}' || c
            == '\u{c}'),
{
}

/// The white space that precedes `s`, and what is left.
proof fn lemma_trimmed_start(s: Seq<char>) -> (i: int)
    ensures
        0 <= i <= s.len(),
        trimmed_start(s) == s.skip(i),
        forall|k: int| 0 <= k < i ==> is_space(#[trigger] s[k]),
        i < s.len() ==> !is_space(s[i]),
    decreases s.len(),
{
    if s.len() > 0 && is_space(s[0]) {
        let j = lemma_trimmed_start(s.skip(1));
        assert(s.skip(1).skip(j) =~= s.skip(j + 1));
        assert forall|k: int| 0 <= k < j + 1 implies is_space(#[trigger] s[k]) by {
            if k > 0 {
                assert(s.skip(1)[k - 1] == s[k]);
            }
        }
        j + 1
    } else {
        assert(s.skip(0) =~= s);
        0
    }
}

/// The white space that follows `s`, and what is left.
proof fn lemma_trimmed_end(s: Seq<char>) -> (j: int)
    ensures
        0 <= j <= s.len(),
        trimmed_end(s) == s.take(j),
        forall|k: int| j <= k < s.len() ==> is_space(#[trigger] s[k]),
        0 < j ==> !is_space(s[j - 1]),
    decreases s.len(),
{
    if s.len() > 0 && is_space(s.last()) {
        let t = s.drop_last();
        let j = lemma_trimmed_end(t);
        assert(t.take(j) =~= s.take(j));
        assert forall|k: int| j <= k < s.len() implies is_space(#[trigger] s[k]) by {
            if k < t.len() {
                assert(t[k] == s[k]);
            }
        }
        j
    } else {
        assert(s.take(s.len() as int) =~= s);
        s.len() as int
    }
}

/// Trimming takes a part out of a text, character for character: what is left
/// out before and behind it is white space, and it neither begins nor ends
/// with any.
pub proof fn law_trimmed_is_a_part(s: Seq<char>) -> (part: (int, int))
    ensures
        0 <= part.0 <= part.1 <= s.len(),
        trimmed(s) == s.subrange(part.0, part.1),
        forall|k: int| 0 <= k < part.0 || part.1 <= k < s.len() ==> is_space(#[trigger] s[k]),
        part.0 < part.1 ==> !is_space(s[part.0]) && !is_space(s[part.1 - 1]),
{
    let i = lemma_trimmed_start(s);
    let rest = s.skip(i);
    let j = lemma_trimmed_end(rest);
    assert(rest.take(j) =~= s.subrange(i, i + j));
    assert forall|k: int| 0 <= k < i || i + j <= k < s.len() implies is_space(#[trigger] s[k]) by {
        if k >= i {
            assert(rest[k - i] == s[k]);
        }
    }
    if j > 0 {
        assert(rest[j - 1] == s[i + j - 1]);
        assert(rest[0] == s[i]);
    }
    (i, i + j)
}

/// A text that neither begins nor ends with white space is left as it is.
pub proof fn law_trimmed_text_stays(s: Seq<char>)
    requires
        s.len() > 0 ==> !is_space(s[0]) && !is_space(s.last()),
    ensures
        trimmed(s) == s,
{
}

/// White space around a text does not change what is left of it.
pub proof fn law_space_around_is_ignored(before: Seq<char>, s: Seq<char>, after: Seq<char>)
    requires
        forall|k: int| 0 <= k < before.len() ==> is_space(#[trigger] before[k]),
        forall|k: int| 0 <= k < after.len() ==> is_space(#[trigger] after[k]),
        s.len() > 0,
        !is_space(s[0]),
        !is_space(s.last()),
    ensures
        trimmed(before + s + after) == s,
{
    let all = before + s + after;
    let (i, j) = law_trimmed_is_a_part(all);
    let a = before.len() as int;
    let b = a + s.len();
    assert(all[a] == s[0]);
    assert(all[b - 1] == s.last());
    assert(i <= a && b <= j);
    if i < a {
        assert(all[i] == before[i]);
    }
    if b < j {
        assert(all[j - 1] == after[j - 1 - b]);
    }
    assert(all.subrange(a, b) =~= s);
}

/// Where a text occurs, its parts occur.
pub proof fn lemma_part_occurs(s: Seq<char>, pat: Seq<char>, part: Seq<char>, at: int)
    requires
        0 <= at <= pat.len() - part.len(),
        pat.subrange(at, at + part.len()) =~= part,
    ensures
        has_text(s, pat) ==> has_text(s, part),
{
    if has_text(s, pat) {
        let i = choose|i: int| #[trigger] occurs_at(s, pat, i);
        assert(s.subrange(i + at, i + at + part.len()) =~= s.subrange(i, i + pat.len()).subrange(
            at,
            at + part.len(),
        ));
        assert(occurs_at(s, part, i + at));
    }
}

/// A text without the first character of a pattern is not changed by
/// replacing it.
pub proof fn lemma_replaced_absent(s: Seq<char>, from: Seq<char>, to: Seq<char>)
    requires
        from.len() > 0,
        lacks(s, from[0]),
    ensures
        replaced(s, from, to) == s,
    decreases s.len(),
{
    if s.len() > 0 {
        if occurs_at(s, from, 0) {
            assert(s.subrange(0, from.len() as int)[0] == s[0]);
        }
        assert forall|i: int| 0 <= i < s.skip(1).len() implies #[trigger] s.skip(1)[i] != from[0] by {
            assert(s.skip(1)[i] == s[i + 1]);
        }
        lemma_replaced_absent(s.skip(1), from, to);
        assert(seq![s[0]] + s.skip(1) =~= s);
    }
}

/// The one occurrence of a pattern is replaced, and what stands around it is
/// kept.
pub proof fn law_replacing_one_occurrence(
    before: Seq<char>,
    from: Seq<char>,
    to: Seq<char>,
    after: Seq<char>,
)
    requires
        from.len() > 0,
        lacks(before, from[0]),
        lacks(after, from[0]),
    ensures
        replaced(before + from + after, from, to) == before + to + after,
    decreases before.len(),
{
    let s = before + from + after;
    if before.len() == 0 {
        assert(s.subrange(0, from.len() as int) =~= from);
        assert(s.skip(from.len() as int) =~= after);
        lemma_replaced_absent(after, from, to);
        assert(to + after =~= before + to + after);
    } else {
        assert(s[0] == before[0]);
        if occurs_at(s, from, 0) {
            assert(s.subrange(0, from.len() as int)[0] == s[0]);
        }
        let rest = before.skip(1);
        assert forall|i: int| 0 <= i < rest.len() implies #[trigger] rest[i] != from[0] by {
            assert(rest[i] == before[i + 1]);
        }
        assert(s.skip(1) =~= rest + from + after);
        law_replacing_one_occurrence(rest, from, to, after);
        assert(seq![s[0]] + (rest + to + after) =~= before + to + after);
    }
}

/// A pattern of one character is replaced character by character: each text
/// is replaced on its own.
pub proof fn law_replacing_a_character_goes_piece_by_piece(
    a: Seq<char>,
    b: Seq<char>,
    c: char,
    to: Seq<char>,
)
    ensures
        replaced(a + b, seq![c], to) == replaced(a, seq![c], to) + replaced(b, seq![c], to),
    decreases a.len(),
{
    let from = seq![c];
    let s = a + b;
    if a.len() == 0 {
        assert(s =~= b);
        assert(replaced(a, from, to) =~= Seq::<char>::empty());
        assert(Seq::<char>::empty() + replaced(b, from, to) =~= replaced(b, from, to));
    } else {
        law_replacing_a_character_goes_piece_by_piece(a.skip(1), b, c, to);
        assert(s.skip(1) =~= a.skip(1) + b);
        assert(s.subrange(0, 1) =~= seq![a[0]]);
        assert(a.subrange(0, 1) =~= seq![a[0]]);
        assert(seq![a[0]][0] == a[0] && from[0] == c);
        let rest = replaced(a.skip(1), from, to) + replaced(b, from, to);
        if a[0] == c {
            assert(seq![a[0]] =~= from);
            assert(to + rest =~= to + replaced(a.skip(1), from, to) + replaced(b, from, to));
        } else {
            assert(seq![a[0]] + rest =~= seq![a[0]] + replaced(a.skip(1), from, to) + replaced(
                b,
                from,
                to,
            ));
        }
    }
}

/// A text stands in what is built around it.
pub proof fn lemma_middle(before: Seq<char>, s: Seq<char>, after: Seq<char>)
    ensures
        has_text(before + s + after, s),
{
    let all = before + s + after;
    assert(all.subrange(before.len() as int, before.len() + s.len() as int) =~= s);
    assert(occurs_at(all, s, before.len() as int));
}

/// Joined texts hold each of them.
pub proof fn law_joined_holds_each(list: Seq<Seq<char>>, sep: Seq<char>, i: int)
    requires
        0 <= i < list.len(),
    ensures
        has_text(joined(list, sep), list[i]),
    decreases list.len(),
{
    let all = joined(list, sep);
    if list.len() == 1 {
        lemma_middle(Seq::empty(), list[0], Seq::empty());
        assert(Seq::<char>::empty() + list[0] + Seq::<char>::empty() =~= all);
    } else if i == list.len() - 1 {
        let head = joined(list.drop_last(), sep) + sep;
        lemma_middle(head, list.last(), Seq::empty());
        assert(head + list.last() + Seq::<char>::empty() =~= all);
    } else {
        let head = joined(list.drop_last(), sep);
        law_joined_holds_each(list.drop_last(), sep, i);
        let at = choose|at: int| occurs_at(head, list.drop_last()[i], at);
        let n = list[i].len() as int;
        assert(all.subrange(at, at + n) =~= head.subrange(at, at + n));
        assert(occurs_at(all, list[i], at));
    }
}

/// The decimal digits of a number have its value.
pub proof fn lemma_dec_value(n: nat)
    ensures
        dec(n).len() > 0,
        all_digits(dec(n)),
        digits_value(dec(n)) == n,
    decreases n,
{
    let d = (n % 10) as int;
    assert('0' <= digit(n % 10) <= '9');
    assert(digit(n % 10) as u32 - 48 == d);
    if n < 10 {
        assert(dec(n).drop_last() =~= Seq::<char>::empty());
        assert(digits_value(Seq::<char>::empty()) == 0);
    } else {
        lemma_dec_value(n / 10);
        assert(dec(n).drop_last() =~= dec(n / 10));
        assert forall|i: int| 0 <= i < dec(n).len() implies '0' <= #[trigger] dec(n)[i] <= '9' by {
            if i < dec(n / 10).len() {
                assert(dec(n)[i] == dec(n / 10)[i]);
            }
        }
    }
}

/// A number that was written is read back, as far as it fits.
pub proof fn law_written_numbers_read_back(n: nat, max: nat)
    ensures
        parsed_uint(dec(n), max) == if n <= max {
            Some(n)
        } else {
            None
        },
{
    lemma_dec_value(n);
    assert('0' <= dec(n)[0]);
}

/// What is not made of digits is no number.
pub proof fn law_numbers_are_digits(s: Seq<char>, max: nat)
    ensures
        parsed_uint(s, max) matches Some(n) ==> n <= max && s.len() > 0 && forall|i: int|
            0 < i < s.len() ==> '0' <= #[trigger] s[i] <= '9',
        s.len() == 0 ==> parsed_uint(s, max) is None,
        s.len() > 0 && s[0] != '+' && !('0' <= s[0] <= '9') ==> parsed_uint(s, max) is None,
{
    if parsed_uint(s, max) is Some && s[0] == '+' {
        assert forall|i: int| 0 < i < s.len() implies '0' <= #[trigger] s[i] <= '9' by {
            assert(s.skip(1)[i - 1] == s[i]);
        }
    }
}

/// What ends with a character loses every one of them at its end, and nothing
/// else.
pub proof fn law_trailing_characters_go(s: Seq<char>, c: char)
    ensures
        without_trailing(s + seq![c], c) == without_trailing(s, c),
        s.len() == 0 || s.last() != c ==> without_trailing(s, c) == s,
        without_trailing(s, c).len() == 0 || without_trailing(s, c).last() != c,
    decreases s.len(),
{
    assert((s + seq![c]).drop_last() =~= s);
    if s.len() > 0 && s.last() == c {
        law_trailing_characters_go(s.drop_last(), c);
    }
}

/// Lowering changes the letters A to Z into a to z and nothing else.
pub proof fn law_lowering_is_for_letters(s: Seq<char>, i: int)
    requires
        0 <= i < s.len(),
    ensures
        lower_ascii(s).len() == s.len(),
        !('A' <= s[i] <= 'Z') ==> lower_ascii(s)[i] == s[i],
        s[i] == 'A' ==> lower_ascii(s)[i] == 'a',
        s[i] == 'H' ==> lower_ascii(s)[i] == 'h',
        s[i] == 'Z' ==> lower_ascii(s)[i] == 'z',
        'A' <= s[i] <= 'Z' ==> 'a' <= lower_ascii(s)[i] <= 'z' && lower_ascii(s)[i] as u32 - s[i] as u32
            == 32,
        lower_ascii(lower_ascii(s)) == lower_ascii(s),
{
    assert(lower_ascii(lower_ascii(s)) =~= lower_ascii(s));
}

/// The bytes that a prefix takes.
proof fn lemma_byte_prefix(s: Seq<char>, n: nat) -> (k: int)
    requires
        byte_prefix(s, n) is Some,
    ensures
        0 <= k <= s.len(),
        byte_prefix(s, n)->0 == s.take(k),
        widths(s.take(k)) == n,
    decreases s.len(),
{
    if n == 0 {
        assert(s.take(0) =~= Seq::<char>::empty());
        0
    } else {
        let j = lemma_byte_prefix(s.skip(1), (n - char_width(s[0])) as nat);
        assert(seq![s[0]] + s.skip(1).take(j) =~= s.take(j + 1));
        assert(s.take(j + 1).skip(1) =~= s.skip(1).take(j));
        j + 1
    }
}

/// How many bytes characters take: one up to U+7F, two up to U+7FF, three up to
/// U+FFFF, four beyond.
pub open spec fn widths(s: Seq<char>) -> nat
    decreases s.len(),
{
    if s.len() == 0 {
        0
    } else {
        (if s[0] as u32 <= 0x7f {
            1nat
        } else if s[0] as u32 <= 0x7ff {
            2nat
        } else if s[0] as u32 <= 0xffff {
            3nat
        } else {
            4nat
        }) + widths(s.skip(1))
    }
}

/// A truncated text is the whole, where that is short enough, or else its
/// beginning of that many bytes and a mark.
pub proof fn law_truncated_is_the_beginning(s: Seq<char>, n: nat) -> (k: int)
    requires
        can_cut(s, n),
    ensures
        0 <= k <= s.len(),
        byte_len(s) <= n ==> truncated(s, n) == s,
        byte_len(s) > n ==> truncated(s, n) == s.take(k) + "...<truncated>"@ && widths(s.take(k))
            == n,
{
    if byte_len(s) <= n {
        0
    } else {
        lemma_byte_prefix(s, n)
    }
}

/// Grouped digits are the digits of the number, with a comma before every
/// three of them from the right.
pub proof fn law_grouping_only_adds_commas(n: nat)
    ensures
        replaced(grouped(n), ","@, Seq::empty()) == dec(n),
        n < 1000 ==> grouped(n) == dec(n),
        n >= 1000 ==> {
            let g = grouped(n);
            &&& g.len() > 4
            &&& g[g.len() - 4] == ','
            &&& g.take(g.len() - 4) == grouped(n / 1000)
            &&& lacks(g.skip(g.len() - 3), ',')
        },
    decreases n,
{
    reveal_strlit(",");
    assert(","@ =~= seq![',']);
    if n < 1000 {
        lemma_dec_value(n);
        assert(lacks(dec(n), ','));
        lemma_replaced_absent(dec(n), ","@, Seq::empty());
    } else {
        let m = n % 1000;
        let low = zero_padded(m, 3);
        law_grouping_only_adds_commas(n / 1000);
        lemma_three_digits(m);
        assert(lacks(low, ','));
        law_replacing_a_character_goes_piece_by_piece(
            grouped(n / 1000) + ","@,
            low,
            ',',
            Seq::empty(),
        );
        law_replacing_a_character_goes_piece_by_piece(
            grouped(n / 1000),
            ","@,
            ',',
            Seq::empty(),
        );
        lemma_replaced_absent(low, ","@, Seq::empty());
        law_replacing_one_occurrence(Seq::empty(), ","@, Seq::empty(), Seq::empty());
        assert(Seq::<char>::empty() + ","@ + Seq::<char>::empty() =~= ","@);
        assert(replaced(","@, ","@, Seq::empty()) =~= Seq::<char>::empty());
        lemma_dec_split(n);
        assert(dec(n / 1000) + Seq::<char>::empty() + low =~= dec(n));
        let g = grouped(n);
        lemma_dec_value(n / 1000);
        assert(g.take(g.len() - 4) =~= grouped(n / 1000));
        assert(g.skip(g.len() - 3) =~= low);
        assert(grouped(n / 1000).len() > 0) by {
            if n / 1000 < 1000 {
            }
        }
    }
}

/// Three places hold a number below a thousand.
proof fn lemma_three_digits(m: nat)
    requires
        m < 1000,
    ensures
        zero_padded(m, 3) == seq![digit(m / 100), digit(m / 10 % 10), digit(m % 10)],
        lacks(zero_padded(m, 3), ','),
{
    reveal_with_fuel(dec, 4);
    assert(digit(0) == '0');
    assert(zero_padded(m, 3) =~= seq![digit(m / 100), digit(m / 10 % 10), digit(m % 10)]);
    assert('0' <= digit(m / 100) && '0' <= digit(m / 10 % 10) && '0' <= digit(m % 10));
}

/// The last three digits, and the rest.
proof fn lemma_dec_split(n: nat)
    requires
        n >= 1000,
    ensures
        dec(n) == dec(n / 1000) + zero_padded(n % 1000, 3),
{
    let m = n % 1000;
    lemma_three_digits(m);
    assert(n / 10 / 10 / 10 == n / 1000);
    assert(n / 10 / 10 % 10 == m / 100);
    assert(n / 10 % 10 == m / 10 % 10);
    assert(n % 10 == m % 10);
    assert(dec(n) == dec(n / 10).push(digit(n % 10)));
    assert(dec(n / 10) == dec(n / 10 / 10).push(digit(n / 10 % 10)));
    assert(dec(n / 10 / 10) == dec(n / 10 / 10 / 10).push(digit(n / 10 / 10 % 10)));
    assert(dec(n) =~= dec(n / 1000) + zero_padded(m, 3));
}

/// A single character is replaced if it is the one.
pub proof fn lemma_replaced_char(c: char, from: char, to: Seq<char>)
    ensures
        replaced(seq![c], seq![from], to) == if c == from {
            to
        } else {
            seq![c]
        },
{
    let none = Seq::<char>::empty();
    if c == from {
        law_replacing_one_occurrence(none, seq![from], to, none);
        assert(none + seq![from] + none =~= seq![c]);
        assert(none + to + none =~= to);
    } else {
        lemma_replaced_absent(seq![c], seq![from], to);
    }
}

} // verus!
