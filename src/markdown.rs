use crate::text::usize_text;
use vstd::prelude::*;
use vstd::string::{StrSliceExecFns, StringExecFns};

verus! {

/// `pat` stands in `s` at position `i`.
pub open spec fn occurs_at(s: Seq<char>, pat: Seq<char>, i: int) -> bool {
    0 <= i && i + pat.len() <= s.len() && s.subrange(i, i + pat.len()) == pat
}

/// The first position at or after `i` where `pat` stands in `s`, or -1.
pub open spec fn find_from(s: Seq<char>, pat: Seq<char>, i: int) -> int
    decreases s.len() + 1 - i,
{
    if i < 0 || i + pat.len() > s.len() {
        -1
    } else if occurs_at(s, pat, i) {
        i
    } else {
        find_from(s, pat, i + 1)
    }
}

pub open spec fn first_index(s: Seq<char>, pat: Seq<char>) -> int {
    find_from(s, pat, 0)
}

/// `s` with the first `pat` in it replaced by `rep`.
pub open spec fn replace_first(s: Seq<char>, pat: Seq<char>, rep: Seq<char>) -> Seq<char> {
    let i = first_index(s, pat);
    if i < 0 { s } else { s.take(i) + rep + s.skip(i + pat.len()) }
}

/// `s` with every `pat` in it, taken left to right without overlap, replaced by `rep`.
pub open spec fn replace_all(s: Seq<char>, pat: Seq<char>, rep: Seq<char>) -> Seq<char>
    decreases s.len(),
{
    if pat.len() == 0 || s.len() < pat.len() {
        s
    } else if s.take(pat.len() as int) == pat {
        rep + replace_all(s.skip(pat.len() as int), pat, rep)
    } else {
        seq![s[0]] + replace_all(s.skip(1), pat, rep)
    }
}

/// The text of an integer: a minus sign for negative values, then its decimal digits.
pub open spec fn int_text(n: i32) -> Seq<char> {
    if n < 0 {
        seq!['-'] + crate::text::decimal((-(n as int)) as nat)
    } else {
        crate::text::decimal(n as nat)
    }
}

/// The marker of an entry line numbered `n` in the given state: `n. [ ]` or `n. [x]`.
pub open spec fn entry_marker(n: i32, checked: bool) -> Seq<char> {
    int_text(n) + ". ["@ + (if checked { seq!['x'] } else { seq![' '] }) + "]"@
}

/// The line that starts at the first `Last Edit :` of `c`, up to its line break.
pub open spec fn last_edit_line(c: Seq<char>) -> Seq<char> {
    let rest = c.skip(first_index(c, "Last Edit :"@));
    rest.take(first_index(rest, "\n"@))
}

/// `c` has a `Last Edit :` line that ends with a line break.
pub open spec fn has_last_edit_line(c: Seq<char>) -> bool {
    first_index(c, "Last Edit :"@) >= 0 && first_index(c.skip(first_index(c, "Last Edit :"@)), "\n"@) >= 0
}

pub open spec fn is_digit(c: char) -> bool {
    48 <= (c as u32) <= 57
}

pub open spec fn all_digits(s: Seq<char>) -> bool {
    forall|i: int| 0 <= i < s.len() ==> is_digit(#[trigger] s[i])
}

/// The value of a string of decimal digits.
pub open spec fn digits_value(s: Seq<char>) -> int
    decreases s.len(),
{
    if s.len() == 0 {
        0
    } else {
        digits_value(s.drop_last()) * 10 + (s.last() as u32 - 48)
    }
}

/// The number a text stands for, if it is a run of digits whose value fits in `i32`.
pub open spec fn parsed_number(s: Seq<char>) -> Option<i32> {
    if s.len() > 0 && all_digits(s) && digits_value(s) <= i32::MAX {
        Some(digits_value(s) as i32)
    } else {
        None
    }
}

/// The largest number among `texts` that parse, or 0.
pub open spec fn largest_number(texts: Seq<Seq<char>>) -> i32
    decreases texts.len(),
{
    if texts.len() == 0 {
        0
    } else {
        let rest = largest_number(texts.drop_last());
        match parsed_number(texts.last()) {
            Some(v) => if v > rest { v } else { rest },
            None => rest,
        }
    }
}

/// One more than the largest number, kept at `i32::MAX`.
pub open spec fn next_number(texts: Seq<Seq<char>>) -> i32 {
    let m = largest_number(texts);
    if m == i32::MAX { m } else { (m + 1) as i32 }
}

/// Whether `regex::Regex::new` accepts `pattern`.
pub uninterp spec fn regex_compiles(pattern: Seq<char>) -> bool;

/// The texts of the first group of each successive match of `pattern` in `text`, as the
/// regex crate finds them.
pub uninterp spec fn regex_first_groups(pattern: Seq<char>, text: Seq<char>) -> Seq<Seq<char>>;

/// The characters of the string in order.
fn chars_of(s: &str) -> (r: Vec<char>)
    ensures
        r@ == s@,
{
    let n = s.unicode_len();
    let mut r: Vec<char> = Vec::new();
    let mut i: usize = 0;
    while i < n
        invariant
            n == s@.len(),
            i <= n,
            r@ == s@.take(i as int),
        decreases n - i,
    {
        r.push(s.get_char(i));
        assert(s@.take(i + 1) =~= s@.take(i as int).push(s@[i as int]));
        i = i + 1;
    }
    assert(s@.take(n as int) =~= s@);
    r
}

/// Relies on `FromIterator<char>` for `String`: the characters in order.
#[verifier::external_body]
fn string_of(cs: &Vec<char>) -> (r: String)
    ensures
        r@ == cs@,
{
    String::from_iter(cs.iter())
}

/// An optional minus sign, then the decimal digits of `n`.
fn i32_text(n: i32) -> (r: String)
    ensures
        r@ == int_text(n),
{
    if n < 0 {
        let mut r = String::from_str("-");
        let t = usize_text((-(n as i64)) as usize);
        r.append(t.as_str());
        proof {
            reveal_strlit("-");
            assert(r@ =~= int_text(n));
        }
        r
    } else {
        usize_text(n as usize)
    }
}

/// Relies on `regex::Regex::new` and `Regex::captures_iter`: the first group of each
/// match, in order; nothing when the pattern does not compile.
#[verifier::external_body]
fn first_groups(pattern: &str, text: &str) -> (r: Option<Vec<String>>)
    ensures
        r is Some <==> regex_compiles(pattern@),
        r matches Some(v) ==> v@.len() == regex_first_groups(pattern@, text@).len() && forall|i: int|
            0 <= i < v@.len() ==> #[trigger] v@[i]@ == regex_first_groups(pattern@, text@)[i],
{
    let re = regex::Regex::new(pattern).ok()?;
    Some(re.captures_iter(text).map(|c| c.get(1).map(|m| m.as_str().to_string()).unwrap_or_default()).collect())
}

/// Whether `pat` stands in `s` at `i`.
fn matches_at(s: &Vec<char>, pat: &Vec<char>, i: usize) -> (r: bool)
    requires
        i + pat@.len() <= s@.len(),
    ensures
        r == occurs_at(s@, pat@, i as int),
{
    let n = s.len();
    let mut j: usize = 0;
    while j < pat.len()
        invariant
            n == s@.len(),
            i + pat@.len() <= s@.len(),
            j <= pat@.len(),
            forall|q: int| 0 <= q < j ==> s@[i + q] == pat@[q],
        decreases pat@.len() - j,
    {
        if s[i + j] != pat[j] {
            assert(s@.subrange(i as int, i + pat@.len())[j as int] != pat@[j as int]);
            return false;
        }
        j = j + 1;
    }
    assert(s@.subrange(i as int, i + pat@.len()) =~= pat@);
    true
}

/// The first position of `pat` in `s`, if any.
fn first_position(s: &Vec<char>, pat: &Vec<char>) -> (r: Option<usize>)
    ensures
        match r {
            Some(i) => first_index(s@, pat@) == i as int,
            None => first_index(s@, pat@) == -1,
        },
{
    if pat.len() > s.len() {
        return None;
    }
    let last = s.len() - pat.len();
    let mut i: usize = 0;
    while i <= last
        invariant
            last + pat@.len() == s@.len(),
            i <= last + 1,
            first_index(s@, pat@) == find_from(s@, pat@, i as int),
        decreases last + 1 - i,
    {
        if matches_at(s, pat, i) {
            return Some(i);
        }
        if i == last {
            assert(find_from(s@, pat@, i + 1) == -1);
            return None;
        }
        i = i + 1;
    }
    None
}

fn push_all(out: &mut Vec<char>, src: &Vec<char>, from: usize, to: usize)
    requires
        from <= to <= src@.len(),
    ensures
        final(out)@ == old(out)@ + src@.subrange(from as int, to as int),
{
    let ghost start = out@;
    let mut j: usize = from;
    while j < to
        invariant
            from <= j <= to <= src@.len(),
            out@ == start + src@.subrange(from as int, j as int),
        decreases to - j,
    {
        out.push(src[j]);
        assert(src@.subrange(from as int, j + 1) =~= src@.subrange(from as int, j as int).push(src@[j as int]));
        j = j + 1;
    }
}

/// `s` with the first `pat` replaced by `rep`.
fn replaced_first(s: &Vec<char>, pat: &Vec<char>, rep: &Vec<char>) -> (r: Vec<char>)
    ensures
        r@ == replace_first(s@, pat@, rep@),
{
    match first_position(s, pat) {
        None => {
            let mut out = Vec::new();
            push_all(&mut out, s, 0, s.len());
            assert(out@ =~= s@);
            out
        },
        Some(i) => {
            proof {
                lemma_found_fits(s@, pat@, 0);
            }
            let n = s.len();
            assert(i + pat@.len() <= n);
            let mut out = Vec::new();
            push_all(&mut out, s, 0, i);
            push_all(&mut out, rep, 0, rep.len());
            push_all(&mut out, s, i + pat.len(), s.len());
            assert(out@ =~= replace_first(s@, pat@, rep@));
            out
        },
    }
}

proof fn lemma_found_fits(s: Seq<char>, pat: Seq<char>, i: int)
    ensures
        find_from(s, pat, i) >= 0 ==> find_from(s, pat, i) >= i && find_from(s, pat, i) + pat.len() <= s.len(),
    decreases s.len() + 1 - i,
{
    if !(i < 0 || i + pat.len() > s.len()) && !occurs_at(s, pat, i) {
        lemma_found_fits(s, pat, i + 1);
    }
}

/// `s` with every `pat` replaced by `rep`, left to right.
fn replaced_all(s: &Vec<char>, pat: &Vec<char>, rep: &Vec<char>) -> (r: Vec<char>)
    ensures
        r@ == replace_all(s@, pat@, rep@),
{
    let mut out: Vec<char> = Vec::new();
    let n = s.len();
    let pl = pat.len();
    if pl == 0 {
        push_all(&mut out, s, 0, n);
        assert(out@ =~= s@);
        return out;
    }
    let mut i: usize = 0;
    assert(s@.skip(0) =~= s@);
    assert(out@ + replace_all(s@, pat@, rep@) =~= replace_all(s@, pat@, rep@));
    while pl <= n - i
        invariant
            n == s@.len(),
            pl == pat@.len(),
            pl > 0,
            i <= n,
            out@ + replace_all(s@.skip(i as int), pat@, rep@) == replace_all(s@, pat@, rep@),
        decreases n - i,
    {
        let ghost rest = s@.skip(i as int);
        assert(rest.take(pl as int) =~= s@.subrange(i as int, i + pl));
        if matches_at(s, pat, i) {
            push_all(&mut out, rep, 0, rep.len());
            assert(rest.skip(pl as int) =~= s@.skip(i + pl));
            assert(rep@.subrange(0, rep@.len() as int) =~= rep@);
            assert(out@ + replace_all(s@.skip(i + pl), pat@, rep@) =~= replace_all(s@, pat@, rep@));
            i = i + pl;
        } else {
            out.push(s[i]);
            assert(rest.skip(1) =~= s@.skip(i + 1));
            assert(out@ + replace_all(s@.skip(i + 1), pat@, rep@) =~= replace_all(s@, pat@, rep@));
            i = i + 1;
        }
    }
    let ghost before = out@;
    push_all(&mut out, s, i, n);
    assert(s@.subrange(i as int, n as int) =~= s@.skip(i as int));
    out
}

fn marker(item: i32, checked: bool) -> (r: Vec<char>)
    ensures
        r@ == entry_marker(item, checked),
{
    let mut t = i32_text(item);
    if checked {
        t.append(". [x]");
    } else {
        t.append(". [ ]");
    }
    proof {
        reveal_strlit(". [x]");
        reveal_strlit(". [ ]");
        reveal_strlit(". [");
        reveal_strlit("]");
    }
    let r = chars_of(t.as_str());
    assert(r@ =~= entry_marker(item, checked));
    r
}

/// Checks off the first entry line numbered `item`: its `n. [ ]` becomes `n. [x]`.
pub fn check_item(item: i32, content: &str) -> (r: String)
    ensures
        r@ == replace_first(content@, entry_marker(item, false), entry_marker(item, true)),
{
    let s = chars_of(content);
    let out = replaced_first(&s, &marker(item, false), &marker(item, true));
    string_of(&out)
}

/// Unchecks the first entry line numbered `item`: its `n. [x]` becomes `n. [ ]`.
pub fn uncheck_item(item: i32, content: &str) -> (r: String)
    ensures
        r@ == replace_first(content@, entry_marker(item, true), entry_marker(item, false)),
{
    let s = chars_of(content);
    let out = replaced_first(&s, &marker(item, true), &marker(item, false));
    string_of(&out)
}

/// Replaces the `Last Edit :` line, wherever it appears, with one that gives `now`.
pub fn update_last_edit(content: &str, now: &str) -> (r: String)
    requires
        has_last_edit_line(content@),
    ensures
        r@ == replace_all(content@, last_edit_line(content@), "Last Edit : "@ + now@),
{
    proof {
        reveal_strlit("Last Edit :");
        reveal_strlit("\n");
        reveal_strlit("Last Edit : ");
    }
    let c = chars_of(content);
    let key = chars_of("Last Edit :");
    let nl = chars_of("\n");
    let start = match first_position(&c, &key) {
        Some(i) => i,
        None => {
            return string_of(&c);
        },
    };
    proof {
        lemma_found_fits(c@, key@, 0);
    }
    let mut rest = Vec::new();
    push_all(&mut rest, &c, start, c.len());
    assert(rest@ =~= c@.skip(start as int));
    let end = match first_position(&rest, &nl) {
        Some(e) => e,
        None => {
            return string_of(&c);
        },
    };
    proof {
        lemma_found_fits(rest@, nl@, 0);
    }
    let mut line = Vec::new();
    push_all(&mut line, &rest, 0, end);
    assert(line@ =~= last_edit_line(content@));
    let mut rep_text = String::from_str("Last Edit : ");
    rep_text.append(now);
    let rep = chars_of(rep_text.as_str());
    let out = replaced_all(&c, &line, &rep);
    string_of(&out)
}

/// Reads a run of decimal digits whose value fits in `i32`.
pub fn parse_number(s: &str) -> (r: Option<i32>)
    ensures
        r == parsed_number(s@),
{
    let cs = chars_of(s);
    if cs.len() == 0 {
        return None;
    }
    let mut acc: i64 = 0;
    let mut j: usize = 0;
    while j < cs.len()
        invariant
            j <= cs@.len(),
            cs@ == s@,
            all_digits(cs@.take(j as int)),
            acc as int == digits_value(cs@.take(j as int)),
            0 <= acc <= i32::MAX,
        decreases cs@.len() - j,
    {
        let u = cs[j] as u32;
        if u < 48 || u > 57 {
            return None;
        }
        assert(cs@.take(j + 1).drop_last() =~= cs@.take(j as int));
        assert(cs@.take(j + 1).last() == cs@[j as int]);
        let d: i64 = (u - 48) as i64;
        acc = acc * 10 + d;
        if acc > i32::MAX as i64 {
            proof {
                lemma_digits_value_grows(cs@, j + 1);
            }
            return None;
        }
        j = j + 1;
    }
    assert(cs@.take(j as int) =~= cs@);
    Some(acc as i32)
}

proof fn lemma_digits_value_grows(s: Seq<char>, j: int)
    requires
        0 <= j <= s.len(),
    ensures
        all_digits(s) ==> digits_value(s) >= digits_value(s.take(j)),
    decreases s.len() - j,
{
    if j < s.len() && all_digits(s) {
        lemma_digits_value_grows(s, j + 1);
        assert(s.take(j + 1).drop_last() =~= s.take(j));
        assert(s.take(j + 1).last() == s[j]);
        assert(is_digit(s[j]));
        assert forall|q: int| 0 <= q < s.take(j).len() implies is_digit(#[trigger] s.take(j)[q]) by {
            assert(s.take(j)[q] == s[q]);
        }
        lemma_digits_value_nonneg(s.take(j));
        assert(digits_value(s.take(j + 1)) == digits_value(s.take(j)) * 10 + (s[j] as u32 - 48));
    } else if j == s.len() {
        assert(s.take(j) =~= s);
    }
}

proof fn lemma_digits_value_nonneg(s: Seq<char>)
    requires
        all_digits(s),
    ensures
        digits_value(s) >= 0,
    decreases s.len(),
{
    if s.len() > 0 {
        lemma_digits_value_nonneg(s.drop_last());
    }
}

/// One more than the largest number among `texts` that parse (0 when none do),
/// kept at `i32::MAX`.
pub fn next_number_from(texts: &Vec<String>) -> (r: i32)
    ensures
        r == next_number(texts@.map_values(|t: String| t@)),
{
    let ghost views = texts@.map_values(|t: String| t@);
    let mut best: i32 = 0;
    let mut j: usize = 0;
    while j < texts.len()
        invariant
            j <= texts@.len(),
            views == texts@.map_values(|t: String| t@),
            best == largest_number(views.take(j as int)),
        decreases texts@.len() - j,
    {
        assert(views.take(j + 1).drop_last() =~= views.take(j as int));
        assert(views.take(j + 1).last() == texts@[j as int]@);
        match parse_number(texts[j].as_str()) {
            Some(v) => {
                if v > best {
                    best = v;
                }
            },
            None => {},
        }
        j = j + 1;
    }
    assert(views.take(j as int) =~= views);
    if best == i32::MAX { best } else { best + 1 }
}

/// The number for a new entry line: one more than the largest `n` of the lines
/// `n. [ ]` and `n. [x]` in `content`.
pub fn get_next_item_number(content: &str) -> (r: i32)
    ensures
        regex_compiles("([0-9]+)\\.\\s\\[(\\s|x)\\]"@) ==> r == next_number(
            regex_first_groups("([0-9]+)\\.\\s\\[(\\s|x)\\]"@, content@),
        ),
        !regex_compiles("([0-9]+)\\.\\s\\[(\\s|x)\\]"@) ==> r == 1,
{
    match first_groups("([0-9]+)\\.\\s\\[(\\s|x)\\]", content) {
        Some(texts) => {
            let r = next_number_from(&texts);
            assert(texts@.map_values(|t: String| t@) =~= regex_first_groups(
                "([0-9]+)\\.\\s\\[(\\s|x)\\]"@,
                content@,
            ));
            r
        },
        None => 1,
    }
}

} // verus!
