use vstd::prelude::*;

verus! {

/// Appends one character to a string.
///
/// Trusted: `String::push` appends the character to the end of the string, and
/// leaves the characters already there as they were.
#[verifier::external_body]
pub fn push_char(s: &mut String, c: char)
    ensures
        final(s)@ == old(s)@.push(c),
{
    s.push(c);
}

// What std's `Debug` writes for a string: the string in double quotes, with
// quotes, backslashes and unprintable characters escaped.
pub uninterp spec fn debug_quoted(s: Seq<char>) -> Seq<char>;

/// The string as `{:?}` writes it.
///
/// Trusted: the result is what std's `Debug` for `str` writes for `s`; that it
/// depends on `s` alone is all that is claimed of it.
#[verifier::external_body]
pub(crate) fn debug_quote(s: &str) -> (r: String)
    ensures
        r@ == debug_quoted(s@),
{
    format!("{:?}", s)
}

/// The characters of a string slice, in order.
pub fn chars_of(s: &str) -> (r: Vec<char>)
    ensures
        r@ == s@,
{
    broadcast use vstd::string::group_string_axioms;
    let mut out: Vec<char> = Vec::new();
    for c in it: s.chars()
        invariant
            out@ == it.seq().take(it.index() as int),
    {
        out.push(c);
    }
    out
}

} // verus!

verus! {

/// Number of characters in a string.
pub fn char_count(s: &String) -> (r: usize)
    ensures
        r == s@.len(),
{
    s.as_str().unicode_len()
}

} // verus!

verus! {

/// A string of the characters `start..end`.
pub fn string_from_range(chars: &[char], start: usize, end: usize) -> (r: String)
    requires
        start <= end <= chars@.len(),
    ensures
        r@ == chars@.subrange(start as int, end as int),
{
    let mut out = String::new();
    let mut i: usize = start;
    while i < end
        invariant
            start <= i <= end <= chars@.len(),
            out@ == chars@.subrange(start as int, i as int),
        decreases end - i,
    {
        push_char(&mut out, chars[i]);
        assert(chars@.subrange(start as int, i + 1) == chars@.subrange(start as int, i as int).push(chars@[i as int]));
        i = i + 1;
    }
    out
}

/// A line without the carriage return of a `\r\n` ending.
pub open spec fn strip_cr(line: Seq<char>) -> Seq<char> {
    if line.len() > 0 && line.last() == '\r' {
        line.drop_last()
    } else {
        line
    }
}

/// Reading `s` from the left: the lines ended by a newline so far, and the
/// characters of the line not yet ended.
pub open spec fn scan_lines(s: Seq<char>) -> (Seq<Seq<char>>, Seq<char>)
    decreases s.len(),
{
    if s.len() == 0 {
        (Seq::empty(), Seq::empty())
    } else {
        let (done, cur) = scan_lines(s.drop_last());
        if s.last() == '\n' {
            (done.push(strip_cr(cur)), Seq::empty())
        } else {
            (done, cur.push(s.last()))
        }
    }
}

/// The lines of a text as `str::lines` gives them: split at `\n` or `\r\n`,
/// with no empty line after a final line ending.
pub open spec fn text_lines(s: Seq<char>) -> Seq<Seq<char>> {
    let (done, cur) = scan_lines(s);
    if cur.len() == 0 {
        done
    } else {
        done.push(cur)
    }
}

/// The character sequences of a list of strings.
pub open spec fn views(v: Seq<String>) -> Seq<Seq<char>> {
    v.map_values(|s: String| s@)
}

fn stripped(cur: &Vec<char>) -> (r: String)
    ensures
        r@ == strip_cr(cur@),
{
    let n = cur.len();
    if n > 0 && cur[n - 1] == '\r' {
        let r = string_from_range(cur.as_slice(), 0, n - 1);
        assert(cur@.subrange(0, n - 1) == cur@.drop_last());
        r
    } else {
        let r = string_from_range(cur.as_slice(), 0, n);
        assert(cur@.subrange(0, n as int) == cur@);
        r
    }
}

/// The lines of a text, as `str::lines` splits them.
pub fn lines_of(text: &str) -> (r: Vec<String>)
    ensures
        views(r@) == text_lines(text@),
{
    let chars = chars_of(text);
    let mut done: Vec<String> = Vec::new();
    let mut cur: Vec<char> = Vec::new();
    let mut i: usize = 0;
    while i < chars.len()
        invariant
            i <= chars@.len(),
            chars@ == text@,
            (views(done@), cur@) == scan_lines(chars@.take(i as int)),
        decreases chars@.len() - i,
    {
        let c = chars[i];
        assert(chars@.take(i + 1).drop_last() == chars@.take(i as int));
        if c == '\n' {
            let line = stripped(&cur);
            done.push(line);
            assert(views(done@) =~= views(done@.drop_last()).push(line@));
            cur = Vec::new();
        } else {
            cur.push(c);
        }
        i = i + 1;
    }
    assert(chars@.take(chars@.len() as int) == chars@);
    if cur.len() > 0 {
        let line = string_from_range(cur.as_slice(), 0, cur.len());
        assert(cur@.subrange(0, cur@.len() as int) == cur@);
        done.push(line);
        assert(views(done@) =~= views(done@.drop_last()).push(line@));
    }
    done
}

} // verus!
