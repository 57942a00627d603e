//! Small character-level helpers over `str` and `String`.
use vstd::prelude::*;

verus! {

/// Relies on `String::push`: appends one character.
#[verifier::external_body]
pub(crate) fn push_char(s: &mut String, c: char)
    ensures
        final(s)@ == old(s)@.push(c),
{
    s.push(c)
}

/// The characters of `s`, in order.
pub(crate) fn chars_of(s: &str) -> (r: Vec<char>)
    ensures
        r@ == s@,
{
    let mut r: Vec<char> = Vec::new();
    for c in it: s.chars()
        invariant
            r@ == it.seq().take(it.index() as int),
    {
        r.push(c);
    }
    r
}

/// The text made of `v[from..to]`.
pub(crate) fn text_of_range(v: &Vec<char>, from: usize, to: usize) -> (r: String)
    requires
        from <= to <= v.len(),
    ensures
        r@ == v@.subrange(from as int, to as int),
{
    let mut r = String::new();
    let mut i = from;
    while i < to
        invariant
            from <= i <= to <= v.len(),
            r@ == v@.subrange(from as int, i as int),
        decreases to - i,
    {
        push_char(&mut r, v[i]);
        i = i + 1;
        assert(r@ =~= v@.subrange(from as int, i as int));
    }
    r
}

/// Whether `a` and `b` hold the same characters.
pub fn same_text(a: &str, b: &str) -> (r: bool)
    ensures
        r == (a@ == b@),
{
    String::from_str(a) == String::from_str(b)
}

/// `s` without its leading and trailing whitespace, as `str::trim` gives it.
pub uninterp spec fn trimmed(s: Seq<char>) -> Seq<char>;

/// Relies on `str::trim`: the result depends on the characters alone.
#[verifier::external_body]
pub(crate) fn trim_text(s: &str) -> (r: String)
    ensures
        r@ == trimmed(s@),
{
    s.trim().to_string()
}

/// The lines of `s` as `str::lines` yields them, the current line having
/// started at `start` and the scan standing at `i`: lines end at each `\n`, a
/// `\r` before it is dropped, and no empty line follows a final `\n`.
pub open spec fn lines_from(s: Seq<char>, start: int, i: int) -> Seq<Seq<char>>
    decreases s.len() - i,
{
    if i < 0 || i >= s.len() {
        if 0 <= start < s.len() {
            seq![s.subrange(start, s.len() as int)]
        } else {
            Seq::empty()
        }
    } else if s[i] == '\n' {
        let line = if i > start && s[i - 1] == '\r' {
            s.subrange(start, i - 1)
        } else {
            s.subrange(start, i)
        };
        seq![line] + lines_from(s, i + 1, i + 1)
    } else {
        lines_from(s, start, i + 1)
    }
}

/// The lines of `s`.
pub open spec fn lines(s: Seq<char>) -> Seq<Seq<char>> {
    lines_from(s, 0, 0)
}

/// The lines of `s`, as `str::lines` yields them.
pub fn lines_of(s: &str) -> (r: Vec<String>)
    ensures
        r@.map_values(|l: String| l@) == lines(s@),
{
    let v = chars_of(s);
    let n = v.len();
    let mut r: Vec<String> = Vec::new();
    let mut start: usize = 0;
    let mut i: usize = 0;
    while i < n
        invariant
            v@ == s@,
            n == v.len(),
            start <= i <= n,
            r@.map_values(|l: String| l@) + lines_from(s@, start as int, i as int) == lines(s@),
        decreases n - i,
    {
        if v[i] == '\n' {
            let line = if i > start && v[i - 1] == '\r' {
                text_of_range(&v, start, i - 1)
            } else {
                text_of_range(&v, start, i)
            };
            let ghost before = r@.map_values(|l: String| l@);
            r.push(line);
            assert(r@.map_values(|l: String| l@) =~= before.push(line@));
            assert(before.push(line@) + lines_from(s@, i + 1, i + 1) =~= before + (seq![line@]
                + lines_from(s@, i + 1, i + 1)));
            start = i + 1;
        }
        i = i + 1;
    }
    if start < n {
        let line = text_of_range(&v, start, n);
        let ghost before = r@.map_values(|l: String| l@);
        r.push(line);
        assert(r@.map_values(|l: String| l@) =~= before + seq![line@]);
    } else {
        assert(r@.map_values(|l: String| l@) + lines_from(s@, start as int, i as int) =~= r@.map_values(|l: String| l@));
    }
    r
}

} // verus!
