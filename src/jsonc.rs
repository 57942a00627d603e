//! Removal of `//` and `/* */` comments from JSON-with-comments text.
use vstd::prelude::*;
use crate::text::chars_of;
use crate::text::push_char;

verus! {

/// Where the scanner stands between two characters.
#[derive(Clone, Copy, Debug, PartialEq, Eq, Structural)]
pub enum ScanMode {
    /// Outside comments; `in_string` inside a double-quoted literal, `escaped`
    /// right after an unescaped backslash within one.
    Code { in_string: bool, escaped: bool },
    /// Inside a `//` comment, up to its newline.
    LineComment,
    /// Inside a `/* */` comment; `after_star` when the last character read was `*`.
    BlockComment { after_star: bool },
}

pub open spec fn code_start() -> ScanMode {
    ScanMode::Code { in_string: false, escaped: false }
}

/// The output produced from position `i` of `s` on, the scanner being in `mode`.
pub open spec fn strip_from(s: Seq<char>, i: int, mode: ScanMode) -> Seq<char>
    decreases s.len() - i,
{
    if i < 0 || i >= s.len() {
        Seq::empty()
    } else {
        let c = s[i];
        match mode {
            ScanMode::Code { in_string, escaped } => {
                if c == '"' && !escaped {
                    seq![c] + strip_from(s, i + 1, ScanMode::Code { in_string: !in_string, escaped: false })
                } else if c == '\\' && in_string {
                    seq![c] + strip_from(s, i + 1, ScanMode::Code { in_string, escaped: !escaped })
                } else if !in_string && c == '/' && i + 1 < s.len() && s[i + 1] == '/' {
                    strip_from(s, i + 2, ScanMode::LineComment)
                } else if !in_string && c == '/' && i + 1 < s.len() && s[i + 1] == '*' {
                    strip_from(s, i + 2, ScanMode::BlockComment { after_star: false })
                } else {
                    seq![c] + strip_from(s, i + 1, ScanMode::Code { in_string, escaped: false })
                }
            },
            ScanMode::LineComment => {
                if c == '\n' {
                    seq![c] + strip_from(s, i + 1, code_start())
                } else {
                    strip_from(s, i + 1, ScanMode::LineComment)
                }
            },
            ScanMode::BlockComment { after_star } => {
                if after_star && c == '/' {
                    strip_from(s, i + 1, code_start())
                } else {
                    strip_from(s, i + 1, ScanMode::BlockComment { after_star: c == '*' })
                }
            },
        }
    }
}

/// The text `s` with its comments removed.
pub open spec fn stripped(s: Seq<char>) -> Seq<char> {
    strip_from(s, 0, code_start())
}


/// The string state (inside a literal, right after a backslash in it) reached
/// after reading `s[0..i]` when no comment intervenes.
pub open spec fn literal_state(s: Seq<char>, i: int) -> (bool, bool)
    decreases i,
{
    if i <= 0 || i > s.len() {
        (false, false)
    } else {
        let (in_string, escaped) = literal_state(s, i - 1);
        let c = s[i - 1];
        if c == '"' && !escaped {
            (!in_string, false)
        } else if c == '\\' && in_string {
            (in_string, !escaped)
        } else {
            (in_string, false)
        }
    }
}

/// No `//` and no `/*` stands outside a string literal of `s`.
pub open spec fn has_no_comment_markers(s: Seq<char>) -> bool {
    forall|i: int|
        0 <= i < s.len() - 1 && !literal_state(s, i).0 && s[i] == '/' ==> s[i + 1] != '/' && s[
            i + 1
        ] != '*'
}

/// Whether `s[i]`, read inside a string literal whose body is `s`, follows an
/// unescaped backslash.
pub open spec fn escaped_in_literal(s: Seq<char>, i: int) -> bool
    decreases i,
{
    if i <= 0 || i > s.len() {
        false
    } else if s[i - 1] == '\\' {
        !escaped_in_literal(s, i - 1)
    } else {
        false
    }
}

/// Every `"` of the literal body `s` is escaped.
pub open spec fn has_no_unescaped_quote(s: Seq<char>) -> bool {
    forall|i: int| 0 <= i < s.len() && s[i] == '"' ==> escaped_in_literal(s, i)
}

proof fn lemma_plain_suffix(s: Seq<char>, j: int)
    requires
        0 <= j <= s.len(),
        has_no_comment_markers(s),
    ensures
        strip_from(
            s,
            j,
            ScanMode::Code { in_string: literal_state(s, j).0, escaped: literal_state(s, j).1 },
        ) == s.subrange(j, s.len() as int),
    decreases s.len() - j,
{
    if j < s.len() {
        lemma_plain_suffix(s, j + 1);
        assert(s.subrange(j, s.len() as int) =~= seq![s[j]] + s.subrange(j + 1, s.len() as int));
    } else {
        assert(s.subrange(j, s.len() as int) =~= Seq::<char>::empty());
    }
}

/// Text without comment markers outside its strings comes out of stripping
/// unchanged, so stripping it again changes nothing either.
pub proof fn lemma_strip_without_markers(t: Seq<char>)
    requires
        has_no_comment_markers(t),
    ensures
        stripped(t) == t,
        stripped(stripped(t)) == stripped(t),
{
    lemma_plain_suffix(t, 0);
    assert(t.subrange(0, t.len() as int) =~= t);
}

proof fn lemma_literal_suffix(body: Seq<char>, j: int)
    requires
        1 <= j <= body.len() + 1,
        has_no_unescaped_quote(body),
    ensures
        ({
            let t = seq!['"'] + body + seq!['"'];
            strip_from(t, j, ScanMode::Code { in_string: true, escaped: escaped_in_literal(body, j - 1) })
                == t.subrange(j, t.len() as int)
        }),
    decreases body.len() + 1 - j,
{
    let t = seq!['"'] + body + seq!['"'];
    if j <= body.len() {
        lemma_literal_suffix(body, j + 1);
        assert(t[j] == body[j - 1]);
    } else {
        assert(t[j] == '"');
        let e = escaped_in_literal(body, j - 1);
        assert(strip_from(t, j + 1, ScanMode::Code { in_string: false, escaped: false }) == Seq::<char>::empty());
        assert(strip_from(t, j + 1, ScanMode::Code { in_string: true, escaped: false }) == Seq::<char>::empty());
        assert(strip_from(t, j, ScanMode::Code { in_string: true, escaped: e }) == seq!['"']);
    }
    assert(t.subrange(j, t.len() as int) =~= seq![t[j]] + t.subrange(j + 1, t.len() as int));
    assert(t.subrange(j + 1, t.len() as int) =~= t.subrange(j + 1, t.len() as int));
    if j == body.len() + 1 {
        assert(t.subrange(j + 1, t.len() as int) =~= Seq::<char>::empty());
    }
}

/// A string literal is kept whole, whatever comment-like text its body holds,
/// as long as the body has no unescaped quote.
pub proof fn lemma_string_literal_kept(body: Seq<char>)
    requires
        has_no_unescaped_quote(body),
    ensures
        stripped(seq!['"'] + body + seq!['"']) == seq!['"'] + body + seq!['"'],
{
    let t = seq!['"'] + body + seq!['"'];
    lemma_literal_suffix(body, 1);
    assert(t.subrange(0, t.len() as int) =~= seq![t[0]] + t.subrange(1, t.len() as int));
    assert(t.subrange(0, t.len() as int) =~= t);
}

/// Scanning the tail `x` of `p + x` does not depend on `p`.
pub proof fn lemma_strip_shift(p: Seq<char>, x: Seq<char>, k: int, m: ScanMode)
    requires
        0 <= k <= x.len(),
    ensures
        strip_from(p + x, p.len() + k, m) == strip_from(x, k, m),
    decreases x.len() - k,
{
    let t = p + x;
    let i = p.len() + k;
    if k < x.len() {
        assert(t[i] == x[k]);
        if k + 1 < x.len() {
            assert(t[i + 1] == x[k + 1]);
        }
        let c = x[k];
        match m {
            ScanMode::Code { in_string, escaped } => {
                if c == '"' && !escaped {
                    lemma_strip_shift(p, x, k + 1, ScanMode::Code { in_string: !in_string, escaped: false });
                } else if c == '\\' && in_string {
                    lemma_strip_shift(p, x, k + 1, ScanMode::Code { in_string, escaped: !escaped });
                } else if !in_string && c == '/' && k + 1 < x.len() && x[k + 1] == '/' {
                    lemma_strip_shift(p, x, k + 2, ScanMode::LineComment);
                } else if !in_string && c == '/' && k + 1 < x.len() && x[k + 1] == '*' {
                    lemma_strip_shift(p, x, k + 2, ScanMode::BlockComment { after_star: false });
                } else {
                    lemma_strip_shift(p, x, k + 1, ScanMode::Code { in_string, escaped: false });
                }
            },
            ScanMode::LineComment => {
                if c == '\n' {
                    lemma_strip_shift(p, x, k + 1, code_start());
                } else {
                    lemma_strip_shift(p, x, k + 1, ScanMode::LineComment);
                }
            },
            ScanMode::BlockComment { after_star } => {
                if after_star && c == '/' {
                    lemma_strip_shift(p, x, k + 1, code_start());
                } else {
                    lemma_strip_shift(p, x, k + 1, ScanMode::BlockComment { after_star: c == '*' });
                }
            },
        }
    }
}

proof fn lemma_skip_line(t: Seq<char>, from: int, to: int)
    requires
        0 <= from <= to <= t.len(),
        forall|k: int| from <= k < to ==> t[k] != '\n',
    ensures
        strip_from(t, from, ScanMode::LineComment) == strip_from(t, to, ScanMode::LineComment),
    decreases to - from,
{
    if from < to {
        lemma_skip_line(t, from + 1, to);
    }
}

/// A `//` comment is replaced by the newline that ends it: the count of lines
/// stays the same.
pub proof fn lemma_line_comment_keeps_newline(c: Seq<char>, x: Seq<char>)
    requires
        forall|k: int| 0 <= k < c.len() ==> c[k] != '\n',
    ensures
        stripped(seq!['/', '/'] + c + seq!['\n'] + x) == seq!['\n'] + stripped(x),
{
    let p = seq!['/', '/'] + c + seq!['\n'];
    let t = p + x;
    assert(t == seq!['/', '/'] + c + seq!['\n'] + x);
    assert(t[0] == '/' && t[1] == '/');
    assert(strip_from(t, 0, code_start()) == strip_from(t, 2, ScanMode::LineComment));
    lemma_skip_line(t, 2, c.len() + 2int);
    assert(t[c.len() + 2int] == '\n');
    assert(strip_from(t, c.len() + 2int, ScanMode::LineComment) == seq!['\n'] + strip_from(
        t,
        c.len() + 3int,
        code_start(),
    ));
    lemma_strip_shift(p, x, 0, code_start());
    assert(p.len() == c.len() + 3);
}

/// `*/` starts at position `i` of `c`.
pub open spec fn closes_block_at(c: Seq<char>, i: int) -> bool {
    c[i] == '*' && c[i + 1] == '/'
}

/// No `*/` occurs in `c`.
pub open spec fn has_no_block_close(c: Seq<char>) -> bool {
    forall|i: int| 0 <= i < c.len() - 1 ==> !#[trigger] closes_block_at(c, i)
}

proof fn lemma_skip_block(c: Seq<char>, k: int)
    requires
        0 <= k <= c.len(),
        has_no_block_close(c),
    ensures
        strip_from(
            seq!['/', '*'] + c,
            k + 2,
            ScanMode::BlockComment { after_star: k > 0 && c[k - 1] == '*' },
        ) == Seq::<char>::empty(),
    decreases c.len() - k,
{
    let t = seq!['/', '*'] + c;
    if k < c.len() {
        assert(t[k + 2] == c[k]);
        if k > 0 {
            assert(!closes_block_at(c, k - 1));
        }
        lemma_skip_block(c, k + 1);
    }
}

/// A `/*` comment that is never closed takes the rest of the text with it.
pub proof fn lemma_unclosed_block_comment(c: Seq<char>)
    requires
        has_no_block_close(c),
    ensures
        stripped(seq!['/', '*'] + c) == Seq::<char>::empty(),
{
    let t = seq!['/', '*'] + c;
    assert(t[0] == '/' && t[1] == '*');
    lemma_skip_block(c, 0);
}

proof fn lemma_strip_from_shorter(s: Seq<char>, i: int, mode: ScanMode)
    requires
        0 <= i <= s.len(),
    ensures
        strip_from(s, i, mode).len() <= s.len() - i,
    decreases s.len() - i,
{
    if i < s.len() {
        let c = s[i];
        match mode {
            ScanMode::Code { in_string, escaped } => {
                if c == '"' && !escaped {
                    lemma_strip_from_shorter(s, i + 1, ScanMode::Code { in_string: !in_string, escaped: false });
                } else if c == '\\' && in_string {
                    lemma_strip_from_shorter(s, i + 1, ScanMode::Code { in_string, escaped: !escaped });
                } else if !in_string && c == '/' && i + 1 < s.len() && s[i + 1] == '/' {
                    lemma_strip_from_shorter(s, i + 2, ScanMode::LineComment);
                } else if !in_string && c == '/' && i + 1 < s.len() && s[i + 1] == '*' {
                    lemma_strip_from_shorter(s, i + 2, ScanMode::BlockComment { after_star: false });
                } else {
                    lemma_strip_from_shorter(s, i + 1, ScanMode::Code { in_string, escaped: false });
                }
            },
            ScanMode::LineComment => {
                if c == '\n' {
                    lemma_strip_from_shorter(s, i + 1, code_start());
                } else {
                    lemma_strip_from_shorter(s, i + 1, ScanMode::LineComment);
                }
            },
            ScanMode::BlockComment { after_star } => {
                if after_star && c == '/' {
                    lemma_strip_from_shorter(s, i + 1, code_start());
                } else {
                    lemma_strip_from_shorter(s, i + 1, ScanMode::BlockComment { after_star: c == '*' });
                }
            },
        }
    }
}

/// Removes `//` line comments (keeping their newline) and `/* */` block comments
/// from `content`, leaving string literals untouched.
pub fn strip_jsonc_comments(content: &str) -> (r: String)
    ensures
        r@ == stripped(content@),
        r@.len() <= content@.len(),
{
    let chars = chars_of(content);
    let ghost s = content@;
    assert(chars@ == s);
    let n = chars.len();
    let mut out = String::new();
    let mut i: usize = 0;
    let mut mode = ScanMode::Code { in_string: false, escaped: false };
    while i < n
        invariant
            chars@ == s,
            n == s.len(),
            i <= n,
            out@ + strip_from(s, i as int, mode) == stripped(s),
        decreases n - i,
    {
        let c = chars[i];
        let ghost before = out@;
        match mode {
            ScanMode::Code { in_string, escaped } => {
                if c == '"' && !escaped {
                    push_char(&mut out, c);
                    mode = ScanMode::Code { in_string: !in_string, escaped: false };
                    i = i + 1;
                } else if c == '\\' && in_string {
                    push_char(&mut out, c);
                    mode = ScanMode::Code { in_string, escaped: !escaped };
                    i = i + 1;
                } else if !in_string && c == '/' && i + 1 < n && chars[i + 1] == '/' {
                    mode = ScanMode::LineComment;
                    i = i + 2;
                } else if !in_string && c == '/' && i + 1 < n && chars[i + 1] == '*' {
                    mode = ScanMode::BlockComment { after_star: false };
                    i = i + 2;
                } else {
                    push_char(&mut out, c);
                    mode = ScanMode::Code { in_string, escaped: false };
                    i = i + 1;
                }
            },
            ScanMode::LineComment => {
                if c == '\n' {
                    push_char(&mut out, c);
                    mode = ScanMode::Code { in_string: false, escaped: false };
                }
                i = i + 1;
            },
            ScanMode::BlockComment { after_star } => {
                if after_star && c == '/' {
                    mode = ScanMode::Code { in_string: false, escaped: false };
                } else {
                    mode = ScanMode::BlockComment { after_star: c == '*' };
                }
                i = i + 1;
            },
        }
        assert(before.push(c) =~= before + seq![c]);
        assert(before + seq![c] + strip_from(s, i as int, mode) =~= before + (seq![c] + strip_from(s, i as int, mode)));
    }
    assert(out@ + strip_from(s, i as int, mode) =~= out@);
    proof {
        lemma_strip_from_shorter(s, 0, code_start());
    }
    out
}

} // verus!
