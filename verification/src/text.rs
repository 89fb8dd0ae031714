//! Cursor-to-token resolution over a document snapshot.
//!
//! A document is a sequence of characters; a position is a zero-based line
//! and column. The resolver extracts the token under the cursor in one of
//! two modes: identifier tokens stop at any character that cannot appear in
//! a mnemonic or register name, file tokens stop only at whitespace (so a
//! directive name such as `.file`, or a filename argument, stays whole).
//! A malformed position yields the empty token, never an error.

use vstd::prelude::*;

verus! {

/// Token extraction mode for the cursor resolver.
#[derive(Clone, Copy, PartialEq, Eq, Structural, Debug)]
pub enum WordMode {
    /// Stop at whitespace and at punctuation that cannot appear in a
    /// mnemonic or register name.
    Identifier,
    /// Stop only at whitespace; dots and other punctuation stay inside the
    /// token.
    FileToken,
}

/// Horizontal whitespace inside a line.
pub open spec fn is_blank_char(c: char) -> bool {
    c == ' ' || c == '\t'
}

/// Characters allowed inside an identifier token: ASCII letters, digits,
/// and underscore.
pub open spec fn is_identifier_char(c: char) -> bool {
    ('a' <= c && c <= 'z') || ('A' <= c && c <= 'Z') || ('0' <= c && c <= '9') || c == '_'
}

/// Characters allowed inside a file token: anything that is not whitespace.
pub open spec fn is_file_token_char(c: char) -> bool {
    !is_blank_char(c) && c != '\n' && c != '\r'
}

pub open spec fn is_word_char(mode: WordMode, c: char) -> bool {
    match mode {
        WordMode::Identifier => is_identifier_char(c),
        WordMode::FileToken => is_file_token_char(c),
    }
}

pub fn blank_char(c: char) -> (r: bool)
    ensures
        r == is_blank_char(c),
{
    c == ' ' || c == '\t'
}

pub fn word_char(mode: WordMode, c: char) -> (r: bool)
    ensures
        r == is_word_char(mode, c),
{
    match mode {
        WordMode::Identifier => ('a' <= c && c <= 'z') || ('A' <= c && c <= 'Z') || ('0' <= c
            && c <= '9') || c == '_',
        WordMode::FileToken => !(c == ' ' || c == '\t') && c != '\n' && c != '\r',
    }
}

/// Index of the first character of line number `line`, scanning from `i`
/// with `line` lines still to skip; `-1` when the document has no such line.
pub open spec fn spec_line_start(s: Seq<char>, line: int, i: int) -> int
    decreases s.len() - i,
{
    if line <= 0 {
        i
    } else if i < 0 || i >= s.len() {
        -1
    } else if s[i] == '\n' {
        spec_line_start(s, line - 1, i + 1)
    } else {
        spec_line_start(s, line, i + 1)
    }
}

/// Index one past the last character of the line starting at `i`: the next
/// newline, or the end of the document.
pub open spec fn spec_line_end(s: Seq<char>, i: int) -> int
    decreases s.len() - i,
{
    if i < 0 || i >= s.len() {
        s.len() as int
    } else if s[i] == '\n' {
        i
    } else {
        spec_line_end(s, i + 1)
    }
}

/// Leftmost index `l` with `ls <= l <= i` such that every character in
/// `[l, i)` is a word character.
pub open spec fn spec_word_start(s: Seq<char>, mode: WordMode, ls: int, i: int) -> int
    decreases i,
{
    if i <= ls {
        ls
    } else if 0 < i <= s.len() && is_word_char(mode, s[i - 1]) {
        spec_word_start(s, mode, ls, i - 1)
    } else {
        i
    }
}

/// Rightmost index `r` with `i <= r <= le` such that every character in
/// `[i, r)` is a word character.
pub open spec fn spec_word_end(s: Seq<char>, mode: WordMode, le: int, i: int) -> int
    decreases le - i,
{
    if i >= le {
        i
    } else if 0 <= i < s.len() && is_word_char(mode, s[i]) {
        spec_word_end(s, mode, le, i + 1)
    } else {
        i
    }
}

/// The token under the cursor: the bounds `[l, r)` in the document, or
/// `None` when the position lies outside the document or no word character
/// touches it.
pub open spec fn spec_locate_word(s: Seq<char>, mode: WordMode, line: int, col: int) -> Option<
    (int, int),
> {
    let ls = spec_line_start(s, line, 0);
    if ls < 0 {
        None
    } else {
        let le = spec_line_end(s, ls);
        if col < 0 || col > le - ls {
            None
        } else {
            let l = spec_word_start(s, mode, ls, ls + col);
            let r = spec_word_end(s, mode, le, ls + col);
            if l == r {
                None
            } else {
                Some((l, r))
            }
        }
    }
}

/// The resolved token itself; empty when the position is malformed or rests
/// on no word character.
pub open spec fn spec_resolve_word(s: Seq<char>, mode: WordMode, line: int, col: int) -> Seq<
    char,
> {
    match spec_locate_word(s, mode, line, col) {
        Some((l, r)) => s.subrange(l, r),
        None => Seq::empty(),
    }
}

/// Start index of line `line` of the document, or `None` when the document
/// has fewer lines.
pub fn find_line_start(text: &Vec<char>, line: usize) -> (r: Option<usize>)
    ensures
        match r {
            Some(ls) => spec_line_start(text@, line as int, 0) == ls as int && ls <= text@.len(),
            None => spec_line_start(text@, line as int, 0) == -1,
        },
{
    let mut i: usize = 0;
    let mut remaining: usize = line;
    while remaining > 0 && i < text.len()
        invariant
            i <= text@.len(),
            spec_line_start(text@, line as int, 0) == spec_line_start(
                text@,
                remaining as int,
                i as int,
            ),
        decreases text@.len() - i,
    {
        if text[i] == '\n' {
            remaining = remaining - 1;
        }
        i = i + 1;
    }
    if remaining == 0 {
        Some(i)
    } else {
        None
    }
}

/// End of the line that starts at `ls`.
pub fn find_line_end(text: &Vec<char>, ls: usize) -> (r: usize)
    requires
        ls <= text@.len(),
    ensures
        r as int == spec_line_end(text@, ls as int),
        ls <= r <= text@.len(),
        forall|k: int| ls <= k < r ==> text@[k] != '\n',
{
    let mut i: usize = ls;
    while i < text.len()
        invariant
            ls <= i <= text@.len(),
            spec_line_end(text@, ls as int) == spec_line_end(text@, i as int),
            forall|k: int| ls <= k < i ==> text@[k] != '\n',
        decreases text@.len() - i,
    {
        if text[i] == '\n' {
            return i;
        }
        i = i + 1;
    }
    i
}

/// Leftmost word-token start at or before position `ci` on the line
/// starting at `ls`.
pub fn word_start_from(text: &Vec<char>, mode: WordMode, ls: usize, ci: usize) -> (r: usize)
    requires
        ls <= ci <= text@.len(),
    ensures
        r as int == spec_word_start(text@, mode, ls as int, ci as int),
        ls <= r <= ci,
{
    let mut l: usize = ci;
    while l > ls && word_char(mode, text[l - 1])
        invariant
            ls <= l <= ci <= text@.len(),
            spec_word_start(text@, mode, ls as int, ci as int) == spec_word_start(
                text@,
                mode,
                ls as int,
                l as int,
            ),
        decreases l,
    {
        l = l - 1;
    }
    l
}

/// Bounds `[l, r)` of the token under position `(line, col)`, or `None`
/// when the position is malformed or touches no word character.
pub fn locate_word(text: &Vec<char>, mode: WordMode, line: usize, col: usize) -> (res: Option<
    (usize, usize),
>)
    ensures
        match res {
            Some(b) => {
                &&& spec_locate_word(text@, mode, line as int, col as int) == Some(
                    (b.0 as int, b.1 as int),
                )
                &&& b.0 < b.1 <= text@.len()
            },
            None => spec_locate_word(text@, mode, line as int, col as int) is None,
        },
{
    let ls = match find_line_start(text, line) {
        Some(ls) => ls,
        None => {
            return None;
        },
    };
    let le = find_line_end(text, ls);
    if col > le - ls {
        return None;
    }
    let ci = ls + col;
    // expand left
    let mut l: usize = ci;
    while l > ls && word_char(mode, text[l - 1])
        invariant
            ls <= l <= ci <= text@.len(),
            spec_word_start(text@, mode, ls as int, ci as int) == spec_word_start(
                text@,
                mode,
                ls as int,
                l as int,
            ),
        decreases l,
    {
        l = l - 1;
    }
    // expand right
    let mut r: usize = ci;
    while r < le && word_char(mode, text[r])
        invariant
            ci <= r <= le <= text@.len(),
            spec_word_end(text@, mode, le as int, ci as int) == spec_word_end(
                text@,
                mode,
                le as int,
                r as int,
            ),
        decreases le - r,
    {
        r = r + 1;
    }
    if l == r {
        None
    } else {
        Some((l, r))
    }
}

/// Extract the token under position `(line, col)` of `text`. A malformed
/// position (line or column outside the document) yields the empty token.
pub fn resolve_word(text: &Vec<char>, mode: WordMode, line: usize, col: usize) -> (res: Vec<char>)
    ensures
        res@ == spec_resolve_word(text@, mode, line as int, col as int),
{
    let mut out: Vec<char> = Vec::new();
    let (l, r) = match locate_word(text, mode, line, col) {
        Some(b) => b,
        None => {
            return out;
        },
    };
    let mut i: usize = l;
    while i < r
        invariant
            l <= i <= r <= text@.len(),
            out@ == text@.subrange(l as int, i as int),
        decreases r - i,
    {
        out.push(text[i]);
        assert(out@ == text@.subrange(l as int, i + 1 as int));
        i = i + 1;
    }
    out
}

} // verus!
