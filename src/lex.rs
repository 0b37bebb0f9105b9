//! Lexical layer: character classes, whitespace and comments, and the
//! spans of identifiers, keywords, strings and instruction tokens.
//!
//! Every scanner works on the characters of the source and a position, and
//! returns the position where its token ends.
use vstd::prelude::*;

verus! {

pub open spec fn is_space(c: char) -> bool {
    c == ' ' || c == '\t' || c == '\n' || c == '\r'
}

pub open spec fn is_alpha(c: char) -> bool {
    ('a' <= c && c <= 'z') || ('A' <= c && c <= 'Z')
}

pub open spec fn is_alnum(c: char) -> bool {
    is_alpha(c) || ('0' <= c && c <= '9')
}

/// The characters of identifiers and keywords: ASCII letters and digits and
/// the symbols ``! # $ % & ' * + - . / : < = > ? @ \ ^ _ ` | ~``.
pub open spec fn is_idchar(c: char) -> bool {
    is_alnum(c) || c == '!' || c == '#' || c == '$' || c == '%' || c == '&' || c == '\''
        || c == '*' || c == '+' || c == '-' || c == '.' || c == '/' || c == ':' || c == '<'
        || c == '=' || c == '>' || c == '?' || c == '@' || c == '\\' || c == '^' || c == '_'
        || c == '`' || c == '|' || c == '~'
}

pub fn space(c: char) -> (r: bool)
    ensures
        r == is_space(c),
{
    c == ' ' || c == '\t' || c == '\n' || c == '\r'
}

pub fn alpha(c: char) -> (r: bool)
    ensures
        r == is_alpha(c),
{
    ('a' <= c && c <= 'z') || ('A' <= c && c <= 'Z')
}

pub fn alnum(c: char) -> (r: bool)
    ensures
        r == is_alnum(c),
{
    alpha(c) || ('0' <= c && c <= '9')
}

pub fn idchar(c: char) -> (r: bool)
    ensures
        r == is_idchar(c),
{
    alnum(c) || c == '!' || c == '#' || c == '$' || c == '%' || c == '&' || c == '\'' || c == '*'
        || c == '+' || c == '-' || c == '.' || c == '/' || c == ':' || c == '<' || c == '='
        || c == '>' || c == '?' || c == '@' || c == '\\' || c == '^' || c == '_' || c == '`'
        || c == '|' || c == '~'
}

/// The position after a line comment's text that starts at `i`: just past the
/// next newline, or the end of the input.
pub open spec fn line_end(s: Seq<char>, i: int) -> int
    decreases s.len() - i,
{
    if i >= s.len() {
        s.len() as int
    } else if s[i] == '\n' {
        i + 1
    } else {
        line_end(s, i + 1)
    }
}

/// The position just past the first `;)` at or after `i`, if there is one.
pub open spec fn block_close(s: Seq<char>, i: int) -> Option<int>
    decreases s.len() - i,
{
    if i + 1 >= s.len() {
        None
    } else if s[i] == ';' && s[i + 1] == ')' {
        Some(i + 2)
    } else {
        block_close(s, i + 1)
    }
}

/// The end of a comment that starts at `i`: `;;` up to the end of the line,
/// or `(;` up to the first `;)`.
pub open spec fn comment_end(s: Seq<char>, i: int) -> Option<int> {
    if 0 <= i && i + 1 < s.len() && s[i] == ';' && s[i + 1] == ';' {
        Some(line_end(s, i + 2))
    } else if 0 <= i && i + 1 < s.len() && s[i] == '(' && s[i + 1] == ';' {
        block_close(s, i + 2)
    } else {
        None
    }
}

/// The position after all whitespace and comments that start at `i`.
pub open spec fn skip(s: Seq<char>, i: int) -> int
    decreases s.len() - i,
{
    if i < 0 || i >= s.len() {
        i
    } else if is_space(s[i]) {
        skip(s, i + 1)
    } else {
        match comment_end(s, i) {
            Some(j) => if i < j <= s.len() {
                skip(s, j)
            } else {
                i
            },
            None => i,
        }
    }
}

/// The end of the run of identifier characters that starts at `i`.
pub open spec fn idchars_end(s: Seq<char>, i: int) -> int
    decreases s.len() - i,
{
    if 0 <= i < s.len() && is_idchar(s[i]) {
        idchars_end(s, i + 1)
    } else {
        i
    }
}

/// The end of the run of ASCII letters and digits that starts at `i`.
pub open spec fn alnums_end(s: Seq<char>, i: int) -> int
    decreases s.len() - i,
{
    if 0 <= i < s.len() && is_alnum(s[i]) {
        alnums_end(s, i + 1)
    } else {
        i
    }
}

/// The end of a keyword (a letter, then identifier characters) at `i`; `i`
/// itself where none starts there.
pub open spec fn keyword_end(s: Seq<char>, i: int) -> int {
    if 0 <= i < s.len() && is_alpha(s[i]) {
        idchars_end(s, i + 1)
    } else {
        i
    }
}

/// An identifier at `i`: `$` and at least one identifier character. Gives
/// its end and its name without the `$`.
pub open spec fn ident_at(s: Seq<char>, i: int) -> Option<(int, Seq<char>)> {
    if 0 <= i < s.len() && s[i] == '$' && idchars_end(s, i + 1) > i + 1 {
        Some((idchars_end(s, i + 1), s.subrange(i + 1, idchars_end(s, i + 1))))
    } else {
        None
    }
}

/// The position of the first `"` at or after `i`, if any.
pub open spec fn quote_at(s: Seq<char>, i: int) -> Option<int>
    decreases s.len() - i,
{
    if i < 0 || i >= s.len() {
        None
    } else if s[i] == '"' {
        Some(i)
    } else {
        quote_at(s, i + 1)
    }
}

/// A string literal at `i`: its end and the characters between the quotes.
pub open spec fn string_at(s: Seq<char>, i: int) -> Option<(int, Seq<char>)> {
    if 0 <= i < s.len() && s[i] == '"' {
        match quote_at(s, i + 1) {
            Some(k) => Some((k + 1, s.subrange(i + 1, k))),
            None => None,
        }
    } else {
        None
    }
}

/// The end of an instruction token at `i`: letters and digits, a dot,
/// letters and digits.
pub open spec fn instr_token_end(s: Seq<char>, i: int) -> Option<int> {
    let a = alnums_end(s, i);
    if 0 <= i && a > i && a < s.len() && s[a] == '.' && alnums_end(s, a + 1) > a + 1 {
        Some(alnums_end(s, a + 1))
    } else {
        None
    }
}

// ---------------------------------------------------------------------------
// Executable scanners.

pub fn scan_line_end(src: &Vec<char>, i: usize) -> (r: usize)
    requires
        i <= src@.len(),
    ensures
        r == line_end(src@, i as int),
        i <= r <= src@.len(),
{
    let mut k = i;
    while k < src.len()
        invariant
            i <= k <= src@.len(),
            line_end(src@, i as int) == line_end(src@, k as int),
        decreases src@.len() - k,
    {
        if src[k] == '\n' {
            return k + 1;
        }
        k += 1;
    }
    k
}

pub fn scan_block_close(src: &Vec<char>, i: usize) -> (r: Option<usize>)
    requires
        i <= src@.len(),
    ensures
        r matches Some(j) ==> block_close(src@, i as int) == Some(j as int) && i < j <= src@.len(),
        r is None ==> block_close(src@, i as int) is None,
{
    let mut k = i;
    while k < src.len() && k + 1 < src.len()
        invariant
            i <= k <= src@.len(),
            block_close(src@, i as int) == block_close(src@, k as int),
        decreases src@.len() - k,
    {
        if src[k] == ';' && src[k + 1] == ')' {
            return Some(k + 2);
        }
        k += 1;
    }
    None
}

pub fn scan_comment(src: &Vec<char>, i: usize) -> (r: Option<usize>)
    requires
        i <= src@.len(),
    ensures
        r matches Some(j) ==> comment_end(src@, i as int) == Some(j as int) && i < j <= src@.len(),
        r is None ==> comment_end(src@, i as int) is None,
{
    if i < src.len() && i + 1 < src.len() && src[i] == ';' && src[i + 1] == ';' {
        Some(scan_line_end(src, i + 2))
    } else if i < src.len() && i + 1 < src.len() && src[i] == '(' && src[i + 1] == ';' {
        scan_block_close(src, i + 2)
    } else {
        None
    }
}

/// Skips whitespace and comments.
pub fn skip_space(src: &Vec<char>, i: usize) -> (r: usize)
    requires
        i <= src@.len(),
    ensures
        r == skip(src@, i as int),
        i <= r <= src@.len(),
{
    let mut k = i;
    while k < src.len()
        invariant
            i <= k <= src@.len(),
            skip(src@, i as int) == skip(src@, k as int),
        decreases src@.len() - k,
    {
        if space(src[k]) {
            k += 1;
        } else {
            match scan_comment(src, k) {
                Some(j) => {
                    k = j;
                },
                None => {
                    return k;
                },
            }
        }
    }
    k
}

pub fn scan_idchars(src: &Vec<char>, i: usize) -> (r: usize)
    requires
        i <= src@.len(),
    ensures
        r == idchars_end(src@, i as int),
        i <= r <= src@.len(),
{
    let mut k = i;
    while k < src.len() && idchar(src[k])
        invariant
            i <= k <= src@.len(),
            idchars_end(src@, i as int) == idchars_end(src@, k as int),
        decreases src@.len() - k,
    {
        k += 1;
    }
    k
}

pub fn scan_alnums(src: &Vec<char>, i: usize) -> (r: usize)
    requires
        i <= src@.len(),
    ensures
        r == alnums_end(src@, i as int),
        i <= r <= src@.len(),
{
    let mut k = i;
    while k < src.len() && alnum(src[k])
        invariant
            i <= k <= src@.len(),
            alnums_end(src@, i as int) == alnums_end(src@, k as int),
        decreases src@.len() - k,
    {
        k += 1;
    }
    k
}

pub fn scan_keyword(src: &Vec<char>, i: usize) -> (r: usize)
    requires
        i <= src@.len(),
    ensures
        r == keyword_end(src@, i as int),
        i <= r <= src@.len(),
{
    if i < src.len() && alpha(src[i]) {
        scan_idchars(src, i + 1)
    } else {
        i
    }
}

/// The end of the identifier at `i`, if one starts there.
pub fn scan_ident(src: &Vec<char>, i: usize) -> (r: Option<usize>)
    requires
        i <= src@.len(),
    ensures
        r matches Some(j) ==> ident_at(src@, i as int) matches Some(p) && p.0 == j && j
            <= src@.len(),
        r is None ==> ident_at(src@, i as int) is None,
{
    if i < src.len() && src[i] == '$' {
        let j = scan_idchars(src, i + 1);
        if j > i + 1 {
            return Some(j);
        }
    }
    None
}

/// The end of the string literal at `i`, if one starts there.
pub fn scan_string(src: &Vec<char>, i: usize) -> (r: Option<usize>)
    requires
        i <= src@.len(),
    ensures
        r matches Some(j) ==> string_at(src@, i as int) matches Some(p) && p.0 == j && i + 2 <= j
            <= src@.len(),
        r is None ==> string_at(src@, i as int) is None,
{
    if i < src.len() && src[i] == '"' {
        let mut k = i + 1;
        while k < src.len()
            invariant
                i + 1 <= k <= src@.len(),
                src@[i as int] == '"',
                quote_at(src@, i + 1) == quote_at(src@, k as int),
            decreases src@.len() - k,
        {
            if src[k] == '"' {
                assert(quote_at(src@, k as int) == Some(k as int));
                return Some(k + 1);
            }
            k += 1;
        }
    }
    None
}

pub fn scan_instr(src: &Vec<char>, i: usize) -> (r: Option<usize>)
    requires
        i <= src@.len(),
    ensures
        r matches Some(j) ==> instr_token_end(src@, i as int) == Some(j as int) && i < j
            <= src@.len(),
        r is None ==> instr_token_end(src@, i as int) is None,
{
    let a = scan_alnums(src, i);
    if a > i && a < src.len() && src[a] == '.' {
        let b = scan_alnums(src, a + 1);
        if b > a + 1 {
            return Some(b);
        }
    }
    None
}

} // verus!
