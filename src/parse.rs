//! The grammar: a recursive-descent parser from source text to a module tree.
//!
//! The spec functions below define the grammar over the characters of the
//! source; each returns the position after its form (and the whitespace and
//! comments that follow it) with the form's model, or the error.
use vstd::prelude::*;
use crate::ast::{
    Export, ExportModel, ExportType, Expr, Func, FuncModel, Instr, ItemModel, Module, ModuleModel,
    ValType, body_model, exports_model, funcs_model, param_model, params_model,
};
use crate::encode::{body_well_formed, is_body_item, module_well_formed};
use crate::lex::{
    ident_at, instr_token_end, keyword_end, scan_ident, scan_instr, scan_keyword, scan_string,
    skip, skip_space, string_at,
};

verus! {

/// What the parser looked for where the input went wrong.
#[derive(Debug, Clone, Copy, PartialEq, Eq, Structural)]
pub enum Expected {
    Open,
    Close,
    Keyword,
    Identifier,
    StringLit,
    Instruction,
    EndOfInput,
}

#[derive(Debug, Clone, Copy, PartialEq, Eq, Structural)]
pub enum ParseErrorKind {
    /// A token of the given class was required.
    Expected(Expected),
    /// A form whose head keyword is not allowed in that place.
    UnexpectedForm,
    /// A token in the shape of an instruction that names none.
    UnknownInstruction,
    /// A keyword that names no value type.
    UnknownValType,
    /// A keyword that names no export kind.
    UnknownExportKind,
}

/// A syntax error: the position (in characters) where it was found, and why.
#[derive(Debug, Clone, Copy, PartialEq, Eq, Structural)]
pub struct ParseError {
    pub pos: usize,
    pub kind: ParseErrorKind,
}

/// The head keywords of the forms.
#[derive(Debug, Clone, Copy, PartialEq, Eq, Structural)]
pub enum Word {
    Module,
    Func,
    Param,
    Result,
    Export,
}

pub open spec fn word(w: Word) -> Seq<char> {
    match w {
        Word::Module => seq!['m', 'o', 'd', 'u', 'l', 'e'],
        Word::Func => seq!['f', 'u', 'n', 'c'],
        Word::Param => seq!['p', 'a', 'r', 'a', 'm'],
        Word::Result => seq!['r', 'e', 's', 'u', 'l', 't'],
        Word::Export => seq!['e', 'x', 'p', 'o', 'r', 't'],
    }
}

pub open spec fn valtype_named(w: Seq<char>) -> Option<ValType> {
    if w == seq!['f', '6', '4'] {
        Some(ValType::F64)
    } else if w == seq!['f', '3', '2'] {
        Some(ValType::F32)
    } else if w == seq!['i', '6', '4'] {
        Some(ValType::I64)
    } else if w == seq!['i', '3', '2'] {
        Some(ValType::I32)
    } else {
        None
    }
}

pub open spec fn instr_named(w: Seq<char>) -> Option<Instr> {
    if w == seq!['l', 'o', 'c', 'a', 'l', '.', 'g', 'e', 't'] {
        Some(Instr::LocalGet)
    } else if w == seq!['i', '3', '2', '.', 'a', 'd', 'd'] {
        Some(Instr::I32Add)
    } else {
        None
    }
}

pub open spec fn export_kind_named(w: Seq<char>) -> Option<ExportType> {
    if w == word(Word::Func) {
        Some(ExportType::Func)
    } else {
        None
    }
}

pub open spec fn err(p: int, k: ParseErrorKind) -> ParseError {
    ParseError { pos: p as usize, kind: k }
}

/// The character `c`, then whitespace.
pub open spec fn token(s: Seq<char>, i: int, c: char, e: Expected) -> Result<int, ParseError> {
    if 0 <= i < s.len() && s[i] == c {
        Ok(skip(s, i + 1))
    } else {
        Err(err(i, ParseErrorKind::Expected(e)))
    }
}

pub open spec fn ident(s: Seq<char>, i: int) -> Result<(int, Seq<char>), ParseError> {
    match ident_at(s, i) {
        Some((j, n)) => Ok((skip(s, j), n)),
        None => Err(err(i, ParseErrorKind::Expected(Expected::Identifier))),
    }
}

pub open spec fn string(s: Seq<char>, i: int) -> Result<(int, Seq<char>), ParseError> {
    match string_at(s, i) {
        Some((j, t)) => Ok((skip(s, j), t)),
        None => Err(err(i, ParseErrorKind::Expected(Expected::StringLit))),
    }
}

pub open spec fn valtype(s: Seq<char>, i: int) -> Result<(int, ValType), ParseError> {
    let j = keyword_end(s, i);
    if j == i {
        Err(err(i, ParseErrorKind::Expected(Expected::Keyword)))
    } else {
        match valtype_named(s.subrange(i, j)) {
            Some(t) => Ok((skip(s, j), t)),
            None => Err(err(i, ParseErrorKind::UnknownValType)),
        }
    }
}

pub open spec fn export_kind(s: Seq<char>, i: int) -> Result<(int, ExportType), ParseError> {
    let j = keyword_end(s, i);
    if j == i {
        Err(err(i, ParseErrorKind::Expected(Expected::Keyword)))
    } else {
        match export_kind_named(s.subrange(i, j)) {
            Some(t) => Ok((skip(s, j), t)),
            None => Err(err(i, ParseErrorKind::UnknownExportKind)),
        }
    }
}

pub open spec fn instr(s: Seq<char>, i: int) -> Result<(int, Instr), ParseError> {
    match instr_token_end(s, i) {
        None => Err(err(i, ParseErrorKind::Expected(Expected::Instruction))),
        Some(j) => match instr_named(s.subrange(i, j)) {
            Some(x) => Ok((skip(s, j), x)),
            None => Err(err(i, ParseErrorKind::UnknownInstruction)),
        },
    }
}

/// A form with head keyword `w` opens at `i`.
pub open spec fn opens(s: Seq<char>, i: int, w: Word) -> bool {
    0 <= i < s.len() && s[i] == '(' && s.subrange(skip(s, i + 1), keyword_end(s, skip(s, i + 1)))
        == word(w)
}

/// The position after the opening parenthesis and head keyword of a form.
pub open spec fn after_head(s: Seq<char>, i: int) -> int {
    skip(s, keyword_end(s, skip(s, i + 1)))
}

/// `(param $name type)`
pub open spec fn param(s: Seq<char>, i: int) -> Result<(int, (Seq<char>, ValType)), ParseError> {
    match ident(s, after_head(s, i)) {
        Err(e) => Err(e),
        Ok((j, n)) => match valtype(s, j) {
            Err(e) => Err(e),
            Ok((k, t)) => match token(s, k, ')', Expected::Close) {
                Err(e) => Err(e),
                Ok(l) => Ok((l, (n, t))),
            },
        },
    }
}

/// Parameter forms, appended to `acc`.
pub open spec fn params(s: Seq<char>, i: int, acc: Seq<(Seq<char>, ValType)>) -> Result<
    (int, Seq<(Seq<char>, ValType)>),
    ParseError,
>
    decreases s.len() - i,
{
    if opens(s, i, Word::Param) {
        match param(s, i) {
            Err(e) => Err(e),
            Ok((j, p)) => if i < j <= s.len() {
                params(s, j, acc.push(p))
            } else {
                Ok((j, acc))
            },
        }
    } else {
        Ok((i, acc))
    }
}

/// An optional `(result type)` form.
pub open spec fn result(s: Seq<char>, i: int) -> Result<(int, Option<ValType>), ParseError> {
    if opens(s, i, Word::Result) {
        match valtype(s, after_head(s, i)) {
            Err(e) => Err(e),
            Ok((j, t)) => match token(s, j, ')', Expected::Close) {
                Err(e) => Err(e),
                Ok(k) => Ok((k, Some(t))),
            },
        }
    } else {
        Ok((i, None))
    }
}

/// Identifiers that follow an instruction inside a folded form.
pub open spec fn immediates(s: Seq<char>, i: int, acc: Seq<ItemModel>) -> Result<
    (int, Seq<ItemModel>),
    ParseError,
>
    decreases s.len() - i,
{
    if 0 <= i < s.len() && s[i] == '$' {
        match ident(s, i) {
            Err(e) => Err(e),
            Ok((j, n)) => if i < j <= s.len() {
                immediates(s, j, acc.push(ItemModel::Ident(n)))
            } else {
                Ok((j, acc))
            },
        }
    } else {
        Ok((i, acc))
    }
}

/// One body item, appended to `acc`: a folded form `(instr $id ...)` gives
/// the instruction then its identifiers; a bare identifier or instruction
/// gives itself.
pub open spec fn item(s: Seq<char>, i: int, acc: Seq<ItemModel>) -> Result<
    (int, Seq<ItemModel>),
    ParseError,
> {
    if 0 <= i < s.len() && s[i] == '(' {
        match instr(s, skip(s, i + 1)) {
            Err(e) => Err(e),
            Ok((j, x)) => match immediates(s, j, acc.push(ItemModel::Instr(x))) {
                Err(e) => Err(e),
                Ok((k, items)) => match token(s, k, ')', Expected::Close) {
                    Err(e) => Err(e),
                    Ok(l) => Ok((l, items)),
                },
            },
        }
    } else if 0 <= i < s.len() && s[i] == '$' {
        match ident(s, i) {
            Err(e) => Err(e),
            Ok((j, n)) => Ok((j, acc.push(ItemModel::Ident(n)))),
        }
    } else {
        match instr(s, i) {
            Err(e) => Err(e),
            Ok((j, x)) => Ok((j, acc.push(ItemModel::Instr(x)))),
        }
    }
}

/// Body items up to the closing parenthesis of the function.
pub open spec fn body(s: Seq<char>, i: int, acc: Seq<ItemModel>) -> Result<
    (int, Seq<ItemModel>),
    ParseError,
>
    decreases s.len() - i,
{
    if 0 <= i < s.len() && s[i] == ')' {
        Ok((i, acc))
    } else {
        match item(s, i, acc) {
            Err(e) => Err(e),
            Ok((j, items)) => if i < j <= s.len() {
                body(s, j, items)
            } else {
                Ok((j, items))
            },
        }
    }
}

/// `(func $name (param ...)* (result ...)? item*)`
pub open spec fn func(s: Seq<char>, i: int) -> Result<(int, FuncModel), ParseError> {
    match ident(s, after_head(s, i)) {
        Err(e) => Err(e),
        Ok((p1, name)) => match params(s, p1, Seq::empty()) {
            Err(e) => Err(e),
            Ok((p2, ps)) => match result(s, p2) {
                Err(e) => Err(e),
                Ok((p3, r)) => match body(s, p3, Seq::empty()) {
                    Err(e) => Err(e),
                    Ok((p4, b)) => match token(s, p4, ')', Expected::Close) {
                        Err(e) => Err(e),
                        Ok(p5) => Ok((p5, FuncModel { name, params: ps, result: r, body: b })),
                    },
                },
            },
        },
    }
}

/// `(export "name" (func $name))`
pub open spec fn export(s: Seq<char>, i: int) -> Result<(int, ExportModel), ParseError> {
    match string(s, after_head(s, i)) {
        Err(e) => Err(e),
        Ok((p1, name)) => match token(s, p1, '(', Expected::Open) {
            Err(e) => Err(e),
            Ok(p2) => match export_kind(s, p2) {
                Err(e) => Err(e),
                Ok((p3, ty)) => match ident(s, p3) {
                    Err(e) => Err(e),
                    Ok((p4, id)) => match token(s, p4, ')', Expected::Close) {
                        Err(e) => Err(e),
                        Ok(p5) => match token(s, p5, ')', Expected::Close) {
                            Err(e) => Err(e),
                            Ok(p6) => Ok((p6, ExportModel { export_name: name, ident: id, ty })),
                        },
                    },
                },
            },
        },
    }
}

/// The function and export forms of a module, appended to `acc`, up to a
/// closing parenthesis or the end of input; anything else there is an
/// unexpected form.
pub open spec fn items(s: Seq<char>, i: int, acc: ModuleModel) -> Result<
    (int, ModuleModel),
    ParseError,
>
    decreases s.len() - i,
{
    if opens(s, i, Word::Func) {
        match func(s, i) {
            Err(e) => Err(e),
            Ok((j, f)) => if i < j <= s.len() {
                items(s, j, ModuleModel { funcs: acc.funcs.push(f), exports: acc.exports })
            } else {
                Ok((j, acc))
            },
        }
    } else if opens(s, i, Word::Export) {
        match export(s, i) {
            Err(e) => Err(e),
            Ok((j, x)) => if i < j <= s.len() {
                items(s, j, ModuleModel { funcs: acc.funcs, exports: acc.exports.push(x) })
            } else {
                Ok((j, acc))
            },
        }
    } else if 0 <= i < s.len() && s[i] == '(' {
        Err(err(skip(s, i + 1), ParseErrorKind::UnexpectedForm))
    } else if 0 <= i < s.len() && s[i] != ')' {
        Err(err(i, ParseErrorKind::UnexpectedForm))
    } else {
        Ok((i, acc))
    }
}

/// The whole input: whitespace, `(module item*)`, whitespace, end of input.
pub open spec fn parse_module(s: Seq<char>) -> Result<ModuleModel, ParseError> {
    let i = skip(s, 0);
    if opens(s, i, Word::Module) {
        match items(s, after_head(s, i), ModuleModel { funcs: Seq::empty(), exports: Seq::empty() }) {
            Err(e) => Err(e),
            Ok((j, m)) => match token(s, j, ')', Expected::Close) {
                Err(e) => Err(e),
                Ok(k) => if k == s.len() {
                    Ok(m)
                } else {
                    Err(err(k, ParseErrorKind::Expected(Expected::EndOfInput)))
                },
            },
        }
    } else if 0 <= i < s.len() && s[i] == '(' {
        Err(err(skip(s, i + 1), ParseErrorKind::UnexpectedForm))
    } else {
        Err(err(i, ParseErrorKind::Expected(Expected::Open)))
    }
}

// ---------------------------------------------------------------------------
// Executable parser. `src` holds the characters of `text`; positions count
// characters.

pub fn word_chars(w: Word) -> (r: Vec<char>)
    ensures
        r@ == word(w),
{
    match w {
        Word::Module => vec!['m', 'o', 'd', 'u', 'l', 'e'],
        Word::Func => vec!['f', 'u', 'n', 'c'],
        Word::Param => vec!['p', 'a', 'r', 'a', 'm'],
        Word::Result => vec!['r', 'e', 's', 'u', 'l', 't'],
        Word::Export => vec!['e', 'x', 'p', 'o', 'r', 't'],
    }
}

/// Whether the characters from `i` to `j` are those of `w`.
pub fn span_eq(src: &Vec<char>, i: usize, j: usize, w: &Vec<char>) -> (r: bool)
    requires
        i <= j <= src@.len(),
    ensures
        r == (src@.subrange(i as int, j as int) == w@),
{
    if j - i != w.len() {
        assert(src@.subrange(i as int, j as int).len() != w@.len());
        return false;
    }
    let mut k: usize = 0;
    while k < w.len()
        invariant
            j - i == w@.len(),
            i <= j <= src@.len(),
            k <= w@.len(),
            forall|m: int| 0 <= m < k ==> src@[i + m] == w@[m],
        decreases w@.len() - k,
    {
        if src[i + k] != w[k] {
            assert(src@.subrange(i as int, j as int)[k as int] != w@[k as int]);
            return false;
        }
        k += 1;
    }
    assert(src@.subrange(i as int, j as int) =~= w@);
    true
}

fn text_span(text: &str, i: usize, j: usize) -> (r: String)
    requires
        i <= j <= text@.len(),
    ensures
        r@ == text@.subrange(i as int, j as int),
{
    text.substring_char(i, j).to_owned()
}

fn chars_of(text: &str) -> (r: Vec<char>)
    ensures
        r@ == text@,
{
    let n = text.unicode_len();
    let mut out: Vec<char> = Vec::new();
    let mut k: usize = 0;
    while k < n
        invariant
            n == text@.len(),
            k <= n,
            out@ == text@.subrange(0, k as int),
        decreases n - k,
    {
        out.push(text.get_char(k));
        k += 1;
        assert(out@ =~= text@.subrange(0, k as int));
    }
    assert(text@.subrange(0, n as int) =~= text@);
    out
}

fn valtype_from(src: &Vec<char>, i: usize, j: usize) -> (r: Option<ValType>)
    requires
        i <= j <= src@.len(),
    ensures
        r == valtype_named(src@.subrange(i as int, j as int)),
{
    if span_eq(src, i, j, &vec!['f', '6', '4']) {
        Some(ValType::F64)
    } else if span_eq(src, i, j, &vec!['f', '3', '2']) {
        Some(ValType::F32)
    } else if span_eq(src, i, j, &vec!['i', '6', '4']) {
        Some(ValType::I64)
    } else if span_eq(src, i, j, &vec!['i', '3', '2']) {
        Some(ValType::I32)
    } else {
        None
    }
}

fn instr_from(src: &Vec<char>, i: usize, j: usize) -> (r: Option<Instr>)
    requires
        i <= j <= src@.len(),
    ensures
        r == instr_named(src@.subrange(i as int, j as int)),
{
    if span_eq(src, i, j, &vec!['l', 'o', 'c', 'a', 'l', '.', 'g', 'e', 't']) {
        Some(Instr::LocalGet)
    } else if span_eq(src, i, j, &vec!['i', '3', '2', '.', 'a', 'd', 'd']) {
        Some(Instr::I32Add)
    } else {
        None
    }
}

fn export_kind_from(src: &Vec<char>, i: usize, j: usize) -> (r: Option<ExportType>)
    requires
        i <= j <= src@.len(),
    ensures
        r == export_kind_named(src@.subrange(i as int, j as int)),
{
    if span_eq(src, i, j, &word_chars(Word::Func)) {
        Some(ExportType::Func)
    } else {
        None
    }
}

fn p_token(src: &Vec<char>, i: usize, c: char, e: Expected) -> (r: Result<usize, ParseError>)
    requires
        i <= src@.len(),
    ensures
        r matches Ok(j) ==> token(src@, i as int, c, e) == Ok::<int, ParseError>(j as int) && i < j
            <= src@.len(),
        r matches Err(x) ==> token(src@, i as int, c, e) == Err::<int, ParseError>(x) && x.pos
            <= src@.len(),
{
    if i < src.len() && src[i] == c {
        Ok(skip_space(src, i + 1))
    } else {
        Err(ParseError { pos: i, kind: ParseErrorKind::Expected(e) })
    }
}

fn p_ident(src: &Vec<char>, text: &str, i: usize) -> (r: Result<(usize, String), ParseError>)
    requires
        i <= src@.len(),
        src@ == text@,
    ensures
        r matches Ok((j, n)) ==> ident(src@, i as int) == Ok::<(int, Seq<char>), ParseError>(
            (j as int, n@),
        ) && i < j <= src@.len(),
        r matches Err(x) ==> ident(src@, i as int) == Err::<(int, Seq<char>), ParseError>(x)
            && x.pos <= src@.len(),
{
    match scan_ident(src, i) {
        Some(j) => {
            let name = text_span(text, i + 1, j);
            Ok((skip_space(src, j), name))
        },
        None => Err(ParseError { pos: i, kind: ParseErrorKind::Expected(Expected::Identifier) }),
    }
}

fn p_string(src: &Vec<char>, text: &str, i: usize) -> (r: Result<(usize, String), ParseError>)
    requires
        i <= src@.len(),
        src@ == text@,
    ensures
        r matches Ok((j, n)) ==> string(src@, i as int) == Ok::<(int, Seq<char>), ParseError>(
            (j as int, n@),
        ) && i < j <= src@.len(),
        r matches Err(x) ==> string(src@, i as int) == Err::<(int, Seq<char>), ParseError>(x)
            && x.pos <= src@.len(),
{
    match scan_string(src, i) {
        Some(j) => {
            let t = text_span(text, i + 1, j - 1);
            Ok((skip_space(src, j), t))
        },
        None => Err(ParseError { pos: i, kind: ParseErrorKind::Expected(Expected::StringLit) }),
    }
}

fn p_valtype(src: &Vec<char>, i: usize) -> (r: Result<(usize, ValType), ParseError>)
    requires
        i <= src@.len(),
    ensures
        r matches Ok((j, t)) ==> valtype(src@, i as int) == Ok::<(int, ValType), ParseError>(
            (j as int, t),
        ) && i < j <= src@.len(),
        r matches Err(x) ==> valtype(src@, i as int) == Err::<(int, ValType), ParseError>(x)
            && x.pos <= src@.len(),
{
    let j = scan_keyword(src, i);
    if j == i {
        return Err(ParseError { pos: i, kind: ParseErrorKind::Expected(Expected::Keyword) });
    }
    match valtype_from(src, i, j) {
        Some(t) => Ok((skip_space(src, j), t)),
        None => Err(ParseError { pos: i, kind: ParseErrorKind::UnknownValType }),
    }
}

fn p_export_kind(src: &Vec<char>, i: usize) -> (r: Result<(usize, ExportType), ParseError>)
    requires
        i <= src@.len(),
    ensures
        r matches Ok((j, t)) ==> export_kind(src@, i as int) == Ok::<(int, ExportType), ParseError>(
            (j as int, t),
        ) && i < j <= src@.len(),
        r matches Err(x) ==> export_kind(src@, i as int) == Err::<(int, ExportType), ParseError>(x)
            && x.pos <= src@.len(),
{
    let j = scan_keyword(src, i);
    if j == i {
        return Err(ParseError { pos: i, kind: ParseErrorKind::Expected(Expected::Keyword) });
    }
    match export_kind_from(src, i, j) {
        Some(t) => Ok((skip_space(src, j), t)),
        None => Err(ParseError { pos: i, kind: ParseErrorKind::UnknownExportKind }),
    }
}

fn p_instr(src: &Vec<char>, i: usize) -> (r: Result<(usize, Instr), ParseError>)
    requires
        i <= src@.len(),
    ensures
        r matches Ok((j, x)) ==> instr(src@, i as int) == Ok::<(int, Instr), ParseError>(
            (j as int, x),
        ) && i < j <= src@.len(),
        r matches Err(x) ==> instr(src@, i as int) == Err::<(int, Instr), ParseError>(x) && x.pos
            <= src@.len(),
{
    match scan_instr(src, i) {
        None => Err(ParseError { pos: i, kind: ParseErrorKind::Expected(Expected::Instruction) }),
        Some(j) => match instr_from(src, i, j) {
            Some(x) => Ok((skip_space(src, j), x)),
            None => Err(ParseError { pos: i, kind: ParseErrorKind::UnknownInstruction }),
        },
    }
}

fn p_opens(src: &Vec<char>, i: usize, w: Word) -> (r: bool)
    requires
        i <= src@.len(),
    ensures
        r == opens(src@, i as int, w),
{
    if i < src.len() && src[i] == '(' {
        let k = skip_space(src, i + 1);
        let e = scan_keyword(src, k);
        span_eq(src, k, e, &word_chars(w))
    } else {
        false
    }
}

fn p_after_head(src: &Vec<char>, i: usize) -> (r: usize)
    requires
        i < src@.len(),
    ensures
        r == after_head(src@, i as int),
        i < r <= src@.len(),
{
    let n = src.len();
    assert(i + 1 <= n);
    let k = skip_space(src, i + 1);
    let e = scan_keyword(src, k);
    skip_space(src, e)
}

fn p_param(src: &Vec<char>, text: &str, i: usize) -> (r: Result<
    (usize, (String, ValType)),
    ParseError,
>)
    requires
        i < src@.len(),
        src@ == text@,
    ensures
        r matches Ok((j, p)) ==> param(src@, i as int) == Ok::<
            (int, (Seq<char>, ValType)),
            ParseError,
        >((j as int, param_model(p))) && i < j <= src@.len(),
        r matches Err(x) ==> param(src@, i as int) == Err::<(int, (Seq<char>, ValType)), ParseError>(
            x,
        ) && x.pos <= src@.len(),
{
    let p0 = p_after_head(src, i);
    let (p1, name) = match p_ident(src, text, p0) {
        Ok(v) => v,
        Err(e) => return Err(e),
    };
    let (p2, t) = match p_valtype(src, p1) {
        Ok(v) => v,
        Err(e) => return Err(e),
    };
    let p3 = match p_token(src, p2, ')', Expected::Close) {
        Ok(v) => v,
        Err(e) => return Err(e),
    };
    Ok((p3, (name, t)))
}

fn p_params(src: &Vec<char>, text: &str, i: usize) -> (r: Result<
    (usize, Vec<(String, ValType)>),
    ParseError,
>)
    requires
        i <= src@.len(),
        src@ == text@,
    ensures
        r matches Ok((j, ps)) ==> params(src@, i as int, Seq::empty()) == Ok::<
            (int, Seq<(Seq<char>, ValType)>),
            ParseError,
        >((j as int, params_model(ps@))) && i <= j <= src@.len(),
        r matches Err(x) ==> params(src@, i as int, Seq::empty()) == Err::<
            (int, Seq<(Seq<char>, ValType)>),
            ParseError,
        >(x) && x.pos <= src@.len(),
{
    let mut ps: Vec<(String, ValType)> = Vec::new();
    let mut k = i;
    assert(params_model(ps@) =~= Seq::empty());
    loop
        invariant
            i <= k <= src@.len(),
            src@ == text@,
            params(src@, i as int, Seq::empty()) == params(src@, k as int, params_model(ps@)),
        decreases src@.len() - k,
    {
        if !p_opens(src, k, Word::Param) {
            return Ok((k, ps));
        }
        match p_param(src, text, k) {
            Ok((j, p)) => {
                let ghost before = ps@;
                ps.push(p);
                assert(params_model(ps@) =~= params_model(before).push(param_model(p)));
                k = j;
            },
            Err(e) => {
                return Err(e);
            },
        }
    }
}

fn p_result(src: &Vec<char>, i: usize) -> (r: Result<(usize, Option<ValType>), ParseError>)
    requires
        i <= src@.len(),
    ensures
        r matches Ok((j, t)) ==> result(src@, i as int) == Ok::<
            (int, Option<ValType>),
            ParseError,
        >((j as int, t)) && i <= j <= src@.len(),
        r matches Err(x) ==> result(src@, i as int) == Err::<(int, Option<ValType>), ParseError>(x)
            && x.pos <= src@.len(),
{
    if !p_opens(src, i, Word::Result) {
        return Ok((i, None));
    }
    let p0 = p_after_head(src, i);
    let (p1, t) = match p_valtype(src, p0) {
        Ok(v) => v,
        Err(e) => return Err(e),
    };
    let p2 = match p_token(src, p1, ')', Expected::Close) {
        Ok(v) => v,
        Err(e) => return Err(e),
    };
    Ok((p2, Some(t)))
}

pub open spec fn all_body_items(es: Seq<Expr>) -> bool {
    forall|k: int| 0 <= k < es.len() ==> is_body_item(#[trigger] es[k])
}

fn p_immediates(src: &Vec<char>, text: &str, i: usize, out: &mut Vec<Expr>) -> (r: Result<
    usize,
    ParseError,
>)
    requires
        i <= src@.len(),
        src@ == text@,
        all_body_items(old(out)@),
    ensures
        all_body_items(final(out)@),
        r matches Ok(j) ==> immediates(src@, i as int, body_model(old(out)@)) == Ok::<
            (int, Seq<ItemModel>),
            ParseError,
        >((j as int, body_model(final(out)@))) && i <= j <= src@.len(),
        r matches Err(x) ==> immediates(src@, i as int, body_model(old(out)@)) == Err::<
            (int, Seq<ItemModel>),
            ParseError,
        >(x) && x.pos <= src@.len(),
{
    let mut k = i;
    loop
        invariant
            i <= k <= src@.len(),
            src@ == text@,
            all_body_items(out@),
            immediates(src@, i as int, body_model(old(out)@)) == immediates(
                src@,
                k as int,
                body_model(out@),
            ),
        decreases src@.len() - k,
    {
        if !(k < src.len() && src[k] == '$') {
            return Ok(k);
        }
        match p_ident(src, text, k) {
            Ok((j, n)) => {
                let ghost before = out@;
                let ghost nv = n@;
                out.push(Expr::Ident(n));
                assert(body_model(out@) =~= body_model(before).push(ItemModel::Ident(nv)));
                assert(is_body_item(out@[out@.len() - 1]));
                k = j;
            },
            Err(e) => {
                return Err(e);
            },
        }
    }
}

fn p_item(src: &Vec<char>, text: &str, i: usize, out: &mut Vec<Expr>) -> (r: Result<
    usize,
    ParseError,
>)
    requires
        i <= src@.len(),
        src@ == text@,
        all_body_items(old(out)@),
    ensures
        all_body_items(final(out)@),
        r matches Ok(j) ==> item(src@, i as int, body_model(old(out)@)) == Ok::<
            (int, Seq<ItemModel>),
            ParseError,
        >((j as int, body_model(final(out)@))) && i < j <= src@.len(),
        r matches Err(x) ==> item(src@, i as int, body_model(old(out)@)) == Err::<
            (int, Seq<ItemModel>),
            ParseError,
        >(x) && x.pos <= src@.len(),
{
    let ghost before = out@;
    if i < src.len() && src[i] == '(' {
        let p0 = skip_space(src, i + 1);
        let (p1, x) = match p_instr(src, p0) {
            Ok(v) => v,
            Err(e) => return Err(e),
        };
        out.push(Expr::Instr(x));
        assert(body_model(out@) =~= body_model(before).push(ItemModel::Instr(x)));
        assert(is_body_item(out@[out@.len() - 1]));
        let p2 = match p_immediates(src, text, p1, out) {
            Ok(v) => v,
            Err(e) => return Err(e),
        };
        p_token(src, p2, ')', Expected::Close)
    } else if i < src.len() && src[i] == '$' {
        let (p1, n) = match p_ident(src, text, i) {
            Ok(v) => v,
            Err(e) => return Err(e),
        };
        let ghost nv = n@;
        out.push(Expr::Ident(n));
        assert(body_model(out@) =~= body_model(before).push(ItemModel::Ident(nv)));
        assert(is_body_item(out@[out@.len() - 1]));
        Ok(p1)
    } else {
        let (p1, x) = match p_instr(src, i) {
            Ok(v) => v,
            Err(e) => return Err(e),
        };
        out.push(Expr::Instr(x));
        assert(body_model(out@) =~= body_model(before).push(ItemModel::Instr(x)));
        assert(is_body_item(out@[out@.len() - 1]));
        Ok(p1)
    }
}

fn p_body(src: &Vec<char>, text: &str, i: usize) -> (r: Result<(usize, Vec<Expr>), ParseError>)
    requires
        i <= src@.len(),
        src@ == text@,
    ensures
        r matches Ok((j, b)) ==> body(src@, i as int, Seq::empty()) == Ok::<
            (int, Seq<ItemModel>),
            ParseError,
        >((j as int, body_model(b@))) && i <= j <= src@.len() && all_body_items(b@),
        r matches Err(x) ==> body(src@, i as int, Seq::empty()) == Err::<
            (int, Seq<ItemModel>),
            ParseError,
        >(x) && x.pos <= src@.len(),
{
    let mut b: Vec<Expr> = Vec::new();
    let mut k = i;
    assert(body_model(b@) =~= Seq::empty());
    loop
        invariant
            i <= k <= src@.len(),
            src@ == text@,
            all_body_items(b@),
            body(src@, i as int, Seq::empty()) == body(src@, k as int, body_model(b@)),
        decreases src@.len() - k,
    {
        if k < src.len() && src[k] == ')' {
            return Ok((k, b));
        }
        match p_item(src, text, k, &mut b) {
            Ok(j) => {
                k = j;
            },
            Err(e) => {
                return Err(e);
            },
        }
    }
}

fn p_func(src: &Vec<char>, text: &str, i: usize) -> (r: Result<(usize, Func), ParseError>)
    requires
        i < src@.len(),
        src@ == text@,
    ensures
        r matches Ok((j, f)) ==> func(src@, i as int) == Ok::<(int, FuncModel), ParseError>(
            (j as int, f@),
        ) && i < j <= src@.len() && body_well_formed(f@),
        r matches Err(x) ==> func(src@, i as int) == Err::<(int, FuncModel), ParseError>(x) && x.pos
            <= src@.len(),
{
    let p0 = p_after_head(src, i);
    let (p1, name) = match p_ident(src, text, p0) {
        Ok(v) => v,
        Err(e) => return Err(e),
    };
    let (p2, params) = match p_params(src, text, p1) {
        Ok(v) => v,
        Err(e) => return Err(e),
    };
    let (p3, result) = match p_result(src, p2) {
        Ok(v) => v,
        Err(e) => return Err(e),
    };
    let (p4, body) = match p_body(src, text, p3) {
        Ok(v) => v,
        Err(e) => return Err(e),
    };
    let p5 = match p_token(src, p4, ')', Expected::Close) {
        Ok(v) => v,
        Err(e) => return Err(e),
    };
    let f = Func { name, params, result, body };
    assert forall|k: int| 0 <= k < f@.body.len() implies !(#[trigger] f@.body[k] is Other) by {
        assert(f@.body[k] == crate::ast::item_model(f.body@[k]));
        assert(is_body_item(f.body@[k]));
    }
    Ok((p5, f))
}

fn p_export(src: &Vec<char>, text: &str, i: usize) -> (r: Result<(usize, Export), ParseError>)
    requires
        i < src@.len(),
        src@ == text@,
    ensures
        r matches Ok((j, x)) ==> export(src@, i as int) == Ok::<(int, ExportModel), ParseError>(
            (j as int, x@),
        ) && i < j <= src@.len(),
        r matches Err(x) ==> export(src@, i as int) == Err::<(int, ExportModel), ParseError>(x)
            && x.pos <= src@.len(),
{
    let p0 = p_after_head(src, i);
    let (p1, export_name) = match p_string(src, text, p0) {
        Ok(v) => v,
        Err(e) => return Err(e),
    };
    let p2 = match p_token(src, p1, '(', Expected::Open) {
        Ok(v) => v,
        Err(e) => return Err(e),
    };
    let (p3, ty) = match p_export_kind(src, p2) {
        Ok(v) => v,
        Err(e) => return Err(e),
    };
    let (p4, ident) = match p_ident(src, text, p3) {
        Ok(v) => v,
        Err(e) => return Err(e),
    };
    let p5 = match p_token(src, p4, ')', Expected::Close) {
        Ok(v) => v,
        Err(e) => return Err(e),
    };
    let p6 = match p_token(src, p5, ')', Expected::Close) {
        Ok(v) => v,
        Err(e) => return Err(e),
    };
    Ok((p6, Export { export_name, ident, ty }))
}

pub open spec fn funcs_well_formed(fs: Seq<Func>) -> bool {
    forall|k: int| 0 <= k < fs.len() ==> body_well_formed(#[trigger] fs[k]@)
}

fn p_items(src: &Vec<char>, text: &str, i: usize) -> (r: Result<
    (usize, Vec<Func>, Vec<Export>),
    ParseError,
>)
    requires
        i <= src@.len(),
        src@ == text@,
    ensures
        r matches Ok((j, fs, xs)) ==> items(
            src@,
            i as int,
            ModuleModel { funcs: Seq::empty(), exports: Seq::empty() },
        ) == Ok::<(int, ModuleModel), ParseError>(
            (j as int, ModuleModel { funcs: funcs_model(fs@), exports: exports_model(xs@) }),
        ) && i <= j <= src@.len() && funcs_well_formed(fs@),
        r matches Err(x) ==> items(
            src@,
            i as int,
            ModuleModel { funcs: Seq::empty(), exports: Seq::empty() },
        ) == Err::<(int, ModuleModel), ParseError>(x) && x.pos <= src@.len(),
{
    let mut fs: Vec<Func> = Vec::new();
    let mut xs: Vec<Export> = Vec::new();
    let mut k = i;
    assert(funcs_model(fs@) =~= Seq::empty());
    assert(exports_model(xs@) =~= Seq::empty());
    loop
        invariant
            i <= k <= src@.len(),
            src@ == text@,
            funcs_well_formed(fs@),
            items(src@, i as int, ModuleModel { funcs: Seq::empty(), exports: Seq::empty() })
                == items(
                src@,
                k as int,
                ModuleModel { funcs: funcs_model(fs@), exports: exports_model(xs@) },
            ),
        decreases src@.len() - k,
    {
        if p_opens(src, k, Word::Func) {
            match p_func(src, text, k) {
                Ok((j, f)) => {
                    let ghost before = fs@;
                    let ghost fv = f@;
                    fs.push(f);
                    assert(funcs_model(fs@) =~= funcs_model(before).push(fv));
                    k = j;
                },
                Err(e) => {
                    return Err(e);
                },
            }
        } else if p_opens(src, k, Word::Export) {
            match p_export(src, text, k) {
                Ok((j, x)) => {
                    let ghost before = xs@;
                    let ghost xv = x@;
                    xs.push(x);
                    assert(exports_model(xs@) =~= exports_model(before).push(xv));
                    k = j;
                },
                Err(e) => {
                    return Err(e);
                },
            }
        } else if k < src.len() && src[k] == '(' {
            let p = skip_space(src, k + 1);
            return Err(ParseError { pos: p, kind: ParseErrorKind::UnexpectedForm });
        } else if k < src.len() && src[k] != ')' {
            return Err(ParseError { pos: k, kind: ParseErrorKind::UnexpectedForm });
        } else {
            return Ok((k, fs, xs));
        }
    }
}

/// Parses a whole source text into a module tree.
///
/// Succeeds exactly when the text is one `(module ...)` form, with only
/// whitespace and comments around it; the tree is then the model that the
/// grammar gives, and every body holds only instructions and identifiers.
/// Otherwise the error is the grammar's, at a position within the text.
pub fn module(input: &str) -> (r: Result<Module, ParseError>)
    ensures
        r matches Ok(m) ==> parse_module(input@) == Ok::<ModuleModel, ParseError>(m@)
            && module_well_formed(m@),
        r matches Err(e) ==> parse_module(input@) == Err::<ModuleModel, ParseError>(e) && e.pos
            <= input@.len(),
{
    let src = chars_of(input);
    let i = skip_space(&src, 0);
    if p_opens(&src, i, Word::Module) {
        let p0 = p_after_head(&src, i);
        let (p1, funcs, exports) = match p_items(&src, input, p0) {
            Ok(v) => v,
            Err(e) => return Err(e),
        };
        let p2 = match p_token(&src, p1, ')', Expected::Close) {
            Ok(v) => v,
            Err(e) => return Err(e),
        };
        if p2 != src.len() {
            return Err(ParseError { pos: p2, kind: ParseErrorKind::Expected(Expected::EndOfInput) });
        }
        let m = Module { funcs, exports };
        assert forall|k: int| 0 <= k < m@.funcs.len() implies body_well_formed(
            #[trigger] m@.funcs[k],
        ) by {
            assert(m@.funcs[k] == m.funcs@[k]@);
        }
        Ok(m)
    } else if i < src.len() && src[i] == '(' {
        let p = skip_space(&src, i + 1);
        Err(ParseError { pos: p, kind: ParseErrorKind::UnexpectedForm })
    } else {
        Err(ParseError { pos: i, kind: ParseErrorKind::Expected(Expected::Open) })
    }
}

} // verus!
