//! A canonical rendering of module models as text, and the proof that the
//! parser reads every printable model back from its rendering.
use vstd::prelude::*;
use crate::ast::{ExportModel, ExportType, FuncModel, Instr, ItemModel, ModuleModel, ValType};
use crate::lex::{
    alnums_end, ident_at, idchars_end, instr_token_end, is_alnum, is_alpha, is_idchar, is_space,
    keyword_end, skip, string_at, quote_at, comment_end, line_end, block_close,
};
use crate::parse::{
    Word, after_head, body, export, export_kind, func, ident, instr, instr_named, items, opens,
    param, params, parse_module, result, string, token, valtype, valtype_named, word, Expected,
};

verus! {

/// A token followed by one space.
pub open spec fn tok(t: Seq<char>) -> Seq<char> {
    t + seq![' ']
}

pub open spec fn r_ident(n: Seq<char>) -> Seq<char> {
    tok(seq!['$'] + n)
}

pub open spec fn r_head(w: Word) -> Seq<char> {
    tok(seq!['(']) + tok(word(w))
}

pub open spec fn r_close() -> Seq<char> {
    tok(seq![')'])
}

/// `r` stands in `s` from position `i`.
pub open spec fn at(s: Seq<char>, i: int, r: Seq<char>) -> bool {
    0 <= i && i + r.len() <= s.len() && s.subrange(i, i + r.len()) == r
}

/// Position `k` ends the input or starts a token, and a `(` there is followed
/// by a space.
pub open spec fn follows(s: Seq<char>, k: int) -> bool {
    k == s.len() || (0 <= k < s.len() && !is_space(s[k]) && s[k] != ';' && (s[k] == '(' ==> k + 1
        < s.len() && s[k + 1] == ' '))
}

/// A rendering that starts a token the way `follows` asks.
pub open spec fn good_start(r: Seq<char>) -> bool {
    r.len() >= 2 && !is_space(r[0]) && r[0] != ';' && (r[0] == '(' ==> r[1] == ' ')
}

proof fn lemma_at_split(s: Seq<char>, i: int, a: Seq<char>, b: Seq<char>)
    requires
        at(s, i, a + b),
    ensures
        at(s, i, a),
        at(s, i + a.len(), b),
{
    let whole = s.subrange(i, i + (a + b).len());
    assert(whole == a + b);
    assert(s.subrange(i, i + a.len()) =~= whole.subrange(0, a.len() as int));
    assert(whole.subrange(0, a.len() as int) =~= a);
    assert(s.subrange(i + a.len(), i + a.len() + b.len()) =~= whole.subrange(
        a.len() as int,
        (a + b).len() as int,
    ));
    assert(whole.subrange(a.len() as int, (a + b).len() as int) =~= b);
}

proof fn lemma_at_index(s: Seq<char>, i: int, r: Seq<char>, k: int)
    requires
        at(s, i, r),
        0 <= k < r.len(),
    ensures
        s[i + k] == r[k],
{
    assert(s.subrange(i, i + r.len())[k] == s[i + k]);
}

proof fn lemma_follows(s: Seq<char>, i: int, r: Seq<char>)
    requires
        at(s, i, r),
        good_start(r),
    ensures
        follows(s, i),
{
    lemma_at_index(s, i, r, 0);
    lemma_at_index(s, i, r, 1);
}

/// One space before a token start is all that `skip` passes over.
proof fn lemma_skip_one(s: Seq<char>, j: int)
    requires
        0 <= j < s.len(),
        s[j] == ' ',
        follows(s, j + 1),
    ensures
        skip(s, j) == j + 1,
{
    assert(skip(s, j) == skip(s, j + 1));
    if j + 1 < s.len() {
        assert(comment_end(s, j + 1) is None);
    }
}

proof fn lemma_idchars_run(s: Seq<char>, a: int, b: int)
    requires
        0 <= a <= b < s.len(),
        forall|k: int| a <= k < b ==> is_idchar(#[trigger] s[k]),
        !is_idchar(s[b]),
    ensures
        idchars_end(s, a) == b,
    decreases b - a,
{
    if a < b {
        lemma_idchars_run(s, a + 1, b);
    }
}

proof fn lemma_alnums_run(s: Seq<char>, a: int, b: int)
    requires
        0 <= a <= b < s.len(),
        forall|k: int| a <= k < b ==> is_alnum(#[trigger] s[k]),
        !is_alnum(s[b]),
    ensures
        alnums_end(s, a) == b,
    decreases b - a,
{
    if a < b {
        lemma_alnums_run(s, a + 1, b);
    }
}

/// A name of identifier characters, at least one.
pub open spec fn valid_name(n: Seq<char>) -> bool {
    n.len() >= 1 && forall|k: int| 0 <= k < n.len() ==> is_idchar(#[trigger] n[k])
}

/// A keyword: a letter, then identifier characters.
pub open spec fn valid_keyword(w: Seq<char>) -> bool {
    valid_name(w) && is_alpha(w[0])
}

proof fn lemma_ident(s: Seq<char>, i: int, n: Seq<char>)
    requires
        at(s, i, r_ident(n)),
        valid_name(n),
        follows(s, i + r_ident(n).len()),
    ensures
        ident(s, i) == Ok::<(int, Seq<char>), crate::parse::ParseError>((i + r_ident(n).len(), n)),
{
    let e = i + 1 + n.len();
    lemma_at_index(s, i, r_ident(n), 0);
    assert forall|k: int| i + 1 <= k < e implies is_idchar(#[trigger] s[k]) by {
        lemma_at_index(s, i, r_ident(n), k - i);
        assert(r_ident(n)[k - i] == n[k - i - 1]);
    }
    lemma_at_index(s, i, r_ident(n), n.len() + 1int);
    lemma_idchars_run(s, i + 1, e);
    assert(s.subrange(i + 1, e) =~= n) by {
        assert forall|k: int| 0 <= k < n.len() implies s.subrange(i + 1, e)[k] == n[k] by {
            lemma_at_index(s, i, r_ident(n), k + 1);
        }
    }
    assert(ident_at(s, i) == Some((e, n)));
    lemma_skip_one(s, e);
}

/// A keyword token: its end, its text, and the position after its space.
proof fn lemma_keyword(s: Seq<char>, i: int, w: Seq<char>)
    requires
        at(s, i, tok(w)),
        valid_keyword(w),
        follows(s, i + w.len() + 1),
    ensures
        keyword_end(s, i) == i + w.len(),
        s.subrange(i, i + w.len()) == w,
        skip(s, i + w.len()) == i + w.len() + 1,
{
    lemma_at_index(s, i, tok(w), 0);
    assert forall|k: int| i + 1 <= k < i + w.len() implies is_idchar(#[trigger] s[k]) by {
        lemma_at_index(s, i, tok(w), k - i);
    }
    lemma_at_index(s, i, tok(w), w.len() as int);
    lemma_idchars_run(s, i + 1, i + w.len());
    assert(s.subrange(i, i + w.len()) =~= w) by {
        assert forall|k: int| 0 <= k < w.len() implies s.subrange(i, i + w.len())[k] == w[k] by {
            lemma_at_index(s, i, tok(w), k);
        }
    }
    lemma_skip_one(s, i + w.len());
}

proof fn lemma_char_tok(s: Seq<char>, i: int, c: char, e: Expected)
    requires
        at(s, i, tok(seq![c])),
        follows(s, i + 2),
    ensures
        token(s, i, c, e) == Ok::<int, crate::parse::ParseError>(i + 2),
        s[i] == c,
{
    lemma_at_index(s, i, tok(seq![c]), 0);
    lemma_at_index(s, i, tok(seq![c]), 1);
    lemma_skip_one(s, i + 1);
}

proof fn lemma_words(w: Word, w2: Word)
    ensures
        valid_keyword(word(w)),
        w != w2 ==> word(w) != word(w2),
{
    if w != w2 {
        assert(word(w)[0] != word(w2)[0]);
    }
}

/// A form head `( word `: the form opens with that word and no other, and
/// its content starts right after the head.
proof fn lemma_head(s: Seq<char>, i: int, w: Word)
    requires
        at(s, i, r_head(w)),
        follows(s, i + r_head(w).len()),
    ensures
        opens(s, i, w),
        forall|w2: Word| w2 != w ==> !opens(s, i, w2),
        after_head(s, i) == i + r_head(w).len(),
        s[i] == '(',
{
    lemma_words(w, w);
    lemma_at_split(s, i, tok(seq!['(']), tok(word(w)));
    lemma_at_index(s, i, r_head(w), 0);
    lemma_at_index(s, i, r_head(w), 1);
    lemma_at_index(s, i, r_head(w), 2);
    lemma_skip_one(s, i + 1);
    lemma_keyword(s, i + 2, word(w));
    assert forall|w2: Word| w2 != w implies !opens(s, i, w2) by {
        lemma_words(w, w2);
    }
}

pub open spec fn valtype_name(t: ValType) -> Seq<char> {
    match t {
        ValType::F64 => seq!['f', '6', '4'],
        ValType::F32 => seq!['f', '3', '2'],
        ValType::I64 => seq!['i', '6', '4'],
        ValType::I32 => seq!['i', '3', '2'],
    }
}

proof fn lemma_valtype(s: Seq<char>, i: int, t: ValType)
    requires
        at(s, i, tok(valtype_name(t))),
        follows(s, i + 4),
    ensures
        valtype(s, i) == Ok::<(int, ValType), crate::parse::ParseError>((i + 4, t)),
{
    let n = valtype_name(t);
    assert(valid_keyword(n));
    lemma_keyword(s, i, n);
    assert(valtype_named(n) == Some(t)) by {
        assert(seq!['f', '6', '4'][1] != seq!['f', '3', '2'][1]);
        assert(seq!['f', '6', '4'][0] != seq!['i', '6', '4'][0]);
        assert(seq!['f', '6', '4'][0] != seq!['i', '3', '2'][0]);
        assert(seq!['f', '3', '2'][0] != seq!['i', '6', '4'][0]);
        assert(seq!['f', '3', '2'][0] != seq!['i', '3', '2'][0]);
        assert(seq!['i', '6', '4'][1] != seq!['i', '3', '2'][1]);
    }
}

pub open spec fn instr_parts(x: Instr) -> (Seq<char>, Seq<char>) {
    match x {
        Instr::LocalGet => (seq!['l', 'o', 'c', 'a', 'l'], seq!['g', 'e', 't']),
        Instr::I32Add => (seq!['i', '3', '2'], seq!['a', 'd', 'd']),
    }
}

pub open spec fn instr_name(x: Instr) -> Seq<char> {
    instr_parts(x).0 + seq!['.'] + instr_parts(x).1
}

proof fn lemma_instr(s: Seq<char>, i: int, x: Instr)
    requires
        at(s, i, tok(instr_name(x))),
        follows(s, i + instr_name(x).len() + 1),
    ensures
        instr(s, i) == Ok::<(int, Instr), crate::parse::ParseError>(
            (i + instr_name(x).len() + 1, x),
        ),
        is_alpha(s[i]),
{
    let a = instr_parts(x).0;
    let b = instr_parts(x).1;
    let n = instr_name(x);
    let r = tok(n);
    let d = i + a.len();
    let e = d + 1 + b.len();
    assert(r.len() == e - i + 1);
    lemma_at_index(s, i, r, 0);
    assert forall|k: int| i <= k < d implies is_alnum(#[trigger] s[k]) by {
        lemma_at_index(s, i, r, k - i);
    }
    lemma_at_index(s, i, r, a.len() as int);
    lemma_alnums_run(s, i, d);
    assert forall|k: int| d + 1 <= k < e implies is_alnum(#[trigger] s[k]) by {
        lemma_at_index(s, i, r, k - i);
    }
    lemma_at_index(s, i, r, e - i);
    lemma_alnums_run(s, d + 1, e);
    assert(instr_token_end(s, i) == Some(e));
    assert(s.subrange(i, e) =~= n) by {
        assert forall|k: int| 0 <= k < n.len() implies s.subrange(i, e)[k] == n[k] by {
            lemma_at_index(s, i, r, k);
        }
    }
    assert(instr_named(n) == Some(x)) by {
        assert(instr_name(Instr::LocalGet).len() != instr_name(Instr::I32Add).len());
        assert(instr_name(Instr::LocalGet) =~= seq!['l', 'o', 'c', 'a', 'l', '.', 'g', 'e', 't']);
        assert(instr_name(Instr::I32Add) =~= seq!['i', '3', '2', '.', 'a', 'd', 'd']);
    }
    lemma_skip_one(s, e);
}

pub open spec fn r_param(p: (Seq<char>, ValType)) -> Seq<char> {
    r_head(Word::Param) + r_ident(p.0) + tok(valtype_name(p.1)) + r_close()
}

pub open spec fn r_params(ps: Seq<(Seq<char>, ValType)>) -> Seq<char>
    decreases ps.len(),
{
    if ps.len() == 0 {
        Seq::empty()
    } else {
        r_param(ps[0]) + r_params(ps.drop_first())
    }
}

proof fn lemma_param(s: Seq<char>, i: int, p: (Seq<char>, ValType))
    requires
        at(s, i, r_param(p)),
        valid_name(p.0),
        follows(s, i + r_param(p).len()),
    ensures
        param(s, i) == Ok::<(int, (Seq<char>, ValType)), crate::parse::ParseError>(
            (i + r_param(p).len(), p),
        ),
        opens(s, i, Word::Param),
        good_start(r_param(p)),
{
    let h = r_head(Word::Param);
    let id = r_ident(p.0);
    let t = tok(valtype_name(p.1));
    lemma_at_split(s, i, h + id + t, r_close());
    lemma_at_split(s, i, h + id, t);
    lemma_at_split(s, i, h, id);
    let e = i + r_param(p).len();
    lemma_char_tok(s, e - 2, ')', Expected::Close);
    lemma_follows(s, e - 2, r_close());
    lemma_at_index(s, i + h.len() + id.len(), t, 0);
    lemma_valtype(s, i + h.len() + id.len(), p.1);
    lemma_at_index(s, i + h.len(), id, 0);
    lemma_ident(s, i + h.len(), p.0);
    lemma_head(s, i, Word::Param);
    assert(r_param(p)[0] == '(' && r_param(p)[1] == ' ');
}

pub open spec fn valid_params(ps: Seq<(Seq<char>, ValType)>) -> bool {
    forall|k: int| 0 <= k < ps.len() ==> valid_name(#[trigger] ps[k].0)
}

proof fn lemma_params(
    s: Seq<char>,
    i: int,
    ps: Seq<(Seq<char>, ValType)>,
    acc: Seq<(Seq<char>, ValType)>,
)
    requires
        at(s, i, r_params(ps)),
        valid_params(ps),
        follows(s, i + r_params(ps).len()),
        !opens(s, i + r_params(ps).len(), Word::Param),
    ensures
        params(s, i, acc) == Ok::<(int, Seq<(Seq<char>, ValType)>), crate::parse::ParseError>(
            (i + r_params(ps).len(), acc + ps),
        ),
        ps.len() > 0 ==> good_start(r_params(ps)),
    decreases ps.len(),
{
    if ps.len() == 0 {
        assert(acc + ps =~= acc);
    } else {
        let rest = ps.drop_first();
        let j = i + r_param(ps[0]).len();
        lemma_at_split(s, i, r_param(ps[0]), r_params(rest));
        assert(valid_params(rest)) by {
            assert forall|k: int| 0 <= k < rest.len() implies valid_name(#[trigger] rest[k].0) by {
                assert(rest[k] == ps[k + 1]);
            }
        }
        assert(valid_name(ps[0].0));
        lemma_params(s, j, rest, acc.push(ps[0]));
        if rest.len() > 0 {
            lemma_follows(s, j, r_params(rest));
        }
        lemma_param(s, i, ps[0]);
        assert(acc.push(ps[0]) + rest =~= acc + ps);
        assert(r_params(ps)[0] == r_param(ps[0])[0]);
        assert(r_params(ps)[1] == r_param(ps[0])[1]);
    }
}

pub open spec fn r_result(r: Option<ValType>) -> Seq<char> {
    match r {
        None => Seq::empty(),
        Some(t) => r_head(Word::Result) + tok(valtype_name(t)) + r_close(),
    }
}

proof fn lemma_result(s: Seq<char>, i: int, r: Option<ValType>)
    requires
        at(s, i, r_result(r)),
        follows(s, i + r_result(r).len()),
        r is None ==> !opens(s, i, Word::Result),
    ensures
        result(s, i) == Ok::<(int, Option<ValType>), crate::parse::ParseError>(
            (i + r_result(r).len(), r),
        ),
        r is Some ==> good_start(r_result(r)) && !opens(s, i, Word::Param),
{
    if let Some(t) = r {
        let h = r_head(Word::Result);
        let v = tok(valtype_name(t));
        lemma_at_split(s, i, h + v, r_close());
        lemma_at_split(s, i, h, v);
        let e = i + r_result(r).len();
        lemma_char_tok(s, e - 2, ')', Expected::Close);
        lemma_follows(s, e - 2, r_close());
        lemma_valtype(s, i + h.len(), t);
        lemma_at_index(s, i + h.len(), v, 0);
        lemma_follows(s, i + h.len(), v);
        lemma_head(s, i, Word::Result);
        assert(r_result(r)[0] == '(' && r_result(r)[1] == ' ');
    }
}

pub open spec fn r_item(e: ItemModel) -> Seq<char> {
    match e {
        ItemModel::Instr(x) => tok(instr_name(x)),
        ItemModel::Ident(n) => r_ident(n),
        ItemModel::Other => Seq::empty(),
    }
}

pub open spec fn valid_item(e: ItemModel) -> bool {
    match e {
        ItemModel::Instr(_) => true,
        ItemModel::Ident(n) => valid_name(n),
        ItemModel::Other => false,
    }
}

pub open spec fn r_body(b: Seq<ItemModel>) -> Seq<char>
    decreases b.len(),
{
    if b.len() == 0 {
        Seq::empty()
    } else {
        r_item(b[0]) + r_body(b.drop_first())
    }
}

pub open spec fn valid_body(b: Seq<ItemModel>) -> bool {
    forall|k: int| 0 <= k < b.len() ==> valid_item(#[trigger] b[k])
}

proof fn lemma_item(s: Seq<char>, i: int, x: ItemModel, acc: Seq<ItemModel>)
    requires
        at(s, i, r_item(x)),
        valid_item(x),
        follows(s, i + r_item(x).len()),
    ensures
        crate::parse::item(s, i, acc) == Ok::<(int, Seq<ItemModel>), crate::parse::ParseError>(
            (i + r_item(x).len(), acc.push(x)),
        ),
        good_start(r_item(x)),
        s[i] != '(' && s[i] != ')',
{
    match x {
        ItemModel::Instr(y) => {
            lemma_instr(s, i, y);
            lemma_at_index(s, i, r_item(x), 0);
            assert(r_item(x)[0] == instr_parts(y).0[0]);
        },
        ItemModel::Ident(n) => {
            lemma_ident(s, i, n);
            lemma_at_index(s, i, r_item(x), 0);
        },
        ItemModel::Other => {},
    }
}

proof fn lemma_body(s: Seq<char>, i: int, b: Seq<ItemModel>, acc: Seq<ItemModel>)
    requires
        at(s, i, r_body(b)),
        valid_body(b),
        follows(s, i + r_body(b).len()),
        i + r_body(b).len() < s.len(),
        s[i + r_body(b).len()] == ')',
    ensures
        body(s, i, acc) == Ok::<(int, Seq<ItemModel>), crate::parse::ParseError>(
            (i + r_body(b).len(), acc + b),
        ),
        b.len() > 0 ==> good_start(r_body(b)) && s[i] != '(',
    decreases b.len(),
{
    if b.len() == 0 {
        assert(acc + b =~= acc);
    } else {
        let rest = b.drop_first();
        let j = i + r_item(b[0]).len();
        lemma_at_split(s, i, r_item(b[0]), r_body(rest));
        assert(valid_body(rest)) by {
            assert forall|k: int| 0 <= k < rest.len() implies valid_item(#[trigger] rest[k]) by {
                assert(rest[k] == b[k + 1]);
            }
        }
        assert(valid_item(b[0]));
        lemma_body(s, j, rest, acc.push(b[0]));
        if rest.len() > 0 {
            lemma_follows(s, j, r_body(rest));
        }
        lemma_item(s, i, b[0], acc);
        assert(acc.push(b[0]) + rest =~= acc + b);
        assert(r_body(b)[0] == r_item(b[0])[0]);
        assert(r_body(b)[1] == r_item(b[0])[1]);
    }
}

pub open spec fn r_func(f: FuncModel) -> Seq<char> {
    r_head(Word::Func) + r_ident(f.name) + r_params(f.params) + r_result(f.result) + r_body(f.body)
        + r_close()
}

pub open spec fn valid_func(f: FuncModel) -> bool {
    valid_name(f.name) && valid_params(f.params) && valid_body(f.body)
}

proof fn lemma_func(s: Seq<char>, i: int, f: FuncModel)
    requires
        at(s, i, r_func(f)),
        valid_func(f),
        follows(s, i + r_func(f).len()),
    ensures
        func(s, i) == Ok::<(int, FuncModel), crate::parse::ParseError>((i + r_func(f).len(), f)),
        opens(s, i, Word::Func),
        !opens(s, i, Word::Export),
        good_start(r_func(f)),
{
    let h = r_head(Word::Func);
    let id = r_ident(f.name);
    let ps = r_params(f.params);
    let rs = r_result(f.result);
    let bd = r_body(f.body);
    let cl = r_close();
    lemma_at_split(s, i, h + id + ps + rs + bd, cl);
    lemma_at_split(s, i, h + id + ps + rs, bd);
    lemma_at_split(s, i, h + id + ps, rs);
    lemma_at_split(s, i, h + id, ps);
    lemma_at_split(s, i, h, id);
    let p1 = i + h.len() + id.len();
    let p2 = p1 + ps.len();
    let p3 = p2 + rs.len();
    let p4 = p3 + bd.len();
    lemma_char_tok(s, p4, ')', Expected::Close);
    lemma_follows(s, p4, cl);
    lemma_body(s, p3, f.body, Seq::empty());
    assert(Seq::<ItemModel>::empty() + f.body =~= f.body);
    if f.body.len() > 0 {
        lemma_follows(s, p3, bd);
    }
    if f.result is None {
        assert(!opens(s, p3, Word::Result));
    }
    lemma_result(s, p2, f.result);
    if f.result is Some {
        lemma_follows(s, p2, rs);
    }
    lemma_params(s, p1, f.params, Seq::empty());
    assert(Seq::<(Seq<char>, ValType)>::empty() + f.params =~= f.params);
    if f.params.len() > 0 {
        lemma_follows(s, p1, ps);
    }
    lemma_at_index(s, i + h.len(), id, 0);
    lemma_ident(s, i + h.len(), f.name);
    lemma_follows(s, i + h.len(), id);
    lemma_head(s, i, Word::Func);
    assert(r_func(f)[0] == '(' && r_func(f)[1] == ' ');
}

pub open spec fn r_string(t: Seq<char>) -> Seq<char> {
    tok(seq!['"'] + t + seq!['"'])
}

/// Text that a string literal can hold: no double quote.
pub open spec fn valid_string(t: Seq<char>) -> bool {
    forall|k: int| 0 <= k < t.len() ==> #[trigger] t[k] != '"'
}

proof fn lemma_quote_run(s: Seq<char>, a: int, b: int)
    requires
        0 <= a <= b < s.len(),
        forall|k: int| a <= k < b ==> #[trigger] s[k] != '"',
        s[b] == '"',
    ensures
        quote_at(s, a) == Some(b),
    decreases b - a,
{
    if a < b {
        lemma_quote_run(s, a + 1, b);
    }
}

proof fn lemma_string(s: Seq<char>, i: int, t: Seq<char>)
    requires
        at(s, i, r_string(t)),
        valid_string(t),
        follows(s, i + r_string(t).len()),
    ensures
        string(s, i) == Ok::<(int, Seq<char>), crate::parse::ParseError>(
            (i + r_string(t).len(), t),
        ),
{
    let r = r_string(t);
    let q = i + 1 + t.len();
    lemma_at_index(s, i, r, 0);
    assert forall|k: int| i + 1 <= k < q implies #[trigger] s[k] != '"' by {
        lemma_at_index(s, i, r, k - i);
        assert(r[k - i] == t[k - i - 1]);
    }
    lemma_at_index(s, i, r, t.len() + 1int);
    lemma_at_index(s, i, r, t.len() + 2int);
    lemma_quote_run(s, i + 1, q);
    assert(s.subrange(i + 1, q) =~= t) by {
        assert forall|k: int| 0 <= k < t.len() implies s.subrange(i + 1, q)[k] == t[k] by {
            lemma_at_index(s, i, r, k + 1);
        }
    }
    assert(string_at(s, i) == Some((q + 1, t)));
    lemma_skip_one(s, q + 1);
}

pub open spec fn r_export(e: ExportModel) -> Seq<char> {
    r_head(Word::Export) + r_string(e.export_name) + tok(seq!['(']) + tok(word(Word::Func))
        + r_ident(e.ident) + r_close() + r_close()
}

pub open spec fn valid_export(e: ExportModel) -> bool {
    valid_string(e.export_name) && valid_name(e.ident) && e.ty == ExportType::Func
}

proof fn lemma_export(s: Seq<char>, i: int, e: ExportModel)
    requires
        at(s, i, r_export(e)),
        valid_export(e),
        follows(s, i + r_export(e).len()),
    ensures
        export(s, i) == Ok::<(int, ExportModel), crate::parse::ParseError>(
            (i + r_export(e).len(), e),
        ),
        opens(s, i, Word::Export),
        !opens(s, i, Word::Func),
        good_start(r_export(e)),
{
    let h = r_head(Word::Export);
    let st = r_string(e.export_name);
    let op = tok(seq!['(']);
    let kw = tok(word(Word::Func));
    let id = r_ident(e.ident);
    let cl = r_close();
    lemma_at_split(s, i, h + st + op + kw + id + cl, cl);
    lemma_at_split(s, i, h + st + op + kw + id, cl);
    lemma_at_split(s, i, h + st + op + kw, id);
    lemma_at_split(s, i, h + st + op, kw);
    lemma_at_split(s, i, h + st, op);
    lemma_at_split(s, i, h, st);
    let p1 = i + h.len() + st.len();
    let p2 = p1 + 2;
    let p3 = p2 + kw.len();
    let p4 = p3 + id.len();
    let p5 = p4 + 2;
    lemma_char_tok(s, p5, ')', Expected::Close);
    lemma_follows(s, p5, cl);
    lemma_char_tok(s, p4, ')', Expected::Close);
    lemma_follows(s, p4, cl);
    lemma_ident(s, p3, e.ident);
    lemma_at_index(s, p3, id, 0);
    lemma_follows(s, p3, id);
    lemma_words(Word::Func, Word::Func);
    lemma_keyword(s, p2, word(Word::Func));
    lemma_at_index(s, p2, kw, 0);
    lemma_follows(s, p2, kw);
    assert(export_kind(s, p2) == Ok::<(int, ExportType), crate::parse::ParseError>(
        (p3, ExportType::Func),
    ));
    lemma_char_tok(s, p1, '(', Expected::Open);
    lemma_at_index(s, p1, op, 0);
    lemma_at_index(s, p1, op, 1);
    lemma_string(s, i + h.len(), e.export_name);
    lemma_at_index(s, i + h.len(), st, 0);
    lemma_follows(s, i + h.len(), st);
    lemma_head(s, i, Word::Export);
    assert(r_export(e)[0] == '(' && r_export(e)[1] == ' ');
}

pub open spec fn r_funcs(fs: Seq<FuncModel>) -> Seq<char>
    decreases fs.len(),
{
    if fs.len() == 0 {
        Seq::empty()
    } else {
        r_func(fs[0]) + r_funcs(fs.drop_first())
    }
}

pub open spec fn r_exports(xs: Seq<ExportModel>) -> Seq<char>
    decreases xs.len(),
{
    if xs.len() == 0 {
        Seq::empty()
    } else {
        r_export(xs[0]) + r_exports(xs.drop_first())
    }
}

pub open spec fn valid_funcs(fs: Seq<FuncModel>) -> bool {
    forall|k: int| 0 <= k < fs.len() ==> valid_func(#[trigger] fs[k])
}

pub open spec fn valid_exports(xs: Seq<ExportModel>) -> bool {
    forall|k: int| 0 <= k < xs.len() ==> valid_export(#[trigger] xs[k])
}

proof fn lemma_exports(s: Seq<char>, i: int, xs: Seq<ExportModel>, acc: ModuleModel)
    requires
        at(s, i, r_exports(xs)),
        valid_exports(xs),
        follows(s, i + r_exports(xs).len()),
        i + r_exports(xs).len() == s.len() || (i + r_exports(xs).len() < s.len() && s[i
            + r_exports(xs).len()] == ')'),
    ensures
        items(s, i, acc) == Ok::<(int, ModuleModel), crate::parse::ParseError>(
            (i + r_exports(xs).len(), ModuleModel { funcs: acc.funcs, exports: acc.exports + xs }),
        ),
        xs.len() > 0 ==> good_start(r_exports(xs)) && opens(s, i, Word::Export) && !opens(
            s,
            i,
            Word::Func,
        ),
    decreases xs.len(),
{
    if xs.len() == 0 {
        assert(acc.exports + xs =~= acc.exports);
    } else {
        let rest = xs.drop_first();
        let j = i + r_export(xs[0]).len();
        lemma_at_split(s, i, r_export(xs[0]), r_exports(rest));
        assert(valid_exports(rest)) by {
            assert forall|k: int| 0 <= k < rest.len() implies valid_export(#[trigger] rest[k]) by {
                assert(rest[k] == xs[k + 1]);
            }
        }
        assert(valid_export(xs[0]));
        let acc2 = ModuleModel { funcs: acc.funcs, exports: acc.exports.push(xs[0]) };
        lemma_exports(s, j, rest, acc2);
        if rest.len() > 0 {
            lemma_follows(s, j, r_exports(rest));
        }
        lemma_export(s, i, xs[0]);
        assert(acc.exports.push(xs[0]) + rest =~= acc.exports + xs);
        assert(r_exports(xs)[0] == r_export(xs[0])[0]);
        assert(r_exports(xs)[1] == r_export(xs[0])[1]);
    }
}

proof fn lemma_funcs(s: Seq<char>, i: int, fs: Seq<FuncModel>, acc: ModuleModel)
    requires
        at(s, i, r_funcs(fs)),
        valid_funcs(fs),
        follows(s, i + r_funcs(fs).len()),
        !opens(s, i + r_funcs(fs).len(), Word::Func),
    ensures
        items(s, i, acc) == items(
            s,
            i + r_funcs(fs).len(),
            ModuleModel { funcs: acc.funcs + fs, exports: acc.exports },
        ),
        fs.len() > 0 ==> good_start(r_funcs(fs)),
    decreases fs.len(),
{
    if fs.len() == 0 {
        assert(acc.funcs + fs =~= acc.funcs);
    } else {
        let rest = fs.drop_first();
        let j = i + r_func(fs[0]).len();
        lemma_at_split(s, i, r_func(fs[0]), r_funcs(rest));
        assert(valid_funcs(rest)) by {
            assert forall|k: int| 0 <= k < rest.len() implies valid_func(#[trigger] rest[k]) by {
                assert(rest[k] == fs[k + 1]);
            }
        }
        assert(valid_func(fs[0]));
        let acc2 = ModuleModel { funcs: acc.funcs.push(fs[0]), exports: acc.exports };
        lemma_funcs(s, j, rest, acc2);
        if rest.len() > 0 {
            lemma_follows(s, j, r_funcs(rest));
        }
        lemma_func(s, i, fs[0]);
        assert(acc.funcs.push(fs[0]) + rest =~= acc.funcs + fs);
        assert(r_funcs(fs)[0] == r_func(fs[0])[0]);
        assert(r_funcs(fs)[1] == r_func(fs[0])[1]);
    }
}

/// The canonical text of a module: one space after every token, functions
/// first, then exports.
pub open spec fn render(m: ModuleModel) -> Seq<char> {
    r_head(Word::Module) + r_funcs(m.funcs) + r_exports(m.exports) + r_close()
}

/// A module that has a text: names of identifier characters, at least one;
/// export names without a double quote; bodies of instructions and
/// identifiers.
pub open spec fn printable(m: ModuleModel) -> bool {
    valid_funcs(m.funcs) && valid_exports(m.exports)
}

/// The rendering of `m` stands at `p`, and only insignificant text comes
/// before and after it.
#[verifier::rlimit(40)]
proof fn lemma_module_at(s: Seq<char>, p: int, m: ModuleModel)
    requires
        printable(m),
        at(s, p, render(m)),
        skip(s, 0) == p,
        skip(s, p + render(m).len() - 1) == s.len(),
    ensures
        parse_module(s) == Ok::<ModuleModel, crate::parse::ParseError>(m),
{
    let h = r_head(Word::Module);
    let fr = r_funcs(m.funcs);
    let xr = r_exports(m.exports);
    let cl = r_close();
    lemma_at_split(s, p, h + fr + xr, cl);
    lemma_at_split(s, p, h + fr, xr);
    lemma_at_split(s, p, h, fr);
    let p1 = p + h.len();
    let p2 = p1 + fr.len();
    let p3 = p2 + xr.len();
    lemma_at_index(s, p3, cl, 0);
    lemma_at_index(s, p3, cl, 1);
    assert(token(s, p3, ')', Expected::Close) == Ok::<int, crate::parse::ParseError>(
        s.len() as int,
    ));
    assert(follows(s, p3));
    let empty = ModuleModel { funcs: Seq::empty(), exports: Seq::empty() };
    let mid = ModuleModel { funcs: Seq::empty() + m.funcs, exports: Seq::empty() };
    lemma_exports(s, p2, m.exports, mid);
    if m.exports.len() > 0 {
        lemma_follows(s, p2, xr);
    }
    lemma_funcs(s, p1, m.funcs, empty);
    if m.funcs.len() > 0 {
        lemma_follows(s, p1, fr);
    }
    lemma_head(s, p, Word::Module);
    assert(Seq::<FuncModel>::empty() + m.funcs =~= m.funcs);
    assert(Seq::<ExportModel>::empty() + m.exports =~= m.exports);
    assert(items(s, p1, empty) == Ok::<(int, ModuleModel), crate::parse::ParseError>((p3, m)));
}

proof fn lemma_render_start(m: ModuleModel)
    ensures
        good_start(render(m)),
        render(m)[render(m).len() - 2] == ')',
        render(m)[render(m).len() - 1] == ' ',
{
}

/// Parsing the rendering of a printable module succeeds and gives that
/// module back, so with as many functions and exports as the text declares.
pub proof fn lemma_round_trip(m: ModuleModel)
    requires
        printable(m),
    ensures
        parse_module(render(m)) == Ok::<ModuleModel, crate::parse::ParseError>(m),
        parse_module(render(m))->Ok_0.funcs.len() == m.funcs.len(),
        parse_module(render(m))->Ok_0.exports.len() == m.exports.len(),
{
    let none = Seq::<Seq<char>>::empty();
    lemma_gaps_around(m, none, none);
    assert(gap_of(none) =~= Seq::<char>::empty());
    assert(gap_of(none) + render(m) + gap_of(none) =~= render(m));
}

/// A piece of insignificant text: one whitespace character, a line comment
/// with its newline, or a block comment.
pub open spec fn gap_piece(p: Seq<char>) -> bool {
    (p.len() == 1 && is_space(p[0])) || (p.len() >= 3 && p[0] == ';' && p[1] == ';' && p[p.len()
        - 1] == '\n' && forall|k: int| 2 <= k < p.len() - 1 ==> #[trigger] p[k] != '\n') || (p.len()
        >= 4 && p[0] == '(' && p[1] == ';' && p[p.len() - 2] == ';' && p[p.len() - 1] == ')'
        && forall|k: int| 2 <= k < p.len() - 2 ==> !(#[trigger] p[k] == ';' && p[k + 1] == ')'))
}

pub open spec fn gap_of(ps: Seq<Seq<char>>) -> Seq<char>
    decreases ps.len(),
{
    if ps.len() == 0 {
        Seq::empty()
    } else {
        ps[0] + gap_of(ps.drop_first())
    }
}

pub open spec fn valid_gap(ps: Seq<Seq<char>>) -> bool {
    forall|k: int| 0 <= k < ps.len() ==> gap_piece(#[trigger] ps[k])
}

proof fn lemma_line_run(s: Seq<char>, a: int, b: int)
    requires
        0 <= a <= b < s.len(),
        forall|k: int| a <= k < b ==> #[trigger] s[k] != '\n',
        s[b] == '\n',
    ensures
        line_end(s, a) == b + 1,
    decreases b - a,
{
    if a < b {
        lemma_line_run(s, a + 1, b);
    }
}

proof fn lemma_block_run(s: Seq<char>, a: int, b: int)
    requires
        0 <= a <= b,
        b + 1 < s.len(),
        forall|k: int| a <= k < b ==> !(#[trigger] s[k] == ';' && s[k + 1] == ')'),
        s[b] == ';',
        s[b + 1] == ')',
    ensures
        block_close(s, a) == Some(b + 2),
    decreases b - a,
{
    if a < b {
        lemma_block_run(s, a + 1, b);
    }
}

proof fn lemma_skip_piece(s: Seq<char>, i: int, p: Seq<char>)
    requires
        at(s, i, p),
        gap_piece(p),
    ensures
        skip(s, i) == skip(s, i + p.len()),
{
    let l = p.len() as int;
    lemma_at_index(s, i, p, 0);
    if l == 1 && is_space(p[0]) {
    } else if l >= 3 && p[0] == ';' && p[1] == ';' && p[l - 1] == '\n' {
        lemma_at_index(s, i, p, 1);
        assert forall|k: int| i + 2 <= k < i + l - 1 implies #[trigger] s[k] != '\n' by {
            lemma_at_index(s, i, p, k - i);
        }
        lemma_at_index(s, i, p, l - 1);
        lemma_line_run(s, i + 2, i + l - 1);
    } else {
        lemma_at_index(s, i, p, 1);
        assert forall|k: int| i + 2 <= k < i + l - 2 implies !(#[trigger] s[k] == ';' && s[k + 1]
            == ')') by {
            lemma_at_index(s, i, p, k - i);
            lemma_at_index(s, i, p, k + 1 - i);
        }
        lemma_at_index(s, i, p, l - 2);
        lemma_at_index(s, i, p, l - 1);
        lemma_block_run(s, i + 2, i + l - 2);
    }
}

/// `skip` passes over a whole gap and stops at the token that follows it.
proof fn lemma_skip_gap(s: Seq<char>, i: int, ps: Seq<Seq<char>>)
    requires
        at(s, i, gap_of(ps)),
        valid_gap(ps),
        follows(s, i + gap_of(ps).len()),
    ensures
        skip(s, i) == i + gap_of(ps).len(),
    decreases ps.len(),
{
    if ps.len() == 0 {
        if i < s.len() {
            assert(comment_end(s, i) is None);
        }
    } else {
        let rest = ps.drop_first();
        lemma_at_split(s, i, ps[0], gap_of(rest));
        assert(valid_gap(rest)) by {
            assert forall|k: int| 0 <= k < rest.len() implies gap_piece(#[trigger] rest[k]) by {
                assert(rest[k] == ps[k + 1]);
            }
        }
        assert(gap_piece(ps[0]));
        lemma_skip_piece(s, i, ps[0]);
        lemma_skip_gap(s, i + ps[0].len(), rest);
    }
}

/// Whitespace and comments before and after the rendering of a printable
/// module do not change what the parser gives: the module itself.
pub proof fn lemma_gaps_around(m: ModuleModel, before: Seq<Seq<char>>, after: Seq<Seq<char>>)
    requires
        printable(m),
        valid_gap(before),
        valid_gap(after),
    ensures
        parse_module(gap_of(before) + render(m) + gap_of(after)) == Ok::<
            ModuleModel,
            crate::parse::ParseError,
        >(m),
{
    let g1 = gap_of(before);
    let r = render(m);
    let g2 = gap_of(after);
    let s = g1 + r + g2;
    assert(at(s, 0, s)) by {
        assert(s.subrange(0, s.len() as int) =~= s);
    }
    lemma_at_split(s, 0, g1 + r, g2);
    lemma_at_split(s, 0, g1, r);
    lemma_render_start(m);
    lemma_follows(s, g1.len() as int, r);
    lemma_skip_gap(s, 0, before);
    let e = (g1.len() + r.len()) as int;
    assert(follows(s, s.len() as int));
    lemma_skip_gap(s, e, after);
    lemma_at_index(s, g1.len() as int, r, r.len() - 1);
    assert(skip(s, e - 1) == skip(s, e));
    lemma_module_at(s, g1.len() as int, m);
}

/// The text of a printable module without its closing parenthesis.
pub open spec fn render_unclosed(m: ModuleModel) -> Seq<char> {
    r_head(Word::Module) + r_funcs(m.funcs) + r_exports(m.exports)
}

#[verifier::rlimit(40)]
proof fn lemma_unclosed_at(s: Seq<char>, p: int, m: ModuleModel)
    requires
        printable(m),
        at(s, p, render_unclosed(m)),
        skip(s, 0) == p,
        s.len() == p + render_unclosed(m).len(),
    ensures
        parse_module(s) == Err::<ModuleModel, crate::parse::ParseError>(
            crate::parse::err(
                s.len() as int,
                crate::parse::ParseErrorKind::Expected(Expected::Close),
            ),
        ),
{
    let h = r_head(Word::Module);
    let fr = r_funcs(m.funcs);
    let xr = r_exports(m.exports);
    lemma_at_split(s, p, h + fr, xr);
    lemma_at_split(s, p, h, fr);
    let p1 = p + h.len();
    let p2 = p1 + fr.len();
    assert(follows(s, s.len() as int));
    let empty = ModuleModel { funcs: Seq::empty(), exports: Seq::empty() };
    let mid = ModuleModel { funcs: Seq::empty() + m.funcs, exports: Seq::empty() };
    lemma_exports(s, p2, m.exports, mid);
    if m.exports.len() > 0 {
        lemma_follows(s, p2, xr);
    }
    lemma_funcs(s, p1, m.funcs, empty);
    if m.funcs.len() > 0 {
        lemma_follows(s, p1, fr);
    }
    lemma_head(s, p, Word::Module);
    assert(Seq::<FuncModel>::empty() + m.funcs =~= m.funcs);
    assert(Seq::<ExportModel>::empty() + m.exports =~= m.exports);
    assert(items(s, p1, empty) == Ok::<(int, ModuleModel), crate::parse::ParseError>(
        (s.len() as int, m),
    ));
}

/// A module text whose closing parenthesis is missing, after any whitespace
/// and comments, fails with a syntax error at the end of the input, where the
/// parenthesis was expected.
pub proof fn lemma_unclosed_module(m: ModuleModel, before: Seq<Seq<char>>)
    requires
        printable(m),
        valid_gap(before),
    ensures
        parse_module(gap_of(before) + render_unclosed(m)) == Err::<
            ModuleModel,
            crate::parse::ParseError,
        >(
            crate::parse::err(
                (gap_of(before) + render_unclosed(m)).len() as int,
                crate::parse::ParseErrorKind::Expected(Expected::Close),
            ),
        ),
{
    let g1 = gap_of(before);
    let r = render_unclosed(m);
    let s = g1 + r;
    assert(at(s, 0, s)) by {
        assert(s.subrange(0, s.len() as int) =~= s);
    }
    lemma_at_split(s, 0, g1, r);
    let h = r_head(Word::Module);
    lemma_at_split(s, g1.len() as int, h + r_funcs(m.funcs), r_exports(m.exports));
    lemma_at_split(s, g1.len() as int, h, r_funcs(m.funcs));
    assert(good_start(h));
    lemma_follows(s, g1.len() as int, h);
    lemma_skip_gap(s, 0, before);
    lemma_unclosed_at(s, g1.len() as int, m);
}

} // verus!
