//! Properties that relate the parser, the resolver and the encoder.
use vstd::prelude::*;
use vstd::utf8::encode_utf8;
use crate::ast::{ExportModel, FuncModel, Instr, ItemModel, ModuleModel, ValType};
use crate::compiler::{CompileError, compile_text};
use crate::encode::{
    body_resolves, code_bytes, export_record, exports_resolve, func_names, header, lemma_first_index,
    module_bytes, param_names, resolve, wasm_vec,
};
use crate::leb::{lemma_uleb_small, uleb};
use crate::lex::{ident_at, skip, string_at};
use crate::parse::{
    ParseError, ParseErrorKind, Expected, Word, after_head, err, items, opens, params, parse_module,
    word,
};

verus! {

/// Every binary module, whatever the module holds, starts with the magic
/// bytes `\0asm` and the version 1 as four little-endian bytes.
pub proof fn lemma_header_prefix(s: Seq<char>)
    ensures
        compile_text(s) matches Ok(b) ==> b.len() >= 8 && b.subrange(0, 8) == header(),
{
    if let Ok(m) = parse_module(s) {
        let b = module_bytes(m);
        assert(b.subrange(0, 8) =~= header());
    }
}

/// The first function of `funcs` named `name` is the one at `k`.
pub open spec fn first_named(funcs: Seq<FuncModel>, name: Seq<char>, k: int) -> bool {
    0 <= k < funcs.len() && funcs[k].name == name && forall|j: int|
        0 <= j < k ==> funcs[j].name != name
}

/// An export of the first function named by its reference encodes as the
/// length-prefixed bytes of its name, the function kind tag 0, and the
/// position of that function.
pub proof fn lemma_export_record_index(funcs: Seq<FuncModel>, e: ExportModel, k: int)
    requires
        first_named(funcs, e.ident, k),
    ensures
        export_record(funcs, e) == wasm_vec(
            encode_utf8(e.export_name).len(),
            encode_utf8(e.export_name),
        ) + seq![0x00u8] + uleb(k as nat),
{
    let names = func_names(funcs);
    lemma_first_index(names, e.ident, names.len() as int);
    assert(names[k] == e.ident);
    match resolve(names, e.ident) {
        Some(k2) => {
            assert(names[k2] == funcs[k2].name);
            if k2 < k {
                assert(funcs[k2].name != e.ident);
            } else if k2 > k {
                assert(names[k] != e.ident);
            }
        },
        None => {},
    }
}

/// An export whose reference names no function of the module fails the
/// compilation with `UnresolvedExport`, with no bytes produced.
pub proof fn lemma_undeclared_export(s: Seq<char>, x: int)
    requires
        parse_module(s) is Ok,
        0 <= x < parse_module(s)->Ok_0.exports.len(),
        forall|k: int|
            0 <= k < parse_module(s)->Ok_0.funcs.len() ==> (#[trigger] parse_module(
                s,
            )->Ok_0.funcs[k]).name != parse_module(s)->Ok_0.exports[x].ident,
    ensures
        compile_text(s) == Err::<Seq<u8>, CompileError>(CompileError::UnresolvedExport),
{
    let m = parse_module(s)->Ok_0;
    let names = func_names(m.funcs);
    lemma_first_index(names, m.exports[x].ident, names.len() as int);
    assert forall|j: int| 0 <= j < names.len() implies names[j] != m.exports[x].ident by {
        assert(names[j] == m.funcs[j].name);
    }
    assert(!exports_resolve(m));
}

/// Once every export resolves, an identifier in a body that names none of
/// its function's parameters fails the compilation with
/// `UnresolvedIdentifier`.
pub proof fn lemma_undeclared_identifier(s: Seq<char>, f: int, k: int, name: Seq<char>)
    requires
        parse_module(s) is Ok,
        exports_resolve(parse_module(s)->Ok_0),
        0 <= f < parse_module(s)->Ok_0.funcs.len(),
        0 <= k < parse_module(s)->Ok_0.funcs[f].body.len(),
        parse_module(s)->Ok_0.funcs[f].body[k] == ItemModel::Ident(name),
        forall|j: int|
            0 <= j < parse_module(s)->Ok_0.funcs[f].params.len() ==> (#[trigger] parse_module(
                s,
            )->Ok_0.funcs[f].params[j]).0 != name,
    ensures
        compile_text(s) == Err::<Seq<u8>, CompileError>(CompileError::UnresolvedIdentifier),
{
    let m = parse_module(s)->Ok_0;
    let func = m.funcs[f];
    let names = param_names(func.params);
    lemma_first_index(names, name, names.len() as int);
    assert forall|j: int| 0 <= j < names.len() implies names[j] != name by {
        assert(names[j] == func.params[j].0);
    }
    assert(!body_resolves(func));
}

/// A function whose parameters are `$p0` and `$p1`, both `i32`, and whose
/// body is `(local.get $p0) (local.get $p1) i32.add` has the instruction
/// stream `local.get 0, local.get 1, i32.add, end`.
pub proof fn lemma_add_code(f: FuncModel)
    requires
        f.params == seq![(seq!['p', '0'], ValType::I32), (seq!['p', '1'], ValType::I32)],
        f.body == seq![
            ItemModel::Instr(Instr::LocalGet),
            ItemModel::Ident(seq!['p', '0']),
            ItemModel::Instr(Instr::LocalGet),
            ItemModel::Ident(seq!['p', '1']),
            ItemModel::Instr(Instr::I32Add),
        ],
    ensures
        code_bytes(f) == seq![0x20u8, 0x00u8, 0x20u8, 0x01u8, 0x6au8, 0x0bu8],
{
    let names = param_names(f.params);
    assert(names =~= seq![seq!['p', '0'], seq!['p', '1']]);
    assert(seq!['p', '0'] != seq!['p', '1']) by {
        assert(seq!['p', '0'][1] != seq!['p', '1'][1]);
    }
    reveal_with_fuel(crate::encode::first_index, 3);
    assert(resolve(names, seq!['p', '0']) == Some(0int));
    assert(resolve(names, seq!['p', '1']) == Some(1int));
    lemma_uleb_small(0);
    lemma_uleb_small(1);
    reveal_with_fuel(crate::encode::body_bytes, 6);
    assert(code_bytes(f) =~= seq![0x20u8, 0x00u8, 0x20u8, 0x01u8, 0x6au8, 0x0bu8]);
}

/// A function form under the module root with no identifier after its
/// keyword fails there, expecting an identifier.
pub proof fn lemma_func_without_name(s: Seq<char>, i: int, acc: ModuleModel)
    requires
        opens(s, i, Word::Func),
        ident_at(s, after_head(s, i)) is None,
    ensures
        items(s, i, acc) == Err::<(int, ModuleModel), ParseError>(
            err(after_head(s, i), ParseErrorKind::Expected(Expected::Identifier)),
        ),
{
}

/// A parameter form with no identifier after its keyword fails there,
/// expecting an identifier.
pub proof fn lemma_param_without_name(
    s: Seq<char>,
    i: int,
    acc: Seq<(Seq<char>, ValType)>,
)
    requires
        opens(s, i, Word::Param),
        ident_at(s, after_head(s, i)) is None,
    ensures
        params(s, i, acc) == Err::<(int, Seq<(Seq<char>, ValType)>), ParseError>(
            err(after_head(s, i), ParseErrorKind::Expected(Expected::Identifier)),
        ),
{
}

/// An export form under the module root with no string after its keyword
/// fails there, expecting a string literal.
pub proof fn lemma_export_without_name(s: Seq<char>, i: int, acc: ModuleModel)
    requires
        opens(s, i, Word::Export),
        string_at(s, after_head(s, i)) is None,
    ensures
        items(s, i, acc) == Err::<(int, ModuleModel), ParseError>(
            err(after_head(s, i), ParseErrorKind::Expected(Expected::StringLit)),
        ),
{
    assert(word(Word::Export)[0] != word(Word::Func)[0]);
}

/// Where the string literal at `j` ends (`j` itself if none starts there).
pub open spec fn string_end(s: Seq<char>, j: int) -> int {
    match string_at(s, j) {
        Some((e, _)) => e,
        None => j,
    }
}

/// An export form under the module root whose name is not followed by a
/// parenthesised target fails after the name, expecting `(`.
pub proof fn lemma_export_without_target(s: Seq<char>, i: int, acc: ModuleModel)
    requires
        opens(s, i, Word::Export),
        string_at(s, after_head(s, i)) is Some,
        !(0 <= skip(s, string_end(s, after_head(s, i))) < s.len() && s[skip(
            s,
            string_end(s, after_head(s, i)),
        )] == '('),
    ensures
        items(s, i, acc) == Err::<(int, ModuleModel), ParseError>(
            err(
                skip(s, string_end(s, after_head(s, i))),
                ParseErrorKind::Expected(Expected::Open),
            ),
        ),
{
    assert(word(Word::Export)[0] != word(Word::Func)[0]);
}

} // verus!
