//! Name resolution and the binary encoder.
use vstd::prelude::*;
use vstd::slice::slice_to_vec;
use vstd::utf8::encode_utf8;
use crate::ast::{
    ExportModel, ExportType, Expr, Func, FuncModel, ItemModel, Module, ModuleModel, ValType,
    export_kind_code, funcs_model, item_model, opcode, params_model, valtype_code,
};
use crate::leb::{lemma_uleb_small, uleb, write_uleb};

verus! {

/// Why a module tree could not be encoded.
#[derive(Debug, Clone, Copy, PartialEq, Eq, Structural)]
pub enum EncodeError {
    /// An export names a function that the module does not declare.
    UnresolvedExport,
    /// A body names a parameter that its function does not declare.
    UnresolvedIdentifier,
}

/// The sections of the binary format, by their tag byte.
#[derive(Debug, Clone, Copy, PartialEq, Eq, Structural)]
pub enum Section {
    Custom,
    Type,
    Import,
    Func,
    Table,
    Memory,
    Global,
    Export,
    Start,
    Elem,
    Code,
    Data,
    DataCount,
}

pub open spec fn section_id(s: Section) -> u8 {
    match s {
        Section::Custom => 0,
        Section::Type => 1,
        Section::Import => 2,
        Section::Func => 3,
        Section::Table => 4,
        Section::Memory => 5,
        Section::Global => 6,
        Section::Export => 7,
        Section::Start => 8,
        Section::Elem => 9,
        Section::Code => 10,
        Section::Data => 11,
        Section::DataCount => 12,
    }
}

impl Section {
    /// The tag byte of the section.
    pub fn id(&self) -> (r: u8)
        ensures
            r == section_id(*self),
    {
        match self {
            Section::Custom => 0,
            Section::Type => 1,
            Section::Import => 2,
            Section::Func => 3,
            Section::Table => 4,
            Section::Memory => 5,
            Section::Global => 6,
            Section::Export => 7,
            Section::Start => 8,
            Section::Elem => 9,
            Section::Code => 10,
            Section::Data => 11,
            Section::DataCount => 12,
        }
    }
}

// ---------------------------------------------------------------------------
// Resolution: the first of `names[..n]` equal to `name`.

pub open spec fn first_index(names: Seq<Seq<char>>, name: Seq<char>, n: int) -> Option<int>
    decreases n,
{
    if n <= 0 {
        None
    } else {
        match first_index(names, name, n - 1) {
            Some(k) => Some(k),
            None => if names[n - 1] == name {
                Some(n - 1)
            } else {
                None
            },
        }
    }
}

/// The position of the first entry of `names` equal to `name`, if any.
pub open spec fn resolve(names: Seq<Seq<char>>, name: Seq<char>) -> Option<int> {
    first_index(names, name, names.len() as int)
}

pub open spec fn func_names(funcs: Seq<FuncModel>) -> Seq<Seq<char>> {
    funcs.map_values(|f: FuncModel| f.name)
}

pub open spec fn param_names(params: Seq<(Seq<char>, ValType)>) -> Seq<Seq<char>> {
    params.map_values(|p: (Seq<char>, ValType)| p.0)
}

/// The first match is an entry equal to the name with no equal entry before it,
/// and there is none exactly when no entry is equal.
pub proof fn lemma_first_index(names: Seq<Seq<char>>, name: Seq<char>, n: int)
    requires
        0 <= n <= names.len(),
    ensures
        first_index(names, name, n) matches Some(k) ==> 0 <= k < n && names[k] == name && forall|
            j: int,
        |
            0 <= j < k ==> names[j] != name,
        first_index(names, name, n) is None <==> forall|j: int| 0 <= j < n ==> names[j] != name,
    decreases n,
{
    if n > 0 {
        lemma_first_index(names, name, n - 1);
    }
}

// ---------------------------------------------------------------------------
// The bytes of each piece of the binary module.

pub open spec fn header() -> Seq<u8> {
    seq![0x00u8, 0x61u8, 0x73u8, 0x6du8, 0x01u8, 0x00u8, 0x00u8, 0x00u8]
}

/// A length-prefixed vector: the count, then the elements' bytes.
pub open spec fn wasm_vec(count: nat, payload: Seq<u8>) -> Seq<u8> {
    uleb(count) + payload
}

pub open spec fn section_bytes(id: u8, payload: Seq<u8>) -> Seq<u8> {
    seq![id] + uleb(payload.len()) + payload
}

pub open spec fn param_codes(params: Seq<(Seq<char>, ValType)>) -> Seq<u8> {
    params.map_values(|p: (Seq<char>, ValType)| valtype_code(p.1))
}

pub open spec fn result_bytes(result: Option<ValType>) -> Seq<u8> {
    match result {
        None => seq![0x00u8],
        Some(t) => seq![0x01u8, valtype_code(t)],
    }
}

/// The function-type record of a function.
pub open spec fn type_record(f: FuncModel) -> Seq<u8> {
    seq![0x60u8] + wasm_vec(f.params.len(), param_codes(f.params)) + result_bytes(f.result)
}

/// The bytes of one body item; an identifier stands for its parameter index.
pub open spec fn item_bytes(params: Seq<Seq<char>>, e: ItemModel) -> Seq<u8> {
    match e {
        ItemModel::Instr(i) => seq![opcode(i)],
        ItemModel::Ident(s) => match resolve(params, s) {
            Some(k) => uleb(k as nat),
            None => Seq::empty(),
        },
        ItemModel::Other => Seq::empty(),
    }
}

pub open spec fn item_resolves(params: Seq<Seq<char>>, e: ItemModel) -> bool {
    match e {
        ItemModel::Ident(s) => resolve(params, s) is Some,
        _ => true,
    }
}

/// A body item that the encoder knows: an instruction or an identifier.
pub open spec fn is_body_item(e: Expr) -> bool {
    e is Instr || e is Ident
}

pub open spec fn body_bytes(params: Seq<Seq<char>>, body: Seq<ItemModel>, n: int) -> Seq<u8>
    decreases n,
{
    if n <= 0 {
        Seq::empty()
    } else {
        body_bytes(params, body, n - 1) + item_bytes(params, body[n - 1])
    }
}

/// The instruction stream of a function, with its closing end marker.
pub open spec fn code_bytes(f: FuncModel) -> Seq<u8> {
    body_bytes(param_names(f.params), f.body, f.body.len() as int) + seq![0x0bu8]
}

/// The code record: its size, the empty local declarations, the code.
pub open spec fn code_record(f: FuncModel) -> Seq<u8> {
    let payload = uleb(0) + code_bytes(f);
    uleb(payload.len()) + payload
}

pub open spec fn body_resolves(f: FuncModel) -> bool {
    forall|k: int| 0 <= k < f.body.len() ==> item_resolves(param_names(f.params), #[trigger] f.body[k])
}

pub open spec fn body_well_formed(f: FuncModel) -> bool {
    forall|k: int| 0 <= k < f.body.len() ==> !(#[trigger] f.body[k] is Other)
}

/// A module the encoder accepts: every body holds instructions and identifiers only.
pub open spec fn module_well_formed(m: ModuleModel) -> bool {
    forall|k: int| 0 <= k < m.funcs.len() ==> body_well_formed(#[trigger] m.funcs[k])
}

pub open spec fn export_resolves(funcs: Seq<FuncModel>, e: ExportModel) -> bool {
    resolve(func_names(funcs), e.ident) is Some
}

pub open spec fn exports_resolve(m: ModuleModel) -> bool {
    forall|k: int| 0 <= k < m.exports.len() ==> export_resolves(m.funcs, #[trigger] m.exports[k])
}

pub open spec fn bodies_resolve(m: ModuleModel) -> bool {
    forall|k: int| 0 <= k < m.funcs.len() ==> body_resolves(#[trigger] m.funcs[k])
}

/// The export record: the length-prefixed name, the kind tag, the index.
pub open spec fn export_record(funcs: Seq<FuncModel>, e: ExportModel) -> Seq<u8> {
    let name = encode_utf8(e.export_name);
    wasm_vec(name.len(), name) + seq![export_kind_code(e.ty)] + uleb(
        resolve(func_names(funcs), e.ident)->0 as nat,
    )
}

pub open spec fn types_prefix(funcs: Seq<FuncModel>, n: int) -> Seq<u8>
    decreases n,
{
    if n <= 0 {
        Seq::empty()
    } else {
        types_prefix(funcs, n - 1) + type_record(funcs[n - 1])
    }
}

pub open spec fn indices_prefix(n: int) -> Seq<u8>
    decreases n,
{
    if n <= 0 {
        Seq::empty()
    } else {
        indices_prefix(n - 1) + uleb((n - 1) as nat)
    }
}

pub open spec fn codes_prefix(funcs: Seq<FuncModel>, n: int) -> Seq<u8>
    decreases n,
{
    if n <= 0 {
        Seq::empty()
    } else {
        codes_prefix(funcs, n - 1) + code_record(funcs[n - 1])
    }
}

pub open spec fn exports_prefix(funcs: Seq<FuncModel>, exports: Seq<ExportModel>, n: int) -> Seq<u8>
    decreases n,
{
    if n <= 0 {
        Seq::empty()
    } else {
        exports_prefix(funcs, exports, n - 1) + export_record(funcs, exports[n - 1])
    }
}

pub open spec fn type_section(m: ModuleModel) -> Seq<u8> {
    wasm_vec(m.funcs.len(), types_prefix(m.funcs, m.funcs.len() as int))
}

pub open spec fn func_section(m: ModuleModel) -> Seq<u8> {
    wasm_vec(m.funcs.len(), indices_prefix(m.funcs.len() as int))
}

pub open spec fn export_section(m: ModuleModel) -> Seq<u8> {
    wasm_vec(m.exports.len(), exports_prefix(m.funcs, m.exports, m.exports.len() as int))
}

pub open spec fn code_section(m: ModuleModel) -> Seq<u8> {
    wasm_vec(m.funcs.len(), codes_prefix(m.funcs, m.funcs.len() as int))
}

/// The binary module: header, then the type, function, export and code
/// sections in that order.
pub open spec fn module_bytes(m: ModuleModel) -> Seq<u8> {
    header() + section_bytes(1, type_section(m)) + section_bytes(3, func_section(m))
        + section_bytes(7, export_section(m)) + section_bytes(10, code_section(m))
}

// ---------------------------------------------------------------------------
// Executable encoder.

/// Prepends the count `len` to the elements already in `vec`.
pub fn into_wasm_vec(vec: &mut Vec<u8>, len: usize)
    ensures
        final(vec)@ == wasm_vec(len as nat, old(vec)@),
{
    let mut out: Vec<u8> = Vec::new();
    write_uleb(&mut out, len as u64);
    out.append(vec);
    *vec = out;
}

/// Appends the magic bytes `\0asm` and the version 1 in little-endian order.
pub fn write_magic_and_version(vec: &mut Vec<u8>)
    ensures
        final(vec)@ == old(vec)@ + header(),
{
    vec.push(0x00);
    vec.push(0x61);
    vec.push(0x73);
    vec.push(0x6d);
    vec.push(0x01);
    vec.push(0x00);
    vec.push(0x00);
    vec.push(0x00);
    assert(vec@ =~= old(vec)@ + header());
}

/// Appends a section: its tag byte, the payload length, the payload.
pub fn write_section(vec: &mut Vec<u8>, ty: Section, bytes: &Vec<u8>)
    ensures
        final(vec)@ == old(vec)@ + section_bytes(section_id(ty), bytes@),
{
    vec.push(ty.id());
    write_uleb(vec, bytes.len() as u64);
    let mut copy = slice_to_vec(bytes.as_slice());
    vec.append(&mut copy);
    assert(vec@ =~= old(vec)@ + section_bytes(section_id(ty), bytes@));
}

/// Appends an export record for the function of index `idx`.
pub fn write_export(vec: &mut Vec<u8>, name: &str, ty: ExportType, idx: usize)
    ensures
        final(vec)@ == old(vec)@ + wasm_vec(encode_utf8(name@).len(), encode_utf8(name@)) + seq![
            export_kind_code(ty),
        ] + uleb(idx as nat),
{
    let mut name_bytes = slice_to_vec(name.as_bytes());
    let n = name_bytes.len();
    into_wasm_vec(&mut name_bytes, n);
    vec.append(&mut name_bytes);
    vec.push(ty.code());
    write_uleb(vec, idx as u64);
    assert(vec@ =~= old(vec)@ + wasm_vec(encode_utf8(name@).len(), encode_utf8(name@)) + seq![
        export_kind_code(ty),
    ] + uleb(idx as nat));
}

/// Appends the function-type record of `func`.
pub fn write_type(vec: &mut Vec<u8>, func: &Func)
    ensures
        final(vec)@ == old(vec)@ + type_record(func@),
{
    let ghost ps = func@.params;
    vec.push(0x60);
    let mut types: Vec<u8> = Vec::new();
    let mut i: usize = 0;
    while i < func.params.len()
        invariant
            i <= func.params@.len(),
            ps == func@.params,
            types@ =~= param_codes(ps.subrange(0, i as int)),
        decreases func.params@.len() - i,
    {
        assert(ps[i as int].1 == func.params@[i as int].1);
        types.push(func.params[i].1.code());
        i += 1;
        assert(types@ =~= param_codes(ps.subrange(0, i as int)));
    }
    assert(ps.subrange(0, i as int) =~= ps);
    into_wasm_vec(&mut types, func.params.len());
    vec.append(&mut types);
    match func.result {
        Some(t) => {
            vec.push(0x01);
            vec.push(t.code());
        },
        None => {
            vec.push(0x00);
        },
    }
    assert(vec@ =~= old(vec)@ + type_record(func@));
}

/// The position of the first function named `name`.
pub fn find_func(funcs: &Vec<Func>, name: &String) -> (r: Option<usize>)
    ensures
        r matches Some(k) ==> resolve(func_names(funcs_model(funcs@)), name@) == Some(k as int),
        r is None ==> resolve(func_names(funcs_model(funcs@)), name@) is None,
{
    let ghost names = func_names(funcs_model(funcs@));
    let mut i: usize = 0;
    while i < funcs.len()
        invariant
            i <= funcs@.len(),
            names == func_names(funcs_model(funcs@)),
            first_index(names, name@, i as int) is None,
        decreases funcs@.len() - i,
    {
        assert(names[i as int] == funcs@[i as int].name@);
        if funcs[i].name == *name {
            proof {
                lemma_first_index_extend(names, name@, i as int);
            }
            return Some(i);
        }
        i += 1;
    }
    None
}

/// The position of the first parameter named `name`.
pub fn find_param(params: &Vec<(String, ValType)>, name: &String) -> (r: Option<usize>)
    ensures
        r matches Some(k) ==> resolve(param_names(params_model(params@)), name@) == Some(k as int),
        r is None ==> resolve(param_names(params_model(params@)), name@) is None,
{
    let ghost names = param_names(params_model(params@));
    let mut i: usize = 0;
    while i < params.len()
        invariant
            i <= params@.len(),
            names == param_names(params_model(params@)),
            first_index(names, name@, i as int) is None,
        decreases params@.len() - i,
    {
        assert(names[i as int] == params@[i as int].0@);
        if params[i].0 == *name {
            proof {
                lemma_first_index_extend(names, name@, i as int);
            }
            return Some(i);
        }
        i += 1;
    }
    None
}

/// Once the first `n` names hold no match, the match is at `n` if that name is
/// equal, and stays `None` across all names otherwise.
proof fn lemma_first_index_extend(names: Seq<Seq<char>>, name: Seq<char>, n: int)
    requires
        0 <= n < names.len(),
        first_index(names, name, n) is None,
    ensures
        names[n] == name ==> resolve(names, name) == Some(n),
    decreases names.len() - n,
{
    if names[n] == name {
        lemma_first_index_stable(names, name, n + 1, names.len() as int);
    }
}

proof fn lemma_first_index_stable(names: Seq<Seq<char>>, name: Seq<char>, n: int, m: int)
    requires
        0 < n <= m <= names.len(),
        first_index(names, name, n) is Some,
    ensures
        first_index(names, name, m) == first_index(names, name, n),
    decreases m - n,
{
    if m > n {
        lemma_first_index_stable(names, name, n, m - 1);
    }
}

/// Appends the code record of `func`; fails when its body names a parameter
/// that `func` does not declare.
pub fn write_code(vec: &mut Vec<u8>, func: &Func) -> (r: Result<(), EncodeError>)
    requires
        body_well_formed(func@),
    ensures
        r is Ok <==> body_resolves(func@),
        r is Err ==> r == Err::<(), EncodeError>(EncodeError::UnresolvedIdentifier),
        r is Ok ==> final(vec)@ == old(vec)@ + code_record(func@),
        r is Err ==> final(vec)@ == old(vec)@,
{
    let ghost params = param_names(func@.params);
    let ghost body = func@.body;
    let mut locals: Vec<u8> = Vec::new();
    into_wasm_vec(&mut locals, 0);
    let mut code: Vec<u8> = Vec::new();
    let mut i: usize = 0;
    while i < func.body.len()
        invariant
            i <= func.body@.len(),
            body_well_formed(func@),
            params == param_names(func@.params),
            body == func@.body,
            code@ == body_bytes(params, body, i as int),
            forall|k: int| 0 <= k < i ==> item_resolves(params, #[trigger] body[k]),
        decreases func.body@.len() - i,
    {
        assert(body[i as int] == item_model(func.body@[i as int]));
        assert(!(body[i as int] is Other));
        match &func.body[i] {
            Expr::Instr(instr) => {
                code.push(instr.code());
            },
            Expr::Ident(ident) => {
                assert(param_names(params_model(func.params@)) == params);
                match find_param(&func.params, ident) {
                    Some(idx) => {
                        write_uleb(&mut code, idx as u64);
                    },
                    None => {
                        return Err(EncodeError::UnresolvedIdentifier);
                    },
                }
            },
            _ => {
                return Err(EncodeError::UnresolvedIdentifier);
            },
        }
        i += 1;
    }
    code.push(0x0b);
    locals.append(&mut code);
    write_uleb(vec, locals.len() as u64);
    vec.append(&mut locals);
    proof {
        lemma_uleb_small(0);
    }
    assert(vec@ =~= old(vec)@ + code_record(func@));
    Ok(())
}

/// Encodes a module tree as a binary module.
///
/// Exports are resolved first: the first export whose function is not
/// declared fails the whole encoding with `UnresolvedExport`. Otherwise a
/// body that names an undeclared parameter fails it with
/// `UnresolvedIdentifier`. Otherwise the result is exactly `module_bytes`.
pub fn compile(module: &Module) -> (r: Result<Vec<u8>, EncodeError>)
    requires
        module_well_formed(module@),
    ensures
        !exports_resolve(module@) ==> r == Err::<Vec<u8>, EncodeError>(
            EncodeError::UnresolvedExport,
        ),
        exports_resolve(module@) && !bodies_resolve(module@) ==> r == Err::<Vec<u8>, EncodeError>(
            EncodeError::UnresolvedIdentifier,
        ),
        exports_resolve(module@) && bodies_resolve(module@) ==> (r matches Ok(bytes) && bytes@
            == module_bytes(module@)),
{
    let ghost funcs = module@.funcs;
    let ghost exports = module@.exports;
    let mut export_sec: Vec<u8> = Vec::new();
    let mut i: usize = 0;
    while i < module.exports.len()
        invariant
            i <= module.exports@.len(),
            funcs == module@.funcs,
            exports == module@.exports,
            export_sec@ == exports_prefix(funcs, exports, i as int),
            forall|k: int| 0 <= k < i ==> export_resolves(funcs, #[trigger] exports[k]),
        decreases module.exports@.len() - i,
    {
        let export = &module.exports[i];
        assert(exports[i as int] == module.exports@[i as int]@);
        let idx = match export.ty {
            ExportType::Func => match find_func(&module.funcs, &export.ident) {
                Some(idx) => idx,
                None => {
                    assert(!export_resolves(funcs, exports[i as int]));
                    return Err(EncodeError::UnresolvedExport);
                },
            },
        };
        write_export(&mut export_sec, export.export_name.as_str(), export.ty, idx);
        i += 1;
    }
    assert(exports_resolve(module@));
    into_wasm_vec(&mut export_sec, module.exports.len());

    let mut func_sec: Vec<u8> = Vec::new();
    let mut type_sec: Vec<u8> = Vec::new();
    let mut code_sec: Vec<u8> = Vec::new();
    let mut j: usize = 0;
    while j < module.funcs.len()
        invariant
            j <= funcs.len(),
            funcs == module@.funcs,
            module_well_formed(module@),
            exports_resolve(module@),
            func_sec@ == indices_prefix(j as int),
            type_sec@ == types_prefix(funcs, j as int),
            code_sec@ == codes_prefix(funcs, j as int),
            forall|k: int| 0 <= k < j ==> body_resolves(#[trigger] funcs[k]),
        decreases funcs.len() - j,
    {
        let func = &module.funcs[j];
        assert(funcs[j as int] == func@);
        write_uleb(&mut func_sec, j as u64);
        write_type(&mut type_sec, func);
        assert(body_well_formed(funcs[j as int]));
        match write_code(&mut code_sec, func) {
            Ok(()) => {},
            Err(e) => {
                return Err(e);
            },
        }
        j += 1;
    }
    let funcs_len = module.funcs.len();
    into_wasm_vec(&mut func_sec, funcs_len);
    into_wasm_vec(&mut type_sec, funcs_len);
    into_wasm_vec(&mut code_sec, funcs_len);

    let mut wasm: Vec<u8> = Vec::new();
    write_magic_and_version(&mut wasm);
    write_section(&mut wasm, Section::Type, &type_sec);
    write_section(&mut wasm, Section::Func, &func_sec);
    write_section(&mut wasm, Section::Export, &export_sec);
    write_section(&mut wasm, Section::Code, &code_sec);
    assert(wasm@ =~= module_bytes(module@));
    Ok(wasm)
}

} // verus!
