//! The module tree that the parser builds and the encoder reads.
use vstd::prelude::*;

verus! {

/// A value type of the binary format.
#[derive(Debug, Clone, Copy, PartialEq, Eq, Structural)]
pub enum ValType {
    F64,
    F32,
    I64,
    I32,
}

/// The instructions that a function body may hold.
#[derive(Debug, Clone, Copy, PartialEq, Eq, Structural)]
pub enum Instr {
    LocalGet,
    I32Add,
}

/// What an export refers to.
#[derive(Debug, Clone, Copy, PartialEq, Eq, Structural)]
pub enum ExportType {
    Func,
}

/// One node of the tree: a form under the module root, or an item of a
/// function body.
#[derive(Debug)]
pub enum Expr {
    Func(Func),
    Export(Export),
    Instr(Instr),
    Ident(String),
}

/// A function: its name (used only to resolve exports), its parameters in
/// order, its optional result type and its body.
#[derive(Debug)]
pub struct Func {
    pub name: String,
    pub params: Vec<(String, ValType)>,
    pub result: Option<ValType>,
    pub body: Vec<Expr>,
}

/// An export: the external name, the name of the exported item and its kind.
#[derive(Debug)]
pub struct Export {
    pub export_name: String,
    pub ident: String,
    pub ty: ExportType,
}

/// A module: functions in declaration order (the n-th one has index n) and
/// exports in declaration order.
#[derive(Debug)]
pub struct Module {
    pub funcs: Vec<Func>,
    pub exports: Vec<Export>,
}

pub open spec fn valtype_code(t: ValType) -> u8 {
    match t {
        ValType::F64 => 0x7c,
        ValType::F32 => 0x7d,
        ValType::I64 => 0x7e,
        ValType::I32 => 0x7f,
    }
}

pub open spec fn opcode(i: Instr) -> u8 {
    match i {
        Instr::LocalGet => 0x20,
        Instr::I32Add => 0x6a,
    }
}

pub open spec fn export_kind_code(t: ExportType) -> u8 {
    match t {
        ExportType::Func => 0x00,
    }
}

impl ValType {
    /// The one-byte code of the type.
    pub fn code(&self) -> (r: u8)
        ensures
            r == valtype_code(*self),
    {
        match self {
            ValType::F64 => 0x7c,
            ValType::F32 => 0x7d,
            ValType::I64 => 0x7e,
            ValType::I32 => 0x7f,
        }
    }
}

impl Instr {
    /// The opcode byte of the instruction.
    pub fn code(&self) -> (r: u8)
        ensures
            r == opcode(*self),
    {
        match self {
            Instr::LocalGet => 0x20,
            Instr::I32Add => 0x6a,
        }
    }
}

impl ExportType {
    /// The kind tag byte of the export.
    pub fn code(&self) -> (r: u8)
        ensures
            r == export_kind_code(*self),
    {
        match self {
            ExportType::Func => 0x00,
        }
    }
}

// ---------------------------------------------------------------------------
// Mathematical models of the tree.

/// A body item: an instruction, or a reference to a parameter by name.
/// `Other` stands for a form that a body cannot hold.
pub enum ItemModel {
    Instr(Instr),
    Ident(Seq<char>),
    Other,
}

pub struct FuncModel {
    pub name: Seq<char>,
    pub params: Seq<(Seq<char>, ValType)>,
    pub result: Option<ValType>,
    pub body: Seq<ItemModel>,
}

pub struct ExportModel {
    pub export_name: Seq<char>,
    pub ident: Seq<char>,
    pub ty: ExportType,
}

pub struct ModuleModel {
    pub funcs: Seq<FuncModel>,
    pub exports: Seq<ExportModel>,
}

pub open spec fn item_model(e: Expr) -> ItemModel {
    match e {
        Expr::Instr(i) => ItemModel::Instr(i),
        Expr::Ident(s) => ItemModel::Ident(s@),
        _ => ItemModel::Other,
    }
}

pub open spec fn param_model(p: (String, ValType)) -> (Seq<char>, ValType) {
    (p.0@, p.1)
}

pub open spec fn params_model(ps: Seq<(String, ValType)>) -> Seq<(Seq<char>, ValType)> {
    ps.map_values(|p: (String, ValType)| param_model(p))
}

pub open spec fn body_model(es: Seq<Expr>) -> Seq<ItemModel> {
    es.map_values(|e: Expr| item_model(e))
}

pub open spec fn funcs_model(fs: Seq<Func>) -> Seq<FuncModel> {
    fs.map_values(|f: Func| f@)
}

pub open spec fn exports_model(es: Seq<Export>) -> Seq<ExportModel> {
    es.map_values(|e: Export| e@)
}

impl View for Func {
    type V = FuncModel;

    open spec fn view(&self) -> FuncModel {
        FuncModel {
            name: self.name@,
            params: params_model(self.params@),
            result: self.result,
            body: body_model(self.body@),
        }
    }
}

impl View for Export {
    type V = ExportModel;

    open spec fn view(&self) -> ExportModel {
        ExportModel { export_name: self.export_name@, ident: self.ident@, ty: self.ty }
    }
}

impl View for Module {
    type V = ModuleModel;

    open spec fn view(&self) -> ModuleModel {
        ModuleModel {
            funcs: funcs_model(self.funcs@),
            exports: exports_model(self.exports@),
        }
    }
}

} // verus!
