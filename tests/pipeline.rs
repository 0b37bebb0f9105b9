use watasm::ast::{Export, ExportType, Expr, Func, Instr, Module, ValType};
use watasm::compiler::{compile_source, CompileError};
use watasm::encode::{compile, EncodeError};
use watasm::parse::{module, Expected, ParseErrorKind};

const ADD: &str = "(module
  (func $add (param $p0 i32) (param $p1 i32) (result i32)
    (local.get $p0) (local.get $p1) i32.add)
  (export \"add\" (func $add)))";

const ADD_WASM: [u8; 41] = [
    0x00, 0x61, 0x73, 0x6d, 0x01, 0x00, 0x00, 0x00, // header
    0x01, 0x07, 0x01, 0x60, 0x02, 0x7f, 0x7f, 0x01, 0x7f, // types
    0x03, 0x02, 0x01, 0x00, // functions
    0x07, 0x07, 0x01, 0x03, 0x61, 0x64, 0x64, 0x00, 0x00, // exports
    0x0a, 0x09, 0x01, 0x07, 0x00, 0x20, 0x00, 0x20, 0x01, 0x6a, 0x0b, // code
];

#[test]
fn add_module_encodes_exactly() {
    let bytes = compile_source(ADD).unwrap();
    assert_eq!(bytes, ADD_WASM.to_vec());
}

#[test]
fn add_code_stream() {
    let bytes = compile_source(ADD).unwrap();
    let code = &bytes[bytes.len() - 6..];
    assert_eq!(code, &[0x20, 0x00, 0x20, 0x01, 0x6a, 0x0b]);
}

#[test]
fn flat_body_encodes_like_folded_one() {
    let flat = "(module (func $add (param $p0 i32) (param $p1 i32) (result i32) \
                local.get $p0 local.get $p1 i32.add) (export \"add\" (func $add)))";
    assert_eq!(compile_source(flat).unwrap(), ADD_WASM.to_vec());
}

#[test]
fn export_record_uses_declaration_position() {
    let src = "(module (func $a) (func $b) (func $add) (export \"add\" (func $add)))";
    let bytes = compile_source(src).unwrap();
    let record = [0x03, 0x61, 0x64, 0x64, 0x00, 0x02];
    assert!(bytes.windows(record.len()).any(|w| w == record));
}

#[test]
fn header_is_fixed() {
    for src in ["(module)", ADD, "(module (func $f (result f64)))"] {
        let bytes = compile_source(src).unwrap();
        assert_eq!(&bytes[..8], &[0x00, 0x61, 0x73, 0x6d, 0x01, 0x00, 0x00, 0x00]);
    }
}

#[test]
fn empty_module_has_four_empty_sections() {
    let bytes = compile_source("(module)").unwrap();
    assert_eq!(
        bytes,
        vec![
            0x00, 0x61, 0x73, 0x6d, 0x01, 0x00, 0x00, 0x00, 0x01, 0x01, 0x00, 0x03, 0x01, 0x00,
            0x07, 0x01, 0x00, 0x0a, 0x01, 0x00
        ]
    );
}

#[test]
fn no_result_and_value_type_codes() {
    let src = "(module (func $f (param $a f64) (param $b f32) (param $c i64)))";
    let bytes = compile_source(src).unwrap();
    assert_eq!(&bytes[8..17], &[0x01, 0x07, 0x01, 0x60, 0x03, 0x7c, 0x7d, 0x7e, 0x00]);
}

#[test]
fn undeclared_export_fails() {
    let src = "(module (func $f) (export \"g\" (func $g)))";
    assert_eq!(compile_source(src), Err(CompileError::UnresolvedExport));
}

#[test]
fn undeclared_identifier_fails() {
    let src = "(module (func $f (param $a i32) local.get $b))";
    assert_eq!(compile_source(src), Err(CompileError::UnresolvedIdentifier));
}

#[test]
fn duplicate_names_resolve_to_first() {
    let src = "(module (func $f (param $a i32) (param $a i64) local.get $a) \
               (func $f) (export \"f\" (func $f)))";
    let bytes = compile_source(src).unwrap();
    let export = [0x01, 0x66, 0x00, 0x00];
    assert!(bytes.windows(export.len()).any(|w| w == export));
    let code = [0x20, 0x00, 0x0b];
    assert!(bytes.windows(code.len()).any(|w| w == code));
}

#[test]
fn large_index_takes_two_bytes() {
    let mut src = String::from("(module (func $f");
    for k in 0..130 {
        src.push_str(&format!(" (param $p{} i32)", k));
    }
    src.push_str(" local.get $p129))");
    let bytes = compile_source(&src).unwrap();
    let tail = &bytes[bytes.len() - 4..];
    assert_eq!(tail, &[0x20, 0x81, 0x01, 0x0b]);
}

#[test]
fn parse_counts_forms() {
    let src = "(module (func $a) (export \"a\" (func $a)) (func $b (param $x i32)) \
               (export \"b\" (func $b)) (export \"c\" (func $a)))";
    let m = module(src).unwrap();
    assert_eq!(m.funcs.len(), 2);
    assert_eq!(m.exports.len(), 3);
    assert_eq!(m.funcs[1].name, "b");
    assert_eq!(m.funcs[1].params[0].0, "x");
    assert_eq!(m.exports[1].export_name, "b");
    assert_eq!(m.exports[2].ident, "a");
}

#[test]
fn parse_add_tree() {
    let m = module(ADD).unwrap();
    let f = &m.funcs[0];
    assert_eq!(f.name, "add");
    assert!(matches!(f.result, Some(ValType::I32)));
    assert_eq!(f.body.len(), 5);
    assert!(matches!(f.body[0], Expr::Instr(Instr::LocalGet)));
    assert!(matches!(&f.body[1], Expr::Ident(n) if n == "p0"));
    assert!(matches!(f.body[4], Expr::Instr(Instr::I32Add)));
}

#[test]
fn comments_and_whitespace_do_not_matter() {
    let spaced = ";; leading line comment
  (;block;) ( module (; inside ;)
  (func   $add ;; name
     (param $p0 i32)(param $p1 i32)
     (result i32)
     ( local.get $p0 )(;x;)(local.get $p1)
     i32.add )
  (export \"add\"(func $add)) )
  ;; trailing without newline";
    assert_eq!(compile_source(spaced).unwrap(), ADD_WASM.to_vec());
}

#[test]
fn unbalanced_parenthesis_is_syntax_error() {
    let src = "(module (func $f)";
    match compile_source(src) {
        Err(CompileError::Syntax(e)) => {
            assert!(e.pos <= src.chars().count());
            assert_eq!(e.kind, ParseErrorKind::Expected(Expected::Close));
        }
        other => panic!("unexpected {:?}", other),
    }
}

#[test]
fn missing_function_name_is_syntax_error() {
    let src = "(module (func (param $x i32)))";
    let e = module(src).unwrap_err();
    assert_eq!(e.pos, 14);
    assert_eq!(e.kind, ParseErrorKind::Expected(Expected::Identifier));
}

#[test]
fn missing_param_name_is_syntax_error() {
    let src = "(module (func $f (param i32)))";
    let e = module(src).unwrap_err();
    assert_eq!(e.pos, 24);
    assert_eq!(e.kind, ParseErrorKind::Expected(Expected::Identifier));
}

#[test]
fn missing_export_name_is_syntax_error() {
    let src = "(module (export (func $f)))";
    let e = module(src).unwrap_err();
    assert_eq!(e.pos, 16);
    assert_eq!(e.kind, ParseErrorKind::Expected(Expected::StringLit));
}

#[test]
fn unknown_instruction() {
    let e = module("(module (func $f i32.sub))").unwrap_err();
    assert_eq!(e.pos, 17);
    assert_eq!(e.kind, ParseErrorKind::UnknownInstruction);
}

#[test]
fn unknown_value_type() {
    let e = module("(module (func $f (param $x i16)))").unwrap_err();
    assert_eq!(e.kind, ParseErrorKind::UnknownValType);
}

#[test]
fn unexpected_form_under_root() {
    let e = module("(module (memory 1))").unwrap_err();
    assert_eq!(e.pos, 9);
    assert_eq!(e.kind, ParseErrorKind::UnexpectedForm);
}

#[test]
fn trailing_input_is_rejected() {
    let e = module("(module) x").unwrap_err();
    assert_eq!(e.pos, 9);
    assert_eq!(e.kind, ParseErrorKind::Expected(Expected::EndOfInput));
}

#[test]
fn empty_input_is_rejected() {
    let e = module("").unwrap_err();
    assert_eq!(e.pos, 0);
    assert_eq!(e.kind, ParseErrorKind::Expected(Expected::Open));
}

#[test]
fn non_ascii_in_comments_and_names() {
    let src = "(module ;; é\n (func $f) (export \"é\" (func $f)))";
    let bytes = compile_source(src).unwrap();
    let record = [0x02, 0xc3, 0xa9, 0x00, 0x00];
    assert!(bytes.windows(record.len()).any(|w| w == record));
}

#[test]
fn encoder_on_hand_built_tree() {
    let m = Module {
        funcs: vec![Func {
            name: String::from("id"),
            params: vec![(String::from("x"), ValType::I64)],
            result: Some(ValType::I64),
            body: vec![Expr::Instr(Instr::LocalGet), Expr::Ident(String::from("x"))],
        }],
        exports: vec![Export {
            export_name: String::from("id"),
            ident: String::from("id"),
            ty: ExportType::Func,
        }],
    };
    let bytes = compile(&m).unwrap();
    assert_eq!(&bytes[8..17], &[0x01, 0x06, 0x01, 0x60, 0x01, 0x7e, 0x01, 0x7e, 0x03]);
    let bad = Module {
        funcs: vec![],
        exports: vec![Export {
            export_name: String::from("id"),
            ident: String::from("id"),
            ty: ExportType::Func,
        }],
    };
    assert_eq!(compile(&bad), Err(EncodeError::UnresolvedExport));
}

const CANONICAL: &str = "( module ( func $f ( param $x i32 ) ( result i64 ) local.get $x ) \
                         ( func $g ) ( export \"f\" ( func $f ) ) ( export \"g\" ( func $g ) ) ) ";

#[test]
fn canonical_text_reads_back() {
    let m = module(CANONICAL).unwrap();
    assert_eq!(m.funcs.len(), 2);
    assert_eq!(m.exports.len(), 2);
    assert_eq!(m.funcs[0].name, "f");
    assert_eq!(m.funcs[0].params.len(), 1);
    assert!(matches!(m.funcs[0].result, Some(ValType::I64)));
    assert!(matches!(&m.funcs[0].body[1], Expr::Ident(n) if n == "x"));
    assert_eq!(m.exports[1].ident, "g");
}

#[test]
fn gaps_around_canonical_text() {
    let plain = compile_source(CANONICAL).unwrap();
    let wrapped = format!(";; head\n(; block ;)\t{}\r\n(;;) ;; tail\n", CANONICAL);
    assert_eq!(compile_source(&wrapped).unwrap(), plain);
    let m = module(&wrapped).unwrap();
    assert_eq!(m.funcs.len(), 2);
    assert_eq!(m.exports.len(), 2);
}

#[test]
fn unterminated_block_comment_is_syntax_error() {
    let e = module("(; open (module)").unwrap_err();
    assert_eq!(e.pos, 1);
    assert_eq!(e.kind, ParseErrorKind::UnexpectedForm);
}

#[test]
fn bare_token_under_root_is_unexpected_form() {
    let e = module("(module $f)").unwrap_err();
    assert_eq!(e.pos, 8);
    assert_eq!(e.kind, ParseErrorKind::UnexpectedForm);
    let e = module("(module i32.add)").unwrap_err();
    assert_eq!(e.pos, 8);
    assert_eq!(e.kind, ParseErrorKind::UnexpectedForm);
    let e = module("(module (func $f) \"x\")").unwrap_err();
    assert_eq!(e.pos, 18);
    assert_eq!(e.kind, ParseErrorKind::UnexpectedForm);
}

#[test]
fn missing_export_target_is_syntax_error() {
    let e = module("(module (func $f) (export \"f\"))").unwrap_err();
    assert_eq!(e.pos, 29);
    assert_eq!(e.kind, ParseErrorKind::Expected(Expected::Open));
}
