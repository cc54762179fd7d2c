//! Examples that the documentation gives, and each error the library reports.

use dex_bytecode::cli::{parse_color_when, ColorWhen};
use dex_bytecode::decoder::{decode_all, decode_one};
use dex_bytecode::encode::{encode_instruction, IndexResolve};
use dex_bytecode::hex::{parse_hex, read_hex};
use dex_bytecode::opcodes::{format_length, get_opcode_entry, Format};

#[test]
fn readme_disassemble_example() {
    let bytecode = [0x00, 0x00, 0x01, 0x21];
    let v = decode_all(&bytecode, 0).unwrap();
    assert_eq!(v.len(), 2);
    assert_eq!((v[0].offset, v[0].mnemonic, v[0].operands.as_str()), (0, "nop", ""));
    assert_eq!((v[1].offset, v[1].mnemonic, v[1].operands.as_str()), (2, "move", "v1, v2"));
}

#[test]
fn readme_decode_instruction_example() {
    let bytecode = [0x00, 0x00, 0x01, 0x21];
    let ins = decode_one(&bytecode, 2).unwrap();
    assert_eq!(ins.mnemonic(), "move");
    assert_eq!(ins.operands(), "v1, v2");
    assert_eq!(ins.length(), 2);
    assert_eq!(ins.opcode(), 0x01);
}

#[test]
fn readme_reference_operands() {
    let ins = decode_one(&[0x1a, 0x00, 0x05, 0x00], 0).unwrap();
    assert_eq!(ins.operands(), "v0, string@5");
    let ins = decode_one(&[0x6e, 0x10, 0x0a, 0x00, 0x00, 0x00], 0).unwrap();
    assert_eq!(ins.mnemonic(), "invoke-virtual");
    assert_eq!(ins.operands(), "v0, method@10");
}

#[test]
fn readme_hex_example() {
    assert_eq!(parse_hex("700001000000").unwrap(), vec![0x70, 0x00, 0x01, 0x00, 0x00, 0x00]);
    assert_eq!(parse_hex("70 00 01 00 00 00").unwrap(), vec![0x70, 0x00, 0x01, 0x00, 0x00, 0x00]);
    let v = decode_all(&parse_hex("700001000000").unwrap(), 0).unwrap();
    assert_eq!(v[0].mnemonic, "invoke-direct");
    assert_eq!(v[0].operands, "method@1");
}

#[test]
fn hex_errors() {
    assert_eq!(parse_hex("abc").unwrap_err(), "hex string must have an even number of nibbles");
    assert_eq!(parse_hex("zz").unwrap_err(), "invalid hex digit");
    assert_eq!(parse_hex("+f").unwrap(), vec![0x0f]);
    assert_eq!(parse_hex("").unwrap(), Vec::<u8>::new());
    assert_eq!(parse_hex(" \tAB\ncd ").unwrap(), vec![0xab, 0xcd]);
    assert_eq!(read_hex("\u{e9}").unwrap().unwrap_err(), "invalid hex digit");
    assert!(read_hex("a\u{e9}a").is_none());
}

#[test]
fn color_choices() {
    assert_eq!(parse_color_when("ALWAYS"), Ok(ColorWhen::Always));
    assert_eq!(parse_color_when("yes"), Ok(ColorWhen::Always));
    assert_eq!(parse_color_when("True"), Ok(ColorWhen::Always));
    assert_eq!(parse_color_when("No"), Ok(ColorWhen::Never));
    assert_eq!(parse_color_when("false"), Ok(ColorWhen::Never));
    assert_eq!(parse_color_when("auto"), Ok(ColorWhen::Auto));
    assert_eq!(parse_color_when("sometimes"), Err("must be always, never, or auto".to_string()));
    assert_eq!("never".parse::<ColorWhen>(), Ok(ColorWhen::Never));
}

#[test]
fn opcode_table_entries() {
    let e = get_opcode_entry(0x6e);
    assert_eq!(e.mnemonic, "invoke-virtual");
    assert!(e.format == Format::F35c);
    assert_eq!(format_length(e.format), 6);
    assert_eq!(format_length(get_opcode_entry(0x18).format), 10);
    assert!(get_opcode_entry(0x3e).format == Format::F00x);
}

fn enc_err(m: &str, ops: &str, branch: Option<i32>) -> String {
    encode_instruction(m, ops, &IndexResolve, branch).err().unwrap().message()
}

#[test]
fn encode_errors() {
    assert_eq!(enc_err("frobnicate", "", None), "unknown mnemonic: frobnicate");
    assert_eq!(enc_err("const/4", "v0, 8", None), "F11n range");
    assert_eq!(enc_err("const/4", "v16, 1", None), "F11n range");
    assert_eq!(enc_err("goto", "", None), "F10t missing branch");
    assert_eq!(enc_err("goto", "", Some(200)), "F10t branch out of range");
    assert_eq!(enc_err("goto/16", ":label", None), "F20t missing branch");
    assert_eq!(enc_err("if-eqz", "v0", None), "F21t missing branch");
    assert_eq!(enc_err("if-eq", "v0, v1", None), "F22t missing branch");
    assert_eq!(enc_err("move", "x0, v1", None), "expected register: x0");
    assert_eq!(enc_err("move", "vq, v1", None), "bad register: vq");
    assert_eq!(enc_err("const/16", "v0, 1z", None), "bad literal: 1z");
    assert_eq!(enc_err("const-string", "v0, type@1", None), "expected string@N, got type@1");
    assert_eq!(enc_err("const-string", "v0, string@x", None), "bad string ref: string@x");
    assert_eq!(enc_err("invoke-virtual", "v0, v1, v2, v3, v4, v5, method@1", None), "F35c max 5 registers");
}

#[test]
fn encode_type_accepts_plain_index() {
    let bytes = encode_instruction("new-instance", "v0, 12", &IndexResolve, None).unwrap();
    assert_eq!(bytes, vec![0x22, 0x00, 0x0c, 0x00]);
}

#[test]
fn encode_high16_and_literals() {
    assert_eq!(
        encode_instruction("const/high16", "v0, 0x10000", &IndexResolve, None).unwrap(),
        vec![0x15, 0x00, 0x01, 0x00]
    );
    assert_eq!(
        encode_instruction("const/16", "v1, 10h", &IndexResolve, None).unwrap(),
        vec![0x13, 0x01, 0x10, 0x00]
    );
    assert_eq!(
        encode_instruction("add-int/lit8", "v0, v1, -3", &IndexResolve, None).unwrap(),
        vec![0xd8, 0x00, 0x01, 0xfd]
    );
}

#[test]
fn decode_errors() {
    assert_eq!(decode_one(&[], 0).err().unwrap().message(), "offset past end of data");
    assert_eq!(decode_one(&[0x0e, 0x00], 2).err().unwrap().message(), "offset past end of data");
    assert_eq!(decode_one(&[0x3e, 0x00], 0).err().unwrap().message(), "unused opcode");
    assert_eq!(decode_one(&[0x13, 0x00], 0).err().unwrap().message(), "truncated instruction");
    assert_eq!(decode_one(&[0x00, 0x01, 0x00, 0x00], 0).err().unwrap().message(), "payload pseudo-instruction");
}
