//! Concrete checks of what the library promises for all inputs.

use dex_bytecode::decoder::{decode_all, decode_one};
use dex_bytecode::encode::{
    encode_goto, encode_instruction, encode_nop, encode_return_void, opcode_for_mnemonic, IndexResolve,
};

fn roundtrip(mnemonic: &str, operands: &str, branch: Option<i32>) -> (Vec<u8>, String) {
    let encoded = encode_instruction(mnemonic, operands, &IndexResolve, branch).unwrap();
    let decoded = decode_one(&encoded, 0).unwrap();
    assert_eq!(decoded.mnemonic, mnemonic);
    assert_eq!(decoded.length, encoded.len());
    assert_eq!(decoded.offset, 0);
    let again = encode_instruction(mnemonic, decoded.operands(), &IndexResolve, branch).unwrap();
    assert_eq!(again, encoded);
    (encoded, decoded.operands)
}

#[test]
fn roundtrip_backward_branch() {
    let (bytes, text) = roundtrip("if-nez", "v3, -0005h", None);
    assert_eq!(bytes, vec![0x39, 0x03, 0xfb, 0xff]);
    assert_eq!(text, "v3, -5");
}

#[test]
fn roundtrip_goto32() {
    let (bytes, text) = roundtrip("goto/32", "", Some(-2));
    assert_eq!(bytes, vec![0x2a, 0x00, 0xfe, 0xff, 0xff, 0xff]);
    assert_eq!(text, "-2");
}

#[test]
fn roundtrip_const_wide_literal() {
    let (bytes, text) = roundtrip("const-wide", "v2, -1", None);
    assert_eq!(bytes, vec![0x18, 0x02, 0xff, 0xff, 0xff, 0xff, 0xff, 0xff, 0xff, 0xff]);
    assert_eq!(text, "v2, -1");
}

#[test]
fn roundtrip_const4_negative() {
    let (bytes, text) = roundtrip("const/4", "v7, -8", None);
    assert_eq!(bytes, vec![0x12, 0x87]);
    assert_eq!(text, "v7, -8");
}

#[test]
fn roundtrip_invoke_five_registers() {
    let (bytes, text) = roundtrip("invoke-direct", "{v1, v2, v3, v4, v5}, method@258", None);
    assert_eq!(bytes, vec![0x70, 0x55, 0x02, 0x01, 0x21, 0x43]);
    assert_eq!(text, "v1, v2, v3, v4, v5, method@258");
}

#[test]
fn roundtrip_range_invoke() {
    let (bytes, text) = roundtrip("invoke-virtual/range", "v16 .. v18, method@7", None);
    assert_eq!(bytes, vec![0x74, 0x03, 0x07, 0x00, 0x10, 0x00]);
    assert_eq!(text, "v16 .. v18, method@7");
}

#[test]
fn roundtrip_iget_field() {
    let (bytes, text) = roundtrip("iget", "v0, v1, field@9", None);
    assert_eq!(bytes, vec![0x52, 0x10, 0x09, 0x00]);
    assert_eq!(text, "v0, v1, field@9");
}

#[test]
fn roundtrip_move16() {
    let (bytes, text) = roundtrip("move/16", "v300, v2", None);
    assert_eq!(bytes, vec![0x03, 0x00, 0x2c, 0x01, 0x02, 0x00]);
    assert_eq!(text, "v300, v2");
}

#[test]
fn roundtrip_packed_switch() {
    let (bytes, _) = roundtrip("packed-switch", "v1, +0006h", None);
    assert_eq!(bytes, vec![0x2b, 0x01, 0x06, 0x00, 0x00, 0x00]);
}

#[test]
fn decode_all_tiles_buffer() {
    let data = [0x00, 0x00, 0x01, 0x21, 0x13, 0x00, 0x64, 0x00];
    let v = decode_all(&data, 0).unwrap();
    assert_eq!(v.len(), 3);
    assert_eq!((v[0].offset, v[0].length), (0, 2));
    assert_eq!((v[1].offset, v[1].length), (2, 2));
    assert_eq!((v[2].offset, v[2].length), (4, 4));
    assert_eq!(v[2].offset + v[2].length, data.len());
    assert_eq!(v[1].mnemonic, "move");
    assert_eq!(v[2].mnemonic, "const/16");
    assert_eq!(v[2].operands, "v0, 100");
}

#[test]
fn decode_all_from_offset() {
    let data = [0x00, 0x00, 0x01, 0x21];
    let v = decode_all(&data, 2).unwrap();
    assert_eq!(v.len(), 1);
    assert_eq!(v[0].offset, 2);
    assert_eq!(v[0].operands(), "v1, v2");
}

#[test]
fn decode_all_stops_at_first_error() {
    let data = [0x0e, 0x00, 0x3e, 0x00];
    let e = decode_all(&data, 0).err().unwrap();
    assert_eq!(e.message(), "unused opcode");
}

#[test]
fn lookup_first_opcode_wins() {
    assert_eq!(opcode_for_mnemonic("nop"), Some(0x00));
    assert_eq!(opcode_for_mnemonic("invoke-custom/range"), Some(0xfd));
    assert_eq!(opcode_for_mnemonic("const-method-type"), Some(0xff));
    assert_eq!(opcode_for_mnemonic("unused"), None);
    assert_eq!(opcode_for_mnemonic("NOP"), None);
}

#[test]
fn fixed_encodings_decode() {
    let nop = decode_one(&encode_nop(), 0).unwrap();
    assert_eq!((nop.mnemonic, nop.operands.as_str(), nop.length), ("nop", "", 2));
    let rv = decode_one(&encode_return_void(), 0).unwrap();
    assert_eq!((rv.mnemonic, rv.operands.as_str()), ("return-void", ""));
    let back = decode_one(&encode_goto(-3), 0).unwrap();
    assert_eq!((back.mnemonic, back.operands.as_str()), ("goto", "-3"));
    let fwd = decode_one(&encode_goto(127), 0).unwrap();
    assert_eq!(fwd.operands, "+127");
    assert_eq!(encode_goto(-3).to_vec(), encode_instruction("goto", "", &IndexResolve, Some(-3)).unwrap());
}
