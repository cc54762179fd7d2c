use dex_bytecode::encode::{encode_instruction, IndexResolve};

#[test]
fn encode_return_void() {
    let bytes = encode_instruction("return-void", "", &IndexResolve, None).unwrap();
    assert_eq!(bytes, vec![0x0e, 0x00]);
}

#[test]
fn encode_const4() {
    let bytes = encode_instruction("const/4", "v0, 1", &IndexResolve, None).unwrap();
    assert_eq!(bytes[0], 0x12);
    assert_eq!(bytes[1] & 0x0f, 0);
    assert_eq!((bytes[1] >> 4) as i8, 1);
}

#[test]
fn encode_goto() {
    let bytes = encode_instruction("goto", "+02h", &IndexResolve, Some(2)).unwrap();
    assert_eq!(bytes, vec![0x28, 0x02]);
}
