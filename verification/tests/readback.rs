//! Written values read back, and a given branch offset wins over the branch token.

use dex_bytecode::encode::{encode_instruction, IndexResolve};
use dex_bytecode::hex::parse_hex;
use dex_bytecode::operands::{parse_indexed_ref, parse_reg, parse_reg_list};

fn cs(s: &str) -> Vec<char> {
    s.chars().collect()
}

#[test]
fn register_text_reads_back() {
    assert_eq!(parse_reg(&cs("v65535")).unwrap(), 65535);
    assert_eq!(parse_reg(&cs(" p7,, ")).unwrap(), 7);
    assert_eq!(parse_reg(&cs("\tv0")).unwrap(), 0);
    assert!(parse_reg(&cs("v65536")).is_err());
    assert!(parse_reg(&cs("v1a")).is_err());
    assert!(parse_reg(&cs("x1")).is_err());
    assert!(parse_reg(&cs("")).is_err());
}

#[test]
fn register_list_reads_back() {
    assert_eq!(parse_reg_list(&cs("{}")).unwrap(), Vec::<u16>::new());
    assert_eq!(parse_reg_list(&cs("{v0, v1}")).unwrap(), vec![0, 1]);
    assert_eq!(parse_reg_list(&cs("{v3, v300, v65535}")).unwrap(), vec![3, 300, 65535]);
}

#[test]
fn indexed_ref_reads_back() {
    assert_eq!(parse_indexed_ref(&cs("method@4294967295"), "method").unwrap(), 4294967295);
    assert_eq!(parse_indexed_ref(&cs("string@0"), "string").unwrap(), 0);
    assert_eq!(
        parse_indexed_ref(&cs("method@2"), "field").err().unwrap().message(),
        "expected field@N, got method@2"
    );
    assert!(parse_indexed_ref(&cs(" string@3"), "string").is_err());
}

#[test]
fn hex_reads_back() {
    let bytes: Vec<u8> = vec![0x00, 0x0f, 0xa5, 0xff, 0x70];
    assert_eq!(parse_hex("000fa5ff70").unwrap(), bytes);
    assert_eq!(parse_hex("00 0F\tA5\nfF 7 0").unwrap(), bytes);
}

#[test]
fn given_branch_ignores_token() {
    for (m, a, b) in [
        ("goto", ":L1", "+05h"),
        ("goto/16", ":L1", "-3"),
        ("goto/32", "", "7"),
        ("if-eqz", "v2, :L1", "v2, 9"),
        ("if-ne", "v1, v2, :L1", "v1, v2"),
        ("packed-switch", "v0, :L1", "v0, 100"),
    ] {
        let x = encode_instruction(m, a, &IndexResolve, Some(2)).unwrap();
        let y = encode_instruction(m, b, &IndexResolve, Some(2)).unwrap();
        assert_eq!(x, y, "{m}");
    }
}
