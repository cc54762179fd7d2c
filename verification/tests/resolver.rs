//! Encoding through a resolver of the caller's own.

use dex_bytecode::decoder::decode_one;
use dex_bytecode::encode::{encode_instruction, unsupported_callsite, EncodeResolve, IndexResolve};
use dex_bytecode::error::DexError;
use dex_bytecode::opcodes::RefKind;
use vstd::seq::Seq;

struct Pool;

impl EncodeResolve for Pool {
    fn spec_resolve(&self, _kind: RefKind, _tok: Seq<char>) -> Result<u32, Seq<char>> {
        unreachable!()
    }
    fn resolve_string(&self, s: &str) -> Result<u32, DexError> {
        if s == "\"hello\"" {
            Ok(7)
        } else {
            Err(DexError::invalid("no such string"))
        }
    }
    fn resolve_type(&self, _s: &str) -> Result<u32, DexError> {
        Ok(3)
    }
    fn resolve_field(&self, _s: &str) -> Result<u32, DexError> {
        Err(DexError::invalid("no fields"))
    }
    fn resolve_method(&self, s: &str) -> Result<u32, DexError> {
        if s == "LFoo;->bar()V" {
            Ok(0x1234)
        } else {
            Err(DexError::invalid("no such method"))
        }
    }
    fn resolve_proto(&self, _s: &str) -> Result<u32, DexError> {
        Ok(0x10000)
    }
    fn resolve_callsite(&self, s: &str) -> Result<u32, DexError> {
        unsupported_callsite(s)
    }
}

#[test]
fn own_resolver_roundtrip() {
    let bytes = encode_instruction("const-string", "v0, \"hello\"", &Pool, None).unwrap();
    assert_eq!(bytes, vec![0x1a, 0x00, 0x07, 0x00]);
    let ins = decode_one(&bytes, 0).unwrap();
    assert_eq!(ins.operands(), "v0, string@7");
    let again = encode_instruction(ins.mnemonic(), ins.operands(), &IndexResolve, None).unwrap();
    assert_eq!(again, bytes);
}

#[test]
fn own_resolver_braced_invoke() {
    let bytes = encode_instruction("invoke-static", "{v2, v3}, LFoo;->bar()V", &Pool, None).unwrap();
    assert_eq!(bytes, vec![0x71, 0x20, 0x34, 0x12, 0x32, 0x00]);
    let ins = decode_one(&bytes, 0).unwrap();
    assert_eq!(ins.operands(), "v2, v3, method@4660");
}

#[test]
fn own_resolver_errors() {
    let e = encode_instruction("const-string", "v0, \"bye\"", &Pool, None).err().unwrap();
    assert_eq!(e.message(), "no such string");
    let e = encode_instruction("invoke-polymorphic", "{v0}, LFoo;->bar()V, x", &Pool, None).err().unwrap();
    assert_eq!(e.message(), "proto idx");
    let e = encode_instruction("invoke-custom", "v0, call_site_1", &Pool, None).err().unwrap();
    assert_eq!(e.message(), "unsupported callsite ref: call_site_1");
}
