//! The Dalvik opcode table: mnemonic, instruction format and constant-pool
//! reference kind of every opcode byte.
use vstd::prelude::*;

verus! {

/// Dalvik instruction formats (the layout of an instruction's code units).
#[derive(Clone, Copy, Debug, PartialEq, Eq, Structural)]
pub enum Format {
    F00x,
    F10x,
    F10t,
    F11n,
    F11x,
    F12x,
    F20t,
    F20bc,
    F21c,
    F21h,
    F21s,
    F21t,
    F22b,
    F22c,
    F22cs,
    F22s,
    F22t,
    F22x,
    F23x,
    F30t,
    F31c,
    F31i,
    F31t,
    F32x,
    F35c,
    F35mi,
    F35ms,
    F3rc,
    F3rmi,
    F3rms,
    F40sc,
    F41c,
    F45cc,
    F4rcc,
    F51l,
    F52c,
    F5rc,
}

/// The kind of constant-pool item an instruction refers to.
#[derive(Clone, Copy, Debug, PartialEq, Eq, Structural)]
pub enum RefKind {
    NoRef,
    String,
    Type,
    Field,
    Method,
    MethodProto,
    CallSite,
    Varies,
}

/// One row of the opcode table.
#[derive(Clone, Copy, Debug)]
pub struct OpcodeEntry {
    pub mnemonic: &'static str,
    pub format: Format,
    pub ref_kind: RefKind,
}

/// The size in bytes of an instruction of format `f`.
pub open spec fn spec_format_length(f: Format) -> nat {
    match f {
        Format::F00x | Format::F10x | Format::F10t | Format::F11n | Format::F11x | Format::F12x => 2,
        Format::F20t | Format::F20bc | Format::F21c | Format::F21h | Format::F21s | Format::F21t | Format::F22b | Format::F22c | Format::F22cs | Format::F22s | Format::F22t | Format::F22x | Format::F23x => 4,
        Format::F30t | Format::F31c | Format::F31i | Format::F31t | Format::F32x | Format::F35c | Format::F35mi | Format::F35ms | Format::F3rc | Format::F3rmi | Format::F3rms => 6,
        Format::F40sc | Format::F41c | Format::F45cc | Format::F4rcc => 8,
        Format::F51l | Format::F52c | Format::F5rc => 10,
    }
}

/// The size in bytes of an instruction of format `f`.
pub fn format_length(f: Format) -> (n: u8)
    ensures
        n as nat == spec_format_length(f),
{
    match f {
        Format::F00x | Format::F10x | Format::F10t | Format::F11n | Format::F11x | Format::F12x => 2,
        Format::F20t | Format::F20bc | Format::F21c | Format::F21h | Format::F21s | Format::F21t | Format::F22b | Format::F22c | Format::F22cs | Format::F22s | Format::F22t | Format::F22x | Format::F23x => 4,
        Format::F30t | Format::F31c | Format::F31i | Format::F31t | Format::F32x | Format::F35c | Format::F35mi | Format::F35ms | Format::F3rc | Format::F3rmi | Format::F3rms => 6,
        Format::F40sc | Format::F41c | Format::F45cc | Format::F4rcc => 8,
        Format::F51l | Format::F52c | Format::F5rc => 10,
    }
}

/// The mnemonic of opcode `op`.
pub open spec fn spec_mnemonic(op: u8) -> Seq<char> {
    match op {
        0x00u8 => "nop"@,
        0x01u8 => "move"@,
        0x02u8 => "move/from16"@,
        0x03u8 => "move/16"@,
        0x04u8 => "move-wide"@,
        0x05u8 => "move-wide/from16"@,
        0x06u8 => "move-wide/16"@,
        0x07u8 => "move-object"@,
        0x08u8 => "move-object/from16"@,
        0x09u8 => "move-object/16"@,
        0x0au8 => "move-result"@,
        0x0bu8 => "move-result-wide"@,
        0x0cu8 => "move-result-object"@,
        0x0du8 => "move-exception"@,
        0x0eu8 => "return-void"@,
        0x0fu8 => "return"@,
        0x10u8 => "return-wide"@,
        0x11u8 => "return-object"@,
        0x12u8 => "const/4"@,
        0x13u8 => "const/16"@,
        0x14u8 => "const"@,
        0x15u8 => "const/high16"@,
        0x16u8 => "const-wide/16"@,
        0x17u8 => "const-wide/32"@,
        0x18u8 => "const-wide"@,
        0x19u8 => "const-wide/high16"@,
        0x1au8 => "const-string"@,
        0x1bu8 => "const-string/jumbo"@,
        0x1cu8 => "const-class"@,
        0x1du8 => "monitor-enter"@,
        0x1eu8 => "monitor-exit"@,
        0x1fu8 => "check-cast"@,
        0x20u8 => "instance-of"@,
        0x21u8 => "array-length"@,
        0x22u8 => "new-instance"@,
        0x23u8 => "new-array"@,
        0x24u8 => "filled-new-array"@,
        0x25u8 => "filled-new-array/range"@,
        0x26u8 => "fill-array-data"@,
        0x27u8 => "throw"@,
        0x28u8 => "goto"@,
        0x29u8 => "goto/16"@,
        0x2au8 => "goto/32"@,
        0x2bu8 => "packed-switch"@,
        0x2cu8 => "sparse-switch"@,
        0x2du8 => "cmpl-float"@,
        0x2eu8 => "cmpg-float"@,
        0x2fu8 => "cmpl-double"@,
        0x30u8 => "cmpg-double"@,
        0x31u8 => "cmp-long"@,
        0x32u8 => "if-eq"@,
        0x33u8 => "if-ne"@,
        0x34u8 => "if-lt"@,
        0x35u8 => "if-ge"@,
        0x36u8 => "if-gt"@,
        0x37u8 => "if-le"@,
        0x38u8 => "if-eqz"@,
        0x39u8 => "if-nez"@,
        0x3au8 => "if-ltz"@,
        0x3bu8 => "if-gez"@,
        0x3cu8 => "if-gtz"@,
        0x3du8 => "if-lez"@,
        0x3eu8 => "unused"@,
        0x3fu8 => "unused"@,
        0x40u8 => "unused"@,
        0x41u8 => "unused"@,
        0x42u8 => "unused"@,
        0x43u8 => "unused"@,
        0x44u8 => "aget"@,
        0x45u8 => "aget-wide"@,
        0x46u8 => "aget-object"@,
        0x47u8 => "aget-boolean"@,
        0x48u8 => "aget-byte"@,
        0x49u8 => "aget-char"@,
        0x4au8 => "aget-short"@,
        0x4bu8 => "aput"@,
        0x4cu8 => "aput-wide"@,
        0x4du8 => "aput-object"@,
        0x4eu8 => "aput-boolean"@,
        0x4fu8 => "aput-byte"@,
        0x50u8 => "aput-char"@,
        0x51u8 => "aput-short"@,
        0x52u8 => "iget"@,
        0x53u8 => "iget-wide"@,
        0x54u8 => "iget-object"@,
        0x55u8 => "iget-boolean"@,
        0x56u8 => "iget-byte"@,
        0x57u8 => "iget-char"@,
        0x58u8 => "iget-short"@,
        0x59u8 => "iput"@,
        0x5au8 => "iput-wide"@,
        0x5bu8 => "iput-object"@,
        0x5cu8 => "iput-boolean"@,
        0x5du8 => "iput-byte"@,
        0x5eu8 => "iput-char"@,
        0x5fu8 => "iput-short"@,
        0x60u8 => "sget"@,
        0x61u8 => "sget-wide"@,
        0x62u8 => "sget-object"@,
        0x63u8 => "sget-boolean"@,
        0x64u8 => "sget-byte"@,
        0x65u8 => "sget-char"@,
        0x66u8 => "sget-short"@,
        0x67u8 => "sput"@,
        0x68u8 => "sput-wide"@,
        0x69u8 => "sput-object"@,
        0x6au8 => "sput-boolean"@,
        0x6bu8 => "sput-byte"@,
        0x6cu8 => "sput-char"@,
        0x6du8 => "sput-short"@,
        0x6eu8 => "invoke-virtual"@,
        0x6fu8 => "invoke-super"@,
        0x70u8 => "invoke-direct"@,
        0x71u8 => "invoke-static"@,
        0x72u8 => "invoke-interface"@,
        0x73u8 => "unused"@,
        0x74u8 => "invoke-virtual/range"@,
        0x75u8 => "invoke-super/range"@,
        0x76u8 => "invoke-direct/range"@,
        0x77u8 => "invoke-static/range"@,
        0x78u8 => "invoke-interface/range"@,
        0x79u8 => "unused"@,
        0x7au8 => "unused"@,
        0x7bu8 => "neg-int"@,
        0x7cu8 => "not-int"@,
        0x7du8 => "neg-long"@,
        0x7eu8 => "not-long"@,
        0x7fu8 => "neg-float"@,
        0x80u8 => "neg-double"@,
        0x81u8 => "int-to-long"@,
        0x82u8 => "int-to-float"@,
        0x83u8 => "int-to-double"@,
        0x84u8 => "long-to-int"@,
        0x85u8 => "long-to-float"@,
        0x86u8 => "long-to-double"@,
        0x87u8 => "float-to-int"@,
        0x88u8 => "float-to-long"@,
        0x89u8 => "float-to-double"@,
        0x8au8 => "double-to-int"@,
        0x8bu8 => "double-to-long"@,
        0x8cu8 => "double-to-float"@,
        0x8du8 => "int-to-byte"@,
        0x8eu8 => "int-to-char"@,
        0x8fu8 => "int-to-short"@,
        0x90u8 => "add-int"@,
        0x91u8 => "sub-int"@,
        0x92u8 => "mul-int"@,
        0x93u8 => "div-int"@,
        0x94u8 => "rem-int"@,
        0x95u8 => "and-int"@,
        0x96u8 => "or-int"@,
        0x97u8 => "xor-int"@,
        0x98u8 => "shl-int"@,
        0x99u8 => "shr-int"@,
        0x9au8 => "ushr-int"@,
        0x9bu8 => "add-long"@,
        0x9cu8 => "sub-long"@,
        0x9du8 => "mul-long"@,
        0x9eu8 => "div-long"@,
        0x9fu8 => "rem-long"@,
        0xa0u8 => "and-long"@,
        0xa1u8 => "or-long"@,
        0xa2u8 => "xor-long"@,
        0xa3u8 => "shl-long"@,
        0xa4u8 => "shr-long"@,
        0xa5u8 => "ushr-long"@,
        0xa6u8 => "add-float"@,
        0xa7u8 => "sub-float"@,
        0xa8u8 => "mul-float"@,
        0xa9u8 => "div-float"@,
        0xaau8 => "rem-float"@,
        0xabu8 => "add-double"@,
        0xacu8 => "sub-double"@,
        0xadu8 => "mul-double"@,
        0xaeu8 => "div-double"@,
        0xafu8 => "rem-double"@,
        0xb0u8 => "add-int/2addr"@,
        0xb1u8 => "sub-int/2addr"@,
        0xb2u8 => "mul-int/2addr"@,
        0xb3u8 => "div-int/2addr"@,
        0xb4u8 => "rem-int/2addr"@,
        0xb5u8 => "and-int/2addr"@,
        0xb6u8 => "or-int/2addr"@,
        0xb7u8 => "xor-int/2addr"@,
        0xb8u8 => "shl-int/2addr"@,
        0xb9u8 => "shr-int/2addr"@,
        0xbau8 => "ushr-int/2addr"@,
        0xbbu8 => "add-long/2addr"@,
        0xbcu8 => "sub-long/2addr"@,
        0xbdu8 => "mul-long/2addr"@,
        0xbeu8 => "div-long/2addr"@,
        0xbfu8 => "rem-long/2addr"@,
        0xc0u8 => "and-long/2addr"@,
        0xc1u8 => "or-long/2addr"@,
        0xc2u8 => "xor-long/2addr"@,
        0xc3u8 => "shl-long/2addr"@,
        0xc4u8 => "shr-long/2addr"@,
        0xc5u8 => "ushr-long/2addr"@,
        0xc6u8 => "add-float/2addr"@,
        0xc7u8 => "sub-float/2addr"@,
        0xc8u8 => "mul-float/2addr"@,
        0xc9u8 => "div-float/2addr"@,
        0xcau8 => "rem-float/2addr"@,
        0xcbu8 => "add-double/2addr"@,
        0xccu8 => "sub-double/2addr"@,
        0xcdu8 => "mul-double/2addr"@,
        0xceu8 => "div-double/2addr"@,
        0xcfu8 => "rem-double/2addr"@,
        0xd0u8 => "add-int/lit16"@,
        0xd1u8 => "rsub-int"@,
        0xd2u8 => "mul-int/lit16"@,
        0xd3u8 => "div-int/lit16"@,
        0xd4u8 => "rem-int/lit16"@,
        0xd5u8 => "and-int/lit16"@,
        0xd6u8 => "or-int/lit16"@,
        0xd7u8 => "xor-int/lit16"@,
        0xd8u8 => "add-int/lit8"@,
        0xd9u8 => "rsub-int/lit8"@,
        0xdau8 => "mul-int/lit8"@,
        0xdbu8 => "div-int/lit8"@,
        0xdcu8 => "rem-int/lit8"@,
        0xddu8 => "and-int/lit8"@,
        0xdeu8 => "or-int/lit8"@,
        0xdfu8 => "xor-int/lit8"@,
        0xe0u8 => "shl-int/lit8"@,
        0xe1u8 => "shr-int/lit8"@,
        0xe2u8 => "ushr-int/lit8"@,
        0xe3u8 => "unused"@,
        0xe4u8 => "unused"@,
        0xe5u8 => "unused"@,
        0xe6u8 => "unused"@,
        0xe7u8 => "unused"@,
        0xe8u8 => "unused"@,
        0xe9u8 => "unused"@,
        0xeau8 => "unused"@,
        0xebu8 => "unused"@,
        0xecu8 => "unused"@,
        0xedu8 => "unused"@,
        0xeeu8 => "unused"@,
        0xefu8 => "unused"@,
        0xf0u8 => "unused"@,
        0xf1u8 => "unused"@,
        0xf2u8 => "unused"@,
        0xf3u8 => "unused"@,
        0xf4u8 => "unused"@,
        0xf5u8 => "unused"@,
        0xf6u8 => "unused"@,
        0xf7u8 => "unused"@,
        0xf8u8 => "unused"@,
        0xf9u8 => "unused"@,
        0xfau8 => "invoke-polymorphic"@,
        0xfbu8 => "invoke-polymorphic/range"@,
        0xfcu8 => "invoke-custom"@,
        0xfdu8 => "invoke-custom/range"@,
        0xfeu8 => "const-method-handle"@,
        0xffu8 => "const-method-type"@,
    }
}

/// The format of opcode `op`.
pub open spec fn spec_format(op: u8) -> Format {
    if op <= 0x00 {
        Format::F10x
    } else if op <= 0x01 {
        Format::F12x
    } else if op <= 0x02 {
        Format::F22x
    } else if op <= 0x03 {
        Format::F32x
    } else if op <= 0x04 {
        Format::F12x
    } else if op <= 0x05 {
        Format::F22x
    } else if op <= 0x06 {
        Format::F32x
    } else if op <= 0x07 {
        Format::F12x
    } else if op <= 0x08 {
        Format::F22x
    } else if op <= 0x09 {
        Format::F32x
    } else if op <= 0x0d {
        Format::F11x
    } else if op <= 0x0e {
        Format::F10x
    } else if op <= 0x11 {
        Format::F11x
    } else if op <= 0x12 {
        Format::F11n
    } else if op <= 0x13 {
        Format::F21s
    } else if op <= 0x14 {
        Format::F31i
    } else if op <= 0x15 {
        Format::F21h
    } else if op <= 0x16 {
        Format::F21s
    } else if op <= 0x17 {
        Format::F31i
    } else if op <= 0x18 {
        Format::F51l
    } else if op <= 0x19 {
        Format::F21h
    } else if op <= 0x1a {
        Format::F21c
    } else if op <= 0x1b {
        Format::F31c
    } else if op <= 0x1c {
        Format::F21c
    } else if op <= 0x1e {
        Format::F11x
    } else if op <= 0x1f {
        Format::F21c
    } else if op <= 0x20 {
        Format::F22c
    } else if op <= 0x21 {
        Format::F12x
    } else if op <= 0x22 {
        Format::F21c
    } else if op <= 0x23 {
        Format::F22c
    } else if op <= 0x24 {
        Format::F35c
    } else if op <= 0x25 {
        Format::F3rc
    } else if op <= 0x26 {
        Format::F31t
    } else if op <= 0x27 {
        Format::F11x
    } else if op <= 0x28 {
        Format::F10t
    } else if op <= 0x29 {
        Format::F20t
    } else if op <= 0x2a {
        Format::F30t
    } else if op <= 0x2c {
        Format::F31t
    } else if op <= 0x31 {
        Format::F23x
    } else if op <= 0x37 {
        Format::F22t
    } else if op <= 0x3d {
        Format::F21t
    } else if op <= 0x43 {
        Format::F00x
    } else if op <= 0x51 {
        Format::F23x
    } else if op <= 0x5f {
        Format::F22c
    } else if op <= 0x6d {
        Format::F21c
    } else if op <= 0x72 {
        Format::F35c
    } else if op <= 0x73 {
        Format::F00x
    } else if op <= 0x78 {
        Format::F3rc
    } else if op <= 0x7a {
        Format::F00x
    } else if op <= 0x8f {
        Format::F12x
    } else if op <= 0xaf {
        Format::F23x
    } else if op <= 0xcf {
        Format::F12x
    } else if op <= 0xd7 {
        Format::F22s
    } else if op <= 0xe2 {
        Format::F22b
    } else if op <= 0xf9 {
        Format::F00x
    } else if op <= 0xfa {
        Format::F45cc
    } else if op <= 0xfb {
        Format::F4rcc
    } else if op <= 0xfc {
        Format::F35c
    } else if op <= 0xfd {
        Format::F3rc
    } else {
        Format::F21c
    }
}

/// The reference kind of opcode `op`.
pub open spec fn spec_ref_kind(op: u8) -> RefKind {
    if op <= 0x19 {
        RefKind::NoRef
    } else if op <= 0x1b {
        RefKind::String
    } else if op <= 0x1c {
        RefKind::Type
    } else if op <= 0x1e {
        RefKind::NoRef
    } else if op <= 0x20 {
        RefKind::Type
    } else if op <= 0x21 {
        RefKind::NoRef
    } else if op <= 0x25 {
        RefKind::Type
    } else if op <= 0x51 {
        RefKind::NoRef
    } else if op <= 0x6d {
        RefKind::Field
    } else if op <= 0x72 {
        RefKind::Method
    } else if op <= 0x73 {
        RefKind::NoRef
    } else if op <= 0x78 {
        RefKind::Method
    } else if op <= 0xf9 {
        RefKind::NoRef
    } else if op <= 0xfb {
        RefKind::Method
    } else if op <= 0xfd {
        RefKind::CallSite
    } else if op <= 0xfe {
        RefKind::Varies
    } else {
        RefKind::MethodProto
    }
}

/// The table row of opcode `op`.
pub fn get_opcode_entry(op: u8) -> (e: OpcodeEntry)
    ensures
        e.mnemonic@ == spec_mnemonic(op),
        e.format == spec_format(op),
        e.ref_kind == spec_ref_kind(op),
{
    match op {
        0x00u8 => OpcodeEntry { mnemonic: "nop", format: Format::F10x, ref_kind: RefKind::NoRef },
        0x01u8 => OpcodeEntry { mnemonic: "move", format: Format::F12x, ref_kind: RefKind::NoRef },
        0x02u8 => OpcodeEntry { mnemonic: "move/from16", format: Format::F22x, ref_kind: RefKind::NoRef },
        0x03u8 => OpcodeEntry { mnemonic: "move/16", format: Format::F32x, ref_kind: RefKind::NoRef },
        0x04u8 => OpcodeEntry { mnemonic: "move-wide", format: Format::F12x, ref_kind: RefKind::NoRef },
        0x05u8 => OpcodeEntry { mnemonic: "move-wide/from16", format: Format::F22x, ref_kind: RefKind::NoRef },
        0x06u8 => OpcodeEntry { mnemonic: "move-wide/16", format: Format::F32x, ref_kind: RefKind::NoRef },
        0x07u8 => OpcodeEntry { mnemonic: "move-object", format: Format::F12x, ref_kind: RefKind::NoRef },
        0x08u8 => OpcodeEntry { mnemonic: "move-object/from16", format: Format::F22x, ref_kind: RefKind::NoRef },
        0x09u8 => OpcodeEntry { mnemonic: "move-object/16", format: Format::F32x, ref_kind: RefKind::NoRef },
        0x0au8 => OpcodeEntry { mnemonic: "move-result", format: Format::F11x, ref_kind: RefKind::NoRef },
        0x0bu8 => OpcodeEntry { mnemonic: "move-result-wide", format: Format::F11x, ref_kind: RefKind::NoRef },
        0x0cu8 => OpcodeEntry { mnemonic: "move-result-object", format: Format::F11x, ref_kind: RefKind::NoRef },
        0x0du8 => OpcodeEntry { mnemonic: "move-exception", format: Format::F11x, ref_kind: RefKind::NoRef },
        0x0eu8 => OpcodeEntry { mnemonic: "return-void", format: Format::F10x, ref_kind: RefKind::NoRef },
        0x0fu8 => OpcodeEntry { mnemonic: "return", format: Format::F11x, ref_kind: RefKind::NoRef },
        0x10u8 => OpcodeEntry { mnemonic: "return-wide", format: Format::F11x, ref_kind: RefKind::NoRef },
        0x11u8 => OpcodeEntry { mnemonic: "return-object", format: Format::F11x, ref_kind: RefKind::NoRef },
        0x12u8 => OpcodeEntry { mnemonic: "const/4", format: Format::F11n, ref_kind: RefKind::NoRef },
        0x13u8 => OpcodeEntry { mnemonic: "const/16", format: Format::F21s, ref_kind: RefKind::NoRef },
        0x14u8 => OpcodeEntry { mnemonic: "const", format: Format::F31i, ref_kind: RefKind::NoRef },
        0x15u8 => OpcodeEntry { mnemonic: "const/high16", format: Format::F21h, ref_kind: RefKind::NoRef },
        0x16u8 => OpcodeEntry { mnemonic: "const-wide/16", format: Format::F21s, ref_kind: RefKind::NoRef },
        0x17u8 => OpcodeEntry { mnemonic: "const-wide/32", format: Format::F31i, ref_kind: RefKind::NoRef },
        0x18u8 => OpcodeEntry { mnemonic: "const-wide", format: Format::F51l, ref_kind: RefKind::NoRef },
        0x19u8 => OpcodeEntry { mnemonic: "const-wide/high16", format: Format::F21h, ref_kind: RefKind::NoRef },
        0x1au8 => OpcodeEntry { mnemonic: "const-string", format: Format::F21c, ref_kind: RefKind::String },
        0x1bu8 => OpcodeEntry { mnemonic: "const-string/jumbo", format: Format::F31c, ref_kind: RefKind::String },
        0x1cu8 => OpcodeEntry { mnemonic: "const-class", format: Format::F21c, ref_kind: RefKind::Type },
        0x1du8 => OpcodeEntry { mnemonic: "monitor-enter", format: Format::F11x, ref_kind: RefKind::NoRef },
        0x1eu8 => OpcodeEntry { mnemonic: "monitor-exit", format: Format::F11x, ref_kind: RefKind::NoRef },
        0x1fu8 => OpcodeEntry { mnemonic: "check-cast", format: Format::F21c, ref_kind: RefKind::Type },
        0x20u8 => OpcodeEntry { mnemonic: "instance-of", format: Format::F22c, ref_kind: RefKind::Type },
        0x21u8 => OpcodeEntry { mnemonic: "array-length", format: Format::F12x, ref_kind: RefKind::NoRef },
        0x22u8 => OpcodeEntry { mnemonic: "new-instance", format: Format::F21c, ref_kind: RefKind::Type },
        0x23u8 => OpcodeEntry { mnemonic: "new-array", format: Format::F22c, ref_kind: RefKind::Type },
        0x24u8 => OpcodeEntry { mnemonic: "filled-new-array", format: Format::F35c, ref_kind: RefKind::Type },
        0x25u8 => OpcodeEntry { mnemonic: "filled-new-array/range", format: Format::F3rc, ref_kind: RefKind::Type },
        0x26u8 => OpcodeEntry { mnemonic: "fill-array-data", format: Format::F31t, ref_kind: RefKind::NoRef },
        0x27u8 => OpcodeEntry { mnemonic: "throw", format: Format::F11x, ref_kind: RefKind::NoRef },
        0x28u8 => OpcodeEntry { mnemonic: "goto", format: Format::F10t, ref_kind: RefKind::NoRef },
        0x29u8 => OpcodeEntry { mnemonic: "goto/16", format: Format::F20t, ref_kind: RefKind::NoRef },
        0x2au8 => OpcodeEntry { mnemonic: "goto/32", format: Format::F30t, ref_kind: RefKind::NoRef },
        0x2bu8 => OpcodeEntry { mnemonic: "packed-switch", format: Format::F31t, ref_kind: RefKind::NoRef },
        0x2cu8 => OpcodeEntry { mnemonic: "sparse-switch", format: Format::F31t, ref_kind: RefKind::NoRef },
        0x2du8 => OpcodeEntry { mnemonic: "cmpl-float", format: Format::F23x, ref_kind: RefKind::NoRef },
        0x2eu8 => OpcodeEntry { mnemonic: "cmpg-float", format: Format::F23x, ref_kind: RefKind::NoRef },
        0x2fu8 => OpcodeEntry { mnemonic: "cmpl-double", format: Format::F23x, ref_kind: RefKind::NoRef },
        0x30u8 => OpcodeEntry { mnemonic: "cmpg-double", format: Format::F23x, ref_kind: RefKind::NoRef },
        0x31u8 => OpcodeEntry { mnemonic: "cmp-long", format: Format::F23x, ref_kind: RefKind::NoRef },
        0x32u8 => OpcodeEntry { mnemonic: "if-eq", format: Format::F22t, ref_kind: RefKind::NoRef },
        0x33u8 => OpcodeEntry { mnemonic: "if-ne", format: Format::F22t, ref_kind: RefKind::NoRef },
        0x34u8 => OpcodeEntry { mnemonic: "if-lt", format: Format::F22t, ref_kind: RefKind::NoRef },
        0x35u8 => OpcodeEntry { mnemonic: "if-ge", format: Format::F22t, ref_kind: RefKind::NoRef },
        0x36u8 => OpcodeEntry { mnemonic: "if-gt", format: Format::F22t, ref_kind: RefKind::NoRef },
        0x37u8 => OpcodeEntry { mnemonic: "if-le", format: Format::F22t, ref_kind: RefKind::NoRef },
        0x38u8 => OpcodeEntry { mnemonic: "if-eqz", format: Format::F21t, ref_kind: RefKind::NoRef },
        0x39u8 => OpcodeEntry { mnemonic: "if-nez", format: Format::F21t, ref_kind: RefKind::NoRef },
        0x3au8 => OpcodeEntry { mnemonic: "if-ltz", format: Format::F21t, ref_kind: RefKind::NoRef },
        0x3bu8 => OpcodeEntry { mnemonic: "if-gez", format: Format::F21t, ref_kind: RefKind::NoRef },
        0x3cu8 => OpcodeEntry { mnemonic: "if-gtz", format: Format::F21t, ref_kind: RefKind::NoRef },
        0x3du8 => OpcodeEntry { mnemonic: "if-lez", format: Format::F21t, ref_kind: RefKind::NoRef },
        0x3eu8 => OpcodeEntry { mnemonic: "unused", format: Format::F00x, ref_kind: RefKind::NoRef },
        0x3fu8 => OpcodeEntry { mnemonic: "unused", format: Format::F00x, ref_kind: RefKind::NoRef },
        0x40u8 => OpcodeEntry { mnemonic: "unused", format: Format::F00x, ref_kind: RefKind::NoRef },
        0x41u8 => OpcodeEntry { mnemonic: "unused", format: Format::F00x, ref_kind: RefKind::NoRef },
        0x42u8 => OpcodeEntry { mnemonic: "unused", format: Format::F00x, ref_kind: RefKind::NoRef },
        0x43u8 => OpcodeEntry { mnemonic: "unused", format: Format::F00x, ref_kind: RefKind::NoRef },
        0x44u8 => OpcodeEntry { mnemonic: "aget", format: Format::F23x, ref_kind: RefKind::NoRef },
        0x45u8 => OpcodeEntry { mnemonic: "aget-wide", format: Format::F23x, ref_kind: RefKind::NoRef },
        0x46u8 => OpcodeEntry { mnemonic: "aget-object", format: Format::F23x, ref_kind: RefKind::NoRef },
        0x47u8 => OpcodeEntry { mnemonic: "aget-boolean", format: Format::F23x, ref_kind: RefKind::NoRef },
        0x48u8 => OpcodeEntry { mnemonic: "aget-byte", format: Format::F23x, ref_kind: RefKind::NoRef },
        0x49u8 => OpcodeEntry { mnemonic: "aget-char", format: Format::F23x, ref_kind: RefKind::NoRef },
        0x4au8 => OpcodeEntry { mnemonic: "aget-short", format: Format::F23x, ref_kind: RefKind::NoRef },
        0x4bu8 => OpcodeEntry { mnemonic: "aput", format: Format::F23x, ref_kind: RefKind::NoRef },
        0x4cu8 => OpcodeEntry { mnemonic: "aput-wide", format: Format::F23x, ref_kind: RefKind::NoRef },
        0x4du8 => OpcodeEntry { mnemonic: "aput-object", format: Format::F23x, ref_kind: RefKind::NoRef },
        0x4eu8 => OpcodeEntry { mnemonic: "aput-boolean", format: Format::F23x, ref_kind: RefKind::NoRef },
        0x4fu8 => OpcodeEntry { mnemonic: "aput-byte", format: Format::F23x, ref_kind: RefKind::NoRef },
        0x50u8 => OpcodeEntry { mnemonic: "aput-char", format: Format::F23x, ref_kind: RefKind::NoRef },
        0x51u8 => OpcodeEntry { mnemonic: "aput-short", format: Format::F23x, ref_kind: RefKind::NoRef },
        0x52u8 => OpcodeEntry { mnemonic: "iget", format: Format::F22c, ref_kind: RefKind::Field },
        0x53u8 => OpcodeEntry { mnemonic: "iget-wide", format: Format::F22c, ref_kind: RefKind::Field },
        0x54u8 => OpcodeEntry { mnemonic: "iget-object", format: Format::F22c, ref_kind: RefKind::Field },
        0x55u8 => OpcodeEntry { mnemonic: "iget-boolean", format: Format::F22c, ref_kind: RefKind::Field },
        0x56u8 => OpcodeEntry { mnemonic: "iget-byte", format: Format::F22c, ref_kind: RefKind::Field },
        0x57u8 => OpcodeEntry { mnemonic: "iget-char", format: Format::F22c, ref_kind: RefKind::Field },
        0x58u8 => OpcodeEntry { mnemonic: "iget-short", format: Format::F22c, ref_kind: RefKind::Field },
        0x59u8 => OpcodeEntry { mnemonic: "iput", format: Format::F22c, ref_kind: RefKind::Field },
        0x5au8 => OpcodeEntry { mnemonic: "iput-wide", format: Format::F22c, ref_kind: RefKind::Field },
        0x5bu8 => OpcodeEntry { mnemonic: "iput-object", format: Format::F22c, ref_kind: RefKind::Field },
        0x5cu8 => OpcodeEntry { mnemonic: "iput-boolean", format: Format::F22c, ref_kind: RefKind::Field },
        0x5du8 => OpcodeEntry { mnemonic: "iput-byte", format: Format::F22c, ref_kind: RefKind::Field },
        0x5eu8 => OpcodeEntry { mnemonic: "iput-char", format: Format::F22c, ref_kind: RefKind::Field },
        0x5fu8 => OpcodeEntry { mnemonic: "iput-short", format: Format::F22c, ref_kind: RefKind::Field },
        0x60u8 => OpcodeEntry { mnemonic: "sget", format: Format::F21c, ref_kind: RefKind::Field },
        0x61u8 => OpcodeEntry { mnemonic: "sget-wide", format: Format::F21c, ref_kind: RefKind::Field },
        0x62u8 => OpcodeEntry { mnemonic: "sget-object", format: Format::F21c, ref_kind: RefKind::Field },
        0x63u8 => OpcodeEntry { mnemonic: "sget-boolean", format: Format::F21c, ref_kind: RefKind::Field },
        0x64u8 => OpcodeEntry { mnemonic: "sget-byte", format: Format::F21c, ref_kind: RefKind::Field },
        0x65u8 => OpcodeEntry { mnemonic: "sget-char", format: Format::F21c, ref_kind: RefKind::Field },
        0x66u8 => OpcodeEntry { mnemonic: "sget-short", format: Format::F21c, ref_kind: RefKind::Field },
        0x67u8 => OpcodeEntry { mnemonic: "sput", format: Format::F21c, ref_kind: RefKind::Field },
        0x68u8 => OpcodeEntry { mnemonic: "sput-wide", format: Format::F21c, ref_kind: RefKind::Field },
        0x69u8 => OpcodeEntry { mnemonic: "sput-object", format: Format::F21c, ref_kind: RefKind::Field },
        0x6au8 => OpcodeEntry { mnemonic: "sput-boolean", format: Format::F21c, ref_kind: RefKind::Field },
        0x6bu8 => OpcodeEntry { mnemonic: "sput-byte", format: Format::F21c, ref_kind: RefKind::Field },
        0x6cu8 => OpcodeEntry { mnemonic: "sput-char", format: Format::F21c, ref_kind: RefKind::Field },
        0x6du8 => OpcodeEntry { mnemonic: "sput-short", format: Format::F21c, ref_kind: RefKind::Field },
        0x6eu8 => OpcodeEntry { mnemonic: "invoke-virtual", format: Format::F35c, ref_kind: RefKind::Method },
        0x6fu8 => OpcodeEntry { mnemonic: "invoke-super", format: Format::F35c, ref_kind: RefKind::Method },
        0x70u8 => OpcodeEntry { mnemonic: "invoke-direct", format: Format::F35c, ref_kind: RefKind::Method },
        0x71u8 => OpcodeEntry { mnemonic: "invoke-static", format: Format::F35c, ref_kind: RefKind::Method },
        0x72u8 => OpcodeEntry { mnemonic: "invoke-interface", format: Format::F35c, ref_kind: RefKind::Method },
        0x73u8 => OpcodeEntry { mnemonic: "unused", format: Format::F00x, ref_kind: RefKind::NoRef },
        0x74u8 => OpcodeEntry { mnemonic: "invoke-virtual/range", format: Format::F3rc, ref_kind: RefKind::Method },
        0x75u8 => OpcodeEntry { mnemonic: "invoke-super/range", format: Format::F3rc, ref_kind: RefKind::Method },
        0x76u8 => OpcodeEntry { mnemonic: "invoke-direct/range", format: Format::F3rc, ref_kind: RefKind::Method },
        0x77u8 => OpcodeEntry { mnemonic: "invoke-static/range", format: Format::F3rc, ref_kind: RefKind::Method },
        0x78u8 => OpcodeEntry { mnemonic: "invoke-interface/range", format: Format::F3rc, ref_kind: RefKind::Method },
        0x79u8 => OpcodeEntry { mnemonic: "unused", format: Format::F00x, ref_kind: RefKind::NoRef },
        0x7au8 => OpcodeEntry { mnemonic: "unused", format: Format::F00x, ref_kind: RefKind::NoRef },
        0x7bu8 => OpcodeEntry { mnemonic: "neg-int", format: Format::F12x, ref_kind: RefKind::NoRef },
        0x7cu8 => OpcodeEntry { mnemonic: "not-int", format: Format::F12x, ref_kind: RefKind::NoRef },
        0x7du8 => OpcodeEntry { mnemonic: "neg-long", format: Format::F12x, ref_kind: RefKind::NoRef },
        0x7eu8 => OpcodeEntry { mnemonic: "not-long", format: Format::F12x, ref_kind: RefKind::NoRef },
        0x7fu8 => OpcodeEntry { mnemonic: "neg-float", format: Format::F12x, ref_kind: RefKind::NoRef },
        0x80u8 => OpcodeEntry { mnemonic: "neg-double", format: Format::F12x, ref_kind: RefKind::NoRef },
        0x81u8 => OpcodeEntry { mnemonic: "int-to-long", format: Format::F12x, ref_kind: RefKind::NoRef },
        0x82u8 => OpcodeEntry { mnemonic: "int-to-float", format: Format::F12x, ref_kind: RefKind::NoRef },
        0x83u8 => OpcodeEntry { mnemonic: "int-to-double", format: Format::F12x, ref_kind: RefKind::NoRef },
        0x84u8 => OpcodeEntry { mnemonic: "long-to-int", format: Format::F12x, ref_kind: RefKind::NoRef },
        0x85u8 => OpcodeEntry { mnemonic: "long-to-float", format: Format::F12x, ref_kind: RefKind::NoRef },
        0x86u8 => OpcodeEntry { mnemonic: "long-to-double", format: Format::F12x, ref_kind: RefKind::NoRef },
        0x87u8 => OpcodeEntry { mnemonic: "float-to-int", format: Format::F12x, ref_kind: RefKind::NoRef },
        0x88u8 => OpcodeEntry { mnemonic: "float-to-long", format: Format::F12x, ref_kind: RefKind::NoRef },
        0x89u8 => OpcodeEntry { mnemonic: "float-to-double", format: Format::F12x, ref_kind: RefKind::NoRef },
        0x8au8 => OpcodeEntry { mnemonic: "double-to-int", format: Format::F12x, ref_kind: RefKind::NoRef },
        0x8bu8 => OpcodeEntry { mnemonic: "double-to-long", format: Format::F12x, ref_kind: RefKind::NoRef },
        0x8cu8 => OpcodeEntry { mnemonic: "double-to-float", format: Format::F12x, ref_kind: RefKind::NoRef },
        0x8du8 => OpcodeEntry { mnemonic: "int-to-byte", format: Format::F12x, ref_kind: RefKind::NoRef },
        0x8eu8 => OpcodeEntry { mnemonic: "int-to-char", format: Format::F12x, ref_kind: RefKind::NoRef },
        0x8fu8 => OpcodeEntry { mnemonic: "int-to-short", format: Format::F12x, ref_kind: RefKind::NoRef },
        0x90u8 => OpcodeEntry { mnemonic: "add-int", format: Format::F23x, ref_kind: RefKind::NoRef },
        0x91u8 => OpcodeEntry { mnemonic: "sub-int", format: Format::F23x, ref_kind: RefKind::NoRef },
        0x92u8 => OpcodeEntry { mnemonic: "mul-int", format: Format::F23x, ref_kind: RefKind::NoRef },
        0x93u8 => OpcodeEntry { mnemonic: "div-int", format: Format::F23x, ref_kind: RefKind::NoRef },
        0x94u8 => OpcodeEntry { mnemonic: "rem-int", format: Format::F23x, ref_kind: RefKind::NoRef },
        0x95u8 => OpcodeEntry { mnemonic: "and-int", format: Format::F23x, ref_kind: RefKind::NoRef },
        0x96u8 => OpcodeEntry { mnemonic: "or-int", format: Format::F23x, ref_kind: RefKind::NoRef },
        0x97u8 => OpcodeEntry { mnemonic: "xor-int", format: Format::F23x, ref_kind: RefKind::NoRef },
        0x98u8 => OpcodeEntry { mnemonic: "shl-int", format: Format::F23x, ref_kind: RefKind::NoRef },
        0x99u8 => OpcodeEntry { mnemonic: "shr-int", format: Format::F23x, ref_kind: RefKind::NoRef },
        0x9au8 => OpcodeEntry { mnemonic: "ushr-int", format: Format::F23x, ref_kind: RefKind::NoRef },
        0x9bu8 => OpcodeEntry { mnemonic: "add-long", format: Format::F23x, ref_kind: RefKind::NoRef },
        0x9cu8 => OpcodeEntry { mnemonic: "sub-long", format: Format::F23x, ref_kind: RefKind::NoRef },
        0x9du8 => OpcodeEntry { mnemonic: "mul-long", format: Format::F23x, ref_kind: RefKind::NoRef },
        0x9eu8 => OpcodeEntry { mnemonic: "div-long", format: Format::F23x, ref_kind: RefKind::NoRef },
        0x9fu8 => OpcodeEntry { mnemonic: "rem-long", format: Format::F23x, ref_kind: RefKind::NoRef },
        0xa0u8 => OpcodeEntry { mnemonic: "and-long", format: Format::F23x, ref_kind: RefKind::NoRef },
        0xa1u8 => OpcodeEntry { mnemonic: "or-long", format: Format::F23x, ref_kind: RefKind::NoRef },
        0xa2u8 => OpcodeEntry { mnemonic: "xor-long", format: Format::F23x, ref_kind: RefKind::NoRef },
        0xa3u8 => OpcodeEntry { mnemonic: "shl-long", format: Format::F23x, ref_kind: RefKind::NoRef },
        0xa4u8 => OpcodeEntry { mnemonic: "shr-long", format: Format::F23x, ref_kind: RefKind::NoRef },
        0xa5u8 => OpcodeEntry { mnemonic: "ushr-long", format: Format::F23x, ref_kind: RefKind::NoRef },
        0xa6u8 => OpcodeEntry { mnemonic: "add-float", format: Format::F23x, ref_kind: RefKind::NoRef },
        0xa7u8 => OpcodeEntry { mnemonic: "sub-float", format: Format::F23x, ref_kind: RefKind::NoRef },
        0xa8u8 => OpcodeEntry { mnemonic: "mul-float", format: Format::F23x, ref_kind: RefKind::NoRef },
        0xa9u8 => OpcodeEntry { mnemonic: "div-float", format: Format::F23x, ref_kind: RefKind::NoRef },
        0xaau8 => OpcodeEntry { mnemonic: "rem-float", format: Format::F23x, ref_kind: RefKind::NoRef },
        0xabu8 => OpcodeEntry { mnemonic: "add-double", format: Format::F23x, ref_kind: RefKind::NoRef },
        0xacu8 => OpcodeEntry { mnemonic: "sub-double", format: Format::F23x, ref_kind: RefKind::NoRef },
        0xadu8 => OpcodeEntry { mnemonic: "mul-double", format: Format::F23x, ref_kind: RefKind::NoRef },
        0xaeu8 => OpcodeEntry { mnemonic: "div-double", format: Format::F23x, ref_kind: RefKind::NoRef },
        0xafu8 => OpcodeEntry { mnemonic: "rem-double", format: Format::F23x, ref_kind: RefKind::NoRef },
        0xb0u8 => OpcodeEntry { mnemonic: "add-int/2addr", format: Format::F12x, ref_kind: RefKind::NoRef },
        0xb1u8 => OpcodeEntry { mnemonic: "sub-int/2addr", format: Format::F12x, ref_kind: RefKind::NoRef },
        0xb2u8 => OpcodeEntry { mnemonic: "mul-int/2addr", format: Format::F12x, ref_kind: RefKind::NoRef },
        0xb3u8 => OpcodeEntry { mnemonic: "div-int/2addr", format: Format::F12x, ref_kind: RefKind::NoRef },
        0xb4u8 => OpcodeEntry { mnemonic: "rem-int/2addr", format: Format::F12x, ref_kind: RefKind::NoRef },
        0xb5u8 => OpcodeEntry { mnemonic: "and-int/2addr", format: Format::F12x, ref_kind: RefKind::NoRef },
        0xb6u8 => OpcodeEntry { mnemonic: "or-int/2addr", format: Format::F12x, ref_kind: RefKind::NoRef },
        0xb7u8 => OpcodeEntry { mnemonic: "xor-int/2addr", format: Format::F12x, ref_kind: RefKind::NoRef },
        0xb8u8 => OpcodeEntry { mnemonic: "shl-int/2addr", format: Format::F12x, ref_kind: RefKind::NoRef },
        0xb9u8 => OpcodeEntry { mnemonic: "shr-int/2addr", format: Format::F12x, ref_kind: RefKind::NoRef },
        0xbau8 => OpcodeEntry { mnemonic: "ushr-int/2addr", format: Format::F12x, ref_kind: RefKind::NoRef },
        0xbbu8 => OpcodeEntry { mnemonic: "add-long/2addr", format: Format::F12x, ref_kind: RefKind::NoRef },
        0xbcu8 => OpcodeEntry { mnemonic: "sub-long/2addr", format: Format::F12x, ref_kind: RefKind::NoRef },
        0xbdu8 => OpcodeEntry { mnemonic: "mul-long/2addr", format: Format::F12x, ref_kind: RefKind::NoRef },
        0xbeu8 => OpcodeEntry { mnemonic: "div-long/2addr", format: Format::F12x, ref_kind: RefKind::NoRef },
        0xbfu8 => OpcodeEntry { mnemonic: "rem-long/2addr", format: Format::F12x, ref_kind: RefKind::NoRef },
        0xc0u8 => OpcodeEntry { mnemonic: "and-long/2addr", format: Format::F12x, ref_kind: RefKind::NoRef },
        0xc1u8 => OpcodeEntry { mnemonic: "or-long/2addr", format: Format::F12x, ref_kind: RefKind::NoRef },
        0xc2u8 => OpcodeEntry { mnemonic: "xor-long/2addr", format: Format::F12x, ref_kind: RefKind::NoRef },
        0xc3u8 => OpcodeEntry { mnemonic: "shl-long/2addr", format: Format::F12x, ref_kind: RefKind::NoRef },
        0xc4u8 => OpcodeEntry { mnemonic: "shr-long/2addr", format: Format::F12x, ref_kind: RefKind::NoRef },
        0xc5u8 => OpcodeEntry { mnemonic: "ushr-long/2addr", format: Format::F12x, ref_kind: RefKind::NoRef },
        0xc6u8 => OpcodeEntry { mnemonic: "add-float/2addr", format: Format::F12x, ref_kind: RefKind::NoRef },
        0xc7u8 => OpcodeEntry { mnemonic: "sub-float/2addr", format: Format::F12x, ref_kind: RefKind::NoRef },
        0xc8u8 => OpcodeEntry { mnemonic: "mul-float/2addr", format: Format::F12x, ref_kind: RefKind::NoRef },
        0xc9u8 => OpcodeEntry { mnemonic: "div-float/2addr", format: Format::F12x, ref_kind: RefKind::NoRef },
        0xcau8 => OpcodeEntry { mnemonic: "rem-float/2addr", format: Format::F12x, ref_kind: RefKind::NoRef },
        0xcbu8 => OpcodeEntry { mnemonic: "add-double/2addr", format: Format::F12x, ref_kind: RefKind::NoRef },
        0xccu8 => OpcodeEntry { mnemonic: "sub-double/2addr", format: Format::F12x, ref_kind: RefKind::NoRef },
        0xcdu8 => OpcodeEntry { mnemonic: "mul-double/2addr", format: Format::F12x, ref_kind: RefKind::NoRef },
        0xceu8 => OpcodeEntry { mnemonic: "div-double/2addr", format: Format::F12x, ref_kind: RefKind::NoRef },
        0xcfu8 => OpcodeEntry { mnemonic: "rem-double/2addr", format: Format::F12x, ref_kind: RefKind::NoRef },
        0xd0u8 => OpcodeEntry { mnemonic: "add-int/lit16", format: Format::F22s, ref_kind: RefKind::NoRef },
        0xd1u8 => OpcodeEntry { mnemonic: "rsub-int", format: Format::F22s, ref_kind: RefKind::NoRef },
        0xd2u8 => OpcodeEntry { mnemonic: "mul-int/lit16", format: Format::F22s, ref_kind: RefKind::NoRef },
        0xd3u8 => OpcodeEntry { mnemonic: "div-int/lit16", format: Format::F22s, ref_kind: RefKind::NoRef },
        0xd4u8 => OpcodeEntry { mnemonic: "rem-int/lit16", format: Format::F22s, ref_kind: RefKind::NoRef },
        0xd5u8 => OpcodeEntry { mnemonic: "and-int/lit16", format: Format::F22s, ref_kind: RefKind::NoRef },
        0xd6u8 => OpcodeEntry { mnemonic: "or-int/lit16", format: Format::F22s, ref_kind: RefKind::NoRef },
        0xd7u8 => OpcodeEntry { mnemonic: "xor-int/lit16", format: Format::F22s, ref_kind: RefKind::NoRef },
        0xd8u8 => OpcodeEntry { mnemonic: "add-int/lit8", format: Format::F22b, ref_kind: RefKind::NoRef },
        0xd9u8 => OpcodeEntry { mnemonic: "rsub-int/lit8", format: Format::F22b, ref_kind: RefKind::NoRef },
        0xdau8 => OpcodeEntry { mnemonic: "mul-int/lit8", format: Format::F22b, ref_kind: RefKind::NoRef },
        0xdbu8 => OpcodeEntry { mnemonic: "div-int/lit8", format: Format::F22b, ref_kind: RefKind::NoRef },
        0xdcu8 => OpcodeEntry { mnemonic: "rem-int/lit8", format: Format::F22b, ref_kind: RefKind::NoRef },
        0xddu8 => OpcodeEntry { mnemonic: "and-int/lit8", format: Format::F22b, ref_kind: RefKind::NoRef },
        0xdeu8 => OpcodeEntry { mnemonic: "or-int/lit8", format: Format::F22b, ref_kind: RefKind::NoRef },
        0xdfu8 => OpcodeEntry { mnemonic: "xor-int/lit8", format: Format::F22b, ref_kind: RefKind::NoRef },
        0xe0u8 => OpcodeEntry { mnemonic: "shl-int/lit8", format: Format::F22b, ref_kind: RefKind::NoRef },
        0xe1u8 => OpcodeEntry { mnemonic: "shr-int/lit8", format: Format::F22b, ref_kind: RefKind::NoRef },
        0xe2u8 => OpcodeEntry { mnemonic: "ushr-int/lit8", format: Format::F22b, ref_kind: RefKind::NoRef },
        0xe3u8 => OpcodeEntry { mnemonic: "unused", format: Format::F00x, ref_kind: RefKind::NoRef },
        0xe4u8 => OpcodeEntry { mnemonic: "unused", format: Format::F00x, ref_kind: RefKind::NoRef },
        0xe5u8 => OpcodeEntry { mnemonic: "unused", format: Format::F00x, ref_kind: RefKind::NoRef },
        0xe6u8 => OpcodeEntry { mnemonic: "unused", format: Format::F00x, ref_kind: RefKind::NoRef },
        0xe7u8 => OpcodeEntry { mnemonic: "unused", format: Format::F00x, ref_kind: RefKind::NoRef },
        0xe8u8 => OpcodeEntry { mnemonic: "unused", format: Format::F00x, ref_kind: RefKind::NoRef },
        0xe9u8 => OpcodeEntry { mnemonic: "unused", format: Format::F00x, ref_kind: RefKind::NoRef },
        0xeau8 => OpcodeEntry { mnemonic: "unused", format: Format::F00x, ref_kind: RefKind::NoRef },
        0xebu8 => OpcodeEntry { mnemonic: "unused", format: Format::F00x, ref_kind: RefKind::NoRef },
        0xecu8 => OpcodeEntry { mnemonic: "unused", format: Format::F00x, ref_kind: RefKind::NoRef },
        0xedu8 => OpcodeEntry { mnemonic: "unused", format: Format::F00x, ref_kind: RefKind::NoRef },
        0xeeu8 => OpcodeEntry { mnemonic: "unused", format: Format::F00x, ref_kind: RefKind::NoRef },
        0xefu8 => OpcodeEntry { mnemonic: "unused", format: Format::F00x, ref_kind: RefKind::NoRef },
        0xf0u8 => OpcodeEntry { mnemonic: "unused", format: Format::F00x, ref_kind: RefKind::NoRef },
        0xf1u8 => OpcodeEntry { mnemonic: "unused", format: Format::F00x, ref_kind: RefKind::NoRef },
        0xf2u8 => OpcodeEntry { mnemonic: "unused", format: Format::F00x, ref_kind: RefKind::NoRef },
        0xf3u8 => OpcodeEntry { mnemonic: "unused", format: Format::F00x, ref_kind: RefKind::NoRef },
        0xf4u8 => OpcodeEntry { mnemonic: "unused", format: Format::F00x, ref_kind: RefKind::NoRef },
        0xf5u8 => OpcodeEntry { mnemonic: "unused", format: Format::F00x, ref_kind: RefKind::NoRef },
        0xf6u8 => OpcodeEntry { mnemonic: "unused", format: Format::F00x, ref_kind: RefKind::NoRef },
        0xf7u8 => OpcodeEntry { mnemonic: "unused", format: Format::F00x, ref_kind: RefKind::NoRef },
        0xf8u8 => OpcodeEntry { mnemonic: "unused", format: Format::F00x, ref_kind: RefKind::NoRef },
        0xf9u8 => OpcodeEntry { mnemonic: "unused", format: Format::F00x, ref_kind: RefKind::NoRef },
        0xfau8 => OpcodeEntry { mnemonic: "invoke-polymorphic", format: Format::F45cc, ref_kind: RefKind::Method },
        0xfbu8 => OpcodeEntry { mnemonic: "invoke-polymorphic/range", format: Format::F4rcc, ref_kind: RefKind::Method },
        0xfcu8 => OpcodeEntry { mnemonic: "invoke-custom", format: Format::F35c, ref_kind: RefKind::CallSite },
        0xfdu8 => OpcodeEntry { mnemonic: "invoke-custom/range", format: Format::F3rc, ref_kind: RefKind::CallSite },
        0xfeu8 => OpcodeEntry { mnemonic: "const-method-handle", format: Format::F21c, ref_kind: RefKind::Varies },
        0xffu8 => OpcodeEntry { mnemonic: "const-method-type", format: Format::F21c, ref_kind: RefKind::MethodProto },
    }
}

} // verus!
