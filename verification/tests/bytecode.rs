use hivm2::vm::bytecode::ops::{
    BBranchIf, BBranchIfNot, BCall, BCallNative, BFnEntry, BGetArg, BGetLocal, BInvoke,
    BLoadConst, BOp, BPushAddress, BSetLocal, BinarySerializable, DecodeError, IntoOpConvertable,
};
use hivm2::vm::bytecode::util::{
    patch_addr, Cursor, NativeEndianReadExt, NativeEndianWriteExt, ReadTypesExt, WriteTypesExt,
};

fn all_ops() -> Vec<BOp> {
    vec![
        BOp::FnEntry(BFnEntry { num_locals: 0x0102 }),
        BOp::GetLocal(BGetLocal { idx: 0xfffe }),
        BOp::SetLocal(BSetLocal { idx: 7 }),
        BOp::Call(BCall {
            addr: 0x0102030405060708,
            num_args: 9,
        }),
        BOp::Invoke(BInvoke { num_args: 255 }),
        BOp::PushAddress(BPushAddress { addr: u64::MAX }),
        BOp::BranchIf(BBranchIf { dest: 1 }),
        BOp::BranchIfNot(BBranchIfNot { dest: 0x8000000000000000 }),
        BOp::LoadConst(BLoadConst { id: 0 }),
        BOp::Return,
        BOp::Pop,
        BOp::Noop,
    ]
}

#[test]
fn ops_are_encoded_in_host_order() {
    let mut expected = vec![0u8];
    expected.extend_from_slice(&0x0102u16.to_ne_bytes());
    assert_eq!(BOp::FnEntry(BFnEntry { num_locals: 0x0102 }).to_binary(), expected);

    let mut expected = vec![3u8];
    expected.extend_from_slice(&0x0102030405060708u64.to_ne_bytes());
    expected.push(9);
    assert_eq!(
        BOp::Call(BCall {
            addr: 0x0102030405060708,
            num_args: 9
        })
        .to_binary(),
        expected
    );

    let mut expected = vec![11u8];
    expected.extend_from_slice(&0xa1a2a3a4a5a6a7a8u64.to_ne_bytes());
    assert_eq!(
        BOp::LoadConst(BLoadConst {
            id: 0xa1a2a3a4a5a6a7a8
        })
        .to_binary(),
        expected
    );
    assert_eq!(BOp::Invoke(BInvoke { num_args: 4 }).to_binary(), vec![4, 4]);
    assert_eq!(BOp::Return.to_binary(), vec![5]);
    assert_eq!(BOp::Pop.to_binary(), vec![9]);
    assert_eq!(BOp::Noop.to_binary(), vec![10]);
}

#[test]
fn opcodes_are_fixed() {
    let opcodes: Vec<u8> = all_ops().iter().map(|op| op.opcode()).collect();
    assert_eq!(opcodes, vec![0, 1, 2, 3, 4, 6, 7, 8, 11, 5, 9, 10]);
}

#[test]
fn sizes_are_those_of_the_encodings() {
    for op in all_ops() {
        assert_eq!(op.size(), op.to_binary().len());
    }
    let sizes: Vec<usize> = all_ops().iter().map(|op| op.size()).collect();
    assert_eq!(sizes, vec![3, 3, 3, 10, 2, 9, 9, 9, 9, 1, 1, 1]);
}

#[test]
fn decoding_undoes_encoding() {
    for op in all_ops() {
        let mut bytes = op.to_binary();
        bytes.extend_from_slice(&[0xee, 0xee]);
        let mut cursor = Cursor::new(&bytes);
        assert_eq!(BOp::from_binary(&mut cursor), Ok(op));
        assert_eq!(cursor.position() as usize, op.size());
        assert_eq!(cursor.remaining(), 2);
    }
}

#[test]
fn a_sequence_of_ops_is_decoded_in_order() {
    let bytes = BOp::compile_ops(all_ops());
    let mut expected = Vec::new();
    for op in all_ops() {
        expected.extend(op.to_binary());
    }
    assert_eq!(bytes, expected);

    let mut cursor = Cursor::new(&bytes);
    for op in all_ops() {
        assert_eq!(BOp::from_binary(&mut cursor), Ok(op));
    }
    assert_eq!(cursor.remaining(), 0);
    assert_eq!(
        BOp::from_binary(&mut cursor),
        Err(DecodeError::UnexpectedEnd)
    );
}

#[test]
fn unknown_opcodes_are_refused() {
    let bytes = vec![12u8, 0, 0];
    let mut cursor = Cursor::new(&bytes);
    assert_eq!(
        BOp::from_binary(&mut cursor),
        Err(DecodeError::UnknownOpcode(12))
    );
    assert_eq!(cursor.position(), 0);

    let bytes = vec![10u8, 255];
    let mut cursor = Cursor::new(&bytes);
    cursor.set_position(1);
    assert_eq!(
        BOp::from_binary(&mut cursor),
        Err(DecodeError::UnknownOpcode(255))
    );
    assert_eq!(cursor.position(), 1);
}

#[test]
fn cut_off_ops_are_refused() {
    for op in all_ops() {
        let bytes = op.to_binary();
        for len in 0..bytes.len() {
            let cut = bytes[..len].to_vec();
            let mut cursor = Cursor::new(&cut);
            assert_eq!(
                BOp::from_binary(&mut cursor),
                Err(DecodeError::UnexpectedEnd)
            );
            assert_eq!(cursor.position(), 0);
        }
    }
    let bytes = vec![5u8];
    let mut cursor = Cursor::new(&bytes);
    cursor.set_position(9);
    assert_eq!(
        BOp::from_binary(&mut cursor),
        Err(DecodeError::UnexpectedEnd)
    );
}

#[test]
fn address_fields_follow_the_opcode() {
    for op in all_ops() {
        let has = matches!(
            op,
            BOp::Call(_)
                | BOp::PushAddress(_)
                | BOp::BranchIf(_)
                | BOp::BranchIfNot(_)
                | BOp::LoadConst(_)
        );
        assert_eq!(op.has_addr_field(), has);
        if has {
            assert_eq!(op.addr_field_offset(0), 1);
        }
    }
}

#[test]
fn operands_become_ops() {
    assert_eq!(
        BCall {
            addr: 1,
            num_args: 2
        }
        .into_op(),
        BOp::Call(BCall {
            addr: 1,
            num_args: 2
        })
    );
    assert_eq!(BInvoke { num_args: 2 }.into_op(), BOp::Invoke(BInvoke { num_args: 2 }));
    assert_eq!(BSetLocal { idx: 2 }.into_op(), BOp::SetLocal(BSetLocal { idx: 2 }));
    assert_eq!(BGetLocal { idx: 2 }.into_op(), BOp::GetLocal(BGetLocal { idx: 2 }));
    assert_eq!(
        BFnEntry { num_locals: 2 }.into_op(),
        BOp::FnEntry(BFnEntry { num_locals: 2 })
    );
    assert_eq!(
        BPushAddress { addr: 2 }.into_op(),
        BOp::PushAddress(BPushAddress { addr: 2 })
    );
    assert_eq!(BBranchIf { dest: 2 }.into_op(), BOp::BranchIf(BBranchIf { dest: 2 }));
    assert_eq!(
        BBranchIfNot { dest: 2 }.into_op(),
        BOp::BranchIfNot(BBranchIfNot { dest: 2 })
    );
    assert_eq!(BLoadConst { id: 2 }.into_op(), BOp::LoadConst(BLoadConst { id: 2 }));
}

#[test]
fn operands_round_trip() {
    let native = BCallNative {
        id: 0x01020304,
        num_args: 3,
    };
    let bytes = native.to_binary();
    let mut expected = 0x01020304u32.to_ne_bytes().to_vec();
    expected.push(3);
    assert_eq!(bytes, expected);
    let mut cursor = Cursor::new(&bytes);
    assert_eq!(BCallNative::from_binary(&mut cursor), native);
    assert_eq!(cursor.position(), 5);

    let arg = BGetArg { idx: 255 };
    let bytes = arg.to_binary();
    assert_eq!(bytes, vec![255]);
    let mut cursor = Cursor::new(&bytes);
    assert_eq!(BGetArg::from_binary(&mut cursor), arg);

    let call = BCall {
        addr: 0x1122334455667788,
        num_args: 1,
    };
    let bytes = call.to_binary();
    let mut cursor = Cursor::new(&bytes);
    assert_eq!(BCall::from_binary(&mut cursor), call);
}

#[test]
fn writes_append_in_host_order() {
    let mut bytes: Vec<u8> = vec![0xaa];
    bytes.write_hu8(0x01);
    bytes.write_hu16(0x0203);
    bytes.write_hu32(0x04050607);
    bytes.write_hu64(0x08090a0b0c0d0e0f);
    bytes.write_local(0x1011);
    bytes.write_addr(0x1213141516171819);

    let mut expected: Vec<u8> = vec![0xaa, 0x01];
    expected.extend_from_slice(&0x0203u16.to_ne_bytes());
    expected.extend_from_slice(&0x04050607u32.to_ne_bytes());
    expected.extend_from_slice(&0x08090a0b0c0d0e0fu64.to_ne_bytes());
    expected.extend_from_slice(&0x1011u16.to_ne_bytes());
    expected.extend_from_slice(&0x1213141516171819u64.to_ne_bytes());
    assert_eq!(bytes, expected);
}

#[test]
fn reads_take_what_was_written() {
    let mut bytes: Vec<u8> = Vec::new();
    bytes.write_hu8(0x01);
    bytes.write_hu16(0x0203);
    bytes.write_hu32(0x04050607);
    bytes.write_hu64(0x08090a0b0c0d0e0f);
    bytes.write_local(0x1011);
    bytes.write_addr(0x1213141516171819);

    let mut cursor = Cursor::new(&bytes);
    assert_eq!(cursor.remaining(), 25);
    assert_eq!(cursor.read_hu8(), 0x01);
    assert_eq!(cursor.read_hu16(), 0x0203);
    assert_eq!(cursor.read_hu32(), 0x04050607);
    assert_eq!(cursor.read_hu64(), 0x08090a0b0c0d0e0f);
    assert_eq!(cursor.position(), 15);
    assert_eq!(cursor.read_local(), 0x1011);
    assert_eq!(cursor.read_addr(), 0x1213141516171819);
    assert_eq!(cursor.remaining(), 0);

    cursor.set_position(1);
    assert_eq!(cursor.read_hu16(), 0x0203);
    cursor.set_position(100);
    assert_eq!(cursor.remaining(), 0);
}

#[test]
fn patching_overwrites_eight_bytes() {
    let mut bytes: Vec<u8> = (0u8..12).collect();
    patch_addr(&mut bytes, 3, 0xa1a2a3a4a5a6a7a8);
    let mut expected: Vec<u8> = vec![0, 1, 2];
    expected.extend_from_slice(&0xa1a2a3a4a5a6a7a8u64.to_ne_bytes());
    expected.push(11);
    assert_eq!(bytes, expected);

    let mut cursor = Cursor::new(&bytes);
    cursor.set_position(3);
    assert_eq!(cursor.read_addr(), 0xa1a2a3a4a5a6a7a8);
}
