use transit::instruction::Category;
use transit::instruction::DecodeError;
use transit::instruction::Instruction;
use transit::instruction::Operation;

#[test]
fn encode_test() {
    let ins = Instruction { id: 5, operation: Operation::AbortDir, buffer: true, length: 12 };
    let buf: [u8; 6] = [0, 5, 121, 1, 0, 12];
    assert_eq!(&ins.encode(), &buf);
}

#[test]
fn decode_example_frame() {
    let buf: [u8; 6] = [0, 5, 121, 1, 0, 12];
    let ins = Instruction::decode(&buf).unwrap();
    assert_eq!(ins.id, 5);
    assert_eq!(ins.operation, Operation::AbortDir);
    assert!(ins.buffer);
    assert_eq!(ins.length, 12);
}

#[test]
fn round_trip_all_operations() {
    let ops = [
        Operation::ConnWithoutPass,
        Operation::ConnWithPass,
        Operation::PreSendFile,
        Operation::PreSendContent,
        Operation::ContinueContent,
        Operation::EndSendFile,
        Operation::PreSendDir,
        Operation::EndSendDir,
        Operation::PreSendMsg,
        Operation::EndConn,
        Operation::ConnSuccess,
        Operation::ConnRefuse,
        Operation::ConnFail,
        Operation::RequestSuccess,
        Operation::RequestRefuse,
        Operation::RequestFail,
        Operation::AbortFile,
        Operation::AbortDir,
    ];
    for op in ops {
        let ins = Instruction { id: 0xBEEF, operation: op, buffer: false, length: 0xABCD };
        let decoded = Instruction::decode(&ins.encode()).unwrap();
        assert_eq!(decoded, ins);
    }
}

#[test]
fn round_trip_big_endian_fields() {
    let ins =
        Instruction { id: 0x0102, operation: Operation::PreSendMsg, buffer: false, length: 0x0304 };
    let bytes = ins.encode();
    assert_eq!(bytes, [1, 2, 30, 0, 3, 4]);
    assert_eq!(Instruction::decode(&bytes).unwrap(), ins);
}

#[test]
fn decode_unknown_operation() {
    let buf: [u8; 6] = [0, 1, 255, 0, 0, 9];
    assert_eq!(Instruction::decode(&buf), Err(DecodeError::UnknownOperation));
    let buf2: [u8; 6] = [0, 0, 2, 0, 0, 0];
    assert_eq!(Instruction::decode(&buf2), Err(DecodeError::UnknownOperation));
}

#[test]
fn decode_buffer_permissive() {
    // A buffer byte other than 1 means false: no error is raised.
    let buf: [u8; 6] = [0, 0, 100, 7, 0, 0];
    let ins = Instruction::decode(&buf).unwrap();
    assert!(!ins.buffer);
    let buf1: [u8; 6] = [0, 0, 100, 1, 0, 0];
    assert!(Instruction::decode(&buf1).unwrap().buffer);
}

#[test]
fn try_from_validates_codes() {
    assert_eq!(Operation::try_from(0).unwrap(), Operation::ConnWithoutPass);
    assert_eq!(Operation::try_from(12).unwrap(), Operation::ContinueContent);
    assert_eq!(Operation::try_from(100).unwrap(), Operation::EndConn);
    assert_eq!(Operation::try_from(121).unwrap(), Operation::AbortDir);
    assert_eq!(Operation::try_from(5), Err(DecodeError::UnknownOperation));
    assert_eq!(Operation::try_from(122), Err(DecodeError::UnknownOperation));
    assert_eq!(Operation::try_from(255), Err(DecodeError::UnknownOperation));
}

#[test]
fn category_is_stable() {
    // Classification is a pure function of the code: repeated calls agree.
    let ops = [Operation::PreSendFile, Operation::EndConn, Operation::ConnRefuse];
    for op in ops {
        let first = op.category();
        for _ in 0..3 {
            assert_eq!(op.category(), first);
        }
    }
    assert_eq!(Operation::PreSendFile.category(), Category::Request);
    assert_eq!(Operation::PreSendMsg.category(), Category::Request);
    assert_eq!(Operation::EndConn.category(), Category::Mutual);
    assert_eq!(Operation::ConnSuccess.category(), Category::Response);
    assert_eq!(Operation::AbortDir.category(), Category::Response);
}

#[test]
fn conn_without_pass_frame() {
    let ins = Instruction::conn_without_pass(42);
    assert_eq!(ins.id, 42);
    assert_eq!(ins.operation, Operation::ConnWithoutPass);
    assert!(!ins.buffer);
    assert_eq!(ins.length, 0);
    assert_eq!(ins.encode(), [0, 42, 0, 0, 0, 0]);
}
