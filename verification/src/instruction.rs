//! Operation taxonomy and the frame codec.
//!
//! A frame header is exactly 6 bytes, big-endian: a 16-bit transfer `id`,
//! an 8-bit operation code, a boolean `buffer` byte ("another frame for the
//! same item follows"), and the 16-bit byte `length` of the payload that
//! follows the header on the stream.

use vstd::prelude::*;

verus! {

/// The verb of a frame: the closed set of operation codes.
#[derive(Clone, Copy, PartialEq, Eq, Structural, Debug)]
pub enum Operation {
    ConnWithoutPass,
    ConnWithPass,
    PreSendFile,
    PreSendContent,
    ContinueContent,
    EndSendFile,
    PreSendDir,
    EndSendDir,
    PreSendMsg,
    EndConn,
    ConnSuccess,
    ConnRefuse,
    ConnFail,
    RequestSuccess,
    RequestRefuse,
    RequestFail,
    AbortFile,
    AbortDir,
}

/// The direction class of an operation: Requests flow client to server,
/// Responses server to client, and Mutual operations either way.
#[derive(Clone, Copy, PartialEq, Eq, Structural, Debug)]
pub enum Category {
    Request,
    Mutual,
    Response,
}

/// Decoding a header can fail in exactly one way: the operation byte
/// matches no code of the taxonomy.
#[derive(Clone, Copy, PartialEq, Eq, Structural, Debug)]
pub enum DecodeError {
    UnknownOperation,
}

/// The wire code of each operation.
pub open spec fn code_of(op: Operation) -> u8 {
    match op {
        Operation::ConnWithoutPass => 0,
        Operation::ConnWithPass => 1,
        Operation::PreSendFile => 10,
        Operation::PreSendContent => 11,
        Operation::ContinueContent => 12,
        Operation::EndSendFile => 13,
        Operation::PreSendDir => 20,
        Operation::EndSendDir => 21,
        Operation::PreSendMsg => 30,
        Operation::EndConn => 100,
        Operation::ConnSuccess => 101,
        Operation::ConnRefuse => 102,
        Operation::ConnFail => 103,
        Operation::RequestSuccess => 110,
        Operation::RequestRefuse => 111,
        Operation::RequestFail => 112,
        Operation::AbortFile => 120,
        Operation::AbortDir => 121,
    }
}

/// The operation a wire code stands for, or `None` outside the taxonomy.
pub open spec fn operation_of_code(code: u8) -> Option<Operation> {
    if code == 0 {
        Some(Operation::ConnWithoutPass)
    } else if code == 1 {
        Some(Operation::ConnWithPass)
    } else if code == 10 {
        Some(Operation::PreSendFile)
    } else if code == 11 {
        Some(Operation::PreSendContent)
    } else if code == 12 {
        Some(Operation::ContinueContent)
    } else if code == 13 {
        Some(Operation::EndSendFile)
    } else if code == 20 {
        Some(Operation::PreSendDir)
    } else if code == 21 {
        Some(Operation::EndSendDir)
    } else if code == 30 {
        Some(Operation::PreSendMsg)
    } else if code == 100 {
        Some(Operation::EndConn)
    } else if code == 101 {
        Some(Operation::ConnSuccess)
    } else if code == 102 {
        Some(Operation::ConnRefuse)
    } else if code == 103 {
        Some(Operation::ConnFail)
    } else if code == 110 {
        Some(Operation::RequestSuccess)
    } else if code == 111 {
        Some(Operation::RequestRefuse)
    } else if code == 112 {
        Some(Operation::RequestFail)
    } else if code == 120 {
        Some(Operation::AbortFile)
    } else if code == 121 {
        Some(Operation::AbortDir)
    } else {
        None
    }
}

/// The category each operation belongs to.
pub open spec fn category_of(op: Operation) -> Category {
    match op {
        Operation::ConnWithoutPass => Category::Request,
        Operation::ConnWithPass => Category::Request,
        Operation::PreSendFile => Category::Request,
        Operation::PreSendContent => Category::Request,
        Operation::ContinueContent => Category::Request,
        Operation::EndSendFile => Category::Request,
        Operation::PreSendDir => Category::Request,
        Operation::EndSendDir => Category::Request,
        Operation::PreSendMsg => Category::Request,
        Operation::EndConn => Category::Mutual,
        Operation::ConnSuccess => Category::Response,
        Operation::ConnRefuse => Category::Response,
        Operation::ConnFail => Category::Response,
        Operation::RequestSuccess => Category::Response,
        Operation::RequestRefuse => Category::Response,
        Operation::RequestFail => Category::Response,
        Operation::AbortFile => Category::Response,
        Operation::AbortDir => Category::Response,
    }
}

impl Operation {
    /// The 8-bit code this operation is written as on the wire.
    pub fn code(&self) -> (r: u8)
        ensures
            r == code_of(*self),
    {
        match self {
            Operation::ConnWithoutPass => 0,
            Operation::ConnWithPass => 1,
            Operation::PreSendFile => 10,
            Operation::PreSendContent => 11,
            Operation::ContinueContent => 12,
            Operation::EndSendFile => 13,
            Operation::PreSendDir => 20,
            Operation::EndSendDir => 21,
            Operation::PreSendMsg => 30,
            Operation::EndConn => 100,
            Operation::ConnSuccess => 101,
            Operation::ConnRefuse => 102,
            Operation::ConnFail => 103,
            Operation::RequestSuccess => 110,
            Operation::RequestRefuse => 111,
            Operation::RequestFail => 112,
            Operation::AbortFile => 120,
            Operation::AbortDir => 121,
        }
    }

    /// Total validation of a raw code: the only way an `Operation` is ever
    /// built from a byte. Returns `UnknownOperation` exactly on the bytes
    /// outside the taxonomy.
    pub fn try_from(value: u8) -> (r: Result<Operation, DecodeError>)
        ensures
            match r {
                Ok(op) => operation_of_code(value) == Some(op),
                Err(e) => operation_of_code(value) is None && e == DecodeError::UnknownOperation,
            },
    {
        match value {
            0 => Ok(Operation::ConnWithoutPass),
            1 => Ok(Operation::ConnWithPass),
            10 => Ok(Operation::PreSendFile),
            11 => Ok(Operation::PreSendContent),
            12 => Ok(Operation::ContinueContent),
            13 => Ok(Operation::EndSendFile),
            20 => Ok(Operation::PreSendDir),
            21 => Ok(Operation::EndSendDir),
            30 => Ok(Operation::PreSendMsg),
            100 => Ok(Operation::EndConn),
            101 => Ok(Operation::ConnSuccess),
            102 => Ok(Operation::ConnRefuse),
            103 => Ok(Operation::ConnFail),
            110 => Ok(Operation::RequestSuccess),
            111 => Ok(Operation::RequestRefuse),
            112 => Ok(Operation::RequestFail),
            120 => Ok(Operation::AbortFile),
            121 => Ok(Operation::AbortDir),
            _ => Err(DecodeError::UnknownOperation),
        }
    }

    /// The direction class of this operation.
    pub fn category(&self) -> (r: Category)
        ensures
            r == category_of(*self),
    {
        match self {
            Operation::ConnWithoutPass => Category::Request,
            Operation::ConnWithPass => Category::Request,
            Operation::PreSendFile => Category::Request,
            Operation::PreSendContent => Category::Request,
            Operation::ContinueContent => Category::Request,
            Operation::EndSendFile => Category::Request,
            Operation::PreSendDir => Category::Request,
            Operation::EndSendDir => Category::Request,
            Operation::PreSendMsg => Category::Request,
            Operation::EndConn => Category::Mutual,
            Operation::ConnSuccess => Category::Response,
            Operation::ConnRefuse => Category::Response,
            Operation::ConnFail => Category::Response,
            Operation::RequestSuccess => Category::Response,
            Operation::RequestRefuse => Category::Response,
            Operation::RequestFail => Category::Response,
            Operation::AbortFile => Category::Response,
            Operation::AbortDir => Category::Response,
        }
    }
}

/// Classifying an operation is a pure function of the operation value:
/// any two classifications of equal operations agree, so repeated calls
/// of [`Operation::category`] are stable.
pub proof fn lemma_category_stable(a: Operation, b: Operation)
    requires
        a == b,
    ensures
        category_of(a) == category_of(b),
{
}

/// Codes and operations correspond one to one: validating the code an
/// operation is written as yields that operation back, and every code the
/// validation accepts is the code of the operation it yields.
pub proof fn lemma_code_round_trip(op: Operation, code: u8)
    ensures
        operation_of_code(code_of(op)) == Some(op),
        operation_of_code(code) matches Some(o) ==> code_of(o) == code,
{
}

/// The fixed 6-byte frame header.
#[derive(Clone, Copy, PartialEq, Eq, Structural, Debug)]
pub struct Instruction {
    /// Identifies the logical transfer or session the frame belongs to.
    pub id: u16,
    /// The verb of the frame.
    pub operation: Operation,
    /// True when another frame for the same item will follow.
    pub buffer: bool,
    /// Byte length of the raw payload that immediately follows the header.
    pub length: u16,
}

/// The 6 bytes a header is written as: `id` and `length` big-endian,
/// `buffer` as 1 or 0.
pub open spec fn spec_encode(ins: Instruction) -> Seq<u8> {
    seq![
        (ins.id / 256) as u8,
        (ins.id % 256) as u8,
        code_of(ins.operation),
        if ins.buffer { 1u8 } else { 0u8 },
        (ins.length / 256) as u8,
        (ins.length % 256) as u8,
    ]
}

/// The header 6 bytes decode to, or `None` when the operation byte is
/// outside the taxonomy. A `buffer` byte is read as true exactly when it
/// equals 1; every other value means false.
pub open spec fn spec_decode(bytes: Seq<u8>) -> Option<Instruction>
    recommends
        bytes.len() == 6,
{
    match operation_of_code(bytes[2]) {
        Some(op) => Some(
            Instruction {
                id: (bytes[0] * 256 + bytes[1]) as u16,
                operation: op,
                buffer: bytes[3] == 1,
                length: (bytes[4] * 256 + bytes[5]) as u16,
            },
        ),
        None => None,
    }
}

impl Instruction {
    /// Encode this header as its 6 wire bytes. Total: every field is
    /// already bounded by its bit width, so encoding never fails.
    pub fn encode(&self) -> (r: [u8; 6])
        ensures
            r@ == spec_encode(*self),
    {
        let r: [u8; 6] = [
            (self.id / 256) as u8,
            (self.id % 256) as u8,
            self.operation.code(),
            if self.buffer { 1 } else { 0 },
            (self.length / 256) as u8,
            (self.length % 256) as u8,
        ];
        proof {
            assert(r@ =~= spec_encode(*self));
        }
        r
    }

    /// Decode 6 wire bytes into a header. Fails with `UnknownOperation`
    /// exactly when the operation byte is outside the taxonomy; never
    /// inspects the trailing payload.
    pub fn decode(buf: &[u8; 6]) -> (r: Result<Instruction, DecodeError>)
        ensures
            match r {
                Ok(ins) => spec_decode(buf@) == Some(ins),
                Err(e) => spec_decode(buf@) is None && e == DecodeError::UnknownOperation,
            },
    {
        let id: u16 = (buf[0] as u16) * 256 + (buf[1] as u16);
        let operation = match Operation::try_from(buf[2]) {
            Ok(op) => op,
            Err(e) => {
                return Err(e);
            },
        };
        let buffer = buf[3] == 1;
        let length: u16 = (buf[4] as u16) * 256 + (buf[5] as u16);
        Ok(Instruction { id, operation, buffer, length })
    }

    /// The handshake frame that opens a session without authentication:
    /// no payload follows and no further frame is announced.
    pub fn conn_without_pass(id: u16) -> (r: Instruction)
        ensures
            r == (Instruction {
                id,
                operation: Operation::ConnWithoutPass,
                buffer: false,
                length: 0,
            }),
    {
        Instruction { id, operation: Operation::ConnWithoutPass, buffer: false, length: 0 }
    }
}

/// Round trip: every header decodes back from its own encoding. Together
/// with the codecs' contracts this carries over to the executable pair:
/// `decode(encode(x))` returns `Ok(x)` for every header `x`.
pub proof fn lemma_decode_encode(ins: Instruction)
    ensures
        spec_decode(spec_encode(ins)) == Some(ins),
{
    lemma_code_round_trip(ins.operation, code_of(ins.operation));
    assert((ins.id / 256) * 256 + (ins.id % 256) == ins.id) by (nonlinear_arith);
    assert((ins.length / 256) * 256 + (ins.length % 256) == ins.length) by (nonlinear_arith);
}

} // verus!
