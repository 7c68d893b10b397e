//! Turning a sequence of instructions into program bytes.
use vstd::prelude::*;

use super::opcodes::{
    decode_byte, decoded, encoding, lemma_encoding_round_trip, opcode_byte, operand_len, Opcode,
    ParseError,
};

verus! {

/// The bytes of a program: the encodings of its instructions, one after the other.
pub open spec fn program_bytes(code: Seq<Opcode>) -> Seq<u8>
    decreases code.len(),
{
    if code.len() == 0 {
        seq![]
    } else {
        program_bytes(code.drop_last()) + encoding(code.last())->Some_0
    }
}

/// Every instruction of `code` has an encoding.
pub open spec fn all_encodable(code: Seq<Opcode>) -> bool {
    forall|i: int| 0 <= i < code.len() ==> opcode_byte(#[trigger] code[i]) is Some
}

/// The instructions read one after another from `bytes`. A last instruction whose operand is
/// cut short reads the missing bytes as zero.
pub open spec fn disassembly(bytes: Seq<u8>) -> Seq<Opcode>
    decreases bytes.len(),
{
    if bytes.len() == 0 {
        seq![]
    } else {
        let n = 1 + operand_len(decode_byte(bytes[0]));
        if bytes.len() < n {
            seq![decoded(bytes + seq![0u8, 0u8])]
        } else {
            seq![decoded(bytes)] + disassembly(bytes.subrange(n as int, bytes.len() as int))
        }
    }
}

proof fn lemma_program_bytes_front(code: Seq<Opcode>)
    requires
        code.len() > 0,
    ensures
        program_bytes(code) == encoding(code[0])->Some_0 + program_bytes(code.drop_first()),
    decreases code.len(),
{
    if code.len() == 1 {
        assert(code.drop_last() =~= Seq::<Opcode>::empty());
        assert(code.drop_first() =~= Seq::<Opcode>::empty());
        assert(program_bytes(code) =~= encoding(code[0])->Some_0 + program_bytes(
            code.drop_first(),
        ));
    } else {
        let dl = code.drop_last();
        lemma_program_bytes_front(dl);
        assert(code.drop_first().drop_last() =~= dl.drop_first());
        assert(code.drop_first().last() == code.last());
        assert(dl[0] == code[0]);
        assert(program_bytes(code) =~= encoding(code[0])->Some_0 + program_bytes(
            code.drop_first(),
        ));
    }
}

/// Disassembling an assembled program gives back the program, operands included.
pub proof fn lemma_disassemble_assembled(code: Seq<Opcode>)
    requires
        all_encodable(code),
    ensures
        disassembly(program_bytes(code)) == code,
    decreases code.len(),
{
    if code.len() == 0 {
        assert(program_bytes(code) =~= Seq::<u8>::empty());
    } else {
        let op = code[0];
        assert(opcode_byte(code[0]) is Some);
        lemma_encoding_round_trip(op);
        lemma_program_bytes_front(code);
        let e = encoding(op)->Some_0;
        let rest = program_bytes(code.drop_first());
        let bytes = e + rest;
        assert(all_encodable(code.drop_first())) by {
            assert forall|i: int| 0 <= i < code.drop_first().len() implies opcode_byte(
                #[trigger] code.drop_first()[i],
            ) is Some by {
                assert(code.drop_first()[i] == code[i + 1]);
            }
        }
        lemma_disassemble_assembled(code.drop_first());
        assert(bytes[0] == e[0]);
        assert(decoded(bytes) == decoded(e)) by {
            assert(forall|k: int| 0 <= k < e.len() ==> bytes[k] == e[k]);
        }
        assert(bytes.subrange(e.len() as int, bytes.len() as int) =~= rest);
        assert(seq![op] + code.drop_first() =~= code);
    }
}

pub struct Assembler;

impl Assembler {
    /// Encodes the program. Fails with `InvalidAddressMode` naming the first instruction that
    /// has no encoding in its addressing mode.
    pub fn assemble(code: &[Opcode]) -> (r: Result<Vec<u8>, ParseError>)
        ensures
            all_encodable(code@) ==> r is Ok && r->Ok_0@ == program_bytes(code@),
            !all_encodable(code@) ==> exists|k: int|
                #![auto]
                0 <= k < code@.len() && opcode_byte(code@[k]) is None && all_encodable(
                    code@.subrange(0, k),
                ) && r == Err::<Vec<u8>, ParseError>(ParseError::InvalidAddressMode(code@[k])),
    {
        let mut payload: Vec<u8> = Vec::new();
        let mut i: usize = 0;
        while i < code.len()
            invariant
                i <= code@.len(),
                all_encodable(code@.subrange(0, i as int)),
                payload@ == program_bytes(code@.subrange(0, i as int)),
            decreases code@.len() - i,
        {
            let op = code[i];
            match op.to_bytes() {
                Ok(bytes) => {
                    let mut j: usize = 0;
                    let ghost before = payload@;
                    while j < bytes.len()
                        invariant
                            j <= bytes@.len(),
                            payload@ == before + bytes@.subrange(0, j as int),
                        decreases bytes@.len() - j,
                    {
                        payload.push(bytes[j]);
                        j = j + 1;
                        assert(payload@ =~= before + bytes@.subrange(0, j as int));
                    }
                    assert(bytes@.subrange(0, j as int) =~= bytes@);
                    let ghost next = code@.subrange(0, i + 1);
                    assert(next.drop_last() =~= code@.subrange(0, i as int));
                    assert(next.last() == op);
                    i = i + 1;
                    assert(all_encodable(code@.subrange(0, i as int))) by {
                        assert forall|t: int| 0 <= t < i implies opcode_byte(
                            #[trigger] code@.subrange(0, i as int)[t],
                        ) is Some by {
                            if t < i - 1 {
                                assert(code@.subrange(0, i as int)[t] == code@.subrange(
                                    0,
                                    i - 1,
                                )[t]);
                            }
                        }
                    }
                },
                Err(e) => {
                    assert(!all_encodable(code@)) by {
                        assert(code@[i as int] == op);
                    }
                    return Err(e);
                },
            }
        }
        assert(code@.subrange(0, code@.len() as int) =~= code@);
        Ok(payload)
    }

    /// Reads the instructions of `payload` one after another.
    pub fn disassemble(payload: &[u8]) -> (r: Vec<Opcode>)
        ensures
            r@ == disassembly(payload@),
    {
        let len = payload.len();
        let mut ops: Vec<Opcode> = Vec::new();
        let mut i: usize = 0;
        assert(payload@.subrange(0, len as int) =~= payload@);
        while i < len
            invariant
                len == payload@.len(),
                i <= len,
                ops@ + disassembly(payload@.subrange(i as int, len as int)) == disassembly(payload@),
            decreases len - i,
        {
            let ghost s = payload@.subrange(i as int, len as int);
            let mut op = Opcode::decode(payload[i]);
            let n: usize = if op.require_arg2() {
                3
            } else if op.require_arg1() {
                2
            } else {
                1
            };
            let b1 = if len - i > 1 {
                payload[i + 1]
            } else {
                0
            };
            let b2 = if len - i > 2 {
                payload[i + 2]
            } else {
                0
            };
            if op.require_arg1() {
                op.set_arg1(b1);
                if op.require_arg2() {
                    op.set_arg2(b2);
                }
            }
            proof {
                assert(s[0] == payload@[i as int]);
                if s.len() < n {
                    let padded = s + seq![0u8, 0u8];
                    assert(padded[0] == s[0]);
                    assert(padded[1] == b1);
                    assert(padded[2] == b2);
                    assert(op == decoded(padded));
                } else {
                    assert(s[1] == b1 || n < 2);
                    assert(s[2] == b2 || n < 3);
                    assert(op == decoded(s));
                }
            }
            let ghost before = ops@;
            ops.push(op);
            let next = if len - i > n {
                i + n
            } else {
                len
            };
            proof {
                if s.len() < n {
                    assert(payload@.subrange(next as int, len as int) =~= Seq::<u8>::empty());
                    assert(disassembly(payload@.subrange(next as int, len as int)) =~= Seq::<
                        Opcode,
                    >::empty());
                } else {
                    assert(s.subrange(n as int, s.len() as int) =~= payload@.subrange(
                        next as int,
                        len as int,
                    ));
                }
                assert(ops@ + disassembly(payload@.subrange(next as int, len as int)) =~= before
                    + disassembly(s));
            }
            i = next;
        }
        assert(payload@.subrange(len as int, len as int) =~= Seq::<u8>::empty());
        assert(ops@ + disassembly(payload@.subrange(len as int, len as int)) =~= ops@);
        ops
    }
}

} // verus!
