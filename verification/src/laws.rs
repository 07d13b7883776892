//! The machine's stated laws, each proved over the model transitions:
//! address aliasing, the jump family, the add and its zero flag, the
//! stack discipline, the two store widths, the fault protocol and the
//! halt step.

use vstd::prelude::*;

use crate::decode::Instruction;
use crate::decode::decode_spec;
use crate::machine::CoreState;
use crate::machine::FAULT_VECTOR;
use crate::machine::INTERRUPT_REASON_REGISTER;
use crate::machine::INTERRUPT_RETURN_REGISTER;
use crate::machine::advance;
use crate::machine::state_wf;
use crate::machine::step_spec;
use crate::machine::write_mem_spec;
use crate::word::data_of;
use crate::word::inc_addr;
use crate::word::lemma_data_of_bound;
use crate::word::lemma_data_of_small;
use crate::word::op_of;

verus! {

/// The instruction the machine would execute next: the opcode field of
/// the word at the program counter.
pub open spec fn next_op(s: CoreState) -> u16 {
    op_of(s.mem[data_of(s.pc) as int])
}

/// The word the machine would fetch next.
pub open spec fn next_word(s: CoreState) -> u16 {
    s.mem[data_of(s.pc) as int]
}

/// Two addresses that agree modulo the address-space size name the same
/// word: reading either sees the same value, and writing through either
/// leaves the machine in the same state, emitted bytes included.
pub proof fn lemma_address_wraparound(s: CoreState, a1: u16, a2: u16, v: u16)
    requires
        a1 % 4096 == a2 % 4096,
    ensures
        s.mem[data_of(a1) as int] == s.mem[data_of(a2) as int],
        write_mem_spec(s, a1, v) == write_mem_spec(s, a2, v),
{
    lemma_data_of_bound(a1);
    lemma_data_of_bound(a2);
    assert(write_mem_spec(s, a1, v) =~= write_mem_spec(s, a2, v));
}

/// `Jump` sets the program counter to its operand and performs no
/// auto-increment; nothing else changes but the instruction register.
pub proof fn lemma_jump_step(s: CoreState)
    requires
        next_op(s) == 0x2,
    ensures
        step_spec(s) == (CoreState { ir: next_word(s), pc: data_of(next_word(s)), ..s }),
{
    assert(step_spec(s) =~= (CoreState { ir: next_word(s), pc: data_of(next_word(s)), ..s }));
}

/// With the zero flag clear, `JumpZ` behaves exactly like `NoOp`: the
/// fetched word lands in the instruction register and the program
/// counter auto-increments, nothing else.
pub proof fn lemma_jumpz_clear_is_noop(s: CoreState)
    requires
        next_op(s) == 0x3,
        !s.zero,
    ensures
        step_spec(s) == advance(CoreState { ir: next_word(s), ..s }),
{
    assert(step_spec(s) =~= advance(CoreState { ir: next_word(s), ..s }));
}

/// With the zero flag set, `JumpZ` behaves exactly like `Jump`.
pub proof fn lemma_jumpz_set_is_jump(s: CoreState)
    requires
        next_op(s) == 0x3,
        s.zero,
    ensures
        step_spec(s) == (CoreState { ir: next_word(s), pc: data_of(next_word(s)), ..s }),
{
    assert(step_spec(s) =~= (CoreState { ir: next_word(s), pc: data_of(next_word(s)), ..s }));
}

/// `Add` leaves the accumulator holding the sum of the two data fields
/// modulo 65536, and the zero flag set exactly when the sum's low 12
/// bits are zero.  Memory, stack and output are untouched.
pub proof fn lemma_add_step(s: CoreState)
    requires
        next_op(s) == 0xB,
    ensures
        step_spec(s).acc == (data_of(s.acc) + data_of(next_word(s))) % 0x10000,
        step_spec(s).zero <==> data_of(step_spec(s).acc) == 0,
        step_spec(s).pc == inc_addr(s.pc),
        step_spec(s).mem == s.mem,
        step_spec(s).stack == s.stack,
        step_spec(s).out == s.out,
{
    lemma_data_of_bound(s.acc);
    lemma_data_of_bound(next_word(s));
}

/// `Push` appends the accumulator to the stack; nothing else changes
/// but the instruction register and the program counter.
pub proof fn lemma_push_step(s: CoreState)
    requires
        next_op(s) == 0xE,
    ensures
        step_spec(s) == advance(
            CoreState { ir: next_word(s), stack: s.stack.push(s.acc), ..s },
        ),
{
    assert(step_spec(s) =~= advance(CoreState { ir: next_word(s), stack: s.stack.push(s.acc), ..s }));
}

/// `Pop` moves the top of the stack into the accumulator; on an empty
/// stack it yields 0 and is never an error.
pub proof fn lemma_pop_step(s: CoreState)
    requires
        next_op(s) == 0xD,
    ensures
        s.stack.len() > 0 ==> step_spec(s).acc == s.stack.last() && step_spec(s).stack
            == s.stack.drop_last(),
        s.stack.len() == 0 ==> step_spec(s).acc == 0 && step_spec(s).stack == s.stack,
        step_spec(s).mem == s.mem,
        step_spec(s).pc == inc_addr(s.pc),
        step_spec(s).out == s.out,
{
}

/// The stack is last-in first-out: with `v1` below `v2` on top, two
/// `Pop` instructions in a row yield `v2` first, then `v1`, and leave
/// the stack as it was below them.
pub proof fn lemma_stack_lifo(s: CoreState, base: Seq<u16>, v1: u16, v2: u16)
    requires
        s.stack == base.push(v1).push(v2),
        next_op(s) == 0xD,
        next_op(step_spec(s)) == 0xD,
    ensures
        step_spec(s).acc == v2,
        step_spec(step_spec(s)).acc == v1,
        step_spec(step_spec(s)).stack == base,
{
    lemma_pop_step(s);
    let s1 = step_spec(s);
    assert(base.push(v1).push(v2).drop_last() =~= base.push(v1));
    lemma_pop_step(s1);
    assert(base.push(v1).drop_last() =~= base);
}

/// `Store` writes the accumulator's data field into the target word's
/// low 12 bits and preserves the target's opcode field.
pub proof fn lemma_store_preserves_opcode(s: CoreState)
    requires
        state_wf(s),
        next_op(s) == 0x5,
    ensures
        op_of(step_spec(s).mem[data_of(next_word(s)) as int]) == op_of(
            s.mem[data_of(next_word(s)) as int],
        ),
        data_of(step_spec(s).mem[data_of(next_word(s)) as int]) == data_of(s.acc),
{
    let t = data_of(next_word(s));
    lemma_data_of_bound(next_word(s));
    lemma_data_of_small(t);
    lemma_data_of_bound(s.acc);
    lemma_data_of_small(data_of(s.acc));
    crate::word::lemma_merge_keeps_opcode(s.mem[t as int], data_of(s.acc));
}

/// `StoreFull` overwrites the whole target word, opcode field included,
/// with the full 16-bit accumulator.
pub proof fn lemma_store_full_overwrites(s: CoreState)
    requires
        state_wf(s),
        next_op(s) == 0xA,
    ensures
        step_spec(s).mem[data_of(next_word(s)) as int] == s.acc,
{
    let t = data_of(next_word(s));
    lemma_data_of_bound(next_word(s));
    lemma_data_of_small(t);
}

/// An unrecognized opcode does not advance the program counter
/// normally: it stores the resume address `pc + 1` in the return
/// register and the fault code `0x0FF0 | opcode` in the reason
/// register, and redirects execution to the fault vector.  Accumulator,
/// stack, flags and output are untouched.
pub proof fn lemma_unknown_opcode_faults(s: CoreState)
    requires
        state_wf(s),
        decode_spec(next_op(s)) == Instruction::Unknown(next_op(s)),
    ensures
        step_spec(s).mem[INTERRUPT_RETURN_REGISTER as int] == (s.pc + 1) as u16,
        step_spec(s).mem[INTERRUPT_REASON_REGISTER as int] == (0x0FF0 | next_op(s)),
        step_spec(s).pc == FAULT_VECTOR,
        step_spec(s).acc == s.acc,
        step_spec(s).stack == s.stack,
        step_spec(s).halt == s.halt,
        step_spec(s).zero == s.zero,
        step_spec(s).out == s.out,
{
}

/// `Halt` sets the halt flag and still executes its auto-increment;
/// everything else stays, so a subsequent `run` makes no further step.
pub proof fn lemma_halt_step(s: CoreState)
    requires
        next_op(s) == 0x0,
    ensures
        step_spec(s) == advance(CoreState { ir: next_word(s), halt: true, ..s }),
        step_spec(s).halt,
{
    assert(step_spec(s) =~= advance(CoreState { ir: next_word(s), halt: true, ..s }));
}

} // verus!
