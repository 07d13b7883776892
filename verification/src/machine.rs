//! The execution core: the addressable memory, the CPU-visible registers
//! and stack, the fetch-decode-execute step, the run loop and the fault
//! protocol.  The whole machine state has a ghost model, `CoreState`, and
//! every operation's contract pins the new model state exactly.

use vstd::prelude::*;

use crate::decode::Instruction;
use crate::decode::decode_spec;
use crate::output::small_bytes;
use crate::output::small_to_chars;
use crate::word::data_of;
use crate::word::inc_addr;
use crate::word::lemma_data_of_bound;
use crate::word::lemma_data_of_small;
use crate::word::lemma_inc_addr_bound;
use crate::word::op_of;
use crate::word::shl16;
use crate::word::shr16;
use crate::word::shl_word;
use crate::word::shr_word;
use crate::word::word_data;
use crate::word::word_opcode;

verus! {

/// Number of words in the address space.
pub const MEM_WORDS: usize = 4096;

/// Initial capacity reserved for the value stack.
pub const STACK_MIN: usize = 16;

/// Reserved address: where a fault stores its reason.
pub const INTERRUPT_REASON_REGISTER: u16 = 0x008;

/// Reserved address: where a fault stores the resume address.
pub const INTERRUPT_RETURN_REGISTER: u16 = 0x009;

/// Reserved address: initialized to a sentinel at power-on, never
/// consulted afterwards; the stack is effectively unbounded.
pub const STACK_SIZE_REGISTER: u16 = 0x00D;

/// The sentinel the stack-size register is initialized to.
pub const STACK_SIZE_DEFAULT: u16 = 0xFFFF;

/// Where execution begins at power-on.
pub const RESET_VECTOR: u16 = 0x000;

/// Where execution resumes when a fault is dispatched.
pub const FAULT_VECTOR: u16 = 0x001;

/// Writing here emits one byte: the written value's low 8 bits.
pub const ASCII_OUT: u16 = 0x00A;

/// Writing here emits up to two bytes through the packed-character
/// encoding of the written value's data field.
pub const SMALL_OUT: u16 = 0x00B;

/// The mathematical model of the whole machine: memory image, stack,
/// registers, flags, and the stream of every byte emitted so far.
#[verifier::ext_equal]
pub ghost struct CoreState {
    pub mem: Seq<u16>,
    pub stack: Seq<u16>,
    pub pc: u16,
    pub ir: u16,
    pub acc: u16,
    pub halt: bool,
    pub zero: bool,
    pub out: Seq<u8>,
}

/// A machine state is well formed when its memory spans the whole
/// address space and its program counter is in range.
pub open spec fn state_wf(s: CoreState) -> bool {
    &&& s.mem.len() == MEM_WORDS
    &&& s.pc < 4096
}

/// The bytes a write of `value` to masked address `addr` emits.
pub open spec fn port_bytes(addr: u16, value: u16) -> Seq<u8> {
    if addr == ASCII_OUT {
        seq![(value & 0xFF) as u8]
    } else if addr == SMALL_OUT {
        small_bytes(data_of(value))
    } else {
        Seq::empty()
    }
}

/// A raw 16-bit write: the word at the masked address is replaced whole,
/// and a write to an output port appends its bytes to the stream.
pub open spec fn write_mem_spec(s: CoreState, address: u16, value: u16) -> CoreState {
    CoreState {
        mem: s.mem.update(data_of(address) as int, value),
        out: s.out + port_bytes(data_of(address), value),
        ..s
    }
}

/// A data-field write: the target word keeps its opcode field and takes
/// the value's data field, then the merged word goes through the raw
/// write (ports included).
pub open spec fn write_data_spec(s: CoreState, address: u16, value: u16) -> CoreState {
    write_mem_spec(s, address, (s.mem[data_of(address) as int] & 0xF000) | data_of(value))
}

/// The fault dispatch: the resume address `pc + 1` goes to the return
/// register, the reason to the reason register, and execution moves to
/// the fault vector.  No port is mapped at either register.
pub open spec fn fault_spec(s: CoreState, reason: u16) -> CoreState {
    CoreState {
        mem: s.mem.update(INTERRUPT_RETURN_REGISTER as int, (s.pc + 1) as u16).update(
            INTERRUPT_REASON_REGISTER as int,
            reason,
        ),
        pc: FAULT_VECTOR,
        ..s
    }
}

/// The state a core powers on with: the given memory image with the
/// stack-size register set to its sentinel, everything else cleared.
pub open spec fn power_on(mem: Seq<u16>) -> CoreState {
    CoreState {
        mem: mem.update(STACK_SIZE_REGISTER as int, STACK_SIZE_DEFAULT),
        stack: Seq::empty(),
        pc: RESET_VECTOR,
        ir: 0,
        acc: 0,
        halt: false,
        zero: false,
        out: Seq::empty(),
    }
}

/// One fetch-decode-execute step.  The fetched word lands in the
/// instruction register; its opcode picks the operation; every operation
/// but `Jump`, a taken `JumpZ` and a fault auto-increments the program
/// counter, wrapping within the address space.
pub open spec fn step_spec(s0: CoreState) -> CoreState {
    let ir = s0.mem[data_of(s0.pc) as int];
    let s = CoreState { ir: ir, ..s0 };
    match decode_spec(op_of(ir)) {
        Instruction::Halt => advance(CoreState { halt: true, ..s }),
        Instruction::Jump => CoreState { pc: data_of(ir), ..s },
        Instruction::JumpZ => if s.zero {
            CoreState { pc: data_of(ir), ..s }
        } else {
            advance(s)
        },
        Instruction::Load => advance(CoreState { acc: s.mem[data_of(ir) as int], ..s }),
        Instruction::Store => advance(write_data_spec(s, data_of(ir), data_of(s.acc))),
        Instruction::LShft => advance(
            CoreState {
                acc: if data_of(ir) & 1 == 1 {
                    shl16(data_of(s.acc), data_of(ir) >> 1)
                } else {
                    shl16(s.acc, data_of(ir) >> 1)
                },
                ..s
            },
        ),
        Instruction::RShft => advance(
            CoreState {
                acc: if data_of(ir) & 1 == 1 {
                    shr16(data_of(s.acc), data_of(ir) >> 1)
                } else {
                    shr16(s.acc, data_of(ir) >> 1)
                },
                ..s
            },
        ),
        Instruction::Xor => advance(CoreState { acc: data_of(s.acc) ^ data_of(ir), ..s }),
        Instruction::And => advance(CoreState { acc: data_of(s.acc) & data_of(ir), ..s }),
        Instruction::SFull => advance(write_mem_spec(s, data_of(ir), s.acc)),
        Instruction::Add => {
            let sum = (data_of(s.acc) + data_of(ir)) as u16;
            advance(CoreState { acc: sum, zero: data_of(sum) == 0, ..s })
        },
        Instruction::Pop => advance(
            CoreState {
                acc: if s.stack.len() > 0 {
                    s.stack.last()
                } else {
                    0
                },
                stack: if s.stack.len() > 0 {
                    s.stack.drop_last()
                } else {
                    s.stack
                },
                ..s
            },
        ),
        Instruction::Push => advance(CoreState { stack: s.stack.push(s.acc), ..s }),
        Instruction::NoOp => advance(s),
        Instruction::Unknown(n) => fault_spec(s, 0x0FF0 | n),
    }
}

/// The auto-increment at the end of a step.
pub open spec fn advance(s: CoreState) -> CoreState {
    CoreState { pc: inc_addr(s.pc), ..s }
}

/// The state `run` starts from: the halt flag cleared, all else as is.
pub open spec fn started(s: CoreState) -> CoreState {
    CoreState { halt: false, ..s }
}

/// The machine `n` steps later.
pub open spec fn steps(s: CoreState, n: nat) -> CoreState
    decreases n,
{
    if n == 0 {
        s
    } else {
        step_spec(steps(s, (n - 1) as nat))
    }
}

/// A run from `s` eventually reaches a halted state.
pub open spec fn halts(s: CoreState) -> bool {
    exists|n: nat| (#[trigger] steps(s, n)).halt
}

/// The memory after a bulk load: each word lands at the cursor, which
/// starts at the masked start address and wraps within the address
/// space.
pub open spec fn load_spec(mem: Seq<u16>, cursor: u16, ws: Seq<u16>) -> Seq<u16>
    decreases ws.len(),
{
    if ws.len() == 0 {
        mem
    } else {
        load_spec(mem.update(cursor as int, ws[0]), inc_addr(cursor), ws.subrange(1, ws.len() as int))
    }
}

/// The addressable memory: 4096 sixteen-bit words; every access masks
/// its address to 12 bits, so out-of-range addresses alias into range.
#[derive(Clone)]
pub struct Memory {
    pub words: Vec<u16>,
}

impl View for Memory {
    type V = Seq<u16>;

    open spec fn view(&self) -> Seq<u16> {
        self.words@
    }
}

impl Memory {
    /// The memory spans exactly the 4096-word address space.
    pub open spec fn inv(&self) -> bool {
        self@.len() == MEM_WORDS
    }

    /// A memory image of all-zero words.
    pub fn new_blank() -> (m: Memory)
        ensures
            m.inv(),
            m@ =~= Seq::new(4096, |i: int| 0u16),
    {
        let mut words: Vec<u16> = Vec::new();
        while words.len() < MEM_WORDS
            invariant
                words@.len() <= 4096,
                forall|i: int| 0 <= i < words@.len() ==> words@[i] == 0u16,
            decreases 4096 - words@.len(),
        {
            words.push(0);
        }
        Memory { words }
    }

    /// A memory image holding the caller's words.
    pub fn from_words(words: Vec<u16>) -> (m: Memory)
        requires
            words@.len() == MEM_WORDS,
        ensures
            m.inv(),
            m@ == words@,
    {
        Memory { words }
    }

    /// The word at the masked address.
    pub fn read(&self, address: u16) -> (r: u16)
        requires
            self.inv(),
        ensures
            r == self@[data_of(address) as int],
    {
        proof {
            lemma_data_of_bound(address);
        }
        self.words[(address & 0xFFF) as usize]
    }

    /// Replace the word at the masked address.  Storage only: the output
    /// ports live one level up, in the core.
    pub fn write(&mut self, address: u16, value: u16)
        requires
            old(self).inv(),
        ensures
            final(self).inv(),
            final(self)@ == old(self)@.update(data_of(address) as int, value),
    {
        proof {
            lemma_data_of_bound(address);
        }
        self.words[(address & 0xFFF) as usize] = value;
    }
}

/// The execution core: one memory image, one accumulator, one stack.
pub struct Sma16 {
    pub memory: Memory,
    pub stack: Vec<u16>,
    pub program_counter: u16,
    pub instruction_register: u16,
    pub accumulator: u16,
    pub flag_halt: bool,
    pub flag_zero: bool,
    pub output: Vec<u8>,
}

impl View for Sma16 {
    type V = CoreState;

    open spec fn view(&self) -> CoreState {
        CoreState {
            mem: self.memory@,
            stack: self.stack@,
            pc: self.program_counter,
            ir: self.instruction_register,
            acc: self.accumulator,
            halt: self.flag_halt,
            zero: self.flag_zero,
            out: self.output@,
        }
    }
}

impl Sma16 {
    /// The core is well formed when its model state is.
    pub open spec fn wf(&self) -> bool {
        state_wf(self@)
    }

    /// A core over all-zero memory.
    pub fn with_blank_memory() -> (core: Sma16)
        ensures
            core.wf(),
            core@ == power_on(Seq::new(4096, |i: int| 0u16)),
    {
        Sma16::with_memory(Memory::new_blank())
    }

    /// A core over the caller's memory image, at power-on defaults.
    pub fn with_memory(mem: Memory) -> (core: Sma16)
        requires
            mem.inv(),
        ensures
            core.wf(),
            core@ == power_on(mem@),
    {
        let mut core = Sma16 {
            memory: mem,
            stack: Vec::with_capacity(STACK_MIN),
            program_counter: RESET_VECTOR,
            instruction_register: 0,
            accumulator: 0,
            flag_halt: false,
            flag_zero: false,
            output: Vec::new(),
        };
        core.memory.write(STACK_SIZE_REGISTER, STACK_SIZE_DEFAULT);
        proof {
            lemma_data_of_small(STACK_SIZE_REGISTER);
            assert(core@ =~= power_on(mem@));
        }
        core
    }

    /// Copy a sequence of words into memory, starting at the masked
    /// start address and wrapping within the address space; later words
    /// win where the sequence wraps onto itself.  No port emits: this is
    /// a bulk store, not a poke.
    pub fn load_memory(&mut self, start: u16, words: &[u16])
        requires
            old(self).wf(),
        ensures
            final(self).wf(),
            final(self)@ == (CoreState {
                mem: load_spec(old(self)@.mem, data_of(start), words@),
                ..old(self)@
            }),
    {
        let ghost mem0 = self@.mem;
        let mut cursor = start & 0xFFF;
        let mut i: usize = 0;
        proof {
            lemma_data_of_bound(start);
            assert(words@.subrange(0, words@.len() as int) =~= words@);
        }
        while i < words.len()
            invariant
                old(self).wf(),
                self.wf(),
                i <= words@.len(),
                cursor < 4096,
                self@ == (CoreState { mem: self@.mem, ..old(self)@ }),
                load_spec(mem0, data_of(start), words@) == load_spec(
                    self@.mem,
                    cursor,
                    words@.subrange(i as int, words@.len() as int),
                ),
                mem0 == old(self)@.mem,
            decreases words@.len() - i,
        {
            let w = words[i];
            proof {
                lemma_data_of_small(cursor);
                let tail = words@.subrange(i as int, words@.len() as int);
                assert(tail[0] == words@[i as int]);
                assert(tail.subrange(1, tail.len() as int) =~= words@.subrange(
                    i as int + 1,
                    words@.len() as int,
                ));
            }
            self.memory.write(cursor, w);
            proof {
                lemma_inc_addr_bound(cursor);
            }
            cursor = (cursor + 1) & 0xFFF;
            i = i + 1;
        }
        proof {
            assert(words@.subrange(words@.len() as int, words@.len() as int).len() == 0);
            assert(self@ =~= (CoreState {
                mem: load_spec(old(self)@.mem, data_of(start), words@),
                ..old(self)@
            }));
        }
    }

    /// Clear the halt flag, then step until an instruction sets it.  The
    /// machine itself places no bound on the number of steps; this
    /// verified loop asks the caller for the fact that the program does
    /// halt, which every halting program satisfies.
    pub fn run(&mut self)
        requires
            old(self).wf(),
            halts(started(old(self)@)),
        ensures
            final(self).wf(),
            final(self)@.halt,
            exists|n: nat|
                1 <= n && final(self)@ == steps(started(old(self)@), n) && (forall|m: nat|
                    m < n ==> !(#[trigger] steps(started(old(self)@), m)).halt),
    {
        self.flag_halt = false;
        let ghost s0 = self@;
        let ghost n0 = choose|n: nat| (#[trigger] steps(s0, n)).halt;
        let ghost mut count: nat = 0;
        proof {
            assert(s0 =~= started(old(self)@));
            assert(steps(s0, n0).halt);
        }
        while !self.flag_halt
            invariant
                self.wf(),
                count <= n0,
                steps(s0, n0).halt,
                self@ == steps(s0, count),
                forall|m: nat| m < count ==> !(#[trigger] steps(s0, m)).halt,
            decreases n0 - count,
        {
            proof {
                assert(!steps(s0, count).halt);
                assert(count < n0);
            }
            self.step();
            proof {
                count = count + 1;
                assert(steps(s0, count) == step_spec(steps(s0, (count - 1) as nat)));
            }
        }
        proof {
            if count == 0 {
                assert(steps(s0, 0) == s0);
                assert(false);
            }
        }
    }

    /// Reset registers, flags and stack to power-on defaults and re-apply
    /// the stack-size sentinel, keeping the memory image.  Bytes already
    /// emitted stay emitted.
    pub fn reinitialize(&mut self)
        requires
            old(self).wf(),
        ensures
            final(self).wf(),
            final(self)@ == (CoreState { out: old(self)@.out, ..power_on(old(self)@.mem) }),
    {
        self.stack = Vec::with_capacity(STACK_MIN);
        self.program_counter = RESET_VECTOR;
        self.instruction_register = 0;
        self.accumulator = 0;
        self.flag_halt = false;
        self.flag_zero = false;
        self.memory.write(STACK_SIZE_REGISTER, STACK_SIZE_DEFAULT);
        proof {
            lemma_data_of_small(STACK_SIZE_REGISTER);
            assert(self@ =~= CoreState { out: old(self)@.out, ..power_on(old(self)@.mem) });
        }
    }

    /// Trigger the fault-dispatch protocol with the given reason.
    pub fn fault(&mut self, reason: u16)
        requires
            old(self).wf(),
        ensures
            final(self).wf(),
            final(self)@ == fault_spec(old(self)@, reason),
    {
        self.memory.write(INTERRUPT_RETURN_REGISTER, self.program_counter + 1);
        self.memory.write(INTERRUPT_REASON_REGISTER, reason);
        self.program_counter = FAULT_VECTOR;
        proof {
            lemma_data_of_small(INTERRUPT_RETURN_REGISTER);
            lemma_data_of_small(INTERRUPT_REASON_REGISTER);
            assert(self@ =~= fault_spec(old(self)@, reason));
        }
    }

    /// The word at the masked address; no side effect.
    pub fn read_memory(&self, address: u16) -> (r: u16)
        requires
            self.wf(),
        ensures
            r == self@.mem[data_of(address) as int],
    {
        self.memory.read(address)
    }

    /// Poke a whole word at the masked address.  A write to the ASCII
    /// port emits the value's low byte; a write to the packed-character
    /// port emits up to two bytes, low code first.
    pub fn write_memory(&mut self, address: u16, value: u16)
        requires
            old(self).wf(),
        ensures
            final(self).wf(),
            final(self)@ == write_mem_spec(old(self)@, address, value),
    {
        self.memory.write(address, value);
        let port = address & 0xFFF;
        proof {
            lemma_data_of_bound(address);
        }
        if port == ASCII_OUT {
            proof {
                assert(value & 0xFF < 256) by (bit_vector);
            }
            self.output.push((value & 0xFF) as u8);
        } else if port == SMALL_OUT {
            let chars = small_to_chars(value & 0xFFF);
            if let Some(c) = chars[0] {
                self.output.push(c);
            }
            if let Some(c) = chars[1] {
                self.output.push(c);
            }
        }
        proof {
            assert(self@ =~= write_mem_spec(old(self)@, address, value));
        }
    }

    /// The auto-increment: move the program counter one word forward,
    /// wrapping within the address space.
    fn advance_pc(&mut self)
        requires
            old(self).wf(),
        ensures
            final(self).wf(),
            final(self)@ == advance(old(self)@),
    {
        self.program_counter = (self.program_counter + 1) & 0xFFF;
        proof {
            lemma_inc_addr_bound(old(self)@.pc);
            assert(self@ =~= advance(old(self)@));
        }
    }

    /// Execute exactly one instruction: fetch at the program counter,
    /// decode, execute, and auto-increment unless the operation moved
    /// the program counter itself.
    pub fn step(&mut self)
        requires
            old(self).wf(),
        ensures
            final(self).wf(),
            final(self)@ == step_spec(old(self)@),
    {
        let ir = self.read_memory(self.program_counter);
        self.instruction_register = ir;
        let op = word_opcode(ir);
        let ir_data = word_data(ir);
        proof {
            lemma_data_of_small(ir_data);
        }
        match Instruction::decode(op) {
            Instruction::Halt => {
                self.flag_halt = true;
                self.advance_pc();
            },
            Instruction::Jump => {
                self.program_counter = ir_data;
            },
            Instruction::JumpZ => {
                if self.flag_zero {
                    self.program_counter = ir_data;
                } else {
                    self.advance_pc();
                }
            },
            Instruction::Load => {
                self.accumulator = self.read_memory(ir_data);
                self.advance_pc();
            },
            Instruction::Store => {
                let value = self.accumulator & 0xFFF;
                proof {
                    lemma_data_of_bound(old(self)@.acc);
                    lemma_data_of_small(data_of(old(self)@.acc));
                }
                self.write_memory_data(ir_data, value);
                self.advance_pc();
            },
            Instruction::LShft => {
                let amount = ir_data >> 1;
                if ir_data & 1 == 1 {
                    self.accumulator = shl_word(self.accumulator & 0xFFF, amount);
                } else {
                    self.accumulator = shl_word(self.accumulator, amount);
                }
                self.advance_pc();
            },
            Instruction::RShft => {
                let amount = ir_data >> 1;
                if ir_data & 1 == 1 {
                    self.accumulator = shr_word(self.accumulator & 0xFFF, amount);
                } else {
                    self.accumulator = shr_word(self.accumulator, amount);
                }
                self.advance_pc();
            },
            Instruction::Xor => {
                self.accumulator = (self.accumulator & 0xFFF) ^ ir_data;
                self.advance_pc();
            },
            Instruction::And => {
                self.accumulator = (self.accumulator & 0xFFF) & ir_data;
                self.advance_pc();
            },
            Instruction::SFull => {
                let value = self.accumulator;
                self.write_memory(ir_data, value);
                self.advance_pc();
            },
            Instruction::Add => {
                proof {
                    lemma_data_of_bound(old(self)@.acc);
                }
                let sum = (self.accumulator & 0xFFF) + ir_data;
                self.accumulator = sum;
                self.flag_zero = (sum & 0xFFF) == 0;
                self.advance_pc();
            },
            Instruction::Pop => {
                self.accumulator = match self.stack.pop() {
                    Some(v) => v,
                    None => 0,
                };
                self.advance_pc();
            },
            Instruction::Push => {
                let value = self.accumulator;
                self.stack.push(value);
                self.advance_pc();
            },
            Instruction::NoOp => {
                self.advance_pc();
            },
            Instruction::Unknown(n) => {
                self.fault(0x0FF0 | n);
            },
        }
        proof {
            assert(self@ =~= step_spec(old(self)@));
        }
    }

    /// Poke only the data field at the masked address: the target word
    /// keeps its opcode field.  Port writes still emit.
    pub fn write_memory_data(&mut self, address: u16, value: u16)
        requires
            old(self).wf(),
        ensures
            final(self).wf(),
            final(self)@ == write_data_spec(old(self)@, address, value),
    {
        let merged = (self.read_memory(address) & 0xF000) | (value & 0xFFF);
        self.write_memory(address, merged);
    }
}

} // verus!
