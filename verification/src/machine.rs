//! A small register machine: 16 registers of 32 bits (register 0 is the
//! instruction pointer) and 4096 bytes of memory. Instructions are
//! byte-coded; output instructions append bytes to a caller-supplied
//! sink. The whole transition relation is captured by `spec_step`, and
//! a bounded run by `spec_run`.

use vstd::prelude::*;

verus! {

/// Size of the machine memory in bytes.
pub const MEMORY_SIZE: usize = 4096;

/// Number of registers.
pub const NREGS: usize = 16;

/// Everything that can go wrong while executing an instruction.
#[derive(Clone, Copy, PartialEq, Eq, Structural, Debug)]
pub enum MachineError {
    RegisterOutOfBounds,
    MemoryOutOfBoundsStepOn,
    MemoryOutOfBoundsLoad,
    MemoryOutOfBoundsStore,
    WrongInstruction,
    OutOfBounds,
    InvalidRegister(usize),
    InvalidInstruction(u8),
}

/// The mathematical state of a machine together with its output stream.
#[verifier::ext_equal]
pub struct MState {
    pub regs: Seq<u32>,
    pub mem: Seq<u8>,
    pub out: Seq<u8>,
}

/// The byte size of the instruction starting with `opcode`; 0 for an
/// invalid opcode.
pub open spec fn spec_decode(opcode: u8) -> u32 {
    if opcode == 1 || opcode == 4 || opcode == 5 {
        4u32
    } else if opcode == 2 || opcode == 3 {
        3u32
    } else if opcode == 6 || opcode == 8 {
        2u32
    } else if opcode == 7 {
        1u32
    } else {
        0u32
    }
}

/// `move if`: if register `b3` is nonzero, register `b1` receives the
/// value of register `b2`.
pub open spec fn spec_move(regs: Seq<u32>, b1: u8, b2: u8, b3: u8) -> (Seq<u32>, Result<
    bool,
    MachineError,
>) {
    if b1 < 16 && b2 < 16 && b3 < 16 {
        if regs[b3 as int] != 0 {
            (regs.update(b1 as int, regs[b2 as int]), Ok(false))
        } else {
            (regs, Ok(false))
        }
    } else {
        (regs, Err(MachineError::OutOfBounds))
    }
}

/// Memory with the 32-bit value `v` written little-endian at `addr`.
pub open spec fn spec_write_word(mem: Seq<u8>, addr: int, v: u32) -> Seq<u8> {
    mem.update(addr, (v & 0xFF) as u8).update(addr + 1, ((v >> 8u32) & 0xFF) as u8).update(
        addr + 2,
        ((v >> 16u32) & 0xFF) as u8,
    ).update(addr + 3, ((v >> 24u32) & 0xFF) as u8)
}

/// The 32-bit value read little-endian from `addr`.
pub open spec fn spec_read_word(mem: Seq<u8>, addr: int) -> u32 {
    (mem[addr] as u32) | ((mem[addr + 1] as u32) << 8u32) | ((mem[addr + 2] as u32) << 16u32) | ((
    mem[addr + 3] as u32) << 24u32)
}

/// `store`: the value of register `b2` is written little-endian at the
/// address held in register `b1`.
pub open spec fn spec_store(regs: Seq<u32>, mem: Seq<u8>, b1: u8, b2: u8) -> (Seq<u8>, Result<
    bool,
    MachineError,
>) {
    if b1 <= 15 && b2 <= 15 {
        let addr = regs[b1 as int];
        if addr > (MEMORY_SIZE - 4) as u32 {
            (mem, Err(MachineError::MemoryOutOfBoundsStore))
        } else {
            (spec_write_word(mem, addr as int, regs[b2 as int]), Ok(false))
        }
    } else {
        (mem, Err(MachineError::OutOfBounds))
    }
}

/// `load`: register `b1` receives the 32-bit value read little-endian
/// from the address held in register `b2`.
pub open spec fn spec_load(regs: Seq<u32>, mem: Seq<u8>, b1: u8, b2: u8) -> (Seq<u32>, Result<
    bool,
    MachineError,
>) {
    if b1 <= 15 && b2 <= 15 {
        let addr = regs[b2 as int];
        if addr > (MEMORY_SIZE - 4) as u32 {
            (regs, Err(MachineError::MemoryOutOfBoundsLoad))
        } else {
            (regs.update(b1 as int, spec_read_word(mem, addr as int)), Ok(false))
        }
    } else {
        (regs, Err(MachineError::RegisterOutOfBounds))
    }
}

/// The 16-bit immediate `(b3, b2)` sign-extended to 32 bits.
pub open spec fn spec_sign_extend(b2: u8, b3: u8) -> u32 {
    if b3 >= 128 {
        0xFFFF_0000u32 | ((b3 as u32) << 8u32) | (b2 as u32)
    } else {
        ((b3 as u32) << 8u32) | (b2 as u32)
    }
}

/// `load imm`: register `b1` receives the sign-extended 16-bit immediate.
pub open spec fn spec_load_imm(regs: Seq<u32>, b1: u8, b2: u8, b3: u8) -> (Seq<u32>, Result<
    bool,
    MachineError,
>) {
    if b1 <= 15 {
        (regs.update(b1 as int, spec_sign_extend(b2, b3)), Ok(false))
    } else {
        (regs, Err(MachineError::OutOfBounds))
    }
}

/// 32-bit wrapping subtraction.
pub open spec fn spec_wrap_sub(a: u32, b: u32) -> u32 {
    if a >= b {
        (a - b) as u32
    } else {
        (a as int - b as int + 0x1_0000_0000) as u32
    }
}

/// `sub`: register `b1` receives register `b2` minus register `b3`,
/// wrapping around 2^32.
pub open spec fn spec_sub(regs: Seq<u32>, b1: u8, b2: u8, b3: u8) -> (Seq<u32>, Result<
    bool,
    MachineError,
>) {
    if b1 <= 15 && b2 <= 15 && b3 <= 15 {
        (regs.update(b1 as int, spec_wrap_sub(regs[b2 as int], regs[b3 as int])), Ok(false))
    } else {
        (regs, Err(MachineError::OutOfBounds))
    }
}

/// The UTF-8 encoding of the code point `b` (one byte below 0x80, two
/// bytes above, as for any code point below 0x100).
pub open spec fn spec_utf8_of(b: u8) -> Seq<u8> {
    if b < 0x80 {
        seq![b]
    } else {
        seq![(0xC0u8 | (b >> 6u8)) as u8, (0x80u8 | (b & 0x3F)) as u8]
    }
}

/// `out`: the bytes appended to the sink — the UTF-8 encoding of the low
/// byte of register `b1` read as a code point — and the result.
pub open spec fn spec_out(regs: Seq<u32>, b1: u8) -> (Seq<u8>, Result<bool, MachineError>) {
    if b1 <= 15 {
        (spec_utf8_of((regs[b1 as int] & 0xFF) as u8), Ok(false))
    } else {
        (Seq::empty(), Err(MachineError::OutOfBounds))
    }
}

/// The decimal digits of `n`, most significant first, as ASCII bytes.
pub open spec fn spec_dec_digits(n: nat) -> Seq<u8>
    decreases n,
{
    if n < 10 {
        seq![(0x30 + n) as u8]
    } else {
        spec_dec_digits(n / 10).push((0x30 + n % 10) as u8)
    }
}

/// The decimal rendering of `v` reinterpreted as a signed 32-bit value:
/// a minus sign and the magnitude for values at or above 2^31.
pub open spec fn spec_dec_i32(v: u32) -> Seq<u8> {
    if v < 0x8000_0000 {
        spec_dec_digits(v as nat)
    } else {
        seq![0x2Du8] + spec_dec_digits((0x1_0000_0000 - v as int) as nat)
    }
}

/// `out number`: the bytes appended to the sink — the signed decimal
/// rendering of register `b1` — and the result.
pub open spec fn spec_out_number(regs: Seq<u32>, b1: u8) -> (Seq<u8>, Result<bool, MachineError>) {
    if b1 <= 15 {
        (spec_dec_i32(regs[b1 as int]), Ok(false))
    } else {
        (Seq::empty(), Err(MachineError::OutOfBounds))
    }
}

/// One whole instruction step: check the instruction pointer, advance it
/// by the decoded size, then perform the instruction. The result is
/// `Ok(true)` exactly on an exit instruction, `Ok(false)` when execution
/// continues, and an error otherwise (with the pointer already advanced).
pub open spec fn spec_step(s: MState) -> (MState, Result<bool, MachineError>) {
    let ip = s.regs[0];
    if ip >= MEMORY_SIZE as u32 {
        (s, Err(MachineError::MemoryOutOfBoundsStepOn))
    } else {
        let opcode = s.mem[ip as int];
        let size = spec_decode(opcode);
        let regs1 = s.regs.update(0, (ip + size) as u32);
        let b1 = if ip + 1 < MEMORY_SIZE as u32 {
            s.mem[ip as int + 1]
        } else {
            0u8
        };
        let b2 = if ip + 2 < MEMORY_SIZE as u32 {
            s.mem[ip as int + 2]
        } else {
            0u8
        };
        let b3 = if ip + 3 < MEMORY_SIZE as u32 {
            s.mem[ip as int + 3]
        } else {
            0u8
        };
        if opcode == 1 {
            let (regs2, r) = spec_move(regs1, b1, b2, b3);
            (MState { regs: regs2, ..s }, r)
        } else if opcode == 2 {
            let (mem2, r) = spec_store(regs1, s.mem, b1, b2);
            (MState { regs: regs1, mem: mem2, ..s }, r)
        } else if opcode == 3 {
            let (regs2, r) = spec_load(regs1, s.mem, b1, b2);
            (MState { regs: regs2, ..s }, r)
        } else if opcode == 4 {
            let (regs2, r) = spec_load_imm(regs1, b1, b2, b3);
            (MState { regs: regs2, ..s }, r)
        } else if opcode == 5 {
            let (regs2, r) = spec_sub(regs1, b1, b2, b3);
            (MState { regs: regs2, ..s }, r)
        } else if opcode == 6 {
            let (emitted, r) = spec_out(regs1, b1);
            (MState { regs: regs1, out: s.out + emitted, ..s }, r)
        } else if opcode == 7 {
            (MState { regs: regs1, ..s }, Ok(true))
        } else if opcode == 8 {
            let (emitted, r) = spec_out_number(regs1, b1);
            (MState { regs: regs1, out: s.out + emitted, ..s }, r)
        } else {
            (MState { regs: regs1, ..s }, Err(MachineError::WrongInstruction))
        }
    }
}

/// At most `fuel` steps from `s`: stops early on an exit instruction
/// (`Ok(true)`) or an error; `Ok(false)` means the budget ran out first.
pub open spec fn spec_run(s: MState, fuel: nat) -> (MState, Result<bool, MachineError>)
    decreases fuel,
{
    if fuel == 0 {
        (s, Ok(false))
    } else {
        let (s2, r) = spec_step(s);
        match r {
            Ok(halted) => if halted {
                (s2, Ok(true))
            } else {
                spec_run(s2, (fuel - 1) as nat)
            },
            Err(e) => (s2, Err(e)),
        }
    }
}

/// The machine: 16 registers and 4096 bytes of memory. Register 0 is the
/// instruction pointer.
pub struct Machine {
    memory: Vec<u8>,
    regs: Vec<u32>,
}

impl Machine {
    #[verifier::type_invariant]
    spec fn type_inv(&self) -> bool {
        self.regs@.len() == 16 && self.memory@.len() == 4096
    }

    /// The register file.
    pub closed spec fn regs_view(&self) -> Seq<u32> {
        self.regs@
    }

    /// The memory contents.
    pub closed spec fn mem_view(&self) -> Seq<u8> {
        self.memory@
    }

    /// The machine state paired with an output stream.
    pub open spec fn state(&self, out: Seq<u8>) -> MState {
        MState { regs: self.regs_view(), mem: self.mem_view(), out }
    }

    /// A machine in its reset state: all registers zero, the given bytes
    /// copied to the beginning of memory, the rest of memory zero.
    pub fn new(memory: &[u8]) -> (m: Machine)
        requires
            memory@.len() <= 4096,
        ensures
            m.regs_view().len() == 16,
            forall|i: int| 0 <= i < 16 ==> m.regs_view()[i] == 0,
            m.mem_view().len() == 4096,
            forall|i: int| 0 <= i < memory@.len() ==> m.mem_view()[i] == memory@[i],
            forall|i: int| memory@.len() <= i < 4096 ==> m.mem_view()[i] == 0,
    {
        let mut regs: Vec<u32> = Vec::new();
        let mut n: usize = 0;
        while n < NREGS
            invariant
                n <= 16,
                regs@.len() == n,
                forall|i: int| 0 <= i < n ==> regs@[i] == 0,
            decreases 16 - n,
        {
            regs.push(0);
            n += 1;
        }
        let mut mem: Vec<u8> = Vec::new();
        let len = memory.len();
        let mut k: usize = 0;
        while k < len
            invariant
                k <= len,
                len == memory@.len(),
                mem@.len() == k,
                forall|i: int| 0 <= i < k ==> mem@[i] == memory@[i],
            decreases len - k,
        {
            mem.push(memory[k]);
            k += 1;
        }
        while k < MEMORY_SIZE
            invariant
                len <= k <= 4096,
                len == memory@.len(),
                mem@.len() == k,
                forall|i: int| 0 <= i < len ==> mem@[i] == memory@[i],
                forall|i: int| len <= i < k ==> mem@[i] == 0,
            decreases 4096 - k,
        {
            mem.push(0);
            k += 1;
        }
        Machine { memory: mem, regs }
    }

    /// Reference onto the machine's current registers.
    pub fn regs(&self) -> (r: &[u32])
        ensures
            r@ == self.regs_view(),
    {
        self.regs.as_slice()
    }

    /// Reference onto the machine's current memory.
    pub fn memory(&self) -> (r: &[u8])
        ensures
            r@ == self.mem_view(),
    {
        self.memory.as_slice()
    }

    /// Sets register `reg` to `value`; rejects an out-of-range register
    /// index and changes nothing in that case.
    pub fn set_reg(&mut self, reg: usize, value: u32) -> (r: Result<(), MachineError>)
        ensures
            final(self).mem_view() == old(self).mem_view(),
            reg < 16 ==> r == Ok::<(), MachineError>(()) && final(self).regs_view() == old(self).regs_view().update(reg as int, value),
            reg >= 16 ==> r == Err::<(), MachineError>(MachineError::InvalidRegister(reg)) && final(self).regs_view() == old(self).regs_view(),
    {
        proof {
            use_type_invariant(&*self);
        }
        if reg >= NREGS {
            return Err(MachineError::InvalidRegister(reg));
        }
        self.regs[reg] = value;
        Ok(())
    }

    /// The conditional move instruction.
    pub fn move_(&mut self, b1: u8, b2: u8, b3: u8) -> (r: Result<bool, MachineError>)
        ensures
            final(self).mem_view() == old(self).mem_view(),
            (final(self).regs_view(), r) == spec_move(old(self).regs_view(), b1, b2, b3),
    {
        proof {
            use_type_invariant(&*self);
        }
        if b1 >= 16 || b2 >= 16 || b3 >= 16 {
            return Err(MachineError::OutOfBounds);
        }
        let reg_b = self.regs[b2 as usize];
        let reg_c = self.regs[b3 as usize];
        if reg_c != 0 {
            let _ = self.set_reg(b1 as usize, reg_b);
        }
        Ok(false)
    }

    /// The store instruction.
    pub fn store(&mut self, dest_reg: u8, src_reg: u8) -> (r: Result<bool, MachineError>)
        ensures
            final(self).regs_view() == old(self).regs_view(),
            (final(self).mem_view(), r) == spec_store(
                old(self).regs_view(),
                old(self).mem_view(),
                dest_reg,
                src_reg,
            ),
    {
        proof {
            use_type_invariant(&*self);
        }
        if dest_reg > 15 || src_reg > 15 {
            return Err(MachineError::OutOfBounds);
        }
        let dest_addr = self.regs[dest_reg as usize];
        if dest_addr > (MEMORY_SIZE - 4) as u32 {
            return Err(MachineError::MemoryOutOfBoundsStore);
        }
        let v = self.regs[src_reg as usize];
        let a = dest_addr as usize;
        assert((v & 0xFF) < 256 && ((v >> 8u32) & 0xFF) < 256 && ((v >> 16u32) & 0xFF) < 256 && ((v
            >> 24u32) & 0xFF) < 256) by (bit_vector);
        self.memory[a] = (v & 0xFF) as u8;
        self.memory[a + 1] = ((v >> 8u32) & 0xFF) as u8;
        self.memory[a + 2] = ((v >> 16u32) & 0xFF) as u8;
        self.memory[a + 3] = ((v >> 24u32) & 0xFF) as u8;
        Ok(false)
    }

    /// The load instruction.
    pub fn load(&mut self, b1: u8, b2: u8) -> (r: Result<bool, MachineError>)
        ensures
            final(self).mem_view() == old(self).mem_view(),
            (final(self).regs_view(), r) == spec_load(
                old(self).regs_view(),
                old(self).mem_view(),
                b1,
                b2,
            ),
    {
        proof {
            use_type_invariant(&*self);
        }
        if b1 > 15 || b2 > 15 {
            return Err(MachineError::RegisterOutOfBounds);
        }
        let regb_ad = self.regs[b2 as usize];
        if regb_ad > (MEMORY_SIZE - 4) as u32 {
            return Err(MachineError::MemoryOutOfBoundsLoad);
        }
        let a = regb_ad as usize;
        let m0 = self.memory[a] as u32;
        let m1 = self.memory[a + 1] as u32;
        let m2 = self.memory[a + 2] as u32;
        let m3 = self.memory[a + 3] as u32;
        let value: u32 = m0 | (m1 << 8u32) | (m2 << 16u32) | (m3 << 24u32);
        self.regs[b1 as usize] = value;
        Ok(false)
    }

    /// The load-immediate instruction.
    pub fn load_imm(&mut self, b1: u8, b2: u8, b3: u8) -> (r: Result<bool, MachineError>)
        ensures
            final(self).mem_view() == old(self).mem_view(),
            (final(self).regs_view(), r) == spec_load_imm(old(self).regs_view(), b1, b2, b3),
    {
        proof {
            use_type_invariant(&*self);
        }
        if b1 > 15 {
            return Err(MachineError::OutOfBounds);
        }
        let value: u32 = if b3 >= 128 {
            0xFFFF_0000u32 | ((b3 as u32) << 8u32) | (b2 as u32)
        } else {
            ((b3 as u32) << 8u32) | (b2 as u32)
        };
        self.regs[b1 as usize] = value;
        Ok(false)
    }

    /// The wrapping subtraction instruction.
    pub fn sub(&mut self, b1: u8, b2: u8, b3: u8) -> (r: Result<bool, MachineError>)
        ensures
            final(self).mem_view() == old(self).mem_view(),
            (final(self).regs_view(), r) == spec_sub(old(self).regs_view(), b1, b2, b3),
    {
        proof {
            use_type_invariant(&*self);
        }
        if b1 > 15 || b2 > 15 || b3 > 15 {
            return Err(MachineError::OutOfBounds);
        }
        let a = self.regs[b2 as usize];
        let b = self.regs[b3 as usize];
        let value: u32 = if a >= b {
            a - b
        } else {
            ((a as u64 + 0x1_0000_0000u64) - b as u64) as u32
        };
        self.regs[b1 as usize] = value;
        Ok(false)
    }

    /// The character output instruction: appends the UTF-8 encoding of
    /// the low byte of register `b1`, read as a code point, to the sink.
    pub fn out(&mut self, out: &mut Vec<u8>, b1: u8) -> (r: Result<bool, MachineError>)
        ensures
            final(self).mem_view() == old(self).mem_view(),
            final(self).regs_view() == old(self).regs_view(),
            ({
                let (emitted, rr) = spec_out(old(self).regs_view(), b1);
                final(out)@ == old(out)@ + emitted && r == rr
            }),
    {
        proof {
            use_type_invariant(&*self);
        }
        if b1 > 15 {
            proof {
                assert(old(out)@ + Seq::<u8>::empty() =~= old(out)@);
            }
            return Err(MachineError::OutOfBounds);
        }
        let v = self.regs[b1 as usize];
        assert((v & 0xFF) < 256) by (bit_vector);
        let low: u8 = (v & 0xFF) as u8;
        if low < 0x80 {
            out.push(low);
            proof {
                assert(final(out)@ =~= old(out)@ + spec_utf8_of(low));
            }
        } else {
            out.push(0xC0u8 | (low >> 6u8));
            out.push(0x80u8 | (low & 0x3F));
            proof {
                assert(final(out)@ =~= old(out)@ + spec_utf8_of(low));
            }
        }
        Ok(false)
    }

    /// The exit instruction: reports termination, changing nothing.
    pub fn exit(&mut self) -> (r: Result<bool, MachineError>)
        ensures
            final(self).mem_view() == old(self).mem_view(),
            final(self).regs_view() == old(self).regs_view(),
            r == Ok::<bool, MachineError>(true),
    {
        Ok(true)
    }

    /// The number output instruction: appends the signed decimal
    /// rendering of register `b1` to the sink.
    pub fn out_number(&mut self, out: &mut Vec<u8>, b1: u8) -> (r: Result<bool, MachineError>)
        ensures
            final(self).mem_view() == old(self).mem_view(),
            final(self).regs_view() == old(self).regs_view(),
            ({
                let (emitted, rr) = spec_out_number(old(self).regs_view(), b1);
                final(out)@ == old(out)@ + emitted && r == rr
            }),
    {
        proof {
            use_type_invariant(&*self);
        }
        if b1 > 15 {
            proof {
                assert(old(out)@ + Seq::<u8>::empty() =~= old(out)@);
            }
            return Err(MachineError::OutOfBounds);
        }
        let v = self.regs[b1 as usize];
        if v >= 0x8000_0000 {
            out.push(0x2D);
            let mag: u32 = (0x1_0000_0000u64 - v as u64) as u32;
            push_decimal(out, mag);
            proof {
                assert(final(out)@ =~= old(out)@ + spec_dec_i32(v));
            }
        } else {
            push_decimal(out, v);
        }
        Ok(false)
    }

    /// Executes the next instruction: decodes the opcode at the
    /// instruction pointer, advances the pointer by the instruction
    /// size, then performs the instruction. Returns `Ok(true)` if the
    /// program terminated (exit instruction), `Ok(false)` if execution
    /// must continue, and the error otherwise. Output instructions
    /// append to `out`.
    pub fn step_on(&mut self, out: &mut Vec<u8>) -> (r: Result<bool, MachineError>)
        ensures
            ({
                let (s2, rr) = spec_step(old(self).state(old(out)@));
                final(self).regs_view() == s2.regs && final(self).mem_view() == s2.mem
                    && final(out)@ == s2.out && r == rr
            }),
    {
        proof {
            use_type_invariant(&*self);
        }
        let instruction_ad = self.regs[0];
        if instruction_ad >= MEMORY_SIZE as u32 {
            return Err(MachineError::MemoryOutOfBoundsStepOn);
        }
        let opcode = self.memory[instruction_ad as usize];
        let size = decode(opcode);
        let next_instruction_ad: u32 = instruction_ad + size;
        let _ = self.set_reg(0, next_instruction_ad);
        let mut b1: u8 = 0;
        let mut b2: u8 = 0;
        let mut b3: u8 = 0;
        if instruction_ad + 1 < MEMORY_SIZE as u32 {
            b1 = self.memory[(instruction_ad + 1) as usize];
        }
        if instruction_ad + 2 < MEMORY_SIZE as u32 {
            b2 = self.memory[(instruction_ad + 2) as usize];
        }
        if instruction_ad + 3 < MEMORY_SIZE as u32 {
            b3 = self.memory[(instruction_ad + 3) as usize];
        }
        match opcode {
            1 => self.move_(b1, b2, b3),
            2 => self.store(b1, b2),
            3 => self.load(b1, b2),
            4 => self.load_imm(b1, b2, b3),
            5 => self.sub(b1, b2, b3),
            6 => self.out(out, b1),
            7 => self.exit(),
            8 => self.out_number(out, b1),
            _ => Err(MachineError::WrongInstruction),
        }
    }

    /// Runs until the program terminates, an error happens, or
    /// `max_steps` instructions have executed. Returns `Ok(true)` on
    /// termination, `Ok(false)` when the step budget ran out first, and
    /// the error otherwise. Output instructions append to `out`.
    pub fn run_on(&mut self, out: &mut Vec<u8>, max_steps: u64) -> (r: Result<bool, MachineError>)
        ensures
            ({
                let (s2, rr) = spec_run(old(self).state(old(out)@), max_steps as nat);
                final(self).regs_view() == s2.regs && final(self).mem_view() == s2.mem
                    && final(out)@ == s2.out && r == rr
            }),
    {
        let mut fuel: u64 = max_steps;
        while fuel > 0
            invariant
                fuel <= max_steps,
                spec_run(old(self).state(old(out)@), max_steps as nat) == spec_run(
                    self.state(out@),
                    fuel as nat,
                ),
            decreases fuel,
        {
            let ghost s_before = self.state(out@);
            let step = self.step_on(out);
            proof {
                let (s2, rr) = spec_step(s_before);
                assert(self.state(out@) =~= s2);
                assert(spec_run(s_before, fuel as nat) == (match rr {
                    Ok(halted) => if halted {
                        (s2, Ok::<bool, MachineError>(true))
                    } else {
                        spec_run(s2, (fuel - 1) as nat)
                    },
                    Err(e) => (s2, Err::<bool, MachineError>(e)),
                }));
            }
            match step {
                Ok(halted) => {
                    if halted {
                        return Ok(true);
                    }
                },
                Err(e) => {
                    return Err(e);
                },
            }
            fuel -= 1;
        }
        Ok(false)
    }
}

/// The byte size of the instruction starting with `opcode`; 0 for an
/// invalid opcode.
fn decode(opcode: u8) -> (size: u32)
    ensures
        size == spec_decode(opcode),
{
    match opcode {
        1 | 4 | 5 => 4,
        2 | 3 => 3,
        6 | 8 => 2,
        7 => 1,
        _ => 0,
    }
}

/// Appends the decimal digits of `n`, most significant first.
fn push_decimal(out: &mut Vec<u8>, n: u32)
    ensures
        final(out)@ == old(out)@ + spec_dec_digits(n as nat),
{
    let mut rev: Vec<u8> = Vec::new();
    let mut m: u32 = n;
    proof {
        assert(rev@.reverse() =~= Seq::<u8>::empty());
        assert(spec_dec_digits(n as nat) =~= spec_dec_digits(m as nat) + rev@.reverse());
    }
    while m >= 10
        invariant
            spec_dec_digits(n as nat) == spec_dec_digits(m as nat) + rev@.reverse(),
        decreases m,
    {
        let d: u8 = (m % 10) as u8;
        proof {
            let prev = rev@;
            assert((prev.push((0x30 + d) as u8)).reverse() =~= seq![(0x30 + d) as u8]
                + prev.reverse());
            assert(spec_dec_digits(m as nat) == spec_dec_digits((m as nat) / 10).push(
                (0x30 + (m as nat) % 10) as u8,
            ));
            assert(spec_dec_digits((m as nat) / 10).push((0x30 + (m as nat) % 10) as u8)
                + prev.reverse() =~= spec_dec_digits((m as nat) / 10) + (seq![
                (0x30 + (m as nat) % 10) as u8,
            ] + prev.reverse()));
        }
        rev.push(0x30 + d);
        m = m / 10;
    }
    proof {
        let prev = rev@;
        assert((prev.push((0x30 + m as nat) as u8)).reverse() =~= seq![(0x30 + m as nat) as u8]
            + prev.reverse());
        assert(spec_dec_digits(m as nat) =~= seq![(0x30 + m as nat) as u8]);
    }
    rev.push(0x30 + (m as u8));
    proof {
        assert(spec_dec_digits(n as nat) =~= rev@.reverse());
    }
    let len = rev.len();
    let mut i: usize = len;
    while i > 0
        invariant
            i <= len,
            len == rev@.len(),
            out@ == old(out)@ + rev@.reverse().take((len - i) as int),
        decreases i,
    {
        i -= 1;
        out.push(rev[i]);
        proof {
            assert(rev@.reverse()[(len - i - 1) as int] == rev@[i as int]);
            assert(rev@.reverse().take((len - i) as int) =~= rev@.reverse().take(
                (len - i - 1) as int,
            ).push(rev@[i as int]));
            assert(out@ =~= old(out)@ + rev@.reverse().take((len - i) as int));
        }
    }
    proof {
        assert(rev@.reverse().take(len as int) =~= rev@.reverse());
        assert(out@ =~= old(out)@ + spec_dec_digits(n as nat));
    }
}

} // verus!
