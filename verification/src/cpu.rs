//! The processor: registers, program counter, call stack, index register and
//! timers, with one `step` operation that fetches, decodes and executes a
//! single instruction against a memory and a display.
//!
//! The semantics of a step is stated once, as the mathematical transition
//! function [`spec_step`] over a [`Machine`] snapshot; `Cpu::step` is proved
//! to realise it. Where the reference instruction set is undefined, this
//! machine takes one deterministic policy: any out-of-range memory access
//! faults, a call with a full stack and a return with an empty stack fault,
//! a faulting step leaves the machine unchanged, and the index register
//! wraps as the 16-bit register it is.

use vstd::arithmetic::div_mod::{
    lemma_mod_add_multiples_vanish, lemma_mod_sub_multiples_vanish, lemma_small_mod,
};
use vstd::prelude::*;

use crate::display::{grid_wf, spec_blank_grid, spec_collision, spec_draw_grid, Display};
use crate::errors::Fault;
use crate::instr::{decode, spec_decode, Instruction};
use crate::memory::Memory;

verus! {

/// The mathematical value of a [`Cpu`]: its whole register state.
#[verifier::ext_equal]
pub ghost struct CpuState {
    /// The sixteen general registers V0..VF.
    pub v: Seq<u8>,
    /// The program counter, a byte address.
    pub pc: int,
    /// The sixteen call-stack slots.
    pub stack: Seq<u16>,
    /// The stack pointer: the number of occupied stack slots.
    pub sp: int,
    /// The index register I.
    pub i: int,
    /// The delay timer.
    pub dt: u8,
    /// The sound timer.
    pub st: u8,
}

/// One snapshot of the whole machine: processor, memory and framebuffer.
#[verifier::ext_equal]
pub ghost struct Machine {
    /// The processor state.
    pub cpu: CpuState,
    /// The 4096 memory bytes.
    pub mem: Seq<u8>,
    /// The 32 rows of 64 pixels.
    pub disp: Seq<Seq<bool>>,
}

/// Builds a machine snapshot from its three components.
pub open spec fn spec_machine(cpu: CpuState, mem: Seq<u8>, disp: Seq<Seq<bool>>) -> Machine {
    Machine { cpu, mem, disp }
}

/// A well-formed processor state: sixteen registers, sixteen stack slots, a
/// stack pointer within the stack, and 16-bit program counter and index.
pub open spec fn cpu_wf(c: CpuState) -> bool {
    &&& c.v.len() == 16
    &&& c.stack.len() == 16
    &&& 0 <= c.sp <= 16
    &&& 0 <= c.pc < 0x10000
    &&& 0 <= c.i < 0x10000
}

/// A well-formed machine snapshot.
pub open spec fn machine_wf(m: Machine) -> bool {
    cpu_wf(m.cpu) && m.mem.len() == 4096 && grid_wf(m.disp)
}

/// The processor state at machine start: everything zero but the program
/// counter, which points at the program load offset.
pub open spec fn spec_initial_cpu() -> CpuState {
    CpuState {
        v: Seq::new(16, |k: int| 0u8),
        pc: 512,
        stack: Seq::new(16, |k: int| 0u16),
        sp: 0,
        i: 0,
        dt: 0,
        st: 0,
    }
}

/// Addition modulo 256: the sum as an 8-bit register holds it.
pub open spec fn spec_wrap_add(a: u8, b: u8) -> u8 {
    ((a + b) % 256) as u8
}

/// Subtraction modulo 256: the difference as an 8-bit register holds it.
pub open spec fn spec_wrap_sub(a: u8, b: u8) -> u8 {
    ((a - b) % 256) as u8
}

/// Saturating decrement: the value of a timer after one tick.
pub open spec fn spec_dec_timer(t: u8) -> u8 {
    if t > 0 {
        (t - 1) as u8
    } else {
        0
    }
}

/// Whether key number `k` is held in the 16-bit key mask. Register values
/// beyond the sixteen keypad keys name no key and count as not held.
pub open spec fn spec_key_pressed(key: u16, k: u8) -> bool {
    k < 16 && key & (1u16 << (k as u16)) != 0
}

/// The index of the lowest set bit of a nonzero key mask.
pub open spec fn spec_lowest_key(key: u16) -> u8 {
    if key & (1u16 << 0u16) != 0 {
        0
    } else if key & (1u16 << 1u16) != 0 {
        1
    } else if key & (1u16 << 2u16) != 0 {
        2
    } else if key & (1u16 << 3u16) != 0 {
        3
    } else if key & (1u16 << 4u16) != 0 {
        4
    } else if key & (1u16 << 5u16) != 0 {
        5
    } else if key & (1u16 << 6u16) != 0 {
        6
    } else if key & (1u16 << 7u16) != 0 {
        7
    } else if key & (1u16 << 8u16) != 0 {
        8
    } else if key & (1u16 << 9u16) != 0 {
        9
    } else if key & (1u16 << 10u16) != 0 {
        10
    } else if key & (1u16 << 11u16) != 0 {
        11
    } else if key & (1u16 << 12u16) != 0 {
        12
    } else if key & (1u16 << 13u16) != 0 {
        13
    } else if key & (1u16 << 14u16) != 0 {
        14
    } else {
        15
    }
}

/// What one instruction does to the machine, given the key mask and the byte
/// `rnd` that the random-number source produced for this step. Jumps, calls
/// and returns set the program counter themselves; every other instruction
/// advances it by two (four where a skip is taken). A faulting instruction
/// produces no new machine.
pub open spec fn spec_exec(inst: Instruction, m: Machine, key: u16, rnd: u8) -> Result<
    Machine,
    Fault,
> {
    let cpu = m.cpu;
    match inst {
        Instruction::ClearScreen => Ok(
            Machine { cpu: CpuState { pc: cpu.pc + 2, ..cpu }, disp: spec_blank_grid(), ..m },
        ),
        Instruction::Return => {
            if cpu.sp == 0 {
                Err(Fault::StackUnderflow)
            } else {
                Ok(
                    Machine {
                        cpu: CpuState { pc: cpu.stack[cpu.sp - 1] as int, sp: cpu.sp - 1, ..cpu },
                        ..m
                    },
                )
            }
        },
        Instruction::Jump { nnn } => Ok(Machine { cpu: CpuState { pc: nnn as int, ..cpu }, ..m }),
        Instruction::Call { nnn } => {
            if cpu.sp >= 16 {
                Err(Fault::StackOverflow)
            } else {
                Ok(
                    Machine {
                        cpu: CpuState {
                            stack: cpu.stack.update(cpu.sp, (cpu.pc + 2) as u16),
                            sp: cpu.sp + 1,
                            pc: nnn as int,
                            ..cpu
                        },
                        ..m
                    },
                )
            }
        },
        Instruction::SkipIfEqual { x, nn } => Ok(
            Machine {
                cpu: CpuState {
                    pc: cpu.pc + (if cpu.v[x as int] == nn {
                        4int
                    } else {
                        2int
                    }),
                    ..cpu
                },
                ..m
            },
        ),
        Instruction::SkipIfNotEqual { x, nn } => Ok(
            Machine {
                cpu: CpuState {
                    pc: cpu.pc + (if cpu.v[x as int] != nn {
                        4int
                    } else {
                        2int
                    }),
                    ..cpu
                },
                ..m
            },
        ),
        Instruction::SkipIfRegistersEqual { x, y } => Ok(
            Machine {
                cpu: CpuState {
                    pc: cpu.pc + (if cpu.v[x as int] == cpu.v[y as int] {
                        4int
                    } else {
                        2int
                    }),
                    ..cpu
                },
                ..m
            },
        ),
        Instruction::LoadValue { x, nn } => Ok(
            Machine { cpu: CpuState { v: cpu.v.update(x as int, nn), pc: cpu.pc + 2, ..cpu }, ..m },
        ),
        Instruction::AddValue { x, nn } => Ok(
            Machine {
                cpu: CpuState {
                    v: cpu.v.update(x as int, spec_wrap_add(cpu.v[x as int], nn)),
                    pc: cpu.pc + 2,
                    ..cpu
                },
                ..m
            },
        ),
        Instruction::LoadRegister { x, y } => Ok(
            Machine {
                cpu: CpuState { v: cpu.v.update(x as int, cpu.v[y as int]), pc: cpu.pc + 2, ..cpu },
                ..m
            },
        ),
        Instruction::OrRegister { x, y } => Ok(
            Machine {
                cpu: CpuState {
                    v: cpu.v.update(x as int, cpu.v[x as int] | cpu.v[y as int]),
                    pc: cpu.pc + 2,
                    ..cpu
                },
                ..m
            },
        ),
        Instruction::AndRegister { x, y } => Ok(
            Machine {
                cpu: CpuState {
                    v: cpu.v.update(x as int, cpu.v[x as int] & cpu.v[y as int]),
                    pc: cpu.pc + 2,
                    ..cpu
                },
                ..m
            },
        ),
        Instruction::XorRegister { x, y } => Ok(
            Machine {
                cpu: CpuState {
                    v: cpu.v.update(x as int, cpu.v[x as int] ^ cpu.v[y as int]),
                    pc: cpu.pc + 2,
                    ..cpu
                },
                ..m
            },
        ),
        Instruction::AddRegister { x, y } => {
            let vx = cpu.v[x as int];
            let vy = cpu.v[y as int];
            let flag: u8 = if vx + vy > 255 {
                1
            } else {
                0
            };
            Ok(
                Machine {
                    cpu: CpuState {
                        v: cpu.v.update(x as int, spec_wrap_add(vx, vy)).update(15, flag),
                        pc: cpu.pc + 2,
                        ..cpu
                    },
                    ..m
                },
            )
        },
        Instruction::SubRegister { x, y } => {
            let vx = cpu.v[x as int];
            let vy = cpu.v[y as int];
            let flag: u8 = if vx >= vy {
                1
            } else {
                0
            };
            Ok(
                Machine {
                    cpu: CpuState {
                        v: cpu.v.update(x as int, spec_wrap_sub(vx, vy)).update(15, flag),
                        pc: cpu.pc + 2,
                        ..cpu
                    },
                    ..m
                },
            )
        },
        Instruction::ShiftRight { x } => {
            let vx = cpu.v[x as int];
            Ok(
                Machine {
                    cpu: CpuState {
                        v: cpu.v.update(15, vx & 1).update(x as int, vx >> 1),
                        pc: cpu.pc + 2,
                        ..cpu
                    },
                    ..m
                },
            )
        },
        Instruction::SubnRegister { x, y } => {
            let vx = cpu.v[x as int];
            let vy = cpu.v[y as int];
            let flag: u8 = if vy >= vx {
                1
            } else {
                0
            };
            Ok(
                Machine {
                    cpu: CpuState {
                        v: cpu.v.update(x as int, spec_wrap_sub(vy, vx)).update(15, flag),
                        pc: cpu.pc + 2,
                        ..cpu
                    },
                    ..m
                },
            )
        },
        Instruction::ShiftLeft { x } => {
            let vx = cpu.v[x as int];
            Ok(
                Machine {
                    cpu: CpuState {
                        v: cpu.v.update(15, (vx & 0x80) >> 7).update(x as int, vx << 1),
                        pc: cpu.pc + 2,
                        ..cpu
                    },
                    ..m
                },
            )
        },
        Instruction::SkipIfRegistersNotEqual { x, y } => Ok(
            Machine {
                cpu: CpuState {
                    pc: cpu.pc + (if cpu.v[x as int] != cpu.v[y as int] {
                        4int
                    } else {
                        2int
                    }),
                    ..cpu
                },
                ..m
            },
        ),
        Instruction::SetIndex { nnn } => Ok(
            Machine { cpu: CpuState { i: nnn as int, pc: cpu.pc + 2, ..cpu }, ..m },
        ),
        Instruction::JumpWithOffset { nnn } => Ok(
            Machine { cpu: CpuState { pc: nnn + cpu.v[0], ..cpu }, ..m },
        ),
        Instruction::Random { x, nn } => Ok(
            Machine {
                cpu: CpuState { v: cpu.v.update(x as int, rnd & nn), pc: cpu.pc + 2, ..cpu },
                ..m
            },
        ),
        Instruction::Draw { x, y, n } => {
            if cpu.i + n > 4096 {
                Err(Fault::AddressOutOfRange)
            } else {
                let sprite = m.mem.subrange(cpu.i, cpu.i + n);
                let disp = spec_draw_grid(m.disp, sprite, cpu.v[x as int] as int, cpu.v[y as int] as int);
                let flag: u8 = if spec_collision(m.disp, disp) {
                    1
                } else {
                    0
                };
                Ok(
                    Machine {
                        cpu: CpuState { v: cpu.v.update(15, flag), pc: cpu.pc + 2, ..cpu },
                        disp,
                        ..m
                    },
                )
            }
        },
        Instruction::SkipIfKeyPressed { x } => Ok(
            Machine {
                cpu: CpuState {
                    pc: cpu.pc + (if spec_key_pressed(key, cpu.v[x as int]) {
                        4int
                    } else {
                        2int
                    }),
                    ..cpu
                },
                ..m
            },
        ),
        Instruction::SkipIfKeyNotPressed { x } => Ok(
            Machine {
                cpu: CpuState {
                    pc: cpu.pc + (if !spec_key_pressed(key, cpu.v[x as int]) {
                        4int
                    } else {
                        2int
                    }),
                    ..cpu
                },
                ..m
            },
        ),
        Instruction::LoadDelayTimer { x } => Ok(
            Machine {
                cpu: CpuState { v: cpu.v.update(x as int, cpu.dt), pc: cpu.pc + 2, ..cpu },
                ..m
            },
        ),
        Instruction::WaitForKey { x } => {
            if key == 0 {
                Ok(m)
            } else {
                Ok(
                    Machine {
                        cpu: CpuState {
                            v: cpu.v.update(x as int, spec_lowest_key(key)),
                            pc: cpu.pc + 2,
                            ..cpu
                        },
                        ..m
                    },
                )
            }
        },
        Instruction::SetDelayTimer { x } => Ok(
            Machine { cpu: CpuState { dt: cpu.v[x as int], pc: cpu.pc + 2, ..cpu }, ..m },
        ),
        Instruction::SetSoundTimer { x } => Ok(
            Machine { cpu: CpuState { st: cpu.v[x as int], pc: cpu.pc + 2, ..cpu }, ..m },
        ),
        Instruction::AddToIndex { x } => Ok(
            Machine {
                cpu: CpuState { i: (cpu.i + cpu.v[x as int]) % 0x10000, pc: cpu.pc + 2, ..cpu },
                ..m
            },
        ),
        Instruction::LoadSpriteAddress { x } => Ok(
            Machine { cpu: CpuState { i: cpu.v[x as int] * 5, pc: cpu.pc + 2, ..cpu }, ..m },
        ),
        Instruction::StoreBcd { x } => {
            if cpu.i + 3 > 4096 {
                Err(Fault::AddressOutOfRange)
            } else {
                let vx = cpu.v[x as int];
                Ok(
                    Machine {
                        cpu: CpuState { pc: cpu.pc + 2, ..cpu },
                        mem: m.mem.update(cpu.i, (vx / 100) as u8).update(
                            cpu.i + 1,
                            ((vx % 100) / 10) as u8,
                        ).update(cpu.i + 2, (vx % 10) as u8),
                        ..m
                    },
                )
            }
        },
        Instruction::StoreRegisters { x } => {
            if cpu.i + x + 1 > 4096 {
                Err(Fault::AddressOutOfRange)
            } else {
                Ok(
                    Machine {
                        cpu: CpuState { pc: cpu.pc + 2, ..cpu },
                        mem: Seq::new(
                            4096,
                            |a: int|
                                if cpu.i <= a <= cpu.i + x {
                                    cpu.v[a - cpu.i]
                                } else {
                                    m.mem[a]
                                },
                        ),
                        ..m
                    },
                )
            }
        },
        Instruction::LoadRegisters { x } => {
            if cpu.i + x + 1 > 4096 {
                Err(Fault::AddressOutOfRange)
            } else {
                Ok(
                    Machine {
                        cpu: CpuState {
                            v: Seq::new(
                                16,
                                |k: int|
                                    if k <= x {
                                        m.mem[cpu.i + k]
                                    } else {
                                        cpu.v[k]
                                    },
                            ),
                            pc: cpu.pc + 2,
                            ..cpu
                        },
                        ..m
                    },
                )
            }
        },
        Instruction::Unknown { .. } => Ok(
            Machine { cpu: CpuState { pc: cpu.pc + 2, ..cpu }, ..m },
        ),
    }
}

/// One whole step: fetch the big-endian instruction word at the program
/// counter, decode it, and execute it. A program counter whose word would
/// run off the end of memory faults before anything changes.
pub open spec fn spec_step(m: Machine, key: u16, rnd: u8) -> Result<Machine, Fault> {
    if m.cpu.pc + 1 >= 4096 {
        Err(Fault::AddressOutOfRange)
    } else {
        spec_exec(spec_decode(m.mem[m.cpu.pc], m.mem[m.cpu.pc + 1]), m, key, rnd)
    }
}

/// All key-mask bits below bit `k` are clear exactly when the mask of the
/// `k` low bits selects nothing.
proof fn lemma_low_mask_bit(key: u16, k: u16, j: u16)
    by (bit_vector)
    requires
        j < k,
        k < 16,
        key & ((((1u16 << k) - 1) as u16)) == 0,
    ensures
        key & (1u16 << j) == 0,
{
}

/// The lowest-set-bit index of a nonzero mask selects a set bit, and every
/// bit below it is clear.
proof fn lemma_lowest_key_props(key: u16)
    by (bit_vector)
    requires
        key != 0,
    ensures
        key & (1u16 << (spec_lowest_key(key) as u16)) != 0,
        key & ((((1u16 << (spec_lowest_key(key) as u16)) - 1) as u16)) == 0,
        spec_lowest_key(key) < 16,
{
}

/// Law: for the add instruction 8xy4, VF becomes 1 exactly when the true sum
/// of the two 8-bit operands exceeds 255, and Vx holds the sum modulo 256
/// (unless x is the flag register itself, which the flag write then owns).
pub proof fn lemma_add_carry(m: Machine, key: u16, rnd: u8, x: u8, y: u8)
    requires
        machine_wf(m),
        0 <= m.cpu.pc,
        m.cpu.pc + 1 < 4096,
        spec_decode(m.mem[m.cpu.pc], m.mem[m.cpu.pc + 1]) == (Instruction::AddRegister { x, y }),
    ensures
        spec_step(m, key, rnd) is Ok,
        ({
            let vx = m.cpu.v[x as int];
            let vy = m.cpu.v[y as int];
            let c2 = spec_step(m, key, rnd)->Ok_0.cpu;
            &&& c2.v[15] == (if vx + vy > 255 {
                1u8
            } else {
                0u8
            })
            &&& x != 15 ==> c2.v[x as int] == (vx + vy) % 256
            &&& c2.pc == m.cpu.pc + 2
        }),
{
    crate::instr::lemma_decode_wf(m.mem[m.cpu.pc], m.mem[m.cpu.pc + 1]);
}

/// Law: for the subtract instruction 8xy5, VF becomes 1 exactly when there is
/// no borrow, that is when Vx was at least Vy before the operation, and Vx
/// holds the difference modulo 256 (unless x is the flag register itself).
pub proof fn lemma_sub_borrow(m: Machine, key: u16, rnd: u8, x: u8, y: u8)
    requires
        machine_wf(m),
        0 <= m.cpu.pc,
        m.cpu.pc + 1 < 4096,
        spec_decode(m.mem[m.cpu.pc], m.mem[m.cpu.pc + 1]) == (Instruction::SubRegister { x, y }),
    ensures
        spec_step(m, key, rnd) is Ok,
        ({
            let vx = m.cpu.v[x as int];
            let vy = m.cpu.v[y as int];
            let c2 = spec_step(m, key, rnd)->Ok_0.cpu;
            &&& c2.v[15] == (if vx >= vy {
                1u8
            } else {
                0u8
            })
            &&& x != 15 ==> c2.v[x as int] == (vx - vy) % 256
            &&& c2.pc == m.cpu.pc + 2
        }),
{
    crate::instr::lemma_decode_wf(m.mem[m.cpu.pc], m.mem[m.cpu.pc + 1]);
}

/// Law: the shift-right instruction 8xy6 sets VF to the pre-shift least
/// significant bit of Vx and halves Vx, for any x other than the flag
/// register itself.
pub proof fn lemma_shift_right_flag(m: Machine, key: u16, rnd: u8, x: u8)
    requires
        machine_wf(m),
        0 <= m.cpu.pc,
        m.cpu.pc + 1 < 4096,
        spec_decode(m.mem[m.cpu.pc], m.mem[m.cpu.pc + 1]) == (Instruction::ShiftRight { x }),
        x != 15,
    ensures
        spec_step(m, key, rnd) is Ok,
        ({
            let vx = m.cpu.v[x as int];
            let c2 = spec_step(m, key, rnd)->Ok_0.cpu;
            &&& c2.v[15] == vx & 1
            &&& c2.v[x as int] == vx >> 1
            &&& c2.pc == m.cpu.pc + 2
        }),
{
    crate::instr::lemma_decode_wf(m.mem[m.cpu.pc], m.mem[m.cpu.pc + 1]);
}

/// Law: the shift-left instruction 8xyE sets VF to the pre-shift most
/// significant bit of Vx and doubles Vx modulo 256, for any x other than the
/// flag register itself.
pub proof fn lemma_shift_left_flag(m: Machine, key: u16, rnd: u8, x: u8)
    requires
        machine_wf(m),
        0 <= m.cpu.pc,
        m.cpu.pc + 1 < 4096,
        spec_decode(m.mem[m.cpu.pc], m.mem[m.cpu.pc + 1]) == (Instruction::ShiftLeft { x }),
        x != 15,
    ensures
        spec_step(m, key, rnd) is Ok,
        ({
            let vx = m.cpu.v[x as int];
            let c2 = spec_step(m, key, rnd)->Ok_0.cpu;
            &&& c2.v[15] == (vx & 0x80) >> 7
            &&& c2.v[x as int] == vx << 1
            &&& c2.pc == m.cpu.pc + 2
        }),
{
    crate::instr::lemma_decode_wf(m.mem[m.cpu.pc], m.mem[m.cpu.pc + 1]);
}

/// Law: a call followed by its return is a round trip. Executing 2nnn from
/// address A and then 00EE at nnn brings the program counter to A + 2 with
/// the stack pointer restored to its pre-call value.
pub proof fn lemma_call_return_round_trip(m: Machine, key: u16, rnd: u8, nnn: u16)
    requires
        machine_wf(m),
        0 <= m.cpu.pc,
        m.cpu.pc + 1 < 4096,
        spec_decode(m.mem[m.cpu.pc], m.mem[m.cpu.pc + 1]) == (Instruction::Call { nnn }),
        m.cpu.sp < 16,
        nnn + 1 < 4096,
        spec_decode(m.mem[nnn as int], m.mem[nnn as int + 1]) == Instruction::Return,
    ensures
        spec_step(m, key, rnd) is Ok,
        spec_step(spec_step(m, key, rnd)->Ok_0, key, rnd) is Ok,
        ({
            let m2 = spec_step(spec_step(m, key, rnd)->Ok_0, key, rnd)->Ok_0;
            &&& m2.cpu.pc == m.cpu.pc + 2
            &&& m2.cpu.sp == m.cpu.sp
        }),
{
    let m1 = spec_step(m, key, rnd)->Ok_0;
    assert(m1.cpu.pc == nnn as int);
    assert(m1.cpu.sp == m.cpu.sp + 1);
    assert(m1.cpu.stack[m.cpu.sp] == (m.cpu.pc + 2) as u16);
    assert(m1.mem == m.mem);
    let m2 = spec_step(m1, key, rnd)->Ok_0;
    assert(m2.cpu.pc == m1.cpu.stack[m.cpu.sp] as int);
    assert((m.cpu.pc + 2) as u16 as int == m.cpu.pc + 2);
}

/// Law: the key-wait instruction Fx0A does not advance the program counter
/// while no key is held, and on the first step with a key held it stores the
/// lowest held key's index in Vx and advances by two.
pub proof fn lemma_key_wait(m: Machine, key: u16, rnd: u8, x: u8)
    requires
        machine_wf(m),
        0 <= m.cpu.pc,
        m.cpu.pc + 1 < 4096,
        spec_decode(m.mem[m.cpu.pc], m.mem[m.cpu.pc + 1]) == (Instruction::WaitForKey { x }),
    ensures
        spec_step(m, key, rnd) is Ok,
        key == 0 ==> spec_step(m, key, rnd)->Ok_0 == m,
        key != 0 ==> ({
            let c2 = spec_step(m, key, rnd)->Ok_0.cpu;
            &&& c2.pc == m.cpu.pc + 2
            &&& c2.v[x as int] == spec_lowest_key(key)
            &&& spec_key_pressed(key, spec_lowest_key(key))
            &&& forall|j: u8| j < spec_lowest_key(key) ==> !spec_key_pressed(key, j)
        }),
{
    crate::instr::lemma_decode_wf(m.mem[m.cpu.pc], m.mem[m.cpu.pc + 1]);
    if key != 0 {
        lemma_lowest_key_props(key);
        let lowest = spec_lowest_key(key);
        assert forall|j: u8| j < lowest implies !spec_key_pressed(key, j) by {
            lemma_low_mask_bit(key, lowest as u16, j as u16);
        }
    }
}

/// The value modular addition takes: the in-range sum, or the sum less 256.
proof fn lemma_wrap_add_values(a: u8, b: u8)
    ensures
        spec_wrap_add(a, b) == if a + b > 255 {
            (a + b - 256) as u8
        } else {
            (a + b) as u8
        },
{
    if a + b > 255 {
        lemma_mod_sub_multiples_vanish(a + b, 256);
        lemma_small_mod((a + b - 256) as nat, 256);
    } else {
        lemma_small_mod((a + b) as nat, 256);
    }
}

/// The value modular subtraction takes: the in-range difference, or the
/// difference plus 256.
proof fn lemma_wrap_sub_values(a: u8, b: u8)
    ensures
        spec_wrap_sub(a, b) == if a >= b {
            (a - b) as u8
        } else {
            (a - b + 256) as u8
        },
{
    if a >= b {
        lemma_small_mod((a - b) as nat, 256);
    } else {
        lemma_mod_add_multiples_vanish(a - b, 256);
        lemma_small_mod((a - b + 256) as nat, 256);
    }
}

/// Whether key `k` is held in the key mask.
fn key_pressed(key: u16, k: u8) -> (r: bool)
    ensures
        r == spec_key_pressed(key, k),
{
    k < 16 && (key & (1u16 << (k as u16))) != 0
}

/// The index of the lowest set bit of a nonzero key mask.
fn lowest_key(key: u16) -> (r: u8)
    requires
        key != 0,
    ensures
        r == spec_lowest_key(key),
        r < 16,
{
    if key & (1u16 << 0u16) != 0 {
        0
    } else if key & (1u16 << 1u16) != 0 {
        1
    } else if key & (1u16 << 2u16) != 0 {
        2
    } else if key & (1u16 << 3u16) != 0 {
        3
    } else if key & (1u16 << 4u16) != 0 {
        4
    } else if key & (1u16 << 5u16) != 0 {
        5
    } else if key & (1u16 << 6u16) != 0 {
        6
    } else if key & (1u16 << 7u16) != 0 {
        7
    } else if key & (1u16 << 8u16) != 0 {
        8
    } else if key & (1u16 << 9u16) != 0 {
        9
    } else if key & (1u16 << 10u16) != 0 {
        10
    } else if key & (1u16 << 11u16) != 0 {
        11
    } else if key & (1u16 << 12u16) != 0 {
        12
    } else if key & (1u16 << 13u16) != 0 {
        13
    } else if key & (1u16 << 14u16) != 0 {
        14
    } else {
        15
    }
}

/// Relies on rand::random: draws one byte from the thread-local generator.
/// Nothing is assumed of its value.
#[verifier::external_body]
fn random_byte() -> u8 {
    rand::random()
}

/// The processor.
pub struct Cpu {
    v: Vec<u8>,
    pc: u16,
    stack: Vec<u16>,
    sp: u8,
    i: u16,
    dt: u8,
    st: u8,
}

impl View for Cpu {
    type V = CpuState;

    closed spec fn view(&self) -> CpuState {
        CpuState {
            v: self.v@,
            pc: self.pc as int,
            stack: self.stack@,
            sp: self.sp as int,
            i: self.i as int,
            dt: self.dt,
            st: self.st,
        }
    }
}

impl Cpu {
    /// The register file and stack always keep their fixed sizes, and the
    /// stack pointer stays within the stack.
    pub open spec fn wf(&self) -> bool {
        cpu_wf(self@)
    }

    /// A processor at the start of a run.
    pub fn new() -> (cpu: Cpu)
        ensures
            cpu.wf(),
            cpu@ == spec_initial_cpu(),
    {
        let mut v: Vec<u8> = Vec::new();
        while v.len() < 16
            invariant
                v@.len() <= 16,
                forall|k: int| 0 <= k < v@.len() ==> v@[k] == 0u8,
            decreases 16 - v@.len(),
        {
            v.push(0);
        }
        let mut stack: Vec<u16> = Vec::new();
        while stack.len() < 16
            invariant
                stack@.len() <= 16,
                forall|k: int| 0 <= k < stack@.len() ==> stack@[k] == 0u16,
            decreases 16 - stack@.len(),
        {
            stack.push(0);
        }
        let cpu = Cpu { v, pc: 512, stack, sp: 0, i: 0, dt: 0, st: 0 };
        proof {
            assert(cpu@.v =~= spec_initial_cpu().v);
            assert(cpu@.stack =~= spec_initial_cpu().stack);
            assert(cpu@ =~= spec_initial_cpu());
        }
        cpu
    }

    /// Ticks the delay timer down once, saturating at zero.
    pub fn dec_delay_timer(&mut self)
        requires
            old(self).wf(),
        ensures
            final(self).wf(),
            final(self)@ == (CpuState { dt: spec_dec_timer(old(self)@.dt), ..old(self)@ }),
    {
        if self.dt > 0 {
            self.dt = self.dt - 1;
        }
        proof {
            assert(self@ =~= (CpuState { dt: spec_dec_timer(old(self)@.dt), ..old(self)@ }));
        }
    }

    /// Ticks the sound timer down once, saturating at zero.
    pub fn dec_sound_timer(&mut self)
        requires
            old(self).wf(),
        ensures
            final(self).wf(),
            final(self)@ == (CpuState { st: spec_dec_timer(old(self)@.st), ..old(self)@ }),
    {
        if self.st > 0 {
            self.st = self.st - 1;
        }
        proof {
            assert(self@ =~= (CpuState { st: spec_dec_timer(old(self)@.st), ..old(self)@ }));
        }
    }

    /// The sound timer's value; the host emits sound while it is nonzero.
    pub fn get_sound_timer(&self) -> (r: u8)
        ensures
            r == self@.st,
    {
        self.st
    }

    /// Executes exactly one instruction: fetches the word at the program
    /// counter, decodes it and applies it to the machine, realising
    /// [`spec_step`] for the byte the random-number source produced. On a
    /// fault nothing changes, and the same fault is what [`spec_step`] yields
    /// whatever that byte.
    #[verifier::rlimit(100)]
    pub fn step(&mut self, memory: &mut Memory, display: &mut Display, key: u16) -> (res: Result<
        (),
        Fault,
    >)
        requires
            old(self).wf(),
            old(memory).wf(),
            old(display).wf(),
        ensures
            final(self).wf(),
            final(memory).wf(),
            final(display).wf(),
            (match res {
                Ok(()) => exists|rnd: u8|
                    spec_step(spec_machine(old(self)@, old(memory)@, old(display)@), key, rnd)
                        == Ok::<Machine, Fault>(
                        spec_machine(final(self)@, final(memory)@, final(display)@),
                    ),
                Err(f) => {
                    &&& forall|rnd: u8|
                        spec_step(spec_machine(old(self)@, old(memory)@, old(display)@), key, rnd)
                            == Err::<Machine, Fault>(f)
                    &&& final(self)@ == old(self)@
                    &&& final(memory)@ == old(memory)@
                    &&& final(display)@ == old(display)@
                },
            }),
    {
        let ghost m0 = spec_machine(old(self)@, old(memory)@, old(display)@);
        if self.pc >= 4095 {
            return Err(Fault::AddressOutOfRange);
        }
        let pc = self.pc as usize;
        let hi = memory.byte_at(pc);
        let lo = memory.byte_at(pc + 1);
        let inst = decode(hi, lo);
        match inst {
            Instruction::ClearScreen => {
                display.clear();
                self.pc = self.pc + 2;
                proof {
                    let mnew = spec_machine(self@, memory@, display@);
                    assert(mnew =~= spec_exec(inst, m0, key, 0)->Ok_0);
                    assert(spec_step(m0, key, 0) == Ok::<Machine, Fault>(mnew));
                }
                Ok(())
            },
            Instruction::Return => {
                if self.sp == 0 {
                    return Err(Fault::StackUnderflow);
                }
                self.sp = self.sp - 1;
                self.pc = self.stack[self.sp as usize];
                proof {
                    let mnew = spec_machine(self@, memory@, display@);
                    assert(mnew =~= spec_exec(inst, m0, key, 0)->Ok_0);
                    assert(spec_step(m0, key, 0) == Ok::<Machine, Fault>(mnew));
                }
                Ok(())
            },
            Instruction::Jump { nnn } => {
                self.pc = nnn;
                proof {
                    let mnew = spec_machine(self@, memory@, display@);
                    assert(mnew =~= spec_exec(inst, m0, key, 0)->Ok_0);
                    assert(spec_step(m0, key, 0) == Ok::<Machine, Fault>(mnew));
                }
                Ok(())
            },
            Instruction::Call { nnn } => {
                if self.sp >= 16 {
                    return Err(Fault::StackOverflow);
                }
                self.stack[self.sp as usize] = self.pc + 2;
                self.sp = self.sp + 1;
                self.pc = nnn;
                proof {
                    let mnew = spec_machine(self@, memory@, display@);
                    assert(mnew =~= spec_exec(inst, m0, key, 0)->Ok_0);
                    assert(spec_step(m0, key, 0) == Ok::<Machine, Fault>(mnew));
                }
                Ok(())
            },
            Instruction::SkipIfEqual { x, nn } => {
                let vx = self.v[x as usize];
                self.pc = if vx == nn {
                    self.pc + 4
                } else {
                    self.pc + 2
                };
                proof {
                    let mnew = spec_machine(self@, memory@, display@);
                    assert(mnew =~= spec_exec(inst, m0, key, 0)->Ok_0);
                    assert(spec_step(m0, key, 0) == Ok::<Machine, Fault>(mnew));
                }
                Ok(())
            },
            Instruction::SkipIfNotEqual { x, nn } => {
                let vx = self.v[x as usize];
                self.pc = if vx != nn {
                    self.pc + 4
                } else {
                    self.pc + 2
                };
                proof {
                    let mnew = spec_machine(self@, memory@, display@);
                    assert(mnew =~= spec_exec(inst, m0, key, 0)->Ok_0);
                    assert(spec_step(m0, key, 0) == Ok::<Machine, Fault>(mnew));
                }
                Ok(())
            },
            Instruction::SkipIfRegistersEqual { x, y } => {
                let vx = self.v[x as usize];
                let vy = self.v[y as usize];
                self.pc = if vx == vy {
                    self.pc + 4
                } else {
                    self.pc + 2
                };
                proof {
                    let mnew = spec_machine(self@, memory@, display@);
                    assert(mnew =~= spec_exec(inst, m0, key, 0)->Ok_0);
                    assert(spec_step(m0, key, 0) == Ok::<Machine, Fault>(mnew));
                }
                Ok(())
            },
            Instruction::LoadValue { x, nn } => {
                self.v[x as usize] = nn;
                self.pc = self.pc + 2;
                proof {
                    let mnew = spec_machine(self@, memory@, display@);
                    assert(mnew =~= spec_exec(inst, m0, key, 0)->Ok_0);
                    assert(spec_step(m0, key, 0) == Ok::<Machine, Fault>(mnew));
                }
                Ok(())
            },
            Instruction::AddValue { x, nn } => {
                let vx = self.v[x as usize];
                let sum: u16 = vx as u16 + nn as u16;
                self.v[x as usize] = (sum % 256) as u8;
                self.pc = self.pc + 2;
                proof {
                    lemma_wrap_add_values(vx, nn);
                    let mnew = spec_machine(self@, memory@, display@);
                    assert(mnew =~= spec_exec(inst, m0, key, 0)->Ok_0);
                    assert(spec_step(m0, key, 0) == Ok::<Machine, Fault>(mnew));
                }
                Ok(())
            },
            Instruction::LoadRegister { x, y } => {
                self.v[x as usize] = self.v[y as usize];
                self.pc = self.pc + 2;
                proof {
                    let mnew = spec_machine(self@, memory@, display@);
                    assert(mnew =~= spec_exec(inst, m0, key, 0)->Ok_0);
                    assert(spec_step(m0, key, 0) == Ok::<Machine, Fault>(mnew));
                }
                Ok(())
            },
            Instruction::OrRegister { x, y } => {
                self.v[x as usize] = self.v[x as usize] | self.v[y as usize];
                self.pc = self.pc + 2;
                proof {
                    let mnew = spec_machine(self@, memory@, display@);
                    assert(mnew =~= spec_exec(inst, m0, key, 0)->Ok_0);
                    assert(spec_step(m0, key, 0) == Ok::<Machine, Fault>(mnew));
                }
                Ok(())
            },
            Instruction::AndRegister { x, y } => {
                self.v[x as usize] = self.v[x as usize] & self.v[y as usize];
                self.pc = self.pc + 2;
                proof {
                    let mnew = spec_machine(self@, memory@, display@);
                    assert(mnew =~= spec_exec(inst, m0, key, 0)->Ok_0);
                    assert(spec_step(m0, key, 0) == Ok::<Machine, Fault>(mnew));
                }
                Ok(())
            },
            Instruction::XorRegister { x, y } => {
                self.v[x as usize] = self.v[x as usize] ^ self.v[y as usize];
                self.pc = self.pc + 2;
                proof {
                    let mnew = spec_machine(self@, memory@, display@);
                    assert(mnew =~= spec_exec(inst, m0, key, 0)->Ok_0);
                    assert(spec_step(m0, key, 0) == Ok::<Machine, Fault>(mnew));
                }
                Ok(())
            },
            Instruction::AddRegister { x, y } => {
                let vx = self.v[x as usize];
                let vy = self.v[y as usize];
                let sum: u16 = vx as u16 + vy as u16;
                self.v[x as usize] = (sum % 256) as u8;
                self.v[15] = if sum > 255 {
                    1
                } else {
                    0
                };
                self.pc = self.pc + 2;
                proof {
                    lemma_wrap_add_values(vx, vy);
                    let mnew = spec_machine(self@, memory@, display@);
                    assert(mnew =~= spec_exec(inst, m0, key, 0)->Ok_0);
                    assert(spec_step(m0, key, 0) == Ok::<Machine, Fault>(mnew));
                }
                Ok(())
            },
            Instruction::SubRegister { x, y } => {
                let vx = self.v[x as usize];
                let vy = self.v[y as usize];
                self.v[x as usize] = if vx >= vy {
                    vx - vy
                } else {
                    (vx as u16 + 256 - vy as u16) as u8
                };
                self.v[15] = if vx >= vy {
                    1
                } else {
                    0
                };
                self.pc = self.pc + 2;
                proof {
                    lemma_wrap_sub_values(vx, vy);
                    let mnew = spec_machine(self@, memory@, display@);
                    assert(mnew =~= spec_exec(inst, m0, key, 0)->Ok_0);
                    assert(spec_step(m0, key, 0) == Ok::<Machine, Fault>(mnew));
                }
                Ok(())
            },
            Instruction::ShiftRight { x } => {
                let vx = self.v[x as usize];
                self.v[15] = vx & 1;
                self.v[x as usize] = vx >> 1;
                self.pc = self.pc + 2;
                proof {
                    let mnew = spec_machine(self@, memory@, display@);
                    assert(mnew =~= spec_exec(inst, m0, key, 0)->Ok_0);
                    assert(spec_step(m0, key, 0) == Ok::<Machine, Fault>(mnew));
                }
                Ok(())
            },
            Instruction::SubnRegister { x, y } => {
                let vx = self.v[x as usize];
                let vy = self.v[y as usize];
                self.v[x as usize] = if vy >= vx {
                    vy - vx
                } else {
                    (vy as u16 + 256 - vx as u16) as u8
                };
                self.v[15] = if vy >= vx {
                    1
                } else {
                    0
                };
                self.pc = self.pc + 2;
                proof {
                    lemma_wrap_sub_values(vy, vx);
                    let mnew = spec_machine(self@, memory@, display@);
                    assert(mnew =~= spec_exec(inst, m0, key, 0)->Ok_0);
                    assert(spec_step(m0, key, 0) == Ok::<Machine, Fault>(mnew));
                }
                Ok(())
            },
            Instruction::ShiftLeft { x } => {
                let vx = self.v[x as usize];
                self.v[15] = (vx & 0x80) >> 7;
                self.v[x as usize] = vx << 1;
                self.pc = self.pc + 2;
                proof {
                    let mnew = spec_machine(self@, memory@, display@);
                    assert(mnew =~= spec_exec(inst, m0, key, 0)->Ok_0);
                    assert(spec_step(m0, key, 0) == Ok::<Machine, Fault>(mnew));
                }
                Ok(())
            },
            Instruction::SkipIfRegistersNotEqual { x, y } => {
                let vx = self.v[x as usize];
                let vy = self.v[y as usize];
                self.pc = if vx != vy {
                    self.pc + 4
                } else {
                    self.pc + 2
                };
                proof {
                    let mnew = spec_machine(self@, memory@, display@);
                    assert(mnew =~= spec_exec(inst, m0, key, 0)->Ok_0);
                    assert(spec_step(m0, key, 0) == Ok::<Machine, Fault>(mnew));
                }
                Ok(())
            },
            Instruction::SetIndex { nnn } => {
                self.i = nnn;
                self.pc = self.pc + 2;
                proof {
                    let mnew = spec_machine(self@, memory@, display@);
                    assert(mnew =~= spec_exec(inst, m0, key, 0)->Ok_0);
                    assert(spec_step(m0, key, 0) == Ok::<Machine, Fault>(mnew));
                }
                Ok(())
            },
            Instruction::JumpWithOffset { nnn } => {
                self.pc = nnn + (self.v[0] as u16);
                proof {
                    let mnew = spec_machine(self@, memory@, display@);
                    assert(mnew =~= spec_exec(inst, m0, key, 0)->Ok_0);
                    assert(spec_step(m0, key, 0) == Ok::<Machine, Fault>(mnew));
                }
                Ok(())
            },
            Instruction::Random { x, nn } => {
                let rnd = random_byte();
                self.v[x as usize] = rnd & nn;
                self.pc = self.pc + 2;
                proof {
                    let mnew = spec_machine(self@, memory@, display@);
                    assert(mnew =~= spec_exec(inst, m0, key, rnd)->Ok_0);
                    assert(spec_step(m0, key, rnd) == Ok::<Machine, Fault>(mnew));
                }
                Ok(())
            },
            Instruction::Draw { x, y, n } => {
                let nu = n as usize;
                let base = self.i as usize;
                if base + nu > 4096 {
                    return Err(Fault::AddressOutOfRange);
                }
                let mut sprite: Vec<u8> = Vec::new();
                let mut k: usize = 0;
                while k < nu
                    invariant
                        k <= nu,
                        nu < 16,
                        base + nu <= 4096,
                        memory.wf(),
                        memory@ == old(memory)@,
                        sprite@.len() == k as int,
                        forall|j: int| 0 <= j < k ==> sprite@[j] == old(memory)@[base + j],
                    decreases nu - k,
                {
                    sprite.push(memory.byte_at(base + k));
                    k = k + 1;
                }
                proof {
                    assert(sprite@ =~= old(memory)@.subrange(base as int, base + nu));
                }
                let vx = self.v[x as usize];
                let vy = self.v[y as usize];
                let collision = display.draw(vx as usize, vy as usize, sprite.as_slice());
                self.v[15] = if collision {
                    1
                } else {
                    0
                };
                self.pc = self.pc + 2;
                proof {
                    let mnew = spec_machine(self@, memory@, display@);
                    assert(mnew =~= spec_exec(inst, m0, key, 0)->Ok_0);
                    assert(spec_step(m0, key, 0) == Ok::<Machine, Fault>(mnew));
                }
                Ok(())
            },
            Instruction::SkipIfKeyPressed { x } => {
                let vx = self.v[x as usize];
                self.pc = if key_pressed(key, vx) {
                    self.pc + 4
                } else {
                    self.pc + 2
                };
                proof {
                    let mnew = spec_machine(self@, memory@, display@);
                    assert(mnew =~= spec_exec(inst, m0, key, 0)->Ok_0);
                    assert(spec_step(m0, key, 0) == Ok::<Machine, Fault>(mnew));
                }
                Ok(())
            },
            Instruction::SkipIfKeyNotPressed { x } => {
                let vx = self.v[x as usize];
                self.pc = if !key_pressed(key, vx) {
                    self.pc + 4
                } else {
                    self.pc + 2
                };
                proof {
                    let mnew = spec_machine(self@, memory@, display@);
                    assert(mnew =~= spec_exec(inst, m0, key, 0)->Ok_0);
                    assert(spec_step(m0, key, 0) == Ok::<Machine, Fault>(mnew));
                }
                Ok(())
            },
            Instruction::LoadDelayTimer { x } => {
                self.v[x as usize] = self.dt;
                self.pc = self.pc + 2;
                proof {
                    let mnew = spec_machine(self@, memory@, display@);
                    assert(mnew =~= spec_exec(inst, m0, key, 0)->Ok_0);
                    assert(spec_step(m0, key, 0) == Ok::<Machine, Fault>(mnew));
                }
                Ok(())
            },
            Instruction::WaitForKey { x } => {
                if key == 0 {
                    proof {
                        let mnew = spec_machine(self@, memory@, display@);
                        assert(mnew =~= spec_exec(inst, m0, key, 0)->Ok_0);
                        assert(spec_step(m0, key, 0) == Ok::<Machine, Fault>(mnew));
                    }
                    return Ok(());
                }
                let lowest = lowest_key(key);
                self.v[x as usize] = lowest;
                self.pc = self.pc + 2;
                proof {
                    let mnew = spec_machine(self@, memory@, display@);
                    assert(mnew =~= spec_exec(inst, m0, key, 0)->Ok_0);
                    assert(spec_step(m0, key, 0) == Ok::<Machine, Fault>(mnew));
                }
                Ok(())
            },
            Instruction::SetDelayTimer { x } => {
                self.dt = self.v[x as usize];
                self.pc = self.pc + 2;
                proof {
                    let mnew = spec_machine(self@, memory@, display@);
                    assert(mnew =~= spec_exec(inst, m0, key, 0)->Ok_0);
                    assert(spec_step(m0, key, 0) == Ok::<Machine, Fault>(mnew));
                }
                Ok(())
            },
            Instruction::SetSoundTimer { x } => {
                self.st = self.v[x as usize];
                self.pc = self.pc + 2;
                proof {
                    let mnew = spec_machine(self@, memory@, display@);
                    assert(mnew =~= spec_exec(inst, m0, key, 0)->Ok_0);
                    assert(spec_step(m0, key, 0) == Ok::<Machine, Fault>(mnew));
                }
                Ok(())
            },
            Instruction::AddToIndex { x } => {
                let vx = self.v[x as usize];
                let sum: u32 = self.i as u32 + vx as u32;
                self.i = (sum % 0x10000) as u16;
                self.pc = self.pc + 2;
                proof {
                    let mnew = spec_machine(self@, memory@, display@);
                    assert(mnew =~= spec_exec(inst, m0, key, 0)->Ok_0);
                    assert(spec_step(m0, key, 0) == Ok::<Machine, Fault>(mnew));
                }
                Ok(())
            },
            Instruction::LoadSpriteAddress { x } => {
                self.i = (self.v[x as usize] as u16) * 5;
                self.pc = self.pc + 2;
                proof {
                    let mnew = spec_machine(self@, memory@, display@);
                    assert(mnew =~= spec_exec(inst, m0, key, 0)->Ok_0);
                    assert(spec_step(m0, key, 0) == Ok::<Machine, Fault>(mnew));
                }
                Ok(())
            },
            Instruction::StoreBcd { x } => {
                let base = self.i as usize;
                if base + 3 > 4096 {
                    return Err(Fault::AddressOutOfRange);
                }
                let vx = self.v[x as usize];
                memory.set_byte(base, vx / 100);
                memory.set_byte(base + 1, (vx % 100) / 10);
                memory.set_byte(base + 2, vx % 10);
                self.pc = self.pc + 2;
                proof {
                    let mnew = spec_machine(self@, memory@, display@);
                    assert(mnew =~= spec_exec(inst, m0, key, 0)->Ok_0);
                    assert(spec_step(m0, key, 0) == Ok::<Machine, Fault>(mnew));
                }
                Ok(())
            },
            Instruction::StoreRegisters { x } => {
                let xu = x as usize;
                let base = self.i as usize;
                if base + xu + 1 > 4096 {
                    return Err(Fault::AddressOutOfRange);
                }
                let mut k: usize = 0;
                while k <= xu
                    invariant
                        k <= xu + 1,
                        xu < 16,
                        base + xu + 1 <= 4096,
                        self@ == old(self)@,
                        self.wf(),
                        memory.wf(),
                        forall|a: int|
                            0 <= a < 4096 ==> memory@[a] == (if base <= a < base + k {
                                old(self)@.v[a - base]
                            } else {
                                old(memory)@[a]
                            }),
                    decreases xu + 1 - k,
                {
                    let value = self.v[k];
                    memory.set_byte(base + k, value);
                    k = k + 1;
                }
                self.pc = self.pc + 2;
                proof {
                    let tgt = spec_exec(inst, m0, key, 0);
                    assert(memory@ =~= tgt->Ok_0.mem);
                    let mnew = spec_machine(self@, memory@, display@);
                    assert(mnew =~= tgt->Ok_0);
                    assert(spec_step(m0, key, 0) == Ok::<Machine, Fault>(mnew));
                }
                Ok(())
            },
            Instruction::LoadRegisters { x } => {
                let xu = x as usize;
                let base = self.i as usize;
                if base + xu + 1 > 4096 {
                    return Err(Fault::AddressOutOfRange);
                }
                let mut k: usize = 0;
                while k <= xu
                    invariant
                        k <= xu + 1,
                        xu < 16,
                        base + xu + 1 <= 4096,
                        memory.wf(),
                        memory@ == old(memory)@,
                        self.wf(),
                        self@.v.len() == 16,
                        forall|j: int|
                            0 <= j < 16 ==> self@.v[j] == (if 0 <= j < k {
                                old(memory)@[base + j]
                            } else {
                                old(self)@.v[j]
                            }),
                        self@.pc == old(self)@.pc,
                        self@.stack == old(self)@.stack,
                        self@.sp == old(self)@.sp,
                        self@.i == old(self)@.i,
                        self@.dt == old(self)@.dt,
                        self@.st == old(self)@.st,
                    decreases xu + 1 - k,
                {
                    let value = memory.byte_at(base + k);
                    self.v[k] = value;
                    k = k + 1;
                }
                self.pc = self.pc + 2;
                proof {
                    let tgt = spec_exec(inst, m0, key, 0);
                    assert(self@.v =~= tgt->Ok_0.cpu.v);
                    let mnew = spec_machine(self@, memory@, display@);
                    assert(mnew =~= tgt->Ok_0);
                    assert(spec_step(m0, key, 0) == Ok::<Machine, Fault>(mnew));
                }
                Ok(())
            },
            Instruction::Unknown { .. } => {
                self.pc = self.pc + 2;
                proof {
                    let mnew = spec_machine(self@, memory@, display@);
                    assert(mnew =~= spec_exec(inst, m0, key, 0)->Ok_0);
                    assert(spec_step(m0, key, 0) == Ok::<Machine, Fault>(mnew));
                }
                Ok(())
            },
        }
    }

    /// The value of general register `x`.
    pub fn get_register(&self, x: u8) -> (r: u8)
        requires
            self.wf(),
            x < 16,
        ensures
            r == self@.v[x as int],
    {
        self.v[x as usize]
    }

    /// Sets general register `x` to `value`.
    pub fn set_register(&mut self, x: u8, value: u8)
        requires
            old(self).wf(),
            x < 16,
        ensures
            final(self).wf(),
            final(self)@ == (CpuState { v: old(self)@.v.update(x as int, value), ..old(self)@ }),
    {
        self.v[x as usize] = value;
        proof {
            assert(self@ =~= (CpuState { v: old(self)@.v.update(x as int, value), ..old(self)@ }));
        }
    }

    /// The program counter.
    pub fn get_pc(&self) -> (r: u16)
        ensures
            r as int == self@.pc,
    {
        self.pc
    }

    /// The index register I.
    pub fn get_index(&self) -> (r: u16)
        ensures
            r as int == self@.i,
    {
        self.i
    }

    /// Sets the index register I.
    pub fn set_index(&mut self, value: u16)
        requires
            old(self).wf(),
        ensures
            final(self).wf(),
            final(self)@ == (CpuState { i: value as int, ..old(self)@ }),
    {
        self.i = value;
        proof {
            assert(self@ =~= (CpuState { i: value as int, ..old(self)@ }));
        }
    }

    /// The delay timer's value.
    pub fn get_delay_timer(&self) -> (r: u8)
        ensures
            r == self@.dt,
    {
        self.dt
    }

    /// Sets the delay timer.
    pub fn set_delay_timer(&mut self, value: u8)
        requires
            old(self).wf(),
        ensures
            final(self).wf(),
            final(self)@ == (CpuState { dt: value, ..old(self)@ }),
    {
        self.dt = value;
        proof {
            assert(self@ =~= (CpuState { dt: value, ..old(self)@ }));
        }
    }

    /// Sets the sound timer.
    pub fn set_sound_timer(&mut self, value: u8)
        requires
            old(self).wf(),
        ensures
            final(self).wf(),
            final(self)@ == (CpuState { st: value, ..old(self)@ }),
    {
        self.st = value;
        proof {
            assert(self@ =~= (CpuState { st: value, ..old(self)@ }));
        }
    }

    /// The stack pointer: the number of occupied call-stack slots.
    pub fn get_sp(&self) -> (r: u8)
        ensures
            r as int == self@.sp,
    {
        self.sp
    }

    /// Sets the stack pointer.
    pub fn set_sp(&mut self, value: u8)
        requires
            old(self).wf(),
            value <= 16,
        ensures
            final(self).wf(),
            final(self)@ == (CpuState { sp: value as int, ..old(self)@ }),
    {
        self.sp = value;
        proof {
            assert(self@ =~= (CpuState { sp: value as int, ..old(self)@ }));
        }
    }

    /// The return address in call-stack slot `idx`.
    pub fn get_stack_entry(&self, idx: u8) -> (r: u16)
        requires
            self.wf(),
            idx < 16,
        ensures
            r == self@.stack[idx as int],
    {
        self.stack[idx as usize]
    }

    /// Sets call-stack slot `idx` to the address `value`.
    pub fn set_stack_entry(&mut self, idx: u8, value: u16)
        requires
            old(self).wf(),
            idx < 16,
        ensures
            final(self).wf(),
            final(self)@ == (CpuState {
                stack: old(self)@.stack.update(idx as int, value),
                ..old(self)@
            }),
    {
        self.stack[idx as usize] = value;
        proof {
            assert(self@ =~= (CpuState {
                stack: old(self)@.stack.update(idx as int, value),
                ..old(self)@
            }));
        }
    }
}

impl Default for Cpu {
    /// The same processor as [`Cpu::new`] builds.
    fn default() -> (cpu: Cpu)
        ensures
            cpu.wf(),
            cpu@ == spec_initial_cpu(),
    {
        Cpu::new()
    }
}

} // verus!
