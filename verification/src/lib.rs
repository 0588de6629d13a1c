//! A CHIP-8 virtual machine: a verified instruction-level interpreter over a
//! flat 4096-byte memory, sixteen 8-bit registers, a 16-entry call stack, two
//! saturating countdown timers, and a 64x32 monochrome framebuffer.
//!
//! [`Chip8`] owns the three components — [`cpu::Cpu`], [`memory::Memory`] and
//! [`display::Display`] — and drives them in lockstep, one instruction per
//! [`Chip8::step`]. The host supplies a 16-bit key mask per step, decrements
//! the two timers at its own fixed cadence, and presents the framebuffer.

use vstd::prelude::*;

pub mod cpu;
pub mod display;
pub mod errors;
pub mod instr;
pub mod memory;

use crate::cpu::{
    machine_wf, spec_dec_timer, spec_initial_cpu, spec_machine, spec_step, Cpu, CpuState, Machine,
};
use crate::display::{spec_blank_grid, Display};
use crate::errors::{Fault, LoadError};
use crate::memory::{spec_initial_memory, Memory};

verus! {

/// Number of pixel columns of the framebuffer.
pub const DISPLAY_WIDTH: usize = 64;

/// Number of pixel rows of the framebuffer.
pub const DISPLAY_HEIGHT: usize = 32;

/// The machine as a whole: processor, memory and framebuffer, composed in
/// lockstep.
pub struct Chip8 {
    cpu: Cpu,
    memory: Memory,
    display: Display,
}

impl View for Chip8 {
    type V = Machine;

    closed spec fn view(&self) -> Machine {
        spec_machine(self.cpu@, self.memory@, self.display@)
    }
}

impl Chip8 {
    /// The three components keep their fixed shapes.
    pub open spec fn wf(&self) -> bool {
        machine_wf(self@)
    }

    /// A machine at the start of a run of `program`: memory holds the font
    /// and the program image, the display is blank, every register is zero
    /// and the program counter points at the program. A program longer than
    /// the space above the load offset is rejected.
    pub fn new(program: &[u8]) -> (r: Result<Chip8, LoadError>)
        ensures
            program@.len() > 3584 ==> r == Err::<Chip8, LoadError>(LoadError::ProgramTooLong),
            program@.len() <= 3584 ==> (r matches Ok(c) && c.wf() && c@ == (Machine {
                cpu: spec_initial_cpu(),
                mem: spec_initial_memory(program@),
                disp: spec_blank_grid(),
            })),
    {
        let memory = match Memory::new(program) {
            Ok(m) => m,
            Err(e) => {
                return Err(e);
            },
        };
        let c = Chip8 { cpu: Cpu::new(), memory, display: Display::new() };
        proof {
            assert(c@ =~= (Machine {
                cpu: spec_initial_cpu(),
                mem: spec_initial_memory(program@),
                disp: spec_blank_grid(),
            }));
        }
        Ok(c)
    }

    /// Executes one instruction under the given key mask: [`spec_step`] for
    /// the byte the random-number source produced. A faulting step reports
    /// the fault and changes nothing.
    pub fn step(&mut self, key: u16) -> (res: Result<(), Fault>)
        requires
            old(self).wf(),
        ensures
            final(self).wf(),
            (match res {
                Ok(()) => exists|rnd: u8|
                    spec_step(old(self)@, key, rnd) == Ok::<Machine, Fault>(final(self)@),
                Err(f) => (forall|rnd: u8|
                    spec_step(old(self)@, key, rnd) == Err::<Machine, Fault>(f)) && final(self)@
                    == old(self)@,
            }),
    {
        let res = self.cpu.step(&mut self.memory, &mut self.display, key);
        res
    }

    /// The memory, for the host to inspect.
    pub fn get_memory(&self) -> (r: &Memory)
        ensures
            r@ == self@.mem,
    {
        &self.memory
    }

    /// The framebuffer, for the host to present.
    pub fn get_display(&self) -> (r: &Display)
        ensures
            r@ == self@.disp,
    {
        &self.display
    }

    /// Ticks the delay timer down once, saturating at zero.
    pub fn dec_delay_timer(&mut self)
        requires
            old(self).wf(),
        ensures
            final(self).wf(),
            final(self)@ == (Machine {
                cpu: CpuState { dt: spec_dec_timer(old(self)@.cpu.dt), ..old(self)@.cpu },
                ..old(self)@
            }),
    {
        self.cpu.dec_delay_timer();
        proof {
            assert(self@ =~= (Machine {
                cpu: CpuState { dt: spec_dec_timer(old(self)@.cpu.dt), ..old(self)@.cpu },
                ..old(self)@
            }));
        }
    }

    /// Ticks the sound timer down once, saturating at zero.
    pub fn dec_sound_timer(&mut self)
        requires
            old(self).wf(),
        ensures
            final(self).wf(),
            final(self)@ == (Machine {
                cpu: CpuState { st: spec_dec_timer(old(self)@.cpu.st), ..old(self)@.cpu },
                ..old(self)@
            }),
    {
        self.cpu.dec_sound_timer();
        proof {
            assert(self@ =~= (Machine {
                cpu: CpuState { st: spec_dec_timer(old(self)@.cpu.st), ..old(self)@.cpu },
                ..old(self)@
            }));
        }
    }

    /// The sound timer's value; the host emits sound while it is nonzero.
    pub fn get_sound_timer(&self) -> (r: u8)
        ensures
            r == self@.cpu.st,
    {
        self.cpu.get_sound_timer()
    }
}

} // verus!
