//! The exception model: the closed set of architectural exceptions, the
//! priority table, and the NVIC-like pending-exception controller.
//!
//! Reset, NMI and HardFault carry the fixed priorities -3, -2 and -1;
//! every other exception has default priority 0. Draining returns the
//! most urgent pending exception: the lowest priority value first, ties
//! broken by the lower exception number.

use vstd::prelude::*;

use crate::bits::DataBus;
use crate::processor::{
    bus_read_state, bus_read_val, bus_write_state, throw_model, Mode, ProcModel, Processor,
};
use crate::registers::{bit_is_set, reg_read, reg_stored, reg_write, vtor_base_addr, RegsModel};

verus! {

/// An exception stack frame descriptor: whether the stack was
/// word-but-not-doubleword aligned when the frame was opened, and the
/// address of the frame.
pub struct Frame {
    pub align: bool,
    pub ptr: u32,
}

/// An architectural exception, with its canonical number.
#[derive(Debug, PartialEq, Eq, Hash, Clone, Copy, Structural)]
pub enum Exception {
    Reset,
    Nmi,
    HardFault,
    MemManage,
    BusFault,
    UsageFault,
    SVCall,
    DebugMonitor,
    PendSV,
    SysTick,
    Interrupt { offset: usize },
}

/// The canonical exception number: 1, 2, 3, 4, 5, 6, 11, 12, 14, 15,
/// and the raw offset for an external interrupt.
pub open spec fn exc_number(e: Exception) -> int {
    match e {
        Exception::Reset => 1,
        Exception::Nmi => 2,
        Exception::HardFault => 3,
        Exception::MemManage => 4,
        Exception::BusFault => 5,
        Exception::UsageFault => 6,
        Exception::SVCall => 11,
        Exception::DebugMonitor => 12,
        Exception::PendSV => 14,
        Exception::SysTick => 15,
        Exception::Interrupt { offset } => offset as int,
    }
}

impl Exception {
    /// The canonical exception number.
    pub fn number(self) -> (r: usize)
        ensures
            r == exc_number(self),
    {
        match self {
            Exception::Reset => 1,
            Exception::Nmi => 2,
            Exception::HardFault => 3,
            Exception::MemManage => 4,
            Exception::BusFault => 5,
            Exception::UsageFault => 6,
            Exception::SVCall => 11,
            Exception::DebugMonitor => 12,
            Exception::PendSV => 14,
            Exception::SysTick => 15,
            Exception::Interrupt { offset } => offset,
        }
    }
}

/// The priority an association list assigns to `e`: the latest entry
/// for `e` wins, and an exception without an entry has priority 0.
pub open spec fn assoc_priority(s: Seq<(Exception, i32)>, e: Exception) -> i32
    decreases s.len(),
{
    if s.len() == 0 {
        0
    } else if s.last().0 == e {
        s.last().1
    } else {
        assoc_priority(s.drop_last(), e)
    }
}

/// A priority assignment: an association list from exception to
/// priority, defaulting to 0.
#[derive(Clone)]
pub struct Priority {
    pub priorities: Vec<(Exception, i32)>,
}

impl Priority {
    pub fn new(priorities: Vec<(Exception, i32)>) -> (r: Priority)
        ensures
            r.priorities@ == priorities@,
    {
        Priority { priorities }
    }

    /// The priority assigned to `exception`.
    pub fn get(&self, exception: Exception) -> (r: i32)
        ensures
            r == assoc_priority(self.priorities@, exception),
    {
        let ghost s = self.priorities@;
        let mut i: usize = self.priorities.len();
        proof {
            assert(s.take(s.len() as int) =~= s);
        }
        while i > 0
            invariant
                i <= s.len(),
                s == self.priorities@,
                assoc_priority(s, exception) == assoc_priority(s.take(i as int), exception),
            decreases i,
        {
            i = i - 1;
            let entry = &self.priorities[i];
            proof {
                assert(s.take(i + 1).drop_last() =~= s.take(i as int));
                assert(s.take(i + 1).last() == s[i as int]);
            }
            if entry.0 == exception {
                return entry.1;
            }
        }
        proof {
            assert(s.take(0).len() == 0);
        }
        0
    }
}

/// The fixed priority of each exception: negative for Reset, NMI and
/// HardFault, 0 for everything else. Lower wins.
pub open spec fn exc_priority(e: Exception) -> i32 {
    match e {
        Exception::Reset => -3i32,
        Exception::Nmi => -2i32,
        Exception::HardFault => -1i32,
        _ => 0i32,
    }
}

/// `a` drains no later than `b`: strictly more urgent priority, or the
/// same priority and a number no greater.
pub open spec fn exc_key_le(a: Exception, b: Exception) -> bool {
    exc_priority(a) < exc_priority(b) || (exc_priority(a) == exc_priority(b) && exc_number(a)
        <= exc_number(b))
}

/// The index `poll` drains from a nonempty pending queue: the most
/// urgent entry, the latest one among equals.
pub open spec fn poll_index(s: Seq<Exception>) -> int
    decreases s.len(),
{
    if s.len() <= 1 {
        0
    } else {
        let i = poll_index(s.drop_last());
        if exc_key_le(s.last(), s[i]) {
            s.len() - 1
        } else {
            i
        }
    }
}

/// Drain order: whatever the queue holds, the entry at the drained
/// index is beaten by no other pending entry — a lower priority value
/// always leaves first, and among equal priorities the lower exception
/// number does.
pub proof fn lemma_poll_index(s: Seq<Exception>)
    requires
        s.len() > 0,
    ensures
        0 <= poll_index(s) < s.len(),
        forall|j: int| 0 <= j < s.len() ==> exc_key_le(s[poll_index(s)], s[j]),
    decreases s.len(),
{
    if s.len() > 1 {
        lemma_poll_index(s.drop_last());
        assert(forall|j: int|
            0 <= j < s.len() - 1 ==> s.drop_last()[j] == s[j]);
        let i = poll_index(s.drop_last());
        assert(forall|j: int|
            0 <= j < s.len() ==> exc_key_le(s[poll_index(s)], s[j])) by {
            assert(forall|a: Exception, b: Exception, c: Exception|
                exc_key_le(a, b) && exc_key_le(b, c) ==> exc_key_le(a, c));
            assert(forall|a: Exception, b: Exception| exc_key_le(a, b) || exc_key_le(b, a));
        }
    }
}

/// The pending-exception controller: a priority table, the pending
/// queue, and the execution priority group that gates new entries.
#[derive(Clone)]
pub struct InterruptController {
    pub priority: Priority,
    pub pending: Vec<Exception>,
    pub group: i32,
}

impl InterruptController {
    /// The controller carries the fixed architectural priority table,
    /// and the execution priority group still sits at its initial 0:
    /// nothing ever raises it.
    pub open spec fn wf(self) -> bool {
        &&& forall|e: Exception| assoc_priority(self.priority.priorities@, e) == exc_priority(e)
        &&& self.group == 0
    }

    /// A fresh controller: fixed priorities, nothing pending, group 0.
    pub fn new() -> (r: InterruptController)
        ensures
            r.wf(),
            r.pending@.len() == 0,
            r.group == 0,
    {
        let mut priorities: Vec<(Exception, i32)> = Vec::new();
        priorities.push((Exception::Reset, -3));
        priorities.push((Exception::Nmi, -2));
        priorities.push((Exception::HardFault, -1));
        let r = InterruptController {
            priority: Priority::new(priorities),
            pending: Vec::new(),
            group: 0,
        };
        proof {
            let t = r.priority.priorities@;
            let t1 = t.drop_last();
            let t2 = t1.drop_last();
            assert(t1 =~= seq![(Exception::Reset, -3i32), (Exception::Nmi, -2i32)]);
            assert(t2 =~= seq![(Exception::Reset, -3i32)]);
            assert(t2.drop_last() =~= Seq::<(Exception, i32)>::empty());
            assert(t.last() == (Exception::HardFault, -1i32));
            assert(t1.last() == (Exception::Nmi, -2i32));
            assert(t2.last() == (Exception::Reset, -3i32));
            assert forall|e: Exception| assoc_priority(t, e) == exc_priority(e) by {
                if e == Exception::HardFault {
                    assert(assoc_priority(t, e) == -1i32);
                } else {
                    assert(assoc_priority(t, e) == assoc_priority(t1, e));
                    if e == Exception::Nmi {
                        assert(assoc_priority(t1, e) == -2i32);
                    } else {
                        assert(assoc_priority(t1, e) == assoc_priority(t2, e));
                        if e == Exception::Reset {
                            assert(assoc_priority(t2, e) == -3i32);
                        } else {
                            assert(assoc_priority(t2, e) == assoc_priority(t2.drop_last(), e));
                            assert(assoc_priority(t2.drop_last(), e) == 0);
                        }
                    }
                }
            }
        }
        r
    }

    /// Enqueue `exception` if its priority does not exceed the current
    /// execution priority group; otherwise drop it.
    pub fn throw(&mut self, exception: Exception)
        requires
            old(self).wf(),
        ensures
            final(self).wf(),
            final(self).priority == old(self).priority,
            final(self).group == old(self).group,
            exc_priority(exception) <= old(self).group ==> final(self).pending@ == old(
                self,
            ).pending@.push(exception),
            exc_priority(exception) > old(self).group ==> final(self).pending@ == old(
                self,
            ).pending@,
    {
        if self.priority.get(exception) <= self.group {
            self.pending.push(exception);
        }
    }

    /// Drain the most urgent pending exception, if any: lowest priority
    /// value first, ties to the lowest exception number.
    pub fn poll(&mut self) -> (r: Option<Exception>)
        requires
            old(self).wf(),
        ensures
            final(self).wf(),
            final(self).priority == old(self).priority,
            final(self).group == old(self).group,
            old(self).pending@.len() == 0 ==> r is None && final(self).pending@ == old(
                self,
            ).pending@,
            old(self).pending@.len() > 0 ==> {
                &&& r == Some(old(self).pending@[poll_index(old(self).pending@)])
                &&& final(self).pending@ == old(self).pending@.remove(
                    poll_index(old(self).pending@),
                )
            },
    {
        let n = self.pending.len();
        if n == 0 {
            return None;
        }
        let ghost s = self.pending@;
        let mut best: usize = 0;
        let mut j: usize = 1;
        proof {
            assert(s.take(1).len() == 1);
            assert(poll_index(s.take(1)) == 0);
        }
        while j < n
            invariant
                1 <= j <= n,
                best < j,
                n == s.len(),
                s == self.pending@,
                old(self).wf(),
                self.priority.priorities@ == old(self).priority.priorities@,
                self.group == old(self).group,
                best == poll_index(s.take(j as int)),
            decreases n - j,
        {
            let ghost ob = best as int;
            let pj = self.priority.get(self.pending[j]);
            let pb = self.priority.get(self.pending[best]);
            let nj = self.pending[j].number();
            let nb = self.pending[best].number();
            if pj < pb || (pj == pb && nj <= nb) {
                best = j;
            }
            proof {
                let t = s.take(j + 1);
                assert(t.drop_last() =~= s.take(j as int));
                assert(t.last() == s[j as int]);
                assert(t[ob] == s[ob]);
                assert(pj == exc_priority(s[j as int]) && pb == exc_priority(s[ob]));
                assert(exc_key_le(s[j as int], s[ob]) == (pj < pb || (pj == pb && nj <= nb)));
                assert(poll_index(t) == (if exc_key_le(t.last(), t[poll_index(t.drop_last())]) {
                    t.len() - 1
                } else {
                    poll_index(t.drop_last())
                }));
                assert(best == poll_index(s.take(j + 1)));
            }
            j = j + 1;
        }
        proof {
            assert(s.take(n as int) =~= s);
        }
        let e = self.pending.remove(best);
        Some(e)
    }
}

/// The state after opening a stack frame: SP drops by 0x20 and is
/// forced doubleword-aligned.
pub open spec fn frame_model(m: ProcModel) -> ProcModel {
    let sp = reg_stored(m.regs, 13, m.mode);
    ProcModel { regs: reg_write(m.regs, 13, sp.wrapping_sub(0x20) & 0xFFFFFFFBu32, m.mode), ..m }
}

/// The state after pushing the 8-word exception frame: R0-R3, R12, LR
/// and the return address at SP+0..SP+0x18, the PSR with the alignment
/// flag in bit 9 at SP+0x1C, and LR set to the EXC_RETURN value that
/// encodes the interrupted mode and stack.
pub open spec fn push_stack_model(m: ProcModel) -> ProcModel {
    let align = reg_stored(m.regs, 13, m.mode) & 4 != 0;
    let m0 = frame_model(m);
    let p = reg_stored(m0.regs, 13, m0.mode);
    let m1 = bus_write_state(m0, p as int, 4, reg_read(m0.regs, 0, m0.mode) as nat);
    let m2 = bus_write_state(m1, p.wrapping_add(4) as int, 4, reg_read(m1.regs, 1, m1.mode) as nat);
    let m3 = bus_write_state(m2, p.wrapping_add(8) as int, 4, reg_read(m2.regs, 2, m2.mode) as nat);
    let m4 = bus_write_state(
        m3,
        p.wrapping_add(12) as int,
        4,
        reg_read(m3.regs, 3, m3.mode) as nat,
    );
    let m5 = bus_write_state(
        m4,
        p.wrapping_add(16) as int,
        4,
        reg_read(m4.regs, 12, m4.mode) as nat,
    );
    let m6 = bus_write_state(
        m5,
        p.wrapping_add(20) as int,
        4,
        reg_read(m5.regs, 14, m5.mode) as nat,
    );
    let m7 = bus_write_state(
        m6,
        p.wrapping_add(24) as int,
        4,
        reg_read(m6.regs, 15, m6.mode) as nat,
    );
    let psr_val = (m7.regs.psr & !(1u32 << 9)) | ((if align {
        1u32
    } else {
        0u32
    }) << 9);
    let m8 = bus_write_state(m7, p.wrapping_add(0x1c) as int, 4, psr_val as nat);
    let lr = if m8.mode == Mode::Handle {
        0xfffffff1u32
    } else if !m8.regs.ctrl_stack {
        0xfffffff9u32
    } else {
        0xfffffffdu32
    };
    ProcModel { regs: reg_write(m8.regs, 14, lr, m8.mode), ..m8 }
}

/// The state after popping an 8-word frame at `ptr`: R0-R3, R12, LR
/// and PC restored from the frame, PSR from its last word, and the
/// stack pointer named by the EXC_RETURN nibble raised by 0x20, ORed
/// with 4 when the frame recorded an aligned entry.
pub open spec fn pop_stack_model(m: ProcModel, ptr: u32, exc_return: u32) -> ProcModel {
    let s0 = bus_read_state(m, ptr as int, 4);
    let m0 = ProcModel { regs: reg_write(s0.regs, 0, bus_read_val(m, ptr as int, 4) as u32, s0.mode), ..s0 };
    let s1 = bus_read_state(m0, ptr.wrapping_add(4) as int, 4);
    let m1 = ProcModel { regs: reg_write(s1.regs, 1, bus_read_val(m0, ptr.wrapping_add(4) as int, 4) as u32, s1.mode), ..s1 };
    let s2 = bus_read_state(m1, ptr.wrapping_add(8) as int, 4);
    let m2 = ProcModel { regs: reg_write(s2.regs, 2, bus_read_val(m1, ptr.wrapping_add(8) as int, 4) as u32, s2.mode), ..s2 };
    let s3 = bus_read_state(m2, ptr.wrapping_add(12) as int, 4);
    let m3 = ProcModel { regs: reg_write(s3.regs, 3, bus_read_val(m2, ptr.wrapping_add(12) as int, 4) as u32, s3.mode), ..s3 };
    let s4 = bus_read_state(m3, ptr.wrapping_add(16) as int, 4);
    let m4 = ProcModel { regs: reg_write(s4.regs, 12, bus_read_val(m3, ptr.wrapping_add(16) as int, 4) as u32, s4.mode), ..s4 };
    let s5 = bus_read_state(m4, ptr.wrapping_add(20) as int, 4);
    let m5 = ProcModel { regs: reg_write(s5.regs, 14, bus_read_val(m4, ptr.wrapping_add(20) as int, 4) as u32, s5.mode), ..s5 };
    let s6 = bus_read_state(m5, ptr.wrapping_add(24) as int, 4);
    let m6 = ProcModel { regs: reg_write(s6.regs, 15, bus_read_val(m5, ptr.wrapping_add(24) as int, 4) as u32, s6.mode), ..s6 };
    let s7 = bus_read_state(m6, ptr.wrapping_add(0x1c) as int, 4);
    let psr = bus_read_val(m6, ptr.wrapping_add(0x1c) as int, 4) as u32;
    let m7 = ProcModel { regs: RegsModel { psr: psr, ..s7.regs }, ..s7 };
    let nib = exc_return & 0xF;
    let carry = if bit_is_set(m7.regs.psr, 9) {
        4u32
    } else {
        0u32
    };
    if nib == 0x1 || nib == 0x9 {
        ProcModel {
            regs: RegsModel { msp: m7.regs.msp.wrapping_add(0x20) | carry, ..m7.regs },
            ..m7
        }
    } else if nib == 0xD {
        ProcModel {
            regs: RegsModel { psp: m7.regs.psp.wrapping_add(0x20) | carry, ..m7.regs },
            ..m7
        }
    } else {
        m7
    }
}

/// The state after entering handler `e`: Handler mode on the main
/// stack, PSR bits 0..9 set to the exception number, the PC loaded from
/// the vector table, and PSR bit 24 set exactly when the handler
/// address carries its Thumb bit.
pub open spec fn exception_entry_model(m: ProcModel, e: Exception) -> ProcModel {
    let no = exc_number(e) as usize as u32;
    let m1 = ProcModel { mode: Mode::Handle, ..m };
    let m2 = ProcModel { regs: RegsModel { ctrl_stack: false, ..m1.regs }, ..m1 };
    let m3 = ProcModel {
        regs: RegsModel { psr: (m2.regs.psr & !0x1FFu32) | (no & 0x1FF), ..m2.regs },
        ..m2
    };
    let a = vtor_base_addr(m3.regs.vtor).wrapping_add(no.wrapping_mul(4));
    let handler = bus_read_val(m3, a as int, 4) as u32;
    let m4 = bus_read_state(m3, a as int, 4);
    let m5 = ProcModel { regs: reg_write(m4.regs, 15, handler, m4.mode), ..m4 };
    if handler & 1 != 0 {
        ProcModel { regs: RegsModel { psr: m5.regs.psr | (1u32 << 24), ..m5.regs }, ..m5 }
    } else {
        ProcModel { regs: RegsModel { psr: m5.regs.psr & !(1u32 << 24), ..m5.regs }, ..m5 }
    }
}

/// The state after acting on an EXC_RETURN value: nibble 0x1 returns
/// to Handler mode and 0x9 to Thread mode, both popping through MSP;
/// 0xD returns to Thread mode popping through PSP; anything else
/// raises a UsageFault.
pub open spec fn exception_return_model(m: ProcModel, exc_return: u32) -> ProcModel {
    let nib = exc_return & 0xF;
    if nib == 0x1 || nib == 0x9 {
        let m1 = ProcModel {
            mode: if nib == 0x1 {
                Mode::Handle
            } else {
                Mode::Thread
            },
            ..m
        };
        let m2 = ProcModel { regs: RegsModel { ctrl_stack: false, ..m1.regs }, ..m1 };
        pop_stack_model(m2, m2.regs.msp, exc_return)
    } else if nib == 0xD {
        let m1 = ProcModel { mode: Mode::Thread, ..m };
        let m2 = ProcModel { regs: RegsModel { ctrl_stack: true, ..m1.regs }, ..m1 };
        pop_stack_model(m2, m2.regs.psp, exc_return)
    } else {
        throw_model(m, Exception::UsageFault)
    }
}

impl Processor {
    /// Open an exception stack frame: record the alignment bit, drop
    /// SP by 0x20 forced doubleword-aligned, and hand back the frame.
    pub fn frame(&mut self) -> (r: Frame)
        requires
            old(self).wf(),
        ensures
            final(self).wf(),
            final(self)@ == frame_model(old(self)@),
            r.align == (reg_stored(old(self)@.regs, 13, old(self)@.mode) & 4 != 0),
            r.ptr == reg_stored(final(self)@.regs, 13, final(self)@.mode),
    {
        proof {
            assert((1u32 << 2) == 4u32 && ((1u32 << 2) ^ 0xFFFF_FFFFu32) == 0xFFFFFFFBu32) by (
            bit_vector);
        }
        let mode = self.mode;
        let align = (self.registers.get(13, mode) & (1u32 << 2)) != 0;
        self.registers.set(
            13,
            (|sp: u32| -> (r: u32)
                ensures
                    r == sp.wrapping_sub(0x20) & 0xFFFFFFFBu32,
                { sp.wrapping_sub(0x20) & ((1u32 << 2) ^ 0xFFFF_FFFF) }),
            mode,
        );
        Frame { align, ptr: self.registers.get(13, mode) }
    }

    /// Push the 8-word exception frame and load LR with the matching
    /// EXC_RETURN value.
    #[verifier::rlimit(50)]
    pub fn push_stack(&mut self)
        requires
            old(self).wf(),
        ensures
            final(self).wf(),
            final(self)@ == push_stack_model(old(self)@),
    {
        let ghost s = old(self)@;
        let frame = self.frame();
        let mode = self.mode;
        let ghost g0 = frame_model(s);
        let ghost p = frame.ptr;
        let v0 = self.registers.get(0, mode);
        self.write::<u32>(frame.ptr as usize, v0);
        let ghost g1 = bus_write_state(g0, p as int, 4, reg_read(g0.regs, 0, g0.mode) as nat);
        proof {
            assert(self@ == g1);
        }
        let v1 = self.registers.get(1, mode);
        self.write::<u32>(frame.ptr.wrapping_add(4) as usize, v1);
        let ghost g2 = bus_write_state(
            g1,
            p.wrapping_add(4) as int,
            4,
            reg_read(g1.regs, 1, g1.mode) as nat,
        );
        proof {
            assert(self@ == g2);
        }
        let v2 = self.registers.get(2, mode);
        self.write::<u32>(frame.ptr.wrapping_add(8) as usize, v2);
        let ghost g3 = bus_write_state(
            g2,
            p.wrapping_add(8) as int,
            4,
            reg_read(g2.regs, 2, g2.mode) as nat,
        );
        proof {
            assert(self@ == g3);
        }
        let v3 = self.registers.get(3, mode);
        self.write::<u32>(frame.ptr.wrapping_add(12) as usize, v3);
        let ghost g4 = bus_write_state(
            g3,
            p.wrapping_add(12) as int,
            4,
            reg_read(g3.regs, 3, g3.mode) as nat,
        );
        proof {
            assert(self@ == g4);
        }
        let v12 = self.registers.get(12, mode);
        self.write::<u32>(frame.ptr.wrapping_add(16) as usize, v12);
        let ghost g5 = bus_write_state(
            g4,
            p.wrapping_add(16) as int,
            4,
            reg_read(g4.regs, 12, g4.mode) as nat,
        );
        proof {
            assert(self@ == g5);
        }
        let v14 = self.registers.get(14, mode);
        self.write::<u32>(frame.ptr.wrapping_add(20) as usize, v14);
        let ghost g6 = bus_write_state(
            g5,
            p.wrapping_add(20) as int,
            4,
            reg_read(g5.regs, 14, g5.mode) as nat,
        );
        proof {
            assert(self@ == g6);
        }
        let v15 = self.registers.get(15, mode);
        self.write::<u32>(frame.ptr.wrapping_add(24) as usize, v15);
        let ghost g7 = bus_write_state(
            g6,
            p.wrapping_add(24) as int,
            4,
            reg_read(g6.regs, 15, g6.mode) as nat,
        );
        proof {
            assert(self@ == g7);
        }
        let psrv = (self.registers.psr.value & !(1u32 << 9)) | ((if frame.align {
            1u32
        } else {
            0u32
        }) << 9);
        self.write::<u32>(frame.ptr.wrapping_add(0x1c) as usize, psrv);
        if matches!(self.mode, Mode::Handle) {
            self.registers.set(
                14,
                (|_lr: u32| -> (r: u32)
                    ensures
                        r == 0xfffffff1u32,
                    { 0xfffffff1 }),
                mode,
            );
        } else if !self.registers.control.stack {
            self.registers.set(
                14,
                (|_lr: u32| -> (r: u32)
                    ensures
                        r == 0xfffffff9u32,
                    { 0xfffffff9 }),
                mode,
            );
        } else {
            self.registers.set(
                14,
                (|_lr: u32| -> (r: u32)
                    ensures
                        r == 0xfffffffdu32,
                    { 0xfffffffd }),
                mode,
            );
        }
        proof {
            assert(self@ =~= push_stack_model(old(self)@));
        }
    }

    /// Pop an exception frame at `frame.ptr` and restore the stack
    /// pointer the EXC_RETURN nibble names.
    pub fn pop_stack(&mut self, frame: Frame, exc_return: u32)
        requires
            old(self).wf(),
        ensures
            final(self).wf(),
            final(self)@ == pop_stack_model(old(self)@, frame.ptr, exc_return),
    {
        let mode = self.mode;
        let w0 = self.read::<u32>(frame.ptr as usize);
        self.set_slot(0, w0, mode);
        let w1 = self.read::<u32>(frame.ptr.wrapping_add(4) as usize);
        self.set_slot(1, w1, mode);
        let w2 = self.read::<u32>(frame.ptr.wrapping_add(8) as usize);
        self.set_slot(2, w2, mode);
        let w3 = self.read::<u32>(frame.ptr.wrapping_add(12) as usize);
        self.set_slot(3, w3, mode);
        let w12 = self.read::<u32>(frame.ptr.wrapping_add(16) as usize);
        self.set_slot(12, w12, mode);
        let w14 = self.read::<u32>(frame.ptr.wrapping_add(20) as usize);
        self.set_slot(14, w14, mode);
        let w15 = self.read::<u32>(frame.ptr.wrapping_add(24) as usize);
        self.set_slot(15, w15, mode);
        let psr = self.read::<u32>(frame.ptr.wrapping_add(0x1c) as usize);
        self.registers.psr.value = psr;
        proof {
            assert((1u32 << 9) == 0x200u32) by (bit_vector);
        }
        let carry = if self.registers.psr.get(9) {
            4u32
        } else {
            0u32
        };
        let nib = exc_return & 0xF;
        if nib == 0x1 || nib == 0x9 {
            self.registers.sp.msp = self.registers.sp.msp.wrapping_add(0x20) | carry;
        } else if nib == 0xD {
            self.registers.sp.psp = self.registers.sp.psp.wrapping_add(0x20) | carry;
        }
        proof {
            assert(self@ =~= pop_stack_model(old(self)@, frame.ptr, exc_return));
        }
    }

    /// Write `value` into register `slot` as the update functions do.
    pub(crate) fn set_slot(&mut self, slot: u8, value: u32, mode: Mode)
        requires
            old(self).wf(),
            slot < 16,
            mode == old(self).mode,
        ensures
            final(self).wf(),
            final(self)@ == (ProcModel {
                regs: reg_write(old(self)@.regs, slot as int, value, mode),
                ..old(self)@
            }),
    {
        self.registers.set(
            slot,
            (|_x: u32| -> (r: u32)
                ensures
                    r == value,
                { value }),
            mode,
        );
        proof {
            assert(self@ =~= (ProcModel {
                regs: reg_write(old(self)@.regs, slot as int, value, mode),
                ..old(self)@
            }));
        }
    }

    /// Switch to Handler mode on the main stack, record the exception
    /// number in the PSR, and jump to the handler named by the vector
    /// table.
    pub fn exception_entry(&mut self, exception: Exception)
        requires
            old(self).wf(),
        ensures
            final(self).wf(),
            final(self)@ == exception_entry_model(old(self)@, exception),
    {
        self.mode = Mode::Handle;
        self.registers.control.stack = false;
        let no = exception.number() as u32;
        self.registers.psr.value = (self.registers.psr.value & !0x1FF) | (no & 0x1FF);
        let base = self.registers.vtor.addr();
        let handler = self.read::<u32>(base.wrapping_add(no.wrapping_mul(4)) as usize);
        self.set_slot(15, handler, Mode::Handle);
        if handler & 1 != 0 {
            self.registers.psr.set(24);
        } else {
            self.registers.psr.unset(24);
        }
        proof {
            assert(self@ =~= exception_entry_model(old(self)@, exception));
        }
    }

    /// Act on an EXC_RETURN value: restore the recorded mode and pop
    /// the frame from the stack it names, or raise a UsageFault on a
    /// malformed value.
    pub fn exception_return(&mut self, exc_return: u32)
        requires
            old(self).wf(),
        ensures
            final(self).wf(),
            final(self)@ == exception_return_model(old(self)@, exc_return),
    {
        let nib = exc_return & 0xF;
        if nib == 0x1 || nib == 0x9 {
            self.mode = if nib == 0x1 {
                Mode::Handle
            } else {
                Mode::Thread
            };
            self.registers.control.stack = false;
            let ptr = self.registers.sp.msp;
            self.pop_stack(Frame { align: false, ptr }, exc_return);
        } else if nib == 0xD {
            self.mode = Mode::Thread;
            self.registers.control.stack = true;
            let ptr = self.registers.sp.psp;
            self.pop_stack(Frame { align: false, ptr }, exc_return);
        } else {
            self.nvic.throw(Exception::UsageFault);
            proof {
                assert(self@ =~= exception_return_model(old(self)@, exc_return));
            }
        }
    }
}

} // verus!
