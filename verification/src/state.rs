//! The mathematical model of the machine: its state, the transition each
//! opcode performs on it, and the laws those transitions obey.
//!
//! Every executable opcode method on [`crate::vm::VM`] is proved to realise
//! exactly the `step_*` function given here for its opcode.

use vstd::prelude::*;
use crate::arch::{
    add_wrapped, and_val, dest_index, dest_writable, mod_val, mul_wrapped, not_val,
    operand_readable, or_val,
};
use crate::errors::VMErrors;
use crate::isa::OpCode;

verus! {

/// The observable state of a machine: eight registers, the 15-bit address
/// space of words, the stack, the program counter, the run flag, the queue
/// of pending input bytes, and the words emitted so far.
pub ghost struct State {
    /// Register contents; always eight architectural values.
    pub reg: Seq<u16>,
    /// Memory contents; one word per address of the 15-bit space.
    pub mem: Seq<u16>,
    /// The stack, bottom first.
    pub stack: Seq<u16>,
    /// Address of the next word to decode.
    pub pc: nat,
    /// True until a halt (or a return on an empty stack) stops execution.
    pub running: bool,
    /// Bytes waiting to be consumed by the input opcode, oldest first.
    pub inputs: Seq<u8>,
    /// Words emitted by the output opcode, oldest first.
    pub output: Seq<u16>,
}

impl State {
    /// Well-formedness: the register file has its eight slots and every
    /// register, stack entry and emitted word is an architectural value;
    /// memory spans the full address space; the program counter never
    /// strays past the end of it.
    pub open spec fn wf(self) -> bool {
        &&& self.reg.len() == 8
        &&& forall|i: int| 0 <= i < 8 ==> self.reg[i] < 32768
        &&& self.mem.len() == 32768
        &&& self.pc <= 32768
        &&& forall|i: int| 0 <= i < self.stack.len() ==> self.stack[i] < 32768
        &&& forall|i: int| 0 <= i < self.output.len() ==> self.output[i] < 32768
    }

    /// The operand-resolution rule: a word below the modulus is the literal
    /// value itself; a word at or above it names a register, whose content
    /// is read.
    pub open spec fn read_operand(self, w: u16) -> u16 {
        if w < 32768 {
            w
        } else {
            self.reg[w - 32768]
        }
    }
}

/// The by-value record handed to a tracer after one instruction: the opcode,
/// the address it was fetched from, its operand words, and the registers,
/// stack size and stack contents after it executed.
pub ghost struct TraceRec {
    /// The executed opcode.
    pub code: OpCode,
    /// The address the opcode word was fetched from.
    pub pc: nat,
    /// The operand words, in order.
    pub args: Seq<u16>,
    /// Register contents after execution.
    pub reg: Seq<u16>,
    /// Stack depth after execution.
    pub stack_size: nat,
    /// Stack contents after execution.
    pub stack: Seq<u16>,
}

/// The outcome of one instruction: the state it leaves behind, and either
/// the trace record of the executed instruction or the fault it raised.
pub ghost struct StepOut {
    /// The machine state after the step, also when the step faulted.
    pub state: State,
    /// The trace record, or the fault.
    pub trace: Result<TraceRec, VMErrors>,
}

/// The opcode word and `n` operand words all lie inside the address space.
pub open spec fn args_fit(m: State, n: nat) -> bool {
    m.pc + 1 + n <= 32768
}

/// The `n` operand words following the opcode word.
pub open spec fn spec_args(m: State, n: nat) -> Seq<u16> {
    m.mem.subrange(m.pc as int + 1, m.pc as int + 1 + n as int)
}

/// The state with the program counter moved past the opcode word and its
/// `n` operands.
pub open spec fn advanced(m: State, n: nat) -> State {
    State { pc: m.pc + 1 + n, ..m }
}

/// The state with register `i` set to `v`.
pub open spec fn write_reg(m: State, i: int, v: u16) -> State {
    State { reg: m.reg.update(i, v), ..m }
}

/// A step that faulted, leaving the machine in state `m`.
pub open spec fn step_fault(m: State, e: VMErrors) -> StepOut {
    StepOut { state: m, trace: Err(e) }
}

/// The trace record of an instruction fetched at `fetch_pc` with operand
/// words `args`, describing the post-state `m`.
pub open spec fn trace_of(op: OpCode, fetch_pc: nat, args: Seq<u16>, m: State) -> TraceRec {
    TraceRec {
        code: op,
        pc: fetch_pc,
        args: args,
        reg: m.reg,
        stack_size: m.stack.len(),
        stack: m.stack,
    }
}

/// A step that completed, leaving state `m2`.
pub open spec fn step_done(m2: State, op: OpCode, fetch_pc: nat, args: Seq<u16>) -> StepOut {
    StepOut { state: m2, trace: Ok(trace_of(op, fetch_pc, args, m2)) }
}

/// Halt: clear the run flag and reset the program counter.
pub open spec fn step_halt(m: State) -> StepOut {
    let m2 = State { pc: 0, running: false, ..m };
    step_done(m2, OpCode::Halt, m.pc, Seq::empty())
}

/// Set: write the value of the second operand to the register the first
/// operand selects.
pub open spec fn step_set(m: State) -> StepOut {
    if !args_fit(m, 2) {
        step_fault(m, VMErrors::OutOfBounds)
    } else {
        let args = spec_args(m, 2);
        let m1 = advanced(m, 2);
        let a = args[0];
        let b = args[1];
        if !operand_readable(b) {
            step_fault(m1, VMErrors::InvalidOperand(b))
        } else if !dest_writable(a) {
            step_fault(m1, VMErrors::InvalidOperand(a))
        } else {
            let m2 = write_reg(m1, dest_index(a), m1.read_operand(b));
            step_done(m2, OpCode::SetReg, m.pc, args)
        }
    }
}

/// Push: append the value of the operand to the stack.
pub open spec fn step_push(m: State) -> StepOut {
    if !args_fit(m, 1) {
        step_fault(m, VMErrors::OutOfBounds)
    } else {
        let args = spec_args(m, 1);
        let m1 = advanced(m, 1);
        let a = args[0];
        if !operand_readable(a) {
            step_fault(m1, VMErrors::InvalidOperand(a))
        } else {
            let m2 = State { stack: m1.stack.push(m1.read_operand(a)), ..m1 };
            step_done(m2, OpCode::Push, m.pc, args)
        }
    }
}

/// Pop: remove the top of the stack into the register the operand selects;
/// fault with `EmptyStack` when there is nothing to remove.
pub open spec fn step_pop(m: State) -> StepOut {
    if !args_fit(m, 1) {
        step_fault(m, VMErrors::OutOfBounds)
    } else {
        let args = spec_args(m, 1);
        let m1 = advanced(m, 1);
        let a = args[0];
        if m1.stack.len() == 0 {
            step_fault(m1, VMErrors::EmptyStack)
        } else {
            let v = m1.stack.last();
            let m2 = State { stack: m1.stack.drop_last(), ..m1 };
            if !dest_writable(a) {
                step_fault(m2, VMErrors::InvalidOperand(a))
            } else {
                let m3 = write_reg(m2, dest_index(a), v);
                step_done(m3, OpCode::Pop, m.pc, args)
            }
        }
    }
}

/// An opcode that reads two operands and writes a value derived from them
/// to a destination register.
pub open spec fn is_alu(op: OpCode) -> bool {
    ||| op == OpCode::Eq
    ||| op == OpCode::Gt
    ||| op == OpCode::Add
    ||| op == OpCode::Mult
    ||| op == OpCode::Mod
    ||| op == OpCode::And
    ||| op == OpCode::Or
}

/// The value an ALU opcode computes from its two resolved operands.
pub open spec fn alu_value(op: OpCode, b: u16, c: u16) -> u16 {
    match op {
        OpCode::Eq => if b == c { 1u16 } else { 0u16 },
        OpCode::Gt => if b > c { 1u16 } else { 0u16 },
        OpCode::Add => add_wrapped(b, c),
        OpCode::Mult => mul_wrapped(b, c),
        OpCode::Mod => mod_val(b, c),
        OpCode::And => and_val(b, c),
        OpCode::Or => or_val(b, c),
        _ => 0u16,
    }
}

/// The shared transition of the seven ALU opcodes: resolve the second and
/// third operands, compute, and write to the register the first operand
/// selects. A `mod` with a zero divisor faults instead of computing.
pub open spec fn step_alu(m: State, op: OpCode) -> StepOut {
    if !args_fit(m, 3) {
        step_fault(m, VMErrors::OutOfBounds)
    } else {
        let args = spec_args(m, 3);
        let m1 = advanced(m, 3);
        let a = args[0];
        let b = args[1];
        let c = args[2];
        if !operand_readable(b) {
            step_fault(m1, VMErrors::InvalidOperand(b))
        } else if !operand_readable(c) {
            step_fault(m1, VMErrors::InvalidOperand(c))
        } else if op == OpCode::Mod && m1.read_operand(c) == 0 {
            step_fault(m1, VMErrors::DivisionByZero)
        } else if !dest_writable(a) {
            step_fault(m1, VMErrors::InvalidOperand(a))
        } else {
            let v = alu_value(op, m1.read_operand(b), m1.read_operand(c));
            let m2 = write_reg(m1, dest_index(a), v);
            step_done(m2, op, m.pc, args)
        }
    }
}

/// Jmp: set the program counter to the value of the operand.
pub open spec fn step_jmp(m: State) -> StepOut {
    if !args_fit(m, 1) {
        step_fault(m, VMErrors::OutOfBounds)
    } else {
        let args = spec_args(m, 1);
        let m1 = advanced(m, 1);
        let a = args[0];
        if !operand_readable(a) {
            step_fault(m1, VMErrors::InvalidOperand(a))
        } else {
            let m2 = State { pc: m1.read_operand(a) as nat, ..m1 };
            step_done(m2, OpCode::Jmp, m.pc, args)
        }
    }
}

/// Jt: jump to the second operand when the first resolves to a nonzero
/// value; the second operand is read (and checked) only then.
pub open spec fn step_jt(m: State) -> StepOut {
    if !args_fit(m, 2) {
        step_fault(m, VMErrors::OutOfBounds)
    } else {
        let args = spec_args(m, 2);
        let m1 = advanced(m, 2);
        let a = args[0];
        let b = args[1];
        if !operand_readable(a) {
            step_fault(m1, VMErrors::InvalidOperand(a))
        } else if m1.read_operand(a) == 0 {
            step_done(m1, OpCode::Jt, m.pc, args)
        } else if !operand_readable(b) {
            step_fault(m1, VMErrors::InvalidOperand(b))
        } else {
            let m2 = State { pc: m1.read_operand(b) as nat, ..m1 };
            step_done(m2, OpCode::Jt, m.pc, args)
        }
    }
}

/// Jf: jump to the second operand when the first resolves to zero; the
/// second operand is read (and checked) only then.
pub open spec fn step_jf(m: State) -> StepOut {
    if !args_fit(m, 2) {
        step_fault(m, VMErrors::OutOfBounds)
    } else {
        let args = spec_args(m, 2);
        let m1 = advanced(m, 2);
        let a = args[0];
        let b = args[1];
        if !operand_readable(a) {
            step_fault(m1, VMErrors::InvalidOperand(a))
        } else if m1.read_operand(a) != 0 {
            step_done(m1, OpCode::Jf, m.pc, args)
        } else if !operand_readable(b) {
            step_fault(m1, VMErrors::InvalidOperand(b))
        } else {
            let m2 = State { pc: m1.read_operand(b) as nat, ..m1 };
            step_done(m2, OpCode::Jf, m.pc, args)
        }
    }
}

/// Not: write the 15-bit complement of the second operand to the register
/// the first operand selects.
pub open spec fn step_not(m: State) -> StepOut {
    if !args_fit(m, 2) {
        step_fault(m, VMErrors::OutOfBounds)
    } else {
        let args = spec_args(m, 2);
        let m1 = advanced(m, 2);
        let a = args[0];
        let b = args[1];
        if !operand_readable(b) {
            step_fault(m1, VMErrors::InvalidOperand(b))
        } else if !dest_writable(a) {
            step_fault(m1, VMErrors::InvalidOperand(a))
        } else {
            let m2 = write_reg(m1, dest_index(a), not_val(m1.read_operand(b)));
            step_done(m2, OpCode::Not, m.pc, args)
        }
    }
}

/// Rmem: read the memory word at the address the second operand resolves
/// to, into the register the first operand selects. A read word outside the
/// architectural range cannot be stored in a register (registers always
/// hold architectural values) and faults; such words are never read as data
/// by valid programs.
pub open spec fn step_rmem(m: State) -> StepOut {
    if !args_fit(m, 2) {
        step_fault(m, VMErrors::OutOfBounds)
    } else {
        let args = spec_args(m, 2);
        let m1 = advanced(m, 2);
        let a = args[0];
        let b = args[1];
        if !operand_readable(b) {
            step_fault(m1, VMErrors::InvalidOperand(b))
        } else if !dest_writable(a) {
            step_fault(m1, VMErrors::InvalidOperand(a))
        } else {
            let v = m1.mem[m1.read_operand(b) as int];
            if v >= 32768 {
                step_fault(m1, VMErrors::InvalidOperand(v))
            } else {
                let m2 = write_reg(m1, dest_index(a), v);
                step_done(m2, OpCode::Rmem, m.pc, args)
            }
        }
    }
}

/// Wmem: write the value of the second operand to the memory address the
/// first operand resolves to.
pub open spec fn step_wmem(m: State) -> StepOut {
    if !args_fit(m, 2) {
        step_fault(m, VMErrors::OutOfBounds)
    } else {
        let args = spec_args(m, 2);
        let m1 = advanced(m, 2);
        let a = args[0];
        let b = args[1];
        if !operand_readable(a) {
            step_fault(m1, VMErrors::InvalidOperand(a))
        } else if !operand_readable(b) {
            step_fault(m1, VMErrors::InvalidOperand(b))
        } else {
            let m2 = State {
                mem: m1.mem.update(m1.read_operand(a) as int, m1.read_operand(b)),
                ..m1
            };
            step_done(m2, OpCode::Wmem, m.pc, args)
        }
    }
}

/// Call: push the address of the instruction following the call, then jump
/// to the operand. A call whose return address would lie outside the
/// address space faults before touching the state.
pub open spec fn step_call(m: State) -> StepOut {
    if !(m.pc + 2 < 32768) {
        step_fault(m, VMErrors::OutOfBounds)
    } else {
        let args = spec_args(m, 1);
        let m1 = advanced(m, 1);
        let a = args[0];
        if !operand_readable(a) {
            step_fault(m1, VMErrors::InvalidOperand(a))
        } else {
            let m2 = State {
                stack: m1.stack.push(m1.pc as u16),
                pc: m1.read_operand(a) as nat,
                ..m1
            };
            step_done(m2, OpCode::Call, m.pc, args)
        }
    }
}

/// Ret: pop the return address and jump to it. On an empty stack the
/// machine terminates cleanly: the run flag clears and the program counter
/// is left in place.
pub open spec fn step_ret(m: State) -> StepOut {
    if m.stack.len() == 0 {
        let m2 = State { running: false, ..m };
        step_done(m2, OpCode::Ret, m.pc, Seq::empty())
    } else {
        let m2 = State {
            stack: m.stack.drop_last(),
            pc: m.stack.last() as nat,
            ..m
        };
        step_done(m2, OpCode::Ret, m.pc, Seq::empty())
    }
}

/// Out: append the value of the operand to the emitted output.
pub open spec fn step_out(m: State) -> StepOut {
    if !args_fit(m, 1) {
        step_fault(m, VMErrors::OutOfBounds)
    } else {
        let args = spec_args(m, 1);
        let m1 = advanced(m, 1);
        let a = args[0];
        if !operand_readable(a) {
            step_fault(m1, VMErrors::InvalidOperand(a))
        } else {
            let m2 = State { output: m1.output.push(m1.read_operand(a)), ..m1 };
            step_done(m2, OpCode::Out, m.pc, args)
        }
    }
}

/// In: consume the oldest pending input byte into the register the operand
/// selects; fault with `InputExhausted` when no byte is pending.
pub open spec fn step_in(m: State) -> StepOut {
    if !args_fit(m, 1) {
        step_fault(m, VMErrors::OutOfBounds)
    } else {
        let args = spec_args(m, 1);
        let m1 = advanced(m, 1);
        let a = args[0];
        if m1.inputs.len() == 0 {
            step_fault(m1, VMErrors::InputExhausted)
        } else {
            let byte = m1.inputs[0];
            let m2 = State { inputs: m1.inputs.skip(1), ..m1 };
            if !dest_writable(a) {
                step_fault(m2, VMErrors::InvalidOperand(a))
            } else {
                let m3 = write_reg(m2, dest_index(a), byte as u16);
                step_done(m3, OpCode::In, m.pc, args)
            }
        }
    }
}

/// Noop: advance past the opcode word.
pub open spec fn step_noop(m: State) -> StepOut {
    if !args_fit(m, 0) {
        step_fault(m, VMErrors::OutOfBounds)
    } else {
        step_done(advanced(m, 0), OpCode::Noop, m.pc, Seq::empty())
    }
}

/// The transition of any opcode.
pub open spec fn step_op(m: State, op: OpCode) -> StepOut {
    match op {
        OpCode::Halt => step_halt(m),
        OpCode::SetReg => step_set(m),
        OpCode::Push => step_push(m),
        OpCode::Pop => step_pop(m),
        OpCode::Jmp => step_jmp(m),
        OpCode::Jt => step_jt(m),
        OpCode::Jf => step_jf(m),
        OpCode::Not => step_not(m),
        OpCode::Rmem => step_rmem(m),
        OpCode::Wmem => step_wmem(m),
        OpCode::Call => step_call(m),
        OpCode::Ret => step_ret(m),
        OpCode::Out => step_out(m),
        OpCode::In => step_in(m),
        OpCode::Noop => step_noop(m),
        _ => step_alu(m, op),
    }
}

/// How an executable opcode result corresponds to a specified trace
/// outcome: a returned trace record views as the specified one, and a
/// returned error equals the specified fault.
pub open spec fn trace_matches(
    r: Result<crate::vm::OpCall, VMErrors>,
    t: Result<TraceRec, VMErrors>,
) -> bool {
    match r {
        Ok(call) => t == Ok::<TraceRec, VMErrors>(call@),
        Err(e) => t == Err::<TraceRec, VMErrors>(e),
    }
}

/// The contract every executable opcode carries: the machine moved to the
/// state the step function gives, and the returned trace or fault is the
/// one it gives.
pub open spec fn step_obeys(o: StepOut, m2: State, r: Result<crate::vm::OpCall, VMErrors>) -> bool {
    m2 == o.state && trace_matches(r, o.trace)
}

/// The state after `n` rounds of the fetch-decode-execute loop. A round
/// leaves the state in place when the machine has stopped, the program
/// counter has left the address space, the fetched word is no opcode, or
/// an input opcode finds the buffer empty — the run loop returns at those
/// points — and otherwise performs the fetched opcode's transition,
/// faulted or not.
pub open spec fn run_n(m: State, n: nat) -> State
    decreases n,
{
    if n == 0 {
        m
    } else {
        let prev = run_n(m, (n - 1) as nat);
        if !prev.running || prev.pc >= 32768 {
            prev
        } else {
            match crate::isa::opcode_of(prev.mem[prev.pc as int]) {
                None => prev,
                Some(op) => if op == OpCode::In && prev.inputs.len() == 0 {
                    prev
                } else {
                    step_op(prev, op).state
                },
            }
        }
    }
}

/// A faulting exit of the run loop after `n` completed rounds: starting
/// from `m0`, the machine was still running at round `n` and either the
/// program counter had left the address space (`OutOfBounds`, state kept),
/// the fetched word decoded to no opcode (`UnknownOpcode` carrying that
/// word, state kept), or the fetched opcode's own transition faulted with
/// `e`, leaving its faulted state.
pub open spec fn run_fault(m0: State, n: nat, e: VMErrors, mf: State) -> bool {
    let prev = run_n(m0, n);
    prev.running && {
        ||| (prev.pc >= 32768 && e == VMErrors::OutOfBounds && mf == prev)
        ||| (prev.pc < 32768 && crate::isa::opcode_of(prev.mem[prev.pc as int]) is None
            && e == VMErrors::UnknownOpcode(prev.mem[prev.pc as int]) && mf == prev)
        ||| (prev.pc < 32768 && match crate::isa::opcode_of(prev.mem[prev.pc as int]) {
            Some(op) => step_op(prev, op).trace == Err::<TraceRec, VMErrors>(e)
                && mf == step_op(prev, op).state,
            None => false,
        })
    }
}

/// The `i`-th instruction of a run from `m0` executed and produced the
/// trace record `t`: at round `i` the machine was running, the fetched
/// word decoded, and that opcode's transition completed with `t`.
pub open spec fn traced_step(m0: State, i: int, t: TraceRec) -> bool {
    let prev = run_n(m0, i as nat);
    prev.running && prev.pc < 32768 && match crate::isa::opcode_of(prev.mem[prev.pc as int]) {
        Some(op) => step_op(prev, op).trace == Ok::<TraceRec, VMErrors>(t),
        None => false,
    }
}

/// Resolving a register reference reads that register: for operand
/// `32768 + k` with `k < 8`, the resolved value is the content of
/// register `k`.
pub proof fn lemma_operand_resolution(m: State, k: u16)
    requires
        m.wf(),
        k < 8,
    ensures
        m.read_operand((32768 + k) as u16) == m.reg[k as int],
{
}

/// The stack and the values handed back after removing its top `n` entries
/// one at a time, as the pop opcode does: the first removed value is the
/// most recently pushed.
pub open spec fn popped_words(st: Seq<u16>, n: nat) -> (Seq<u16>, Seq<u16>)
    decreases n,
{
    if n == 0 || st.len() == 0 {
        (st, Seq::<u16>::empty())
    } else {
        let rest = popped_words(st.drop_last(), (n - 1) as nat);
        (rest.0, seq![st.last()] + rest.1)
    }
}

/// Pushing a sequence of words and popping them back recovers the
/// sequence: pushing each element of `s` in order leaves the stack
/// `st + s` (exactly what the push transition does, repeated), and
/// popping `s.len()` times restores the stack `st` while returning the
/// pushed words in reverse order.
pub proof fn lemma_push_pop_round_trip(st: Seq<u16>, s: Seq<u16>)
    ensures
        popped_words(st + s, s.len()).0 == st,
        popped_words(st + s, s.len()).1 == s.reverse(),
    decreases s.len(),
{
    if s.len() == 0 {
        assert(st + s =~= st);
        assert(s.reverse() =~= Seq::<u16>::empty());
    } else {
        let s1 = s.drop_last();
        assert((st + s).len() > 0);
        assert((st + s).drop_last() =~= st + s1);
        assert((st + s).last() == s.last());
        lemma_push_pop_round_trip(st, s1);
        assert(seq![s.last()] + s1.reverse() =~= s.reverse());
    }
}

/// A call followed immediately by a return at the target restores the
/// program counter to the instruction after the call, and leaves the stack
/// as it was before the call.
pub proof fn lemma_call_ret_round_trip(m: State)
    requires
        m.pc + 2 < 32768,
        operand_readable(m.mem[m.pc as int + 1]),
        m.mem.len() == 32768,
    ensures
        step_call(m).trace is Ok,
        step_ret(step_call(m).state).trace is Ok,
        step_ret(step_call(m).state).state.pc == m.pc + 2,
        step_ret(step_call(m).state).state.stack == m.stack,
{
    let m1 = step_call(m).state;
    assert(spec_args(m, 1)[0] == m.mem[m.pc as int + 1]);
    assert(m1.stack.len() == m.stack.len() + 1);
    assert(m1.stack.last() == ((m.pc + 2) as u16));
    assert(m1.stack.drop_last() =~= m.stack);
    assert(((m.pc + 2) as u16) as nat == m.pc + 2);
}

} // verus!
