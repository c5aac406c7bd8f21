//! The executable machine: the register file, memory, stack, program
//! counter, input queue and output buffer, together with one method per
//! opcode. Each opcode method is proved to perform exactly the transition
//! its `step_*` specification in [`crate::state`] describes.

use vstd::prelude::*;
use std::collections::VecDeque;
use crate::WORDSIZE;
use crate::arch::MEM_WORDS;
use crate::errors::VMErrors;
use crate::isa::OpCode;
use crate::state::{
    State, TraceRec, advanced, is_alu, spec_args, step_alu, step_call, step_halt, step_in,
    step_jf, step_jmp, step_jt, step_noop, step_not, step_obeys, step_op, step_out, step_pop,
    step_push, step_ret, step_rmem, step_set, step_wmem, trace_of,
};

verus! {

/// The by-value record of one executed instruction, as handed to a tracer:
/// nothing in it aliases the live machine.
pub struct OpCall {
    code: OpCode,
    pc: usize,
    args: Vec<u16>,
    reg: Vec<u16>,
    stack_size: usize,
    stack: Vec<u16>,
}

impl View for OpCall {
    type V = TraceRec;

    closed spec fn view(&self) -> TraceRec {
        TraceRec {
            code: self.code,
            pc: self.pc as nat,
            args: self.args@,
            reg: self.reg@,
            stack_size: self.stack_size as nat,
            stack: self.stack@,
        }
    }
}

impl OpCall {
    /// Create a new [`OpCall`].
    pub fn new(
        code: OpCode,
        pc: usize,
        args: Vec<u16>,
        reg: Vec<u16>,
        stack_size: usize,
        stack: Vec<u16>,
    ) -> (c: OpCall)
        ensures
            c@ == (TraceRec {
                code: code,
                pc: pc as nat,
                args: args@,
                reg: reg@,
                stack_size: stack_size as nat,
                stack: stack@,
            }),
    {
        OpCall { code, pc, args, reg, stack_size, stack }
    }

    /// The executed opcode.
    pub fn code(&self) -> (r: OpCode)
        ensures
            r == self@.code,
    {
        self.code
    }

    /// The address the opcode word was fetched from.
    pub fn fetch_pc(&self) -> (r: usize)
        ensures
            r as nat == self@.pc,
    {
        self.pc
    }

    /// The operand words, in order.
    pub fn args(&self) -> (r: &Vec<u16>)
        ensures
            r@ == self@.args,
    {
        &self.args
    }

    /// Register contents after execution.
    pub fn reg(&self) -> (r: &Vec<u16>)
        ensures
            r@ == self@.reg,
    {
        &self.reg
    }

    /// Stack depth after execution.
    pub fn stack_size(&self) -> (r: usize)
        ensures
            r as nat == self@.stack_size,
    {
        self.stack_size
    }

    /// Stack contents after execution.
    pub fn stack(&self) -> (r: &Vec<u16>)
        ensures
            r@ == self@.stack,
    {
        &self.stack
    }
}

/// A machine: eight registers, the full 15-bit address space of words, an
/// unbounded stack, the program counter, the run flag, the queue of pending
/// input bytes and the buffer of emitted words.
pub struct VM {
    reg: Vec<u16>,
    mem: Vec<u16>,
    stack: Vec<u16>,
    pc: usize,
    running: bool,
    inputs: VecDeque<u8>,
    output: Vec<u16>,
}

impl View for VM {
    type V = State;

    closed spec fn view(&self) -> State {
        State {
            reg: self.reg@,
            mem: self.mem@,
            stack: self.stack@,
            pc: self.pc as nat,
            running: self.running,
            inputs: self.inputs@,
            output: self.output@,
        }
    }
}

impl VM {
    /// The machine's invariant; see [`State::wf`].
    pub open spec fn wf(&self) -> bool {
        self@.wf()
    }

    /// A fresh machine: registers zeroed, memory zero-filled across the
    /// whole address space, stack and input queue empty, program counter
    /// zero, run flag set.
    pub fn new() -> (vm: VM)
        ensures
            vm.wf(),
            vm@ == (State {
                reg: Seq::new(8, |i| 0u16),
                mem: Seq::new(32768, |i| 0u16),
                stack: Seq::<u16>::empty(),
                pc: 0,
                running: true,
                inputs: Seq::<u8>::empty(),
                output: Seq::<u16>::empty(),
            }),
    {
        let vm = VM {
            reg: vec![0u16; 8],
            mem: vec![0u16; MEM_WORDS],
            stack: Vec::new(),
            pc: 0,
            running: true,
            inputs: VecDeque::new(),
            output: Vec::new(),
        };
        proof {
            assert(vm@.reg =~= Seq::new(8, |i| 0u16));
            assert(vm@.mem =~= Seq::new(32768, |i| 0u16));
            assert(vm@.stack =~= Seq::<u16>::empty());
            assert(vm@.inputs =~= Seq::<u8>::empty());
            assert(vm@.output =~= Seq::<u16>::empty());
        }
        vm
    }

    /// Returns the requested number of operand words and advances the
    /// program counter past the opcode word and those operands.
    pub fn get_args(&mut self, num: usize) -> (args: Vec<u16>)
        requires
            old(self).wf(),
            old(self)@.pc + 1 + num <= 32768,
        ensures
            final(self)@ == advanced(old(self)@, num as nat),
            args@ == spec_args(old(self)@, num as nat),
    {
        self.pc = self.pc + 1;
        let mut args: Vec<u16> = Vec::new();
        let mut i: usize = 0;
        while i < num
            invariant
                self@ == (State { pc: old(self)@.pc + 1, ..old(self)@ }),
                self.wf(),
                i <= num,
                self.pc + num <= 32768,
                args@ =~= old(self)@.mem.subrange(
                    old(self)@.pc as int + 1,
                    old(self)@.pc as int + 1 + i as int,
                ),
            decreases num - i,
        {
            args.push(self.mem[self.pc + i]);
            i = i + 1;
        }
        self.pc = self.pc + num;
        proof {
            assert(args@ =~= spec_args(old(self)@, num as nat));
            assert(final(self)@ == advanced(old(self)@, num as nat));
        }
        args
    }

    /// The operand-resolution rule: an argument below the modulus is the
    /// literal value itself; an argument at or above it names a register,
    /// whose content is returned. For operand `32768 + k` with `k < 8` the
    /// result is exactly the content of register `k`.
    pub fn get_register_value(&self, test_arg: u16) -> (r: u16)
        requires
            self.wf(),
            crate::arch::operand_readable(test_arg),
        ensures
            r == self@.read_operand(test_arg),
            r < 32768,
    {
        if test_arg >= WORDSIZE {
            let addr = (test_arg % WORDSIZE) as usize;
            assert(addr < 8) by {
                assert(32768 <= test_arg < 32776 ==> test_arg % 32768 < 8) by (bit_vector);
            };
            self.reg[addr]
        } else {
            test_arg
        }
    }

    /// Convert an executed opcode into its by-value trace record.
    fn new_opcall(&self, op: OpCode, args: Vec<u16>, fetch_pc: usize) -> (c: OpCall)
        ensures
            c@ == trace_of(op, fetch_pc as nat, args@, self@),
    {
        let reg = self.reg.clone();
        let stack = self.stack.clone();
        proof {
            assert(reg@ =~= self.reg@);
            assert(stack@ =~= self.stack@);
        }
        let stack_size = self.stack.len();
        OpCall { code: op, pc: fetch_pc, args, reg, stack_size, stack }
    }
}

// Opcode implementations.
impl VM {
    /// Takes 0 arguments. Stops execution and resets the program counter.
    #[allow(non_snake_case)]
    pub fn Halt(&mut self) -> (r: Result<OpCall, VMErrors>)
        requires
            old(self).wf(),
        ensures
            final(self).wf(),
            step_obeys(step_halt(old(self)@), final(self)@, r),
    {
        let fetch_pc = self.pc;
        self.pc = 0;
        self.running = false;
        let call = self.new_opcall(OpCode::Halt, Vec::new(), fetch_pc);
        proof {
            assert(call@.args =~= Seq::<u16>::empty());
        }
        Ok(call)
    }

    /// Takes 2 arguments. Sets the register the first argument selects to
    /// the value of the second argument.
    #[allow(non_snake_case)]
    pub fn SetReg(&mut self) -> (r: Result<OpCall, VMErrors>)
        requires
            old(self).wf(),
        ensures
            final(self).wf(),
            step_obeys(step_set(old(self)@), final(self)@, r),
    {
        let fetch_pc = self.pc;
        if self.pc + 3 > MEM_WORDS {
            return Err(VMErrors::OutOfBounds);
        }
        let args = self.get_args(2);
        let a = args[0] % WORDSIZE;
        let bw = args[1];
        if bw >= 32776 {
            return Err(VMErrors::InvalidOperand(bw));
        }
        let b = self.get_register_value(bw);
        if a >= 8 {
            return Err(VMErrors::InvalidOperand(args[0]));
        }
        self.reg[a as usize] = b;
        let call = self.new_opcall(OpCode::SetReg, args, fetch_pc);
        Ok(call)
    }

    /// The shared body of the seven opcodes that resolve two operands,
    /// compute a value, and write it to a destination register.
    fn do_alu(&mut self, op: OpCode) -> (r: Result<OpCall, VMErrors>)
        requires
            old(self).wf(),
            is_alu(op),
        ensures
            final(self).wf(),
            step_obeys(step_alu(old(self)@, op), final(self)@, r),
    {
        let fetch_pc = self.pc;
        if self.pc + 4 > MEM_WORDS {
            return Err(VMErrors::OutOfBounds);
        }
        let args = self.get_args(3);
        let a = args[0] % WORDSIZE;
        let bw = args[1];
        let cw = args[2];
        if bw >= 32776 {
            return Err(VMErrors::InvalidOperand(bw));
        }
        if cw >= 32776 {
            return Err(VMErrors::InvalidOperand(cw));
        }
        let b = self.get_register_value(bw);
        let c = self.get_register_value(cw);
        let val: u16 = match op {
            OpCode::Eq => if b == c { 1 } else { 0 },
            OpCode::Gt => if b > c { 1 } else { 0 },
            OpCode::Add => (b + c) % WORDSIZE,
            OpCode::Mult => {
                proof {
                    assert((b as int) * (c as int) < 0x40000000int) by (nonlinear_arith)
                        requires b < 32768 && c < 32768;
                }
                (((b as u32) * (c as u32)) % (WORDSIZE as u32)) as u16
            },
            OpCode::Mod => {
                if c == 0 {
                    return Err(VMErrors::DivisionByZero);
                }
                b % c
            },
            OpCode::And => b & c,
            OpCode::Or => b | c,
            _ => unreached(),
        };
        proof {
            crate::arch::lemma_arith_closure(b, c);
        }
        if a >= 8 {
            return Err(VMErrors::InvalidOperand(args[0]));
        }
        self.reg[a as usize] = val;
        let call = self.new_opcall(op, args, fetch_pc);
        Ok(call)
    }

    /// Takes 3 arguments. Sets the destination register to 1 when the two
    /// operand values are equal, else to 0.
    #[allow(non_snake_case)]
    pub fn Eq(&mut self) -> (r: Result<OpCall, VMErrors>)
        requires
            old(self).wf(),
        ensures
            final(self).wf(),
            step_obeys(step_alu(old(self)@, OpCode::Eq), final(self)@, r),
    {
        self.do_alu(OpCode::Eq)
    }

    /// Takes 3 arguments. Sets the destination register to 1 when the first
    /// operand value is greater than the second, else to 0.
    #[allow(non_snake_case)]
    pub fn Gt(&mut self) -> (r: Result<OpCall, VMErrors>)
        requires
            old(self).wf(),
        ensures
            final(self).wf(),
            step_obeys(step_alu(old(self)@, OpCode::Gt), final(self)@, r),
    {
        self.do_alu(OpCode::Gt)
    }

    /// Takes 3 arguments. Stores the sum of the two operand values, wrapped
    /// to the 15-bit word range, in the destination register.
    #[allow(non_snake_case)]
    pub fn Add(&mut self) -> (r: Result<OpCall, VMErrors>)
        requires
            old(self).wf(),
        ensures
            final(self).wf(),
            step_obeys(step_alu(old(self)@, OpCode::Add), final(self)@, r),
    {
        self.do_alu(OpCode::Add)
    }

    /// Takes 3 arguments. Stores the product of the two operand values,
    /// computed in 32 bits and wrapped to the 15-bit word range, in the
    /// destination register.
    #[allow(non_snake_case)]
    pub fn Mult(&mut self) -> (r: Result<OpCall, VMErrors>)
        requires
            old(self).wf(),
        ensures
            final(self).wf(),
            step_obeys(step_alu(old(self)@, OpCode::Mult), final(self)@, r),
    {
        self.do_alu(OpCode::Mult)
    }

    /// Takes 3 arguments. Stores the remainder of the first operand value
    /// divided by the second in the destination register; a zero divisor
    /// faults with `DivisionByZero`.
    #[allow(non_snake_case)]
    pub fn Mod(&mut self) -> (r: Result<OpCall, VMErrors>)
        requires
            old(self).wf(),
        ensures
            final(self).wf(),
            step_obeys(step_alu(old(self)@, OpCode::Mod), final(self)@, r),
    {
        self.do_alu(OpCode::Mod)
    }

    /// Takes 3 arguments. Stores the bitwise and of the two operand values
    /// in the destination register.
    #[allow(non_snake_case)]
    pub fn And(&mut self) -> (r: Result<OpCall, VMErrors>)
        requires
            old(self).wf(),
        ensures
            final(self).wf(),
            step_obeys(step_alu(old(self)@, OpCode::And), final(self)@, r),
    {
        self.do_alu(OpCode::And)
    }

    /// Takes 3 arguments. Stores the bitwise or of the two operand values
    /// in the destination register.
    #[allow(non_snake_case)]
    pub fn Or(&mut self) -> (r: Result<OpCall, VMErrors>)
        requires
            old(self).wf(),
        ensures
            final(self).wf(),
            step_obeys(step_alu(old(self)@, OpCode::Or), final(self)@, r),
    {
        self.do_alu(OpCode::Or)
    }

    /// Takes 1 argument. Pushes the value of the operand onto the stack.
    #[allow(non_snake_case)]
    pub fn Push(&mut self) -> (r: Result<OpCall, VMErrors>)
        requires
            old(self).wf(),
        ensures
            final(self).wf(),
            step_obeys(step_push(old(self)@), final(self)@, r),
    {
        let fetch_pc = self.pc;
        if self.pc + 2 > MEM_WORDS {
            return Err(VMErrors::OutOfBounds);
        }
        let args = self.get_args(1);
        let aw = args[0];
        if aw >= 32776 {
            return Err(VMErrors::InvalidOperand(aw));
        }
        let a = self.get_register_value(aw);
        self.stack.push(a);
        let call = self.new_opcall(OpCode::Push, args, fetch_pc);
        Ok(call)
    }

    /// Takes 1 argument. Removes the top of the stack into the register the
    /// operand selects; fails with `EmptyStack` when the stack is empty.
    #[allow(non_snake_case)]
    pub fn Pop(&mut self) -> (r: Result<OpCall, VMErrors>)
        requires
            old(self).wf(),
        ensures
            final(self).wf(),
            step_obeys(step_pop(old(self)@), final(self)@, r),
    {
        let fetch_pc = self.pc;
        if self.pc + 2 > MEM_WORDS {
            return Err(VMErrors::OutOfBounds);
        }
        let args = self.get_args(1);
        let a = args[0] % WORDSIZE;
        let val = self.stack.pop();
        match val {
            Some(val) => {
                proof {
                    assert(self.stack@ =~= old(self)@.stack.drop_last());
                }
                if a >= 8 {
                    return Err(VMErrors::InvalidOperand(args[0]));
                }
                self.reg[a as usize] = val;
                let call = self.new_opcall(OpCode::Pop, args, fetch_pc);
                Ok(call)
            },
            None => Err(VMErrors::EmptyStack),
        }
    }

    /// Takes 1 argument. Sets the program counter to the value of the
    /// operand.
    #[allow(non_snake_case)]
    pub fn Jmp(&mut self) -> (r: Result<OpCall, VMErrors>)
        requires
            old(self).wf(),
        ensures
            final(self).wf(),
            step_obeys(step_jmp(old(self)@), final(self)@, r),
    {
        let fetch_pc = self.pc;
        if self.pc + 2 > MEM_WORDS {
            return Err(VMErrors::OutOfBounds);
        }
        let args = self.get_args(1);
        let aw = args[0];
        if aw >= 32776 {
            return Err(VMErrors::InvalidOperand(aw));
        }
        let a = self.get_register_value(aw);
        self.pc = a as usize;
        let call = self.new_opcall(OpCode::Jmp, args, fetch_pc);
        Ok(call)
    }

    /// Takes 2 arguments. Jumps to the second operand when the first
    /// resolves to a nonzero value.
    #[allow(non_snake_case)]
    pub fn Jt(&mut self) -> (r: Result<OpCall, VMErrors>)
        requires
            old(self).wf(),
        ensures
            final(self).wf(),
            step_obeys(step_jt(old(self)@), final(self)@, r),
    {
        let fetch_pc = self.pc;
        if self.pc + 3 > MEM_WORDS {
            return Err(VMErrors::OutOfBounds);
        }
        let args = self.get_args(2);
        let aw = args[0];
        if aw >= 32776 {
            return Err(VMErrors::InvalidOperand(aw));
        }
        let a = self.get_register_value(aw);
        if a != 0 {
            let bw = args[1];
            if bw >= 32776 {
                return Err(VMErrors::InvalidOperand(bw));
            }
            let b = self.get_register_value(bw);
            self.pc = b as usize;
        }
        let call = self.new_opcall(OpCode::Jt, args, fetch_pc);
        Ok(call)
    }

    /// Takes 2 arguments. Jumps to the second operand when the first
    /// resolves to zero.
    #[allow(non_snake_case)]
    pub fn Jf(&mut self) -> (r: Result<OpCall, VMErrors>)
        requires
            old(self).wf(),
        ensures
            final(self).wf(),
            step_obeys(step_jf(old(self)@), final(self)@, r),
    {
        let fetch_pc = self.pc;
        if self.pc + 3 > MEM_WORDS {
            return Err(VMErrors::OutOfBounds);
        }
        let args = self.get_args(2);
        let aw = args[0];
        if aw >= 32776 {
            return Err(VMErrors::InvalidOperand(aw));
        }
        let a = self.get_register_value(aw);
        if a == 0 {
            let bw = args[1];
            if bw >= 32776 {
                return Err(VMErrors::InvalidOperand(bw));
            }
            let b = self.get_register_value(bw);
            self.pc = b as usize;
        }
        let call = self.new_opcall(OpCode::Jf, args, fetch_pc);
        Ok(call)
    }

    /// Takes 2 arguments. Stores the 15-bit complement of the second
    /// operand's value in the destination register.
    #[allow(non_snake_case)]
    pub fn Not(&mut self) -> (r: Result<OpCall, VMErrors>)
        requires
            old(self).wf(),
        ensures
            final(self).wf(),
            step_obeys(step_not(old(self)@), final(self)@, r),
    {
        let fetch_pc = self.pc;
        if self.pc + 3 > MEM_WORDS {
            return Err(VMErrors::OutOfBounds);
        }
        let args = self.get_args(2);
        let a = args[0] % WORDSIZE;
        let bw = args[1];
        if bw >= 32776 {
            return Err(VMErrors::InvalidOperand(bw));
        }
        let b = self.get_register_value(bw);
        let val = !b % WORDSIZE;
        if a >= 8 {
            return Err(VMErrors::InvalidOperand(args[0]));
        }
        self.reg[a as usize] = val;
        let call = self.new_opcall(OpCode::Not, args, fetch_pc);
        Ok(call)
    }

    /// Takes 2 arguments. Reads the memory word at the address the second
    /// operand resolves to into the destination register; a read word
    /// outside the architectural range faults, since registers always hold
    /// architectural values.
    #[allow(non_snake_case)]
    pub fn Rmem(&mut self) -> (r: Result<OpCall, VMErrors>)
        requires
            old(self).wf(),
        ensures
            final(self).wf(),
            step_obeys(step_rmem(old(self)@), final(self)@, r),
    {
        let fetch_pc = self.pc;
        if self.pc + 3 > MEM_WORDS {
            return Err(VMErrors::OutOfBounds);
        }
        let args = self.get_args(2);
        let a = args[0] % WORDSIZE;
        let bw = args[1];
        if bw >= 32776 {
            return Err(VMErrors::InvalidOperand(bw));
        }
        let b = self.get_register_value(bw);
        if a >= 8 {
            return Err(VMErrors::InvalidOperand(args[0]));
        }
        let val = self.mem[b as usize];
        if val >= WORDSIZE {
            return Err(VMErrors::InvalidOperand(val));
        }
        self.reg[a as usize] = val;
        let call = self.new_opcall(OpCode::Rmem, args, fetch_pc);
        Ok(call)
    }

    /// Takes 2 arguments. Writes the value of the second operand to the
    /// memory address the first operand resolves to.
    #[allow(non_snake_case)]
    pub fn Wmem(&mut self) -> (r: Result<OpCall, VMErrors>)
        requires
            old(self).wf(),
        ensures
            final(self).wf(),
            step_obeys(step_wmem(old(self)@), final(self)@, r),
    {
        let fetch_pc = self.pc;
        if self.pc + 3 > MEM_WORDS {
            return Err(VMErrors::OutOfBounds);
        }
        let args = self.get_args(2);
        let aw = args[0];
        let bw = args[1];
        if aw >= 32776 {
            return Err(VMErrors::InvalidOperand(aw));
        }
        if bw >= 32776 {
            return Err(VMErrors::InvalidOperand(bw));
        }
        let a = self.get_register_value(aw);
        let b = self.get_register_value(bw);
        self.mem[a as usize] = b;
        let call = self.new_opcall(OpCode::Wmem, args, fetch_pc);
        Ok(call)
    }

    /// Takes 1 argument. Pushes the address of the following instruction
    /// onto the stack, then jumps to the operand.
    #[allow(non_snake_case)]
    pub fn Call(&mut self) -> (r: Result<OpCall, VMErrors>)
        requires
            old(self).wf(),
        ensures
            final(self).wf(),
            step_obeys(step_call(old(self)@), final(self)@, r),
    {
        let fetch_pc = self.pc;
        if self.pc + 2 >= MEM_WORDS {
            return Err(VMErrors::OutOfBounds);
        }
        let args = self.get_args(1);
        let aw = args[0];
        if aw >= 32776 {
            return Err(VMErrors::InvalidOperand(aw));
        }
        let a = self.get_register_value(aw);
        let next = self.pc;
        self.stack.push(next as u16);
        self.pc = a as usize;
        let call = self.new_opcall(OpCode::Call, args, fetch_pc);
        Ok(call)
    }

    /// Takes 0 arguments. Pops the return address and jumps to it; on an
    /// empty stack the machine terminates cleanly by clearing the run flag.
    #[allow(non_snake_case)]
    pub fn Ret(&mut self) -> (r: Result<OpCall, VMErrors>)
        requires
            old(self).wf(),
        ensures
            final(self).wf(),
            step_obeys(step_ret(old(self)@), final(self)@, r),
    {
        let fetch_pc = self.pc;
        let val = self.stack.pop();
        match val {
            Some(val) => {
                proof {
                    assert(self.stack@ =~= old(self)@.stack.drop_last());
                }
                self.pc = val as usize;
            },
            None => {
                self.running = false;
            },
        }
        let call = self.new_opcall(OpCode::Ret, Vec::new(), fetch_pc);
        proof {
            assert(call@.args =~= Seq::<u16>::empty());
        }
        Ok(call)
    }

    /// Takes 1 argument. Appends the value of the operand to the emitted
    /// output; the host prints each emitted word as the character with that
    /// code point.
    #[allow(non_snake_case)]
    pub fn Out(&mut self) -> (r: Result<OpCall, VMErrors>)
        requires
            old(self).wf(),
        ensures
            final(self).wf(),
            step_obeys(step_out(old(self)@), final(self)@, r),
    {
        let fetch_pc = self.pc;
        if self.pc + 2 > MEM_WORDS {
            return Err(VMErrors::OutOfBounds);
        }
        let args = self.get_args(1);
        let aw = args[0];
        if aw >= 32776 {
            return Err(VMErrors::InvalidOperand(aw));
        }
        let a = self.get_register_value(aw);
        self.output.push(a);
        let call = self.new_opcall(OpCode::Out, args, fetch_pc);
        Ok(call)
    }

    /// Takes 1 argument. Consumes the oldest pending input byte into the
    /// register the operand selects; with no byte pending it fails with
    /// `InputExhausted` (the run loop reports `NeedInput` first, so this
    /// surfaces only when the opcode is invoked directly).
    #[allow(non_snake_case)]
    pub fn In(&mut self) -> (r: Result<OpCall, VMErrors>)
        requires
            old(self).wf(),
        ensures
            final(self).wf(),
            step_obeys(step_in(old(self)@), final(self)@, r),
    {
        let fetch_pc = self.pc;
        if self.pc + 2 > MEM_WORDS {
            return Err(VMErrors::OutOfBounds);
        }
        let args = self.get_args(1);
        let a = args[0] % WORDSIZE;
        let s = self.inputs.pop_front();
        match s {
            Some(s) => {
                proof {
                    assert(self.inputs@ =~= old(self)@.inputs.skip(1));
                }
                if a >= 8 {
                    return Err(VMErrors::InvalidOperand(args[0]));
                }
                self.reg[a as usize] = s as u16;
                let call = self.new_opcall(OpCode::In, args, fetch_pc);
                Ok(call)
            },
            None => Err(VMErrors::InputExhausted),
        }
    }

    /// Takes 0 arguments. Advances past the opcode word.
    #[allow(non_snake_case)]
    pub fn Noop(&mut self) -> (r: Result<OpCall, VMErrors>)
        requires
            old(self).wf(),
        ensures
            final(self).wf(),
            step_obeys(step_noop(old(self)@), final(self)@, r),
    {
        let fetch_pc = self.pc;
        if self.pc + 1 > MEM_WORDS {
            return Err(VMErrors::OutOfBounds);
        }
        self.pc = self.pc + 1;
        let call = self.new_opcall(OpCode::Noop, Vec::new(), fetch_pc);
        proof {
            assert(call@.args =~= Seq::<u16>::empty());
        }
        Ok(call)
    }
}

/// Why a call to [`VM::run`] came back without a fault.
#[derive(Debug, Clone, Copy, PartialEq, Eq, Structural)]
pub enum RunExit {
    /// The run flag cleared: a halt, or a return on an empty stack.
    Halted,
    /// The next instruction is an input opcode and the input buffer is
    /// empty: the host must supply a line and call `run` again.
    NeedInput,
    /// The step budget ran out while the machine was still running.
    StepLimit,
}

impl VM {
    /// Dispatch one decoded opcode to its implementation.
    pub fn execute(&mut self, op: OpCode) -> (r: Result<OpCall, VMErrors>)
        requires
            old(self).wf(),
        ensures
            final(self).wf(),
            step_obeys(step_op(old(self)@, op), final(self)@, r),
    {
        match op {
            OpCode::Halt => self.Halt(),
            OpCode::SetReg => self.SetReg(),
            OpCode::Push => self.Push(),
            OpCode::Pop => self.Pop(),
            OpCode::Eq => self.Eq(),
            OpCode::Gt => self.Gt(),
            OpCode::Jmp => self.Jmp(),
            OpCode::Jt => self.Jt(),
            OpCode::Jf => self.Jf(),
            OpCode::Add => self.Add(),
            OpCode::Mult => self.Mult(),
            OpCode::Mod => self.Mod(),
            OpCode::And => self.And(),
            OpCode::Or => self.Or(),
            OpCode::Not => self.Not(),
            OpCode::Rmem => self.Rmem(),
            OpCode::Wmem => self.Wmem(),
            OpCode::Call => self.Call(),
            OpCode::Ret => self.Ret(),
            OpCode::Out => self.Out(),
            OpCode::In => self.In(),
            OpCode::Noop => self.Noop(),
        }
    }

    /// Fetch, decode and execute instructions until the run flag clears, an
    /// input opcode finds the buffer empty, a fault arises, or `max_steps`
    /// instructions have executed. Each call terminates, which the step
    /// budget makes provable; the host loop simply calls again to continue.
    /// Every exit pins the machine against its own transition function: a
    /// spent budget leaves exactly the state after `max_steps` rounds, a
    /// halt or an input wait leaves a reachable stopped or stuck state, and
    /// a fault is the fetch, decode or execution failure of some round,
    /// with its error and its state.
    pub fn run(&mut self, max_steps: u64) -> (r: Result<RunExit, VMErrors>)
        requires
            old(self).wf(),
        ensures
            final(self).wf(),
            exists|n: nat| final(self)@ == crate::state::run_n(old(self)@, n),
            match r {
                Ok(RunExit::Halted) => !final(self)@.running,
                Ok(RunExit::NeedInput) => final(self)@.running && final(self)@.inputs.len() == 0
                    && final(self)@.pc < 32768
                    && crate::isa::opcode_of(final(self)@.mem[final(self)@.pc as int])
                        == Some(OpCode::In),
                Ok(RunExit::StepLimit) => final(self)@.running
                    && final(self)@ == crate::state::run_n(old(self)@, max_steps as nat),
                Err(e) => exists|n: nat| crate::state::run_fault(old(self)@, n, e, final(self)@),
            },
    {
        let mut steps: u64 = 0;
        while self.running && steps < max_steps
            invariant
                self.wf(),
                steps <= max_steps,
                self@ == crate::state::run_n(old(self)@, steps as nat),
            decreases max_steps - steps,
        {
            if self.pc >= MEM_WORDS {
                proof {
                    assert(crate::state::run_fault(
                        old(self)@,
                        steps as nat,
                        VMErrors::OutOfBounds,
                        final(self)@,
                    ));
                }
                return Err(VMErrors::OutOfBounds);
            }
            let w = self.mem[self.pc];
            let op = match OpCode::new(w) {
                Ok(op) => op,
                Err(e) => {
                    proof {
                        assert(crate::state::run_fault(old(self)@, steps as nat, e, final(self)@));
                    }
                    return Err(e);
                },
            };
            if op == OpCode::In && self.inputs.len() == 0 {
                proof {
                    assert(final(self)@ == crate::state::run_n(old(self)@, steps as nat));
                }
                return Ok(RunExit::NeedInput);
            }
            let ghost before = self@;
            match self.execute(op) {
                Ok(_) => {},
                Err(e) => {
                    proof {
                        assert(crate::state::run_n(old(self)@, steps as nat + 1)
                            == crate::state::step_op(before, op).state);
                        assert(crate::state::run_fault(old(self)@, steps as nat, e, final(self)@));
                    }
                    return Err(e);
                },
            }
            proof {
                assert(crate::state::run_n(old(self)@, steps as nat + 1)
                    == crate::state::step_op(before, op).state);
            }
            steps = steps + 1;
        }
        if self.running {
            Ok(RunExit::StepLimit)
        } else {
            Ok(RunExit::Halted)
        }
    }

    /// Like [`VM::run`], but additionally hands back the trace record of
    /// every executed instruction, in execution order, for the host's
    /// logger: record `i` is exactly what the `i`-th round's opcode
    /// transition produced, and the machine ends in the state after as
    /// many rounds (one more after a faulted execution).
    pub fn run_traced(&mut self, max_steps: u64) -> (r: (Result<RunExit, VMErrors>, Vec<OpCall>))
        requires
            old(self).wf(),
        ensures
            final(self).wf(),
            exists|n: nat| final(self)@ == crate::state::run_n(old(self)@, n),
            r.1@.len() <= max_steps,
            forall|i: int| 0 <= i < r.1@.len()
                ==> crate::state::traced_step(old(self)@, i, r.1@[i]@),
            r.0 matches Ok(_) ==> final(self)@ == crate::state::run_n(
                old(self)@,
                r.1@.len() as nat,
            ),
            match r.0 {
                Ok(RunExit::Halted) => !final(self)@.running,
                Ok(RunExit::NeedInput) => final(self)@.running && final(self)@.inputs.len() == 0
                    && final(self)@.pc < 32768
                    && crate::isa::opcode_of(final(self)@.mem[final(self)@.pc as int])
                        == Some(OpCode::In),
                Ok(RunExit::StepLimit) => final(self)@.running && r.1@.len() == max_steps,
                Err(e) => exists|n: nat| crate::state::run_fault(old(self)@, n, e, final(self)@),
            },
    {
        let mut records: Vec<OpCall> = Vec::new();
        let mut steps: u64 = 0;
        while self.running && steps < max_steps
            invariant
                self.wf(),
                steps <= max_steps,
                records@.len() == steps,
                self@ == crate::state::run_n(old(self)@, steps as nat),
                forall|i: int| 0 <= i < records@.len()
                    ==> crate::state::traced_step(old(self)@, i, records@[i]@),
            decreases max_steps - steps,
        {
            if self.pc >= MEM_WORDS {
                proof {
                    assert(crate::state::run_fault(
                        old(self)@,
                        steps as nat,
                        VMErrors::OutOfBounds,
                        final(self)@,
                    ));
                }
                return (Err(VMErrors::OutOfBounds), records);
            }
            let w = self.mem[self.pc];
            let op = match OpCode::new(w) {
                Ok(op) => op,
                Err(e) => {
                    proof {
                        assert(crate::state::run_fault(old(self)@, steps as nat, e, final(self)@));
                    }
                    return (Err(e), records);
                },
            };
            if op == OpCode::In && self.inputs.len() == 0 {
                proof {
                    assert(final(self)@ == crate::state::run_n(old(self)@, steps as nat));
                }
                return (Ok(RunExit::NeedInput), records);
            }
            let ghost before = self@;
            match self.execute(op) {
                Ok(call) => {
                    proof {
                        assert(crate::state::run_n(old(self)@, steps as nat + 1)
                            == crate::state::step_op(before, op).state);
                        assert(crate::state::traced_step(old(self)@, steps as int, call@));
                    }
                    records.push(call);
                },
                Err(e) => {
                    proof {
                        assert(crate::state::run_n(old(self)@, steps as nat + 1)
                            == crate::state::step_op(before, op).state);
                        assert(crate::state::run_fault(old(self)@, steps as nat, e, final(self)@));
                    }
                    return (Err(e), records);
                },
            }
            steps = steps + 1;
        }
        if self.running {
            (Ok(RunExit::StepLimit), records)
        } else {
            (Ok(RunExit::Halted), records)
        }
    }
}

// The interface the host and its collaborators drive: feeding input,
// draining output, loading images, and inspecting state.
impl VM {
    /// Append every byte of the line to the pending input queue, in order.
    pub fn push_input(&mut self, s: String)
        ensures
            final(self)@ == (State {
                inputs: old(self)@.inputs + vstd::utf8::encode_utf8(s@),
                ..old(self)@
            }),
    {
        let bytes: &[u8] = s.as_str().as_bytes();
        let mut i: usize = 0;
        while i < bytes.len()
            invariant
                i <= bytes@.len(),
                bytes@ == vstd::utf8::encode_utf8(s@),
                self@ == (State {
                    inputs: old(self)@.inputs + bytes@.subrange(0, i as int),
                    ..old(self)@
                }),
            decreases bytes@.len() - i,
        {
            self.inputs.push_back(bytes[i]);
            proof {
                assert(old(self)@.inputs + bytes@.subrange(0, i as int + 1)
                    =~= (old(self)@.inputs + bytes@.subrange(0, i as int)).push(bytes@[i as int]));
            }
            i = i + 1;
        }
        proof {
            assert(bytes@.subrange(0, bytes@.len() as int) =~= bytes@);
        }
    }

    /// Append raw bytes to the pending input queue, in order.
    pub fn push_input_bytes(&mut self, bytes: &Vec<u8>)
        ensures
            final(self)@ == (State { inputs: old(self)@.inputs + bytes@, ..old(self)@ }),
    {
        let mut i: usize = 0;
        while i < bytes.len()
            invariant
                i <= bytes@.len(),
                self@ == (State {
                    inputs: old(self)@.inputs + bytes@.subrange(0, i as int),
                    ..old(self)@
                }),
            decreases bytes@.len() - i,
        {
            self.inputs.push_back(bytes[i]);
            proof {
                assert(old(self)@.inputs + bytes@.subrange(0, i as int + 1)
                    =~= (old(self)@.inputs + bytes@.subrange(0, i as int)).push(bytes@[i as int]));
            }
            i = i + 1;
        }
        proof {
            assert(bytes@.subrange(0, bytes@.len() as int) =~= bytes@);
        }
    }

    /// Copy a program image into memory starting at address 0; the rest of
    /// the address space is zero-filled.
    pub fn load_image(&mut self, words: &Vec<u16>)
        requires
            old(self).wf(),
            words@.len() <= 32768,
        ensures
            final(self).wf(),
            final(self)@ == (State {
                mem: Seq::new(32768, |i: int| if i < words@.len() { words@[i] } else { 0u16 }),
                ..old(self)@
            }),
    {
        let mut i: usize = 0;
        while i < MEM_WORDS
            invariant
                old(self).wf(),
                i <= 32768,
                words@.len() <= 32768,
                self@.mem.len() == 32768,
                self@ == (State { mem: self@.mem, ..old(self)@ }),
                forall|j: int| 0 <= j < i ==> self@.mem[j]
                    == if j < words@.len() { words@[j] } else { 0u16 },
                forall|j: int| i <= j < 32768 ==> self@.mem[j] == old(self)@.mem[j],
            decreases 32768 - i,
        {
            if i < words.len() {
                self.mem[i] = words[i];
            } else {
                self.mem[i] = 0;
            }
            i = i + 1;
        }
        proof {
            assert(self@.mem =~= Seq::new(
                32768,
                |i: int| if i < words@.len() { words@[i] } else { 0u16 },
            ));
        }
    }

    /// How many input bytes are pending.
    pub fn input_len(&self) -> (n: usize)
        ensures
            n == self@.inputs.len(),
    {
        self.inputs.len()
    }

    /// Whether the run flag is still set.
    pub fn is_running(&self) -> (r: bool)
        ensures
            r == self@.running,
    {
        self.running
    }

    /// The current program counter.
    pub fn pc(&self) -> (r: usize)
        ensures
            r == self@.pc,
    {
        self.pc
    }

    /// The content of one register.
    pub fn register(&self, i: usize) -> (r: u16)
        requires
            i < 8,
            self.wf(),
        ensures
            r == self@.reg[i as int],
            r < 32768,
    {
        self.reg[i]
    }

    /// Write one register, keeping the architectural invariant.
    pub fn set_register(&mut self, i: usize, v: u16)
        requires
            old(self).wf(),
            i < 8,
            v < 32768,
        ensures
            final(self).wf(),
            final(self)@ == (State { reg: old(self)@.reg.update(i as int, v), ..old(self)@ }),
    {
        self.reg[i] = v;
    }

    /// Read one memory word.
    pub fn read_mem(&self, addr: usize) -> (r: u16)
        requires
            self.wf(),
            addr < 32768,
        ensures
            r == self@.mem[addr as int],
    {
        self.mem[addr]
    }

    /// Capture the preserved state by value: registers, memory, stack,
    /// program counter and pending input bytes.
    pub fn snapshot(&self) -> (s: crate::codec::Snapshot)
        requires
            self.wf(),
        ensures
            s@ == crate::codec::snap_of(self@),
            s.wf(),
    {
        let reg = self.reg.clone();
        let mem = self.mem.clone();
        let stack = self.stack.clone();
        proof {
            assert(reg@ =~= self.reg@);
            assert(mem@ =~= self.mem@);
            assert(stack@ =~= self.stack@);
        }
        let mut inputs: Vec<u8> = Vec::new();
        let mut i: usize = 0;
        let n = self.inputs.len();
        while i < n
            invariant
                i <= n,
                n == self@.inputs.len(),
                inputs@ =~= self@.inputs.subrange(0, i as int),
            decreases n - i,
        {
            inputs.push(self.inputs[i]);
            i = i + 1;
        }
        proof {
            assert(inputs@ =~= self@.inputs);
        }
        let stack_len: usize = stack.len();
        let inputs_len: usize = inputs.len();
        let s = crate::codec::Snapshot { reg, mem, stack, pc: self.pc, inputs };
        proof {
            assert(s@.stack.len() == stack_len && s@.inputs.len() == inputs_len);
            assert forall|i: int| 0 <= i < s@.stack.len() implies s@.stack[i] < 32768 by {
                assert(s@.stack[i] == self@.stack[i]);
            };
        }
        s
    }

    /// Replace the live state with a snapshot's contents. The run flag is
    /// set, and the input buffer is preloaded with the canned inspection
    /// line rather than the snapshot's pending bytes; already-emitted
    /// output is kept.
    pub fn restore(&mut self, s: &crate::codec::Snapshot)
        requires
            old(self).wf(),
            s.wf(),
        ensures
            final(self).wf(),
            final(self)@ == (State {
                reg: s@.reg,
                mem: s@.mem,
                stack: s@.stack,
                pc: s@.pc,
                running: true,
                inputs: crate::codec::canned_inputs(),
                output: old(self)@.output,
            }),
    {
        let reg = s.reg.clone();
        let mem = s.mem.clone();
        let stack = s.stack.clone();
        proof {
            assert(reg@ =~= s@.reg);
            assert(mem@ =~= s@.mem);
            assert(stack@ =~= s@.stack);
        }
        self.reg = reg;
        self.mem = mem;
        self.stack = stack;
        self.pc = s.pc;
        self.running = true;
        let mut inputs: VecDeque<u8> = VecDeque::new();
        inputs.push_back(10);
        inputs.push_back(108);
        inputs.push_back(111);
        inputs.push_back(111);
        inputs.push_back(107);
        inputs.push_back(10);
        self.inputs = inputs;
        proof {
            assert(self@.inputs =~= crate::codec::canned_inputs());
        }
    }

    /// Hand the emitted words to the host and clear the buffer. The host
    /// prints each word as the character with that code point; every
    /// emitted word is an architectural value, so each is a valid scalar.
    pub fn take_output(&mut self) -> (out: Vec<u16>)
        ensures
            out@ == old(self)@.output,
            final(self)@ == (State { output: Seq::<u16>::empty(), ..old(self)@ }),
    {
        let mut out: Vec<u16> = Vec::new();
        std::mem::swap(&mut out, &mut self.output);
        out
    }
}

} // verus!

