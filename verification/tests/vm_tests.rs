use synacor_vm::errors::VMErrors;
use synacor_vm::isa::OpCode;
use synacor_vm::vm::{RunExit, VM};

fn machine_with(words: &[u16]) -> VM {
    let mut vm = VM::new();
    let image: Vec<u16> = words.to_vec();
    vm.load_image(&image);
    vm
}

#[test]
fn echo_then_halt() {
    let mut vm = machine_with(&[19, 65, 19, 10, 0]);
    let exit = vm.run(1000).unwrap();
    assert_eq!(exit, RunExit::Halted);
    assert!(!vm.is_running());
    assert_eq!(vm.pc(), 0);
    assert_eq!(vm.take_output(), vec![65, 10]);
}

#[test]
fn register_set_then_out() {
    let mut vm = machine_with(&[1, 32768, 72, 19, 32768, 0]);
    let exit = vm.run(1000).unwrap();
    assert_eq!(exit, RunExit::Halted);
    assert_eq!(vm.register(0), 72);
    assert_eq!(vm.take_output(), vec![72]);
}

#[test]
fn add_wraps_modulo() {
    let mut vm = machine_with(&[9, 32768, 32767, 10, 19, 32768, 0]);
    let exit = vm.run(1000).unwrap();
    assert_eq!(exit, RunExit::Halted);
    assert_eq!(vm.register(0), 9);
    assert_eq!(vm.take_output(), vec![9]);
}

#[test]
fn jump_if_true_taken() {
    let mut vm = machine_with(&[7, 1, 6, 0, 19, 88, 0]);
    let exit = vm.run(1000).unwrap();
    assert_eq!(exit, RunExit::Halted);
    assert_eq!(vm.take_output(), vec![]);
}

#[test]
fn call_ret_restores_pc() {
    let mut vm = machine_with(&[17, 5, 19, 66, 0, 18]);
    let exit = vm.run(1000).unwrap();
    assert_eq!(exit, RunExit::Halted);
    assert_eq!(vm.take_output(), vec![66]);
}

#[test]
fn input_consumption() {
    let mut vm = machine_with(&[20, 32768, 20, 32769, 0]);
    vm.push_input(String::from("hi\n"));
    let exit = vm.run(1000).unwrap();
    assert_eq!(exit, RunExit::Halted);
    assert_eq!(vm.register(0), 104);
    assert_eq!(vm.register(1), 105);
}

#[test]
fn run_reports_need_input_and_resumes() {
    let mut vm = machine_with(&[20, 32768, 0]);
    let exit = vm.run(1000).unwrap();
    assert_eq!(exit, RunExit::NeedInput);
    assert!(vm.is_running());
    vm.push_input(String::from("a\n"));
    let exit = vm.run(1000).unwrap();
    assert_eq!(exit, RunExit::Halted);
    assert_eq!(vm.register(0), 97);
}

#[test]
fn run_honours_step_budget() {
    // An endless loop: jmp 0.
    let mut vm = machine_with(&[6, 0]);
    let exit = vm.run(10).unwrap();
    assert_eq!(exit, RunExit::StepLimit);
    assert!(vm.is_running());
}

#[test]
fn decoder_accepts_all_opcodes_and_rejects_the_rest() {
    assert_eq!(OpCode::new(0).unwrap(), OpCode::Halt);
    assert_eq!(OpCode::new(1).unwrap(), OpCode::SetReg);
    assert_eq!(OpCode::new(19).unwrap(), OpCode::Out);
    assert_eq!(OpCode::new(20).unwrap(), OpCode::In);
    assert_eq!(OpCode::new(21).unwrap(), OpCode::Noop);
    assert_eq!(OpCode::new(22).unwrap_err(), VMErrors::UnknownOpcode(22));
    assert_eq!(OpCode::new(65535).unwrap_err(), VMErrors::UnknownOpcode(65535));
}

#[test]
fn run_surfaces_unknown_opcode() {
    let mut vm = machine_with(&[22, 0]);
    assert_eq!(vm.run(1000).unwrap_err(), VMErrors::UnknownOpcode(22));
}

#[test]
fn pop_on_empty_stack_fails() {
    let mut vm = machine_with(&[3, 32768, 0]);
    assert_eq!(vm.run(1000).unwrap_err(), VMErrors::EmptyStack);
}

#[test]
fn ret_on_empty_stack_terminates_cleanly() {
    let mut vm = machine_with(&[18, 19, 65, 0]);
    let exit = vm.run(1000).unwrap();
    assert_eq!(exit, RunExit::Halted);
    assert!(!vm.is_running());
    assert_eq!(vm.take_output(), vec![]);
}

#[test]
fn push_pop_round_trip_through_opcodes() {
    let mut vm = machine_with(&[2, 5, 2, 7, 3, 32768, 3, 32769, 0]);
    let exit = vm.run(1000).unwrap();
    assert_eq!(exit, RunExit::Halted);
    assert_eq!(vm.register(0), 7);
    assert_eq!(vm.register(1), 5);
}

#[test]
fn eq_gt_write_one_or_zero() {
    let mut vm = machine_with(&[4, 32768, 3, 3, 5, 32769, 3, 3, 0]);
    vm.run(1000).unwrap();
    assert_eq!(vm.register(0), 1);
    assert_eq!(vm.register(1), 0);
}

#[test]
fn mult_uses_wide_intermediate() {
    let mut vm = machine_with(&[10, 32768, 4000, 4000, 0]);
    vm.run(1000).unwrap();
    assert_eq!(vm.register(0), (4000u32 * 4000u32 % 32768) as u16);
}

#[test]
fn mod_computes_remainder() {
    let mut vm = machine_with(&[11, 32768, 100, 7, 0]);
    vm.run(1000).unwrap();
    assert_eq!(vm.register(0), 2);
}

#[test]
fn mod_by_zero_is_reported() {
    let mut vm = machine_with(&[11, 32768, 100, 0, 0]);
    assert_eq!(vm.run(1000).unwrap_err(), VMErrors::DivisionByZero);
}

#[test]
fn and_or_stay_in_range() {
    let mut vm = machine_with(&[12, 32768, 6, 5, 13, 32769, 6, 5, 0]);
    vm.run(1000).unwrap();
    assert_eq!(vm.register(0), 4);
    assert_eq!(vm.register(1), 7);
}

#[test]
fn not_is_fifteen_bit_complement() {
    let mut vm = machine_with(&[14, 32768, 123, 0]);
    vm.run(1000).unwrap();
    assert_eq!(vm.register(0), 32644);
    assert_eq!(vm.register(0) ^ 123, 32767);
}

#[test]
fn arithmetic_results_stay_architectural() {
    for (b, c) in [(0u16, 0u16), (32767, 32767), (12345, 31000), (1, 32767)] {
        let mut vm = machine_with(&[
            9, 32768, b, c, 10, 32769, b, c, 12, 32770, b, c, 13, 32771, b, c, 14, 32772, b, 0,
        ]);
        vm.run(1000).unwrap();
        for i in 0..5 {
            assert!(vm.register(i) < 32768);
        }
        assert_eq!(vm.register(0), ((b as u32 + c as u32) % 32768) as u16);
        assert_eq!(vm.register(1), ((b as u32 * c as u32) % 32768) as u16);
    }
}

#[test]
fn rmem_wmem_move_words() {
    // wmem 100 <- 4660, rmem r0 <- [100]
    let mut vm = machine_with(&[16, 100, 4660, 15, 32768, 100, 0]);
    vm.run(1000).unwrap();
    assert_eq!(vm.read_mem(100), 4660);
    assert_eq!(vm.register(0), 4660);
}

#[test]
fn operand_resolution_reads_registers() {
    let mut vm = VM::new();
    vm.set_register(3, 1234);
    assert_eq!(vm.get_register_value(32768 + 3), 1234);
    assert_eq!(vm.get_register_value(500), 500);
    for k in 0..8u16 {
        vm.set_register(k as usize, 100 + k);
        assert_eq!(vm.get_register_value(32768 + k), 100 + k);
    }
}

#[test]
fn invalid_read_operand_is_reported() {
    let mut vm = machine_with(&[6, 40000, 0]);
    assert_eq!(vm.run(1000).unwrap_err(), VMErrors::InvalidOperand(40000));
}

#[test]
fn invalid_write_destination_is_reported() {
    let mut vm = machine_with(&[1, 9000, 5, 0]);
    assert_eq!(vm.run(1000).unwrap_err(), VMErrors::InvalidOperand(9000));
}

#[test]
fn run_traced_returns_one_record_per_instruction() {
    let mut vm = machine_with(&[19, 65, 19, 10, 0]);
    let (exit, records) = vm.run_traced(1000);
    assert_eq!(exit.unwrap(), RunExit::Halted);
    assert_eq!(records.len(), 3);
    assert_eq!(records[0].code(), OpCode::Out);
    assert_eq!(records[0].fetch_pc(), 0);
    assert_eq!(records[1].code(), OpCode::Out);
    assert_eq!(records[1].fetch_pc(), 2);
    assert_eq!(records[2].code(), OpCode::Halt);
    assert_eq!(records[2].fetch_pc(), 4);
    assert_eq!(vm.take_output(), vec![65, 10]);
}

#[test]
fn execute_returns_a_trace_record() {
    let mut vm = machine_with(&[9, 32768, 2, 3, 0]);
    let call = vm.execute(OpCode::Add).unwrap();
    assert_eq!(call.code(), OpCode::Add);
    assert_eq!(call.fetch_pc(), 0);
    assert_eq!(call.args(), &vec![32768, 2, 3]);
    assert_eq!(call.reg()[0], 5);
    assert_eq!(call.stack_size(), 0);
    assert_eq!(call.stack(), &vec![]);
}
