use synacor_vm::codec::{snapshot_from_bytes, snapshot_to_bytes, words_from_bytes};
use synacor_vm::vm::{RunExit, VM};

#[test]
fn loader_reads_little_endian_words() {
    let bytes = vec![0x34u8, 0x12, 0x78, 0x56];
    assert_eq!(words_from_bytes(&bytes), vec![0x1234, 0x5678]);
}

#[test]
fn loader_ignores_odd_trailing_byte() {
    let bytes = vec![0x34u8, 0x12, 0xAB];
    assert_eq!(words_from_bytes(&bytes), vec![0x1234]);
    assert_eq!(words_from_bytes(&vec![]), vec![]);
    assert_eq!(words_from_bytes(&vec![0x7u8]), vec![]);
}

#[test]
fn loaded_image_is_padded_with_zeros() {
    let mut vm = VM::new();
    let image = words_from_bytes(&vec![19u8, 0, 65, 0, 0, 0]);
    vm.load_image(&image);
    assert_eq!(vm.read_mem(0), 19);
    assert_eq!(vm.read_mem(1), 65);
    assert_eq!(vm.read_mem(2), 0);
    assert_eq!(vm.read_mem(32767), 0);
}

#[test]
fn snapshot_round_trip_is_bit_identical() {
    // Run a few instructions so every part of the state is non-trivial:
    // set r0, push it, out, then stop before an input opcode.
    let mut vm = VM::new();
    let image: Vec<u16> = vec![1, 32768, 72, 2, 32768, 19, 32768, 20, 32769, 0];
    vm.load_image(&image);
    vm.push_input(String::from("ab\n"));
    let exit = vm.run(3).unwrap();
    assert_eq!(exit, RunExit::StepLimit);

    let snap = vm.snapshot();
    let bytes = snapshot_to_bytes(&snap);
    let back = snapshot_from_bytes(&bytes).expect("a serialized snapshot parses");
    assert_eq!(back.reg, snap.reg);
    assert_eq!(back.mem, snap.mem);
    assert_eq!(back.stack, snap.stack);
    assert_eq!(back.pc, snap.pc);
    assert_eq!(back.inputs, snap.inputs);
}

#[test]
fn snapshot_carries_the_machine_state() {
    let mut vm = VM::new();
    let image: Vec<u16> = vec![1, 32768, 72, 2, 32768, 0];
    vm.load_image(&image);
    vm.run(1000).unwrap();
    let snap = vm.snapshot();
    assert_eq!(snap.reg[0], 72);
    assert_eq!(snap.stack, vec![72]);
    assert_eq!(snap.pc, 0);
    assert_eq!(snap.mem[2], 72);
}

#[test]
fn restore_replaces_state_and_preloads_inputs() {
    let mut vm = VM::new();
    let image: Vec<u16> = vec![1, 32768, 72, 2, 32768, 0];
    vm.load_image(&image);
    vm.run(1000).unwrap();
    assert!(!vm.is_running());
    let snap = vm.snapshot();

    let mut fresh = VM::new();
    fresh.restore(&snap);
    assert!(fresh.is_running());
    assert_eq!(fresh.register(0), 72);
    assert_eq!(fresh.pc(), 0);
    assert_eq!(fresh.read_mem(2), 72);
    // The restored machine consumes the canned "look" line first:
    // in r0 twice reads the blank line's newline and then 'l'.
    let mut probe = VM::new();
    probe.restore(&snap);
    let read_two: Vec<u16> = vec![20, 32768, 20, 32769, 0];
    probe.load_image(&read_two);
    probe.run(1000).unwrap();
    assert_eq!(probe.register(0), b'\n' as u16);
    assert_eq!(probe.register(1), b'l' as u16);
}

#[test]
fn malformed_snapshots_are_rejected() {
    assert!(snapshot_from_bytes(&vec![]).is_none());
    assert!(snapshot_from_bytes(&vec![0u8; 47]).is_none());
    let mut vm = VM::new();
    let snap = vm.snapshot();
    let mut bytes = snapshot_to_bytes(&snap);
    // Corrupt the stack-length field: the total length no longer matches.
    bytes[8] = 1;
    assert!(snapshot_from_bytes(&bytes).is_none());
    // Truncation is rejected too.
    let good = snapshot_to_bytes(&vm.snapshot());
    let shorter = good[..good.len() - 1].to_vec();
    assert!(snapshot_from_bytes(&shorter).is_none());
}
