use synacor_vm::coins::solver;
use synacor_vm::meta::{parse_command, MetaCommand};
use synacor_vm::pathing::{
    Graph,
    Operation::{Add, Mul, Sub},
};
use synacor_vm::teleporter::{teleport_check, TeleCache};
use synacor_vm::vm::{RunExit, VM};
use synacor_vm::WORDSIZE;

#[test]
fn coins() {
    let mut vm = VM::new();
    solver(&mut vm)
}

#[test]
fn coin_commands_feed_the_input_channel() {
    let mut vm = VM::new();
    solver(&mut vm);
    // Drain the first command through the input opcode: `in r0; jmp 0`
    // reads one byte per pass.
    let image: Vec<u16> = vec![20, 32768, 6, 0];
    vm.load_image(&image);
    let mut seen = Vec::new();
    for _ in 0.."use red coin\n".len() {
        assert_eq!(vm.run(2).unwrap(), RunExit::StepLimit);
        seen.push(vm.register(0) as u8);
    }
    assert_eq!(String::from_utf8(seen).unwrap(), "use red coin\n");
}

#[test]
fn path() {
    let mut graph = Graph::new(8);
    graph.add_node(0, 8, vec![(Sub, 1), (Sub, 3), (Mul, 3), (Mul, 4), (Mul, 2)]);
    graph.add_node(1, 1, vec![(Mul, 5), (Mul, 3), (Sub, 0), (Sub, 3)]);
    graph.add_node(2, 4, vec![(Mul, 0), (Mul, 3), (Mul, 4), (Add, 4)]);
    graph.add_node(3, 11, vec![
        (Sub, 0),
        (Sub, 1),
        (Mul, 0),
        (Mul, 1),
        (Mul, 4),
        (Mul, 5),
        (Sub, 7),
        (Mul, 2),
        (Sub, 4),
        (Sub, 5),
    ]);
    graph.add_node(4, 4, vec![
        (Mul, 2),
        (Mul, 0),
        (Mul, 3),
        (Add, 2),
        (Sub, 3),
        (Sub, 5),
        (Sub, 7),
    ]);
    graph.add_node(5, 18, vec![(Sub, 7), (Sub, 4), (Sub, 3), (Mul, 3), (Mul, 1), (Mul, 7)]);
    graph.add_node(6, 22, vec![(Sub, 7), (Sub, 4), (Add, 4), (Add, 2)]);
    graph.add_node(7, 9, vec![(Sub, 4), (Sub, 3), (Sub, 5), (Mul, 5)]);

    let found = graph.get_shortest_path((6, 22), (1, 30));
    let path = found.expect("a walk from the start to the goal exists");
    // Replay the walk by hand to confirm it reaches the goal.
    let data = [8u32, 1, 4, 11, 4, 18, 22, 9];
    let mut cell = 6usize;
    let mut val: u32 = 22;
    for (op, next) in path {
        val = match op {
            Add => val + data[next],
            Sub => val.saturating_sub(data[next]),
            Mul => (val * data[next]) % 32768,
        };
        cell = next;
    }
    assert_eq!((cell, val), (1, 30));
}

#[test]
fn modulo() {
    assert_eq!((1 + WORDSIZE) % WORDSIZE, 1);
}

// A brute-force sweep of all 32768 register-7 candidates takes far too
// long for this suite. These hand-computed cases pin the recurrence on
// every branch instead, and the host shell validates the known candidate
// at startup before applying it.
#[test]
fn teleporter_base_case_counts_up() {
    let mut cache = TeleCache::new();
    assert_eq!(teleport_check(0, 5, 0, &mut cache), 6);
    assert_eq!(teleport_check(0, 32767, 0, &mut cache), 0);
}

#[test]
fn teleporter_recurrence_matches_hand_computation() {
    // With r7 = 2: check(1, 0) = check(0, 2) = 3, and
    // check(1, 1) = check(0, check(1, 0)) = check(0, 3) = 4.
    let mut cache = TeleCache::new();
    assert_eq!(teleport_check(1, 0, 2, &mut cache), 3);
    assert_eq!(teleport_check(1, 1, 2, &mut cache), 4);
    // The memo table returns the same values when asked again.
    assert_eq!(teleport_check(1, 1, 2, &mut cache), 4);
    // A deeper setting, still cheap: with r7 = 3, check(1, k) = k + 4,
    // check(2, 0) = check(1, 3) = 7, check(2, 1) = check(1, 7) = 11.
    let mut deep = TeleCache::new();
    assert_eq!(teleport_check(2, 1, 3, &mut deep), 11);
}

#[test]
fn meta_commands_parse() {
    assert_eq!(parse_command(&b"*s\n".to_vec()), MetaCommand::Save);
    assert_eq!(parse_command(&b"*q\n".to_vec()), MetaCommand::Quit);
    assert_eq!(parse_command(&b"*rq\r\n".to_vec()), MetaCommand::RageQuit);
    assert_eq!(parse_command(&b"*fq\n".to_vec()), MetaCommand::ForceQuit);
    assert_eq!(parse_command(&b"*ls\n".to_vec()), MetaCommand::LoadSave);
    assert_eq!(parse_command(&b"*dbg\n".to_vec()), MetaCommand::ToggleDebug);
    assert_eq!(parse_command(&b"*print\n".to_vec()), MetaCommand::TogglePrint);
    assert_eq!(parse_command(&b"*clear\n".to_vec()), MetaCommand::ClearLog);
    assert_eq!(parse_command(&b"*solve\n".to_vec()), MetaCommand::Solve);
    assert_eq!(parse_command(&b"*1115\n".to_vec()), MetaCommand::PrintMem(1115));
    assert_eq!(parse_command(&b"*path\n".to_vec()), MetaCommand::Path);
    assert_eq!(
        parse_command(&b"*nonsense\n".to_vec()),
        MetaCommand::Unknown(b"nonsense".to_vec())
    );
    // Without a trailing newline the token is what remains after the sentinel.
    assert_eq!(parse_command(&b"*s".to_vec()), MetaCommand::Save);
}
