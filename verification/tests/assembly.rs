use elf_assembler::assembly::{
    assemble, is_well_formed, Instruction, Instructions, Interrupt, Register, Value, ValueStore,
    EXIT_CODE_SUCCESS, FILE_DESCRIPTOR_STDOUT, MOVE_LENGTH, SYSCALL_EXIT, SYSCALL_WRITE,
    TRAP_LENGTH, TRAP_OPCODE,
};

#[test]
fn register_opcodes_follow_the_table() {
    assert_eq!(Register::Eax.opcode(), 0xb8);
    assert_eq!(Register::Ebx.opcode(), 0xbb);
    assert_eq!(Register::Ecx.opcode(), 0xb9);
    assert_eq!(Register::Edx.opcode(), 0xba);
}

#[test]
fn syscall_interrupt_has_vector_0x80() {
    assert_eq!(Interrupt::Syscall.vector(), 0x80);
    assert_eq!(TRAP_OPCODE, 0xcd);
}

#[test]
fn constants_have_their_values() {
    assert_eq!(SYSCALL_WRITE, 4);
    assert_eq!(SYSCALL_EXIT, 1);
    assert_eq!(FILE_DESCRIPTOR_STDOUT, 1);
    assert_eq!(EXIT_CODE_SUCCESS, 0);
    assert_eq!(MOVE_LENGTH, 5);
    assert_eq!(TRAP_LENGTH, 2);
}

#[test]
fn new_value_reads_back() {
    let mut store = ValueStore::new();
    let first = Value::new(&mut store, 17);
    let second = Value::new(&mut store, 0xffff_ffff);
    assert_eq!(*first.borrow(&store), 17);
    assert_eq!(*second.borrow(&store), 0xffff_ffff);
}

#[test]
fn borrow_mut_writes_one_cell_only() {
    let mut store = ValueStore::new();
    let first = Value::new(&mut store, 1);
    let second = Value::new(&mut store, 2);
    let third = Value::new(&mut store, 3);
    *second.borrow_mut(&mut store) = 20;
    assert_eq!(*first.borrow(&store), 1);
    assert_eq!(*second.borrow(&store), 20);
    assert_eq!(*third.borrow(&store), 3);
}

#[test]
fn borrow_mut_starts_from_the_current_contents() {
    let mut store = ValueStore::new();
    let value = Value::new(&mut store, 41);
    *value.borrow_mut(&mut store) += 1;
    assert_eq!(*value.borrow(&store), 42);
}

#[test]
fn copies_of_a_value_share_the_cell() {
    let mut store = ValueStore::new();
    let value = Value::new(&mut store, 5);
    let copy = value.clone();
    *copy.borrow_mut(&mut store) = 6;
    assert_eq!(*value.borrow(&store), 6);
}

#[test]
fn store_contains_its_own_values_only() {
    let mut small = ValueStore::new();
    let mut large = ValueStore::new();
    let in_both = Value::new(&mut large, 0);
    let in_large = Value::new(&mut large, 0);
    let also_in_both = Value::new(&mut small, 0);
    assert!(large.contains(&in_both));
    assert!(large.contains(&in_large));
    assert!(small.contains(&also_in_both));
    assert!(small.contains(&in_both));
    assert!(!small.contains(&in_large));
    assert!(!ValueStore::new().contains(&in_both));
}

#[test]
fn encodes_a_move_in_five_bytes() {
    let mut store = ValueStore::new();
    let value = Value::new(&mut store, 0x1234_5678);
    let program: Instructions = vec![Instruction::Mov(Register::Eax, value)];
    assert_eq!(assemble(&program, &store), vec![0xb8, 0x78, 0x56, 0x34, 0x12]);
}

#[test]
fn encodes_a_move_for_each_register() {
    let mut store = ValueStore::new();
    let value = Value::new(&mut store, 1);
    let eax: Instructions = vec![Instruction::Mov(Register::Eax, value)];
    let ebx: Instructions = vec![Instruction::Mov(Register::Ebx, value)];
    let ecx: Instructions = vec![Instruction::Mov(Register::Ecx, value)];
    let edx: Instructions = vec![Instruction::Mov(Register::Edx, value)];
    assert_eq!(assemble(&eax, &store), vec![0xb8, 1, 0, 0, 0]);
    assert_eq!(assemble(&ebx, &store), vec![0xbb, 1, 0, 0, 0]);
    assert_eq!(assemble(&ecx, &store), vec![0xb9, 1, 0, 0, 0]);
    assert_eq!(assemble(&edx, &store), vec![0xba, 1, 0, 0, 0]);
}

#[test]
fn move_width_does_not_depend_on_the_value() {
    let mut store = ValueStore::new();
    let zero = Value::new(&mut store, 0);
    let max = Value::new(&mut store, u32::MAX);
    let small: Instructions = vec![Instruction::Mov(Register::Edx, zero)];
    let large: Instructions = vec![Instruction::Mov(Register::Edx, max)];
    assert_eq!(assemble(&small, &store), vec![0xba, 0, 0, 0, 0]);
    assert_eq!(assemble(&large, &store), vec![0xba, 0xff, 0xff, 0xff, 0xff]);
}

#[test]
fn encodes_a_trap_in_two_bytes() {
    let store = ValueStore::new();
    let program: Instructions = vec![Instruction::Int(Interrupt::Syscall)];
    assert_eq!(assemble(&program, &store), vec![0xcd, 0x80]);
}

#[test]
fn empty_program_has_no_code() {
    let store = ValueStore::new();
    let program: Instructions = Vec::new();
    assert_eq!(assemble(&program, &store), Vec::<u8>::new());
}

#[test]
fn instructions_are_encoded_in_program_order() {
    let mut store = ValueStore::new();
    let one = Value::new(&mut store, 1);
    let two = Value::new(&mut store, 0x0200);
    let program: Instructions = vec![
        Instruction::Int(Interrupt::Syscall),
        Instruction::Mov(Register::Ebx, two),
        Instruction::Mov(Register::Eax, one),
        Instruction::Int(Interrupt::Syscall),
        Instruction::Int(Interrupt::Syscall),
    ];
    assert_eq!(
        assemble(&program, &store),
        vec![0xcd, 0x80, 0xbb, 0x00, 0x02, 0, 0, 0xb8, 1, 0, 0, 0, 0xcd, 0x80, 0xcd, 0x80]
    );
}

#[test]
fn encoding_reads_the_cell_at_encode_time() {
    let mut store = ValueStore::new();
    let value = Value::new(&mut store, 0);
    let program: Instructions = vec![
        Instruction::Mov(Register::Ecx, value),
        Instruction::Int(Interrupt::Syscall),
    ];
    assert_eq!(assemble(&program, &store), vec![0xb9, 0, 0, 0, 0, 0xcd, 0x80]);
    *value.borrow_mut(&mut store) = 0x0600_00d4;
    assert_eq!(assemble(&program, &store), vec![0xb9, 0xd4, 0x00, 0x00, 0x06, 0xcd, 0x80]);
    *value.borrow_mut(&mut store) = 7;
    assert_eq!(assemble(&program, &store), vec![0xb9, 7, 0, 0, 0, 0xcd, 0x80]);
}

#[test]
fn rewriting_a_cell_changes_only_its_immediates() {
    let mut store = ValueStore::new();
    let shared = Value::new(&mut store, 0x1111_1111);
    let other = Value::new(&mut store, 0x2222_2222);
    let program: Instructions = vec![
        Instruction::Mov(Register::Eax, shared),
        Instruction::Int(Interrupt::Syscall),
        Instruction::Mov(Register::Ebx, other),
        Instruction::Mov(Register::Ecx, shared),
    ];
    let before = assemble(&program, &store);
    *shared.borrow_mut(&mut store) = 0xaabb_ccdd;
    let after = assemble(&program, &store);
    assert_eq!(before.len(), 17);
    assert_eq!(after.len(), before.len());
    for position in 0..before.len() {
        let in_rewritten_immediate = (1..5).contains(&position) || (13..17).contains(&position);
        if in_rewritten_immediate {
            assert_ne!(before[position], after[position]);
        } else {
            assert_eq!(before[position], after[position]);
        }
    }
    assert_eq!(&after[1..5], &[0xdd, 0xcc, 0xbb, 0xaa]);
    assert_eq!(&after[13..17], &[0xdd, 0xcc, 0xbb, 0xaa]);
}

#[test]
fn program_over_its_own_store_is_well_formed() {
    let mut store = ValueStore::new();
    let value = Value::new(&mut store, 9);
    let program: Instructions = vec![
        Instruction::Int(Interrupt::Syscall),
        Instruction::Mov(Register::Eax, value),
    ];
    assert!(is_well_formed(&program, &store));
    assert!(is_well_formed(&Vec::new(), &ValueStore::new()));
}

#[test]
fn program_over_a_smaller_store_is_not_well_formed() {
    let mut store = ValueStore::new();
    let first = Value::new(&mut store, 1);
    let second = Value::new(&mut store, 2);
    let mut smaller = ValueStore::new();
    Value::new(&mut smaller, 1);
    let program: Instructions = vec![
        Instruction::Mov(Register::Eax, first),
        Instruction::Int(Interrupt::Syscall),
        Instruction::Mov(Register::Ebx, second),
    ];
    assert!(is_well_formed(&program, &store));
    assert!(!is_well_formed(&program, &smaller));
    assert!(!is_well_formed(&program, &ValueStore::new()));
}
