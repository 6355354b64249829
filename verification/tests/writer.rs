use elf_assembler::assembly::{
    Instruction, Instructions, Interrupt, Register, Value, ValueStore, EXIT_CODE_SUCCESS,
    FILE_DESCRIPTOR_STDOUT, SYSCALL_EXIT, SYSCALL_WRITE,
};
use elf_assembler::elf::build_elf;
use elf_assembler::resolve::resolve;
use elf_assembler::writer::{binary_image, write_at};

#[test]
fn write_at_the_start_of_an_empty_file() {
    let mut file: Vec<u8> = Vec::new();
    write_at(&mut file, 0, &[1, 2, 3]);
    assert_eq!(file, vec![1, 2, 3]);
}

#[test]
fn write_at_the_end_appends() {
    let mut file: Vec<u8> = vec![1, 2, 3];
    write_at(&mut file, 3, &[4, 5]);
    assert_eq!(file, vec![1, 2, 3, 4, 5]);
}

#[test]
fn write_behind_the_end_fills_the_gap_with_zeros() {
    let mut file: Vec<u8> = vec![1, 2, 3];
    write_at(&mut file, 6, &[7, 8]);
    assert_eq!(file, vec![1, 2, 3, 0, 0, 0, 7, 8]);
}

#[test]
fn write_inside_overwrites_in_place() {
    let mut file: Vec<u8> = vec![1, 2, 3, 4, 5];
    write_at(&mut file, 1, &[9, 9]);
    assert_eq!(file, vec![1, 9, 9, 4, 5]);
}

#[test]
fn write_across_the_end_overwrites_and_extends() {
    let mut file: Vec<u8> = vec![1, 2, 3];
    write_at(&mut file, 2, &[7, 8, 9]);
    assert_eq!(file, vec![1, 2, 7, 8, 9]);
}

#[test]
fn writing_nothing_leaves_the_file_as_it_was() {
    let mut file: Vec<u8> = vec![1, 2, 3];
    write_at(&mut file, 1, &[]);
    assert_eq!(file, vec![1, 2, 3]);
    write_at(&mut file, 10, &[]);
    assert_eq!(file, vec![1, 2, 3]);
    let mut empty: Vec<u8> = Vec::new();
    write_at(&mut empty, 5, &[]);
    assert_eq!(empty, Vec::<u8>::new());
}

#[test]
fn image_holds_header_code_and_data_at_their_offsets() {
    let data = "Hello World\n";
    let mut store = ValueStore::new();
    let data_pointer = Value::new(&mut store, 0);
    let program: Instructions = vec![
        Instruction::Mov(Register::Edx, Value::new(&mut store, data.len() as u32)),
        Instruction::Mov(Register::Ecx, data_pointer),
        Instruction::Mov(Register::Ebx, Value::new(&mut store, FILE_DESCRIPTOR_STDOUT)),
        Instruction::Mov(Register::Eax, Value::new(&mut store, SYSCALL_WRITE)),
        Instruction::Int(Interrupt::Syscall),
        Instruction::Mov(Register::Ebx, Value::new(&mut store, EXIT_CODE_SUCCESS)),
        Instruction::Mov(Register::Eax, Value::new(&mut store, SYSCALL_EXIT)),
        Instruction::Int(Interrupt::Syscall),
    ];
    let (elf, machine_code) = resolve(&program, &mut store, &data_pointer, data.len()).unwrap();
    let image = binary_image(&elf, &machine_code, data.as_bytes());

    let code_offset: usize = 176;
    let data_offset: usize = elf.program_headers[1].segment_offset as usize;
    assert_eq!(data_offset, 212);
    assert_eq!(image.len(), 224);
    assert_eq!(&image[..code_offset], &elf.to_bytes()[..]);
    assert_eq!(&image[code_offset..code_offset + machine_code.len()], &machine_code[..]);
    assert_eq!(&image[210..212], &[0, 0]);
    assert_eq!(&image[data_offset..], b"Hello World\n");
}

#[test]
fn image_without_data_ends_with_the_code() {
    let elf = build_elf(3, 0);
    let image = binary_image(&elf, &[0xcd, 0x80, 0x90], &[]);
    assert_eq!(image.len(), 179);
    assert_eq!(&image[..176], &elf.to_bytes()[..]);
    assert_eq!(&image[176..], &[0xcd, 0x80, 0x90]);
}

#[test]
fn image_without_code_holds_the_data_behind_the_header() {
    let elf = build_elf(0, 2);
    let image = binary_image(&elf, &[], &[0xaa, 0xbb]);
    assert_eq!(image.len(), 178);
    assert_eq!(&image[..176], &elf.to_bytes()[..]);
    assert_eq!(&image[176..], &[0xaa, 0xbb]);
}

#[test]
fn image_pads_between_code_and_data_with_zeros() {
    let elf = build_elf(1, 1);
    let image = binary_image(&elf, &[0x90], &[0x41]);
    assert_eq!(image.len(), 181);
    assert_eq!(&image[176..], &[0x90, 0, 0, 0, 0x41]);
}

#[test]
fn image_of_header_alone_is_the_header() {
    let elf = build_elf(0, 0);
    let image = binary_image(&elf, &[], &[]);
    assert_eq!(image, elf.to_bytes());
}

#[test]
fn data_is_written_last_at_the_offset_in_the_header() {
    let mut elf = build_elf(4, 2);
    elf.program_headers[1].segment_offset = 178;
    let image = binary_image(&elf, &[1, 2, 3, 4], &[0xaa, 0xbb]);
    assert_eq!(image.len(), 180);
    assert_eq!(&image[176..], &[1, 2, 0xaa, 0xbb]);
}
