//! Resolving the data pointer.
//!
//! A program that prints its data has to load the data's virtual address into a
//! register. That address follows the machine code, so it is known only once the length
//! of the code is known, and the code contains the address. Because the length of an
//! instruction never depends on the contents of a cell, two encodings settle it: one
//! to measure the code, one to produce it with the address filled in.

use crate::assembly::{
    assemble, encode, encoded_length, lemma_encoded_length, lemma_instruction_bytes, offset_of,
    well_formed, Instruction, Instructions, Value, ValueStore, MOVE_LENGTH,
};
use crate::bytes::{le_bytes, lemma_le_bytes_len};
use crate::elf::{build_elf, data_is_addressable, data_virtual_address, layout, Elf};
use vstd::prelude::*;

verus! {

/// Lays out the image of `assembly` with `data_length` bytes of data, stores the virtual
/// address of the data in the cell `data_pointer`, and encodes the program with it.
///
/// Returns the image and the machine code. The address has to fit the 32-bit immediate
/// of a move: where it does not, nothing is written to the cell and `None` is returned.
pub fn resolve(
    assembly: &Instructions,
    store: &mut ValueStore,
    data_pointer: &Value,
    data_length: usize,
) -> (resolved: Option<(Elf, Vec<u8>)>)
    requires
        well_formed(assembly@, old(store)@),
        old(store).holds(*data_pointer),
    ensures
        match resolved {
            Some((elf, machine_code)) => {
                &&& data_virtual_address(encoded_length(assembly@)) <= u32::MAX
                &&& elf == layout(encoded_length(assembly@), data_length as nat)
                &&& final(store)@ == old(store)@.update(
                    data_pointer@ as int,
                    data_virtual_address(encoded_length(assembly@)) as u32,
                )
                &&& machine_code@ == encode(assembly@, final(store)@)
                &&& machine_code@.len() == encoded_length(assembly@)
            },
            None => {
                &&& data_virtual_address(encoded_length(assembly@)) > u32::MAX
                &&& final(store)@ == old(store)@
            },
        },
{
    let first_pass: Vec<u8> = assemble(assembly, store);
    let code_length: usize = first_pass.len();
    proof {
        lemma_encoded_length(assembly@, store@);
    }
    if !data_is_addressable(code_length) {
        return None;
    }
    let elf: Elf = build_elf(code_length, data_length);
    *data_pointer.borrow_mut(store) = elf.data_segment_virtual_address() as u32;
    let machine_code: Vec<u8> = assemble(assembly, store);
    proof {
        lemma_encoded_length(assembly@, store@);
    }
    Some((elf, machine_code))
}

/// Once the data pointer holds the virtual address of the data, every move that reads
/// it carries that address as its immediate, and the machine code is as long as it was
/// before the address was known.
pub proof fn lemma_resolved_immediate(
    program: Seq<Instruction>,
    cells: Seq<u32>,
    data_pointer: Value,
    index: int,
)
    requires
        0 <= index < program.len(),
        program[index] matches Instruction::Mov(_, value) && value@ == data_pointer@,
        data_pointer@ < cells.len(),
        data_virtual_address(encoded_length(program)) <= u32::MAX,
    ensures
        ({
            let address = data_virtual_address(encode(program, cells).len());
            let resolved = cells.update(data_pointer@ as int, address as u32);
            let start = offset_of(program, index) as int;
            &&& encode(program, resolved).len() == encode(program, cells).len()
            &&& start + MOVE_LENGTH <= encode(program, resolved).len()
            &&& encode(program, resolved).subrange(start + 1, start + MOVE_LENGTH) == le_bytes(
                address,
                4,
            )
        }),
{
    let address = data_virtual_address(encoded_length(program));
    let resolved = cells.update(data_pointer@ as int, address as u32);
    let start = offset_of(program, index) as int;
    lemma_encoded_length(program, cells);
    lemma_encoded_length(program, resolved);
    lemma_instruction_bytes(program, resolved, index);
    lemma_le_bytes_len(address, 4);
    let whole = encode(program, resolved).subrange(start, start + MOVE_LENGTH);
    assert(encode(program, resolved).subrange(start + 1, start + MOVE_LENGTH) =~= whole.subrange(
        1,
        MOVE_LENGTH as int,
    ));
    assert(whole.subrange(1, MOVE_LENGTH as int) =~= le_bytes(address, 4));
}

} // verus!
