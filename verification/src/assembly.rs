//! The instruction model and its encoder.
//!
//! A program is a sequence of [`Instruction`]s. The immediate operand of a move is not
//! stored in the instruction itself: it lives in a cell of a [`ValueStore`] and the
//! instruction carries a [`Value`], a handle to that cell. Several instructions may carry
//! the same handle, and a cell may be rewritten between two encodings of the same program.

use crate::bytes::{le_bytes, lemma_le_bytes_len, push_le};
use vstd::prelude::*;

verus! {

/// A general-purpose register that a move can target.
#[derive(Debug, Clone, Copy, PartialEq, Eq, Structural)]
pub enum Register {
    Eax,
    Ebx,
    Ecx,
    Edx,
}

/// An interrupt that a trap can raise.
#[derive(Debug, Clone, Copy, PartialEq, Eq, Structural)]
pub enum Interrupt {
    Syscall,
}

pub const SYSCALL_WRITE: u32 = 4;

pub const SYSCALL_EXIT: u32 = 1;

pub const FILE_DESCRIPTOR_STDOUT: u32 = 1;

pub const EXIT_CODE_SUCCESS: u32 = 0;

/// The opcode byte that introduces a trap.
pub const TRAP_OPCODE: u8 = 0xcd;

/// The number of bytes a move occupies: one opcode byte and a 32-bit immediate.
pub const MOVE_LENGTH: usize = 5;

/// The number of bytes a trap occupies: one opcode byte and the interrupt vector.
pub const TRAP_LENGTH: usize = 2;

impl Register {
    /// The opcode of "move a 32-bit immediate into this register".
    pub open spec fn spec_opcode(self) -> u8 {
        match self {
            Register::Eax => 0xb8,
            Register::Ebx => 0xbb,
            Register::Ecx => 0xb9,
            Register::Edx => 0xba,
        }
    }

    /// Computes [`Self::spec_opcode`].
    #[verifier::when_used_as_spec(spec_opcode)]
    pub fn opcode(self) -> (byte: u8)
        ensures
            byte == self.spec_opcode(),
    {
        match self {
            Register::Eax => 0xb8,
            Register::Ebx => 0xbb,
            Register::Ecx => 0xb9,
            Register::Edx => 0xba,
        }
    }
}

impl Interrupt {
    /// The interrupt's vector number.
    pub open spec fn spec_vector(self) -> u8 {
        match self {
            Interrupt::Syscall => 0x80,
        }
    }

    /// Computes [`Self::spec_vector`].
    #[verifier::when_used_as_spec(spec_vector)]
    pub fn vector(self) -> (byte: u8)
        ensures
            byte == self.spec_vector(),
    {
        match self {
            Interrupt::Syscall => 0x80,
        }
    }
}

/// The cells that hold the immediate operands of a program, in order of creation.
pub struct ValueStore {
    cells: Vec<u32>,
}

impl View for ValueStore {
    type V = Seq<u32>;

    /// The contents of the cells, indexed by slot.
    closed spec fn view(&self) -> Seq<u32> {
        self.cells@
    }
}

/// A handle to one cell of a [`ValueStore`]. Copies of a handle name the same cell.
#[derive(Debug, Clone, Copy)]
pub struct Value {
    slot: usize,
}

impl View for Value {
    type V = nat;

    /// The slot of the cell that the handle names.
    closed spec fn view(&self) -> nat {
        self.slot as nat
    }
}

impl ValueStore {
    /// A store without cells.
    pub fn new() -> (store: ValueStore)
        ensures
            store@ == Seq::<u32>::empty(),
    {
        ValueStore { cells: Vec::new() }
    }

    /// Whether `value` names a cell of this store.
    pub open spec fn holds(&self, value: Value) -> bool {
        value@ < self@.len()
    }

    /// Tells whether `value` names a cell of this store.
    pub fn contains(&self, value: &Value) -> (found: bool)
        ensures
            found == self.holds(*value),
    {
        value.slot < self.cells.len()
    }
}

impl Value {
    /// Creates a cell that holds `value` and returns the handle to it.
    /// The cells that were there before keep their slots and contents.
    pub fn new(store: &mut ValueStore, value: u32) -> (handle: Value)
        ensures
            handle@ == old(store)@.len(),
            final(store)@ == old(store)@.push(value),
    {
        let slot: usize = store.cells.len();
        store.cells.push(value);
        Value { slot }
    }

    /// Reads the cell.
    pub fn borrow<'a>(&self, store: &'a ValueStore) -> (contents: &'a u32)
        requires
            store.holds(*self),
        ensures
            *contents == store@[self@ as int],
    {
        &store.cells[self.slot]
    }

    /// Gives write access to the cell. Whatever is written through the returned
    /// reference becomes the cell's contents; no other cell changes.
    pub fn borrow_mut<'a>(&self, store: &'a mut ValueStore) -> (contents: &'a mut u32)
        requires
            old(store).holds(*self),
        ensures
            *contents == old(store)@[self@ as int],
            final(store)@ == old(store)@.update(self@ as int, *final(contents)),
    {
        &mut store.cells[self.slot]
    }
}

/// One machine instruction.
#[derive(Debug, Clone, Copy)]
pub enum Instruction {
    /// Load the current contents of a cell into a register.
    Mov(Register, Value),
    /// Raise an interrupt.
    Int(Interrupt),
}

pub type Instructions = Vec<Instruction>;

/// Whether every cell that `program` refers to exists in a store with contents `cells`.
pub open spec fn well_formed(program: Seq<Instruction>, cells: Seq<u32>) -> bool {
    forall|index: int|
        0 <= index < program.len() ==> match #[trigger] program[index] {
            Instruction::Mov(_, value) => value@ < cells.len(),
            Instruction::Int(_) => true,
        }
}

/// The bytes of one instruction when the cells hold `cells`.
///
/// A move is its register's opcode followed by the cell's contents as four little-endian
/// bytes; a trap is the trap opcode followed by the interrupt's vector.
pub open spec fn encode_instruction(instruction: Instruction, cells: Seq<u32>) -> Seq<u8> {
    match instruction {
        Instruction::Mov(register, value) => seq![register.opcode()] + le_bytes(
            cells[value@ as int] as nat,
            4,
        ),
        Instruction::Int(interrupt) => seq![TRAP_OPCODE, interrupt.vector()],
    }
}

/// [`encode_instruction`] with the cell contents fixed.
pub open spec fn encoder(cells: Seq<u32>) -> spec_fn(Instruction) -> Seq<u8> {
    |instruction: Instruction| encode_instruction(instruction, cells)
}

/// The machine code of `program` when the cells hold `cells`: the bytes of its
/// instructions, one after the other, in program order.
pub open spec fn encode(program: Seq<Instruction>, cells: Seq<u32>) -> Seq<u8> {
    program.flat_map(encoder(cells))
}

/// Tells whether every cell that `assembly` refers to exists in `store`.
pub fn is_well_formed(assembly: &Instructions, store: &ValueStore) -> (valid: bool)
    ensures
        valid == well_formed(assembly@, store@),
{
    let mut index: usize = 0;
    while index < assembly.len()
        invariant
            index <= assembly.len(),
            well_formed(assembly@.take(index as int), store@),
        decreases assembly.len() - index,
    {
        match assembly[index] {
            Instruction::Mov(_, value) => {
                if !store.contains(&value) {
                    return false;
                }
            },
            Instruction::Int(_) => {},
        }
        index = index + 1;
    }
    assert(assembly@.take(index as int) =~= assembly@);
    true
}

/// Encodes `assembly` with the current contents of the cells in `store`.
pub fn assemble(assembly: &Instructions, store: &ValueStore) -> (code: Vec<u8>)
    requires
        well_formed(assembly@, store@),
    ensures
        code@ == encode(assembly@, store@),
{
    let mut code: Vec<u8> = Vec::new();
    let mut index: usize = 0;
    assert(assembly@.take(0).map_values(encoder(store@)) =~= Seq::<Seq<u8>>::empty());
    while index < assembly.len()
        invariant
            index <= assembly.len(),
            well_formed(assembly@, store@),
            code@ == encode(assembly@.take(index as int), store@),
        decreases assembly.len() - index,
    {
        proof {
            assembly@.lemma_flat_map_take_append(encoder(store@), index as int);
        }
        match assembly[index] {
            Instruction::Mov(register, value) => {
                code.push(register.opcode());
                push_le(&mut code, *value.borrow(store) as u64, 4);
            },
            Instruction::Int(interrupt) => {
                code.push(TRAP_OPCODE);
                code.push(interrupt.vector());
            },
        }
        assert(code@ =~= encode(assembly@.take(index as int), store@) + encode_instruction(
            assembly@[index as int],
            store@,
        ));
        index = index + 1;
    }
    assert(assembly@.take(index as int) =~= assembly@);
    code
}

/// The number of bytes that `instruction` occupies. It depends on the kind of the
/// instruction only, never on the contents of a cell.
pub open spec fn instruction_length(instruction: Instruction) -> nat {
    match instruction {
        Instruction::Mov(_, _) => MOVE_LENGTH as nat,
        Instruction::Int(_) => TRAP_LENGTH as nat,
    }
}

/// The offset in the machine code at which the instruction at `index` starts: the
/// total length of the instructions before it.
pub open spec fn offset_of(program: Seq<Instruction>, index: int) -> nat
    decreases index,
{
    if index <= 0 {
        0
    } else {
        offset_of(program, index - 1) + instruction_length(program[index - 1])
    }
}

/// The length of the machine code of `program`.
pub open spec fn encoded_length(program: Seq<Instruction>) -> nat {
    offset_of(program, program.len() as int)
}

/// A move is encoded in exactly five bytes: the opcode of its register, then the current
/// contents of its cell, least significant byte first.
pub proof fn lemma_encode_move(register: Register, value: Value, cells: Seq<u32>)
    ensures
        encode(seq![Instruction::Mov(register, value)], cells).len() == 5,
        encode(seq![Instruction::Mov(register, value)], cells)[0] == register.opcode(),
        encode(seq![Instruction::Mov(register, value)], cells).subrange(1, 5) == le_bytes(
            cells[value@ as int] as nat,
            4,
        ),
{
    let program = seq![Instruction::Mov(register, value)];
    let immediate = le_bytes(cells[value@ as int] as nat, 4);
    program.lemma_flat_map_singleton(encoder(cells));
    lemma_le_bytes_len(cells[value@ as int] as nat, 4);
    assert(encode(program, cells) == seq![register.opcode()] + immediate);
    assert(encode(program, cells).subrange(1, 5) =~= immediate);
}

/// A trap is encoded in exactly two bytes: the trap opcode, then the interrupt's vector.
pub proof fn lemma_encode_trap(interrupt: Interrupt, cells: Seq<u32>)
    ensures
        encode(seq![Instruction::Int(interrupt)], cells) == seq![TRAP_OPCODE, interrupt.vector()],
{
    seq![Instruction::Int(interrupt)].lemma_flat_map_singleton(encoder(cells));
}

/// The machine code of the first `count` instructions is the first `offset_of(program,
/// count)` bytes of the machine code of the whole program.
pub proof fn lemma_encode_prefix(program: Seq<Instruction>, cells: Seq<u32>, count: int)
    requires
        0 <= count <= program.len(),
    ensures
        offset_of(program, count) <= encode(program, cells).len(),
        encode(program.take(count), cells) == encode(program, cells).take(
            offset_of(program, count) as int,
        ),
    decreases program.len() - count,
{
    if count == program.len() {
        assert(program.take(count) =~= program);
        lemma_encoded_length(program, cells);
        assert(encode(program, cells).take(offset_of(program, count) as int) =~= encode(
            program,
            cells,
        ));
    } else {
        lemma_encode_prefix(program, cells, count + 1);
        program.lemma_flat_map_take_append(encoder(cells), count);
        lemma_instruction_length(program[count], cells);
        assert(encode(program.take(count), cells) =~= encode(program.take(count + 1), cells).take(
            offset_of(program, count) as int,
        )) by {
            lemma_encoded_length(program.take(count), cells);
            lemma_offset_of_prefix(program, count, count);
        }
        assert(encode(program, cells).take(offset_of(program, count + 1) as int).take(
            offset_of(program, count) as int,
        ) =~= encode(program, cells).take(offset_of(program, count) as int));
    }
}

/// An instruction is encoded in as many bytes as its kind asks for.
pub proof fn lemma_instruction_length(instruction: Instruction, cells: Seq<u32>)
    ensures
        encode_instruction(instruction, cells).len() == instruction_length(instruction),
{
    match instruction {
        Instruction::Mov(_, value) => {
            lemma_le_bytes_len(cells[value@ as int] as nat, 4);
        },
        Instruction::Int(_) => {},
    }
}

/// Offsets within a prefix of a program are the offsets within the program.
pub proof fn lemma_offset_of_prefix(program: Seq<Instruction>, count: int, index: int)
    requires
        0 <= index <= count <= program.len(),
    ensures
        offset_of(program.take(count), index) == offset_of(program, index),
    decreases index,
{
    if index > 0 {
        lemma_offset_of_prefix(program, count, index - 1);
    }
}

/// The machine code of a program is as long as its instructions are together, whatever
/// the cells hold.
pub proof fn lemma_encoded_length(program: Seq<Instruction>, cells: Seq<u32>)
    ensures
        encode(program, cells).len() == encoded_length(program),
    decreases program.len(),
{
    if program.len() == 0 {
        assert(program.map_values(encoder(cells)) =~= Seq::<Seq<u8>>::empty());
    } else {
        let last = program.len() - 1;
        lemma_encoded_length(program.take(last), cells);
        lemma_offset_of_prefix(program, last, last);
        program.lemma_flat_map_take_append(encoder(cells), last);
        lemma_instruction_length(program[last], cells);
        assert(program.take(last + 1) =~= program);
    }
}

/// The bytes of the instruction at `index` stand at its offset in the machine code:
/// no instruction is moved, merged with a neighbour, or left out.
pub proof fn lemma_instruction_bytes(program: Seq<Instruction>, cells: Seq<u32>, index: int)
    requires
        0 <= index < program.len(),
    ensures
        offset_of(program, index + 1) <= encode(program, cells).len(),
        encode(program, cells).subrange(
            offset_of(program, index) as int,
            offset_of(program, index + 1) as int,
        ) == encode_instruction(program[index], cells),
{
    let code = encode(program, cells);
    let start = offset_of(program, index) as int;
    let end = offset_of(program, index + 1) as int;
    lemma_encode_prefix(program, cells, index);
    lemma_encode_prefix(program, cells, index + 1);
    program.lemma_flat_map_take_append(encoder(cells), index);
    lemma_instruction_length(program[index], cells);
    assert(code.take(end) == code.take(start) + encode_instruction(program[index], cells));
    assert(code.subrange(start, end) =~= code.take(end).subrange(start, end));
    assert(code.subrange(start, end) =~= encode_instruction(program[index], cells));
}

/// Whether `position` is a byte of the immediate of a move at `index` whose cell holds
/// one value in `before` and another in `after`.
pub open spec fn rewritten_immediate(
    program: Seq<Instruction>,
    before: Seq<u32>,
    after: Seq<u32>,
    index: int,
    position: int,
) -> bool {
    match program[index] {
        Instruction::Mov(_, value) => {
            &&& before[value@ as int] != after[value@ as int]
            &&& offset_of(program, index) + 1 <= position < offset_of(program, index) + MOVE_LENGTH
        },
        Instruction::Int(_) => false,
    }
}

/// Rewriting cells between two encodings of a program never changes the length of the
/// machine code.
pub proof fn lemma_length_ignores_cells(
    program: Seq<Instruction>,
    before: Seq<u32>,
    after: Seq<u32>,
)
    ensures
        encode(program, before).len() == encode(program, after).len(),
{
    lemma_encoded_length(program, before);
    lemma_encoded_length(program, after);
}

/// Rewriting cells between two encodings of a program changes the machine code only
/// inside the immediates of the moves that read a rewritten cell: a byte that differs
/// between the two encodings is one of those.
pub proof fn lemma_cells_change_immediates_only(
    program: Seq<Instruction>,
    before: Seq<u32>,
    after: Seq<u32>,
    position: int,
)
    requires
        0 <= position < encoded_length(program),
        encode(program, before)[position] != encode(program, after)[position],
    ensures
        exists|index: int|
            0 <= index < program.len() && #[trigger] rewritten_immediate(
                program,
                before,
                after,
                index,
                position,
            ),
    decreases program.len(),
{
    if program.len() > 0 {
        let last = program.len() - 1;
        let front = program.take(last);
        let start = offset_of(program, last) as int;
        lemma_encoded_length(program, before);
        lemma_encoded_length(program, after);
        if position < start {
            lemma_encode_prefix(program, before, last);
            lemma_encode_prefix(program, after, last);
            lemma_offset_of_prefix(program, last, last);
            lemma_cells_change_immediates_only(front, before, after, position);
            let index = choose|index: int|
                0 <= index < front.len() && #[trigger] rewritten_immediate(
                    front,
                    before,
                    after,
                    index,
                    position,
                );
            lemma_offset_of_prefix(program, last, index);
            assert(rewritten_immediate(program, before, after, index, position));
        } else {
            lemma_instruction_bytes(program, before, last);
            lemma_instruction_bytes(program, after, last);
            let old_bytes = encode(program, before).subrange(start, offset_of(program, last + 1) as int);
            let new_bytes = encode(program, after).subrange(start, offset_of(program, last + 1) as int);
            assert(old_bytes[position - start] == encode(program, before)[position]);
            assert(new_bytes[position - start] == encode(program, after)[position]);
            assert(rewritten_immediate(program, before, after, last, position));
        }
    }
}

} // verus!
