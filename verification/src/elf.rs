//! The executable image: its header, its two loadable segments, and where the machine
//! code and the data land in the file and in memory.

use crate::bytes::{le_bytes, lemma_le_bytes_len, push_bytes, push_le};
use vstd::arithmetic::div_mod::{lemma_fundamental_div_mod, lemma_mod_multiples_basic};
use vstd::prelude::*;

verus! {

/// The four bytes every image starts with.
pub const ELF_MAGIC_NUMBER: [u8; 4] = [0x7f, 0x45, 0x4c, 0x46];

/// The virtual address at which the first segment, header and code, is mapped.
pub const LOAD_BASE: u64 = 0x400000;

/// The virtual address that the data segment's file offset is added to.
pub const DATA_BASE: u64 = 0x6000000;

/// The alignment of both segments: one large page.
pub const SEGMENT_ALIGNMENT: u64 = 0x200000;

/// The size in bytes of the file header proper.
pub const FILE_HEADER_SIZE: u16 = 0x40;

/// The size in bytes of one segment descriptor.
pub const PROGRAM_HEADER_SIZE: u16 = 0x38;

/// The size in bytes of the header record: the file header and its two segment
/// descriptors.
pub const HEADER_SIZE: usize = 176;

/// The longest machine code whose data still gets a virtual address below `2^32`, so
/// that a move can load it.
pub const MAX_CODE_LENGTH: usize = 0xf9ff_ff4c;

/// The type of a segment that is loaded into memory.
pub const SEGMENT_LOADABLE: u32 = 1;

/// The permissions of the code segment: read and execute.
pub const SEGMENT_READ_EXECUTE: u32 = 5;

/// The permissions of the data segment: read and write.
pub const SEGMENT_READ_WRITE: u32 = 6;

/// The word size that the image is for.
#[derive(Copy, Clone, Debug, PartialEq, Eq, Structural)]
pub enum Architecture {
    X86,
    X64,
}

impl Architecture {
    /// The byte that stands for the word size in the header.
    pub open spec fn spec_code(self) -> u8 {
        match self {
            Architecture::X86 => 1,
            Architecture::X64 => 2,
        }
    }

    /// Computes [`Self::spec_code`].
    #[verifier::when_used_as_spec(spec_code)]
    pub fn code(self) -> (byte: u8)
        ensures
            byte == self.spec_code(),
    {
        match self {
            Architecture::X86 => 1,
            Architecture::X64 => 2,
        }
    }
}

/// The byte order that the image is for.
#[derive(Copy, Clone, Debug, PartialEq, Eq, Structural)]
pub enum Endianness {
    Little,
    Big,
}

impl Endianness {
    /// The byte that stands for the byte order in the header.
    pub open spec fn spec_code(self) -> u8 {
        match self {
            Endianness::Little => 1,
            Endianness::Big => 2,
        }
    }

    /// Computes [`Self::spec_code`].
    #[verifier::when_used_as_spec(spec_code)]
    pub fn code(self) -> (byte: u8)
        ensures
            byte == self.spec_code(),
    {
        match self {
            Endianness::Little => 1,
            Endianness::Big => 2,
        }
    }
}

/// The operating system interface that the image is for.
#[derive(Copy, Clone, Debug, PartialEq, Eq, Structural)]
pub enum OsAbi {
    SystemV,
    HpUx,
    NetBsd,
    Linux,
    GnuHurd,
    Solaris,
    Aix,
    Irix,
    FreeBsd,
    Tru64,
    NovellModesto,
    OpenBsd,
    OpenVms,
    NonStopKernel,
    Aros,
    FenixOs,
    CloudAbi,
    StratusTechnologiesOpenVos,
}

impl OsAbi {
    /// The byte that stands for the interface in the header.
    pub open spec fn spec_code(self) -> u8 {
        match self {
            OsAbi::SystemV => 0x00,
            OsAbi::HpUx => 0x01,
            OsAbi::NetBsd => 0x02,
            OsAbi::Linux => 0x03,
            OsAbi::GnuHurd => 0x04,
            OsAbi::Solaris => 0x06,
            OsAbi::Aix => 0x07,
            OsAbi::Irix => 0x08,
            OsAbi::FreeBsd => 0x09,
            OsAbi::Tru64 => 0x0A,
            OsAbi::NovellModesto => 0x0B,
            OsAbi::OpenBsd => 0x0C,
            OsAbi::OpenVms => 0x0D,
            OsAbi::NonStopKernel => 0x0E,
            OsAbi::Aros => 0x0F,
            OsAbi::FenixOs => 0x10,
            OsAbi::CloudAbi => 0x11,
            OsAbi::StratusTechnologiesOpenVos => 0x12,
        }
    }

    /// Computes [`Self::spec_code`].
    #[verifier::when_used_as_spec(spec_code)]
    pub fn code(self) -> (byte: u8)
        ensures
            byte == self.spec_code(),
    {
        match self {
            OsAbi::SystemV => 0x00,
            OsAbi::HpUx => 0x01,
            OsAbi::NetBsd => 0x02,
            OsAbi::Linux => 0x03,
            OsAbi::GnuHurd => 0x04,
            OsAbi::Solaris => 0x06,
            OsAbi::Aix => 0x07,
            OsAbi::Irix => 0x08,
            OsAbi::FreeBsd => 0x09,
            OsAbi::Tru64 => 0x0A,
            OsAbi::NovellModesto => 0x0B,
            OsAbi::OpenBsd => 0x0C,
            OsAbi::OpenVms => 0x0D,
            OsAbi::NonStopKernel => 0x0E,
            OsAbi::Aros => 0x0F,
            OsAbi::FenixOs => 0x10,
            OsAbi::CloudAbi => 0x11,
            OsAbi::StratusTechnologiesOpenVos => 0x12,
        }
    }
}

/// The kind of object file.
#[derive(Copy, Clone, Debug, PartialEq, Eq, Structural)]
pub enum ObjectFileType {
    EtNone,
    EtRel,
    EtExec,
    EtDyn,
    EtCore,
    EtLoos,
    EtHios,
    EtLoproc,
    EtHiproc,
}

impl ObjectFileType {
    /// The number that stands for the kind in the header.
    pub open spec fn spec_code(self) -> u16 {
        match self {
            ObjectFileType::EtNone => 0x00,
            ObjectFileType::EtRel => 0x01,
            ObjectFileType::EtExec => 0x02,
            ObjectFileType::EtDyn => 0x03,
            ObjectFileType::EtCore => 0x04,
            ObjectFileType::EtLoos => 0xFE00,
            ObjectFileType::EtHios => 0xFEFF,
            ObjectFileType::EtLoproc => 0xFF00,
            ObjectFileType::EtHiproc => 0xFFFF,
        }
    }

    /// Computes [`Self::spec_code`].
    #[verifier::when_used_as_spec(spec_code)]
    pub fn code(self) -> (number: u16)
        ensures
            number == self.spec_code(),
    {
        match self {
            ObjectFileType::EtNone => 0x00,
            ObjectFileType::EtRel => 0x01,
            ObjectFileType::EtExec => 0x02,
            ObjectFileType::EtDyn => 0x03,
            ObjectFileType::EtCore => 0x04,
            ObjectFileType::EtLoos => 0xFE00,
            ObjectFileType::EtHios => 0xFEFF,
            ObjectFileType::EtLoproc => 0xFF00,
            ObjectFileType::EtHiproc => 0xFFFF,
        }
    }
}

/// The machine that the code is for.
#[derive(Copy, Clone, Debug, PartialEq, Eq, Structural)]
pub enum InstructionSetArchitecture {
    AmdX64,
}

impl InstructionSetArchitecture {
    /// The number that stands for the machine in the header.
    pub open spec fn spec_code(self) -> u16 {
        match self {
            InstructionSetArchitecture::AmdX64 => 0x3E,
        }
    }

    /// Computes [`Self::spec_code`].
    #[verifier::when_used_as_spec(spec_code)]
    pub fn code(self) -> (number: u16)
        ensures
            number == self.spec_code(),
    {
        match self {
            InstructionSetArchitecture::AmdX64 => 0x3E,
        }
    }
}

/// The header record of an image: the file header, then its two segment descriptors.
/// The fields stand in the order in which they are written to the file.
#[derive(Debug)]
pub struct Elf {
    // e_ident[EI_MAG0] through e_ident[EI_MAG3]
    pub magic_number: [u8; 4],
    // e_ident[EI_CLASS]
    pub architecture: Architecture,
    // e_ident[EI_DATA]
    pub endianness: Endianness,
    // e_ident[EI_VERSION]
    pub elf_version: u8,
    // e_ident[EI_OSABI]
    pub os_abi: OsAbi,
    // e_ident[EI_ABIVERSION]
    pub abi_version: u8,
    // e_ident[EI_PAD]
    pub unused: [u8; 7],
    // e_type
    pub file_type: ObjectFileType,
    // e_machine
    pub machine: InstructionSetArchitecture,
    // e_version
    pub version: u32,
    // e_entry
    pub entry_point: u64,
    // e_phoff
    pub header_offset: u64,
    // e_shoff
    pub section_header_offset: u64,
    // e_flags
    pub flags: u32,
    // e_ehsize
    pub header_size: u16,
    // e_phentsize
    pub program_header_table_entry_size: u16,
    // e_phnum
    pub program_header_table_entries: u16,
    // e_shentsize
    pub section_header_table_entry_size: u16,
    // e_shnum
    pub section_header_table_entries: u16,
    // e_shstrndx
    pub section_name_index: u16,
    pub program_headers: [ProgramHeader; 2],
}

/// A segment descriptor: one contiguous part of the file and where it is mapped.
#[derive(Debug)]
pub struct ProgramHeader {
    // p_type
    pub segment_type: u32,
    // p_flags
    pub segment_flags: u32,
    // p_offset
    pub segment_offset: u64,
    // p_vaddr
    pub virtual_address: u64,
    // p_paddr
    pub physical_address: u64,
    // p_filesz
    pub segment_size_in_file: u64,
    // p_memsz
    pub segment_size_in_memory: u64,
    // p_align
    pub alignment: u64,
}

/// The smallest multiple of `to` that is not below `n`.
pub open spec fn align_up(n: nat, to: nat) -> nat
    recommends
        to > 0,
{
    if n % to == 0 {
        n
    } else {
        (n + to - n % to) as nat
    }
}

/// `align_up(n, to)` is a multiple of `to` and lies in `n .. n + to`. A multiple of `to`
/// is aligned to itself.
pub proof fn lemma_align_up(n: nat, to: nat)
    requires
        to > 0,
    ensures
        align_up(n, to) % to == 0,
        n <= align_up(n, to) < n + to,
        n % to == 0 ==> align_up(n, to) == n,
{
    let step = to as int;
    let quotient = if n % to == 0 {
        n as int / step
    } else {
        n as int / step + 1
    };
    lemma_fundamental_div_mod(n as int, step);
    assert(align_up(n, to) == quotient * step) by (nonlinear_arith)
        requires
            n == step * (n as int / step) + (n as int % step),
            align_up(n, to) == if n as int % step == 0 {
                n as int
            } else {
                n + step - n as int % step
            },
            quotient == if n as int % step == 0 {
                n as int / step
            } else {
                n as int / step + 1
            },
    ;
    lemma_mod_multiples_basic(quotient, step);
}

/// No multiple of `to` lies between `n` and `align_up(n, to)`.
pub proof fn lemma_align_up_is_smallest(n: nat, to: nat, multiple: nat)
    requires
        to > 0,
        multiple % to == 0,
        n <= multiple,
    ensures
        align_up(n, to) <= multiple,
{
    let step = to as int;
    let aligned = align_up(n, to) as int;
    lemma_align_up(n, to);
    if multiple < aligned {
        lemma_fundamental_div_mod(multiple as int, step);
        lemma_fundamental_div_mod(aligned, step);
        assert(aligned - multiple >= step) by (nonlinear_arith)
            requires
                step > 0,
                multiple < aligned,
                multiple == step * (multiple as int / step),
                aligned == step * (aligned / step),
        ;
    }
}

/// Rounds `number` up to a multiple of `align_to`.
pub fn align(number: usize, align_to: usize) -> (aligned: usize)
    requires
        align_to > 0,
        align_up(number as nat, align_to as nat) <= usize::MAX,
    ensures
        aligned == align_up(number as nat, align_to as nat),
        aligned % align_to == 0,
        number <= aligned < number + align_to,
{
    proof {
        lemma_align_up(number as nat, align_to as nat);
    }
    let remainder: usize = number % align_to;
    if remainder == 0 {
        number
    } else {
        number + (align_to - remainder)
    }
}

/// The file offset of the machine code: the end of the header record, rounded up to a
/// multiple of eight.
pub open spec fn code_offset() -> nat {
    align_up(HEADER_SIZE as nat, 8)
}

/// The file offset of the data after `code_length` bytes of machine code: the end of
/// the code, rounded up to a multiple of four.
pub open spec fn data_offset(code_length: nat) -> nat {
    align_up(code_offset() + code_length, 4)
}

/// The virtual address of the data after `code_length` bytes of machine code.
pub open spec fn data_virtual_address(code_length: nat) -> nat {
    DATA_BASE as nat + data_offset(code_length)
}

/// The image of a program with `code_length` bytes of machine code and `data_length`
/// bytes of data.
///
/// The first segment maps the header record and the code, readable and executable, at
/// [`LOAD_BASE`]; execution starts at the first byte of the code. The second segment
/// maps the data, readable and writable, at [`data_virtual_address`]. There is no
/// section table.
pub open spec fn layout(code_length: nat, data_length: nat) -> Elf {
    Elf {
        magic_number: ELF_MAGIC_NUMBER,
        architecture: Architecture::X64,
        endianness: Endianness::Little,
        elf_version: 1,
        os_abi: OsAbi::SystemV,
        abi_version: 0,
        unused: [0u8, 0u8, 0u8, 0u8, 0u8, 0u8, 0u8],
        file_type: ObjectFileType::EtExec,
        machine: InstructionSetArchitecture::AmdX64,
        version: 1,
        entry_point: (LOAD_BASE + code_offset()) as u64,
        header_offset: FILE_HEADER_SIZE as u64,
        section_header_offset: 0,
        flags: 0,
        header_size: FILE_HEADER_SIZE,
        program_header_table_entry_size: PROGRAM_HEADER_SIZE,
        program_header_table_entries: 2,
        section_header_table_entry_size: 0,
        section_header_table_entries: 0,
        section_name_index: 0,
        program_headers: [
            ProgramHeader {
                segment_type: SEGMENT_LOADABLE,
                segment_flags: SEGMENT_READ_EXECUTE,
                segment_offset: 0,
                virtual_address: LOAD_BASE,
                physical_address: LOAD_BASE,
                segment_size_in_file: (code_offset() + code_length) as u64,
                segment_size_in_memory: (code_offset() + code_length) as u64,
                alignment: SEGMENT_ALIGNMENT,
            },
            ProgramHeader {
                segment_type: SEGMENT_LOADABLE,
                segment_flags: SEGMENT_READ_WRITE,
                segment_offset: data_offset(code_length) as u64,
                virtual_address: data_virtual_address(code_length) as u64,
                physical_address: data_virtual_address(code_length) as u64,
                segment_size_in_file: data_length as u64,
                segment_size_in_memory: data_length as u64,
                alignment: SEGMENT_ALIGNMENT,
            },
        ],
    }
}

impl ProgramHeader {
    /// Whether the segment is loadable, is mapped at the same physical and virtual
    /// address, and asks for no memory beyond what the file holds.
    pub open spec fn wf(&self) -> bool {
        &&& self.segment_type == SEGMENT_LOADABLE
        &&& self.physical_address == self.virtual_address
        &&& self.segment_size_in_file == self.segment_size_in_memory
        &&& self.alignment == SEGMENT_ALIGNMENT
    }
}

impl Elf {
    /// Whether the file header describes the record it stands in, and both segments
    /// are well formed: the two segment descriptors follow the file header at once,
    /// there is no section table, and the first segment starts at the beginning of
    /// the file.
    pub open spec fn wf(&self) -> bool {
        &&& self.magic_number == ELF_MAGIC_NUMBER
        &&& self.header_size == FILE_HEADER_SIZE
        &&& self.header_offset == FILE_HEADER_SIZE
        &&& self.program_header_table_entry_size == PROGRAM_HEADER_SIZE
        &&& self.program_header_table_entries == 2
        &&& self.section_header_offset == 0
        &&& self.section_header_table_entry_size == 0
        &&& self.section_header_table_entries == 0
        &&& self.section_name_index == 0
        &&& self.program_headers[0].wf()
        &&& self.program_headers[1].wf()
        &&& self.program_headers[0].segment_offset == 0
    }

    /// The virtual address at which the data is mapped.
    pub fn data_segment_virtual_address(&self) -> (address: u64)
        ensures
            address == self.program_headers[1].virtual_address,
    {
        self.program_headers[1].virtual_address
    }
}

impl ProgramHeader {
    /// The descriptor as it stands in the file: its fields in order, each in its own
    /// width, least significant byte first.
    pub open spec fn bytes(&self) -> Seq<u8> {
        le_bytes(self.segment_type as nat, 4) + le_bytes(self.segment_flags as nat, 4) + le_bytes(
            self.segment_offset as nat,
            8,
        ) + le_bytes(self.virtual_address as nat, 8) + le_bytes(self.physical_address as nat, 8)
            + le_bytes(self.segment_size_in_file as nat, 8) + le_bytes(
            self.segment_size_in_memory as nat,
            8,
        ) + le_bytes(self.alignment as nat, 8)
    }

    /// A descriptor occupies [`PROGRAM_HEADER_SIZE`] bytes.
    pub proof fn lemma_bytes_len(&self)
        ensures
            self.bytes().len() == PROGRAM_HEADER_SIZE,
    {
        lemma_le_bytes_len(self.segment_type as nat, 4);
        lemma_le_bytes_len(self.segment_flags as nat, 4);
        lemma_le_bytes_len(self.segment_offset as nat, 8);
        lemma_le_bytes_len(self.virtual_address as nat, 8);
        lemma_le_bytes_len(self.physical_address as nat, 8);
        lemma_le_bytes_len(self.segment_size_in_file as nat, 8);
        lemma_le_bytes_len(self.segment_size_in_memory as nat, 8);
        lemma_le_bytes_len(self.alignment as nat, 8);
    }

    /// Appends the descriptor to `out` as it stands in the file.
    pub fn write_to(&self, out: &mut Vec<u8>)
        ensures
            final(out)@ == old(out)@ + self.bytes(),
    {
        push_le(out, self.segment_type as u64, 4);
        push_le(out, self.segment_flags as u64, 4);
        push_le(out, self.segment_offset, 8);
        push_le(out, self.virtual_address, 8);
        push_le(out, self.physical_address, 8);
        push_le(out, self.segment_size_in_file, 8);
        push_le(out, self.segment_size_in_memory, 8);
        push_le(out, self.alignment, 8);
        assert(out@ =~= old(out)@ + self.bytes());
    }
}

impl Elf {
    /// The identification at the start of the file header, sixteen bytes: the magic
    /// number, word size, byte order, format version, interface, interface version,
    /// and padding.
    pub open spec fn identification(&self) -> Seq<u8> {
        self.magic_number@ + seq![
            self.architecture.code(),
            self.endianness.code(),
            self.elf_version,
            self.os_abi.code(),
            self.abi_version,
        ] + self.unused@
    }

    /// The file header after the identification: its fields in order, each in its own
    /// width, least significant byte first.
    pub open spec fn fields(&self) -> Seq<u8> {
        le_bytes(self.file_type.code() as nat, 2) + le_bytes(self.machine.code() as nat, 2)
            + le_bytes(self.version as nat, 4) + le_bytes(self.entry_point as nat, 8) + le_bytes(
            self.header_offset as nat,
            8,
        ) + le_bytes(self.section_header_offset as nat, 8) + le_bytes(self.flags as nat, 4)
            + le_bytes(self.header_size as nat, 2) + le_bytes(
            self.program_header_table_entry_size as nat,
            2,
        ) + le_bytes(self.program_header_table_entries as nat, 2) + le_bytes(
            self.section_header_table_entry_size as nat,
            2,
        ) + le_bytes(self.section_header_table_entries as nat, 2) + le_bytes(
            self.section_name_index as nat,
            2,
        )
    }

    /// The header record as it stands at the start of the file: the identification,
    /// the other fields of the file header, then the two segment descriptors, with
    /// nothing in between.
    pub open spec fn bytes(&self) -> Seq<u8> {
        self.identification() + self.fields() + self.program_headers[0].bytes()
            + self.program_headers[1].bytes()
    }

    /// The header record occupies [`HEADER_SIZE`] bytes, of which the file header takes
    /// the first [`FILE_HEADER_SIZE`].
    pub proof fn lemma_bytes_len(&self)
        ensures
            self.identification().len() == 16,
            self.identification().len() + self.fields().len() == FILE_HEADER_SIZE,
            self.bytes().len() == HEADER_SIZE,
    {
        lemma_le_bytes_len(self.file_type.code() as nat, 2);
        lemma_le_bytes_len(self.machine.code() as nat, 2);
        lemma_le_bytes_len(self.version as nat, 4);
        lemma_le_bytes_len(self.entry_point as nat, 8);
        lemma_le_bytes_len(self.header_offset as nat, 8);
        lemma_le_bytes_len(self.section_header_offset as nat, 8);
        lemma_le_bytes_len(self.flags as nat, 4);
        lemma_le_bytes_len(self.header_size as nat, 2);
        lemma_le_bytes_len(self.program_header_table_entry_size as nat, 2);
        lemma_le_bytes_len(self.program_header_table_entries as nat, 2);
        lemma_le_bytes_len(self.section_header_table_entry_size as nat, 2);
        lemma_le_bytes_len(self.section_header_table_entries as nat, 2);
        lemma_le_bytes_len(self.section_name_index as nat, 2);
        self.program_headers[0].lemma_bytes_len();
        self.program_headers[1].lemma_bytes_len();
    }

    /// Serializes the header record, field by field.
    pub fn to_bytes(&self) -> (bytes: Vec<u8>)
        ensures
            bytes@ == self.bytes(),
            bytes@.len() == HEADER_SIZE,
    {
        let mut out: Vec<u8> = Vec::new();
        push_bytes(&mut out, self.magic_number.as_slice());
        out.push(self.architecture.code());
        out.push(self.endianness.code());
        out.push(self.elf_version);
        out.push(self.os_abi.code());
        out.push(self.abi_version);
        push_bytes(&mut out, self.unused.as_slice());
        assert(out@ =~= self.identification());
        push_le(&mut out, self.file_type.code() as u64, 2);
        push_le(&mut out, self.machine.code() as u64, 2);
        push_le(&mut out, self.version as u64, 4);
        push_le(&mut out, self.entry_point, 8);
        push_le(&mut out, self.header_offset, 8);
        push_le(&mut out, self.section_header_offset, 8);
        push_le(&mut out, self.flags as u64, 4);
        push_le(&mut out, self.header_size as u64, 2);
        push_le(&mut out, self.program_header_table_entry_size as u64, 2);
        push_le(&mut out, self.program_header_table_entries as u64, 2);
        push_le(&mut out, self.section_header_table_entry_size as u64, 2);
        push_le(&mut out, self.section_header_table_entries as u64, 2);
        push_le(&mut out, self.section_name_index as u64, 2);
        assert(out@ =~= self.identification() + self.fields());
        self.program_headers[0].write_to(&mut out);
        self.program_headers[1].write_to(&mut out);
        proof {
            self.lemma_bytes_len();
        }
        out
    }
}

/// Every image that [`layout`] describes is well formed: in particular both of its
/// segments are as large in memory as they are in the file.
pub proof fn lemma_layout_wf(code_length: nat, data_length: nat)
    ensures
        layout(code_length, data_length).wf(),
        layout(code_length, data_length).program_headers[0].segment_size_in_file == layout(
            code_length,
            data_length,
        ).program_headers[0].segment_size_in_memory,
        layout(code_length, data_length).program_headers[1].segment_size_in_file == layout(
            code_length,
            data_length,
        ).program_headers[1].segment_size_in_memory,
{
}

/// Tells whether the data of a program with `code_length` bytes of machine code gets a
/// virtual address that fits the 32-bit immediate of a move.
pub fn data_is_addressable(code_length: usize) -> (addressable: bool)
    ensures
        addressable == (data_virtual_address(code_length as nat) <= u32::MAX),
        addressable == (code_length <= MAX_CODE_LENGTH),
{
    proof {
        lemma_align_up(HEADER_SIZE as nat, 8);
        lemma_align_up(code_offset() + code_length as nat, 4);
        if code_length <= MAX_CODE_LENGTH {
            lemma_align_up_is_smallest(
                code_offset() + code_length as nat,
                4,
                (code_offset() + MAX_CODE_LENGTH) as nat,
            );
        }
    }
    code_length <= MAX_CODE_LENGTH
}

/// Lays out the image of a program with `code_length` bytes of machine code and
/// `data_length` bytes of data.
pub fn build_elf(code_length: usize, data_length: usize) -> (elf: Elf)
    requires
        data_offset(code_length as nat) <= usize::MAX,
        data_virtual_address(code_length as nat) <= u64::MAX,
    ensures
        elf == layout(code_length as nat, data_length as nat),
        elf.wf(),
        elf.program_headers[0].segment_size_in_file == elf.program_headers[0].segment_size_in_memory,
        elf.program_headers[1].segment_size_in_file == elf.program_headers[1].segment_size_in_memory,
        elf.program_headers[1].segment_offset == data_offset(code_length as nat),
        elf.program_headers[1].virtual_address == data_virtual_address(code_length as nat),
{
    proof {
        lemma_align_up(HEADER_SIZE as nat, 8);
        lemma_align_up(code_offset() + code_length as nat, 4);
    }
    let code_offset: usize = align(HEADER_SIZE, 8);
    let header_and_code_segment_length: usize = code_offset + code_length;
    let data_offset: u64 = align(code_offset + code_length, 4) as u64;
    let virtual_data_offset: u64 = DATA_BASE + data_offset;

    Elf {
        magic_number: ELF_MAGIC_NUMBER,
        architecture: Architecture::X64,
        endianness: Endianness::Little,
        elf_version: 1,
        os_abi: OsAbi::SystemV,
        abi_version: 0,
        unused: [0u8, 0u8, 0u8, 0u8, 0u8, 0u8, 0u8],
        file_type: ObjectFileType::EtExec,
        machine: InstructionSetArchitecture::AmdX64,
        version: 1,
        entry_point: LOAD_BASE + code_offset as u64,
        header_offset: FILE_HEADER_SIZE as u64,
        section_header_offset: 0,
        flags: 0,
        header_size: FILE_HEADER_SIZE,
        program_header_table_entry_size: PROGRAM_HEADER_SIZE,
        program_header_table_entries: 2,
        section_header_table_entry_size: 0,
        section_header_table_entries: 0,
        section_name_index: 0,
        program_headers: [
            ProgramHeader {
                segment_type: SEGMENT_LOADABLE,
                segment_flags: SEGMENT_READ_EXECUTE,
                segment_offset: 0,
                virtual_address: LOAD_BASE,
                physical_address: LOAD_BASE,
                segment_size_in_file: header_and_code_segment_length as u64,
                segment_size_in_memory: header_and_code_segment_length as u64,
                alignment: SEGMENT_ALIGNMENT,
            },
            ProgramHeader {
                segment_type: SEGMENT_LOADABLE,
                segment_flags: SEGMENT_READ_WRITE,
                segment_offset: data_offset,
                virtual_address: virtual_data_offset,
                physical_address: virtual_data_offset,
                segment_size_in_file: data_length as u64,
                segment_size_in_memory: data_length as u64,
                alignment: SEGMENT_ALIGNMENT,
            },
        ],
    }
}

} // verus!
