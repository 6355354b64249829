//! The contents of the executable file: the header record at the start, the machine
//! code behind it, the data behind the code.

use crate::elf::{align, code_offset, data_offset, layout, lemma_align_up, Elf, HEADER_SIZE};
use vstd::prelude::*;

verus! {

/// The contents of a file that held `file` after `bytes` has been written at `offset`.
///
/// The bytes land at `offset`, over what was there. Where `offset` lies behind the end
/// of the file, the gap reads as zeros. Writing nothing leaves the file as it was.
pub open spec fn written_at(file: Seq<u8>, offset: nat, bytes: Seq<u8>) -> Seq<u8> {
    if bytes.len() == 0 {
        file
    } else {
        Seq::new(
            if file.len() > offset + bytes.len() {
                file.len()
            } else {
                offset + bytes.len()
            },
            |position: int|
                if offset <= position < offset + bytes.len() {
                    bytes[position - offset]
                } else if position < file.len() {
                    file[position]
                } else {
                    0u8
                },
        )
    }
}

/// Writes `bytes` into `file` at `offset`, as a write following a seek does to a file
/// on disk.
pub fn write_at(file: &mut Vec<u8>, offset: usize, bytes: &[u8])
    requires
        offset + bytes@.len() <= usize::MAX,
    ensures
        final(file)@ == written_at(old(file)@, offset as nat, bytes@),
{
    if bytes.len() == 0 {
        return;
    }
    while file.len() < offset
        invariant
            old(file)@.len() <= file@.len(),
            file@.len() <= offset || file@.len() == old(file)@.len(),
            forall|position: int|
                0 <= position < file@.len() ==> file@[position] == if position < old(file)@.len() {
                    old(file)@[position]
                } else {
                    0u8
                },
        decreases offset - file.len(),
    {
        file.push(0);
    }
    let mut copied: usize = 0;
    while copied < bytes.len()
        invariant
            copied <= bytes.len(),
            offset + bytes@.len() <= usize::MAX,
            offset + copied <= file@.len(),
            file@.len() == old(file)@.len() || (old(file)@.len() < file@.len() && file@.len()
                <= offset + copied),
            forall|position: int|
                0 <= position < file@.len() ==> file@[position] == if offset <= position < offset
                    + copied {
                    bytes@[position - offset]
                } else if position < old(file)@.len() {
                    old(file)@[position]
                } else {
                    0u8
                },
        decreases bytes.len() - copied,
    {
        let position: usize = offset + copied;
        if position < file.len() {
            file.set(position, bytes[copied]);
        } else {
            file.push(bytes[copied]);
        }
        copied = copied + 1;
    }
    assert(file@ =~= written_at(old(file)@, offset as nat, bytes@));
}

/// The contents of the executable file for the header record `elf`, the machine code
/// and the data: the header record is written at the start of an empty file, the
/// machine code at [`code_offset`], and the data at the file offset of the second
/// segment.
pub open spec fn file_image(elf: Elf, machine_code: Seq<u8>, data: Seq<u8>) -> Seq<u8> {
    written_at(
        written_at(written_at(Seq::empty(), 0, elf.bytes()), code_offset(), machine_code),
        elf.program_headers[1].segment_offset as nat,
        data,
    )
}

/// In the file, the data reads back byte for byte from the offset it was written at.
/// So do the header record and the machine code, provided the data starts behind the
/// end of the machine code; what lies between code and data is then zero.
pub proof fn lemma_file_image(elf: Elf, machine_code: Seq<u8>, data: Seq<u8>)
    ensures
        ({
            let image = file_image(elf, machine_code, data);
            let code_end = code_offset() + machine_code.len();
            let data_start = elf.program_headers[1].segment_offset as int;
            &&& code_end <= image.len()
            &&& data.len() > 0 ==> {
                &&& image.len() >= data_start + data.len()
                &&& image.subrange(data_start, data_start + data.len()) == data
            }
            &&& data.len() == 0 || code_end <= data_start ==> {
                &&& image.len() == if data.len() == 0 {
                    code_end as int
                } else {
                    data_start + data.len()
                }
                &&& image.subrange(0, HEADER_SIZE as int) == elf.bytes()
                &&& image.subrange(code_offset() as int, code_end as int) == machine_code
                &&& forall|position: int|
                    code_end <= position < image.len() && position < data_start
                        ==> image[position] == 0
            }
        }),
{
    let image = file_image(elf, machine_code, data);
    let code_end = code_offset() + machine_code.len();
    let data_start = elf.program_headers[1].segment_offset as int;
    elf.lemma_bytes_len();
    lemma_align_up(HEADER_SIZE as nat, 8);
    assert(written_at(Seq::empty(), 0, elf.bytes()) =~= elf.bytes());
    if data.len() > 0 {
        assert(image.subrange(data_start, data_start + data.len()) =~= data);
    }
    if data.len() == 0 || code_end <= data_start {
        assert(image.subrange(0, HEADER_SIZE as int) =~= elf.bytes());
        assert(image.subrange(code_offset() as int, code_end as int) =~= machine_code);
    }
}

/// The file written for a program holds its machine code, byte for byte, at
/// [`code_offset`], and its data, untouched, at the data offset of its layout.
pub proof fn lemma_written_artifact(machine_code: Seq<u8>, data: Seq<u8>)
    requires
        data_offset(machine_code.len()) <= u64::MAX,
    ensures
        ({
            let image = file_image(layout(machine_code.len(), data.len()), machine_code, data);
            let data_start = data_offset(machine_code.len()) as int;
            &&& image.subrange(
                code_offset() as int,
                (code_offset() + machine_code.len()) as int,
            ) == machine_code
            &&& data.len() > 0 ==> image.subrange(data_start, data_start + data.len()) == data
        }),
{
    lemma_align_up(code_offset() + machine_code.len(), 4);
    lemma_file_image(layout(machine_code.len(), data.len()), machine_code, data);
}

/// Composes the contents of the executable file from the header record, the machine
/// code and the data.
pub fn binary_image(elf: &Elf, machine_code: &[u8], data: &[u8]) -> (image: Vec<u8>)
    requires
        code_offset() + machine_code@.len() <= usize::MAX,
        elf.program_headers[1].segment_offset + data@.len() <= usize::MAX,
    ensures
        image@ == file_image(*elf, machine_code@, data@),
        data@.len() > 0 ==> image@.subrange(
            elf.program_headers[1].segment_offset as int,
            elf.program_headers[1].segment_offset + data@.len(),
        ) == data@,
        data@.len() == 0 || code_offset() + machine_code@.len()
            <= elf.program_headers[1].segment_offset ==> {
            &&& image@.subrange(0, HEADER_SIZE as int) == elf.bytes()
            &&& image@.subrange(
                code_offset() as int,
                (code_offset() + machine_code@.len()) as int,
            ) == machine_code@
        },
{
    proof {
        lemma_align_up(HEADER_SIZE as nat, 8);
        lemma_file_image(*elf, machine_code@, data@);
    }
    let mut image: Vec<u8> = Vec::new();
    let header: Vec<u8> = elf.to_bytes();
    write_at(&mut image, 0, header.as_slice());
    let code_offset: usize = align(HEADER_SIZE, 8);
    write_at(&mut image, code_offset, machine_code);
    write_at(&mut image, elf.program_headers[1].segment_offset as usize, data);
    image
}

} // verus!
