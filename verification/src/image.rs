//! Checking that an addon image is an x86_64 UEFI application.

use vstd::prelude::*;
use crate::error::Error;

verus! {

/// The little-endian 16-bit number at `at` in `data`.
pub open spec fn le16(data: Seq<u8>, at: int) -> int {
    data[at] + 256 * data[at + 1]
}

/// The little-endian 32-bit number at `at` in `data`.
pub open spec fn le32(data: Seq<u8>, at: int) -> int {
    data[at] + 256 * data[at + 1] + 65536 * data[at + 2] + 16777216 * data[at + 3]
}

/// Where the PE header starts: the 32-bit number at `0x3c`.
pub open spec fn pe_offset(data: Seq<u8>) -> int {
    le32(data, 0x3c)
}

/// The PE signature, `PE\0\0`.
pub open spec fn pe_signature() -> Seq<u8> {
    seq![0x50u8, 0x45u8, 0u8, 0u8]
}

/// The machine type of x86_64 images.
pub const MACHINE_X86_64: u32 = 0x8664;

/// The optional header magic of PE32+ images.
pub const MAGIC_PE32_PLUS: u32 = 0x20b;

/// The subsystem of UEFI applications.
pub const SUBSYSTEM_EFI_APPLICATION: u32 = 10;

/// What the validation of `data` gives.
pub open spec fn image_check(data: Seq<u8>) -> Result<(), Error> {
    if data.len() < 128 || data[0] != 0x4du8 || data[1] != 0x5au8 {
        Err(Error::NotPe)
    } else if pe_offset(data) > data.len() - 94 || data.subrange(
        pe_offset(data),
        pe_offset(data) + 4,
    ) != pe_signature() {
        Err(Error::InvalidPeHeader)
    } else if le16(data, pe_offset(data) + 4) != MACHINE_X86_64 || le16(data, pe_offset(data) + 24)
        != MAGIC_PE32_PLUS || le16(data, pe_offset(data) + 92) != SUBSYSTEM_EFI_APPLICATION {
        Err(Error::WrongImageKind)
    } else {
        Ok(())
    }
}

/// The byte offset of the PE header, read byte by byte from `0x3c`.
pub open spec fn header_at(data: Seq<u8>) -> int {
    data[0x3c] as int + 256 * data[0x3d] as int + 65536 * data[0x3e] as int + 16777216
        * data[0x3f] as int
}

/// An image is accepted exactly when it starts with `MZ`, is at least 128
/// bytes long, and holds at the offset read from `0x3c` the bytes `PE\0\0`,
/// the machine bytes `64 86` (x86_64), the magic bytes `0b 02` (PE32+) 24
/// bytes on and the subsystem bytes `0a 00` (UEFI application) 92 bytes on,
/// all inside the image.
pub proof fn lemma_accepted_images(data: Seq<u8>)
    ensures
        image_check(data) is Ok <==> {
            &&& data.len() >= 128
            &&& data[0] == 0x4du8 && data[1] == 0x5au8
            &&& header_at(data) + 94 <= data.len()
            &&& data[header_at(data)] == 0x50u8 && data[header_at(data) + 1] == 0x45u8
            &&& data[header_at(data) + 2] == 0u8 && data[header_at(data) + 3] == 0u8
            &&& data[header_at(data) + 4] == 0x64u8 && data[header_at(data) + 5] == 0x86u8
            &&& data[header_at(data) + 24] == 0x0bu8 && data[header_at(data) + 25] == 0x02u8
            &&& data[header_at(data) + 92] == 0x0au8 && data[header_at(data) + 93] == 0u8
        },
{
    if data.len() >= 128 {
        let at = header_at(data);
        assert(at == pe_offset(data));
        if at + 94 <= data.len() {
            let sig = data.subrange(at, at + 4);
            assert(sig == pe_signature() <==> (sig[0] == 0x50u8 && sig[1] == 0x45u8 && sig[2]
                == 0u8 && sig[3] == 0u8)) by {
                if sig[0] == 0x50u8 && sig[1] == 0x45u8 && sig[2] == 0u8 && sig[3] == 0u8 {
                    assert(sig =~= pe_signature());
                }
            }
            assert(sig[0] == data[at] && sig[1] == data[at + 1] && sig[2] == data[at + 2] && sig[3]
                == data[at + 3]);
        }
    }
}

/// An image that is accepted is an x86_64 image: its machine field holds
/// `0x8664`, whatever the rest of it holds.
pub proof fn lemma_accepted_images_are_x86_64(data: Seq<u8>)
    requires
        image_check(data) is Ok,
    ensures
        data[pe_offset(data) + 4] == 0x64u8,
        data[pe_offset(data) + 5] == 0x86u8,
{
    lemma_accepted_images(data);
    assert(header_at(data) == pe_offset(data));
}

fn read_le16(data: &[u8], at: usize) -> (value: u32)
    requires
        at + 1 < data.len(),
    ensures
        value == le16(data@, at as int),
{
    data[at] as u32 + 256 * data[at + 1] as u32
}

/// Checks that `data` is a PE32+ image for x86_64 with the UEFI application
/// subsystem: at least 128 bytes starting with `MZ`, a PE header whose
/// offset (at `0x3c`) leaves room for the fields read, the `PE\0\0`
/// signature there, machine `0x8664`, magic `0x20b` and subsystem 10.
pub fn validate_image(data: &[u8]) -> (result: Result<(), Error>)
    ensures
        result == image_check(data@),
{
    if data.len() < 128 || data[0] != 0x4d || data[1] != 0x5a {
        return Err(Error::NotPe);
    }
    let offset: u64 = data[0x3c] as u64 + 256 * data[0x3d] as u64 + 65536 * data[0x3e] as u64
        + 16777216 * data[0x3f] as u64;
    assert(offset == pe_offset(data@));
    if offset > (data.len() - 94) as u64 {
        return Err(Error::InvalidPeHeader);
    }
    let at = offset as usize;
    if data[at] != 0x50 || data[at + 1] != 0x45 || data[at + 2] != 0 || data[at + 3] != 0 {
        proof {
            let found = data@.subrange(at as int, at + 4);
            assert(found[0] == data@[at as int] && found[1] == data@[at + 1] && found[2]
                == data@[at + 2] && found[3] == data@[at + 3]);
            assert(found != pe_signature()) by {
                if found == pe_signature() {
                    assert(found[0] == pe_signature()[0]);
                    assert(found[1] == pe_signature()[1]);
                    assert(found[2] == pe_signature()[2]);
                    assert(found[3] == pe_signature()[3]);
                }
            }
        }
        return Err(Error::InvalidPeHeader);
    }
    assert(data@.subrange(at as int, at + 4) =~= pe_signature());
    if read_le16(data, at + 4) != MACHINE_X86_64 || read_le16(data, at + 24) != MAGIC_PE32_PLUS
        || read_le16(data, at + 92) != SUBSYSTEM_EFI_APPLICATION {
        return Err(Error::WrongImageKind);
    }
    Ok(())
}

} // verus!
