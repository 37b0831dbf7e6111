//! The header of an ELF object file.

use vstd::prelude::*;
use vstd::slice::slice_subrange;

verus! {

/// The word size of an ELF file.
#[derive(Copy, Clone, Debug, PartialEq, Eq, Structural)]
pub enum ElfClass {
    Class32,
    Class64,
}

impl ElfClass {
    /// The number of bytes of an address or file offset.
    pub open spec fn width_of(self) -> nat {
        match self {
            ElfClass::Class32 => 4,
            ElfClass::Class64 => 8,
        }
    }

    /// The number of bytes of an address or file offset.
    pub fn width(&self) -> (r: usize)
        ensures
            r == self.width_of(),
    {
        match self {
            ElfClass::Class32 => 4,
            ElfClass::Class64 => 8,
        }
    }
}

/// The byte order of the numbers in an ELF file.
#[derive(Copy, Clone, Debug, PartialEq, Eq, Structural)]
pub enum ElfByteOrder {
    /// Least significant byte first.
    Lsb,
    /// Most significant byte first.
    Msb,
}

/// The 16 identification bytes that begin an ELF file, and what they say.
#[derive(Debug, Copy, Clone, PartialEq, Eq)]
pub struct ElfHeaderIdent {
    pub actual: [u8; 16],
    pub class: ElfClass,
    pub byte_order: ElfByteOrder,
}

/// The fields of an ELF file header. Addresses and offsets are widened to 64
/// bits.
#[derive(Debug, Copy, Clone, PartialEq, Eq)]
pub struct ElfHeader {
    pub ident: ElfHeaderIdent,
    pub object_type: u16,
    pub machine: u16,
    pub version: u32,
    pub entry: u64,
    pub program_header_offset: u64,
    pub section_header_offset: u64,
    pub flags: u32,
    pub elf_header_size: u16,
    pub program_header_entry_size: u16,
    pub program_header_entries: u16,
    pub section_header_entry_size: u16,
    pub section_header_entries: u16,
    pub section_header_index_for_string_table: u16,
}

/// The number that `bytes` stand for with the least significant byte first.
pub open spec fn le_value(bytes: Seq<u8>) -> nat
    decreases bytes.len(),
{
    if bytes.len() == 0 {
        0
    } else {
        bytes[0] as nat + 256 * le_value(bytes.drop_first())
    }
}

/// The number that `bytes` stand for with the most significant byte first.
pub open spec fn be_value(bytes: Seq<u8>) -> nat
    decreases bytes.len(),
{
    if bytes.len() == 0 {
        0
    } else {
        be_value(bytes.drop_last()) * 256 + bytes.last() as nat
    }
}

/// The number that the `len` bytes of `input` from place `at` on stand for.
pub open spec fn field(order: ElfByteOrder, input: Seq<u8>, at: int, len: int) -> nat {
    match order {
        ElfByteOrder::Lsb => le_value(input.subrange(at, at + len)),
        ElfByteOrder::Msb => be_value(input.subrange(at, at + len)),
    }
}

/// The four bytes that begin every ELF file.
pub open spec fn elf_magic() -> Seq<u8> {
    seq![0x7Fu8, 0x45u8, 0x4Cu8, 0x46u8]
}

/// The word size that the identification byte `b` names.
pub open spec fn class_of(b: u8) -> Option<ElfClass> {
    if b == 1 {
        Some(ElfClass::Class32)
    } else if b == 2 {
        Some(ElfClass::Class64)
    } else {
        None
    }
}

/// The byte order that the identification byte `b` names.
pub open spec fn order_of(b: u8) -> Option<ElfByteOrder> {
    if b == 1 {
        Some(ElfByteOrder::Lsb)
    } else if b == 2 {
        Some(ElfByteOrder::Msb)
    } else {
        None
    }
}

/// The number of bytes of a whole header for the word size `class`.
pub open spec fn header_len(class: ElfClass) -> nat {
    40 + 3 * class.width_of()
}

/// `input` begins with a whole ELF header: at least 24 bytes, the magic
/// number, a known word size and byte order, and as many bytes as the header
/// of that word size has.
pub open spec fn is_elf(input: Seq<u8>) -> bool {
    &&& input.len() >= 24
    &&& input.subrange(0, 4) == elf_magic()
    &&& class_of(input[4]) is Some
    &&& order_of(input[5]) is Some
    &&& input.len() >= header_len(class_of(input[4])->0)
}

/// `h` holds what the header at the beginning of `input` says.
pub open spec fn describes(h: ElfHeader, input: Seq<u8>) -> bool {
    let w = h.ident.class.width_of() as int;
    let o = h.ident.byte_order;
    &&& h.ident.actual@ == input.subrange(0, 16)
    &&& Some(h.ident.class) == class_of(input[4])
    &&& Some(o) == order_of(input[5])
    &&& h.object_type == field(o, input, 16, 2)
    &&& h.machine == field(o, input, 18, 2)
    &&& h.version == field(o, input, 20, 4)
    &&& h.entry == field(o, input, 24, w)
    &&& h.program_header_offset == field(o, input, 24 + w, w)
    &&& h.section_header_offset == field(o, input, 24 + 2 * w, w)
    &&& h.flags == field(o, input, 24 + 3 * w, 4)
    &&& h.elf_header_size == field(o, input, 28 + 3 * w, 2)
    &&& h.program_header_entry_size == field(o, input, 30 + 3 * w, 2)
    &&& h.program_header_entries == field(o, input, 32 + 3 * w, 2)
    &&& h.section_header_entry_size == field(o, input, 34 + 3 * w, 2)
    &&& h.section_header_entries == field(o, input, 36 + 3 * w, 2)
    &&& h.section_header_index_for_string_table == field(o, input, 38 + 3 * w, 2)
}

/// A number of two, four or up to eight bytes fits in 16, 32 or 64 bits.
pub proof fn lemma_le_value_bound(bytes: Seq<u8>)
    requires
        bytes.len() <= 8,
    ensures
        bytes.len() == 2 ==> le_value(bytes) < 0x1_0000,
        bytes.len() == 4 ==> le_value(bytes) < 0x1_0000_0000,
        le_value(bytes) <= u64::MAX,
{
    reveal_with_fuel(le_value, 10);
}

/// A number of two, four or up to eight bytes fits in 16, 32 or 64 bits.
pub proof fn lemma_be_value_bound(bytes: Seq<u8>)
    requires
        bytes.len() <= 8,
    ensures
        bytes.len() == 2 ==> be_value(bytes) < 0x1_0000,
        bytes.len() == 4 ==> be_value(bytes) < 0x1_0000_0000,
        be_value(bytes) <= u64::MAX,
{
    reveal_with_fuel(be_value, 10);
}

/// `byteorder::LittleEndian::read_uint`: the number that the first `nbytes`
/// bytes of `buf` stand for, least significant byte first. `byteorder` panics
/// on another `nbytes` than 1 to 8 and on a shorter `buf`.
#[verifier::external_body]
fn read_uint_le(buf: &[u8], nbytes: usize) -> (v: u64)
    requires
        1 <= nbytes <= 8,
        nbytes <= buf.len(),
    ensures
        v == le_value(buf@.subrange(0, nbytes as int)),
{
    <byteorder::LittleEndian as byteorder::ByteOrder>::read_uint(buf, nbytes)
}

/// `byteorder::BigEndian::read_uint`: the number that the first `nbytes` bytes
/// of `buf` stand for, most significant byte first. `byteorder` panics on
/// another `nbytes` than 1 to 8 and on a shorter `buf`.
#[verifier::external_body]
fn read_uint_be(buf: &[u8], nbytes: usize) -> (v: u64)
    requires
        1 <= nbytes <= 8,
        nbytes <= buf.len(),
    ensures
        v == be_value(buf@.subrange(0, nbytes as int)),
{
    <byteorder::BigEndian as byteorder::ByteOrder>::read_uint(buf, nbytes)
}

impl ElfByteOrder {
    /// The number that the `len` bytes of `input` from place `at` on stand for.
    pub fn read(self, input: &[u8], at: usize, len: usize) -> (v: u64)
        requires
            1 <= len <= 8,
            at + len <= input.len(),
        ensures
            v == field(self, input@, at as int, len as int),
            len == 2 ==> v < 0x1_0000,
            len == 4 ==> v < 0x1_0000_0000,
    {
        let part = slice_subrange(input, at, at + len);
        proof {
            assert(part@.subrange(0, len as int) =~= input@.subrange(at as int, at + len));
            lemma_le_value_bound(input@.subrange(at as int, at + len));
            lemma_be_value_bound(input@.subrange(at as int, at + len));
        }
        match self {
            ElfByteOrder::Lsb => read_uint_le(part, len),
            ElfByteOrder::Msb => read_uint_be(part, len),
        }
    }
}

/// The type of the entry at place `i` of the program header table `table` of
/// a file with the header `h`.
pub open spec fn segment_type(h: ElfHeader, table: Seq<u8>, i: int) -> nat {
    field(h.ident.byte_order, table, i * h.program_header_entry_size, 4)
}

impl ElfHeader {
    /// Whether the program header table `table` of the file names a program
    /// interpreter: whether one of its entries is of the type 3. The table
    /// begins at `program_header_offset` in the file and holds
    /// `program_header_entries` entries of `program_header_entry_size` bytes.
    pub fn quick_find_interpreter(&self, table: &[u8]) -> (r: bool)
        requires
            self.program_header_entry_size >= 4,
            table@.len() >= self.program_header_entries * self.program_header_entry_size,
        ensures
            r == exists|i: int|
                0 <= i < self.program_header_entries && #[trigger] segment_type(*self, table@, i)
                    == 3,
    {
        let size = self.program_header_entry_size as usize;
        let count = self.program_header_entries as usize;
        let mut i: usize = 0;
        while i < count
            invariant
                i <= count,
                count == self.program_header_entries,
                size == self.program_header_entry_size,
                size >= 4,
                table@.len() >= count * size,
                forall|k: int| 0 <= k < i ==> #[trigger] segment_type(*self, table@, k) != 3,
            decreases count - i,
        {
            assert(i * size + size <= count * size) by (nonlinear_arith)
                requires
                    i < count,
            ;
            assert(count * size <= 0xffff * 0xffff) by (nonlinear_arith)
                requires
                    count <= 0xffff,
                    size <= 0xffff,
            ;
            let kind = self.ident.byte_order.read(table, i * size, 4);
            if kind == 3 {
                assert(segment_type(*self, table@, i as int) == 3);
                return true;
            }
            i += 1;
        }
        false
    }

    /// Whether the file is a shared object.
    pub fn is_shared_object(&self) -> (r: bool)
        ensures
            r == (self.object_type == 3),
    {
        self.object_type == 3
    }

    /// Whether the file is an executable.
    pub fn is_executable(&self) -> (r: bool)
        ensures
            r == (self.object_type == 2),
    {
        self.object_type == 2
    }

    /// The header that `input`, the first bytes of a file, begins with. A file
    /// that is no ELF file, or of which too little was read, has none.
    pub fn parse(input: &[u8]) -> (r: Option<ElfHeader>)
        ensures
            r is Some <==> is_elf(input@),
            r matches Some(h) ==> describes(h, input@),
    {
        if input.len() < 24 {
            return None;
        }
        if input[0] != 0x7F || input[1] != 0x45 || input[2] != 0x4C || input[3] != 0x46 {
            assert(input@.subrange(0, 4)[0] == input@[0]);
            assert(input@.subrange(0, 4)[1] == input@[1]);
            assert(input@.subrange(0, 4)[2] == input@[2]);
            assert(input@.subrange(0, 4)[3] == input@[3]);
            return None;
        }
        assert(input@.subrange(0, 4) =~= elf_magic());
        let class = if input[4] == 1 {
            ElfClass::Class32
        } else if input[4] == 2 {
            ElfClass::Class64
        } else {
            return None;
        };
        let order = if input[5] == 1 {
            ElfByteOrder::Lsb
        } else if input[5] == 2 {
            ElfByteOrder::Msb
        } else {
            return None;
        };
        let w: usize = class.width();
        if input.len() < 40 + w * 3 {
            return None;
        }
        let mut actual = [0u8;16];
        let mut i: usize = 0;
        while i < 16
            invariant
                i <= 16,
                input.len() >= 24,
                forall|j: int| 0 <= j < i ==> actual@[j] == input@[j],
            decreases 16 - i,
        {
            actual[i] = input[i];
            i += 1;
        }
        assert(actual@ =~= input@.subrange(0, 16));
        let header = ElfHeader {
            ident: ElfHeaderIdent { actual, class, byte_order: order },
            object_type: order.read(input, 16, 2) as u16,
            machine: order.read(input, 18, 2) as u16,
            version: order.read(input, 20, 4) as u32,
            entry: order.read(input, 24, w),
            program_header_offset: order.read(input, 24 + w, w),
            section_header_offset: order.read(input, 24 + 2 * w, w),
            flags: order.read(input, 24 + 3 * w, 4) as u32,
            elf_header_size: order.read(input, 28 + 3 * w, 2) as u16,
            program_header_entry_size: order.read(input, 30 + 3 * w, 2) as u16,
            program_header_entries: order.read(input, 32 + 3 * w, 2) as u16,
            section_header_entry_size: order.read(input, 34 + 3 * w, 2) as u16,
            section_header_entries: order.read(input, 36 + 3 * w, 2) as u16,
            section_header_index_for_string_table: order.read(input, 38 + 3 * w, 2) as u16,
        };
        Some(header)
    }
}

} // verus!
