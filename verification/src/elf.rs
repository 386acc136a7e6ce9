//! Minimal, panic-resistant ELF section reader/writer used to inspect and
//! patch the embedded uruntime. Only handles section headers — enough to find
//! named sections and rewrite their contents in place.
//!
//! The byte layout read here is stated by the spec functions of this module;
//! every executable function is proved against them, and never reads or
//! writes outside the buffer it is given.

use vstd::prelude::*;

use crate::error::Error;
use crate::text::{chars_of, string_of};
use vstd::string::StringSliceAdditionalSpecFns;

verus! {

// ---------------------------------------------------------------------------
// The byte layout
// ---------------------------------------------------------------------------

/// The 16-bit value stored at `off`.
pub open spec fn u16_at(d: Seq<u8>, off: int, le: bool) -> int {
    if le {
        d[off] + d[off + 1] * 256
    } else {
        d[off] * 256 + d[off + 1]
    }
}

/// The 32-bit value stored at `off`.
pub open spec fn u32_at(d: Seq<u8>, off: int, le: bool) -> int {
    if le {
        d[off] + d[off + 1] * 256 + d[off + 2] * 65536 + d[off + 3] * 16777216
    } else {
        d[off] * 16777216 + d[off + 1] * 65536 + d[off + 2] * 256 + d[off + 3]
    }
}

/// The 64-bit value stored at `off`.
pub open spec fn u64_at(d: Seq<u8>, off: int, le: bool) -> int {
    if le {
        u32_at(d, off, true) + u32_at(d, off + 4, true) * 4294967296
    } else {
        u32_at(d, off, false) * 4294967296 + u32_at(d, off + 4, false)
    }
}

/// `n` bytes at `off` lie inside `d`.
pub open spec fn fits(d: Seq<u8>, off: int, n: int) -> bool {
    0 <= off && off + n <= d.len()
}

/// Parsed ELF header fields needed for section lookups.
#[derive(Debug)]
pub struct ElfInfo {
    /// `ELFCLASS64` rather than `ELFCLASS32`.
    pub is_64bit: bool,
    /// Little-endian data encoding.
    pub is_le: bool,
    /// Offset of the section header table.
    pub sh_off: u64,
    /// Size of one section header.
    pub sh_entsize: u64,
    /// Number of section headers.
    pub sh_num: u64,
    /// Index of the section holding section names.
    pub sh_strndx: u64,
}

/// The header `d` starts with, where it has a usable one.
pub open spec fn spec_parse(d: Seq<u8>) -> Option<ElfInfo> {
    if d.len() < 6 || !(d[0] == 0x7f && d[1] == 0x45 && d[2] == 0x4c && d[3] == 0x46) {
        None
    } else {
        let is64 = d[4] == 2;
        let le = d[5] == 1;
        if (is64 && d.len() < 64) || (!is64 && d.len() < 52) {
            None
        } else {
            let off = if is64 { u64_at(d, 40, le) } else { u32_at(d, 32, le) };
            let es = if is64 { u16_at(d, 58, le) } else { u16_at(d, 46, le) };
            let num = if is64 { u16_at(d, 60, le) } else { u16_at(d, 48, le) };
            let strndx = if is64 { u16_at(d, 62, le) } else { u16_at(d, 50, le) };
            if off == 0 || es == 0 || num == 0 || strndx >= num {
                None
            } else {
                Some(
                    ElfInfo {
                        is_64bit: is64,
                        is_le: le,
                        sh_off: off as u64,
                        sh_entsize: es as u64,
                        sh_num: num as u64,
                        sh_strndx: strndx as u64,
                    },
                )
            }
        }
    }
}

/// The byte offset of section header `i`, where it is representable.
pub open spec fn spec_shdr_offset(info: ElfInfo, i: int) -> Option<int> {
    let p = i * info.sh_entsize;
    let o = info.sh_off + p;
    if p <= u64::MAX && o <= u64::MAX && o <= usize::MAX {
        Some(o)
    } else {
        None
    }
}

/// The `sh_offset` and `sh_size` fields of the section header at `h`.
pub open spec fn spec_off_size(info: ElfInfo, d: Seq<u8>, h: int) -> Option<(int, int)> {
    if info.is_64bit {
        if fits(d, h, 40) {
            let o = u64_at(d, h + 24, info.is_le);
            let s = u64_at(d, h + 32, info.is_le);
            if o <= usize::MAX && s <= usize::MAX {
                Some((o, s))
            } else {
                None
            }
        } else {
            None
        }
    } else {
        if fits(d, h, 24) {
            Some((u32_at(d, h + 16, info.is_le), u32_at(d, h + 20, info.is_le)))
        } else {
            None
        }
    }
}

/// The byte range `[o, o + s)` of section `idx`, where it lies inside `d`.
pub open spec fn spec_section_range(info: ElfInfo, d: Seq<u8>, idx: int) -> Option<(int, int)> {
    match spec_shdr_offset(info, idx) {
        None => None,
        Some(h) => match spec_off_size(info, d, h) {
            None => None,
            Some((o, s)) => if o + s <= d.len() {
                Some((o, o + s))
            } else {
                None
            },
        },
    }
}

/// The index of the first zero byte of `s` at or after `i`, or its length.
pub open spec fn first_zero(s: Seq<u8>, i: int) -> int
    decreases s.len() - i,
{
    if i >= s.len() {
        s.len() as int
    } else if s[i] == 0 {
        i
    } else {
        first_zero(s, i + 1)
    }
}

/// The null-terminated name at `ni` in the string table `st`.
pub open spec fn name_at(st: Seq<u8>, ni: int) -> Seq<u8> {
    let tail = st.subrange(ni, st.len() as int);
    tail.subrange(0, first_zero(tail, 0))
}

/// The first section header at or after `i` named `name`; `None` also when a
/// header on the way cannot be read.
pub open spec fn spec_find_from(
    info: ElfInfo,
    d: Seq<u8>,
    st: Seq<u8>,
    name: Seq<u8>,
    i: int,
) -> Option<int>
    decreases info.sh_num - i,
{
    if i >= info.sh_num {
        None
    } else {
        match spec_shdr_offset(info, i) {
            None => None,
            Some(h) => if fits(d, h, 4) && u32_at(d, h, info.is_le) <= st.len() {
                if name_at(st, u32_at(d, h, info.is_le)) == name {
                    Some(i)
                } else {
                    spec_find_from(info, d, st, name, i + 1)
                }
            } else {
                None
            },
        }
    }
}

/// The index of the section named `name`.
pub open spec fn spec_find(info: ElfInfo, d: Seq<u8>, name: Seq<u8>) -> Option<int> {
    match spec_section_range(info, d, info.sh_strndx as int) {
        None => None,
        Some((a, b)) => spec_find_from(info, d, d.subrange(a, b), name, 0),
    }
}

/// The byte range of the section named `name` in the ELF image `d`.
pub open spec fn spec_named_range(d: Seq<u8>, name: Seq<u8>) -> Option<(int, int)> {
    match spec_parse(d) {
        None => None,
        Some(info) => match spec_find(info, d, name) {
            None => None,
            Some(idx) => spec_section_range(info, d, idx),
        },
    }
}

/// The contents of the section named `name` in the ELF image `d`.
pub open spec fn spec_read_section(d: Seq<u8>, name: Seq<u8>) -> Option<Seq<u8>> {
    match spec_named_range(d, name) {
        None => None,
        Some((a, b)) => Some(d.subrange(a, b)),
    }
}

/// `n` zero bytes.
pub open spec fn zeros(n: int) -> Seq<u8> {
    Seq::new(n as nat, |k: int| 0u8)
}

/// Why a write into a section is refused.
pub enum WriteFailure {
    /// The image or the header of the section is unreadable.
    Malformed,
    /// No section carries the name.
    NotFound,
    /// The value is longer than the section.
    Overflow(int, int),
}

/// What writing `value` into the section named `name` of `d` gives: the
/// image with the section holding `value` and then zeros to its end.
pub open spec fn spec_write_section(d: Seq<u8>, name: Seq<u8>, value: Seq<u8>) -> Result<
    Seq<u8>,
    WriteFailure,
> {
    match spec_parse(d) {
        None => Err(WriteFailure::Malformed),
        Some(info) => match spec_find(info, d, name) {
            None => Err(WriteFailure::NotFound),
            Some(idx) => match spec_section_range(info, d, idx) {
                None => Err(WriteFailure::Malformed),
                Some((a, b)) => if value.len() > b - a {
                    Err(WriteFailure::Overflow(value.len() as int, b - a))
                } else {
                    Ok(
                        d.subrange(0, a) + value + zeros(b - a - value.len()) + d.subrange(
                            b,
                            d.len() as int,
                        ),
                    )
                },
            },
        },
    }
}

/// `e` is the error `write_section` reports for `f` on the section `name`.
pub open spec fn reports(e: Error, f: WriteFailure, name: Seq<char>) -> bool {
    match f {
        WriteFailure::Malformed => e is MalformedElf,
        WriteFailure::NotFound => e matches Error::SectionNotFound(n) && n@ == name,
        WriteFailure::Overflow(size, capacity) => e matches Error::SectionOverflow {
            name: n,
            size: s,
            capacity: c,
        } && n@ == name && s == size && c == capacity,
    }
}

// ---------------------------------------------------------------------------
// Readers
// ---------------------------------------------------------------------------

/// Reads the 16-bit value at `off`, or `None` past the end.
fn r16(data: &[u8], off: usize, le: bool) -> (r: Option<u16>)
    ensures
        match r {
            Some(v) => fits(data@, off as int, 2) && v == u16_at(data@, off as int, le),
            None => !fits(data@, off as int, 2),
        },
{
    if off > data.len() || data.len() - off < 2 {
        return None;
    }
    let b0 = data[off] as u16;
    let b1 = data[off + 1] as u16;
    Some(if le { b0 + b1 * 256 } else { b0 * 256 + b1 })
}

/// Reads the 32-bit value at `off`, or `None` past the end.
fn r32(data: &[u8], off: usize, le: bool) -> (r: Option<u32>)
    ensures
        match r {
            Some(v) => fits(data@, off as int, 4) && v == u32_at(data@, off as int, le),
            None => !fits(data@, off as int, 4),
        },
{
    if off > data.len() || data.len() - off < 4 {
        return None;
    }
    let b0 = data[off] as u32;
    let b1 = data[off + 1] as u32;
    let b2 = data[off + 2] as u32;
    let b3 = data[off + 3] as u32;
    Some(
        if le {
            b0 + b1 * 256 + b2 * 65536 + b3 * 16777216
        } else {
            b0 * 16777216 + b1 * 65536 + b2 * 256 + b3
        },
    )
}

/// Reads the 64-bit value at `off`, or `None` past the end.
fn r64(data: &[u8], off: usize, le: bool) -> (r: Option<u64>)
    ensures
        match r {
            Some(v) => fits(data@, off as int, 8) && v == u64_at(data@, off as int, le),
            None => !fits(data@, off as int, 8),
        },
{
    if off > data.len() || data.len() - off < 8 {
        return None;
    }
    let a = r32(data, off, le).unwrap() as u64;
    let b = r32(data, off + 4, le).unwrap() as u64;
    Some(if le { a + b * 4294967296 } else { a * 4294967296 + b })
}

/// The byte range `[off, off + size)` of `data`, where it is inside it.
fn slice_range(data: &[u8], off: usize, size: usize) -> (r: Option<&[u8]>)
    ensures
        match r {
            Some(s) => off + size <= data@.len() && s@ == data@.subrange(
                off as int,
                off + size,
            ),
            None => off + size > data@.len(),
        },
{
    let n = data.len();
    let end = match off.checked_add(size) {
        Some(e) => e,
        None => return None,
    };
    if end > data.len() {
        return None;
    }
    Some(&data[off..end])
}

impl ElfInfo {
    /// Reads the header at the start of `data`.
    pub fn parse(data: &[u8]) -> (r: Option<ElfInfo>)
        ensures
            r == spec_parse(data@),
    {
        if data.len() < 6 || !(data[0] == 0x7f && data[1] == 0x45 && data[2] == 0x4c && data[3]
            == 0x46) {
            return None;
        }
        let is_64bit = data[4] == 2;
        let is_le = data[5] == 1;
        if (is_64bit && data.len() < 64) || (!is_64bit && data.len() < 52) {
            return None;
        }
        let (sh_off, sh_entsize, sh_num, sh_strndx) = if is_64bit {
            (
                r64(data, 40, is_le).unwrap(),
                r16(data, 58, is_le).unwrap() as u64,
                r16(data, 60, is_le).unwrap() as u64,
                r16(data, 62, is_le).unwrap() as u64,
            )
        } else {
            (
                r32(data, 32, is_le).unwrap() as u64,
                r16(data, 46, is_le).unwrap() as u64,
                r16(data, 48, is_le).unwrap() as u64,
                r16(data, 50, is_le).unwrap() as u64,
            )
        };
        if sh_off == 0 || sh_entsize == 0 || sh_num == 0 || sh_strndx >= sh_num {
            return None;
        }
        Some(ElfInfo { is_64bit, is_le, sh_off, sh_entsize, sh_num, sh_strndx })
    }

    /// The byte offset of section header `i`, or `None` on overflow.
    pub fn shdr_offset(&self, i: u64) -> (r: Option<usize>)
        ensures
            match r {
                Some(o) => spec_shdr_offset(*self, i as int) == Some(o as int),
                None => spec_shdr_offset(*self, i as int) is None,
            },
    {
        let p = i.checked_mul(self.sh_entsize)?;
        let off = self.sh_off.checked_add(p)?;
        if off > usize::MAX as u64 {
            return None;
        }
        Some(off as usize)
    }

    /// The `(sh_offset, sh_size)` fields of the section header at `hdr_off`.
    pub fn read_offset_size(&self, data: &[u8], hdr_off: usize) -> (r: Option<(usize, usize)>)
        ensures
            match r {
                Some((o, s)) => spec_off_size(*self, data@, hdr_off as int) == Some(
                    (o as int, s as int),
                ),
                None => spec_off_size(*self, data@, hdr_off as int) is None,
            },
    {
        if self.is_64bit {
            if hdr_off > data.len() || data.len() - hdr_off < 40 {
                return None;
            }
            let off = r64(data, hdr_off + 24, self.is_le).unwrap();
            let size = r64(data, hdr_off + 32, self.is_le).unwrap();
            if off > usize::MAX as u64 || size > usize::MAX as u64 {
                return None;
            }
            Some((off as usize, size as usize))
        } else {
            if hdr_off > data.len() || data.len() - hdr_off < 24 {
                return None;
            }
            let off = r32(data, hdr_off + 16, self.is_le).unwrap();
            let size = r32(data, hdr_off + 20, self.is_le).unwrap();
            Some((off as usize, size as usize))
        }
    }

    /// The `(offset, size)` of section `idx`.
    pub fn section_offset_size(&self, data: &[u8], idx: u64) -> (r: Option<(usize, usize)>)
        ensures
            match r {
                Some((o, s)) => match spec_shdr_offset(*self, idx as int) {
                    Some(h) => spec_off_size(*self, data@, h) == Some((o as int, s as int)),
                    None => false,
                },
                None => match spec_shdr_offset(*self, idx as int) {
                    Some(h) => spec_off_size(*self, data@, h) is None,
                    None => true,
                },
            },
    {
        let hdr_off = self.shdr_offset(idx)?;
        self.read_offset_size(data, hdr_off)
    }

    /// The bytes of the section name string table.
    pub fn strtab<'a>(&self, data: &'a [u8]) -> (r: Option<&'a [u8]>)
        ensures
            match r {
                Some(s) => spec_section_range(*self, data@, self.sh_strndx as int) matches Some(
                    (a, b),
                ) && s@ == data@.subrange(a, b),
                None => spec_section_range(*self, data@, self.sh_strndx as int) is None,
            },
    {
        let hdr_off = self.shdr_offset(self.sh_strndx)?;
        let (off, size) = self.read_offset_size(data, hdr_off)?;
        slice_range(data, off, size)
    }

    /// The index of the section header whose name is `name`.
    pub fn find_section_idx(&self, data: &[u8], name: &[u8]) -> (r: Option<u64>)
        ensures
            match r {
                Some(i) => spec_find(*self, data@, name@) == Some(i as int),
                None => spec_find(*self, data@, name@) is None,
            },
    {
        let strtab = self.strtab(data)?;
        let mut i: u64 = 0;
        while i < self.sh_num
            invariant
                spec_find(*self, data@, name@) == spec_find_from(
                    *self,
                    data@,
                    strtab@,
                    name@,
                    i as int,
                ),
                spec_section_range(*self, data@, self.sh_strndx as int) matches Some((a, b))
                    && strtab@ == data@.subrange(a, b),
            decreases self.sh_num - i,
        {
            let hdr_off = self.shdr_offset(i)?;
            let name_idx = r32(data, hdr_off, self.is_le)? as usize;
            if name_idx > strtab.len() {
                return None;
            }
            let tail = &strtab[name_idx..strtab.len()];
            let end = zero_pos(tail);
            proof {
                lemma_first_zero(tail@, 0);
            }
            if bytes_eq(&tail[0..end], name) {
                return Some(i);
            }
            i = i + 1;
        }
        None
    }
}

/// The index of the first zero byte of `s`, or its length.
fn zero_pos(s: &[u8]) -> (r: usize)
    ensures
        r == first_zero(s@, 0),
{
    let mut i: usize = 0;
    while i < s.len() && s[i] != 0
        invariant
            i <= s@.len(),
            first_zero(s@, i as int) == first_zero(s@, 0),
        decreases s.len() - i,
    {
        i = i + 1;
    }
    i
}

/// `first_zero` stays within `[i, len]`.
proof fn lemma_first_zero(s: Seq<u8>, i: int)
    requires
        0 <= i <= s.len(),
    ensures
        i <= first_zero(s, i) <= s.len(),
    decreases s.len() - i,
{
    if i < s.len() && s[i] != 0 {
        lemma_first_zero(s, i + 1);
    }
}

/// Whether `a` and `b` hold the same bytes.
fn bytes_eq(a: &[u8], b: &[u8]) -> (r: bool)
    ensures
        r == (a@ == b@),
{
    if a.len() != b.len() {
        return false;
    }
    let mut i: usize = 0;
    while i < a.len()
        invariant
            a@.len() == b@.len(),
            i <= a@.len(),
            forall|k: int| 0 <= k < i ==> a@[k] == b@[k],
        decreases a.len() - i,
    {
        if a[i] != b[i] {
            return false;
        }
        i = i + 1;
    }
    assert(a@ =~= b@);
    true
}

// ---------------------------------------------------------------------------
// Public entry points
// ---------------------------------------------------------------------------

/// Read the value of an ELF section by name from a binary.
pub fn read_section<'a>(data: &'a [u8], name: &str) -> (r: Option<&'a [u8]>)
    ensures
        match r {
            Some(s) => spec_read_section(data@, name.spec_bytes()) == Some(s@),
            None => spec_read_section(data@, name.spec_bytes()) is None,
        },
{
    let info = ElfInfo::parse(data)?;
    let idx = info.find_section_idx(data, name.as_bytes())?;
    let (off, size) = info.section_offset_size(data, idx)?;
    slice_range(data, off, size)
}

} // verus!

verus! {

/// Write data into an ELF section by name. The data is null-padded to fill
/// the section; on any error the image is left as it was.
pub fn write_section(data: &mut [u8], name: &str, value: &[u8]) -> (r: Result<(), Error>)
    ensures
        match spec_write_section(old(data)@, name.spec_bytes(), value@) {
            Ok(d) => r is Ok && final(data)@ == d,
            Err(f) => r matches Err(e) && reports(e, f, name@) && final(data)@ == old(data)@,
        },
{
    let info = match ElfInfo::parse(data) {
        Some(i) => i,
        None => return Err(Error::MalformedElf),
    };
    let idx = match info.find_section_idx(data, name.as_bytes()) {
        Some(i) => i,
        None => return Err(Error::SectionNotFound(string_of(&chars_of(name)))),
    };
    let (sec_offset, sec_size) = match info.section_offset_size(data, idx) {
        Some(p) => p,
        None => return Err(Error::MalformedElf),
    };
    let n = data.len();
    let end = match sec_offset.checked_add(sec_size) {
        Some(e) => e,
        None => return Err(Error::MalformedElf),
    };
    if end > n {
        return Err(Error::MalformedElf);
    }
    if value.len() > sec_size {
        return Err(
            Error::SectionOverflow {
                name: string_of(&chars_of(name)),
                size: value.len(),
                capacity: sec_size,
            },
        );
    }
    let ghost d0 = data@;
    let ghost want = d0.subrange(0, sec_offset as int) + value@ + zeros(
        sec_size - value@.len(),
    ) + d0.subrange(end as int, d0.len() as int);
    let mut k: usize = sec_offset;
    while k < end
        invariant
            sec_offset <= k <= end <= n == data@.len() == d0.len() == want.len(),
            value@.len() <= sec_size,
            end == sec_offset + sec_size,
            want == d0.subrange(0, sec_offset as int) + value@ + zeros(sec_size - value@.len())
                + d0.subrange(end as int, d0.len() as int),
            forall|j: int| 0 <= j < n && !(sec_offset <= j < k) ==> data@[j] == d0[j],
            forall|j: int| sec_offset <= j < k ==> data@[j] == want[j],
        decreases end - k,
    {
        let b = if k - sec_offset < value.len() {
            value[k - sec_offset]
        } else {
            0u8
        };
        data[k] = b;
        k = k + 1;
    }
    assert(data@ =~= want);
    Ok(())
}

/// The bytes of the header, the section header table and the section name
/// table of `d` lie outside `[a, b)`, so a write there leaves every lookup
/// by name as it was.
pub open spec fn apart_from_lookup(d: Seq<u8>, a: int, b: int) -> bool {
    match spec_parse(d) {
        None => false,
        Some(info) => {
            let hdr = if info.is_64bit { 64int } else { 52int };
            let rec = if info.is_64bit { 40int } else { 24int };
            let t0 = info.sh_off as int;
            let t1 = info.sh_off + (info.sh_num - 1) * info.sh_entsize + rec;
            &&& (b <= 0 || hdr <= a)
            &&& (b <= t0 || t1 <= a)
            &&& match spec_section_range(info, d, info.sh_strndx as int) {
                None => false,
                Some((sa, sb)) => b <= sa || sb <= a,
            }
        },
    }
}

/// Two images agreeing on every byte outside `[a, b)`.
pub open spec fn same_outside(d: Seq<u8>, e: Seq<u8>, a: int, b: int) -> bool {
    &&& d.len() == e.len()
    &&& forall|k: int| 0 <= k < d.len() && !(a <= k < b) ==> #[trigger] e[k] == d[k]
}

proof fn lemma_mul_mono(i: int, m: int, e: int)
    requires
        0 <= i <= m,
        0 <= e,
    ensures
        i * e <= m * e,
{
    assert(i * e <= m * e) by (nonlinear_arith)
        requires
            0 <= i <= m,
            0 <= e,
    ;
}

proof fn lemma_find_from_same(
    info: ElfInfo,
    d: Seq<u8>,
    e: Seq<u8>,
    st: Seq<u8>,
    name: Seq<u8>,
    i: int,
    a: int,
    b: int,
)
    requires
        spec_parse(d) == Some(info),
        apart_from_lookup(d, a, b),
        same_outside(d, e, a, b),
        0 <= i,
    ensures
        spec_find_from(info, e, st, name, i) == spec_find_from(info, d, st, name, i),
    decreases info.sh_num - i,
{
    if i < info.sh_num {
        match spec_shdr_offset(info, i) {
            None => {},
            Some(h) => {
                lemma_mul_mono(i, info.sh_num - 1, info.sh_entsize as int);
                if fits(d, h, 4) {
                    assert(e[h] == d[h]);
                    assert(e[h + 1] == d[h + 1]);
                    assert(e[h + 2] == d[h + 2]);
                    assert(e[h + 3] == d[h + 3]);
                }
                lemma_find_from_same(info, d, e, st, name, i + 1, a, b);
            },
        }
    }
}

proof fn lemma_range_same(info: ElfInfo, d: Seq<u8>, e: Seq<u8>, idx: int, a: int, b: int)
    requires
        spec_parse(d) == Some(info),
        apart_from_lookup(d, a, b),
        same_outside(d, e, a, b),
        0 <= idx < info.sh_num,
    ensures
        spec_section_range(info, e, idx) == spec_section_range(info, d, idx),
{
    match spec_shdr_offset(info, idx) {
        None => {},
        Some(h) => {
            lemma_mul_mono(idx, info.sh_num - 1, info.sh_entsize as int);
            if info.is_64bit && fits(d, h, 40) {
                assert(u64_at(e, h + 24, info.is_le) == u64_at(d, h + 24, info.is_le));
                assert(u64_at(e, h + 32, info.is_le) == u64_at(d, h + 32, info.is_le));
            }
            if !info.is_64bit && fits(d, h, 24) {
                assert(u32_at(e, h + 16, info.is_le) == u32_at(d, h + 16, info.is_le));
                assert(u32_at(e, h + 20, info.is_le) == u32_at(d, h + 20, info.is_le));
            }
        },
    }
}

proof fn lemma_find_from_bound(info: ElfInfo, d: Seq<u8>, st: Seq<u8>, name: Seq<u8>, i: int)
    ensures
        spec_find_from(info, d, st, name, i) matches Some(k) ==> i <= k < info.sh_num,
    decreases info.sh_num - i,
{
    if i < info.sh_num {
        lemma_find_from_bound(info, d, st, name, i + 1);
    }
}

proof fn lemma_parse_same(d: Seq<u8>, e: Seq<u8>, a: int, b: int)
    requires
        apart_from_lookup(d, a, b),
        same_outside(d, e, a, b),
    ensures
        spec_parse(e) == spec_parse(d),
{
    let is64 = d[4] == 2;
    assert(e[0] == d[0] && e[1] == d[1] && e[2] == d[2] && e[3] == d[3]);
    assert(e[4] == d[4] && e[5] == d[5]);
    if is64 {
        assert(u64_at(e, 40, d[5] == 1) == u64_at(d, 40, d[5] == 1));
        assert(u16_at(e, 58, d[5] == 1) == u16_at(d, 58, d[5] == 1));
        assert(u16_at(e, 60, d[5] == 1) == u16_at(d, 60, d[5] == 1));
        assert(u16_at(e, 62, d[5] == 1) == u16_at(d, 62, d[5] == 1));
    } else {
        assert(u32_at(e, 32, d[5] == 1) == u32_at(d, 32, d[5] == 1));
        assert(u16_at(e, 46, d[5] == 1) == u16_at(d, 46, d[5] == 1));
        assert(u16_at(e, 48, d[5] == 1) == u16_at(d, 48, d[5] == 1));
        assert(u16_at(e, 50, d[5] == 1) == u16_at(d, 50, d[5] == 1));
    }
}

proof fn lemma_spliced_same_outside(d: Seq<u8>, mid: Seq<u8>, a: int, b: int)
    requires
        0 <= a <= b <= d.len(),
        mid.len() == b - a,
    ensures
        same_outside(d, d.subrange(0, a) + mid + d.subrange(b, d.len() as int), a, b),
{
    let e = d.subrange(0, a) + mid + d.subrange(b, d.len() as int);
    assert forall|k: int| 0 <= k < d.len() && !(a <= k < b) implies #[trigger] e[k] == d[k] by {
        if k < a {
            assert(e[k] == d.subrange(0, a)[k]);
        } else {
            assert(e[k] == d.subrange(b, d.len() as int)[k - b]);
        }
    }
}

/// Reading a section back after writing `value` into it gives `value`
/// followed by the zero padding, wherever the section lies apart from the
/// bytes a lookup by name reads.
pub proof fn lemma_read_after_write(d: Seq<u8>, name: Seq<u8>, value: Seq<u8>)
    requires
        spec_write_section(d, name, value) is Ok,
        spec_named_range(d, name) matches Some((a, b)) && apart_from_lookup(d, a, b),
    ensures
        spec_named_range(d, name) matches Some((a, b)) && spec_read_section(
            spec_write_section(d, name, value)->Ok_0,
            name,
        ) == Some(value + zeros(b - a - value.len())),
{
    let info = spec_parse(d)->Some_0;
    let idx = spec_find(info, d, name)->Some_0;
    let (a, b) = spec_section_range(info, d, idx)->Some_0;
    let z = zeros(b - a - value.len());
    let mid = value + z;
    let e = d.subrange(0, a) + mid + d.subrange(b, d.len() as int);
    assert(spec_write_section(d, name, value)->Ok_0 =~= e);
    lemma_spliced_same_outside(d, mid, a, b);
    lemma_parse_same(d, e, a, b);
    lemma_range_same(info, d, e, info.sh_strndx as int, a, b);
    let (sa, sb) = spec_section_range(info, d, info.sh_strndx as int)->Some_0;
    assert(e.subrange(sa, sb) =~= d.subrange(sa, sb));
    lemma_find_from_same(info, d, e, d.subrange(sa, sb), name, 0, a, b);
    assert(spec_find(info, e, name) == Some(idx));
    lemma_find_from_bound(info, d, d.subrange(sa, sb), name, 0);
    lemma_range_same(info, d, e, idx, a, b);
    assert(e.subrange(a, b) =~= mid);
}

} // verus!
