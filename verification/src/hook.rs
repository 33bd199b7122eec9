//! The logic of the API hooks: finding the import-address-table slots of a
//! loaded module that name a given function, and what the replacement
//! functions compute. Patching memory and calling through to the real
//! functions is left to the caller.

use vstd::prelude::*;
use crate::geometry::{Point, Rect};

verus! {

/// Signature of a DOS executable header ("MZ").
pub const IMAGE_DOS_SIGNATURE: u16 = 0x5A4D;
/// Signature of a PE header ("PE\0\0").
pub const IMAGE_NT_SIGNATURE: u32 = 0x4550;
/// Optional-header magic of a 64-bit image.
pub const PE32_PLUS_MAGIC: u16 = 0x20B;
/// Size of one import descriptor.
pub const IMPORT_DESCRIPTOR_SIZE: usize = 20;
/// `SetWindowPos` flag: keep the current size.
pub const SWP_NOSIZE: u32 = 0x1;

/// ASCII lower case of a byte; other bytes are unchanged.
pub open spec fn spec_ascii_lower(c: u8) -> u8 {
    if 65 <= c <= 90 { (c + 32) as u8 } else { c }
}

/// ASCII lower case of a byte; other bytes are unchanged.
pub fn ascii_lower(c: u8) -> (r: u8)
    ensures
        r == spec_ascii_lower(c),
{
    if 65 <= c && c <= 90 { c + 32 } else { c }
}

/// Length of the NUL-terminated string at the start of `s` (all of `s`
/// when it holds no NUL).
pub open spec fn cstr_len(s: Seq<u8>) -> int
    decreases s.len(),
{
    if s.len() == 0 {
        0
    } else if s[0] == 0 {
        0
    } else {
        1 + cstr_len(s.drop_first())
    }
}

/// Whether the NUL-terminated string at the start of `name` equals the one
/// at the start of `target`, ignoring ASCII case. The terminator of `name`
/// must lie inside it.
pub open spec fn spec_ieq(name: Seq<u8>, target: Seq<u8>) -> bool {
    let n = cstr_len(target);
    &&& n < name.len()
    &&& name[n] == 0
    &&& forall|i: int| 0 <= i < n ==> spec_ascii_lower(#[trigger] name[i]) == spec_ascii_lower(target[i])
}

proof fn lemma_cstr_len(s: Seq<u8>)
    ensures
        0 <= cstr_len(s) <= s.len(),
        cstr_len(s) < s.len() ==> s[cstr_len(s)] == 0,
        forall|i: int| 0 <= i < cstr_len(s) ==> #[trigger] s[i] != 0,
    decreases s.len(),
{
    if s.len() > 0 && s[0] != 0 {
        lemma_cstr_len(s.drop_first());
        assert forall|i: int| 0 <= i < cstr_len(s) implies #[trigger] s[i] != 0 by {
            if i > 0 {
                assert(s[i] == s.drop_first()[i - 1]);
            }
        }
    }
}

/// Compare the NUL-terminated string at the start of `name` with the one
/// at the start of `target`, ignoring ASCII case. A `name` that ends before
/// its terminator does not match.
pub fn ieq(name: &[u8], target: &[u8]) -> (r: bool)
    ensures
        r == spec_ieq(name@, target@),
{
    proof { lemma_cstr_len(target@); }
    let mut i: usize = 0;
    loop
        invariant
            i <= cstr_len(target@),
            0 <= cstr_len(target@) <= target@.len(),
            cstr_len(target@) < target@.len() ==> target@[cstr_len(target@)] == 0,
            forall|j: int| 0 <= j < cstr_len(target@) ==> #[trigger] target@[j] != 0,
            i <= name@.len(),
            forall|j: int| 0 <= j < i ==> spec_ascii_lower(#[trigger] name@[j]) == spec_ascii_lower(target@[j]),
        decreases name@.len() - i,
    {
        if i >= name.len() {
            return false;
        }
        let c = name[i];
        let t = if i < target.len() { target[i] } else { 0 };
        if t == 0 {
            return c == 0;
        }
        if c == 0 {
            return false;
        }
        if ascii_lower(c) != ascii_lower(t) {
            return false;
        }
        i = i + 1;
    }
}

/// Whether `n` bytes at `off` lie inside `img`.
pub open spec fn in_img(img: Seq<u8>, off: int, n: int) -> bool {
    0 <= off && off + n <= img.len()
}

/// Little-endian 16-bit value at `off`.
pub open spec fn le16(img: Seq<u8>, off: int) -> int {
    img[off] + img[off + 1] * 256
}

/// Little-endian 32-bit value at `off`.
pub open spec fn le32(img: Seq<u8>, off: int) -> int {
    le16(img, off) + le16(img, off + 2) * 65536
}

/// Little-endian 64-bit value at `off`.
pub open spec fn le64(img: Seq<u8>, off: int) -> int {
    le32(img, off) + le32(img, off + 4) * 0x1_0000_0000
}

/// A thunk (pointer-sized entry) of `ps` bytes at `off`.
pub open spec fn read_thunk(img: Seq<u8>, off: int, ps: int) -> int {
    if ps == 4 { le32(img, off) } else { le64(img, off) }
}

/// The bytes of `img` from `off` on (none when `off` lies past the end).
pub open spec fn bytes_from(img: Seq<u8>, off: int) -> Seq<u8> {
    if 0 <= off <= img.len() { img.subrange(off, img.len() as int) } else { Seq::empty() }
}

/// Where a 64-bit image's optional header keeps its data directories,
/// relative to the optional header, by optional-header magic.
pub open spec fn spec_datadir_offset(magic: int) -> int {
    if magic == PE32_PLUS_MAGIC { 0x70 } else { 0x60 }
}

/// The offset of the import directory of a loaded image: found through the
/// DOS header's `e_lfanew`, the PE signature and the optional header's data
/// directories; none when a signature does not match, a header lies outside
/// the image or the image imports nothing.
pub open spec fn spec_import_rva(img: Seq<u8>) -> Option<int> {
    if !(in_img(img, 0, 2) && le16(img, 0) == IMAGE_DOS_SIGNATURE as int && in_img(img, 0x3C, 4)) {
        None
    } else {
        let e = (((le32(img, 0x3C) as u32) as i32) as usize) as int;
        if !(in_img(img, e, 4) && le32(img, e) == IMAGE_NT_SIGNATURE as int && in_img(img, e + 24, 2)) {
            None
        } else {
            let entry = e + 24 + spec_datadir_offset(le16(img, e + 24)) + 8;
            if !in_img(img, entry, 4) || le32(img, entry) == 0 {
                None
            } else {
                Some(le32(img, entry))
            }
        }
    }
}

/// The first thunk slot, walking the import address table from `first` and
/// the lookup table from `orig` in step, whose import is by name and names
/// `fname`; none when the table ends (a zero thunk) or leaves the image.
pub open spec fn spec_thunk_slot(img: Seq<u8>, first: int, orig: int, fname: Seq<u8>, ps: int) -> Option<int>
    decreases img.len() - first,
{
    if ps <= 0 || !in_img(img, first, ps) || !in_img(img, orig, ps) {
        None
    } else if read_thunk(img, first, ps) == 0 {
        None
    } else if read_thunk(img, orig, ps) < spec_top_bit(ps)
        && spec_ieq(bytes_from(img, read_thunk(img, orig, ps) + 2), fname) {
        Some(first)
    } else {
        spec_thunk_slot(img, first + ps, orig + ps, fname, ps)
    }
}

/// The ordinal flag of a thunk of `ps` bytes: its top bit.
pub open spec fn spec_top_bit(ps: int) -> int {
    if ps == 4 { 0x8000_0000 } else { 0x8000_0000_0000_0000 }
}

/// The slots to patch, walking the import descriptors from `desc` until
/// one with no import address table: for each descriptor of module `mname`,
/// the first slot importing `fname`.
pub open spec fn spec_descriptor_slots(img: Seq<u8>, desc: int, mname: Seq<u8>, fname: Seq<u8>, ps: int) -> Seq<usize>
    decreases img.len() - desc,
{
    if !in_img(img, desc, IMPORT_DESCRIPTOR_SIZE as int) || le32(img, desc + 16) == 0 {
        Seq::empty()
    } else {
        let first = le32(img, desc + 16);
        let orig = if le32(img, desc) != 0 { le32(img, desc) } else { first };
        let here = if spec_ieq(bytes_from(img, le32(img, desc + 12)), mname) {
            match spec_thunk_slot(img, first, orig, fname, ps) {
                Some(s) => seq![s as usize],
                None => Seq::empty(),
            }
        } else {
            Seq::empty()
        };
        here + spec_descriptor_slots(img, desc + IMPORT_DESCRIPTOR_SIZE as int, mname, fname, ps)
    }
}

/// All the import-address-table slots of `img` to patch so that calls of
/// `fname` from module `mname` reach a replacement.
pub open spec fn spec_iat_slots(img: Seq<u8>, mname: Seq<u8>, fname: Seq<u8>, ps: int) -> Seq<usize> {
    match spec_import_rva(img) {
        None => Seq::empty(),
        Some(rva) => spec_descriptor_slots(img, rva, mname, fname, ps),
    }
}

/// Whether `n` bytes at `off` lie inside `img`.
fn fits(img: &[u8], off: usize, n: usize) -> (r: bool)
    ensures
        r == in_img(img@, off as int, n as int),
{
    off <= img.len() && n <= img.len() - off
}

fn read_u16(img: &[u8], off: usize) -> (r: u16)
    requires
        in_img(img@, off as int, 2),
    ensures
        r as int == le16(img@, off as int),
{
    (img[off] as u16) + (img[off + 1] as u16) * 256
}

fn read_u32(img: &[u8], off: usize) -> (r: u32)
    requires
        in_img(img@, off as int, 4),
    ensures
        r as int == le32(img@, off as int),
{
    let _len = img.len();
    let lo = read_u16(img, off) as u32;
    let hi = read_u16(img, off + 2) as u32;
    lo + hi * 65536
}

fn read_thunk_exec(img: &[u8], off: usize, ps: usize) -> (r: u64)
    requires
        ps == 4 || ps == 8,
        in_img(img@, off as int, ps as int),
    ensures
        r as int == read_thunk(img@, off as int, ps as int),
{
    let _len = img.len();
    if ps == 4 {
        read_u32(img, off) as u64
    } else {
        let lo = read_u32(img, off) as u64;
        let hi = read_u32(img, off + 4) as u64;
        lo + hi * 0x1_0000_0000
    }
}

/// The bytes of `img` from `off` on (none when `off` lies past the end).
fn slice_from(img: &[u8], off: u64) -> (r: &[u8])
    ensures
        r@ == bytes_from(img@, off as int),
{
    if off <= img.len() as u64 {
        let o = off as usize;
        let r = slice_subrange(img, o, img.len());
        r
    } else {
        let r = slice_subrange(img, 0, 0);
        proof { assert(r@ =~= Seq::<u8>::empty()); }
        r
    }
}

/// The part `[from, to)` of a slice.
fn slice_subrange(s: &[u8], from: usize, to: usize) -> (r: &[u8])
    requires
        from <= to <= s@.len(),
    ensures
        r@ == s@.subrange(from as int, to as int),
{
    &s[from..to]
}

/// The offset of the import directory of a loaded image (see
/// `spec_import_rva`).
pub fn import_rva(img: &[u8]) -> (r: Option<usize>)
    ensures
        r matches Some(v) ==> spec_import_rva(img@) == Some(v as int),
        r is None ==> spec_import_rva(img@) is None,
{
    if !(fits(img, 0, 2) && read_u16(img, 0) == IMAGE_DOS_SIGNATURE && fits(img, 0x3C, 4)) {
        return None;
    }
    let len = img.len();
    let raw = read_u32(img, 0x3C);
    let e = (#[verifier::truncate] (raw as i32)) as usize;
    if !(e <= len && len - e >= 26 && read_u32(img, e) == IMAGE_NT_SIGNATURE) {
        return None;
    }
    let opt = e + 24;
    let magic = read_u16(img, opt);
    let datadir_off: usize = if magic == PE32_PLUS_MAGIC { 0x70 } else { 0x60 };
    if !(len - opt >= datadir_off + 12) {
        return None;
    }
    let entry = opt + datadir_off + 8;
    let rva = read_u32(img, entry);
    if rva == 0 {
        None
    } else {
        Some(rva as usize)
    }
}

/// Walk the import address table from `first` and the lookup table from
/// `orig` for the slot importing `fname` by name.
pub fn thunk_slot(img: &[u8], first: usize, orig: usize, fname: &[u8], ps: usize) -> (r: Option<usize>)
    requires
        ps == 4 || ps == 8,
    ensures
        r matches Some(v) ==> spec_thunk_slot(img@, first as int, orig as int, fname@, ps as int) == Some(v as int),
        r is None ==> spec_thunk_slot(img@, first as int, orig as int, fname@, ps as int) is None,
{
    let len = img.len();
    let top: u64 = if ps == 4 { 0x8000_0000 } else { 0x8000_0000_0000_0000 };
    let mut f = first;
    let mut o = orig;
    loop
        invariant
            ps == 4 || ps == 8,
            top as int == spec_top_bit(ps as int),
            len == img@.len(),
            spec_thunk_slot(img@, first as int, orig as int, fname@, ps as int)
                == spec_thunk_slot(img@, f as int, o as int, fname@, ps as int),
        decreases img@.len() - f,
    {
        if !fits(img, f, ps) || !fits(img, o, ps) {
            return None;
        }
        let fn_addr = read_thunk_exec(img, f, ps);
        let ord_addr = read_thunk_exec(img, o, ps);
        if fn_addr == 0 {
            return None;
        }
        if ord_addr < top {
            if ieq(slice_from(img, ord_addr + 2), fname) {
                return Some(f);
            }
        }
        f = f + ps;
        o = o + ps;
    }
}

/// All the import-address-table slots of `img` (a loaded module, thunks of
/// `ps` bytes) to patch so that calls of `function_name` imported from
/// `module_name` reach a replacement.
pub fn find_iat_slots(img: &[u8], module_name: &[u8], function_name: &[u8], ps: usize) -> (r: Vec<usize>)
    requires
        ps == 4 || ps == 8,
    ensures
        r@ == spec_iat_slots(img@, module_name@, function_name@, ps as int),
{
    let mut out: Vec<usize> = Vec::new();
    let rva = match import_rva(img) {
        None => return out,
        Some(v) => v,
    };
    let len = img.len();
    let mut desc = rva;
    loop
        invariant
            ps == 4 || ps == 8,
            len == img@.len(),
            spec_iat_slots(img@, module_name@, function_name@, ps as int)
                == out@ + spec_descriptor_slots(img@, desc as int, module_name@, function_name@, ps as int),
        decreases img@.len() - desc,
    {
        if !fits(img, desc, IMPORT_DESCRIPTOR_SIZE) {
            proof { assert(out@ + Seq::<usize>::empty() =~= out@); }
            return out;
        }
        let first = read_u32(img, desc + 16);
        if first == 0 {
            proof { assert(out@ + Seq::<usize>::empty() =~= out@); }
            return out;
        }
        let name_rva = read_u32(img, desc + 12);
        let orig_rva = read_u32(img, desc);
        let orig = if orig_rva != 0 { orig_rva } else { first };
        let ghost before = out@;
        if ieq(slice_from(img, name_rva as u64), module_name) {
            if let Some(s) = thunk_slot(img, first as usize, orig as usize, function_name, ps) {
                out.push(s);
            }
        }
        proof {
            let rest = spec_descriptor_slots(img@, (desc + IMPORT_DESCRIPTOR_SIZE) as int, module_name@, function_name@, ps as int);
            assert(before + spec_descriptor_slots(img@, desc as int, module_name@, function_name@, ps as int)
                =~= out@ + rest);
        }
        desc = desc + IMPORT_DESCRIPTOR_SIZE;
    }
}

/// Whether a `SetWindowPos` call needs the render viewport recomputed: it
/// changes the size of the game's own window.
pub fn set_window_pos_resizes(flags: u32, is_our_window: bool) -> (r: bool)
    ensures
        r == ((flags & SWP_NOSIZE) == 0 && is_our_window),
{
    (flags & SWP_NOSIZE) == 0 && is_our_window
}

/// The cursor position the game sees while the cursor is locked: `p`
/// clamped to the window rectangle `wr`, edges included (a right or bottom
/// edge left of or above the other edge wins).
pub open spec fn spec_clamp_cursor(p: Point, wr: Rect) -> Point {
    let x1 = if p.x < wr.left { wr.left } else { p.x };
    let x2 = if x1 > wr.right { wr.right } else { x1 };
    let y1 = if p.y < wr.top { wr.top } else { p.y };
    let y2 = if y1 > wr.bottom { wr.bottom } else { y1 };
    Point { x: x2, y: y2 }
}

/// The cursor position the game sees while the cursor is locked: `p`
/// clamped to the window rectangle `wr`.
pub fn clamp_cursor(p: Point, wr: Rect) -> (r: Point)
    ensures
        r == spec_clamp_cursor(p, wr),
{
    let mut q = p;
    if q.x < wr.left {
        q.x = wr.left;
    }
    if q.x > wr.right {
        q.x = wr.right;
    }
    if q.y < wr.top {
        q.y = wr.top;
    }
    if q.y > wr.bottom {
        q.y = wr.bottom;
    }
    q
}

/// Whether the reported cursor position is clamped: only while the cursor
/// is locked to a valid window.
pub fn cursor_clamped(locked: bool, window_valid: bool) -> (r: bool)
    ensures
        r == (locked && window_valid),
{
    locked && window_valid
}


/// The reported cursor position lies in the window rectangle (edges
/// included), a position already there is reported as it is, and clamping
/// twice is clamping once.
pub proof fn law_clamp_cursor(p: Point, wr: Rect)
    requires
        wr.is_proper(),
    ensures
        wr.left <= spec_clamp_cursor(p, wr).x <= wr.right,
        wr.top <= spec_clamp_cursor(p, wr).y <= wr.bottom,
        (wr.left <= p.x <= wr.right && wr.top <= p.y <= wr.bottom) ==> spec_clamp_cursor(p, wr) == p,
        spec_clamp_cursor(spec_clamp_cursor(p, wr), wr) == spec_clamp_cursor(p, wr),
{
}

proof fn lemma_thunk_slot_in_image(img: Seq<u8>, first: int, orig: int, fname: Seq<u8>, ps: int)
    ensures
        spec_thunk_slot(img, first, orig, fname, ps) matches Some(s) ==> 0 <= s && s + ps <= img.len(),
    decreases img.len() - first,
{
    if ps <= 0 || !in_img(img, first, ps) || !in_img(img, orig, ps) {
    } else if read_thunk(img, first, ps) == 0 {
    } else if read_thunk(img, orig, ps) < spec_top_bit(ps)
        && spec_ieq(bytes_from(img, read_thunk(img, orig, ps) + 2), fname) {
    } else {
        lemma_thunk_slot_in_image(img, first + ps, orig + ps, fname, ps);
    }
}

proof fn lemma_descriptor_slots_in_image(img: Seq<u8>, desc: int, mname: Seq<u8>, fname: Seq<u8>, ps: int)
    ensures
        forall|k: int| 0 <= k < spec_descriptor_slots(img, desc, mname, fname, ps).len()
            ==> #[trigger] spec_descriptor_slots(img, desc, mname, fname, ps)[k] + ps <= img.len(),
    decreases img.len() - desc,
{
    if !in_img(img, desc, IMPORT_DESCRIPTOR_SIZE as int) || le32(img, desc + 16) == 0 {
    } else {
        let first = le32(img, desc + 16);
        let orig = if le32(img, desc) != 0 { le32(img, desc) } else { first };
        lemma_thunk_slot_in_image(img, first, orig, fname, ps);
        lemma_descriptor_slots_in_image(img, desc + IMPORT_DESCRIPTOR_SIZE as int, mname, fname, ps);
        let here = if spec_ieq(bytes_from(img, le32(img, desc + 12)), mname) {
            match spec_thunk_slot(img, first, orig, fname, ps) {
                Some(s) => seq![s as usize],
                None => Seq::<usize>::empty(),
            }
        } else {
            Seq::<usize>::empty()
        };
        let rest = spec_descriptor_slots(img, desc + IMPORT_DESCRIPTOR_SIZE as int, mname, fname, ps);
        assert(spec_descriptor_slots(img, desc, mname, fname, ps) == here + rest);
        assert forall|k: int| 0 <= k < spec_descriptor_slots(img, desc, mname, fname, ps).len()
            implies #[trigger] spec_descriptor_slots(img, desc, mname, fname, ps)[k] + ps <= img.len() by {
            if k < here.len() {
                assert(spec_descriptor_slots(img, desc, mname, fname, ps)[k] == here[k]);
            } else {
                assert(spec_descriptor_slots(img, desc, mname, fname, ps)[k] == rest[k - here.len()]);
            }
        }
    }
}

/// Every slot found to patch is a whole thunk inside the image.
pub proof fn law_iat_slots_in_image(img: Seq<u8>, mname: Seq<u8>, fname: Seq<u8>, ps: int, k: int)
    requires
        0 <= k < spec_iat_slots(img, mname, fname, ps).len(),
    ensures
        spec_iat_slots(img, mname, fname, ps)[k] + ps <= img.len(),
{
    match spec_import_rva(img) {
        None => {},
        Some(rva) => lemma_descriptor_slots_in_image(img, rva, mname, fname, ps),
    }
}

} // verus!
