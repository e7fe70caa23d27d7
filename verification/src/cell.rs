//! B-tree cell layouts of the SQLite file format: the four on-disk cell
//! kinds, the local-payload/overflow threshold formula, and variant-checked
//! field accessors.

use vstd::arithmetic::div_mod::{lemma_div_is_ordered, lemma_div_multiples_vanish,
    lemma_mod_decreases};
use vstd::prelude::*;
use vstd::slice::{slice_subrange, slice_to_vec};

use crate::varint::{decode_be, varint_complete, varint_len_of, varint_value_of};

verus! {

/// Why a cell's bytes could not be decoded.
#[derive(Clone, Copy, Debug, PartialEq, Eq, Structural)]
pub enum DecodeError {
    /// A varint field ran past the end of the cell, or the cell was empty.
    TruncatedVarint,
    /// A 4-byte child-pointer field did not fit in the cell.
    TruncatedPointer,
    /// The cell spills to overflow but is too short to hold the header
    /// fields it claims plus the 4-byte overflow page number.
    TruncatedPayload,
}

/// The declared type of a B-tree page, which alone determines the layout
/// of its cells.
#[derive(Clone, Copy, Debug, PartialEq, Eq, Structural)]
pub enum PageType {
    LeafTable,
    InteriorTable,
    LeafIndex,
    InteriorIndex,
}

/// Locates one cell's byte range within a page: its offset from the page's
/// start and its size in bytes.
#[derive(Clone, Copy, Debug)]
pub struct Cell {
    pub offset: u64,
    pub size: usize,
}

/// A decoded payload: `size` is the total logical length in bytes, overflow
/// included; `payload` holds the bytes physically stored in the cell; and
/// `overflow`, when the payload spills, holds the big-endian page number of
/// the first overflow page (the last 4 bytes of the raw cell).
#[derive(Debug)]
pub struct Payload {
    pub size: u64,
    pub payload: Vec<u8>,
    pub overflow: Option<[u8; 4]>,
}

impl Default for Cell {
    fn default() -> (r: Self)
        ensures
            r.offset == 0,
            r.size == 0,
    {
        Cell { offset: 0, size: 0 }
    }
}

impl Default for Payload {
    fn default() -> (r: Self)
        ensures
            r.size == 0,
            r.payload@ == Seq::<u8>::empty(),
            r.overflow is None,
    {
        Payload { size: 0, payload: Vec::new(), overflow: None }
    }
}

/// The least number of payload bytes a spilling cell keeps locally:
/// `m = (u - 12) * 32 / 255 - 23` for usable page size `u`.
pub open spec fn min_local_bytes(u: int) -> int {
    (u - 12) * 32 / 255 - 23
}

/// The most payload bytes a cell may hold without spilling: `u - 35` on a
/// table leaf, `(u - 12) * 64 / 255 - 23` on an index page.
pub open spec fn max_local_bytes(u: int, page_type: PageType) -> int {
    match page_type {
        PageType::LeafTable => u - 35,
        _ => (u - 12) * 64 / 255 - 23,
    }
}

/// The candidate local size `k = m + (p - m) % (u - 4)`, which rounds the
/// local portion so that overflow pages are filled completely.
pub open spec fn wrapped_local_bytes(p: int, u: int) -> int {
    min_local_bytes(u) + (p - min_local_bytes(u)) % (u - 4)
}

/// How many bytes of a payload of total size `p` are stored in the cell
/// itself: all of them when `p` is at most the threshold `x`, else `k` if
/// `k` stays within the threshold, else `m`.
pub open spec fn local_payload_bytes(p: int, u: int, page_type: PageType) -> int {
    let x = max_local_bytes(u, page_type);
    if p <= x {
        p
    } else if wrapped_local_bytes(p, u) <= x {
        wrapped_local_bytes(p, u)
    } else {
        min_local_bytes(u)
    }
}

/// How many bytes of a payload of total size `p` spill to overflow pages.
pub open spec fn spilled_bytes(p: int, u: int, page_type: PageType) -> int {
    p - local_payload_bytes(p, u, page_type)
}

impl Payload {
    /// Number of payload bytes that spill to overflow pages, by the exact
    /// threshold formula of the file format, for a page of the given size
    /// with the given reserved space per page. Interior table cells carry
    /// no payload, so the formula is defined for the other three kinds.
    pub fn calculate_spillage(&self, page_size: u64, reserved_space: u64, page_type: PageType) -> (r:
        u64)
        requires
            reserved_space <= page_size,
            196 <= page_size - reserved_space <= 0x1_0000_0000,
            page_type != PageType::InteriorTable,
        ensures
            r as int == spilled_bytes(
                self.size as int,
                page_size - reserved_space,
                page_type,
            ),
            r == 0 <==> self.size as int <= max_local_bytes(
                page_size - reserved_space,
                page_type,
            ),
    {
        let u = page_size - reserved_space;
        proof {
            lemma_div_is_ordered(5888, (u - 12) * 32, 255);
            lemma_div_is_ordered(11776, (u - 12) * 64, 255);
            lemma_div_is_ordered((u - 12) * 32, (u - 12) * 64, 255);
            lemma_div_is_ordered((u - 12) * 32, (u - 12) * 255, 255);
            lemma_div_multiples_vanish(u - 12, 255);
            assert((u - 12) * 255 == 255 * (u - 12)) by (nonlinear_arith);
        }
        let m = (u - 12) * 32 / 255 - 23;
        let x = match page_type {
            PageType::LeafTable => u - 35,
            _ => (u - 12) * 64 / 255 - 23,
        };
        let p = self.size;
        if p <= x {
            0
        } else {
            proof {
                lemma_mod_decreases((p - m) as nat, (u - 4) as nat);
            }
            let k = m + (p - m) % (u - 4);
            if k <= x {
                p - k
            } else {
                p - m
            }
        }
    }
}

/// Whether a payload of declared total size `p` fits a cell of `cell_size`
/// bytes: when it does not, the cell's last 4 bytes are the overflow
/// pointer and only the bytes before them belong to the payload.
pub open spec fn payload_spills(p: nat, cell_size: nat) -> bool {
    p > cell_size
}

/// Whether a cell whose header fields end at `hdr` is long enough for its
/// payload split: a spilling cell must still hold the header and the
/// 4-byte overflow pointer.
pub open spec fn tail_wf(s: Seq<u8>, hdr: int, p: nat) -> bool {
    payload_spills(p, s.len()) ==> hdr + 4 <= s.len()
}

/// The payload bytes kept in the cell: everything after the header fields,
/// minus the trailing 4-byte overflow pointer when the payload spills.
pub open spec fn local_payload_seq(s: Seq<u8>, hdr: int, p: nat) -> Seq<u8> {
    if payload_spills(p, s.len()) {
        s.subrange(hdr, s.len() - 4)
    } else {
        s.subrange(hdr, s.len() as int)
    }
}

/// The last 4 bytes of the cell, the big-endian first overflow page number.
pub open spec fn overflow_ptr_seq(s: Seq<u8>) -> Seq<u8> {
    s.subrange(s.len() - 4, s.len() as int)
}

/// Relates a decoded `Payload` to the raw cell bytes `s`, the end `hdr` of
/// the header fields, and the declared total payload size `p`.
pub open spec fn payload_matches(pl: Payload, s: Seq<u8>, hdr: int, p: nat) -> bool {
    &&& pl.size as nat == p
    &&& pl.payload@ == local_payload_seq(s, hdr, p)
    &&& if payload_spills(p, s.len()) {
        pl.overflow matches Some(o) && o@ == overflow_ptr_seq(s)
    } else {
        pl.overflow is None
    }
}

/// The big-endian 32-bit value of the first 4 bytes of `s`.
pub open spec fn be_u32_of(s: Seq<u8>) -> int {
    s[0] * 0x100_0000 + s[1] * 0x1_0000 + s[2] * 0x100 + s[3]
}

/// Table leaf cell: payload-size varint, row-id varint, payload bytes.
pub open spec fn leaf_table_psize(s: Seq<u8>) -> nat {
    varint_value_of(s)
}

pub open spec fn leaf_table_hdr(s: Seq<u8>) -> int {
    varint_len_of(s) + varint_len_of(s.skip(varint_len_of(s)))
}

pub open spec fn leaf_table_row_id(s: Seq<u8>) -> nat {
    varint_value_of(s.skip(varint_len_of(s)))
}

pub open spec fn leaf_table_ok(s: Seq<u8>) -> bool {
    &&& varint_complete(s)
    &&& varint_complete(s.skip(varint_len_of(s)))
    &&& tail_wf(s, leaf_table_hdr(s), leaf_table_psize(s))
}

pub open spec fn leaf_table_err(s: Seq<u8>) -> DecodeError {
    if !varint_complete(s) || !varint_complete(s.skip(varint_len_of(s))) {
        DecodeError::TruncatedVarint
    } else {
        DecodeError::TruncatedPayload
    }
}

/// Index leaf cell: payload-size varint, then payload bytes.
pub open spec fn leaf_index_psize(s: Seq<u8>) -> nat {
    varint_value_of(s)
}

pub open spec fn leaf_index_hdr(s: Seq<u8>) -> int {
    varint_len_of(s)
}

pub open spec fn leaf_index_ok(s: Seq<u8>) -> bool {
    &&& varint_complete(s)
    &&& tail_wf(s, leaf_index_hdr(s), leaf_index_psize(s))
}

pub open spec fn leaf_index_err(s: Seq<u8>) -> DecodeError {
    if !varint_complete(s) {
        DecodeError::TruncatedVarint
    } else {
        DecodeError::TruncatedPayload
    }
}

/// Table interior cell: 4-byte left-child pointer, then the integer key.
pub open spec fn interior_table_ok(s: Seq<u8>) -> bool {
    s.len() >= 4 && varint_complete(s.skip(4))
}

pub open spec fn interior_table_key(s: Seq<u8>) -> nat {
    varint_value_of(s.skip(4))
}

pub open spec fn interior_table_err(s: Seq<u8>) -> DecodeError {
    if s.len() < 4 {
        DecodeError::TruncatedPointer
    } else {
        DecodeError::TruncatedVarint
    }
}

/// Index interior cell: 4-byte left-child pointer, payload-size varint,
/// then payload bytes.
pub open spec fn interior_index_psize(s: Seq<u8>) -> nat {
    varint_value_of(s.skip(4))
}

pub open spec fn interior_index_hdr(s: Seq<u8>) -> int {
    4 + varint_len_of(s.skip(4))
}

pub open spec fn interior_index_ok(s: Seq<u8>) -> bool {
    &&& s.len() >= 4
    &&& varint_complete(s.skip(4))
    &&& tail_wf(s, interior_index_hdr(s), interior_index_psize(s))
}

pub open spec fn interior_index_err(s: Seq<u8>) -> DecodeError {
    if s.len() < 4 {
        DecodeError::TruncatedPointer
    } else if !varint_complete(s.skip(4)) {
        DecodeError::TruncatedVarint
    } else {
        DecodeError::TruncatedPayload
    }
}

/// Reads the big-endian 32-bit value at the start of `b`.
fn read_be_u32(b: &[u8]) -> (r: u32)
    requires
        b@.len() >= 4,
    ensures
        r as int == be_u32_of(b@),
{
    (b[0] as u32) * 0x100_0000 + (b[1] as u32) * 0x1_0000 + (b[2] as u32) * 0x100 + (b[3] as u32)
}

/// Copies the last 4 bytes of `b`, the overflow page pointer.
fn read_overflow_ptr(b: &[u8]) -> (r: [u8; 4])
    requires
        b@.len() >= 4,
    ensures
        r@ == overflow_ptr_seq(b@),
{
    let len = b.len();
    let r = [b[len - 4], b[len - 3], b[len - 2], b[len - 1]];
    proof {
        assert(r@ =~= overflow_ptr_seq(b@));
    }
    r
}

/// Decodes a table leaf cell: the row id and the payload, with the last 4
/// bytes split off as the overflow pointer when the declared payload size
/// exceeds the cell's size.
pub fn parse_leaf_table_cell(cell: Cell, cell_buf: &[u8]) -> (r: Result<
    (u64, Payload),
    DecodeError,
>)
    requires
        cell.size == cell_buf@.len(),
    ensures
        r is Ok <==> leaf_table_ok(cell_buf@),
        r matches Ok(t) ==> {
            &&& t.0 as nat == leaf_table_row_id(cell_buf@)
            &&& payload_matches(t.1, cell_buf@, leaf_table_hdr(cell_buf@), leaf_table_psize(cell_buf@))
        },
        r matches Err(e) ==> e == leaf_table_err(cell_buf@),
{
    let ghost s = cell_buf@;
    let len = cell_buf.len();
    let (psize, n1) = match decode_be(cell_buf) {
        Ok(t) => t,
        Err(_) => {
            return Err(DecodeError::TruncatedVarint);
        },
    };
    let rest = slice_subrange(cell_buf, n1, len);
    proof {
        assert(s.subrange(n1 as int, s.len() as int) =~= s.skip(n1 as int));
    }
    let (row_id, n2) = match decode_be(rest) {
        Ok(t) => t,
        Err(_) => {
            return Err(DecodeError::TruncatedVarint);
        },
    };
    let hdr = n1 + n2;
    if psize > cell.size as u64 {
        if len < 4 || hdr > len - 4 {
            return Err(DecodeError::TruncatedPayload);
        }
        let data = slice_to_vec(slice_subrange(cell_buf, hdr, len - 4));
        let ovf = read_overflow_ptr(cell_buf);
        Ok((row_id, Payload { size: psize, payload: data, overflow: Some(ovf) }))
    } else {
        let data = slice_to_vec(slice_subrange(cell_buf, hdr, len));
        Ok((row_id, Payload { size: psize, payload: data, overflow: None }))
    }
}

/// Decodes a table interior cell: the left-child page pointer and the
/// integer key. Such a cell carries no payload.
pub fn parse_interior_table_cell(cell_buf: &[u8]) -> (r: Result<(u32, u64), DecodeError>)
    ensures
        r is Ok <==> interior_table_ok(cell_buf@),
        r matches Ok(t) ==> {
            &&& t.0 as int == be_u32_of(cell_buf@)
            &&& t.1 as nat == interior_table_key(cell_buf@)
        },
        r matches Err(e) ==> e == interior_table_err(cell_buf@),
{
    let ghost s = cell_buf@;
    let len = cell_buf.len();
    if len < 4 {
        return Err(DecodeError::TruncatedPointer);
    }
    let left_child_ptr = read_be_u32(cell_buf);
    let rest = slice_subrange(cell_buf, 4, len);
    proof {
        assert(s.subrange(4, s.len() as int) =~= s.skip(4));
    }
    match decode_be(rest) {
        Ok((integer_key, _)) => Ok((left_child_ptr, integer_key)),
        Err(_) => Err(DecodeError::TruncatedVarint),
    }
}

/// Decodes an index leaf cell: the payload, split as for a table leaf.
pub fn parse_leaf_index_cell(cell: Cell, cell_buf: &[u8]) -> (r: Result<Payload, DecodeError>)
    requires
        cell.size == cell_buf@.len(),
    ensures
        r is Ok <==> leaf_index_ok(cell_buf@),
        r matches Ok(pl) ==> payload_matches(
            pl,
            cell_buf@,
            leaf_index_hdr(cell_buf@),
            leaf_index_psize(cell_buf@),
        ),
        r matches Err(e) ==> e == leaf_index_err(cell_buf@),
{
    let len = cell_buf.len();
    let (psize, n1) = match decode_be(cell_buf) {
        Ok(t) => t,
        Err(_) => {
            return Err(DecodeError::TruncatedVarint);
        },
    };
    if psize > cell.size as u64 {
        if len < 4 || n1 > len - 4 {
            return Err(DecodeError::TruncatedPayload);
        }
        let data = slice_to_vec(slice_subrange(cell_buf, n1, len - 4));
        let ovf = read_overflow_ptr(cell_buf);
        Ok(Payload { size: psize, payload: data, overflow: Some(ovf) })
    } else {
        let data = slice_to_vec(slice_subrange(cell_buf, n1, len));
        Ok(Payload { size: psize, payload: data, overflow: None })
    }
}

/// Decodes an index interior cell: the left-child page pointer and the
/// payload, split as for a table leaf.
pub fn parse_interior_index_cell(cell: Cell, cell_buf: &[u8]) -> (r: Result<
    (u32, Payload),
    DecodeError,
>)
    requires
        cell.size == cell_buf@.len(),
    ensures
        r is Ok <==> interior_index_ok(cell_buf@),
        r matches Ok(t) ==> {
            &&& t.0 as int == be_u32_of(cell_buf@)
            &&& payload_matches(
                t.1,
                cell_buf@,
                interior_index_hdr(cell_buf@),
                interior_index_psize(cell_buf@),
            )
        },
        r matches Err(e) ==> e == interior_index_err(cell_buf@),
{
    let ghost s = cell_buf@;
    let len = cell_buf.len();
    if len < 4 {
        return Err(DecodeError::TruncatedPointer);
    }
    let left_child_ptr = read_be_u32(cell_buf);
    let rest = slice_subrange(cell_buf, 4, len);
    proof {
        assert(s.subrange(4, s.len() as int) =~= s.skip(4));
    }
    let (psize, n1) = match decode_be(rest) {
        Ok(t) => t,
        Err(_) => {
            return Err(DecodeError::TruncatedVarint);
        },
    };
    let hdr = 4 + n1;
    if psize > cell.size as u64 {
        if hdr > len - 4 {
            return Err(DecodeError::TruncatedPayload);
        }
        let data = slice_to_vec(slice_subrange(cell_buf, hdr, len - 4));
        let ovf = read_overflow_ptr(cell_buf);
        Ok((left_child_ptr, Payload { size: psize, payload: data, overflow: Some(ovf) }))
    } else {
        let data = slice_to_vec(slice_subrange(cell_buf, hdr, len));
        Ok((left_child_ptr, Payload { size: psize, payload: data, overflow: None }))
    }
}

/// A field accessor was called on a variant that lacks the field: names
/// the variant's label and the requested field.
#[derive(Clone, Copy, Debug)]
pub struct InvalidFieldError {
    pub cell_type: &'static str,
    pub field_name: &'static str,
}

impl InvalidFieldError {
    pub fn new(cell_type: &'static str, field_name: &'static str) -> (r: Self)
        ensures
            r.cell_type == cell_type,
            r.field_name == field_name,
    {
        Self { cell_type, field_name }
    }
}

/// One decoded cell: exactly the fields its on-disk layout carries, plus a
/// human-readable label for error messages.
#[derive(Debug)]
pub enum CellContent {
    LeafTable { cell_type: &'static str, row_id: u64, payload: Payload },
    LeafIndex { cell_type: &'static str, payload: Payload },
    InteriorIndex { cell_type: &'static str, left_child_ptr: u32, payload: Payload },
    InteriorTable { cell_type: &'static str, left_child_ptr: u32, integer_key: u64 },
}

impl CellContent {
    /// The variant's human-readable label.
    pub open spec fn label(self) -> Seq<char> {
        match self {
            CellContent::LeafTable { cell_type, .. } => cell_type@,
            CellContent::LeafIndex { cell_type, .. } => cell_type@,
            CellContent::InteriorIndex { cell_type, .. } => cell_type@,
            CellContent::InteriorTable { cell_type, .. } => cell_type@,
        }
    }

    /// Decodes one cell's raw bytes by the page's declared type alone: the
    /// four layouts are never guessed from byte content.
    pub fn get_cell_data(page_type: PageType, cell: Cell, cell_buf: &[u8]) -> (r: Result<
        Self,
        DecodeError,
    >)
        requires
            cell.size == cell_buf@.len(),
        ensures
            page_type == PageType::LeafTable ==> {
                &&& r is Ok <==> leaf_table_ok(cell_buf@)
                &&& r matches Ok(c) ==> c matches CellContent::LeafTable { cell_type, row_id, payload }
                    && cell_type@ == "B-Tree Leaf Table"@
                    && row_id as nat == leaf_table_row_id(cell_buf@)
                    && payload_matches(
                    payload,
                    cell_buf@,
                    leaf_table_hdr(cell_buf@),
                    leaf_table_psize(cell_buf@),
                )
                &&& r matches Err(e) ==> e == leaf_table_err(cell_buf@)
            },
            page_type == PageType::InteriorTable ==> {
                &&& r is Ok <==> interior_table_ok(cell_buf@)
                &&& r matches Ok(c) ==> c matches CellContent::InteriorTable {
                    cell_type,
                    left_child_ptr,
                    integer_key,
                } && cell_type@ == "B-Tree Interior Table"@
                    && left_child_ptr as int == be_u32_of(cell_buf@)
                    && integer_key as nat == interior_table_key(cell_buf@)
                &&& r matches Err(e) ==> e == interior_table_err(cell_buf@)
            },
            page_type == PageType::LeafIndex ==> {
                &&& r is Ok <==> leaf_index_ok(cell_buf@)
                &&& r matches Ok(c) ==> c matches CellContent::LeafIndex { cell_type, payload }
                    && cell_type@ == "B-Tree Leaf Index"@
                    && payload_matches(
                    payload,
                    cell_buf@,
                    leaf_index_hdr(cell_buf@),
                    leaf_index_psize(cell_buf@),
                )
                &&& r matches Err(e) ==> e == leaf_index_err(cell_buf@)
            },
            page_type == PageType::InteriorIndex ==> {
                &&& r is Ok <==> interior_index_ok(cell_buf@)
                &&& r matches Ok(c) ==> c matches CellContent::InteriorIndex {
                    cell_type,
                    left_child_ptr,
                    payload,
                } && cell_type@ == "B-Tree Interior Index"@
                    && left_child_ptr as int == be_u32_of(cell_buf@)
                    && payload_matches(
                    payload,
                    cell_buf@,
                    interior_index_hdr(cell_buf@),
                    interior_index_psize(cell_buf@),
                )
                &&& r matches Err(e) ==> e == interior_index_err(cell_buf@)
            },
    {
        match page_type {
            PageType::LeafTable => {
                let cell_type = "B-Tree Leaf Table";
                match parse_leaf_table_cell(cell, cell_buf) {
                    Ok((row_id, payload)) => Ok(CellContent::LeafTable { cell_type, row_id, payload }),
                    Err(e) => Err(e),
                }
            },
            PageType::InteriorTable => {
                let cell_type = "B-Tree Interior Table";
                match parse_interior_table_cell(cell_buf) {
                    Ok((left_child_ptr, integer_key)) => Ok(
                        CellContent::InteriorTable { cell_type, left_child_ptr, integer_key },
                    ),
                    Err(e) => Err(e),
                }
            },
            PageType::LeafIndex => {
                let cell_type = "B-Tree Leaf Index";
                match parse_leaf_index_cell(cell, cell_buf) {
                    Ok(payload) => Ok(CellContent::LeafIndex { cell_type, payload }),
                    Err(e) => Err(e),
                }
            },
            PageType::InteriorIndex => {
                let cell_type = "B-Tree Interior Index";
                match parse_interior_index_cell(cell, cell_buf) {
                    Ok((left_child_ptr, payload)) => Ok(
                        CellContent::InteriorIndex { cell_type, left_child_ptr, payload },
                    ),
                    Err(e) => Err(e),
                }
            },
        }
    }

    /// The payload bytes stored in the cell. Of the four variants only a
    /// table interior cell carries none, and the call then fails, naming
    /// the variant's label and the missing field.
    pub fn get_payload(&self) -> (r: Result<&[u8], InvalidFieldError>)
        ensures
            r is Ok <==> !(self is InteriorTable),
            self matches CellContent::LeafTable { payload, .. } ==> r matches Ok(p) && p@
                == payload.payload@,
            self matches CellContent::LeafIndex { payload, .. } ==> r matches Ok(p) && p@
                == payload.payload@,
            self matches CellContent::InteriorIndex { payload, .. } ==> r matches Ok(p) && p@
                == payload.payload@,
            r matches Err(e) ==> e.cell_type@ == self.label() && e.field_name@ == "payload"@,
    {
        match self {
            CellContent::LeafTable { payload, .. } => Ok(payload.payload.as_slice()),
            CellContent::LeafIndex { payload, .. } => Ok(payload.payload.as_slice()),
            CellContent::InteriorIndex { payload, .. } => Ok(payload.payload.as_slice()),
            CellContent::InteriorTable { cell_type, .. } => Err(
                InvalidFieldError::new(cell_type, "payload"),
            ),
        }
    }

    /// The left-child page pointer: present on the two interior variants
    /// only; the call fails on a leaf, naming the variant's label.
    pub fn get_left_child_pointer(&self) -> (r: Result<u32, InvalidFieldError>)
        ensures
            r is Ok <==> (self is InteriorTable || self is InteriorIndex),
            self matches CellContent::InteriorTable { left_child_ptr, .. } ==> r == Ok::<
                u32,
                InvalidFieldError,
            >(*left_child_ptr),
            self matches CellContent::InteriorIndex { left_child_ptr, .. } ==> r == Ok::<
                u32,
                InvalidFieldError,
            >(*left_child_ptr),
            r matches Err(e) ==> e.cell_type@ == self.label() && e.field_name@
                == "left_child_ptr"@,
    {
        match self {
            CellContent::InteriorTable { left_child_ptr, .. } => Ok(*left_child_ptr),
            CellContent::InteriorIndex { left_child_ptr, .. } => Ok(*left_child_ptr),
            CellContent::LeafTable { cell_type, .. } => Err(
                InvalidFieldError::new(cell_type, "left_child_ptr"),
            ),
            CellContent::LeafIndex { cell_type, .. } => Err(
                InvalidFieldError::new(cell_type, "left_child_ptr"),
            ),
        }
    }

    /// The row id: present on a table leaf only; the call fails on the
    /// other three variants, naming the variant's label.
    pub fn get_row_id(&self) -> (r: Result<u64, InvalidFieldError>)
        ensures
            r is Ok <==> self is LeafTable,
            self matches CellContent::LeafTable { row_id, .. } ==> r == Ok::<
                u64,
                InvalidFieldError,
            >(*row_id),
            r matches Err(e) ==> e.cell_type@ == self.label() && e.field_name@ == "row_id"@,
    {
        match self {
            CellContent::LeafTable { row_id, .. } => Ok(*row_id),
            CellContent::InteriorTable { cell_type, .. } => Err(
                InvalidFieldError::new(cell_type, "row_id"),
            ),
            CellContent::InteriorIndex { cell_type, .. } => Err(
                InvalidFieldError::new(cell_type, "row_id"),
            ),
            CellContent::LeafIndex { cell_type, .. } => Err(
                InvalidFieldError::new(cell_type, "row_id"),
            ),
        }
    }
}

} // verus!

