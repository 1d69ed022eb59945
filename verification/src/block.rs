//! Chunks and the decoder that builds them from raw backend bytes.
//!
//! A chunk (`Block`) is a fixed 16x16x16 grid of cells plus a palette that
//! maps each numeric cell id to a block name.  Cells are stored in a fixed
//! linear order: x fastest, then y, then z, so cell `(x, y, z)` sits at index
//! `x + 16*y + 256*z`.
//!
//! Wire format (version 1), as produced by the storage backends:
//! - 4096 cell ids, two bytes each, little endian (8192 bytes);
//! - a two-byte little-endian palette entry count;
//! - that many palette entries, each one length byte followed by that many
//!   name bytes, every name byte below 0x80;
//! - nothing after the last entry.
//! A payload is structurally valid when it has this exact shape, every cell
//! id falls below the palette entry count, and some palette entry is the
//! empty-cell sentinel name "air".  `Block::parse_data` accepts exactly the
//! structurally valid payloads and fails with `CorruptData` on every other.

use vstd::prelude::*;

use crate::mesh::Vec3i;

verus! {

/// The sentinel block name that marks a cell as empty.
pub open spec fn air_name() -> Seq<char> {
    seq!['a', 'i', 'r']
}

/// The mathematical content of a chunk: the cell ids in linear order and the
/// palette names in id order.
#[verifier::ext_equal]
pub struct BlockModel {
    pub cells: Seq<u16>,
    pub palette: Seq<Seq<char>>,
}

/// Linear index of cell `(x, y, z)`; x varies fastest, then y, then z.
pub open spec fn cell_index(x: int, y: int, z: int) -> int {
    x + 16 * y + 256 * z
}

/// A well-formed chunk: full cell grid, every id resolved by the palette,
/// and the palette names the empty-cell sentinel.
pub open spec fn block_wf(m: BlockModel) -> bool {
    &&& m.cells.len() == 4096
    &&& forall|i: int| 0 <= i < 4096 ==> (#[trigger] m.cells[i] as int) < m.palette.len()
    &&& exists|i: int| 0 <= i < m.palette.len() && #[trigger] m.palette[i] == air_name()
}

/// The 16-bit value encoded by two little-endian bytes.
pub open spec fn le16(lo: u8, hi: u8) -> u16 {
    (lo + 256 * hi) as u16
}

/// The 4096 cell ids encoded at the front of a payload.
pub open spec fn spec_cells(bytes: Seq<u8>) -> Seq<u16> {
    Seq::new(4096, |i: int| le16(bytes[2 * i], bytes[2 * i + 1]))
}

/// Every byte of an encoded name is plain ASCII.
pub open spec fn name_bytes_ok(bs: Seq<u8>) -> bool {
    forall|i: int| 0 <= i < bs.len() ==> #[trigger] bs[i] < 128
}

/// The name spelled by a run of ASCII bytes.
pub open spec fn decode_name(bs: Seq<u8>) -> Seq<char> {
    bs.map_values(|b: u8| b as char)
}

/// Decodes exactly `n` length-prefixed palette entries from `bytes`, which
/// must be consumed whole; `None` on any structural fault.
pub open spec fn spec_palette(bytes: Seq<u8>, n: nat) -> Option<Seq<Seq<char>>>
    decreases n,
{
    if n == 0 {
        if bytes.len() == 0 {
            Some(Seq::empty())
        } else {
            None
        }
    } else if bytes.len() < 1 {
        None
    } else {
        let l = bytes[0] as int;
        if bytes.len() < 1 + l {
            None
        } else if !name_bytes_ok(bytes.subrange(1, 1 + l)) {
            None
        } else {
            match spec_palette(bytes.subrange(1 + l, bytes.len() as int), (n - 1) as nat) {
                Some(rest) => Some(seq![decode_name(bytes.subrange(1, 1 + l))] + rest),
                None => None,
            }
        }
    }
}

/// The chunk encoded by a payload, or `None` when the payload is
/// structurally invalid: wrong shape, a cell id the palette cannot resolve,
/// or a palette without the empty-cell sentinel.
pub open spec fn spec_parse(bytes: Seq<u8>) -> Option<BlockModel> {
    if bytes.len() < 8194 {
        None
    } else {
        let cells = spec_cells(bytes);
        let count = le16(bytes[8192], bytes[8193]);
        match spec_palette(bytes.subrange(8194, bytes.len() as int), count as nat) {
            Some(palette) => {
                if (forall|i: int| 0 <= i < 4096 ==> (#[trigger] cells[i] as int) < palette.len())
                    && (exists|i: int|
                    0 <= i < palette.len() && #[trigger] palette[i] == air_name()) {
                    Some(BlockModel { cells, palette })
                } else {
                    None
                }
            },
            None => None,
        }
    }
}

/// Every payload the decoder accepts yields a well-formed chunk: the decoder
/// is the sole gate enforcing chunk validity.
pub proof fn lemma_parse_wf(bytes: Seq<u8>)
    ensures
        spec_parse(bytes) is Some ==> block_wf(spec_parse(bytes)->Some_0),
{
    if spec_parse(bytes) is Some {
        let m = spec_parse(bytes)->Some_0;
        let cells = spec_cells(bytes);
        let count = le16(bytes[8192], bytes[8193]);
        let pal = spec_palette(bytes.subrange(8194, bytes.len() as int), count as nat)->Some_0;
        assert(m == BlockModel { cells, palette: pal });
        assert(m.cells.len() == 4096);
        assert(forall|i: int| 0 <= i < 4096 ==> (#[trigger] m.cells[i] as int) < m.palette.len());
        assert(exists|i: int| 0 <= i < pal.len() && #[trigger] pal[i] == air_name());
        let k = choose|i: int| 0 <= i < pal.len() && #[trigger] pal[i] == air_name();
        assert(0 <= k < m.palette.len() && m.palette[k] == air_name());
    }
}

/// Decoding failure: the payload is not a structurally valid chunk.
#[derive(Clone, Copy, Debug, PartialEq, Eq, Structural)]
pub enum DecodeError {
    CorruptData,
}

/// One cell of a chunk, read back through `Block::get_node`.
#[derive(Clone, Copy, Debug, PartialEq, Eq, Structural)]
pub struct Node {
    pub id: u16,
}

/// A decoded chunk: the unit of storage, transfer and meshing.  Constructed
/// only by `parse_data` and immutable afterwards, so the well-formedness that
/// decoding establishes holds for its whole lifetime.
#[derive(Debug)]
pub struct Block {
    cells: Vec<u16>,
    palette: Vec<String>,
}

impl View for Block {
    type V = BlockModel;

    closed spec fn view(&self) -> BlockModel {
        BlockModel { cells: self.cells@, palette: self.palette.deep_view() }
    }
}

/// Relies on String::push: appends exactly the given character to the end of
/// the string.
#[verifier::external_body]
fn push_char(s: &mut String, c: char)
    ensures
        final(s)@ == old(s)@.push(c),
{
    s.push(c);
}

/// Whether a name is the empty-cell sentinel "air".
pub fn is_air(name: &str) -> (r: bool)
    ensures
        r == (name@ == air_name()),
{
    if name.unicode_len() != 3 {
        assert(name@ != air_name());
        return false;
    }
    let r = name.get_char(0) == 'a' && name.get_char(1) == 'i' && name.get_char(2) == 'r';
    proof {
        if r {
            assert(name@ =~= air_name());
        }
    }
    r
}

/// Reads the little-endian 16-bit value at byte offset `off`.
fn read_u16_le(data: &[u8], off: usize) -> (r: u16)
    requires
        off + 1 < data@.len(),
    ensures
        r == le16(data@[off as int], data@[off as int + 1]),
{
    let lo = data[off];
    let hi = data[off + 1];
    lo as u16 + 256 * (hi as u16)
}

/// Reads the 4096 cell ids at the front of a payload.
fn read_cells(data: &[u8]) -> (r: Vec<u16>)
    requires
        data@.len() >= 8194,
    ensures
        r@ == spec_cells(data@),
{
    let mut cells: Vec<u16> = Vec::new();
    for i in 0..4096usize
        invariant
            data@.len() >= 8194,
            cells@.len() == i,
            forall|j: int| 0 <= j < i ==> cells@[j] == #[trigger] spec_cells(data@)[j],
    {
        let v = read_u16_le(data, 2 * i);
        cells.push(v);
    }
    assert(cells@ =~= spec_cells(data@));
    cells
}

/// Decodes one length-prefixed palette entry starting at `pos`; `None` when
/// the entry overruns the payload or holds a non-ASCII byte.
fn parse_name(data: &[u8], pos: usize) -> (r: Option<(String, usize)>)
    requires
        pos < data@.len(),
    ensures
        match r {
            Some(p) => {
                let l = data@[pos as int] as int;
                &&& data@.len() >= pos + 1 + l
                &&& name_bytes_ok(data@.subrange(pos + 1, pos + 1 + l))
                &&& p.0@ == decode_name(data@.subrange(pos + 1, pos + 1 + l))
                &&& p.1 == pos + 1 + l
            },
            None => {
                let l = data@[pos as int] as int;
                data@.len() < pos + 1 + l || !name_bytes_ok(
                    data@.subrange(pos + 1, pos + 1 + l),
                )
            },
        },
{
    let dlen = data.len();
    let l = data[pos] as usize;
    if dlen - pos - 1 < l {
        return None;
    }
    let mut name = String::new();
    proof {
        assert(decode_name(data@.subrange(pos + 1, pos + 1)) =~= Seq::<char>::empty());
    }
    for j in 0..l
        invariant
            pos + 1 + l <= dlen && dlen == data@.len(),
            l == data@[pos as int],
            name@ == decode_name(data@.subrange(pos + 1, pos + 1 + j)),
            name_bytes_ok(data@.subrange(pos + 1, pos + 1 + j)),
    {
        let b = data[pos + 1 + j];
        if b >= 128 {
            proof {
                assert(data@.subrange(pos + 1, pos + 1 + (l as int))[j as int] == b);
            }
            return None;
        }
        push_char(&mut name, b as char);
        proof {
            assert(data@.subrange(pos + 1, pos + 1 + (j + 1)) =~= data@.subrange(
                pos + 1,
                pos + 1 + (j as int),
            ).push(b));
            assert(name@ =~= decode_name(data@.subrange(pos + 1, pos + 1 + (j + 1))));
        }
    }
    Some((name, pos + 1 + l))
}

/// Decodes the palette region, which runs from byte 8194 to the end of the
/// payload and must hold exactly `count` entries.
fn parse_palette(data: &[u8], count: u16) -> (r: Option<Vec<String>>)
    requires
        data@.len() >= 8194,
    ensures
        match r {
            Some(v) => {
                &&& spec_palette(data@.subrange(8194, data@.len() as int), count as nat) == Some(
                    v.deep_view(),
                )
                &&& v@.len() == count
            },
            None => spec_palette(data@.subrange(8194, data@.len() as int), count as nat)
                is None,
        },
{
    let ghost whole: Seq<u8> = data@.subrange(8194, data@.len() as int);
    let mut names: Vec<String> = Vec::new();
    let mut pos: usize = 8194;
    let mut k: u16 = 0;
    while k < count
        invariant
            data@.len() >= 8194,
            whole == data@.subrange(8194, data@.len() as int),
            8194 <= pos <= data@.len(),
            k <= count,
            names@.len() == k,
            spec_palette(whole, count as nat) == (match spec_palette(
                data@.subrange(pos as int, data@.len() as int),
                (count - k) as nat,
            ) {
                Some(rest) => Some(names.deep_view() + rest),
                None => None,
            }),
        decreases count - k,
    {
        let ghost tail: Seq<u8> = data@.subrange(pos as int, data@.len() as int);
        if pos >= data.len() {
            // an entry is owed but no bytes are left
            return None;
        }
        let parsed = parse_name(data, pos);
        proof {
            let l = data@[pos as int] as int;
            assert(tail[0] == data@[pos as int]);
            if data@.len() >= pos + 1 + l {
                assert(tail.subrange(1, 1 + l) =~= data@.subrange(pos + 1, pos + 1 + l));
                assert(tail.subrange(1 + l, tail.len() as int) =~= data@.subrange(
                    pos + 1 + l,
                    data@.len() as int,
                ));
            }
        }
        match parsed {
            None => {
                return None;
            },
            Some((name, next)) => {
                proof {
                    let l = data@[pos as int] as int;
                    let rest_tail = data@.subrange(pos + 1 + l, data@.len() as int);
                    assert(spec_palette(tail, (count - k) as nat) == (match spec_palette(
                        rest_tail,
                        (count - k - 1) as nat,
                    ) {
                        Some(rest) => Some(
                            seq![decode_name(data@.subrange(pos + 1, pos + 1 + l))] + rest,
                        ),
                        None => None,
                    }));
                }
                let ghost old_names = names.deep_view();
                let ghost namev = name@;
                names.push(name);
                proof {
                    assert(names.deep_view() =~= old_names.push(namev));
                    assert(forall|rest: Seq<Seq<char>>|
                        old_names + (seq![namev] + rest) =~= #[trigger] (old_names.push(namev)
                            + rest));
                }
                pos = next;
                k = k + 1;
            },
        }
    }
    if pos != data.len() {
        // trailing bytes after the last palette entry
        proof {
            assert(data@.subrange(pos as int, data@.len() as int).len() > 0);
        }
        return None;
    }
    proof {
        assert(data@.subrange(pos as int, data@.len() as int).len() == 0);
        assert(names.deep_view() + Seq::<Seq<char>>::empty() =~= names.deep_view());
    }
    Some(names)
}

impl Block {
    /// Decodes a raw backend payload into a chunk.  Returns the chunk
    /// exactly when the payload is structurally valid (see the module
    /// description) and `CorruptData` otherwise; never panics.
    pub fn parse_data(data: &[u8]) -> (r: Result<Self, DecodeError>)
        ensures
            match r {
                Ok(b) => spec_parse(data@) == Some(b@) && block_wf(b@),
                Err(e) => spec_parse(data@) is None && e == DecodeError::CorruptData,
            },
    {
        if data.len() < 8194 {
            return Err(DecodeError::CorruptData);
        }
        let cells = read_cells(data);
        let count = read_u16_le(data, 8192);
        let palette = match parse_palette(data, count) {
            Some(p) => p,
            None => {
                return Err(DecodeError::CorruptData);
            },
        };
        // every cell id must resolve in the palette
        for i in 0..4096usize
            invariant
                data@.len() >= 8194,
                cells@ == spec_cells(data@),
                count == le16(data@[8192], data@[8193]),
                palette@.len() == count,
                spec_palette(data@.subrange(8194, data@.len() as int), count as nat) == Some(
                    palette.deep_view(),
                ),
                forall|j: int| 0 <= j < i ==> (#[trigger] cells@[j] as int) < palette@.len(),
        {
            if cells[i] >= count {
                proof {
                    assert(spec_cells(data@)[i as int] == cells@[i as int]);
                    assert(palette.deep_view().len() == palette@.len());
                }
                return Err(DecodeError::CorruptData);
            }
        }
        // the palette must name the empty-cell sentinel
        let mut has_air = false;
        let plen = palette.len();
        for i in 0..plen
            invariant
                plen == palette@.len(),
                has_air == exists|j: int|
                    0 <= j < i && #[trigger] palette.deep_view()[j] == air_name(),
        {
            proof {
                assert(palette.deep_view()[i as int] == palette@[i as int]@);
            }
            if is_air(palette[i].as_str()) {
                has_air = true;
            }
        }
        if !has_air {
            proof {
                let pal = palette.deep_view();
                assert(!(exists|i: int| 0 <= i < pal.len() && #[trigger] pal[i] == air_name()));
            }
            return Err(DecodeError::CorruptData);
        }
        let b = Block { cells, palette };
        proof {
            assert(b@.palette.len() == palette@.len());
            assert(spec_parse(data@) == Some(b@)) by {
                assert(BlockModel {
                    cells: spec_cells(data@),
                    palette: b@.palette,
                } =~= b@);
            }
        }
        Ok(b)
    }

    /// The cell at chunk-local position `pos`; positions run 0..16 per axis.
    pub fn get_node(&self, pos: Vec3i) -> (n: Node)
        requires
            block_wf(self@),
            0 <= pos.x < 16,
            0 <= pos.y < 16,
            0 <= pos.z < 16,
        ensures
            n.id == self@.cells[cell_index(pos.x as int, pos.y as int, pos.z as int)],
    {
        let idx: usize = pos.x as usize + 16 * pos.y as usize + 256 * pos.z as usize;
        Node { id: self.cells[idx] }
    }

    /// The palette name of a cell id, or `None` for an id the palette does
    /// not cover.
    pub fn get_name_by_id(&self, id: u16) -> (r: Option<&String>)
        ensures
            match r {
                Some(s) => (id as int) < self@.palette.len() && s@ == self@.palette[id as int],
                None => (id as int) >= self@.palette.len(),
            },
    {
        if (id as usize) < self.palette.len() {
            Some(&self.palette[id as usize])
        } else {
            None
        }
    }

    /// How many names the palette holds.
    pub fn palette_len(&self) -> (n: usize)
        ensures
            n == self@.palette.len(),
    {
        self.palette.len()
    }
}

} // verus!
