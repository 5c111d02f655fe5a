//! Raw export of per-voxel channels in storage order: one bit per voxel for the edge
//! and fill states, packed eight to a byte with the first voxel in the most
//! significant bit; one byte per channel per voxel for color, metallic and roughness.

use vstd::prelude::*;

use crate::grid::VoxelGrid;
use crate::voxel::VoxelData;

verus! {

/// The channels that a voxel grid can be exported as.
#[derive(Clone, Copy, PartialEq, Eq, Debug)]
pub enum VoxelExportType {
    BinaryEdgeStateU1,
    BinaryFillStateU1,
    LinearRgb8ColorU8,
    MetallicValueU8,
    RoughnessValueU8,
}

/// One bit per voxel: set for edge voxels.
pub open spec fn edge_bits<C, V>(voxels: Seq<VoxelData<C, V>>) -> Seq<bool> {
    Seq::new(voxels.len(), |i: int| voxels[i] is Edge)
}

/// One bit per voxel: set for edge and inside voxels.
pub open spec fn fill_bits<C, V>(voxels: Seq<VoxelData<C, V>>) -> Seq<bool> {
    Seq::new(voxels.len(), |i: int| !(voxels[i] is Empty))
}

pub open spec fn state_bits<C, V>(voxels: Seq<VoxelData<C, V>>, fill: bool) -> Seq<bool> {
    if fill {
        fill_bits(voxels)
    } else {
        edge_bits(voxels)
    }
}

/// Bit `i` as 0 or 1, 0 past the end.
pub open spec fn bit_at(bits: Seq<bool>, i: int) -> u8 {
    if 0 <= i < bits.len() && bits[i] {
        1
    } else {
        0
    }
}

/// Eight bits in one byte, the first in the most significant position.
pub open spec fn pack_byte(b0: u8, b1: u8, b2: u8, b3: u8, b4: u8, b5: u8, b6: u8, b7: u8) -> u8 {
    (b0 << 7u8) | (b1 << 6u8) | (b2 << 5u8) | (b3 << 4u8) | (b4 << 3u8) | (b5 << 2u8) | (b6 << 1u8)
        | b7
}

/// Byte `k` of the packed stream: bits 8k to 8k + 7, zero-padded past the end.
pub open spec fn packed_byte(bits: Seq<bool>, k: int) -> u8 {
    pack_byte(
        bit_at(bits, 8 * k),
        bit_at(bits, 8 * k + 1),
        bit_at(bits, 8 * k + 2),
        bit_at(bits, 8 * k + 3),
        bit_at(bits, 8 * k + 4),
        bit_at(bits, 8 * k + 5),
        bit_at(bits, 8 * k + 6),
        bit_at(bits, 8 * k + 7),
    )
}

/// The packed stream: ⌈n / 8⌉ bytes for n bits.
pub open spec fn packed_bits(bits: Seq<bool>) -> Seq<u8> {
    Seq::new(((bits.len() + 7) / 8) as nat, |k: int| packed_byte(bits, k))
}

/// Bit `i` read back from a packed stream, most significant bit first.
pub open spec fn unpacked_bit(bytes: Seq<u8>, i: int) -> bool {
    (bytes[i / 8] >> ((7 - i % 8) as u8)) & 1u8 == 1u8
}

fn bit_of(b: bool) -> (r: u8)
    ensures
        r == if b {
            1u8
        } else {
            0u8
        },
{
    if b {
        1
    } else {
        0
    }
}

/// The state bit of voxel `i`, 0 past the end.
fn state_bit<C, V>(voxels: &[VoxelData<C, V>], i: usize, fill: bool) -> (r: u8)
    ensures
        r == bit_at(state_bits(voxels@, fill), i as int),
{
    if i < voxels.len() {
        if fill {
            bit_of(voxels[i].is_filled())
        } else {
            bit_of(voxels[i].is_edge())
        }
    } else {
        0
    }
}

/// Byte `start / 8` of the packed state stream of `voxels`.
fn packed_state_byte<C, V>(voxels: &[VoxelData<C, V>], start: usize, fill: bool) -> (r: u8)
    requires
        start % 8 == 0,
        start < voxels@.len(),
    ensures
        r == packed_byte(state_bits(voxels@, fill), start as int / 8),
{
    let b0 = state_bit(voxels, start, fill);
    let b1 = state_bit(voxels, start + 1, fill);
    let b2 = state_bit(voxels, start + 2, fill);
    let b3 = state_bit(voxels, start + 3, fill);
    let b4 = state_bit(voxels, start + 4, fill);
    let b5 = state_bit(voxels, start + 5, fill);
    let b6 = state_bit(voxels, start + 6, fill);
    let b7 = state_bit(voxels, start + 7, fill);
    assert(8 * (start / 8) == start);
    (b0 << 7u8) | (b1 << 6u8) | (b2 << 5u8) | (b3 << 4u8) | (b4 << 3u8) | (b5 << 2u8) | (b6 << 1u8)
        | b7
}

/// The packed state stream of a sequence of voxels.
fn encode_state_bits<C, V>(voxels: &[VoxelData<C, V>], fill: bool) -> (r: Vec<u8>)
    ensures
        r@ == packed_bits(state_bits(voxels@, fill)),
{
    let n = voxels.len();
    let count: usize = if n % 8 == 0 {
        n / 8
    } else {
        n / 8 + 1
    };
    let mut bytes: Vec<u8> = Vec::with_capacity(count);
    let mut k: usize = 0;
    while k < count
        invariant
            n == voxels@.len(),
            count == (n + 7) / 8,
            k <= count,
            bytes@.len() == k,
            forall|j: int|
                0 <= j < k ==> #[trigger] bytes@[j] == packed_byte(state_bits(voxels@, fill), j),
        decreases count - k,
    {
        let byte = packed_state_byte(voxels, 8 * k, fill);
        bytes.push(byte);
        k = k + 1;
    }
    assert(bytes@ =~= packed_bits(state_bits(voxels@, fill)));
    bytes
}

/// The binary-edge stream of a grid: one bit per voxel, set for edge voxels,
/// ⌈n / 8⌉ bytes for n voxels.
pub fn encode_binary_edge_state_u1<C, V>(grid: &VoxelGrid<VoxelData<C, V>>) -> (r: Vec<u8>)
    ensures
        r@ == packed_bits(edge_bits(grid.cells())),
        r@.len() == (grid.cells().len() + 7) / 8,
{
    encode_state_bits(grid.voxels(), false)
}

/// The binary-fill stream of a grid: one bit per voxel, set for edge and inside
/// voxels, ⌈n / 8⌉ bytes for n voxels.
pub fn encode_binary_fill_state_u1<C, V>(grid: &VoxelGrid<VoxelData<C, V>>) -> (r: Vec<u8>)
    ensures
        r@ == packed_bits(fill_bits(grid.cells())),
        r@.len() == (grid.cells().len() + 7) / 8,
{
    encode_state_bits(grid.voxels(), true)
}

/// Each of eight 0-or-1 bits packed into a byte reads back at its position.
proof fn lemma_pack_byte_bits(b0: u8, b1: u8, b2: u8, b3: u8, b4: u8, b5: u8, b6: u8, b7: u8)
    requires
        b0 <= 1 && b1 <= 1 && b2 <= 1 && b3 <= 1,
        b4 <= 1 && b5 <= 1 && b6 <= 1 && b7 <= 1,
    ensures
        (pack_byte(b0, b1, b2, b3, b4, b5, b6, b7) >> 7u8) & 1u8 == b0,
        (pack_byte(b0, b1, b2, b3, b4, b5, b6, b7) >> 6u8) & 1u8 == b1,
        (pack_byte(b0, b1, b2, b3, b4, b5, b6, b7) >> 5u8) & 1u8 == b2,
        (pack_byte(b0, b1, b2, b3, b4, b5, b6, b7) >> 4u8) & 1u8 == b3,
        (pack_byte(b0, b1, b2, b3, b4, b5, b6, b7) >> 3u8) & 1u8 == b4,
        (pack_byte(b0, b1, b2, b3, b4, b5, b6, b7) >> 2u8) & 1u8 == b5,
        (pack_byte(b0, b1, b2, b3, b4, b5, b6, b7) >> 1u8) & 1u8 == b6,
        (pack_byte(b0, b1, b2, b3, b4, b5, b6, b7) >> 0u8) & 1u8 == b7,
{
    let p = pack_byte(b0, b1, b2, b3, b4, b5, b6, b7);
    assert(p == (b0 << 7u8) | (b1 << 6u8) | (b2 << 5u8) | (b3 << 4u8) | (b4 << 3u8) | (b5 << 2u8)
        | (b6 << 1u8) | b7);
    assert(((b0 << 7u8) | (b1 << 6u8) | (b2 << 5u8) | (b3 << 4u8) | (b4 << 3u8) | (b5 << 2u8) | (b6
        << 1u8) | b7) >> 7u8 & 1u8 == b0 && ((b0 << 7u8) | (b1 << 6u8) | (b2 << 5u8) | (b3 << 4u8) | (
    b4 << 3u8) | (b5 << 2u8) | (b6 << 1u8) | b7) >> 6u8 & 1u8 == b1 && ((b0 << 7u8) | (b1 << 6u8) | (
    b2 << 5u8) | (b3 << 4u8) | (b4 << 3u8) | (b5 << 2u8) | (b6 << 1u8) | b7) >> 5u8 & 1u8 == b2 && ((
    b0 << 7u8) | (b1 << 6u8) | (b2 << 5u8) | (b3 << 4u8) | (b4 << 3u8) | (b5 << 2u8) | (b6 << 1u8)
        | b7) >> 4u8 & 1u8 == b3 && ((b0 << 7u8) | (b1 << 6u8) | (b2 << 5u8) | (b3 << 4u8) | (b4
        << 3u8) | (b5 << 2u8) | (b6 << 1u8) | b7) >> 3u8 & 1u8 == b4 && ((b0 << 7u8) | (b1 << 6u8)
        | (b2 << 5u8) | (b3 << 4u8) | (b4 << 3u8) | (b5 << 2u8) | (b6 << 1u8) | b7) >> 2u8 & 1u8
        == b5 && ((b0 << 7u8) | (b1 << 6u8) | (b2 << 5u8) | (b3 << 4u8) | (b4 << 3u8) | (b5 << 2u8)
        | (b6 << 1u8) | b7) >> 1u8 & 1u8 == b6 && ((b0 << 7u8) | (b1 << 6u8) | (b2 << 5u8) | (b3
        << 4u8) | (b4 << 3u8) | (b5 << 2u8) | (b6 << 1u8) | b7) >> 0u8 & 1u8 == b7) by (bit_vector)
        requires
            b0 <= 1 && b1 <= 1 && b2 <= 1 && b3 <= 1,
            b4 <= 1 && b5 <= 1 && b6 <= 1 && b7 <= 1,
    ;
}

/// Reading the packed stream back bit by bit, most significant bit first, gives back
/// every bit that was packed.
pub proof fn lemma_packed_bits_round_trip(bits: Seq<bool>)
    ensures
        packed_bits(bits).len() == (bits.len() + 7) / 8,
        forall|i: int| 0 <= i < bits.len() ==> #[trigger] unpacked_bit(packed_bits(bits), i) == bits[i],
{
    assert forall|i: int| 0 <= i < bits.len() implies #[trigger] unpacked_bit(packed_bits(bits), i)
        == bits[i] by {
        let k = i / 8;
        let j = i % 8;
        assert(i == 8 * k + j);
        assert(0 <= k < (bits.len() + 7) / 8);
        lemma_pack_byte_bits(
            bit_at(bits, 8 * k),
            bit_at(bits, 8 * k + 1),
            bit_at(bits, 8 * k + 2),
            bit_at(bits, 8 * k + 3),
            bit_at(bits, 8 * k + 4),
            bit_at(bits, 8 * k + 5),
            bit_at(bits, 8 * k + 6),
            bit_at(bits, 8 * k + 7),
        );
        assert(packed_bits(bits)[k] == packed_byte(bits, k));
    }
}

/// Reconstructing the edge mask from a grid's binary-edge stream gives back exactly
/// which voxels are edge voxels.
pub proof fn lemma_binary_edge_round_trip<C, V>(grid: &VoxelGrid<VoxelData<C, V>>)
    ensures
        forall|i: int|
            0 <= i < grid.cells().len() ==> #[trigger] unpacked_bit(
                packed_bits(edge_bits(grid.cells())),
                i,
            ) == (grid.cells()[i] is Edge),
{
    lemma_packed_bits_round_trip(edge_bits(grid.cells()));
    assert forall|i: int| 0 <= i < grid.cells().len() implies #[trigger] unpacked_bit(
        packed_bits(edge_bits(grid.cells())),
        i,
    ) == (grid.cells()[i] is Edge) by {
        assert(unpacked_bit(packed_bits(edge_bits(grid.cells())), i) == edge_bits(grid.cells())[i]);
    }
}

/// The first `count` bits of a packed stream, most significant bit first.
pub fn decode_binary_state_u1(bytes: &[u8], count: usize) -> (r: Vec<bool>)
    requires
        count <= 8 * bytes@.len(),
    ensures
        r@.len() == count,
        forall|i: int| 0 <= i < count ==> #[trigger] r@[i] == unpacked_bit(bytes@, i),
{
    let mut bits: Vec<bool> = Vec::with_capacity(count);
    let mut i: usize = 0;
    while i < count
        invariant
            count <= 8 * bytes@.len(),
            i <= count,
            bits@.len() == i,
            forall|j: int| 0 <= j < i ==> #[trigger] bits@[j] == unpacked_bit(bytes@, j),
        decreases count - i,
    {
        let shift: u8 = (7 - i % 8) as u8;
        bits.push((bytes[i / 8] >> shift) & 1u8 == 1u8);
        i = i + 1;
    }
    bits
}

/// Pull-style source of the binary-edge stream of a grid: each call of `read` hands
/// out the next byte.
pub struct BinaryEdgeStateU1RawWriter<'g, C, V> {
    grid_voxels: &'g [VoxelData<C, V>],
    next_index: usize,
}

impl<'g, C, V> BinaryEdgeStateU1RawWriter<'g, C, V> {
    pub closed spec fn voxels(&self) -> Seq<VoxelData<C, V>> {
        self.grid_voxels@
    }

    /// Number of voxels already handed out.
    pub closed spec fn position(&self) -> int {
        self.next_index as int
    }

    pub open spec fn wf(&self) -> bool {
        &&& 0 <= self.position() <= self.voxels().len()
        &&& (self.position() % 8 == 0 || self.position() == self.voxels().len())
    }

    pub fn from_grid(grid: &'g VoxelGrid<VoxelData<C, V>>) -> (r: Self)
        ensures
            r.wf(),
            r.voxels() == grid.cells(),
            r.position() == 0,
    {
        BinaryEdgeStateU1RawWriter { grid_voxels: grid.voxels(), next_index: 0 }
    }

    /// Reads the whole stream from the start, one byte per call of `read`, until `read`
    /// returns 0: exactly ⌈n / 8⌉ bytes for n voxels, the packed edge bits.
    pub fn read_to_end(&mut self) -> (r: Vec<u8>)
        requires
            old(self).wf(),
            old(self).position() == 0,
        ensures
            r@ == packed_bits(edge_bits(old(self).voxels())),
            r@.len() == (old(self).voxels().len() + 7) / 8,
            final(self).position() == old(self).voxels().len(),
    {
        let ghost n = self.voxels().len();
        let ghost packed = packed_bits(edge_bits(self.voxels()));
        let mut out: Vec<u8> = Vec::new();
        let mut buf: [u8; 1] = [0u8; 1];
        let mut done = false;
        while !done
            invariant
                self.wf(),
                self.voxels().len() == n,
                packed == packed_bits(edge_bits(self.voxels())),
                self.position() == if 8 * out@.len() <= n {
                    8 * out@.len() as int
                } else {
                    n as int
                },
                out@.len() <= (n + 7) / 8,
                done ==> self.position() == n && out@.len() == (n + 7) / 8,
                out@ == packed.subrange(0, out@.len() as int),
                packed.len() == (n + 7) / 8,
            decreases 2 * ((n + 7) / 8 - out@.len()) + (if done {
                0int
            } else {
                1int
            }),
        {
            let count = self.read(&mut buf);
            if count == 0 {
                done = true;
            } else {
                out.push(buf[0]);
                assert(out@ =~= packed.subrange(0, out@.len() as int));
            }
        }
        out
    }

    /// Writes the next byte of the stream to `buf[0]` and returns 1, or returns 0 at
    /// the end of the stream.
    pub fn read(&mut self, buf: &mut [u8]) -> (r: usize)
        requires
            old(self).wf(),
            old(self).position() < old(self).voxels().len() ==> old(buf)@.len() >= 1,
        ensures
            final(self).wf(),
            final(self).voxels() == old(self).voxels(),
            if old(self).position() >= old(self).voxels().len() {
                &&& r == 0
                &&& final(buf)@ == old(buf)@
                &&& final(self).position() == old(self).position()
            } else {
                &&& r == 1
                &&& final(buf)@ == old(buf)@.update(
                    0,
                    packed_bits(edge_bits(old(self).voxels()))[old(self).position() / 8],
                )
                &&& final(self).position() == if old(self).position() + 8 <= old(
                    self,
                ).voxels().len() {
                    old(self).position() + 8
                } else {
                    old(self).voxels().len() as int
                }
            },
    {
        let n = self.grid_voxels.len();
        if self.next_index >= n {
            return 0;
        }
        let byte = packed_state_byte(self.grid_voxels, self.next_index, false);
        buf[0] = byte;
        if n - self.next_index >= 8 {
            self.next_index = self.next_index + 8;
        } else {
            self.next_index = n;
        }
        1
    }
}

/// Pull-style source of the binary-fill stream of a grid: each call of `read` hands
/// out the next byte.
pub struct BinaryFillStateU1RawWriter<'g, C, V> {
    grid_voxels: &'g [VoxelData<C, V>],
    next_index: usize,
}

impl<'g, C, V> BinaryFillStateU1RawWriter<'g, C, V> {
    pub closed spec fn voxels(&self) -> Seq<VoxelData<C, V>> {
        self.grid_voxels@
    }

    /// Number of voxels already handed out.
    pub closed spec fn position(&self) -> int {
        self.next_index as int
    }

    pub open spec fn wf(&self) -> bool {
        &&& 0 <= self.position() <= self.voxels().len()
        &&& (self.position() % 8 == 0 || self.position() == self.voxels().len())
    }

    pub fn from_grid(grid: &'g VoxelGrid<VoxelData<C, V>>) -> (r: Self)
        ensures
            r.wf(),
            r.voxels() == grid.cells(),
            r.position() == 0,
    {
        BinaryFillStateU1RawWriter { grid_voxels: grid.voxels(), next_index: 0 }
    }

    /// Reads the whole stream from the start, one byte per call of `read`, until `read`
    /// returns 0: exactly ⌈n / 8⌉ bytes for n voxels, the packed fill bits.
    pub fn read_to_end(&mut self) -> (r: Vec<u8>)
        requires
            old(self).wf(),
            old(self).position() == 0,
        ensures
            r@ == packed_bits(fill_bits(old(self).voxels())),
            r@.len() == (old(self).voxels().len() + 7) / 8,
            final(self).position() == old(self).voxels().len(),
    {
        let ghost n = self.voxels().len();
        let ghost packed = packed_bits(fill_bits(self.voxels()));
        let mut out: Vec<u8> = Vec::new();
        let mut buf: [u8; 1] = [0u8; 1];
        let mut done = false;
        while !done
            invariant
                self.wf(),
                self.voxels().len() == n,
                packed == packed_bits(fill_bits(self.voxels())),
                self.position() == if 8 * out@.len() <= n {
                    8 * out@.len() as int
                } else {
                    n as int
                },
                out@.len() <= (n + 7) / 8,
                done ==> self.position() == n && out@.len() == (n + 7) / 8,
                out@ == packed.subrange(0, out@.len() as int),
                packed.len() == (n + 7) / 8,
            decreases 2 * ((n + 7) / 8 - out@.len()) + (if done {
                0int
            } else {
                1int
            }),
        {
            let count = self.read(&mut buf);
            if count == 0 {
                done = true;
            } else {
                out.push(buf[0]);
                assert(out@ =~= packed.subrange(0, out@.len() as int));
            }
        }
        out
    }

    /// Writes the next byte of the stream to `buf[0]` and returns 1, or returns 0 at
    /// the end of the stream.
    pub fn read(&mut self, buf: &mut [u8]) -> (r: usize)
        requires
            old(self).wf(),
            old(self).position() < old(self).voxels().len() ==> old(buf)@.len() >= 1,
        ensures
            final(self).wf(),
            final(self).voxels() == old(self).voxels(),
            if old(self).position() >= old(self).voxels().len() {
                &&& r == 0
                &&& final(buf)@ == old(buf)@
                &&& final(self).position() == old(self).position()
            } else {
                &&& r == 1
                &&& final(buf)@ == old(buf)@.update(
                    0,
                    packed_bits(fill_bits(old(self).voxels()))[old(self).position() / 8],
                )
                &&& final(self).position() == if old(self).position() + 8 <= old(
                    self,
                ).voxels().len() {
                    old(self).position() + 8
                } else {
                    old(self).voxels().len() as int
                }
            },
    {
        let n = self.grid_voxels.len();
        if self.next_index >= n {
            return 0;
        }
        let byte = packed_state_byte(self.grid_voxels, self.next_index, true);
        buf[0] = byte;
        if n - self.next_index >= 8 {
            self.next_index = self.next_index + 8;
        } else {
            self.next_index = n;
        }
        1
    }
}

/// The three color bytes of a voxel: what `convert_color` gives for an edge voxel's
/// color, zeros for empty and inside voxels.
pub open spec fn rgb_bytes_of<C, V, F>(convert_color: &F, voxel: VoxelData<C, V>, bytes: (u8, u8, u8)) -> bool where F: Fn(&C) -> (u8, u8, u8) {
    match voxel {
        VoxelData::Edge { color, .. } => convert_color.ensures((&color,), bytes),
        _ => bytes == (0u8, 0u8, 0u8),
    }
}

/// The byte of a voxel's metallic (or, with `roughness`, roughness) value: what
/// `convert_value` gives for an edge voxel, zero for empty and inside voxels.
pub open spec fn scalar_byte_of<C, V, F>(convert_value: &F, roughness: bool, voxel: VoxelData<C, V>, byte: u8) -> bool where F: Fn(&V) -> u8 {
    match voxel {
        VoxelData::Edge { metallic_value, roughness_value, .. } => if roughness {
            convert_value.ensures((&roughness_value,), byte)
        } else {
            convert_value.ensures((&metallic_value,), byte)
        },
        _ => byte == 0u8,
    }
}

fn rgb_bytes<C, V, F>(voxel: &VoxelData<C, V>, convert_color: &F) -> (r: (u8, u8, u8)) where F: Fn(&C) -> (u8, u8, u8)
    requires
        forall|c: &C| #[trigger] convert_color.requires((c,)),
    ensures
        rgb_bytes_of(convert_color, *voxel, r),
{
    match voxel {
        VoxelData::Edge { color, .. } => convert_color(color),
        _ => (0, 0, 0),
    }
}

fn scalar_byte<C, V, F>(voxel: &VoxelData<C, V>, roughness: bool, convert_value: &F) -> (r: u8) where F: Fn(&V) -> u8
    requires
        forall|v: &V| #[trigger] convert_value.requires((v,)),
    ensures
        scalar_byte_of(convert_value, roughness, *voxel, r),
{
    match voxel {
        VoxelData::Edge { metallic_value, roughness_value, .. } => if roughness {
            convert_value(roughness_value)
        } else {
            convert_value(metallic_value)
        },
        _ => 0,
    }
}

/// The linear-rgb8 stream of a grid: three bytes per voxel in storage order.
pub fn encode_linear_rgb8_color_u8<C, V, F>(grid: &VoxelGrid<VoxelData<C, V>>, convert_color: &F) -> (r: Vec<u8>) where F: Fn(&C) -> (u8, u8, u8)
    requires
        forall|c: &C| #[trigger] convert_color.requires((c,)),
    ensures
        r@.len() == 3 * grid.cells().len(),
        forall|i: int|
            0 <= i < grid.cells().len() ==> rgb_bytes_of(
                convert_color,
                #[trigger] grid.cells()[i],
                (r@[3 * i], r@[3 * i + 1], r@[3 * i + 2]),
            ),
{
    let voxels = grid.voxels();
    let n = voxels.len();
    let mut bytes: Vec<u8> = Vec::new();
    let mut i: usize = 0;
    while i < n
        invariant
            n == voxels@.len(),
            voxels@ == grid.cells(),
            forall|c: &C| #[trigger] convert_color.requires((c,)),
            i <= n,
            bytes@.len() == 3 * i,
            forall|j: int|
                0 <= j < i ==> rgb_bytes_of(
                    convert_color,
                    #[trigger] voxels@[j],
                    (bytes@[3 * j], bytes@[3 * j + 1], bytes@[3 * j + 2]),
                ),
        decreases n - i,
    {
        let (red, green, blue) = rgb_bytes(&voxels[i], convert_color);
        bytes.push(red);
        bytes.push(green);
        bytes.push(blue);
        i = i + 1;
    }
    bytes
}

/// The metallic (or, with `roughness`, roughness) stream of a grid: one byte per voxel
/// in storage order.
fn encode_scalar_value_u8<C, V, F>(grid: &VoxelGrid<VoxelData<C, V>>, roughness: bool, convert_value: &F) -> (r: Vec<u8>) where F: Fn(&V) -> u8
    requires
        forall|v: &V| #[trigger] convert_value.requires((v,)),
    ensures
        r@.len() == grid.cells().len(),
        forall|i: int|
            0 <= i < grid.cells().len() ==> scalar_byte_of(
                convert_value,
                roughness,
                #[trigger] grid.cells()[i],
                r@[i],
            ),
{
    let voxels = grid.voxels();
    let n = voxels.len();
    let mut bytes: Vec<u8> = Vec::with_capacity(n);
    let mut i: usize = 0;
    while i < n
        invariant
            n == voxels@.len(),
            voxels@ == grid.cells(),
            forall|v: &V| #[trigger] convert_value.requires((v,)),
            i <= n,
            bytes@.len() == i,
            forall|j: int|
                0 <= j < i ==> scalar_byte_of(convert_value, roughness, #[trigger] voxels@[j], bytes@[j]),
        decreases n - i,
    {
        let byte = scalar_byte(&voxels[i], roughness, convert_value);
        bytes.push(byte);
        i = i + 1;
    }
    bytes
}

/// The metallic stream of a grid: one byte per voxel in storage order.
pub fn encode_metallic_value_u8<C, V, F>(grid: &VoxelGrid<VoxelData<C, V>>, convert_value: &F) -> (r: Vec<u8>) where F: Fn(&V) -> u8
    requires
        forall|v: &V| #[trigger] convert_value.requires((v,)),
    ensures
        r@.len() == grid.cells().len(),
        forall|i: int|
            0 <= i < grid.cells().len() ==> scalar_byte_of(
                convert_value,
                false,
                #[trigger] grid.cells()[i],
                r@[i],
            ),
{
    encode_scalar_value_u8(grid, false, convert_value)
}

/// The roughness stream of a grid: one byte per voxel in storage order.
pub fn encode_roughness_value_u8<C, V, F>(grid: &VoxelGrid<VoxelData<C, V>>, convert_value: &F) -> (r: Vec<u8>) where F: Fn(&V) -> u8
    requires
        forall|v: &V| #[trigger] convert_value.requires((v,)),
    ensures
        r@.len() == grid.cells().len(),
        forall|i: int|
            0 <= i < grid.cells().len() ==> scalar_byte_of(
                convert_value,
                true,
                #[trigger] grid.cells()[i],
                r@[i],
            ),
{
    encode_scalar_value_u8(grid, true, convert_value)
}

/// Pull-style source of the linear-rgb8 stream of a grid: each call of `read` hands
/// out the three color bytes of the next voxel.
pub struct LinearRgb8ColorU8RawWriter<'g, C, V> {
    grid_voxels: &'g [VoxelData<C, V>],
    next_index: usize,
}

impl<'g, C, V> LinearRgb8ColorU8RawWriter<'g, C, V> {
    pub closed spec fn voxels(&self) -> Seq<VoxelData<C, V>> {
        self.grid_voxels@
    }

    /// Number of voxels already handed out.
    pub closed spec fn position(&self) -> int {
        self.next_index as int
    }

    pub open spec fn wf(&self) -> bool {
        0 <= self.position() <= self.voxels().len()
    }

    pub fn from_grid(grid: &'g VoxelGrid<VoxelData<C, V>>) -> (r: Self)
        ensures
            r.wf(),
            r.voxels() == grid.cells(),
            r.position() == 0,
    {
        LinearRgb8ColorU8RawWriter { grid_voxels: grid.voxels(), next_index: 0 }
    }

    /// Reads the whole stream from the start, three bytes per call of `read`, until
    /// `read` returns 0: exactly 3n bytes for n voxels, the color bytes of each voxel.
    pub fn read_to_end<F>(&mut self, convert_color: &F) -> (r: Vec<u8>) where F: Fn(&C) -> (u8, u8, u8)
        requires
            old(self).wf(),
            old(self).position() == 0,
            forall|c: &C| #[trigger] convert_color.requires((c,)),
        ensures
            r@.len() == 3 * old(self).voxels().len(),
            forall|i: int|
                0 <= i < old(self).voxels().len() ==> rgb_bytes_of(
                    convert_color,
                    #[trigger] old(self).voxels()[i],
                    (r@[3 * i], r@[3 * i + 1], r@[3 * i + 2]),
                ),
            final(self).position() == old(self).voxels().len(),
    {
        let ghost voxels = self.voxels();
        let mut out: Vec<u8> = Vec::new();
        let mut buf: [u8; 3] = [0u8; 3];
        let mut done = false;
        while !done
            invariant
                self.wf(),
                self.voxels() == voxels,
                forall|c: &C| #[trigger] convert_color.requires((c,)),
                out@.len() == 3 * self.position(),
                done ==> self.position() == voxels.len(),
                forall|i: int|
                    0 <= i < self.position() ==> rgb_bytes_of(
                        convert_color,
                        #[trigger] voxels[i],
                        (out@[3 * i], out@[3 * i + 1], out@[3 * i + 2]),
                    ),
            decreases 2 * (voxels.len() - self.position()) + (if done {
                0int
            } else {
                1int
            }),
        {
            let count = self.read(&mut buf, convert_color);
            if count == 0 {
                done = true;
            } else {
                out.push(buf[0]);
                out.push(buf[1]);
                out.push(buf[2]);
            }
        }
        out
    }

    /// Writes the next voxel's color bytes to `buf[0..3]` and returns 3, or returns 0
    /// at the end of the stream.
    pub fn read<F>(&mut self, buf: &mut [u8], convert_color: &F) -> (r: usize) where F: Fn(&C) -> (u8, u8, u8)
        requires
            old(self).wf(),
            old(self).position() < old(self).voxels().len() ==> old(buf)@.len() >= 3,
            forall|c: &C| #[trigger] convert_color.requires((c,)),
        ensures
            final(self).wf(),
            final(self).voxels() == old(self).voxels(),
            if old(self).position() >= old(self).voxels().len() {
                &&& r == 0
                &&& final(buf)@ == old(buf)@
                &&& final(self).position() == old(self).position()
            } else {
                &&& r == 3
                &&& final(buf)@.len() == old(buf)@.len()
                &&& final(buf)@.subrange(3, old(buf)@.len() as int) == old(buf)@.subrange(3, old(buf)@.len() as int)
                &&& rgb_bytes_of(
                    convert_color,
                    old(self).voxels()[old(self).position()],
                    (final(buf)@[0], final(buf)@[1], final(buf)@[2]),
                )
                &&& final(self).position() == old(self).position() + 1
            },
    {
        if self.next_index >= self.grid_voxels.len() {
            return 0;
        }
        let (red, green, blue) = rgb_bytes(&self.grid_voxels[self.next_index], convert_color);
        buf[0] = red;
        buf[1] = green;
        buf[2] = blue;
        self.next_index = self.next_index + 1;
        3
    }
}

} // verus!
