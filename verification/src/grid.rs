//! Grid buffers and the tiling of a grid into workgroups.

use vstd::prelude::*;
use crate::error::ConfigurationError;

verus! {

/// Side length, in cells, of the square tile that one workgroup covers.
pub const TILE: u32 = 8;

/// Numeric layout of one grid cell.
#[derive(Debug, Clone, Copy, PartialEq, Eq, Structural)]
pub enum ChannelFormat {
    /// Four 8-bit normalized channels.
    Rgba8Unorm,
    /// One 32-bit float channel.
    R32Float,
}

impl ChannelFormat {
    /// Number of channels in a cell.
    pub open spec fn spec_channels(self) -> nat {
        match self {
            ChannelFormat::Rgba8Unorm => 4,
            ChannelFormat::R32Float => 1,
        }
    }

    /// Number of bytes that one cell occupies.
    pub open spec fn spec_cell_bytes(self) -> nat {
        4
    }

    /// Bytes that every cell holds when a buffer is allocated: opaque black
    /// for colour, zero for a float channel.
    pub open spec fn spec_initial_cell(self) -> Seq<u8> {
        match self {
            ChannelFormat::Rgba8Unorm => seq![0u8, 0u8, 0u8, 255u8],
            ChannelFormat::R32Float => seq![0u8, 0u8, 0u8, 0u8],
        }
    }

    /// Number of channels in a cell.
    pub fn channels(self) -> (n: u32)
        ensures
            n == self.spec_channels(),
    {
        match self {
            ChannelFormat::Rgba8Unorm => 4,
            ChannelFormat::R32Float => 1,
        }
    }

    /// Number of bytes that one cell occupies.
    pub fn cell_bytes(self) -> (n: u32)
        ensures
            n == self.spec_cell_bytes(),
    {
        4
    }

    /// Bytes that every cell holds when a buffer is allocated.
    pub fn initial_cell(self) -> (cell: [u8; 4])
        ensures
            cell@ == self.spec_initial_cell(),
    {
        let cell = match self {
            ChannelFormat::Rgba8Unorm => [0u8, 0u8, 0u8, 255u8],
            ChannelFormat::R32Float => [0u8, 0u8, 0u8, 0u8],
        };
        cell
    }
}

/// A side length that a grid may have: positive and a whole number of tiles.
pub open spec fn aligned(len: nat) -> bool {
    len > 0 && len % (TILE as nat) == 0
}

/// Tiles needed to cover `len` cells, the last one possibly in part.
pub open spec fn tiles_spec(len: nat) -> nat {
    (len + (TILE - 1) as nat) / (TILE as nat)
}

/// On an aligned length no tile is partial: the count is the exact quotient.
pub proof fn lemma_tiles_exact(len: nat)
    requires
        aligned(len),
    ensures
        tiles_spec(len) == len / (TILE as nat),
        tiles_spec(len) * TILE == len,
        tiles_spec(len) > 0,
{
}

/// Tiles needed to cover `len` cells.
pub fn tiles(len: u32) -> (n: u32)
    ensures
        n == tiles_spec(len as nat),
{
    let whole: u32 = len / TILE;
    if len % TILE == 0 {
        whole
    } else {
        whole + 1
    }
}

/// Whether `len` is a side length that a grid may have.
pub fn is_aligned(len: u32) -> (ok: bool)
    ensures
        ok == aligned(len as nat),
{
    len > 0 && len % TILE == 0
}

/// Workgroup counts of one dispatch along each axis.
#[derive(Debug, Clone, Copy, PartialEq, Eq, Structural)]
pub struct GridExtent {
    pub groups_x: u32,
    pub groups_y: u32,
}

impl GridExtent {
    /// Number of workgroups of one dispatch.
    pub open spec fn spec_workgroups(self) -> nat {
        self.groups_x as nat * self.groups_y as nat
    }

    /// Number of workgroups of one dispatch.
    pub fn workgroups(&self) -> (n: u64)
        ensures
            n == self.spec_workgroups(),
    {
        assert(self.groups_x * self.groups_y <= u64::MAX) by (nonlinear_arith)
            requires
                self.groups_x <= u32::MAX,
                self.groups_y <= u32::MAX,
        ;
        (self.groups_x as u64) * (self.groups_y as u64)
    }
}

/// Workgroups that cover a grid of the given size.
pub open spec fn extent_spec(width: nat, height: nat) -> GridExtent {
    GridExtent { groups_x: tiles_spec(width) as u32, groups_y: tiles_spec(height) as u32 }
}

/// The workgroups of a dispatch over an aligned grid cover it exactly: there
/// are as many cells as the workgroups have places.
pub proof fn lemma_extent_exact(width: nat, height: nat)
    requires
        aligned(width),
        aligned(height),
        width <= u32::MAX,
        height <= u32::MAX,
    ensures
        extent_spec(width, height).groups_x * TILE == width,
        extent_spec(width, height).groups_y * TILE == height,
        extent_spec(width, height).spec_workgroups() * (TILE * TILE) == width * height,
{
    lemma_tiles_exact(width);
    lemma_tiles_exact(height);
    let gx = extent_spec(width, height).groups_x as nat;
    let gy = extent_spec(width, height).groups_y as nat;
    assert(gx * gy * 64 == (gx * 8) * (gy * 8)) by (nonlinear_arith);
}

/// Mathematical content of a [`GridBuffer`].
pub struct GridBufferView {
    pub width: nat,
    pub height: nat,
    pub format: ChannelFormat,
    pub slot: nat,
}

/// One channel of simulation state: a fixed-size grid of cells bound to a slot.
#[derive(Debug, Clone, Copy, PartialEq, Eq)]
pub struct GridBuffer {
    width: u32,
    height: u32,
    format: ChannelFormat,
    slot: u32,
}

impl View for GridBuffer {
    type V = GridBufferView;

    closed spec fn view(&self) -> GridBufferView {
        GridBufferView {
            width: self.width as nat,
            height: self.height as nat,
            format: self.format,
            slot: self.slot as nat,
        }
    }
}

/// The mathematical content of each buffer of a list.
pub open spec fn buffer_views(buffers: Seq<GridBuffer>) -> Seq<GridBufferView> {
    Seq::new(buffers.len(), |i: int| buffers[i]@)
}

impl GridBuffer {
    #[verifier::type_invariant]
    spec fn inv(self) -> bool {
        aligned(self.width as nat) && aligned(self.height as nat)
    }

    /// Declares a buffer, or refuses dimensions that are not positive
    /// multiples of the tile.
    pub fn new(width: u32, height: u32, format: ChannelFormat, slot: u32) -> (r: Result<
        GridBuffer,
        ConfigurationError,
    >)
        ensures
            r is Ok <==> aligned(width as nat) && aligned(height as nat),
            r matches Ok(buffer) ==> buffer@ == (GridBufferView {
                width: width as nat,
                height: height as nat,
                format,
                slot: slot as nat,
            }),
            r matches Err(e) ==> e == (ConfigurationError::MisalignedGrid { width, height }),
    {
        if is_aligned(width) && is_aligned(height) {
            Ok(GridBuffer { width, height, format, slot })
        } else {
            Err(ConfigurationError::MisalignedGrid { width, height })
        }
    }

    /// Width of the grid in cells.
    pub fn width(&self) -> (w: u32)
        ensures
            w == self@.width,
            aligned(w as nat),
    {
        proof {
            use_type_invariant(self);
        }
        self.width
    }

    /// Height of the grid in cells.
    pub fn height(&self) -> (h: u32)
        ensures
            h == self@.height,
            aligned(h as nat),
    {
        proof {
            use_type_invariant(self);
        }
        self.height
    }

    /// Numeric layout of the cells.
    pub fn format(&self) -> (f: ChannelFormat)
        ensures
            f == self@.format,
    {
        self.format
    }

    /// Slot to which the buffer is bound.
    pub fn slot(&self) -> (s: u32)
        ensures
            s == self@.slot,
    {
        self.slot
    }

    /// Workgroups that one dispatch over this buffer issues.
    pub fn extent(&self) -> (e: GridExtent)
        ensures
            e == extent_spec(self@.width, self@.height),
            e.groups_x * TILE == self@.width,
            e.groups_y * TILE == self@.height,
    {
        proof {
            use_type_invariant(self);
            lemma_tiles_exact(self.width as nat);
            lemma_tiles_exact(self.height as nat);
        }
        GridExtent { groups_x: tiles(self.width), groups_y: tiles(self.height) }
    }

    /// Number of cells in the grid.
    pub fn cell_count(&self) -> (n: u64)
        ensures
            n == self@.width * self@.height,
    {
        assert(self.width * self.height <= u64::MAX) by (nonlinear_arith)
            requires
                self.width <= u32::MAX,
                self.height <= u32::MAX,
        ;
        (self.width as u64) * (self.height as u64)
    }
}

} // verus!
