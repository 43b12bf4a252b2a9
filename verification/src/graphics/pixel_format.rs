use vstd::prelude::*;

verus! {

/// Pixel-format descriptor carried by every image plane and texture.
#[derive(Debug, Clone, Copy, PartialEq, Eq, Structural)]
pub struct PixelFormatInfo {
    pub pixel_format: PixelFormat,
    pub pixel_data_type: PixelDataType,
    pub color_space: ColorSpace,
    pub is_premultiplied: bool,
}

/// The closed set of pixel formats this library understands.
#[derive(Debug, Clone, Copy, PartialEq, Eq, Structural)]
pub enum PixelFormat {
    Unknown,
    R1,
    A8,
    R8,
    R8G8,
    L8,
    L8A8,
    B4G4R4A4,
    R8G8B8,
    B8G8R8,
    R8G8B8A8,
    B8G8R8A8,
    B8G8R8X8,
    B5G6R5,
    B5G5R5A1,
    B5G5R5X1,
    R16,
    L16,
    R16G16,
    L16A16,
    R16G16B16,
    R16G16B16A16,
    R32,
    R32G32,
    R32G32B32,
    R32G32B32A32,
    R10G10B10A2,
    R11G11B10,
    R9G9B9E5,
    D16,
    BC1,
    BC2,
    BC3,
    BC4,
    BC5,
    BC6H,
    BC7,
}

#[derive(Debug, Clone, Copy, PartialEq, Eq, Structural)]
pub enum PixelDataType {
    SNorm,
    UNorm,
    SInt,
    UInt,
    Float,
}

#[derive(Debug, Clone, Copy, PartialEq, Eq, Structural)]
pub enum ColorSpace {
    Linear,
    SRGB,
}

impl Default for PixelFormatInfo {
    /// The canonical descriptor: linear, straight-alpha RGBA8.
    fn default() -> (r: Self)
        ensures
            r.pixel_format == PixelFormat::R8G8B8A8,
            r.pixel_data_type == PixelDataType::UNorm,
            r.color_space == ColorSpace::Linear,
            !r.is_premultiplied,
    {
        Self {
            pixel_format: PixelFormat::R8G8B8A8,
            pixel_data_type: PixelDataType::UNorm,
            color_space: ColorSpace::Linear,
            is_premultiplied: false,
        }
    }
}

/// Bits a single pixel occupies in the raw encoding of `f`.
/// Block-compressed formats report their amortized per-pixel size.
pub open spec fn spec_bits_per_pixel(f: PixelFormat) -> int {
    match f {
        PixelFormat::R32G32B32A32 => 128,
        PixelFormat::R32G32B32 => 96,
        PixelFormat::R32G32 | PixelFormat::R16G16B16A16 => 64,
        PixelFormat::R16G16B16 => 48,
        PixelFormat::R32
        | PixelFormat::R16G16
        | PixelFormat::L16A16
        | PixelFormat::R8G8B8A8
        | PixelFormat::B8G8R8A8
        | PixelFormat::B8G8R8X8
        | PixelFormat::R9G9B9E5
        | PixelFormat::R10G10B10A2
        | PixelFormat::R11G11B10 => 32,
        PixelFormat::R8G8B8 | PixelFormat::B8G8R8 => 24,
        PixelFormat::R16
        | PixelFormat::L16
        | PixelFormat::D16
        | PixelFormat::R8G8
        | PixelFormat::L8A8
        | PixelFormat::B5G6R5
        | PixelFormat::B5G5R5A1
        | PixelFormat::B5G5R5X1
        | PixelFormat::B4G4R4A4 => 16,
        PixelFormat::R8
        | PixelFormat::L8
        | PixelFormat::A8
        | PixelFormat::BC2
        | PixelFormat::BC3
        | PixelFormat::BC5
        | PixelFormat::BC6H
        | PixelFormat::BC7 => 8,
        PixelFormat::BC1 | PixelFormat::BC4 => 4,
        PixelFormat::R1 => 1,
        PixelFormat::Unknown => 0,
    }
}

pub open spec fn spec_is_compressed(f: PixelFormat) -> bool {
    match f {
        PixelFormat::BC1
        | PixelFormat::BC2
        | PixelFormat::BC3
        | PixelFormat::BC4
        | PixelFormat::BC5
        | PixelFormat::BC6H
        | PixelFormat::BC7 => true,
        _ => false,
    }
}

pub open spec fn spec_bytes_per_block(f: PixelFormat) -> int {
    match f {
        PixelFormat::BC1 | PixelFormat::BC4 => 8,
        PixelFormat::BC2 | PixelFormat::BC3 | PixelFormat::BC5 => 16,
        PixelFormat::BC6H | PixelFormat::BC7 => 16,
        _ => spec_bits_per_pixel(f) / 8,
    }
}

pub open spec fn spec_block_width(f: PixelFormat) -> int {
    if spec_is_compressed(f) {
        4
    } else {
        1
    }
}

pub open spec fn spec_block_height(f: PixelFormat) -> int {
    if spec_is_compressed(f) {
        4
    } else {
        1
    }
}

/// Bytes in one row of pixels (one row of blocks for compressed formats).
/// For a compressed format this is `ceil(width / 4)` blocks, at least one,
/// times the block size; otherwise it is `bits_per_pixel * width` rounded up
/// to whole bytes.
pub open spec fn spec_row_pitch(f: PixelFormat, width: int) -> int {
    if spec_is_compressed(f) {
        let bw = (width + 3) / 4;
        (if bw < 1 {
            1
        } else {
            bw
        }) * spec_bytes_per_block(f)
    } else {
        (spec_bits_per_pixel(f) * width + 7) / 8
    }
}

/// Bytes in one full 2D plane: `row_pitch` times the number of (block) rows.
pub open spec fn spec_slice_pitch(f: PixelFormat, width: int, height: int) -> int {
    if spec_is_compressed(f) {
        let bh = (height + 3) / 4;
        (if bh < 1 {
            1
        } else {
            bh
        }) * spec_row_pitch(f, width)
    } else {
        spec_row_pitch(f, width) * height
    }
}

impl PixelFormat {
    pub fn get_bits_per_pixel(self) -> (r: u32)
        ensures
            r == spec_bits_per_pixel(self),
    {
        match self {
            PixelFormat::R32G32B32A32 => 128,
            PixelFormat::R32G32B32 => 96,
            PixelFormat::R32G32 | PixelFormat::R16G16B16A16 => 64,
            PixelFormat::R16G16B16 => 48,
            PixelFormat::R32
            | PixelFormat::R16G16
            | PixelFormat::L16A16
            | PixelFormat::R8G8B8A8
            | PixelFormat::B8G8R8A8
            | PixelFormat::B8G8R8X8
            | PixelFormat::R9G9B9E5
            | PixelFormat::R10G10B10A2
            | PixelFormat::R11G11B10 => 32,
            PixelFormat::R8G8B8 | PixelFormat::B8G8R8 => 24,
            PixelFormat::R16
            | PixelFormat::L16
            | PixelFormat::D16
            | PixelFormat::R8G8
            | PixelFormat::L8A8
            | PixelFormat::B5G6R5
            | PixelFormat::B5G5R5A1
            | PixelFormat::B5G5R5X1
            | PixelFormat::B4G4R4A4 => 16,
            PixelFormat::R8
            | PixelFormat::L8
            | PixelFormat::A8
            | PixelFormat::BC2
            | PixelFormat::BC3
            | PixelFormat::BC5
            | PixelFormat::BC6H
            | PixelFormat::BC7 => 8,
            PixelFormat::BC1 | PixelFormat::BC4 => 4,
            PixelFormat::R1 => 1,
            PixelFormat::Unknown => 0,
        }
    }

    pub fn is_compressed(self) -> (r: bool)
        ensures
            r == spec_is_compressed(self),
    {
        match self {
            PixelFormat::BC1
            | PixelFormat::BC2
            | PixelFormat::BC3
            | PixelFormat::BC4
            | PixelFormat::BC5
            | PixelFormat::BC6H
            | PixelFormat::BC7 => true,
            _ => false,
        }
    }

    pub fn get_bytes_per_block(self) -> (r: u32)
        ensures
            r == spec_bytes_per_block(self),
    {
        match self {
            PixelFormat::BC1 | PixelFormat::BC4 => 8,
            PixelFormat::BC2 | PixelFormat::BC3 | PixelFormat::BC5 => 16,
            PixelFormat::BC6H => 16,
            PixelFormat::BC7 => 16,
            _ => self.get_bits_per_pixel() / 8,
        }
    }

    pub fn get_block_width(self) -> (r: u32)
        ensures
            r == spec_block_width(self),
    {
        if self.is_compressed() {
            4
        } else {
            1
        }
    }

    pub fn get_block_height(self) -> (r: u32)
        ensures
            r == spec_block_height(self),
    {
        if self.is_compressed() {
            4
        } else {
            1
        }
    }

    /// Row pitch, computed in 64 bits so that no width can overflow.
    pub fn row_pitch_u64(self, width: u32) -> (r: u64)
        ensures
            r == spec_row_pitch(self, width as int),
    {
        if self.is_compressed() {
            let bw: u64 = (width as u64 + 3) / 4;
            let bw: u64 = if bw < 1 {
                1
            } else {
                bw
            };
            let bpb = self.get_bytes_per_block();
            proof {
                assert(spec_bytes_per_block(self) <= 16);
                assert(bw * bpb <= 0x40000001u64 * 16) by (nonlinear_arith)
                    requires
                        bw <= 0x40000001u64,
                        bpb <= 16,
                ;
            }
            bw * (bpb as u64)
        } else {
            let bits = self.get_bits_per_pixel();
            proof {
                assert(spec_bits_per_pixel(self) <= 128);
                assert((bits as u64) * (width as u64) <= 128u64 * 0xFFFFFFFFu64)
                    by (nonlinear_arith)
                    requires
                        bits <= 128,
                        width <= 0xFFFFFFFFu32,
                ;
            }
            ((bits as u64) * (width as u64) + 7) / 8
        }
    }

    /// Slice pitch, computed in 128 bits so that no size can overflow.
    pub fn slice_pitch_u128(self, width: u32, height: u32) -> (r: u128)
        ensures
            r == spec_slice_pitch(self, width as int, height as int),
    {
        let row = self.row_pitch_u64(width);
        if self.is_compressed() {
            let bh: u128 = (height as u128 + 3) / 4;
            let bh: u128 = if bh < 1 {
                1
            } else {
                bh
            };
            proof {
                assert(bh * (row as u128) <= 0x40000001u128 * 0xFFFFFFFFFFFFFFFFu128)
                    by (nonlinear_arith)
                    requires
                        bh <= 0x40000001u128,
                        row <= 0xFFFFFFFFFFFFFFFFu64,
                ;
            }
            bh * (row as u128)
        } else {
            proof {
                assert((row as u128) * (height as u128)
                    <= 0xFFFFFFFFFFFFFFFFu128 * 0xFFFFFFFFu128) by (nonlinear_arith)
                    requires
                        row <= 0xFFFFFFFFFFFFFFFFu64,
                        height <= 0xFFFFFFFFu32,
                ;
            }
            (row as u128) * (height as u128)
        }
    }

    pub fn get_row_pitch(self, width: u32) -> (r: u32)
        requires
            spec_row_pitch(self, width as int) <= u32::MAX,
        ensures
            r == spec_row_pitch(self, width as int),
    {
        self.row_pitch_u64(width) as u32
    }

    pub fn get_slice_pitch(self, width: u32, height: u32) -> (r: u32)
        requires
            spec_slice_pitch(self, width as int, height as int) <= u32::MAX,
        ensures
            r == spec_slice_pitch(self, width as int, height as int),
    {
        self.slice_pitch_u128(width, height) as u32
    }

    /// Row pitch if it fits the 32-bit plane model, `None` otherwise.
    pub fn try_row_pitch(self, width: u32) -> (r: Option<u32>)
        ensures
            match r {
                Some(p) => p == spec_row_pitch(self, width as int),
                None => spec_row_pitch(self, width as int) > u32::MAX,
            },
    {
        let p = self.row_pitch_u64(width);
        if p <= u32::MAX as u64 {
            Some(p as u32)
        } else {
            None
        }
    }

    /// Slice pitch if it fits the 32-bit plane model, `None` otherwise.
    pub fn try_slice_pitch(self, width: u32, height: u32) -> (r: Option<u32>)
        ensures
            match r {
                Some(p) => p == spec_slice_pitch(self, width as int, height as int),
                None => spec_slice_pitch(self, width as int, height as int) > u32::MAX,
            },
    {
        let p = self.slice_pitch_u128(width, height);
        if p <= u32::MAX as u128 {
            Some(p as u32)
        } else {
            None
        }
    }

    /// Display name of the format.
    pub fn name(self) -> (r: &'static str)
    {
        match self {
            PixelFormat::Unknown => "Unknown",
            PixelFormat::R1 => "R1",
            PixelFormat::A8 => "A8",
            PixelFormat::R8 => "R8",
            PixelFormat::R8G8 => "R8G8",
            PixelFormat::L8 => "L8",
            PixelFormat::L8A8 => "L8A8",
            PixelFormat::B4G4R4A4 => "B4G4R4A4",
            PixelFormat::R8G8B8 => "R8G8B8",
            PixelFormat::B8G8R8 => "B8G8R8",
            PixelFormat::R8G8B8A8 => "R8G8B8A8",
            PixelFormat::B8G8R8A8 => "B8G8R8A8",
            PixelFormat::B8G8R8X8 => "B8G8R8X8",
            PixelFormat::B5G6R5 => "B5G6R5",
            PixelFormat::B5G5R5A1 => "B5G5R5A1",
            PixelFormat::B5G5R5X1 => "B5G5R5X1",
            PixelFormat::R16 => "R16",
            PixelFormat::L16 => "L16",
            PixelFormat::R16G16 => "R16G16",
            PixelFormat::L16A16 => "L16A16",
            PixelFormat::R16G16B16 => "R16G16B16",
            PixelFormat::R16G16B16A16 => "R16G16B16A16",
            PixelFormat::R32 => "R32",
            PixelFormat::R32G32 => "R32G32",
            PixelFormat::R32G32B32 => "R32G32B32",
            PixelFormat::R32G32B32A32 => "R32G32B32A32",
            PixelFormat::R10G10B10A2 => "R10G10B10A2",
            PixelFormat::R11G11B10 => "R11G11B10",
            PixelFormat::R9G9B9E5 => "R9G9B9E5 Shared Exp",
            PixelFormat::D16 => "D16",
            PixelFormat::BC1 => "BC1",
            PixelFormat::BC2 => "BC2",
            PixelFormat::BC3 => "BC3",
            PixelFormat::BC4 => "BC4",
            PixelFormat::BC5 => "BC5",
            PixelFormat::BC6H => "BC6H",
            PixelFormat::BC7 => "BC7",
        }
    }
}

} // verus!
