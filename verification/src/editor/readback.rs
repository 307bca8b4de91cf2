//! Reading a rendered viewport frame back from the GPU: a buffer copy pads
//! each row of RGBA pixels to a multiple of the copy alignment, and the
//! padding is taken out again before the frame is handed on.
use vstd::prelude::*;

verus! {

/// The multiple of bytes that each row of a texture-to-buffer copy takes.
pub const ROW_ALIGNMENT: u32 = 256;

/// The bytes of a row of `width` RGBA pixels.
pub open spec fn row_bytes(width: nat) -> nat {
    width * 4
}

/// The bytes that a row of `width` RGBA pixels takes in the readback
/// buffer: its own bytes, rounded up to the next multiple of the alignment.
pub open spec fn padded_row_bytes(width: nat) -> nat {
    ((row_bytes(width) + 255) / 256 * 256) as nat
}

/// The first `rows` rows of `row_len` bytes each, taken from `data` where
/// consecutive rows start `stride` bytes apart, one after another.
pub open spec fn rows_of(data: Seq<u8>, row_len: nat, stride: nat, rows: nat) -> Seq<u8>
    decreases rows,
{
    if rows == 0 {
        Seq::empty()
    } else {
        let r = (rows - 1) as nat;
        rows_of(data, row_len, stride, r) + data.subrange((r * stride) as int, (r * stride + row_len) as int)
    }
}

/// The frame that a readback buffer holds: the buffer itself where rows
/// carry no padding, else its rows without the padding.
pub open spec fn frame_of(data: Seq<u8>, width: nat, height: nat) -> Seq<u8> {
    if padded_row_bytes(width) == row_bytes(width) {
        data
    } else {
        rows_of(data, row_bytes(width), padded_row_bytes(width), height)
    }
}

/// Whether unpadding a buffer of `len` bytes holding a `width` by `height`
/// frame stays within the buffer and within 32-bit offsets.
pub open spec fn readback_fits(len: nat, width: nat, height: nat) -> bool {
    padded_row_bytes(width) == row_bytes(width) || (row_bytes(width) * height <= u32::MAX && (height == 0 || (
    height - 1) * padded_row_bytes(width) + row_bytes(width) <= len && (height - 1) * padded_row_bytes(width)
        <= u32::MAX))
}

/// The padded length of a row of `width` RGBA pixels.
pub fn padded_bytes_per_row(width: u32) -> (r: u32)
    requires
        row_bytes(width as nat) + 256 <= u32::MAX,
    ensures
        r == padded_row_bytes(width as nat),
{
    let unpadded = width * 4;
    (unpadded + ROW_ALIGNMENT - 1) / ROW_ALIGNMENT * ROW_ALIGNMENT
}

/// The size of the buffer that a `width` by `height` frame is read back
/// into.
pub fn readback_buffer_size(width: u32, height: u32) -> (r: u64)
    requires
        row_bytes(width as nat) + 256 <= u32::MAX,
        padded_row_bytes(width as nat) * height <= u32::MAX,
    ensures
        r == padded_row_bytes(width as nat) * height,
{
    let padded = padded_bytes_per_row(width);
    (padded * height) as u64
}

/// The pixels of a `width` by `height` frame read back into `data`, rows
/// without their padding.
pub fn unpad_frame(data: &[u8], width: u32, height: u32) -> (r: Vec<u8>)
    requires
        row_bytes(width as nat) + 256 <= u32::MAX,
        readback_fits(data@.len(), width as nat, height as nat),
    ensures
        r@ == frame_of(data@, width as nat, height as nat),
{
    let unpadded = width * 4;
    let padded = padded_bytes_per_row(width);
    if padded == unpadded {
        return vstd::slice::slice_to_vec(data);
    }
    let ghost u = unpadded as nat;
    let ghost p = padded as nat;
    assert(unpadded < padded) by {
        assert((row_bytes(width as nat) + 255) / 256 * 256 >= row_bytes(width as nat)) by (nonlinear_arith);
    }
    let mut out: Vec<u8> = Vec::with_capacity((unpadded * height) as usize);
    let n: usize = data.len();
    let mut row: u32 = 0;
    while row < height
        invariant
            n == data@.len(),
            u == unpadded,
            p == padded,
            unpadded < padded,
            row <= height,
            height > 0 ==> (height - 1) * p + u <= data@.len(),
            height > 0 ==> (height - 1) * p <= u32::MAX,
            out@ == rows_of(data@, u, p, row as nat),
        decreases height - row,
    {
        assert(row * p <= (height - 1) * p) by (nonlinear_arith)
            requires
                row < height,
        ;
        let start = (row * padded) as usize;
        assert(start + u <= data@.len());
        let end = start + unpadded as usize;
        let ghost before = out@;
        let mut k: usize = start;
        while k < end
            invariant
                start <= k <= end,
                end <= data@.len(),
                out@ == before + data@.subrange(start as int, k as int),
            decreases end - k,
        {
            out.push(data[k]);
            proof {
                assert(data@.subrange(start as int, k + 1) =~= data@.subrange(start as int, k as int).push(
                    data@[k as int],
                ));
            }
            k = k + 1;
        }
        proof {
            assert(rows_of(data@, u, p, (row + 1) as nat) == rows_of(data@, u, p, row as nat) + data@.subrange(
                row * p,
                row * p + u,
            ));
        }
        row = row + 1;
    }
    out
}

} // verus!
