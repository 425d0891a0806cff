use vstd::prelude::*;

verus! {

/// Failures of the wire codec.
///
/// `TruncatedInput`: a read needed more bytes than the buffer holds.
/// `ValueOutOfRange`: a write was handed a count or length too large for the
/// width its field stores it in.
/// `MalformedField`: a value's shape does not match the field type it was
/// paired with.
#[derive(Clone, Copy, Debug, PartialEq, Eq, Structural)]
pub enum CodecError {
    TruncatedInput,
    ValueOutOfRange,
    MalformedField,
}

/// The two bytes of `v` in little-endian order.
pub open spec fn le16(v: u16) -> Seq<u8> {
    seq![(v % 256) as u8, (v / 256) as u8]
}

/// The value stored by two little-endian bytes.
pub open spec fn le16_val(b0: u8, b1: u8) -> u16 {
    (b0 + b1 * 256) as u16
}

/// The four bytes of `v` in little-endian order.
pub open spec fn le32(v: u32) -> Seq<u8> {
    seq![
        (v % 256) as u8,
        ((v / 256) % 256) as u8,
        ((v / 65536) % 256) as u8,
        (v / 16777216) as u8,
    ]
}

/// The value stored by four little-endian bytes.
pub open spec fn le32_val(b0: u8, b1: u8, b2: u8, b3: u8) -> u32 {
    (b0 + b1 * 256 + b2 * 65536 + b3 * 16777216) as u32
}

pub proof fn lemma_le16_val_of_le16(v: u16)
    ensures
        le16_val(le16(v)[0], le16(v)[1]) == v,
{
    assert(le16_val(le16(v)[0], le16(v)[1]) == v) by (nonlinear_arith);
}

pub proof fn lemma_le16_of_le16_val(b0: u8, b1: u8)
    ensures
        le16(le16_val(b0, b1)) =~= seq![b0, b1],
{
    assert((b0 + b1 * 256) % 256 == b0 as int && (b0 + b1 * 256) / 256 == b1 as int)
        by (nonlinear_arith)
        requires b0 < 256 && b1 < 256;
}

pub proof fn lemma_le32_val_of_le32(v: u32)
    ensures
        le32_val(le32(v)[0], le32(v)[1], le32(v)[2], le32(v)[3]) == v,
{
    assert(le32_val(le32(v)[0], le32(v)[1], le32(v)[2], le32(v)[3]) == v) by (nonlinear_arith);
}

pub proof fn lemma_le32_of_le32_val(b0: u8, b1: u8, b2: u8, b3: u8)
    ensures
        le32(le32_val(b0, b1, b2, b3)) =~= seq![b0, b1, b2, b3],
{
    assert((b0 + b1 * 256 + b2 * 65536 + b3 * 16777216) % 256 == b0 as int) by (nonlinear_arith)
        requires b0 < 256 && b1 < 256 && b2 < 256 && b3 < 256;
    assert(((b0 + b1 * 256 + b2 * 65536 + b3 * 16777216) / 256) % 256 == b1 as int)
        by (nonlinear_arith)
        requires b0 < 256 && b1 < 256 && b2 < 256 && b3 < 256;
    assert(((b0 + b1 * 256 + b2 * 65536 + b3 * 16777216) / 65536) % 256 == b2 as int)
        by (nonlinear_arith)
        requires b0 < 256 && b1 < 256 && b2 < 256 && b3 < 256;
    assert((b0 + b1 * 256 + b2 * 65536 + b3 * 16777216) / 16777216 == b3 as int)
        by (nonlinear_arith)
        requires b0 < 256 && b1 < 256 && b2 < 256 && b3 < 256;
}

/// Reads a 16-bit little-endian unsigned integer at `*pos`, advancing `*pos`.
/// Succeeds exactly when two bytes remain.
pub fn read_u16(data: &Vec<u8>, pos: &mut usize) -> (r: Result<u16, CodecError>)
    ensures
        match r {
            Ok(v) => {
                &&& *old(pos) + 2 <= data@.len()
                &&& *final(pos) == *old(pos) + 2
                &&& le16(v) == data@.subrange(*old(pos) as int, *old(pos) + 2)
            },
            Err(e) => {
                &&& e == CodecError::TruncatedInput
                &&& *old(pos) + 2 > data@.len()
                &&& *final(pos) == *old(pos)
            },
        },
{
    if *pos < data.len() && data.len() - *pos >= 2 {
        let b0 = data[*pos];
        let b1 = data[*pos + 1];
        let v: u16 = b0 as u16 + b1 as u16 * 256;
        proof {
            lemma_le16_of_le16_val(b0, b1);
            assert(le16(v) =~= data@.subrange(*pos as int, *pos + 2));
        }
        *pos = *pos + 2;
        Ok(v)
    } else {
        Err(CodecError::TruncatedInput)
    }
}

/// Reads a 32-bit little-endian unsigned integer at `*pos`, advancing `*pos`.
/// Succeeds exactly when four bytes remain.
pub fn read_u32(data: &Vec<u8>, pos: &mut usize) -> (r: Result<u32, CodecError>)
    ensures
        match r {
            Ok(v) => {
                &&& *old(pos) + 4 <= data@.len()
                &&& *final(pos) == *old(pos) + 4
                &&& le32(v) == data@.subrange(*old(pos) as int, *old(pos) + 4)
            },
            Err(e) => {
                &&& e == CodecError::TruncatedInput
                &&& *old(pos) + 4 > data@.len()
                &&& *final(pos) == *old(pos)
            },
        },
{
    if *pos < data.len() && data.len() - *pos >= 4 {
        let b0 = data[*pos];
        let b1 = data[*pos + 1];
        let b2 = data[*pos + 2];
        let b3 = data[*pos + 3];
        let v: u32 = b0 as u32 + b1 as u32 * 256 + b2 as u32 * 65536 + b3 as u32 * 16777216;
        proof {
            lemma_le32_of_le32_val(b0, b1, b2, b3);
            assert(le32(v) =~= data@.subrange(*pos as int, *pos + 4));
        }
        *pos = *pos + 4;
        Ok(v)
    } else {
        Err(CodecError::TruncatedInput)
    }
}

/// Reads `n` raw bytes at `*pos`, advancing `*pos`.
/// Succeeds exactly when `n` bytes remain.
pub fn read_bytes(data: &Vec<u8>, pos: &mut usize, n: usize) -> (r: Result<Vec<u8>, CodecError>)
    ensures
        match r {
            Ok(v) => {
                &&& *old(pos) + n <= data@.len()
                &&& *final(pos) == *old(pos) + n
                &&& v@ == data@.subrange(*old(pos) as int, *old(pos) + n)
            },
            Err(e) => {
                &&& e == CodecError::TruncatedInput
                &&& *old(pos) + n > data@.len()
                &&& *final(pos) == *old(pos)
            },
        },
{
    let len: usize = data.len();
    if *pos <= len && len - *pos >= n {
        let mut v: Vec<u8> = Vec::new();
        let mut i: usize = 0;
        while i < n
            invariant
                i <= n,
                *pos + n <= len,
                len == data@.len(),
                v@ == data@.subrange(*pos as int, *pos + i),
            decreases n - i,
        {
            v.push(data[*pos + i]);
            i = i + 1;
            proof {
                assert(v@ =~= data@.subrange(*pos as int, *pos + i));
            }
        }
        *pos = *pos + n;
        Ok(v)
    } else {
        Err(CodecError::TruncatedInput)
    }
}

/// Appends the two little-endian bytes of `v` to `out`.
pub fn write_u16(out: &mut Vec<u8>, v: u16)
    ensures
        final(out)@ == old(out)@ + le16(v),
{
    proof {
        assert(v / 256 < 256) by (nonlinear_arith);
    }
    out.push((v % 256) as u8);
    out.push((v / 256) as u8);
    proof {
        assert(out@ =~= old(out)@ + le16(v));
    }
}

/// Appends the four little-endian bytes of `v` to `out`.
pub fn write_u32(out: &mut Vec<u8>, v: u32)
    ensures
        final(out)@ == old(out)@ + le32(v),
{
    proof {
        assert(v / 16777216 < 256) by (nonlinear_arith);
    }
    out.push((v % 256) as u8);
    out.push(((v / 256) % 256) as u8);
    out.push(((v / 65536) % 256) as u8);
    out.push((v / 16777216) as u8);
    proof {
        assert(out@ =~= old(out)@ + le32(v));
    }
}

/// Appends every byte of `src` to `out`.
pub fn write_bytes(out: &mut Vec<u8>, src: &Vec<u8>)
    ensures
        final(out)@ == old(out)@ + src@,
{
    let mut i: usize = 0;
    while i < src.len()
        invariant
            i <= src@.len(),
            out@ == old(out)@ + src@.subrange(0, i as int),
        decreases src@.len() - i,
    {
        out.push(src[i]);
        i = i + 1;
        proof {
            assert(out@ =~= old(out)@ + src@.subrange(0, i as int));
        }
    }
    proof {
        assert(src@.subrange(0, src@.len() as int) =~= src@);
    }
}

} // verus!
