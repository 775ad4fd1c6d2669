//! Checks made on a VBA project's compressed containers and on its `dir`
//! stream before the project parser is given them (MS-OVBA 2.4.1 and
//! 2.3.4.2): the parser faults on a chunk that claims more bytes than
//! remain, on a copy token that reaches before the start of its chunk or
//! past the widths of a chunk's offsets, on a code page that maps to no
//! encoding, and (see `vba_dir`) on a `dir` stream whose parse leaves
//! bytes unread.
use vstd::prelude::*;

verus! {

/// How decompressing a compressed container (or one chunk of it) ends:
/// with the decompressed bytes, refused as malformed, or at a fault.
pub enum Unpacked {
    Done(Seq<u8>),
    Refused,
    Faulted,
}

/// The executable counterpart of [`Unpacked`].
pub enum Unpacking {
    Done(Vec<u8>),
    Refused,
    Faulted,
}

impl View for Unpacking {
    type V = Unpacked;

    open spec fn view(&self) -> Unpacked {
        match self {
            Unpacking::Done(v) => Unpacked::Done(v@),
            Unpacking::Refused => Unpacked::Refused,
            Unpacking::Faulted => Unpacked::Faulted,
        }
    }
}

/// The little-endian 16-bit value at `pos`.
pub open spec fn le_u16_at(d: Seq<u8>, pos: int) -> int {
    d[pos] + 256 * d[pos + 1]
}

/// The span of the length part of a copy token once `diff` bytes of the
/// chunk are decompressed: 2 to the power of 16 less the bit count, where
/// the bit count is the least number, at least 4, whose power of 2 reaches
/// `diff`. Zero past 32768 bytes, where the bit count would be 16.
pub open spec fn offset_span(diff: int) -> int {
    if diff <= 16 {
        4096
    } else if diff <= 32 {
        2048
    } else if diff <= 64 {
        1024
    } else if diff <= 128 {
        512
    } else if diff <= 256 {
        256
    } else if diff <= 512 {
        128
    } else if diff <= 1024 {
        64
    } else if diff <= 2048 {
        32
    } else if diff <= 4096 {
        16
    } else if diff <= 8192 {
        8
    } else if diff <= 16384 {
        4
    } else if diff <= 32768 {
        2
    } else {
        0
    }
}

/// Appends `length` bytes, each copied from `offset` bytes back.
pub open spec fn copy_run(out: Seq<u8>, offset: int, length: nat) -> Seq<u8>
    decreases length,
{
    if length == 0 {
        out
    } else {
        copy_run(out.push(out[out.len() - offset]), offset, (length - 1) as nat)
    }
}

/// Decompresses the tokens of a compressed chunk from `pos` on. `flag`
/// holds the flag bits not yet used (lowest first) and `bit` how many of
/// the current flag byte's eight are used; `out` is what the chunk gave so far.
pub open spec fn unpack_tokens(chunk: Seq<u8>, pos: int, flag: int, bit: int, out: Seq<u8>) -> Unpacked
    decreases chunk.len() - pos,
{
    if pos < 0 || pos >= chunk.len() {
        Unpacked::Done(out)
    } else if bit >= 8 {
        unpack_tokens(chunk, pos + 1, chunk[pos] as int, 0, out)
    } else if flag % 2 == 1 {
        if pos + 2 > chunk.len() {
            Unpacked::Refused
        } else {
            let raw = le_u16_at(chunk, pos);
            let span = offset_span(out.len() as int);
            if span == 0 {
                Unpacked::Faulted
            } else {
                let length = raw % span + 3;
                let offset = raw / span + 1;
                if offset > out.len() {
                    Unpacked::Faulted
                } else {
                    unpack_tokens(chunk, pos + 2, flag / 2, bit + 1, copy_run(out, offset, length as nat))
                }
            }
        }
    } else {
        unpack_tokens(chunk, pos + 1, flag / 2, bit + 1, out.push(chunk[pos]))
    }
}

/// Decompresses the chunks of a container from `pos` on, after `acc`;
/// `any` tells whether a chunk was read already.
pub open spec fn unpack_chunks(d: Seq<u8>, pos: int, acc: Seq<u8>, any: bool) -> Unpacked
    decreases d.len() - pos,
{
    if pos < 0 || pos >= d.len() {
        if any && pos == d.len() {
            Unpacked::Done(acc)
        } else {
            Unpacked::Refused
        }
    } else if pos + 2 > d.len() {
        Unpacked::Refused
    } else {
        let header = le_u16_at(d, pos);
        if (header / 4096) % 8 != 3 {
            Unpacked::Refused
        } else {
            let length = header % 4096 + 1;
            let start = pos + 2;
            if start + length > d.len() {
                Unpacked::Faulted
            } else {
                let chunk = d.subrange(start, start + length);
                if header >= 32768 {
                    match unpack_tokens(chunk, 0, 0, 8, Seq::empty()) {
                        Unpacked::Done(out) => unpack_chunks(d, start + length, acc + out, true),
                        Unpacked::Refused => Unpacked::Refused,
                        Unpacked::Faulted => Unpacked::Faulted,
                    }
                } else {
                    unpack_chunks(d, start + length, acc + chunk, true)
                }
            }
        }
    }
}

/// Decompresses a compressed container: a signature byte of 1, then one or
/// more chunks that take up the rest of the bytes.
pub open spec fn unpack_container(d: Seq<u8>) -> Unpacked {
    if d.len() == 0 || d[0] != 1 {
        Unpacked::Refused
    } else {
        unpack_chunks(d, 1, Seq::empty(), false)
    }
}

fn span_for(diff: usize) -> (r: usize)
    ensures
        r == offset_span(diff as int),
{
    if diff <= 16 {
        4096
    } else if diff <= 32 {
        2048
    } else if diff <= 64 {
        1024
    } else if diff <= 128 {
        512
    } else if diff <= 256 {
        256
    } else if diff <= 512 {
        128
    } else if diff <= 1024 {
        64
    } else if diff <= 2048 {
        32
    } else if diff <= 4096 {
        16
    } else if diff <= 8192 {
        8
    } else if diff <= 16384 {
        4
    } else if diff <= 32768 {
        2
    } else {
        0
    }
}

/// Decompresses the compressed chunk `d[start..end]`.
pub fn unpack_compressed_chunk(d: &[u8], start: usize, end: usize) -> (r: Unpacking)
    requires
        start <= end <= d@.len(),
    ensures
        r@ == unpack_tokens(d@.subrange(start as int, end as int), 0, 0, 8, Seq::empty()),
{
    let ghost chunk = d@.subrange(start as int, end as int);
    let mut out: Vec<u8> = Vec::new();
    let mut pos: usize = start;
    let mut flag: u8 = 0;
    let mut bit: usize = 8;
    while pos < end
        invariant
            start <= pos <= end <= d@.len(),
            chunk == d@.subrange(start as int, end as int),
            bit <= 8,
            unpack_tokens(chunk, pos - start, flag as int, bit as int, out@) == unpack_tokens(
                chunk,
                0,
                0,
                8,
                Seq::empty(),
            ),
        decreases end - pos,
    {
        let ghost p = pos - start;
        if bit >= 8 {
            assert(chunk[p] == d@[pos as int]);
            flag = d[pos];
            pos += 1;
            bit = 0;
        } else if flag % 2 == 1 {
            if end - pos < 2 {
                return Unpacking::Refused;
            }
            assert(chunk[p] == d@[pos as int] && chunk[p + 1] == d@[pos + 1]);
            let raw: usize = d[pos] as usize + 256 * (d[pos + 1] as usize);
            let span = span_for(out.len());
            if span == 0 {
                return Unpacking::Faulted;
            }
            let length = raw % span + 3;
            let offset = raw / span + 1;
            if offset > out.len() {
                return Unpacking::Faulted;
            }
            let ghost base = out@;
            let mut k: usize = 0;
            while k < length
                invariant
                    1 <= offset <= base.len(),
                    k <= length,
                    out@.len() == base.len() + k,
                    copy_run(out@, offset as int, (length - k) as nat) == copy_run(base, offset as int, length as nat),
                decreases length - k,
            {
                let b = out[out.len() - offset];
                out.push(b);
                k += 1;
            }
            pos += 2;
            flag = flag / 2;
            bit += 1;
        } else {
            assert(chunk[p] == d@[pos as int]);
            out.push(d[pos]);
            pos += 1;
            flag = flag / 2;
            bit += 1;
        }
    }
    Unpacking::Done(out)
}

/// Decompresses the compressed container that the bytes hold.
pub fn unpack_compressed_container(d: &[u8]) -> (r: Unpacking)
    ensures
        r@ == unpack_container(d@),
{
    if d.len() == 0 || d[0] != 1 {
        return Unpacking::Refused;
    }
    let mut acc: Vec<u8> = Vec::new();
    let mut any = false;
    let mut pos: usize = 1;
    loop
        invariant
            1 <= pos <= d@.len(),
            d@[0] == 1,
            unpack_chunks(d@, pos as int, acc@, any) == unpack_container(d@),
        decreases d@.len() - pos,
    {
        if pos >= d.len() {
            if any {
                return Unpacking::Done(acc);
            } else {
                return Unpacking::Refused;
            }
        }
        if d.len() - pos < 2 {
            return Unpacking::Refused;
        }
        let header: usize = d[pos] as usize + 256 * (d[pos + 1] as usize);
        if (header / 4096) % 8 != 3 {
            return Unpacking::Refused;
        }
        let length = header % 4096 + 1;
        let start = pos + 2;
        if length > d.len() - start {
            return Unpacking::Faulted;
        }
        let end = start + length;
        if header >= 32768 {
            match unpack_compressed_chunk(d, start, end) {
                Unpacking::Done(out) => {
                    let mut out = out;
                    acc.append(&mut out);
                },
                Unpacking::Refused => {
                    return Unpacking::Refused;
                },
                Unpacking::Faulted => {
                    return Unpacking::Faulted;
                },
            }
        } else {
            let ghost before = acc@;
            let mut k: usize = start;
            while k < end
                invariant
                    start <= k <= end <= d@.len(),
                    acc@ == before + d@.subrange(start as int, k as int),
                decreases end - k,
            {
                acc.push(d[k]);
                k += 1;
                assert(d@.subrange(start as int, k as int) =~= d@.subrange(start as int, k - 1).push(d@[k - 1]));
            }
        }
        any = true;
        pos = end;
    }
}

/// Whether `d` has the record head `id`, 0, `size`, 0, 0, 0 at `pos`.
pub open spec fn record_head(d: Seq<u8>, pos: int, id: u8, size: u8) -> bool {
    &&& 0 <= pos
    &&& pos + 6 <= d.len()
    &&& d[pos] == id
    &&& d[pos + 1] == 0
    &&& d[pos + 2] == size
    &&& d[pos + 3] == 0
    &&& d[pos + 4] == 0
    &&& d[pos + 5] == 0
}

/// The code page that a decompressed `dir` stream records, when its leading
/// records are as the parser reads them: SYSKIND (of a value from 0 to 3),
/// an optional COMPAT, LCID, LCIDINVOKE, then CODEPAGE.
pub open spec fn dir_code_page(d: Seq<u8>) -> Option<u16> {
    if !(record_head(d, 0, 0x01, 4) && d.len() >= 10 && d[6] <= 3 && d[7] == 0 && d[8] == 0 && d[9] == 0) {
        None
    } else {
        let p = if record_head(d, 10, 0x4A, 4) && d.len() >= 20 {
            20int
        } else {
            10int
        };
        if record_head(d, p, 0x02, 4) && d.len() >= p + 10 && record_head(d, p + 10, 0x14, 4) && d.len() >= p
            + 20 && record_head(d, p + 20, 0x03, 2) && d.len() >= p + 28 {
            Some(le_u16_at(d, p + 26) as u16)
        } else {
            None
        }
    }
}

fn record_head_at(d: &[u8], pos: usize, id: u8, size: u8) -> (r: bool)
    ensures
        r == record_head(d@, pos as int, id, size),
{
    pos <= d.len() && d.len() - pos >= 6 && d[pos] == id && d[pos + 1] == 0 && d[pos + 2] == size && d[pos
        + 3] == 0 && d[pos + 4] == 0 && d[pos + 5] == 0
}

/// Reads the code page that a decompressed `dir` stream records.
pub fn dir_stream_code_page(d: &[u8]) -> (r: Option<u16>)
    ensures
        r == dir_code_page(d@),
{
    if !(record_head_at(d, 0, 0x01, 4) && d.len() >= 10 && d[6] <= 3 && d[7] == 0 && d[8] == 0 && d[9] == 0) {
        return None;
    }
    let p: usize = if record_head_at(d, 10, 0x4A, 4) && d.len() >= 20 {
        20
    } else {
        10
    };
    if record_head_at(d, p, 0x02, 4) && d.len() >= p + 10 && record_head_at(d, p + 10, 0x14, 4) && d.len() >= p
        + 20 && record_head_at(d, p + 20, 0x03, 2) && d.len() >= p + 28 {
        let cp: u16 = d[p + 26] as u16 + 256 * (d[p + 27] as u16);
        Some(cp)
    } else {
        None
    }
}

} // verus!
