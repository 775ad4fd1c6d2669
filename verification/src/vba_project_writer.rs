//! Writers for the binary streams of a minimal VBA project: the `dir`
//! stream of MS-OVBA records, and module source compressed with
//! literal-only MS-OVBA chunks.
use vstd::prelude::*;
use crate::text::chars_of;
use crate::vba_extract::VbaModuleKind;

verus! {

/// Little-endian bytes of a 16-bit value.
pub open spec fn le16(x: u16) -> Seq<u8> {
    seq![(x % 256) as u8, (x / 256) as u8]
}

/// Little-endian bytes of a 32-bit value.
pub open spec fn le32(x: u32) -> Seq<u8> {
    seq![(x % 256) as u8, ((x / 256) % 256) as u8, ((x / 65536) % 256) as u8, (x / 16777216) as u8]
}

/// A record: its id, the length of its data and the data.
pub open spec fn dir_record(id: u16, data: Seq<u8>) -> Seq<u8> {
    le16(id) + le32(data.len() as u32) + data
}

pub open spec fn fixed_u16_record(id: u16, value: u16) -> Seq<u8> {
    le16(id) + le32(2) + le16(value)
}

pub open spec fn fixed_u32_record(id: u16, value: u32) -> Seq<u8> {
    le16(id) + le32(4) + le32(value)
}

pub open spec fn reserved_record(id: u16) -> Seq<u8> {
    le16(id) + le32(0)
}

pub open spec fn version_record(major: u32, minor: u16) -> Seq<u8> {
    le16(9) + le32(4) + le32(major) + le16(minor)
}

fn push_le16(buffer: &mut Vec<u8>, x: u16)
    ensures
        final(buffer)@ == old(buffer)@ + le16(x),
{
    buffer.push((x % 256) as u8);
    buffer.push((x / 256) as u8);
    assert(buffer@ =~= old(buffer)@ + le16(x));
}

fn push_le32(buffer: &mut Vec<u8>, x: u32)
    ensures
        final(buffer)@ == old(buffer)@ + le32(x),
{
    buffer.push((x % 256) as u8);
    buffer.push(((x / 256) % 256) as u8);
    buffer.push(((x / 65536) % 256) as u8);
    buffer.push((x / 16777216) as u8);
    assert(buffer@ =~= old(buffer)@ + le32(x));
}

fn push_bytes(buffer: &mut Vec<u8>, data: &[u8])
    ensures
        final(buffer)@ == old(buffer)@ + data@,
{
    let mut i: usize = 0;
    while i < data.len()
        invariant
            i <= data@.len(),
            buffer@ == old(buffer)@ + data@.take(i as int),
        decreases data@.len() - i,
    {
        buffer.push(data[i]);
        assert(data@.take(i + 1) =~= data@.take(i as int).push(data@[i as int]));
        i += 1;
    }
    assert(data@.take(data@.len() as int) =~= data@);
}

pub fn append_dir_record(buffer: &mut Vec<u8>, id: u16, data: &[u8])
    ensures
        final(buffer)@ == old(buffer)@ + dir_record(id, data@),
{
    push_le16(buffer, id);
    #[verifier::truncate]
    let len = data.len() as u32;
    push_le32(buffer, len);
    push_bytes(buffer, data);
    assert(buffer@ =~= old(buffer)@ + dir_record(id, data@));
}

pub fn append_fixed_u16_record(buffer: &mut Vec<u8>, id: u16, value: u16)
    ensures
        final(buffer)@ == old(buffer)@ + fixed_u16_record(id, value),
{
    push_le16(buffer, id);
    push_le32(buffer, 2);
    push_le16(buffer, value);
    assert(buffer@ =~= old(buffer)@ + fixed_u16_record(id, value));
}

pub fn append_fixed_u32_record(buffer: &mut Vec<u8>, id: u16, value: u32)
    ensures
        final(buffer)@ == old(buffer)@ + fixed_u32_record(id, value),
{
    push_le16(buffer, id);
    push_le32(buffer, 4);
    push_le32(buffer, value);
    assert(buffer@ =~= old(buffer)@ + fixed_u32_record(id, value));
}

pub fn append_reserved_record(buffer: &mut Vec<u8>, id: u16)
    ensures
        final(buffer)@ == old(buffer)@ + reserved_record(id),
{
    push_le16(buffer, id);
    push_le32(buffer, 0);
    assert(buffer@ =~= old(buffer)@ + reserved_record(id));
}

pub fn append_version_record(buffer: &mut Vec<u8>, major: u32, minor: u16)
    ensures
        final(buffer)@ == old(buffer)@ + version_record(major, minor),
{
    push_le16(buffer, 9);
    push_le32(buffer, 4);
    push_le32(buffer, major);
    push_le16(buffer, minor);
    assert(buffer@ =~= old(buffer)@ + version_record(major, minor));
}

/// The UTF-16 code units of one character.
pub open spec fn utf16_units(c: char) -> Seq<u16> {
    let v = c as u32;
    if v < 0x10000 {
        seq![v as u16]
    } else {
        let w = (v - 0x10000) as u32;
        seq![(0xD800 + w / 1024) as u16, (0xDC00 + w % 1024) as u16]
    }
}

pub open spec fn units_le(units: Seq<u16>) -> Seq<u8>
    decreases units.len(),
{
    if units.len() == 0 {
        Seq::empty()
    } else {
        units_le(units.drop_last()) + le16(units.last())
    }
}

/// The UTF-16LE encoding of a text.
pub open spec fn utf16le_spec(s: Seq<char>) -> Seq<u8>
    decreases s.len(),
{
    if s.len() == 0 {
        Seq::empty()
    } else {
        utf16le_spec(s.drop_last()) + units_le(utf16_units(s.last()))
    }
}

pub fn utf16le_bytes(value: &str) -> (r: Vec<u8>)
    ensures
        r@ == utf16le_spec(value@),
{
    let v = chars_of(value);
    let mut out: Vec<u8> = Vec::new();
    let mut i: usize = 0;
    while i < v.len()
        invariant
            v@ == value@,
            i <= v@.len(),
            out@ == utf16le_spec(v@.take(i as int)),
        decreases v@.len() - i,
    {
        assert(v@.take(i + 1).drop_last() =~= v@.take(i as int));
        let c = v[i] as u32;
        let ghost before = out@;
        if c < 0x10000 {
            push_le16(&mut out, c as u16);
            assert(units_le(seq![c as u16]) =~= Seq::<u8>::empty() + le16(c as u16)) by {
                reveal_with_fuel(units_le, 2);
                assert(seq![c as u16].drop_last() =~= Seq::<u16>::empty());
            }
        } else {
            let w = c - 0x10000;
            let hi = (0xD800 + w / 1024) as u16;
            let lo = (0xDC00 + w % 1024) as u16;
            push_le16(&mut out, hi);
            push_le16(&mut out, lo);
            assert(units_le(seq![hi, lo]) =~= le16(hi) + le16(lo)) by {
                reveal_with_fuel(units_le, 3);
                assert(seq![hi, lo].drop_last() =~= seq![hi]);
                assert(seq![hi].drop_last() =~= Seq::<u16>::empty());
            }
            assert(out@ =~= before + le16(hi) + le16(lo));
        }
        i += 1;
    }
    assert(v@.take(v@.len() as int) =~= v@);
    out
}


pub open spec fn project_name_bytes() -> Seq<u8> {
    seq![0x50u8, 0x72u8, 0x6fu8, 0x6au8, 0x65u8, 0x63u8, 0x74u8, 0x31u8]
}

/// The project records of a `dir` stream that lists `count` modules.
pub open spec fn dir_header(code_page: u16, count: u16) -> Seq<u8> {
    fixed_u32_record(0x0001, 0x0000_0001) + fixed_u32_record(0x0002, 0x0000_0409) + fixed_u32_record(
        0x0014,
        0x0000_0409,
    ) + fixed_u16_record(0x0003, code_page) + dir_record(0x0004, project_name_bytes()) + dir_record(
        0x0005,
        Seq::empty(),
    ) + dir_record(0x0040, Seq::empty()) + dir_record(0x0006, Seq::empty()) + dir_record(
        0x003D,
        Seq::empty(),
    ) + fixed_u32_record(0x0007, 0) + fixed_u32_record(0x0008, 0) + version_record(1, 0)
        + fixed_u16_record(0x000F, count) + fixed_u16_record(0x0013, 0)
}

/// The records that describe one module: its name (twice, then in UTF-16),
/// empty doc strings, zero offsets and help context, its type and a
/// terminator.
pub open spec fn module_records(name: Seq<char>, kind: VbaModuleKind) -> Seq<u8> {
    let bytes = vstd::utf8::encode_utf8(name);
    dir_record(0x0019, bytes) + dir_record(0x001A, bytes) + dir_record(0x0032, utf16le_spec(name))
        + dir_record(0x001C, Seq::empty()) + dir_record(0x0048, Seq::empty()) + fixed_u32_record(
        0x0031,
        0,
    ) + fixed_u32_record(0x001E, 0) + fixed_u16_record(0x002C, 0) + reserved_record(
        match kind {
            VbaModuleKind::Procedural => 0x0021u16,
            VbaModuleKind::DocClsDesigner => 0x0022u16,
        },
    ) + reserved_record(0x002B)
}

pub open spec fn modules_records(modules: Seq<(Seq<char>, VbaModuleKind)>) -> Seq<u8>
    decreases modules.len(),
{
    if modules.len() == 0 {
        Seq::empty()
    } else {
        modules_records(modules.drop_last()) + module_records(modules.last().0, modules.last().1)
    }
}

/// The `dir` stream of a project with the given modules and code page.
pub open spec fn dir_stream_spec(modules: Seq<(Seq<char>, VbaModuleKind)>, code_page: u16) -> Seq<u8> {
    dir_header(code_page, modules.len() as u16) + modules_records(modules) + reserved_record(0x0010)
}

pub open spec fn module_list_view(v: Seq<(String, VbaModuleKind)>) -> Seq<(Seq<char>, VbaModuleKind)> {
    v.map_values(|m: (String, VbaModuleKind)| (m.0@, m.1))
}

fn append_header(dir: &mut Vec<u8>, code_page: u16, count: u16)
    ensures
        final(dir)@ == old(dir)@ + dir_header(code_page, count),
{
    let empty: Vec<u8> = Vec::new();
    let name: Vec<u8> = vec![0x50u8, 0x72u8, 0x6fu8, 0x6au8, 0x65u8, 0x63u8, 0x74u8, 0x31u8];
    assert(name@ =~= project_name_bytes());
    assert(empty@ =~= Seq::<u8>::empty());
    append_fixed_u32_record(dir, 0x0001, 0x0000_0001);
    append_fixed_u32_record(dir, 0x0002, 0x0000_0409);
    append_fixed_u32_record(dir, 0x0014, 0x0000_0409);
    append_fixed_u16_record(dir, 0x0003, code_page);
    append_dir_record(dir, 0x0004, name.as_slice());
    append_dir_record(dir, 0x0005, empty.as_slice());
    append_dir_record(dir, 0x0040, empty.as_slice());
    append_dir_record(dir, 0x0006, empty.as_slice());
    append_dir_record(dir, 0x003D, empty.as_slice());
    append_fixed_u32_record(dir, 0x0007, 0);
    append_fixed_u32_record(dir, 0x0008, 0);
    append_version_record(dir, 1, 0);
    append_fixed_u16_record(dir, 0x000F, count);
    append_fixed_u16_record(dir, 0x0013, 0);
    assert(dir@ =~= old(dir)@ + dir_header(code_page, count));
}

fn append_module(dir: &mut Vec<u8>, name: &str, kind: VbaModuleKind)
    ensures
        final(dir)@ == old(dir)@ + module_records(name@, kind),
{
    let empty: Vec<u8> = Vec::new();
    assert(empty@ =~= Seq::<u8>::empty());
    let wide = utf16le_bytes(name);
    append_dir_record(dir, 0x0019, name.as_bytes());
    append_dir_record(dir, 0x001A, name.as_bytes());
    append_dir_record(dir, 0x0032, wide.as_slice());
    append_dir_record(dir, 0x001C, empty.as_slice());
    append_dir_record(dir, 0x0048, empty.as_slice());
    append_fixed_u32_record(dir, 0x0031, 0);
    append_fixed_u32_record(dir, 0x001E, 0);
    append_fixed_u16_record(dir, 0x002C, 0);
    match kind {
        VbaModuleKind::Procedural => append_reserved_record(dir, 0x0021),
        VbaModuleKind::DocClsDesigner => append_reserved_record(dir, 0x0022),
    }
    append_reserved_record(dir, 0x002B);
    assert(dir@ =~= old(dir)@ + module_records(name@, kind));
}

pub fn build_vba_dir_stream_with_modules(modules: &Vec<(String, VbaModuleKind)>, code_page: u16) -> (r: Vec<u8>)
    ensures
        r@ == dir_stream_spec(module_list_view(modules@), code_page),
{
    let ghost mv = module_list_view(modules@);
    let mut dir: Vec<u8> = Vec::new();
    #[verifier::truncate]
    let count = modules.len() as u16;
    append_header(&mut dir, code_page, count);
    let ghost head = dir@;
    let mut i: usize = 0;
    assert(head + modules_records(mv.take(0)) =~= head);
    while i < modules.len()
        invariant
            mv == module_list_view(modules@),
            i <= modules@.len(),
            dir@ == head + modules_records(mv.take(i as int)),
        decreases modules@.len() - i,
    {
        assert(mv.take(i + 1).drop_last() =~= mv.take(i as int));
        assert(mv[i as int] == (modules@[i as int].0@, modules@[i as int].1));
        append_module(&mut dir, modules[i].0.as_str(), modules[i].1);
        assert(dir@ =~= head + modules_records(mv.take(i + 1)));
        i += 1;
    }
    assert(mv.take(modules@.len() as int) =~= mv);
    append_reserved_record(&mut dir, 0x0010);
    assert(dir@ =~= dir_stream_spec(mv, code_page));
    dir
}

pub fn build_vba_dir_stream(module_name: &str, code_page: u16) -> (r: Vec<u8>)
    ensures
        r@ == dir_stream_spec(seq![(module_name@, VbaModuleKind::Procedural)], code_page),
{
    let modules = vec![(module_name.to_string(), VbaModuleKind::Procedural)];
    assert(module_list_view(modules@) =~= seq![(module_name@, VbaModuleKind::Procedural)]);
    build_vba_dir_stream_with_modules(&modules, code_page)
}


pub open spec fn min_nat(a: nat, b: nat) -> nat {
    if a < b {
        a
    } else {
        b
    }
}

/// Literal-only token groups: a zero flag byte before each run of at most
/// eight literal bytes.
pub open spec fn literal_tokens(chunk: Seq<u8>) -> Seq<u8>
    decreases chunk.len(),
{
    if chunk.len() == 0 {
        Seq::empty()
    } else {
        let g = min_nat(8, chunk.len());
        seq![0u8] + chunk.take(g as int) + literal_tokens(chunk.skip(g as int))
    }
}

/// The two header bytes of a compressed chunk whose token data has `n` bytes:
/// the compressed flag, the signature `0b011` and the chunk size minus three.
pub open spec fn chunk_header(n: nat) -> Seq<u8> {
    let h = 0xB000 + ((n + 2 - 3) % 4096);
    seq![(h % 256) as u8, (h / 256) as u8]
}

pub open spec fn compressed_chunks(data: Seq<u8>) -> Seq<u8>
    decreases data.len(),
{
    if data.len() == 0 {
        Seq::empty()
    } else {
        let n = min_nat(4096, data.len());
        let tokens = literal_tokens(data.take(n as int));
        chunk_header(tokens.len()) + tokens + compressed_chunks(data.skip(n as int))
    }
}

/// A compressed container (signature byte 1) whose chunks hold `data` as
/// 4096-byte runs of literals.
pub open spec fn compress_literal_spec(data: Seq<u8>) -> Seq<u8> {
    seq![1u8] + compressed_chunks(data)
}

proof fn lemma_literal_tokens_len(chunk: Seq<u8>)
    ensures
        chunk.len() <= literal_tokens(chunk).len() <= 2 * chunk.len(),
        chunk.len() > 0 ==> literal_tokens(chunk).len() >= 2,
    decreases chunk.len(),
{
    if chunk.len() > 0 {
        let g = min_nat(8, chunk.len());
        lemma_literal_tokens_len(chunk.skip(g as int));
    }
}

fn chunk_tokens(data: &[u8], pos: usize, chunk_len: usize) -> (r: Vec<u8>)
    requires
        0 < chunk_len <= 4096,
        pos + chunk_len <= data@.len(),
    ensures
        r@ == literal_tokens(data@.subrange(pos as int, pos + chunk_len)),
{
    let ghost chunk = data@.subrange(pos as int, pos + chunk_len);
    let total = data.len();
    let mut tokens: Vec<u8> = Vec::new();
    let mut written: usize = 0;
    assert(chunk.skip(0) =~= chunk);
    while written < chunk_len
        invariant
            chunk == data@.subrange(pos as int, pos + chunk_len),
            pos + chunk_len <= data@.len(),
            total == data@.len(),
            written <= chunk_len,
            tokens@ + literal_tokens(chunk.skip(written as int)) == literal_tokens(chunk),
        decreases chunk_len - written,
    {
        let ghost before = tokens@;
        let group_count = if chunk_len - written < 8 {
            chunk_len - written
        } else {
            8
        };
        tokens.push(0x00);
        let mut index: usize = 0;
        assert(chunk.skip(written as int).take(0) =~= Seq::<u8>::empty());
        assert(tokens@ =~= before + seq![0u8] + chunk.skip(written as int).take(0));
        while index < group_count
            invariant
                chunk == data@.subrange(pos as int, pos + chunk_len),
                pos + chunk_len <= data@.len(),
                total == data@.len(),
                written + group_count <= chunk_len,
                index <= group_count,
                tokens@ == before + seq![0u8] + chunk.skip(written as int).take(index as int),
            decreases group_count - index,
        {
            tokens.push(data[pos + written + index]);
            assert(chunk.skip(written as int).take(index + 1) =~= chunk.skip(written as int).take(
                index as int,
            ).push(data@[pos + written + index]));
            index += 1;
        }
        let ghost rest = chunk.skip(written as int);
        assert(rest.skip(group_count as int) =~= chunk.skip(written + group_count));
        assert(min_nat(8, rest.len()) == group_count);
        assert(tokens@ + literal_tokens(chunk.skip(written + group_count)) =~= before + literal_tokens(rest));
        written += group_count;
    }
    assert(chunk.skip(chunk_len as int) =~= Seq::<u8>::empty());
    assert(tokens@ + Seq::<u8>::empty() =~= tokens@);
    tokens
}

pub fn compress_ovba_literal_only(data: &[u8]) -> (r: Vec<u8>)
    ensures
        r@ == compress_literal_spec(data@),
{
    let mut output: Vec<u8> = vec![0x01];
    let mut pos: usize = 0;
    assert(data@.skip(0) =~= data@);
    assert(output@ + compressed_chunks(data@.skip(0)) =~= compress_literal_spec(data@));
    while pos < data.len()
        invariant
            pos <= data@.len(),
            output@ + compressed_chunks(data@.skip(pos as int)) == compress_literal_spec(data@),
        decreases data@.len() - pos,
    {
        let ghost before = output@;
        let chunk_len = if data.len() - pos < 4096 {
            data.len() - pos
        } else {
            4096
        };
        let tokens = chunk_tokens(data, pos, chunk_len);
        proof {
            lemma_literal_tokens_len(data@.subrange(pos as int, pos + chunk_len));
        }
        let size = tokens.len() + 2;
        let header = 0xB000 + ((size - 3) % 4096);
        output.push((header % 256) as u8);
        output.push((header / 256) as u8);
        let mut k: usize = 0;
        while k < tokens.len()
            invariant
                k <= tokens@.len(),
                output@ == before + chunk_header(tokens@.len()) + tokens@.take(k as int),
            decreases tokens@.len() - k,
        {
            output.push(tokens[k]);
            assert(tokens@.take(k + 1) =~= tokens@.take(k as int).push(tokens@[k as int]));
            k += 1;
        }
        assert(tokens@.take(tokens@.len() as int) =~= tokens@);
        let ghost rest = data@.skip(pos as int);
        assert(rest.take(chunk_len as int) =~= data@.subrange(pos as int, pos + chunk_len));
        assert(rest.skip(chunk_len as int) =~= data@.skip(pos + chunk_len));
        assert(min_nat(4096, rest.len()) == chunk_len);
        assert(output@ + compressed_chunks(data@.skip(pos + chunk_len)) =~= before + compressed_chunks(rest));
        pos += chunk_len;
    }
    assert(data@.skip(pos as int) =~= Seq::<u8>::empty());
    assert(output@ + Seq::<u8>::empty() =~= output@);
    output
}

} // verus!
