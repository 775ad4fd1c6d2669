//! Where the record parse of a decompressed `dir` stream (MS-OVBA 2.3.4.2)
//! stops, read record by record as the project parser reads them: the
//! project information records, the references and the modules, then the
//! terminator. The parser is only handed a stream whose parse, if it
//! succeeds, uses up every byte.
use vstd::prelude::*;

verus! {

/// Where reading stands: at a position, or stopped by a recoverable
/// mismatch (an optional record may be absent), or by a record whose
/// length runs past the end (which nothing recovers from).
pub enum Step {
    At(int),
    Soft,
    Hard,
}

/// The executable counterpart of [`Step`].
pub enum Cursor {
    At(usize),
    Soft,
    Hard,
}

impl View for Cursor {
    type V = Step;

    open spec fn view(&self) -> Step {
        match self {
            Cursor::At(p) => Step::At(*p as int),
            Cursor::Soft => Step::Soft,
            Cursor::Hard => Step::Hard,
        }
    }
}

/// The little-endian 32-bit value at `p`.
pub open spec fn le32(d: Seq<u8>, p: int) -> int {
    d[p] + 256 * d[p + 1] + 65536 * d[p + 2] + 16777216 * d[p + 3]
}

/// `n` more bytes.
pub open spec fn take_n(d: Seq<u8>, s: Step, n: int) -> Step {
    match s {
        Step::At(p) => if 0 <= p && p + n <= d.len() {
            Step::At(p + n)
        } else {
            Step::Soft
        },
        o => o,
    }
}

/// The two bytes `a`, `b`.
pub open spec fn tag2(d: Seq<u8>, s: Step, a: u8, b: u8) -> Step {
    match s {
        Step::At(p) => if 0 <= p && p + 2 <= d.len() && d[p] == a && d[p + 1] == b {
            Step::At(p + 2)
        } else {
            Step::Soft
        },
        o => o,
    }
}

/// `n` zero bytes.
pub open spec fn zeros(d: Seq<u8>, s: Step, n: int) -> Step {
    match s {
        Step::At(p) => if 0 <= p && p + n <= d.len() && (forall|k: int| p <= k < p + n ==> d[k] == 0) {
            Step::At(p + n)
        } else {
            Step::Soft
        },
        o => o,
    }
}

/// The record id `id`, 0 and the fixed size `size`, 0, 0, 0.
pub open spec fn head(d: Seq<u8>, s: Step, id: u8, size: u8) -> Step {
    zeros(d, tag2(d, tag2(d, s, id, 0), size, 0), 2)
}

/// A 32-bit length, then that many bytes; a length past the end stops
/// the parse for good.
pub open spec fn data(d: Seq<u8>, s: Step) -> Step {
    match s {
        Step::At(p) => if !(0 <= p && p + 4 <= d.len()) {
            Step::Soft
        } else if p + 4 + le32(d, p) > d.len() {
            Step::Hard
        } else {
            Step::At(p + 4 + le32(d, p))
        },
        o => o,
    }
}

/// An optional part read from `s`: absent when it stops softly.
pub open spec fn opt(s: Step, r: Step) -> Step {
    match r {
        Step::Soft => s,
        o => o,
    }
}

/// A record of id `id` and a 32-bit value.
pub open spec fn rec_u32(d: Seq<u8>, s: Step, id: u8) -> Step {
    take_n(d, head(d, s, id, 4), 4)
}

/// A record of id `id` and a 16-bit value.
pub open spec fn rec_u16(d: Seq<u8>, s: Step, id: u8) -> Step {
    take_n(d, head(d, s, id, 2), 2)
}

/// A record of id `id` and its sized data.
pub open spec fn rec_data(d: Seq<u8>, s: Step, id: u8) -> Step {
    data(d, tag2(d, s, id, 0))
}

/// The sized data of a unicode record, refused when its length is odd.
pub open spec fn even_data(d: Seq<u8>, s: Step) -> Step {
    match (s, data(d, s)) {
        (Step::At(p), Step::At(q)) => if (q - p - 4) % 2 == 0 {
            Step::At(q)
        } else {
            Step::Soft
        },
        (_, o) => o,
    }
}

/// The SYSKIND record: its value must be 0 to 3.
pub open spec fn syskind(d: Seq<u8>, s: Step) -> Step {
    match head(d, s, 0x01, 4) {
        Step::At(p) => if p + 4 <= d.len() && le32(d, p) <= 3 {
            Step::At(p + 4)
        } else {
            Step::Soft
        },
        o => o,
    }
}

/// The information records up to and with the project version.
pub open spec fn information(d: Seq<u8>) -> Step {
    let s = syskind(d, Step::At(0));
    let s = opt(s, rec_u32(d, s, 0x4A));
    let s = rec_u32(d, s, 0x02);
    let s = rec_u32(d, s, 0x14);
    let s = rec_u16(d, s, 0x03);
    let s = rec_data(d, s, 0x04);
    let s = rec_data(d, s, 0x05);
    let s = even_data(d, tag2(d, s, 0x40, 0));
    let s = rec_data(d, s, 0x06);
    let s = rec_data(d, s, 0x3d);
    let s = rec_u32(d, s, 0x07);
    let s = rec_u32(d, s, 0x08);
    let s = take_n(d, take_n(d, head(d, s, 0x09, 4), 4), 2);
    match rec_data(d, s, 0x0c) {
        Step::At(q) => opt(Step::At(q), rec_data(d, Step::At(q), 0x3c)),
        Step::Soft => s,
        Step::Hard => Step::Hard,
    }
}

/// The optional name (and unicode name) of a reference.
pub open spec fn ref_name(d: Seq<u8>, s: Step) -> Step {
    opt(s, rec_data(d, rec_data(d, s, 0x16), 0x3e))
}

/// A REFERENCECONTROL record.
pub open spec fn ref_control(d: Seq<u8>, s: Step) -> Step {
    let s = data(d, take_n(d, tag2(d, s, 0x2f, 0), 4));
    let s = zeros(d, s, 6);
    let s = ref_name(d, s);
    let s = data(d, take_n(d, tag2(d, s, 0x30, 0), 4));
    let s = zeros(d, s, 6);
    take_n(d, s, 20)
}

/// A REFERENCEREGISTERED record.
pub open spec fn ref_registered(d: Seq<u8>, s: Step) -> Step {
    zeros(d, data(d, take_n(d, tag2(d, s, 0x0d, 0), 4)), 6)
}

/// A REFERENCEPROJECT record.
pub open spec fn ref_project(d: Seq<u8>, s: Step) -> Step {
    take_n(d, data(d, data(d, take_n(d, tag2(d, s, 0x0e, 0), 4))), 6)
}

/// The references from `p` on, up to the id that opens the module list.
pub open spec fn refs_from(d: Seq<u8>, p: int) -> Step
    decreases d.len() - p,
{
    match ref_name(d, Step::At(p)) {
        Step::At(q) => if !(0 <= q && q + 2 <= d.len()) || d[q + 1] != 0 {
            Step::Soft
        } else {
            let r = if d[q] == 0x2f {
                ref_control(d, Step::At(q))
            } else if d[q] == 0x33 {
                rec_data(d, Step::At(q), 0x33)
            } else if d[q] == 0x0d {
                ref_registered(d, Step::At(q))
            } else if d[q] == 0x0e {
                ref_project(d, Step::At(q))
            } else if d[q] == 0x0f {
                Step::Soft
            } else {
                Step::Hard
            };
            if d[q] == 0x0f {
                Step::At(q)
            } else {
                match r {
                    Step::At(e) => if p < e <= d.len() {
                        refs_from(d, e)
                    } else {
                        Step::Hard
                    },
                    o => o,
                }
            }
        },
        o => o,
    }
}

/// The 16-bit value at `p`.
pub open spec fn le16(d: Seq<u8>, p: int) -> int {
    d[p] + 256 * d[p + 1]
}

/// The six bytes `id`, 0, 0, 0, 0, 0.
pub open spec fn flag_record(d: Seq<u8>, s: Step, id: u8) -> Step {
    zeros(d, tag2(d, s, id, 0), 4)
}

/// One MODULE record.
pub open spec fn module(d: Seq<u8>, s: Step) -> Step {
    let s = rec_data(d, s, 0x19);
    let s = opt(s, rec_data(d, s, 0x47));
    let s = rec_data(d, s, 0x1a);
    let s = rec_data(d, s, 0x32);
    let s = rec_data(d, s, 0x1c);
    let s = rec_data(d, s, 0x48);
    let s = rec_u32(d, s, 0x31);
    let s = rec_u32(d, s, 0x1e);
    let s = rec_u16(d, s, 0x2c);
    let s = match s {
        Step::At(p) => if 0 <= p && p + 2 <= d.len() && (d[p] == 0x21 || d[p] == 0x22) && d[p + 1] == 0 {
            Step::At(p + 2)
        } else {
            Step::Soft
        },
        o => o,
    };
    let s = zeros(d, s, 4);
    let s = opt(s, flag_record(d, s, 0x25));
    let s = opt(s, flag_record(d, s, 0x28));
    zeros(d, tag2(d, s, 0x2b, 0), 4)
}

/// `k` MODULE records.
pub open spec fn modules_from(d: Seq<u8>, s: Step, k: nat) -> Step
    decreases k,
{
    if k == 0 {
        s
    } else {
        modules_from(d, module(d, s), (k - 1) as nat)
    }
}

/// Where the parse of a decompressed `dir` stream ends, if it succeeds.
pub open spec fn dir_parse_end(d: Seq<u8>) -> Step {
    match information(d) {
        Step::At(p) => match refs_from(d, p) {
            Step::At(q) => module_list(d, q),
            o => o,
        },
        o => o,
    }
}

/// Whether a parse of the stream that succeeds uses up every byte.
pub open spec fn dir_parse_uses_all(d: Seq<u8>) -> bool {
    match dir_parse_end(d) {
        Step::At(e) => e == d.len(),
        _ => true,
    }
}

fn c_take(d: &[u8], s: Cursor, n: usize) -> (r: Cursor)
    ensures
        r@ == take_n(d@, s@, n as int),
{
    match s {
        Cursor::At(p) => if p <= d.len() && n <= d.len() - p {
            Cursor::At(p + n)
        } else {
            Cursor::Soft
        },
        o => o,
    }
}

fn c_tag2(d: &[u8], s: Cursor, a: u8, b: u8) -> (r: Cursor)
    ensures
        r@ == tag2(d@, s@, a, b),
{
    match s {
        Cursor::At(p) => if p <= d.len() && d.len() - p >= 2 && d[p] == a && d[p + 1] == b {
            Cursor::At(p + 2)
        } else {
            Cursor::Soft
        },
        o => o,
    }
}

fn all_zero(d: &[u8], p: usize, n: usize) -> (r: bool)
    requires
        p + n <= d@.len(),
    ensures
        r == (forall|j: int| p <= j < p + n ==> d@[j] == 0),
{
    let l = d.len();
    assert(p + n <= l);
    let end = p + n;
    let mut k: usize = p;
    while k < end
        invariant
            p <= k <= end,
            end == p + n,
            end <= d@.len(),
            forall|j: int| p <= j < k ==> d@[j] == 0,
        decreases end - k,
    {
        if d[k] != 0 {
            assert(p <= k < p + n && d@[k as int] != 0);
            return false;
        }
        k += 1;
    }
    true
}

fn c_zeros(d: &[u8], s: Cursor, n: usize) -> (r: Cursor)
    ensures
        r@ == zeros(d@, s@, n as int),
{
    match s {
        Cursor::At(p) => if p <= d.len() && n <= d.len() - p && all_zero(d, p, n) {
            Cursor::At(p + n)
        } else {
            Cursor::Soft
        },
        o => o,
    }
}

fn c_head(d: &[u8], s: Cursor, id: u8, size: u8) -> (r: Cursor)
    ensures
        r@ == head(d@, s@, id, size),
{
    let s = c_tag2(d, s, id, 0);
    let s = c_tag2(d, s, size, 0);
    c_zeros(d, s, 2)
}

fn c_data(d: &[u8], s: Cursor) -> (r: Cursor)
    ensures
        r@ == data(d@, s@),
{
    match s {
        Cursor::At(p) => {
            if !(p <= d.len() && d.len() - p >= 4) {
                return Cursor::Soft;
            }
            let n: u64 = d[p] as u64 + 256 * (d[p + 1] as u64) + 65536 * (d[p + 2] as u64) + 16777216 * (d[p
                + 3] as u64);
            let rest: u64 = (d.len() - (p + 4)) as u64;
            if n > rest {
                Cursor::Hard
            } else {
                Cursor::At(p + 4 + n as usize)
            }
        },
        o => o,
    }
}

fn c_opt(s: Cursor, r: Cursor) -> (o: Cursor)
    ensures
        o@ == opt(s@, r@),
{
    match r {
        Cursor::Soft => s,
        o => o,
    }
}

fn c_rec_u32(d: &[u8], s: Cursor, id: u8) -> (r: Cursor)
    ensures
        r@ == rec_u32(d@, s@, id),
{
    let s = c_head(d, s, id, 4);
    c_take(d, s, 4)
}

fn c_rec_u16(d: &[u8], s: Cursor, id: u8) -> (r: Cursor)
    ensures
        r@ == rec_u16(d@, s@, id),
{
    let s = c_head(d, s, id, 2);
    c_take(d, s, 2)
}

fn c_rec_data(d: &[u8], s: Cursor, id: u8) -> (r: Cursor)
    ensures
        r@ == rec_data(d@, s@, id),
{
    let s = c_tag2(d, s, id, 0);
    c_data(d, s)
}

fn c_copy(s: &Cursor) -> (r: Cursor)
    ensures
        r@ == s@,
{
    match s {
        Cursor::At(p) => Cursor::At(*p),
        Cursor::Soft => Cursor::Soft,
        Cursor::Hard => Cursor::Hard,
    }
}

fn c_even_data(d: &[u8], s: Cursor) -> (r: Cursor)
    ensures
        r@ == even_data(d@, s@),
{
    let before = c_copy(&s);
    let after = c_data(d, s);
    match (before, after) {
        (Cursor::At(p), Cursor::At(q)) => if (q - p - 4) % 2 == 0 {
            Cursor::At(q)
        } else {
            Cursor::Soft
        },
        (_, o) => o,
    }
}

fn c_syskind(d: &[u8], s: Cursor) -> (r: Cursor)
    ensures
        r@ == syskind(d@, s@),
{
    match c_head(d, s, 0x01, 4) {
        Cursor::At(p) => if d.len() >= 4 && p <= d.len() - 4 && d[p] <= 3 && d[p + 1] == 0 && d[p + 2] == 0
            && d[p + 3] == 0 {
            Cursor::At(p + 4)
        } else {
            Cursor::Soft
        },
        o => o,
    }
}

fn c_information(d: &[u8]) -> (r: Cursor)
    ensures
        r@ == information(d@),
{
    let s = c_syskind(d, Cursor::At(0));
    let t = c_copy(&s);
    let s = c_opt(t, c_rec_u32(d, s, 0x4A));
    let s = c_rec_u32(d, s, 0x02);
    let s = c_rec_u32(d, s, 0x14);
    let s = c_rec_u16(d, s, 0x03);
    let s = c_rec_data(d, s, 0x04);
    let s = c_rec_data(d, s, 0x05);
    let s = c_even_data(d, c_tag2(d, s, 0x40, 0));
    let s = c_rec_data(d, s, 0x06);
    let s = c_rec_data(d, s, 0x3d);
    let s = c_rec_u32(d, s, 0x07);
    let s = c_rec_u32(d, s, 0x08);
    let s = c_take(d, c_take(d, c_head(d, s, 0x09, 4), 4), 2);
    let t = c_copy(&s);
    match c_rec_data(d, s, 0x0c) {
        Cursor::At(q) => c_opt(Cursor::At(q), c_rec_data(d, Cursor::At(q), 0x3c)),
        Cursor::Soft => t,
        Cursor::Hard => Cursor::Hard,
    }
}

fn c_ref_name(d: &[u8], s: Cursor) -> (r: Cursor)
    ensures
        r@ == ref_name(d@, s@),
{
    let t = c_copy(&s);
    c_opt(t, c_rec_data(d, c_rec_data(d, s, 0x16), 0x3e))
}

fn c_ref_control(d: &[u8], s: Cursor) -> (r: Cursor)
    ensures
        r@ == ref_control(d@, s@),
{
    let s = c_data(d, c_take(d, c_tag2(d, s, 0x2f, 0), 4));
    let s = c_zeros(d, s, 6);
    let s = c_ref_name(d, s);
    let s = c_data(d, c_take(d, c_tag2(d, s, 0x30, 0), 4));
    let s = c_zeros(d, s, 6);
    c_take(d, s, 20)
}

fn c_ref_registered(d: &[u8], s: Cursor) -> (r: Cursor)
    ensures
        r@ == ref_registered(d@, s@),
{
    c_zeros(d, c_data(d, c_take(d, c_tag2(d, s, 0x0d, 0), 4)), 6)
}

fn c_ref_project(d: &[u8], s: Cursor) -> (r: Cursor)
    ensures
        r@ == ref_project(d@, s@),
{
    c_take(d, c_data(d, c_data(d, c_take(d, c_tag2(d, s, 0x0e, 0), 4))), 6)
}

fn c_refs_from(d: &[u8], p0: usize) -> (r: Cursor)
    requires
        p0 <= d@.len(),
    ensures
        r@ == refs_from(d@, p0 as int),
{
    let mut p = p0;
    loop
        invariant
            p <= d@.len(),
            refs_from(d@, p as int) == refs_from(d@, p0 as int),
        decreases d@.len() - p,
    {
        match c_ref_name(d, Cursor::At(p)) {
            Cursor::At(q) => {
                if !(q <= d.len() && d.len() - q >= 2) || d[q + 1] != 0 {
                    return Cursor::Soft;
                }
                if d[q] == 0x0f {
                    return Cursor::At(q);
                }
                let r = if d[q] == 0x2f {
                    c_ref_control(d, Cursor::At(q))
                } else if d[q] == 0x33 {
                    c_rec_data(d, Cursor::At(q), 0x33)
                } else if d[q] == 0x0d {
                    c_ref_registered(d, Cursor::At(q))
                } else if d[q] == 0x0e {
                    c_ref_project(d, Cursor::At(q))
                } else {
                    Cursor::Hard
                };
                match r {
                    Cursor::At(e) => {
                        if p < e && e <= d.len() {
                            p = e;
                        } else {
                            return Cursor::Hard;
                        }
                    },
                    o => {
                        return o;
                    },
                }
            },
            o => {
                return o;
            },
        }
    }
}

fn c_flag_record(d: &[u8], s: Cursor, id: u8) -> (r: Cursor)
    ensures
        r@ == flag_record(d@, s@, id),
{
    c_zeros(d, c_tag2(d, s, id, 0), 4)
}

fn c_module(d: &[u8], s: Cursor) -> (r: Cursor)
    ensures
        r@ == module(d@, s@),
{
    let s = c_rec_data(d, s, 0x19);
    let t = c_copy(&s);
    let s = c_opt(t, c_rec_data(d, s, 0x47));
    let s = c_rec_data(d, s, 0x1a);
    let s = c_rec_data(d, s, 0x32);
    let s = c_rec_data(d, s, 0x1c);
    let s = c_rec_data(d, s, 0x48);
    let s = c_rec_u32(d, s, 0x31);
    let s = c_rec_u32(d, s, 0x1e);
    let s = c_rec_u16(d, s, 0x2c);
    let s = match s {
        Cursor::At(p) => if p <= d.len() && d.len() - p >= 2 && (d[p] == 0x21 || d[p] == 0x22) && d[p + 1] == 0 {
            Cursor::At(p + 2)
        } else {
            Cursor::Soft
        },
        o => o,
    };
    let s = c_zeros(d, s, 4);
    let t = c_copy(&s);
    let s = c_opt(t, c_flag_record(d, s, 0x25));
    let t = c_copy(&s);
    let s = c_opt(t, c_flag_record(d, s, 0x28));
    c_zeros(d, c_tag2(d, s, 0x2b, 0), 4)
}

/// The module list from `q` on, then the terminator.
pub open spec fn module_list(d: Seq<u8>, q: int) -> Step {
    match rec_u16(d, Step::At(q), 0x0f) {
        Step::At(r) => {
            let count = le16(d, r - 2);
            let s = rec_u16(d, Step::At(r), 0x13);
            let s = modules_from(d, s, count as nat);
            zeros(d, tag2(d, s, 0x10, 0), 4)
        },
        o => o,
    }
}

fn c_modules(d: &[u8], s: Cursor, count: u16) -> (r: Cursor)
    ensures
        r@ == modules_from(d@, s@, count as nat),
{
    let ghost s0 = s@;
    let mut s = s;
    let mut k: u16 = 0;
    while k < count
        invariant
            k <= count,
            modules_from(d@, s@, (count - k) as nat) == modules_from(d@, s0, count as nat),
        decreases count - k,
    {
        s = c_module(d, s);
        k += 1;
    }
    s
}

fn c_module_list(d: &[u8], q: usize) -> (r: Cursor)
    ensures
        r@ == module_list(d@, q as int),
{
    match c_rec_u16(d, Cursor::At(q), 0x0f) {
        Cursor::At(r) => {
            let count: u16 = d[r - 2] as u16 + 256 * (d[r - 1] as u16);
            let s = c_rec_u16(d, Cursor::At(r), 0x13);
            let s = c_modules(d, s, count);
            c_zeros(d, c_tag2(d, s, 0x10, 0), 4)
        },
        o => o,
    }
}

/// Where the parse of a decompressed `dir` stream ends, if it succeeds.
pub fn dir_stream_parse_end(d: &[u8]) -> (r: Cursor)
    ensures
        r@ == dir_parse_end(d@),
{
    match c_information(d) {
        Cursor::At(p) => match c_refs_from(d, p) {
            Cursor::At(q) => c_module_list(d, q),
            o => o,
        },
        o => o,
    }
}

/// Checks that a parse of the stream that succeeds uses up every byte.
pub fn dir_stream_parse_uses_all(d: &[u8]) -> (r: bool)
    ensures
        r == dir_parse_uses_all(d@),
{
    match dir_stream_parse_end(d) {
        Cursor::At(e) => e == d.len(),
        _ => true,
    }
}

} // verus!
