//! Reading the chunk tree and its objects from the bytes of a container.
//!
//! Chunks are read from a stream that is divided into buffers of a fixed
//! size; a chunk header never straddles the edge of a buffer, so where the
//! next header would, the bytes up to the next buffer are padding.
use vstd::prelude::*;

use crate::chunk::{
    act_tag, rand_tag, tag, even_up, known_chunk_tag, list_tag, mxch_tag, mxhd_tag, mxob_tag, mxof_tag, mxst_tag,
    pad_tag, riff_tag, ActListCount, ChunkId, LISTType, List, ListCount, MxCh, MxChFlags,
    MxChList, MxHd, MxOf, OmniVersion, Pad, Riff, RiffChunk, RiffChunkHeader,
};
use crate::object::{
    ExtraString, MediaFile, MediaFlags, MxAnimation, MxBitmap, MxBitmapFileType, MxEvent, MxEventFileType,
    MxEvtEvent, MxFlcVideo, MxOb, MxObAttrs, MxObFlags, MxObType, MxObjObject, MxObject,
    MxObjectFileType, MxPresenter, MxSmkVideo, MxSound, MxSoundFileType, MxSt, MxStlObject,
    MxVideo, MxVideoFileType, MxWavObject, MxWorld, Vec3,
};
use crate::wire::{
    copy_bytes, le16, le32, le64, lemma_zero_from, read_i32, read_null_string, read_u16,
    read_u32, read_u64, zero_from, MAX_INPUT,
};

verus! {

/// Why a container could not be decoded.
#[derive(Clone, Copy, Debug)]
pub enum OmniParseError {
    /// The input does not start with a `RIFF` chunk.
    NoRiffChunk,
    /// The outer chunk's contained type is neither `OMNI` nor `MxSt`.
    NotOmni(ChunkId),
    /// The outer chunk does not hold exactly a header, an offset table and a list.
    UnknownLayout,
    /// A tag that is no known chunk kind stands where a chunk is expected.
    UnknownChunk(ChunkId),
    /// A media record carries a sub-format tag that its kind does not know.
    UnknownSubFormat(ChunkId),
    /// An object carries an unknown kind discriminant.
    UnknownObjectKind(u16),
    /// The input ends inside a chunk.
    UnexpectedEnd,
    /// A declared length is shorter than the fields that the chunk must hold.
    BadLength,
    /// A container header declares a buffer size that is not positive.
    BadBufferSize(i32),
}

/// Positions stay below this bound, far above any input's length.
pub const POS_LIMIT: u64 = 0x4000_0000_0000_0000;

/// The next chunk header at `pos` would straddle the edge of a buffer.
pub open spec fn straddles(pos: int, buf: int) -> bool {
    pos % buf + 8 > buf
}

/// Where reading resumes when a header at `pos` would straddle a buffer edge:
/// the start of the next buffer.
pub open spec fn next_buffer_start(pos: int, buf: int) -> int {
    pos + (buf - pos % buf)
}

/// A header that would straddle a buffer edge is skipped to the start of the
/// next buffer, which lies after it; there a header starts at the very
/// beginning of a buffer, and fits in it whenever a buffer can hold one.
pub proof fn lemma_skip_to_next_buffer(pos: int, buf: int)
    requires
        0 <= pos,
        0 < buf,
        straddles(pos, buf),
    ensures
        pos < next_buffer_start(pos, buf) <= pos + buf,
        next_buffer_start(pos, buf) % buf == 0,
        buf >= 8 ==> !straddles(next_buffer_start(pos, buf), buf),
{
    let q = pos / buf;
    assert(pos == q * buf + pos % buf) by (nonlinear_arith)
        requires
            0 < buf,
            q == pos / buf,
    ;
    assert(next_buffer_start(pos, buf) == (q + 1) * buf) by (nonlinear_arith)
        requires
            pos == q * buf + pos % buf,
            next_buffer_start(pos, buf) == pos + (buf - pos % buf),
    ;
    vstd::arithmetic::div_mod::lemma_mod_multiples_basic(q + 1, buf);
}

/// An error as a value over byte sequences.
pub enum Fault {
    NoRiffChunk,
    NotOmni(Seq<u8>),
    UnknownLayout,
    UnknownChunk(Seq<u8>),
    UnknownSubFormat(Seq<u8>),
    UnknownObjectKind(u16),
    UnexpectedEnd,
    BadLength,
    BadBufferSize(i32),
}

impl View for OmniParseError {
    type V = Fault;

    open spec fn view(&self) -> Fault {
        match self {
            OmniParseError::NoRiffChunk => Fault::NoRiffChunk,
            OmniParseError::NotOmni(id) => Fault::NotOmni(id.value@),
            OmniParseError::UnknownLayout => Fault::UnknownLayout,
            OmniParseError::UnknownChunk(id) => Fault::UnknownChunk(id.value@),
            OmniParseError::UnknownSubFormat(id) => Fault::UnknownSubFormat(id.value@),
            OmniParseError::UnknownObjectKind(k) => Fault::UnknownObjectKind(*k),
            OmniParseError::UnexpectedEnd => Fault::UnexpectedEnd,
            OmniParseError::BadLength => Fault::BadLength,
            OmniParseError::BadBufferSize(n) => Fault::BadBufferSize(*n),
        }
    }
}

/// The four bytes at `p`.
pub open spec fn tag_of(b: Seq<u8>, p: int) -> Seq<u8> {
    b.subrange(p, p + 4)
}

pub open spec fn ended<T>() -> Result<T, Fault> {
    Err(Fault::UnexpectedEnd)
}

/// The free-text field at `p` fits in the input, and holds a zero byte
/// unless it is empty.
pub open spec fn extra_ok(b: Seq<u8>, p: int) -> bool {
    let n = le16(b, p);
    p + 2 <= b.len() && (n == 0 || (p + 2 + n <= b.len() && zero_from(b.subrange(p + 2, p + 2 + n), 0)
        is Some))
}

/// The attributes at `p` can be read: both strings end, and the fixed
/// fields and the free text fit in the input.
pub open spec fn attrs_ok(b: Seq<u8>, p: int) -> bool {
    let q = zero_from(b, p)->0;
    let m = zero_from(b, q + 5)->0;
    zero_from(b, p) is Some && zero_from(b, q + 5) is Some && m + 95 <= b.len() && extra_ok(b, m + 93)
}

/// The file reference at `p` can be read, its sub-format tag included.
pub open spec fn file_ok(b: Seq<u8>, p: int) -> bool {
    zero_from(b, p) is Some && zero_from(b, p)->0 + 17 <= b.len()
}

/// Bound on positions that the decoding of an input of length `n` reaches.
pub open spec fn reach(n: int) -> int {
    n + 0x4_0000_0000
}

/// How decoding the object at `p` ends: `Ok`, or the first fault met.
pub open spec fn object_res(b: Seq<u8>, p: int, buf: int) -> Result<(), Fault>
    decreases reach(b.len() as int) - p, 1int,
{
    if p < 0 || p + 2 > b.len() {
        ended()
    } else if !known_object_kind(le16(b, p)) {
        Err(Fault::UnknownObjectKind(le16(b, p) as u16))
    } else if !attrs_ok(b, p + 2) {
        ended()
    } else {
        let k = le16(b, p);
        let n = attrs_end(b, p + 2);
        if k == 6 || k == 7 {
            if n <= p || n + 4 > b.len() {
                ended()
            } else if tag_of(b, n) != list_tag() {
                Err(Fault::UnknownChunk(tag_of(b, n)))
            } else {
                list_res(b, n + 4, buf)
            }
        } else if k == 9 {
            Ok(())
        } else if !file_ok(b, n) {
            ended()
        } else {
            let m = file_end(b, n);
            let t = tag_of(b, m - 4);
            if k == 3 {
                if m + 8 > b.len() {
                    ended()
                } else if t == tag(0x20, 0x46, 0x4c, 0x43) || t == tag(0x20, 0x53, 0x4d, 0x4b) {
                    Ok(())
                } else {
                    Err(Fault::UnknownSubFormat(t))
                }
            } else {
                let want = if k == 4 {
                    tag(0x20, 0x57, 0x41, 0x56)
                } else if k == 8 {
                    tag(0x20, 0x45, 0x56, 0x54)
                } else if k == 10 {
                    tag(0x20, 0x53, 0x54, 0x4c)
                } else {
                    tag(0x20, 0x4f, 0x42, 0x4a)
                };
                if t != want {
                    Err(Fault::UnknownSubFormat(t))
                } else if m + (if k == 4 { 12int } else { 8int }) > b.len() {
                    ended()
                } else {
                    Ok(())
                }
            }
        }
    }
}

/// The length of a list's type and count header, from its type tag at `q`.
pub open spec fn list_head(b: Seq<u8>, q: int) -> Result<int, Fault> {
    if tag_of(b, q) == mxch_tag() {
        if q + 8 > b.len() {
            ended()
        } else if tag_of(b, q + 4) == act_tag() {
            if q + 12 > b.len() || b.len() - (q + 12) < 2 * le32(b, q + 8) {
                ended()
            } else {
                Ok(12 + 2 * le32(b, q + 8))
            }
        } else if tag_of(b, q + 4) == rand_tag() {
            if q + 16 > b.len() {
                ended()
            } else {
                Ok(16)
            }
        } else {
            Ok(8)
        }
    } else {
        Ok(4)
    }
}

/// How decoding the list whose length field is at `p` ends.
pub open spec fn list_res(b: Seq<u8>, p: int, buf: int) -> Result<(), Fault>
    decreases reach(b.len() as int) - p, 1int,
{
    if p < 0 || p + 8 > b.len() {
        ended()
    } else {
        let size = even_up(le32(b, p));
        let q = p + 4;
        match list_head(b, q) {
            Err(e) => Err(e),
            Ok(h) => if h < 4 || q + h > b.len() {
                ended()
            } else if size < h {
                Err(Fault::BadLength)
            } else {
                match chunks_res(b, q + h, q + size, buf) {
                    Ok(_) => Ok(()),
                    Err(e) => Err(e),
                }
            },
        }
    }
}

/// How decoding the chunk whose header is at `pos` ends.
pub open spec fn chunk_res(b: Seq<u8>, pos: int, buf: int) -> Result<(), Fault>
    decreases reach(b.len() as int) - pos, 1int,
{
    if pos < 0 || pos + 8 > b.len() {
        ended()
    } else {
        let t = tag_of(b, pos);
        let size = even_up(le32(b, pos + 4));
        let body = pos + 8;
        if t == riff_tag() {
            if body + 4 > b.len() {
                ended()
            } else if size < 4 {
                Err(Fault::BadLength)
            } else {
                match chunks_res(b, body + 4, body + size, buf) {
                    Ok(_) => Ok(()),
                    Err(e) => Err(e),
                }
            }
        } else if t == list_tag() {
            list_res(b, pos + 4, buf)
        } else if t == mxhd_tag() {
            if body + 12 > b.len() {
                ended()
            } else {
                Ok(())
            }
        } else if t == mxof_tag() {
            if body + 4 > b.len() {
                ended()
            } else if size < 4 {
                Err(Fault::BadLength)
            } else if body + 4 + 4 * ((size - 4) / 4) > b.len() {
                ended()
            } else {
                Ok(())
            }
        } else if t == mxch_tag() {
            if body + 14 > b.len() {
                ended()
            } else if size < 14 {
                Err(Fault::BadLength)
            } else if body + size > b.len() {
                ended()
            } else {
                Ok(())
            }
        } else if t == mxob_tag() {
            object_res(b, body, buf)
        } else if t == mxst_tag() {
            if body + 4 > b.len() {
                ended()
            } else if tag_of(b, body) != mxob_tag() {
                Err(Fault::UnknownChunk(tag_of(b, body)))
            } else if body + 8 > b.len() {
                ended()
            } else {
                match object_res(b, body + 8, buf) {
                    Err(e) => Err(e),
                    Ok(_) => {
                        let after = body + 8 + even_up(le32(b, body + 4));
                        if after + 4 > b.len() {
                            ended()
                        } else if tag_of(b, after) != list_tag() {
                            Err(Fault::UnknownChunk(tag_of(b, after)))
                        } else {
                            list_res(b, after + 4, buf)
                        }
                    },
                }
            }
        } else if t == pad_tag() {
            if body + size > b.len() {
                ended()
            } else {
                Ok(())
            }
        } else {
            Err(Fault::UnknownChunk(t))
        }
    }
}

/// The buffer size that a container header at `pos` sets.
pub open spec fn header_buffer(b: Seq<u8>, pos: int) -> i32 {
    (le32(b, pos + 12) as u32) as i32
}

/// Positions `ps` read before an outcome.
pub open spec fn prepend(ps: Seq<int>, r: Result<Seq<int>, Fault>) -> Result<Seq<int>, Fault> {
    match r {
        Ok(qs) => Ok(ps + qs),
        Err(e) => Err(e),
    }
}

/// How decoding the chunks from `pos` up to `max` ends: on success, the
/// position of each chunk header read. Before each header the buffer-edge
/// rule moves past straddled edges; fewer than eight bytes left end the
/// sequence; a container header sets the buffer size for what follows.
pub open spec fn chunks_res(b: Seq<u8>, pos: int, max: int, buf: int) -> Result<Seq<int>, Fault>
    decreases reach(b.len() as int) - pos, 2int,
{
    if pos < 0 || buf <= 0 || buf > 0x8000_0000 || max > b.len() + 0x2_0000_0010 || pos + 8 >= max {
        Ok(seq![])
    } else if straddles(pos, buf) {
        if next_buffer_start(pos, buf) <= pos {
            Ok(seq![])
        } else {
            chunks_res(b, next_buffer_start(pos, buf), max, buf)
        }
    } else if pos + 8 > b.len() {
        Ok(seq![])
    } else {
        match chunk_res(b, pos, buf) {
            Err(e) => Err(e),
            Ok(_) => {
                let next = pos + 8 + even_up(le32(b, pos + 4));
                let hd = tag_of(b, pos) == mxhd_tag();
                if hd && header_buffer(b, pos) <= 0 {
                    Err(Fault::BadBufferSize(header_buffer(b, pos)))
                } else {
                    match chunks_res(b, next, max, if hd { header_buffer(b, pos) as int } else { buf }) {
                        Ok(ps) => Ok(seq![pos] + ps),
                        Err(e) => Err(e),
                    }
                }
            },
        }
    }
}

pub fn u16_at(data: &[u8], p: u64) -> (r: Result<u16, OmniParseError>)
    ensures
        r is Ok <==> p + 2 <= data@.len(),
        r matches Ok(v) ==> v == le16(data@, p as int),
        r matches Err(e) ==> e is UnexpectedEnd,
{
    match read_u16(data, p) {
        Some(v) => Ok(v),
        None => Err(OmniParseError::UnexpectedEnd),
    }
}

pub fn u32_at(data: &[u8], p: u64) -> (r: Result<u32, OmniParseError>)
    ensures
        r is Ok <==> p + 4 <= data@.len(),
        r matches Ok(v) ==> v == le32(data@, p as int),
        r matches Err(e) ==> e is UnexpectedEnd,
{
    match read_u32(data, p) {
        Some(v) => Ok(v),
        None => Err(OmniParseError::UnexpectedEnd),
    }
}

pub fn i32_at(data: &[u8], p: u64) -> (r: Result<i32, OmniParseError>)
    ensures
        r is Ok <==> p + 4 <= data@.len(),
        r matches Ok(v) ==> v == (le32(data@, p as int) as u32) as i32,
        r matches Err(e) ==> e is UnexpectedEnd,
{
    match read_i32(data, p) {
        Some(v) => Ok(v),
        None => Err(OmniParseError::UnexpectedEnd),
    }
}

pub fn tag_at(data: &[u8], p: u64) -> (r: Result<ChunkId, OmniParseError>)
    ensures
        r is Ok <==> p + 4 <= data@.len(),
        r matches Ok(id) ==> id.value@ == data@.subrange(p as int, p + 4),
        r matches Err(e) ==> e is UnexpectedEnd,
{
    if p < data.len() as u64 && data.len() as u64 - p >= 4 {
        let i = p as usize;
        let value = [data[i], data[i + 1], data[i + 2], data[i + 3]];
        assert(value@ =~= data@.subrange(p as int, p + 4));
        Ok(ChunkId { value })
    } else {
        Err(OmniParseError::UnexpectedEnd)
    }
}

/// Three little-endian doubles, as bit patterns.
pub fn vec3_at(data: &[u8], p: u64) -> (r: Result<Vec3, OmniParseError>)
    requires
        p <= POS_LIMIT,
    ensures
        r is Ok <==> p + 24 <= data@.len(),
        r matches Ok(v) ==> v.x == le64(data@, p as int) && v.y == le64(data@, p + 8) && v.z
            == le64(data@, p + 16),
        r matches Err(e) ==> e is UnexpectedEnd,
{
    match (read_u64(data, p), read_u64(data, p + 8), read_u64(data, p + 16)) {
        (Some(x), Some(y), Some(z)) => Ok(Vec3 { x, y, z }),
        _ => Err(OmniParseError::UnexpectedEnd),
    }
}

/// A zero-terminated string and the position after its terminator.
pub fn string_at(data: &[u8], p: u64) -> (r: Result<(Vec<u8>, u64), OmniParseError>)
    ensures
        r is Ok <==> zero_from(data@, p as int) is Some,
        r matches Ok((s, next)) ==> {
            let q = zero_from(data@, p as int)->0;
            &&& s@ == data@.subrange(p as int, q)
            &&& next == q + 1
            &&& p < next <= data@.len()
        },
        r matches Err(e) ==> e is UnexpectedEnd,
{
    proof {
        lemma_zero_from(data@, p as int);
    }
    match read_null_string(data, p) {
        Some(v) => Ok(v),
        None => Err(OmniParseError::UnexpectedEnd),
    }
}

/// The free-text field of an object: a 16-bit length, then that many bytes,
/// of which the text is what stands before the first zero byte.
pub fn extra_at(data: &[u8], p: u64) -> (r: Result<(ExtraString, u64), OmniParseError>)
    requires
        p <= POS_LIMIT,
    ensures
        r matches Ok((e, next)) ==> {
            let n = le16(data@, p as int);
            &&& next == p + 2 + n
            &&& next <= data@.len()
            &&& (n == 0 <==> e.text is None)
            &&& e.text matches Some(t) ==> ({
                let field = data@.subrange(p + 2, p + 2 + n);
                zero_from(field, 0) matches Some(z) && t@ == field.subrange(0, z)
            })
        },
        r is Ok <==> extra_ok(data@, p as int),
        r matches Err(e) ==> e is UnexpectedEnd,
{
    let n = u16_at(data, p)? as u64;
    if n == 0 {
        return Ok((ExtraString { text: None }, p + 2));
    }
    if p + 2 > data.len() as u64 || data.len() as u64 - (p + 2) < n {
        return Err(OmniParseError::UnexpectedEnd);
    }
    let field = copy_bytes(data, p + 2, n);
    assert(field@ == data@.subrange(p + 2, p + 2 + le16(data@, p as int)));
    match read_null_string(field.as_slice(), 0) {
        Some((t, _)) => Ok((ExtraString { text: Some(t) }, p + 2 + n)),
        None => Err(OmniParseError::UnexpectedEnd),
    }
}

/// Where the attributes that start at `p` end.
pub open spec fn attrs_end(b: Seq<u8>, p: int) -> int {
    let q = zero_from(b, p)->0;
    let m = zero_from(b, q + 5)->0;
    m + 95 + le16(b, m + 93)
}

/// Where the file reference that starts at `p` ends, its sub-format tag included.
pub open spec fn file_end(b: Seq<u8>, p: int) -> int {
    zero_from(b, p)->0 + 17
}

/// The file reference `f` stands at `p` in `b`.
pub open spec fn file_read(b: Seq<u8>, p: int, f: MediaFile) -> bool {
    let q = zero_from(b, p)->0;
    &&& zero_from(b, p) is Some
    &&& f.filename@ == b.subrange(p, q)
    &&& f.unk2 == le32(b, q + 1) && f.unk3 == le32(b, q + 5) && f.unk4 == le32(b, q + 9)
    &&& q + 17 <= b.len()
}

/// The sub-format tag that ends the file reference at `p`.
pub open spec fn format_tag(b: Seq<u8>, p: int) -> Seq<u8> {
    b.subrange(file_end(b, p) - 4, file_end(b, p))
}

/// What follows the attributes of `o`, which start at `p`: the file reference
/// and the codec record that its sub-format tag selects, or the nested list.
pub open spec fn record_read(b: Seq<u8>, p: int, o: MxObType) -> bool {
    let n = attrs_end(b, p);
    let m = file_end(b, n);
    match o {
        MxObType::Video(v) => file_read(b, n, v.file) && match v.filetype {
            MxVideoFileType::Flc(x) => format_tag(b, n) == tag(0x20, 0x46, 0x4c, 0x43)
                && x.flags.bits == le32(b, m) && x.unk6 == le32(b, m + 4),
            MxVideoFileType::Smk(x) => format_tag(b, n) == tag(0x20, 0x53, 0x4d, 0x4b)
                && x.flags.bits == le32(b, m) && x.unk6 == le32(b, m + 4),
        },
        MxObType::Sound(x) => file_read(b, n, x.file) && format_tag(b, n) == tag(0x20, 0x57, 0x41, 0x56)
            && match x.filetype {
            MxSoundFileType::Wav(w) => w.unk5 == le32(b, m) && w.unk6 == le32(b, m + 4) && w.volume
                == (le32(b, m + 8) as u32) as i32,
        },
        MxObType::Event(x) => file_read(b, n, x.file) && format_tag(b, n) == tag(0x20, 0x45, 0x56, 0x54)
            && match x.filetype {
            MxEventFileType::Evt(e) => e.unk5 == le32(b, m) && e.unk6 == le32(b, m + 4),
        },
        MxObType::Bitmap(x) => file_read(b, n, x.file) && format_tag(b, n) == tag(0x20, 0x53, 0x54, 0x4c)
            && match x.filetype {
            MxBitmapFileType::Stl(t) => t.flags.bits == le32(b, m) && t.unk6 == le32(b, m + 4),
        },
        MxObType::Object(x) => file_read(b, n, x.file) && format_tag(b, n) == tag(0x20, 0x4f, 0x42, 0x4a)
            && match x.filetype {
            MxObjectFileType::Obj(t) => t.unk5 == le32(b, m) && t.unk6 == le32(b, m + 4),
        },
        MxObType::World(w) => lit_tag(b, n, list_tag()) && w.list.header.size == even_up(le32(b, n + 4)),
        MxObType::Presenter(x) => lit_tag(b, n, list_tag()) && x.list.header.size == even_up(le32(b, n + 4)),
        MxObType::Animation(_) => true,
    }
}

pub open spec fn lit_tag(b: Seq<u8>, p: int, t: Seq<u8>) -> bool {
    0 <= p && p + 4 <= b.len() && b.subrange(p, p + 4) == t
}

/// The attributes `a` stand at `p` in `b`, and `next` follows them.
pub open spec fn attrs_read(b: Seq<u8>, p: int, a: MxObAttrs, next: int) -> bool {
    let q = zero_from(b, p)->0;
    let m = zero_from(b, q + 5)->0;
    let f = m + 1;
    &&& p < next <= b.len()
    &&& zero_from(b, p) is Some
    &&& zero_from(b, q + 5) is Some
    &&& a.presenter@ == b.subrange(p, q)
    &&& a.unk0 == le32(b, q + 1)
    &&& a.name@ == b.subrange(q + 5, m)
    &&& a.id == le32(b, f)
    &&& a.flags.bits == le32(b, f + 4)
    &&& a.start_time == (le32(b, f + 8) as u32) as i32
    &&& a.duration == (le32(b, f + 12) as u32) as i32
    &&& a.loops == (le32(b, f + 16) as u32) as i32
    &&& a.location.x == le64(b, f + 20) && a.location.y == le64(b, f + 28) && a.location.z
        == le64(b, f + 36)
    &&& a.direction.x == le64(b, f + 44) && a.direction.y == le64(b, f + 52) && a.direction.z
        == le64(b, f + 60)
    &&& a.up.x == le64(b, f + 68) && a.up.y == le64(b, f + 76) && a.up.z == le64(b, f + 84)
    &&& next == f + 94 + le16(b, f + 92)
    &&& next == attrs_end(b, p)
}

pub fn attrs_at(data: &[u8], p: u64) -> (r: Result<(MxObAttrs, u64), OmniParseError>)
    requires
        p <= data@.len() <= MAX_INPUT,
    ensures
        r matches Ok((a, next)) ==> attrs_read(data@, p as int, a, next as int),
        r is Ok <==> attrs_ok(data@, p as int),
        r matches Err(e) ==> e is UnexpectedEnd,
{
    proof {
        lemma_zero_from(data@, p as int);
        if zero_from(data@, p as int) is Some {
            lemma_zero_from(data@, zero_from(data@, p as int)->0 + 5);
        }
    }
    let (presenter, p) = string_at(data, p)?;
    let unk0 = u32_at(data, p)?;
    let (name, p) = string_at(data, p + 4)?;
    let id = u32_at(data, p)?;
    let flags = MxObFlags { bits: u32_at(data, p + 4)? };
    let start_time = i32_at(data, p + 8)?;
    let duration = i32_at(data, p + 12)?;
    let loops = i32_at(data, p + 16)?;
    let location = vec3_at(data, p + 20)?;
    let direction = vec3_at(data, p + 44)?;
    let up = vec3_at(data, p + 68)?;
    let (extra, p) = extra_at(data, p + 92)?;
    Ok((
        MxObAttrs {
            presenter,
            unk0,
            name,
            id,
            flags,
            start_time,
            duration,
            loops,
            location,
            direction,
            up,
            extra,
        },
        p,
    ))
}

/// The file reference of a file-backed object, up to its sub-format tag.
pub fn file_at(data: &[u8], p: u64) -> (r: Result<(MediaFile, ChunkId, u64), OmniParseError>)
    requires
        p <= data@.len() <= MAX_INPUT,
    ensures
        r matches Ok((f, t, next)) ==> {
            let q = zero_from(data@, p as int)->0;
            &&& zero_from(data@, p as int) is Some
            &&& f.filename@ == data@.subrange(p as int, q)
            &&& f.unk2 == le32(data@, q + 1) && f.unk3 == le32(data@, q + 5) && f.unk4 == le32(
                data@,
                q + 9,
            )
            &&& t.value@ == data@.subrange(q + 13, q + 17)
            &&& next == q + 17 <= data@.len()
            &&& p < next
            &&& file_read(data@, p as int, f)
            &&& next == file_end(data@, p as int)
        },
        r is Ok <==> file_ok(data@, p as int),
        r matches Err(e) ==> e is UnexpectedEnd,
{
    proof {
        lemma_zero_from(data@, p as int);
    }
    let (filename, p) = string_at(data, p)?;
    let unk2 = u32_at(data, p)?;
    let unk3 = u32_at(data, p + 4)?;
    let unk4 = u32_at(data, p + 8)?;
    let t = tag_at(data, p + 12)?;
    Ok((MediaFile { filename, unk2, unk3, unk4 }, t, p + 16))
}

/// The kind discriminants that objects use.
pub open spec fn known_object_kind(k: int) -> bool {
    k == 3 || k == 4 || k == 6 || k == 7 || k == 8 || k == 9 || k == 10 || k == 11
}

pub open spec fn object_kind(o: MxObType) -> int {
    match o {
        MxObType::Video(_) => 3,
        MxObType::Sound(_) => 4,
        MxObType::World(_) => 6,
        MxObType::Presenter(_) => 7,
        MxObType::Event(_) => 8,
        MxObType::Animation(_) => 9,
        MxObType::Bitmap(_) => 10,
        MxObType::Object(_) => 11,
    }
}

/// A two-word codec record: flags (or an unknown word) and one more word.
fn two_words(data: &[u8], p: u64) -> (r: Result<(u32, u32), OmniParseError>)
    requires
        p <= POS_LIMIT,
    ensures
        r matches Ok((a, b)) ==> a == le32(data@, p as int) && b == le32(data@, p + 4),
        r is Ok <==> p + 8 <= data@.len(),
        r matches Err(e) ==> e is UnexpectedEnd,
{
    let a = u32_at(data, p)?;
    let b = u32_at(data, p + 4)?;
    Ok((a, b))
}

/// One object, starting at its 16-bit kind discriminant.
#[verifier::rlimit(80)]
pub fn read_object(data: &[u8], p: u64, buf: u64) -> (r: Result<MxObType, OmniParseError>)
    requires
        p <= data@.len() <= MAX_INPUT,
        0 < buf <= 0x8000_0000,
    ensures
        r matches Ok(o) ==> object_kind(o) == le16(data@, p as int) && attrs_read(
            data@,
            p + 2,
            o.spec_attrs(),
            attrs_end(data@, p + 2),
        ) && record_read(data@, p + 2, o),
        r is Ok <==> object_res(data@, p as int, buf as int) is Ok,
        r matches Err(e) ==> object_res(data@, p as int, buf as int) == Err::<(), Fault>(e@),
        p + 2 <= data@.len() && !known_object_kind(le16(data@, p as int)) ==> (r matches Err(e)
            && e == OmniParseError::UnknownObjectKind(le16(data@, p as int) as u16)),
    decreases data@.len() - p, 1int,
{
    let kind = u16_at(data, p)?;
    if !(kind == 3 || kind == 4 || kind == 6 || kind == 7 || kind == 8 || kind == 9 || kind == 10
        || kind == 11) {
        return Err(OmniParseError::UnknownObjectKind(kind));
    }
    let (attrs, q) = attrs_at(data, p + 2)?;
    if kind == 6 || kind == 7 {
        let magic = tag_at(data, q)?;
        if !magic.is(0x4c, 0x49, 0x53, 0x54) {
            return Err(OmniParseError::UnknownChunk(magic));
        }
        let list = read_list(data, q + 4, buf)?;
        if kind == 6 {
            let o = MxObType::World(MxWorld { attrs, list });
            return Ok(o);
        } else {
            let o = MxObType::Presenter(MxPresenter { attrs, list });
            return Ok(o);
        }
    }
    if kind == 9 {
        let o = MxObType::Animation(MxAnimation { attrs });
        return Ok(o);
    }
    let (file, t, q) = file_at(data, q)?;
    if kind == 3 {
        let (a, b) = two_words(data, q)?;
        let rec = if t.is(0x20, 0x46, 0x4c, 0x43) {
            MxVideoFileType::Flc(MxFlcVideo { flags: MediaFlags { bits: a }, unk6: b })
        } else if t.is(0x20, 0x53, 0x4d, 0x4b) {
            MxVideoFileType::Smk(MxSmkVideo { flags: MediaFlags { bits: a }, unk6: b })
        } else {
            return Err(OmniParseError::UnknownSubFormat(t));
        };
        let o = MxObType::Video(MxVideo { attrs, file, filetype: rec });
        Ok(o)
    } else if kind == 4 {
        if !t.is(0x20, 0x57, 0x41, 0x56) {
            return Err(OmniParseError::UnknownSubFormat(t));
        }
        let (unk5, unk6) = two_words(data, q)?;
        let volume = i32_at(data, q + 8)?;
        let o = MxObType::Sound( MxSound { attrs, file, filetype: MxSoundFileType::Wav(MxWavObject { unk5, unk6, volume }) }, );
        Ok(o)
    } else if kind == 8 {
        if !t.is(0x20, 0x45, 0x56, 0x54) {
            return Err(OmniParseError::UnknownSubFormat(t));
        }
        let (unk5, unk6) = two_words(data, q)?;
        let o = MxObType::Event( MxEvent { attrs, file, filetype: MxEventFileType::Evt(MxEvtEvent { unk5, unk6 }) }, );
        Ok(o)
    } else if kind == 10 {
        if !t.is(0x20, 0x53, 0x54, 0x4c) {
            return Err(OmniParseError::UnknownSubFormat(t));
        }
        let (a, unk6) = two_words(data, q)?;
        let o = MxObType::Bitmap( MxBitmap { attrs, file, filetype: MxBitmapFileType::Stl( MxStlObject { flags: MediaFlags { bits: a }, unk6 }, ), }, );
        Ok(o)
    } else {
        if !t.is(0x20, 0x4f, 0x42, 0x4a) {
            return Err(OmniParseError::UnknownSubFormat(t));
        }
        let (unk5, unk6) = two_words(data, q)?;
        let o = MxObType::Object( MxObject { attrs, file, filetype: MxObjectFileType::Obj(MxObjObject { unk5, unk6 }) }, );
        Ok(o)
    }
}

/// A list container whose `LIST` tag stands just before `p`: its length,
/// its list type and count header, and its children.
#[verifier::rlimit(80)]
pub fn read_list(data: &[u8], p: u64, buf: u64) -> (r: Result<List, OmniParseError>)
    requires
        p <= data@.len() <= MAX_INPUT,
        0 < buf <= 0x8000_0000,
    ensures
        r matches Ok(l) ==> {
            let hl = match l.list_type {
                LISTType::MxCh(m) => 4 + m.list_count.spec_len(),
                LISTType::Other(_) => 4,
            };
            let end = p + 4 + l.header.size;
            &&& l.header.size == even_up(le32(data@, p as int))
            &&& (l.list_type is MxCh <==> data@.subrange(p + 4, p + 8) == mxch_tag())
            &&& l.list_type matches LISTType::Other(id) ==> id.value@ == data@.subrange(p + 4, p + 8)
            &&& l.header.size >= hl
            &&& walk(data@, p + 4 + hl, end, buf as int, l.subchunks@) matches Some((e, b))
                && sequence_ends(data@, after_skips(e, end, b), end)
            &&& chunks_res(data@, p + 4 + hl, end, buf as int) matches Ok(ps) && l.subchunks@.len()
                == ps.len() && forall|i: int| 0 <= i < ps.len() ==> #[trigger] chunk_at(data@, ps[i], l.subchunks@[i])
        },
        r is Ok <==> list_res(data@, p as int, buf as int) is Ok,
        r matches Err(e) ==> list_res(data@, p as int, buf as int) == Err::<(), Fault>(e@),
    decreases data@.len() - p, 1int,
{
    let header = RiffChunkHeader::from_raw(u32_at(data, p)?);
    let q = p + 4;
    let list_tag = tag_at(data, q)?;
    let (list_type, head_len) = if list_tag.is(0x4d, 0x78, 0x43, 0x68) {
        let sel = tag_at(data, q + 4)?;
        if sel.is(0x41, 0x63, 0x74, 0x00) {
            let count = u32_at(data, q + 8)? as u64;
            if data.len() as u64 - (q + 12) < 2 * count {
                return Err(OmniParseError::UnexpectedEnd);
            }
            let mut values: Vec<u16> = Vec::new();
            let mut i: u64 = 0;
            while i < count
                invariant
                    i <= count,
                    values@.len() == i,
                    q + 12 + 2 * count <= data@.len(),
                    data@.len() <= MAX_INPUT,
                decreases count - i,
            {
                values.push(u16_at(data, q + 12 + 2 * i).unwrap());
                i = i + 1;
            }
            (
                LISTType::MxCh(MxChList { list_count: ListCount::Act(ActListCount { values }) }),
                12 + 2 * count,
            )
        } else if sel.is(0x52, 0x41, 0x4e, 0x44) {
            let (a, b) = two_words(data, q + 8)?;
            (LISTType::MxCh(MxChList { list_count: ListCount::Rand(a, b) }), 16)
        } else {
            let n = u32_at(data, q + 4)?;
            (LISTType::MxCh(MxChList { list_count: ListCount::Count(n) }), 8)
        }
    } else {
        (LISTType::Other(list_tag), 4)
    };
    if q + head_len > data.len() as u64 {
        return Err(OmniParseError::UnexpectedEnd);
    }
    if header.size < head_len {
        return Err(OmniParseError::BadLength);
    }
    let subchunks = read_chunks(data, q + head_len, header.size - head_len, buf)?;
    Ok(List { header, list_type, subchunks })
}

pub open spec fn chunk_tag(c: RiffChunk) -> Seq<u8> {
    match c {
        RiffChunk::Riff(_) => riff_tag(),
        RiffChunk::List(_) => list_tag(),
        RiffChunk::MxHd(_) => mxhd_tag(),
        RiffChunk::MxOf(_) => mxof_tag(),
        RiffChunk::MxCh(_) => mxch_tag(),
        RiffChunk::MxOb(_) => mxob_tag(),
        RiffChunk::MxSt(_) => mxst_tag(),
        RiffChunk::Pad(_) => pad_tag(),
    }
}

/// A chunk's kind is the one its tag names.
pub proof fn lemma_chunk_tag_kind(c: RiffChunk)
    ensures
        chunk_tag(c) == riff_tag() ==> c is Riff,
        chunk_tag(c) == list_tag() ==> c is List,
        chunk_tag(c) == mxhd_tag() ==> c is MxHd,
        chunk_tag(c) == mxof_tag() ==> c is MxOf,
        chunk_tag(c) == mxch_tag() ==> c is MxCh,
        chunk_tag(c) == mxob_tag() ==> c is MxOb,
        chunk_tag(c) == mxst_tag() ==> c is MxSt,
        chunk_tag(c) == pad_tag() ==> c is Pad,
{
    let t = chunk_tag(c);
    assert(riff_tag()[0] == 0x52u8 && list_tag()[0] == 0x4cu8 && pad_tag()[0] == 0x70u8);
    assert(mxhd_tag()[0] == 0x4du8 && mxof_tag()[0] == 0x4du8 && mxch_tag()[0] == 0x4du8
        && mxob_tag()[0] == 0x4du8 && mxst_tag()[0] == 0x4du8);
    assert(mxhd_tag()[2] == 0x48u8 && mxof_tag()[2] == 0x4fu8 && mxch_tag()[2] == 0x43u8
        && mxob_tag()[2] == 0x4fu8 && mxst_tag()[2] == 0x53u8);
    assert(mxof_tag()[3] == 0x66u8 && mxob_tag()[3] == 0x62u8);
}

/// What a chunk read at `pos` holds: its tag and even length, and the fields
/// of each kind at their byte positions.
pub open spec fn chunk_at(b: Seq<u8>, pos: int, c: RiffChunk) -> bool {
    &&& c.spec_size() == even_up(le32(b, pos + 4))
    &&& chunk_tag(c) == b.subrange(pos, pos + 4)
    &&& c matches RiffChunk::MxHd(h) ==> h.version.hi == le16(b, pos + 8)
        && h.version.lo == le16(b, pos + 10) && h.buffer_size == (le32(b, pos + 12) as u32) as i32 && h.buffer_count == (le32(b, pos + 16) as u32) as i32
    &&& c matches RiffChunk::MxOf(o) ==> o.offset_count == le32(b, pos + 8)
        && o.objects@.len() == (c.spec_size() - 4) / 4 && forall|k: int|
        0 <= k < o.objects@.len() ==> o.objects@[k] == le32(b, pos + 12 + 4 * k)
    &&& c matches RiffChunk::MxOb(x) ==> object_kind(x.obj) == le16(b, pos + 8)
        && attrs_read(b, pos + 10, x.obj.spec_attrs(), attrs_end(b, pos + 10))
        && record_read(b, pos + 10, x.obj)
    &&& c matches RiffChunk::Pad(x) ==> x.data@ == b.subrange(pos + 8, pos + 8 + c.spec_size())
    &&& c matches RiffChunk::MxCh(x) ==> x.flags.bits == le16(b, pos + 8) && x.object
        == le32(b, pos + 10) && x.time == le32(b, pos + 14) && x.data@
        == b.subrange(pos + 22, pos + 8 + c.spec_size())
    &&& c matches RiffChunk::Riff(x) ==> x.riff_type.value@ == b.subrange(pos + 8, pos + 12)
}

/// One chunk whose eight-byte header starts at `pos`, inside one buffer.
#[verifier::rlimit(80)]
pub fn read_chunk(data: &[u8], pos: u64, buf: u64) -> (r: Result<RiffChunk, OmniParseError>)
    requires
        pos + 8 <= data@.len() <= MAX_INPUT,
        0 < buf <= 0x8000_0000,
        !straddles(pos as int, buf as int),
    ensures
        r matches Ok(c) ==> {
            &&& chunk_at(data@, pos as int, c)
            &&& c matches RiffChunk::Riff(x) ==> {
                &&& x.riff_type.value@ == data@.subrange(pos + 8, pos + 12)
                &&& x.header.size >= 4
                &&& walk(data@, pos + 12, pos + 8 + x.header.size, buf as int, x.subchunks@) matches Some((e, b))
                    && sequence_ends(data@, after_skips(e, pos + 8 + x.header.size, b), pos + 8 + x.header.size)
            }
                    &&& c matches RiffChunk::Riff(x) ==> chunks_res(data@, pos + 12, pos + 8 + x.header.size, buf as int)
                matches Ok(ps) && x.subchunks@.len() == ps.len() && forall|i: int| 0 <= i < ps.len()
                ==> #[trigger] chunk_at(data@, ps[i], x.subchunks@[i])
        },
        r is Ok <==> chunk_res(data@, pos as int, buf as int) is Ok,
        r matches Err(e) ==> chunk_res(data@, pos as int, buf as int) == Err::<(), Fault>(e@),
        !known_chunk_tag(data@.subrange(pos as int, pos + 4)) ==> (r matches Err(e)
            && e is UnknownChunk),
    decreases data@.len() - pos, 1int,
{
    let id = tag_at(data, pos).unwrap();
    let header = RiffChunkHeader::from_raw(u32_at(data, pos + 4).unwrap());
    let body = pos + 8;
    if id.is(0x52, 0x49, 0x46, 0x46) {
        let riff_type = tag_at(data, body)?;
        if header.size < 4 {
            return Err(OmniParseError::BadLength);
        }
        let subchunks = read_chunks(data, body + 4, header.size - 4, buf)?;
        let c = RiffChunk::Riff(Riff { header, riff_type, subchunks });
        Ok(c)
    } else if id.is(0x4c, 0x49, 0x53, 0x54) {
        let l = read_list(data, pos + 4, buf)?;
        let c = RiffChunk::List(l);
        Ok(c)
    } else if id.is(0x4d, 0x78, 0x48, 0x64) {
        let hi = u16_at(data, body)?;
        let lo = u16_at(data, body + 2)?;
        let buffer_size = i32_at(data, body + 4)?;
        let buffer_count = i32_at(data, body + 8)?;
        let c = RiffChunk::MxHd( MxHd { header, version: OmniVersion { hi, lo }, buffer_size, buffer_count }, );
        Ok(c)
    } else if id.is(0x4d, 0x78, 0x4f, 0x66) {
        let offset_count = u32_at(data, body)?;
        if header.size < 4 {
            return Err(OmniParseError::BadLength);
        }
        let n = (header.size - 4) / 4;
        if body + 4 > data.len() as u64 || data.len() as u64 - (body + 4) < 4 * n {
            return Err(OmniParseError::UnexpectedEnd);
        }
        let mut objects: Vec<u32> = Vec::new();
        let mut i: u64 = 0;
        while i < n
            invariant
                i <= n,
                body + 4 + 4 * n <= data@.len(),
                data@.len() <= MAX_INPUT,
                objects@.len() == i,
                forall|k: int| 0 <= k < i ==> objects@[k] == le32(data@, body + 4 + 4 * k),
            decreases n - i,
        {
            objects.push(u32_at(data, body + 4 + 4 * i).unwrap());
            i = i + 1;
        }
        let c = RiffChunk::MxOf(MxOf { header, offset_count, objects });
        Ok(c)
    } else if id.is(0x4d, 0x78, 0x43, 0x68) {
        let flags = MxChFlags { bits: u16_at(data, body)? };
        let object = u32_at(data, body + 2)?;
        let time = u32_at(data, body + 6)?;
        let _stored = u32_at(data, body + 10)?;
        if header.size < 14 {
            return Err(OmniParseError::BadLength);
        }
        let n = header.size - 14;
        if data.len() as u64 - (body + 14) < n {
            return Err(OmniParseError::UnexpectedEnd);
        }
        let bytes = copy_bytes(data, body + 14, n);
        let c = RiffChunk::MxCh(MxCh { header, flags, object, time, data: bytes });
        Ok(c)
    } else if id.is(0x4d, 0x78, 0x4f, 0x62) {
        let obj = read_object(data, body, buf)?;
        let c = RiffChunk::MxOb(Box::new(MxOb { header, obj }));
        Ok(c)
    } else if id.is(0x4d, 0x78, 0x53, 0x74) {
        let magic = tag_at(data, body)?;
        if !magic.is(0x4d, 0x78, 0x4f, 0x62) {
            return Err(OmniParseError::UnknownChunk(magic));
        }
        let ob_header = RiffChunkHeader::from_raw(u32_at(data, body + 4)?);
        let obj = read_object(data, body + 8, buf)?;
        let after = body + 8 + ob_header.size;
        let magic = tag_at(data, after)?;
        if !magic.is(0x4c, 0x49, 0x53, 0x54) {
            return Err(OmniParseError::UnknownChunk(magic));
        }
        let list = read_list(data, after + 4, buf)?;
        let c = RiffChunk::MxSt(Box::new(MxSt { header, obj: MxOb { header: ob_header, obj }, list }));
        Ok(c)
    } else if id.is(0x70, 0x61, 0x64, 0x20) {
        let n = header.size;
        if data.len() as u64 - body < n {
            return Err(OmniParseError::UnexpectedEnd);
        }
        let bytes = copy_bytes(data, body, n);
        let c = RiffChunk::Pad(Pad { header, data: bytes });
        Ok(c)
    } else {
        Err(OmniParseError::UnknownChunk(id))
    }
}

/// Where the next chunk header is read from `pos`: past every buffer edge
/// that a header there would straddle, while the sequence lasts.
pub open spec fn after_skips(pos: int, max: int, buf: int) -> int
    decreases max - pos,
{
    if buf > 0 && pos + 8 < max && straddles(pos, buf) {
        after_skips(next_buffer_start(pos, buf), max, buf)
    } else {
        pos
    }
}

/// The buffer size after a chunk: a container header sets it.
pub open spec fn buffer_after(c: RiffChunk, buf: int) -> int {
    match c {
        RiffChunk::MxHd(h) => h.buffer_size as int,
        _ => buf,
    }
}

/// Reading the chunks `cs` in turn from `start`: each header is read where
/// the skips lead, inside one buffer, before `max`, with the tag and even
/// length of the chunk. The position after the last chunk and the buffer
/// size then in force, if `cs` can be read so.
pub open spec fn walk(data: Seq<u8>, start: int, max: int, buf: int, cs: Seq<RiffChunk>) -> Option<(int, int)>
    decreases cs.len(),
{
    if cs.len() == 0 {
        Some((start, buf))
    } else {
        match walk(data, start, max, buf, cs.drop_last()) {
            None => None,
            Some((p, b)) => {
                let q = after_skips(p, max, b);
                let c = cs.last();
                if q + 8 < max && q + 8 <= data.len() && !straddles(q, b) && chunk_tag(c)
                    == data.subrange(q, q + 4) && c.spec_size() == even_up(le32(data, q + 4)) {
                    Some((q + 8 + c.spec_size(), buffer_after(c, b)))
                } else {
                    None
                }
            },
        }
    }
}

/// A sequence ends where no header fits before `max`, or fewer than eight
/// bytes of input are left.
pub open spec fn sequence_ends(data: Seq<u8>, q: int, max: int) -> bool {
    q + 8 >= max || q + 8 > data.len()
}

/// The chunks that follow one another from `start` over `size` bytes.
///
/// Before each header the buffer-edge rule applies: where the header would
/// straddle the edge of a buffer, reading resumes at the next buffer. A
/// header decoded on the way sets the buffer size for the chunks after it.
/// Fewer than eight bytes left in the input end the sequence normally.
#[verifier::rlimit(80)]
pub fn read_chunks(data: &[u8], start: u64, size: u64, buf: u64) -> (r: Result<
    Vec<RiffChunk>,
    OmniParseError,
>)
    requires
        start <= data@.len() <= MAX_INPUT,
        size <= 0x2_0000_0000,
        0 < buf <= 0x8000_0000,
    ensures
        r matches Ok(v) ==> {
            &&& forall|i: int| 0 <= i < v@.len() ==> v@[i].spec_size() % 2 == 0
            &&& walk(data@, start as int, start + size, buf as int, v@) matches Some((p, b))
                && sequence_ends(data@, after_skips(p, start + size, b), start + size)
            &&& chunks_res(data@, start as int, start + size, buf as int) matches Ok(ps) && v@.len()
                == ps.len() && forall|i: int| 0 <= i < ps.len() ==> #[trigger] chunk_at(data@, ps[i], v@[i])
        },
        r is Ok <==> chunks_res(data@, start as int, start + size, buf as int) is Ok,
        r matches Err(e) ==> chunks_res(data@, start as int, start + size, buf as int) == Err::<
            Seq<int>,
            Fault,
        >(e@),
    decreases data@.len() - start, 2int,
{
    let max_pos = start + size;
    let mut pos = start;
    let mut cur: u64 = buf;
    let mut rv: Vec<RiffChunk> = Vec::new();
    let ghost mut last: int = start as int;
    let ghost mut done: Seq<int> = seq![];
    assert(done + Seq::<int>::empty() =~= done);
    while pos + 8 < max_pos
        invariant
            prepend(done, chunks_res(data@, pos as int, max_pos as int, cur as int)) == chunks_res(
                data@,
                start as int,
                max_pos as int,
                buf as int,
            ),
            done.len() == rv@.len(),
            forall|i: int| 0 <= i < done.len() ==> #[trigger] chunk_at(data@, done[i], rv@[i]),
            start <= data@.len() <= MAX_INPUT,
            max_pos == start + size,
            size <= 0x2_0000_0000,
            start <= pos <= max_pos + 0x1_0000_0010,
            0 < cur <= 0x8000_0000,
            forall|i: int| 0 <= i < rv@.len() ==> rv@[i].spec_size() % 2 == 0,
            walk(data@, start as int, max_pos as int, buf as int, rv@) == Some((last, cur as int)),
            after_skips(pos as int, max_pos as int, cur as int) == after_skips(last, max_pos as int, cur as int),
        ensures
            chunks_res(data@, start as int, max_pos as int, buf as int) == Ok::<Seq<int>, Fault>(done),
            done.len() == rv@.len(),
            forall|i: int| 0 <= i < done.len() ==> #[trigger] chunk_at(data@, done[i], rv@[i]),
            0 < cur,
            forall|i: int| 0 <= i < rv@.len() ==> rv@[i].spec_size() % 2 == 0,
            walk(data@, start as int, max_pos as int, buf as int, rv@) == Some((last, cur as int)),
            sequence_ends(data@, after_skips(last, max_pos as int, cur as int), max_pos as int),
        decreases max_pos + 0x1_0000_0010 - pos,
    {
        let in_buffer = pos % cur;
        if in_buffer + 8 > cur {
            pos = pos + (cur - in_buffer);
            continue;
        }
        if pos > data.len() as u64 || data.len() as u64 - pos < 8 {
            assert(!straddles(pos as int, cur as int));
            assert(after_skips(pos as int, max_pos as int, cur as int) == pos);
            break;
        }
        let c = read_chunk(data, pos, cur)?;
        let next = pos + 8 + c.get_size();
        
        if let RiffChunk::MxHd(hd) = &c {
            if hd.buffer_size <= 0 {
                return Err(OmniParseError::BadBufferSize(hd.buffer_size));
            }
            cur = hd.buffer_size as u64;
        }
        let ghost prev = rv@;
        rv.push(c);
        proof {
            assert(rv@.drop_last() =~= prev);
            last = next as int;
            let ghost d0 = done;
            done = done.push(pos as int);
            assert forall|i: int| 0 <= i < done.len() implies #[trigger] chunk_at(data@, done[i], rv@[i]) by {
                if i < d0.len() {
                    assert(done[i] == d0[i]);
                    assert(rv@[i] == prev[i]);
                }
            }
            match chunks_res(data@, next as int, max_pos as int, cur as int) {
                Ok(qs) => {
                    assert(d0 + (seq![pos as int] + qs) =~= done + qs);
                },
                Err(_) => {},
            }
        }
        pos = next;
    }
    Ok(rv)
}

} // verus!
