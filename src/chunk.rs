//! The chunk tree of a container: tags, declared lengths and the chunk kinds
//! that the format knows.
use vstd::prelude::*;

use crate::object::MxOb;
use crate::object::MxSt;

verus! {

/// A four-byte chunk tag, such as `RIFF` or `MxOb`.
#[derive(Clone, Copy, Debug)]
pub struct ChunkId {
    pub value: [u8; 4],
}

pub open spec fn tag(a: u8, b: u8, c: u8, d: u8) -> Seq<u8> {
    seq![a, b, c, d]
}

pub open spec fn riff_tag() -> Seq<u8> { tag(0x52, 0x49, 0x46, 0x46) }   // RIFF
pub open spec fn list_tag() -> Seq<u8> { tag(0x4c, 0x49, 0x53, 0x54) }   // LIST
pub open spec fn mxhd_tag() -> Seq<u8> { tag(0x4d, 0x78, 0x48, 0x64) }   // MxHd
pub open spec fn mxof_tag() -> Seq<u8> { tag(0x4d, 0x78, 0x4f, 0x66) }   // MxOf
pub open spec fn mxch_tag() -> Seq<u8> { tag(0x4d, 0x78, 0x43, 0x68) }   // MxCh
pub open spec fn mxob_tag() -> Seq<u8> { tag(0x4d, 0x78, 0x4f, 0x62) }   // MxOb
pub open spec fn mxst_tag() -> Seq<u8> { tag(0x4d, 0x78, 0x53, 0x74) }   // MxSt
pub open spec fn pad_tag() -> Seq<u8> { tag(0x70, 0x61, 0x64, 0x20) }    // "pad "
pub open spec fn omni_tag() -> Seq<u8> { tag(0x4f, 0x4d, 0x4e, 0x49) }   // OMNI
pub open spec fn act_tag() -> Seq<u8> { tag(0x41, 0x63, 0x74, 0x00) }    // "Act\0"
pub open spec fn rand_tag() -> Seq<u8> { tag(0x52, 0x41, 0x4e, 0x44) }   // RAND

/// The tags that may stand where a chunk is expected.
pub open spec fn known_chunk_tag(t: Seq<u8>) -> bool {
    ||| t == riff_tag()
    ||| t == list_tag()
    ||| t == mxhd_tag()
    ||| t == mxof_tag()
    ||| t == mxch_tag()
    ||| t == mxob_tag()
    ||| t == mxst_tag()
    ||| t == pad_tag()
}

impl ChunkId {
    pub fn is(&self, a: u8, b: u8, c: u8, d: u8) -> (r: bool)
        ensures
            r == (self.value@ == tag(a, b, c, d)),
    {
        let r = self.value[0] == a && self.value[1] == b && self.value[2] == c && self.value[3]
            == d;
        assert(r ==> self.value@ =~= tag(a, b, c, d));
        assert(self.value@ == tag(a, b, c, d) ==> (self.value@[0] == a && self.value@[1] == b
            && self.value@[2] == c && self.value@[3] == d));
        r
    }
}

/// A declared length rounded up to even: the format pads odd-length chunks
/// to a two-byte boundary but stores the unpadded length.
pub open spec fn even_up(raw: int) -> int {
    raw + raw % 2
}

#[derive(Clone, Copy, Debug)]
pub struct RiffChunkHeader {
    pub size: u64,
}

impl RiffChunkHeader {
    pub fn from_raw(raw: u32) -> (r: RiffChunkHeader)
        ensures
            r.size == even_up(raw as int),
            r.size % 2 == 0,
            r.size == raw || r.size == raw + 1,
    {
        let raw = raw as u64;
        RiffChunkHeader { size: raw + raw % 2 }
    }
}

/// The outer container: its contained-type tag and its children.
#[derive(Debug)]
pub struct Riff {
    pub header: RiffChunkHeader,
    pub riff_type: ChunkId,
    pub subchunks: Vec<RiffChunk>,
}

#[derive(Debug)]
pub struct ActListCount {
    pub values: Vec<u16>,
}

/// The count-or-selection header of an `MxCh` list.
#[derive(Debug)]
pub enum ListCount {
    Act(ActListCount),
    Rand(u32, u32),
    Count(u32),
}

impl ListCount {
    /// How many bytes the header takes in the file, its tag included.
    pub open spec fn spec_len(&self) -> int {
        match self {
            ListCount::Act(a) => 8 + 2 * a.values@.len() as int,
            ListCount::Rand(_, _) => 12,
            ListCount::Count(_) => 4,
        }
    }
}

#[derive(Debug)]
pub struct MxChList {
    pub list_count: ListCount,
}

#[derive(Debug)]
pub enum LISTType {
    MxCh(MxChList),
    Other(ChunkId),
}

/// A list container: its list type and its children.
#[derive(Debug)]
pub struct List {
    pub header: RiffChunkHeader,
    pub list_type: LISTType,
    pub subchunks: Vec<RiffChunk>,
}

#[derive(Clone, Copy, Debug)]
pub struct OmniVersion {
    pub hi: u16,
    pub lo: u16,
}

/// The container header: format version and the streaming buffers.
#[derive(Clone, Copy, Debug)]
pub struct MxHd {
    pub header: RiffChunkHeader,
    pub version: OmniVersion,
    pub buffer_size: i32,
    pub buffer_count: i32,
}

/// The offset table: one 32-bit value per object identifier.
#[derive(Debug)]
pub struct MxOf {
    pub header: RiffChunkHeader,
    pub offset_count: u32,
    pub objects: Vec<u32>,
}

/// The 16-bit flag word of a data chunk.
#[derive(Clone, Copy, Debug)]
pub struct MxChFlags {
    pub bits: u16,
}

impl MxChFlags {
    pub fn end(&self) -> (r: bool)
        ensures
            r == (self.bits & 2 != 0),
    {
        self.bits & 2 != 0
    }

    pub fn split(&self) -> (r: bool)
        ensures
            r == (self.bits & 16 != 0),
    {
        self.bits & 16 != 0
    }
}

/// A data chunk of a media stream.
#[derive(Debug)]
pub struct MxCh {
    pub header: RiffChunkHeader,
    pub flags: MxChFlags,
    pub object: u32,
    pub time: u32,
    pub data: Vec<u8>,
}

/// Padding.
#[derive(Debug)]
pub struct Pad {
    pub header: RiffChunkHeader,
    pub data: Vec<u8>,
}

#[derive(Debug)]
pub enum RiffChunk {
    Riff(Riff),
    List(List),
    MxHd(MxHd),
    MxOf(MxOf),
    MxCh(MxCh),
    MxOb(Box<MxOb>),
    MxSt(Box<MxSt>),
    Pad(Pad),
}

impl RiffChunk {
    pub open spec fn spec_size(&self) -> u64 {
        match self {
            RiffChunk::Riff(x) => x.header.size,
            RiffChunk::List(x) => x.header.size,
            RiffChunk::MxHd(x) => x.header.size,
            RiffChunk::MxOf(x) => x.header.size,
            RiffChunk::MxCh(x) => x.header.size,
            RiffChunk::MxOb(x) => x.header.size,
            RiffChunk::MxSt(x) => x.header.size,
            RiffChunk::Pad(x) => x.header.size,
        }
    }

    /// The declared length of the chunk, without its eight-byte header.
    pub fn get_size(&self) -> (r: u64)
        ensures
            r == self.spec_size(),
    {
        match self {
            RiffChunk::Riff(x) => x.header.size,
            RiffChunk::List(x) => x.header.size,
            RiffChunk::MxHd(x) => x.header.size,
            RiffChunk::MxOf(x) => x.header.size,
            RiffChunk::MxCh(x) => x.header.size,
            RiffChunk::MxOb(x) => x.header.size,
            RiffChunk::MxSt(x) => x.header.size,
            RiffChunk::Pad(x) => x.header.size,
        }
    }
}

} // verus!
