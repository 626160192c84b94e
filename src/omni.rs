//! A decoded container: the outer `RIFF` chunk with its header, offset table
//! and stream list.
use vstd::prelude::*;

use crate::chunk::{mxst_tag, omni_tag, riff_tag, ChunkId, List, MxHd, MxOf, RiffChunk};
use crate::chunk::even_up;
use crate::chunk::{list_tag, mxhd_tag, mxof_tag};
use crate::decode::{
    after_skips, chunk_at, chunk_res, chunks_res, lemma_chunk_tag_kind, read_chunk, sequence_ends,
    tag_at, tag_of, walk, Fault, OmniParseError,
};
use crate::wire::le32;
use crate::wire::MAX_INPUT;

verus! {

pub struct Omni {
    pub container_type: ChunkId,
    pub header: MxHd,
    pub offsets: MxOf,
    pub streams: List,
}

/// The buffer size that applies until a container header sets another.
pub const DEFAULT_BUFFER_SIZE: u64 = 0x10000;

/// The input starts with a `RIFF` header whose contained type is `OMNI` or `MxSt`.
pub open spec fn wrapper_ok(b: Seq<u8>) -> bool {
    b.len() >= 12 && tag_of(b, 0) == riff_tag() && (tag_of(b, 8) == omni_tag() || tag_of(b, 8)
        == mxst_tag())
}

/// Where the outer chunk ends.
pub open spec fn riff_end(b: Seq<u8>) -> int {
    8 + even_up(le32(b, 4))
}

/// The header positions of the outer chunk's children.
pub open spec fn children(b: Seq<u8>) -> Seq<int> {
    chunks_res(b, 12, riff_end(b), DEFAULT_BUFFER_SIZE as int)->Ok_0
}

/// The outer chunk's children are a header, an offset table and a list, in this order.
pub open spec fn layout_ok(b: Seq<u8>) -> bool {
    let ps = children(b);
    &&& ps.len() == 3
    &&& tag_of(b, ps[0]) == mxhd_tag()
    &&& tag_of(b, ps[1]) == mxof_tag()
    &&& tag_of(b, ps[2]) == list_tag()
}

impl Omni {
    /// Decodes a whole container: a `RIFF` chunk of contained type `OMNI` or
    /// `MxSt` whose children are exactly a header, an offset table and a list.
    pub fn parse(data: &[u8]) -> (r: Result<Omni, OmniParseError>)
        requires
            data@.len() <= MAX_INPUT,
        ensures
            data@.len() < 4 || data@.subrange(0, 4) != riff_tag() ==> (r matches Err(e)
                && e is NoRiffChunk),
            data@.len() >= 12 && data@.subrange(0, 4) == riff_tag() && data@.subrange(8, 12)
                != omni_tag() && data@.subrange(8, 12) != mxst_tag() ==> (r matches Err(e)
                && e@ == Fault::NotOmni(data@.subrange(8, 12))),
            data@.len() >= 4 && data@.subrange(0, 4) == riff_tag() && data@.len() < 12 ==> (r matches Err(e)
                && e is UnexpectedEnd),
            wrapper_ok(data@) ==> (r is Ok <==> chunk_res(data@, 0, DEFAULT_BUFFER_SIZE as int) is Ok
                && layout_ok(data@)),
            wrapper_ok(data@) && chunk_res(data@, 0, DEFAULT_BUFFER_SIZE as int) is Err ==> (r matches Err(
                e,
            ) && chunk_res(data@, 0, DEFAULT_BUFFER_SIZE as int) == Err::<(), Fault>(e@)),
            wrapper_ok(data@) && chunk_res(data@, 0, DEFAULT_BUFFER_SIZE as int) is Ok && !layout_ok(
                data@,
            ) ==> (r matches Err(e) && e is UnknownLayout),
            r matches Ok(o) ==> {
                let ps = children(data@);
                &&& chunk_at(data@, ps[0], RiffChunk::MxHd(o.header))
                &&& chunk_at(data@, ps[1], RiffChunk::MxOf(o.offsets))
                &&& chunk_at(data@, ps[2], RiffChunk::List(o.streams))
            },
            r matches Ok(o) ==> {
                let end = 8 + even_up(le32(data@, 4));
                let children = seq![
                    RiffChunk::MxHd(o.header),
                    RiffChunk::MxOf(o.offsets),
                    RiffChunk::List(o.streams),
                ];
                &&& o.container_type.value@ == data@.subrange(8, 12)
                &&& (o.container_type.value@ == omni_tag() || o.container_type.value@ == mxst_tag())
                &&& walk(data@, 12, end, DEFAULT_BUFFER_SIZE as int, children) matches Some((e, b))
                    && sequence_ends(data@, after_skips(e, end, b), end)
            },
    {
        let id = match tag_at(data, 0) {
            Ok(id) => id,
            Err(_) => return Err(OmniParseError::NoRiffChunk),
        };
        if !id.is(0x52, 0x49, 0x46, 0x46) {
            return Err(OmniParseError::NoRiffChunk);
        }
        let riff_type = tag_at(data, 8)?;
        if !riff_type.is(0x4f, 0x4d, 0x4e, 0x49) && !riff_type.is(0x4d, 0x78, 0x53, 0x74) {
            return Err(OmniParseError::NotOmni(riff_type));
        }
        let c = read_chunk(data, 0, DEFAULT_BUFFER_SIZE)?;
        proof {
            lemma_chunk_tag_kind(c);
        }
        let root = match c {
            RiffChunk::Riff(root) => root,
            _ => return Err(OmniParseError::NoRiffChunk),
        };
        let mut subchunks = root.subchunks;
        let ghost old_children = subchunks@;
        if subchunks.len() != 3 {
            return Err(OmniParseError::UnknownLayout);
        }
        let third = subchunks.pop().unwrap();
        let second = subchunks.pop().unwrap();
        let first = subchunks.pop().unwrap();
        let ghost kids = seq![first, second, third];
        assert(kids =~= old_children);
        proof {
            lemma_chunk_tag_kind(first);
            lemma_chunk_tag_kind(second);
            lemma_chunk_tag_kind(third);
            assert(chunk_at(data@, children(data@)[0], kids[0]));
            assert(chunk_at(data@, children(data@)[1], kids[1]));
            assert(chunk_at(data@, children(data@)[2], kids[2]));
        }
        match (first, second, third) {
            (RiffChunk::MxHd(header), RiffChunk::MxOf(offsets), RiffChunk::List(streams)) => {
                Ok(Omni { container_type: riff_type, header, offsets, streams })
            },
            _ => Err(OmniParseError::UnknownLayout),
        }
    }
}

} // verus!
