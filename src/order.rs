//! Output order of lowered blocks, and the document that collects them.
use vstd::prelude::*;

use crate::chunk::RiffChunk;
use crate::lower::{lower_chunk, result_view, LowerError, LoweredV};
use crate::omni::Omni;
use crate::text::{Block, BlockType, BlockV};

verus! {

/// Where a lowered block stands: its object, that object's entry in the
/// offset table, its place among its siblings, and the same of its parent.
#[derive(Clone, Copy, Debug)]
pub struct SortingId {
    pub block_type: BlockType,
    pub id: u32,
    pub offset: u32,
    pub index: usize,
    pub parent_id: u32,
    pub parent_offset: u32,
    pub parent_index: usize,
}

/// The entry of the offset table for an identifier; zero where the table has none.
pub open spec fn offset_of(offsets: Seq<u32>, id: int) -> u32 {
    if 0 <= id < offsets.len() {
        offsets[id]
    } else {
        0
    }
}

fn table_entry(offsets: &[u32], id: u32) -> (r: u32)
    ensures
        r == offset_of(offsets@, id as int),
{
    if (id as usize) < offsets.len() && id as u64 <= usize::MAX as u64 {
        offsets[id as usize]
    } else {
        0
    }
}

pub open spec fn ordering_of(a: int, b: int) -> std::cmp::Ordering {
    if a < b {
        std::cmp::Ordering::Less
    } else if a == b {
        std::cmp::Ordering::Equal
    } else {
        std::cmp::Ordering::Greater
    }
}

fn compare(a: u64, b: u64) -> (r: std::cmp::Ordering)
    ensures
        r == ordering_of(a as int, b as int),
{
    if a < b {
        std::cmp::Ordering::Less
    } else if a == b {
        std::cmp::Ordering::Equal
    } else {
        std::cmp::Ordering::Greater
    }
}

/// The order that places blocks by parent/child adjacency and offsets.
pub open spec fn adjacency_order(a: SortingId, b: SortingId) -> std::cmp::Ordering {
    if a.parent_id == b.id {
        std::cmp::Ordering::Less
    } else if a.id == b.parent_id {
        std::cmp::Ordering::Greater
    } else if a.offset != 0 && b.offset != 0 {
        ordering_of(a.index as int, b.index as int)
    } else if a.offset == 0 && b.offset != 0 {
        ordering_of(a.parent_id as int, b.id as int)
    } else if a.offset != 0 && b.offset == 0 {
        ordering_of(a.id as int, b.parent_id as int)
    } else if a.parent_id != b.parent_id {
        ordering_of(a.parent_offset as int, b.parent_offset as int)
    } else {
        ordering_of(a.index as int, b.index as int)
    }
}

impl SortingId {
    pub fn from_id_index(
        block_type: BlockType,
        id: u32,
        offsets: &[u32],
        index: usize,
        parent_id: u32,
        parent_index: usize,
    ) -> (r: SortingId)
        ensures
            r.block_type == block_type,
            r.id == id,
            r.offset == offset_of(offsets@, id as int),
            r.index == index,
            r.parent_id == parent_id,
            r.parent_offset == offset_of(offsets@, parent_id as int),
            r.parent_index == parent_index,
    {
        SortingId {
            block_type,
            id,
            offset: table_entry(offsets, id),
            index,
            parent_id,
            parent_offset: table_entry(offsets, parent_id),
            parent_index,
        }
    }

    /// The output order: by object identifier alone.
    pub fn cmp(&self, other: &SortingId) -> (r: std::cmp::Ordering)
        ensures
            r == ordering_of(self.id as int, other.id as int),
    {
        compare(self.id as u64, other.id as u64)
    }

    /// An alternative order that keeps children next to their parents and
    /// follows the offset table; it is not the one that output uses.
    pub fn cmp_by_adjacency(&self, other: &SortingId) -> (r: std::cmp::Ordering)
        ensures
            r == adjacency_order(*self, *other),
    {
        if self.parent_id == other.id {
            std::cmp::Ordering::Less
        } else if self.id == other.parent_id {
            std::cmp::Ordering::Greater
        } else if self.offset != 0 && other.offset != 0 {
            compare(self.index as u64, other.index as u64)
        } else if self.offset == 0 && other.offset != 0 {
            compare(self.parent_id as u64, other.id as u64)
        } else if self.offset != 0 && other.offset == 0 {
            compare(self.id as u64, other.parent_id as u64)
        } else if self.parent_id != other.parent_id {
            compare(self.parent_offset as u64, other.parent_offset as u64)
        } else {
            compare(self.index as u64, other.index as u64)
        }
    }
}

/// Blocks keyed by object identifier, kept in ascending identifier order.
/// Inserting under an identifier that is present replaces that block and
/// keeps its place and key.
pub struct BlockOrder {
    pub entries: Vec<(SortingId, Block)>,
}

pub open spec fn entries_view(e: Seq<(SortingId, Block)>) -> Seq<(u32, BlockV)> {
    e.map_values(|x: (SortingId, Block)| (x.0.id, x.1@))
}

pub open spec fn ascending(s: Seq<(u32, BlockV)>) -> bool {
    forall|i: int, j: int| 0 <= i < j < s.len() ==> s[i].0 < s[j].0
}

/// How many leading entries of an ascending sequence have a smaller identifier.
pub open spec fn slot_index(s: Seq<(u32, BlockV)>, id: u32) -> int
    decreases s.len(),
{
    if s.len() == 0 {
        0
    } else if s[0].0 < id {
        1 + slot_index(s.drop_first(), id)
    } else {
        0
    }
}

/// The sequence after placing `(id, b)`: it replaces the entry with that
/// identifier, or goes after every smaller identifier.
pub open spec fn place(s: Seq<(u32, BlockV)>, id: u32, b: BlockV) -> Seq<(u32, BlockV)> {
    let p = slot_index(s, id);
    if p < s.len() && s[p].0 == id {
        s.update(p, (id, b))
    } else {
        s.insert(p, (id, b))
    }
}

pub proof fn lemma_slot_index(s: Seq<(u32, BlockV)>, id: u32)
    requires
        ascending(s),
    ensures
        0 <= slot_index(s, id) <= s.len(),
        forall|i: int| 0 <= i < slot_index(s, id) ==> s[i].0 < id,
        forall|i: int| slot_index(s, id) <= i < s.len() ==> s[i].0 >= id,
    decreases s.len(),
{
    if s.len() > 0 && s[0].0 < id {
        let t = s.drop_first();
        assert(ascending(t));
        lemma_slot_index(t, id);
        assert forall|i: int| 0 <= i < slot_index(s, id) implies s[i].0 < id by {
            if i > 0 {
                assert(s[i] == t[i - 1]);
            }
        }
        assert forall|i: int| slot_index(s, id) <= i < s.len() implies s[i].0 >= id by {
            assert(s[i] == t[i - 1]);
        }
    } else if s.len() > 0 {
        assert forall|i: int| 0 <= i < s.len() implies s[i].0 >= id by {
            if i > 0 {
                assert(s[0].0 < s[i].0);
            }
        }
    }
}

/// Placing a block keeps the sequence ascending.
pub proof fn lemma_place_ascending(s: Seq<(u32, BlockV)>, id: u32, b: BlockV)
    requires
        ascending(s),
    ensures
        ascending(place(s, id, b)),
{
    lemma_slot_index(s, id);
    let p = slot_index(s, id);
    let t = place(s, id, b);
    if p < s.len() && s[p].0 == id {
        assert forall|i: int, j: int| 0 <= i < j < t.len() implies t[i].0 < t[j].0 by {
            if i != p && j != p {
                assert(s[i].0 < s[j].0);
            }
        }
    } else {
        assert forall|i: int, j: int| 0 <= i < j < t.len() implies t[i].0 < t[j].0 by {
            if j < p {
                assert(s[i].0 < s[j].0);
            } else if i > p {
                assert(s[i - 1].0 < s[j - 1].0);
            } else if i < p && j > p {
                assert(s[i].0 < id);
                assert(s[j - 1].0 >= id);
            }
        }
    }
}

impl View for BlockOrder {
    type V = Seq<(u32, BlockV)>;

    open spec fn view(&self) -> Seq<(u32, BlockV)> {
        entries_view(self.entries@)
    }
}

impl BlockOrder {
    pub open spec fn wf(&self) -> bool {
        ascending(self@)
    }

    pub fn new() -> (r: BlockOrder)
        ensures
            r@ == Seq::<(u32, BlockV)>::empty(),
            r.wf(),
    {
        let r = BlockOrder { entries: Vec::new() };
        assert(r@ =~= Seq::<(u32, BlockV)>::empty());
        r
    }

    pub fn len(&self) -> (r: usize)
        ensures
            r == self@.len(),
    {
        self.entries.len()
    }

    /// Places a block by its key's identifier.
    pub fn insert(&mut self, key: SortingId, block: Block)
        requires
            old(self).wf(),
        ensures
            final(self).wf(),
            final(self)@ == place(old(self)@, key.id, block@),
    {
        let ghost s = self@;
        proof {
            lemma_slot_index(s, key.id);
            lemma_place_ascending(s, key.id, block@);
        }
        let n = self.entries.len();
        let mut p: usize = 0;
        while p < n && self.entries[p].0.id < key.id
            invariant
                n == self.entries@.len(),
                s == self@,
                p <= n,
                forall|i: int| 0 <= i < p ==> s[i].0 < key.id,
            decreases n - p,
        {
            p = p + 1;
        }
        assert(p == n || s[p as int].0 >= key.id);
        proof {
            let q = slot_index(s, key.id);
            if q < p {
                assert(s[q].0 >= key.id);
            } else if q > p {
                assert(s[p as int].0 < key.id);
            }
        }
        assert(p == slot_index(s, key.id));
        let ghost b = block@;
        if p < n && self.entries[p].0.id == key.id {
            let k = self.entries[p].0;
            self.entries.insert(p, (k, block));
            let _ = self.entries.remove(p + 1);
            assert(self@ =~= place(s, key.id, b));
        } else {
            self.entries.insert(p, (key, block));
            assert(self@ =~= place(s, key.id, b));
        }
    }

    /// The blocks in ascending identifier order.
    pub fn into_blocks(self) -> (r: Vec<Block>)
        ensures
            r@.len() == self@.len(),
            forall|i: int| 0 <= i < r@.len() ==> r@[i]@ == self@[i].1,
    {
        let mut entries = self.entries;
        let ghost orig = entries@;
        let ghost n = orig.len();
        let mut rest: Vec<(SortingId, Block)> = Vec::new();
        while entries.len() > 0
            invariant
                entries@ == orig.subrange(0, entries@.len() as int),
                rest@.len() + entries@.len() == n,
                n == orig.len(),
                forall|i: int| 0 <= i < rest@.len() ==> rest@[i] == orig[n - 1 - i],
            decreases entries@.len(),
        {
            let e = entries.pop().unwrap();
            rest.push(e);
        }
        let mut out: Vec<Block> = Vec::new();
        while rest.len() > 0
            invariant
                out@.len() + rest@.len() == n,
                n == orig.len(),
                forall|i: int| 0 <= i < out@.len() ==> out@[i] == orig[i].1,
                forall|i: int| 0 <= i < rest@.len() ==> rest@[i] == orig[n - 1 - i],
            decreases rest@.len(),
        {
            let (_, b) = rest.pop().unwrap();
            out.push(b);
        }
        out
    }
}

} // verus!

verus! {

/// Places blocks one after another.
pub open spec fn place_all(s: Seq<(u32, BlockV)>, bs: Seq<BlockV>) -> Seq<(u32, BlockV)>
    decreases bs.len(),
{
    if bs.len() == 0 {
        s
    } else {
        place(place_all(s, bs.drop_last()), bs.last().id, bs.last())
    }
}

/// Places what one top-level chunk lowered to: its block, then the blocks
/// before it, then the blocks after it; a chunk without a block places none.
pub open spec fn place_lowered(s: Seq<(u32, BlockV)>, l: LoweredV) -> Seq<(u32, BlockV)> {
    match l.block {
        Some(b) => place_all(place(s, b.id, b), l.before + l.after),
        None => s,
    }
}

/// The ordered blocks of the first `n` top-level chunks.
pub open spec fn decode_order(chunks: Seq<RiffChunk>, n: int) -> Result<
    Seq<(u32, BlockV)>,
    LowerError,
>
    decreases n,
{
    if n <= 0 || n > chunks.len() {
        Ok(seq![])
    } else {
        match decode_order(chunks, n - 1) {
            Err(e) => Err(e),
            Ok(s) => match lower_chunk(chunks[n - 1], true) {
                Err(e) => Err(e),
                Ok(l) => Ok(place_lowered(s, l)),
            },
        }
    }
}

pub proof fn lemma_decode_error_sticks(chunks: Seq<RiffChunk>, k: int, m: int)
    requires
        0 <= k <= m <= chunks.len(),
        decode_order(chunks, k) is Err,
    ensures
        decode_order(chunks, m) == decode_order(chunks, k),
    decreases m - k,
{
    if m > k {
        lemma_decode_error_sticks(chunks, k, m - 1);
    }
}

pub proof fn lemma_decode_step(chunks: Seq<RiffChunk>, i: int)
    requires
        0 <= i < chunks.len(),
    ensures
        decode_order(chunks, i + 1) == match decode_order(chunks, i) {
            Err(e) => Err(e),
            Ok(s) => match lower_chunk(chunks[i], true) {
                Err(e) => Err(e),
                Ok(l) => Ok(place_lowered(s, l)),
            },
        },
{
}

/// A script document: the settings block, then the other blocks in output order.
pub struct Text {
    pub settings: Block,
    pub blocks: Vec<Block>,
}

fn place_blocks(order: &mut BlockOrder, blocks: Vec<Block>, offsets: &[u32], parent_id: u32, parent_index: usize)
    requires
        old(order).wf(),
    ensures
        final(order).wf(),
        final(order)@ == place_all(old(order)@, crate::text::blocks_view(blocks@)),
{
    let ghost start = order@;
    let ghost bv = crate::text::blocks_view(blocks@);
    let mut blocks = blocks;
    let total = blocks.len();
    let mut rest: Vec<Block> = Vec::new();
    while blocks.len() > 0
        invariant
            total == bv.len(),
            rest@.len() + blocks@.len() == bv.len(),
            crate::text::blocks_view(blocks@) == bv.subrange(0, blocks@.len() as int),
            forall|i: int| 0 <= i < rest@.len() ==> rest@[i]@ == bv[bv.len() - 1 - i],
        decreases blocks@.len(),
    {
        assert(crate::text::blocks_view(blocks@)[blocks@.len() - 1] == bv[blocks@.len() - 1]);
        assert(blocks@[blocks@.len() - 1]@ == bv[blocks@.len() - 1]);
        let b = blocks.pop().unwrap();
        rest.push(b);
        assert(crate::text::blocks_view(blocks@) =~= bv.subrange(0, blocks@.len() as int));
    }
    let mut index: usize = 0;
    while rest.len() > 0
        invariant
            order.wf(),
            total == bv.len(),
            index + rest@.len() == bv.len(),
            order@ == place_all(start, bv.subrange(0, index as int)),
            forall|i: int| 0 <= i < rest@.len() ==> rest@[i]@ == bv[bv.len() - 1 - i],
        decreases rest@.len(),
    {
        let b = rest.pop().unwrap();
        let key = SortingId::from_id_index(b.block_type, b.id, offsets, index, parent_id, parent_index);
        order.insert(key, b);
        proof {
            let pre = bv.subrange(0, index + 1);
            assert(pre.drop_last() =~= bv.subrange(0, index as int));
        }
        index = index + 1;
    }
    assert(bv.subrange(0, index as int) =~= bv);
}

/// Places the blocks that one top-level chunk lowered to.
fn place_chunk(order: &mut BlockOrder, lowered: crate::lower::Lowered, offsets: &[u32], index: usize)
    requires
        old(order).wf(),
    ensures
        final(order).wf(),
        final(order)@ == place_lowered(old(order)@, crate::lower::lowered_view(lowered)),
{
    let (block, before, after) = lowered;
    if let Some(b) = block {
        let parent_id = b.id;
        let key = SortingId::from_id_index(b.block_type, b.id, offsets, index, b.id, index);
        order.insert(key, b);
        let mut all = before;
        let mut tail = after;
        let ghost bb = crate::text::blocks_view(all@);
        let ghost ba = crate::text::blocks_view(tail@);
        all.append(&mut tail);
        assert(crate::text::blocks_view(all@) =~= bb + ba);
        place_blocks(order, all, offsets, parent_id, index);
    }
}

impl Text {
    /// The script of a decoded container: its settings block first, then
    /// each lowered block by ascending object identifier.
    pub fn from_omni(omni: &Omni) -> (r: Result<Text, LowerError>)
        ensures
            r matches Ok(t) ==> {
                &&& t.settings@ == crate::lower::settings_block(omni.header)
                &&& decode_order(omni.streams.subchunks@, omni.streams.subchunks@.len() as int)
                    matches Ok(s)
                &&& crate::text::blocks_view(t.blocks@) == decode_order(
                    omni.streams.subchunks@,
                    omni.streams.subchunks@.len() as int,
                )->Ok_0.map_values(|e: (u32, BlockV)| e.1)
            },
            r matches Err(e) ==> decode_order(
                omni.streams.subchunks@,
                omni.streams.subchunks@.len() as int,
            ) == Err::<Seq<(u32, BlockV)>, LowerError>(e),
    {
        let (settings, _, _) = omni.header.to_block(true);
        let settings = settings.unwrap();
        let chunks = &omni.streams.subchunks;
        let offsets = omni.offsets.objects.as_slice();
        let mut order = BlockOrder::new();
        let n = chunks.len();
        let mut index: usize = 0;
        while index < n
            invariant
                n == chunks@.len(),
                chunks@ == omni.streams.subchunks@,
                index <= n,
                order.wf(),
                decode_order(chunks@, index as int) == Ok::<Seq<(u32, BlockV)>, LowerError>(order@),
            decreases n - index,
        {
            proof {
                lemma_decode_step(chunks@, index as int);
            }
            let lowered = chunks[index].to_block(true);
            let (block, before, after) = match lowered {
                Ok(l) => l,
                Err(e) => {
                    assert(lower_chunk(chunks@[index as int], true) == Err::<LoweredV, LowerError>(e));
                    assert(decode_order(chunks@, index + 1) == Err::<Seq<(u32, BlockV)>, LowerError>(e));
                    proof {
                        lemma_decode_error_sticks(chunks@, index + 1, n as int);
                    }
                    return Err(e);
                },
            };
            place_chunk(&mut order, (block, before, after), offsets, index);
            index = index + 1;
        }
        let blocks = order.into_blocks();
        let ghost s = decode_order(chunks@, n as int)->Ok_0;
        assert(crate::text::blocks_view(blocks@) =~= s.map_values(|e: (u32, BlockV)| e.1));
        Ok(Text { settings, blocks })
    }
}

} // verus!
