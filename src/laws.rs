//! Properties that relate several functions of the library, proved.
use vstd::prelude::*;

use crate::chunk::{even_up, mxhd_tag, RiffChunk};
use crate::decode::{
    chunk_res, chunks_res, header_buffer, next_buffer_start, reach, straddles, tag_of,
};
use crate::wire::le32;
use crate::lower::{extra_stmts, looping_stmts, lower_children, lower_chunk, lower_object, LoweredV};
use crate::object::{is_forward, is_origin, is_up, MxObAttrs, MxObType, MxPresenter};
use crate::order::{
    ascending, decode_order, lemma_place_ascending, lemma_slot_index, place, place_all, slot_index,
};
use crate::text::{BlockType, BlockV, StatementV};

verus! {

/// A declared chunk length, read back, is even; an odd stored length reads
/// back one larger.
pub proof fn law_declared_length_even(raw: u32)
    ensures
        even_up(raw as int) % 2 == 0,
        raw % 2 == 1 ==> even_up(raw as int) == raw + 1,
        raw % 2 == 0 ==> even_up(raw as int) == raw,
{
}

/// Placing blocks one after another keeps them in ascending identifier order.
pub proof fn lemma_place_all_ascending(s: Seq<(u32, BlockV)>, bs: Seq<BlockV>)
    requires
        ascending(s),
    ensures
        ascending(place_all(s, bs)),
    decreases bs.len(),
{
    if bs.len() > 0 {
        lemma_place_all_ascending(s, bs.drop_last());
        lemma_place_ascending(place_all(s, bs.drop_last()), bs.last().id, bs.last());
    }
}

/// Decoded blocks come out in strictly ascending identifier order, whatever
/// order the objects were stored in.
pub proof fn law_decoded_blocks_ascending(chunks: Seq<RiffChunk>, n: int)
    ensures
        decode_order(chunks, n) matches Ok(s) ==> ascending(s),
    decreases n,
{
    if 0 < n <= chunks.len() {
        law_decoded_blocks_ascending(chunks, n - 1);
        match decode_order(chunks, n - 1) {
            Ok(s) => match lower_chunk(chunks[n - 1], true) {
                Ok(l) => match l.block {
                    Some(b) => {
                        lemma_place_ascending(s, b.id, b);
                        lemma_place_all_ascending(place(s, b.id, b), l.before + l.after);
                    },
                    None => {},
                },
                Err(_) => {},
            },
            Err(_) => {},
        }
    }
}

/// Placing an identifier that is not present adds one entry.
pub proof fn lemma_place_new(s: Seq<(u32, BlockV)>, id: u32, b: BlockV)
    requires
        ascending(s),
        forall|i: int| 0 <= i < s.len() ==> s[i].0 != id,
    ensures
        place(s, id, b) == s.insert(slot_index(s, id), (id, b)),
        place(s, id, b).len() == s.len() + 1,
{
    lemma_slot_index(s, id);
}

/// A single block placed into blocks with other identifiers.
proof fn lemma_place_one(s: Seq<(u32, BlockV)>, bs: Seq<BlockV>, n: int)
    requires
        0 < n <= bs.len(),
        ascending(s),
        s.len() == n - 1,
        forall|k: int| 0 <= k < s.len() ==> s[k].1.block_type != BlockType::DefineSettings,
        forall|k: int| 0 <= k < s.len() ==> exists|i: int| 0 <= i < n - 1 && #[trigger] s[k].0 == bs[i].id,
        forall|i: int, j: int| 0 <= i < j < n ==> bs[i].id != bs[j].id,
        bs[n - 1].block_type != BlockType::DefineSettings,
    ensures
        ({
            let t = place(s, bs[n - 1].id, bs[n - 1]);
            &&& t.len() == n
            &&& forall|k: int| 0 <= k < t.len() ==> t[k].1.block_type != BlockType::DefineSettings
            &&& forall|k: int| 0 <= k < t.len() ==> exists|i: int| 0 <= i < n && #[trigger] t[k].0 == bs[i].id
        }),
{
    let b = bs[n - 1];
    assert forall|k: int| 0 <= k < s.len() implies s[k].0 != b.id by {
        let i = choose|i: int| 0 <= i < n - 1 && #[trigger] s[k].0 == bs[i].id;
        assert(bs[i].id != bs[n - 1].id);
    }
    lemma_place_new(s, b.id, b);
    lemma_slot_index(s, b.id);
    let t = place(s, b.id, b);
    let p = slot_index(s, b.id);
    assert forall|k: int| 0 <= k < t.len() implies t[k].1.block_type != BlockType::DefineSettings by {
        if k < p {
            assert(t[k] == s[k]);
        } else if k > p {
            assert(t[k] == s[k - 1]);
        }
    }
    assert forall|k: int| 0 <= k < t.len() implies exists|i: int| 0 <= i < n && #[trigger] t[k].0 == bs[i].id by {
        if k < p {
            assert(t[k] == s[k]);
            let i = choose|i: int| 0 <= i < n - 1 && #[trigger] s[k].0 == bs[i].id;
            assert(t[k].0 == bs[i].id);
        } else if k > p {
            assert(t[k] == s[k - 1]);
            let i = choose|i: int| 0 <= i < n - 1 && #[trigger] s[k - 1].0 == bs[i].id;
            assert(t[k].0 == bs[i].id);
        } else {
            assert(t[k].0 == bs[n - 1].id);
        }
    }
}

/// Where each top-level object lowers to one block of its own (`bs`), with
/// none around it, no settings block among them and no two with one
/// identifier, decoding keeps one block per object: the settings block comes
/// from the header alone.
pub proof fn law_one_block_per_object(chunks: Seq<RiffChunk>, bs: Seq<BlockV>, n: int)
    requires
        0 <= n <= chunks.len(),
        bs.len() == chunks.len(),
        forall|i: int|
            0 <= i < n ==> lower_chunk(#[trigger] chunks[i], true) == Ok::<LoweredV, crate::lower::LowerError>(
                LoweredV { block: Some(bs[i]), before: seq![], after: seq![] },
            ),
        forall|i: int| 0 <= i < n ==> (#[trigger] bs[i]).block_type != BlockType::DefineSettings,
        forall|i: int, j: int| 0 <= i < j < n ==> bs[i].id != bs[j].id,
    ensures
        decode_order(chunks, n) matches Ok(s) && s.len() == n && (forall|k: int|
            0 <= k < s.len() ==> s[k].1.block_type != BlockType::DefineSettings) && (forall|k: int|
            0 <= k < s.len() ==> exists|i: int| 0 <= i < n && #[trigger] s[k].0 == bs[i].id),
    decreases n,
{
    if n > 0 {
        law_one_block_per_object(chunks, bs, n - 1);
        law_decoded_blocks_ascending(chunks, n - 1);
        crate::order::lemma_decode_step(chunks, n - 1);
        let s = decode_order(chunks, n - 1)->Ok_0;
        let b = bs[n - 1];
        assert(lower_chunk(chunks[n - 1], true) == Ok::<LoweredV, crate::lower::LowerError>(
            LoweredV { block: Some(b), before: seq![], after: seq![] },
        ));
        assert(Seq::<BlockV>::empty() + Seq::<BlockV>::empty() =~= Seq::<BlockV>::empty());
        assert(place_all(place(s, b.id, b), Seq::<BlockV>::empty()) == place(s, b.id, b));
        lemma_place_one(s, bs, n);
    }
}

/// The attributes hold the values that the script language implies.
pub open spec fn default_attributes(a: MxObAttrs) -> bool {
    &&& is_origin(a.location)
    &&& is_forward(a.direction)
    &&& is_up(a.up)
    &&& a.loops == 1
    &&& a.duration == 0
    &&& a.presenter@.len() == 0
}

/// Names of the assignments that defaults suppress.
pub open spec fn defaulted_name(n: Seq<char>) -> bool {
    n == "location"@ || n == "direction"@ || n == "up"@ || n == "loopCount"@ || n == "duration"@
        || n == "handlerClass"@
}

pub open spec fn assigns_defaulted(s: StatementV) -> bool {
    s matches StatementV::Assign(n, _) && defaulted_name(n)
}

pub open spec fn none_defaulted(ss: Seq<StatementV>) -> bool {
    forall|i: int| 0 <= i < ss.len() ==> !assigns_defaulted(#[trigger] ss[i])
}

proof fn lemma_other_names()
    ensures
        !defaulted_name("fileName"@),
        !defaulted_name("paletteManagement"@),
        !defaulted_name("extra"@),
        !defaulted_name("volume"@),
        !defaulted_name("startTime"@),
        !defaulted_name("loopingMethod"@),
        !defaulted_name("entityName"@),
        !defaulted_name("transparency"@),
{
    reveal_strlit("fileName");
    reveal_strlit("paletteManagement");
    reveal_strlit("extra");
    reveal_strlit("volume");
    reveal_strlit("startTime");
    reveal_strlit("loopingMethod");
    reveal_strlit("entityName");
    reveal_strlit("transparency");
    reveal_strlit("location");
    reveal_strlit("direction");
    reveal_strlit("up");
    reveal_strlit("loopCount");
    reveal_strlit("duration");
    reveal_strlit("handlerClass");
    assert("fileName"@[0] != "location"@[0]);
    assert("fileName"@[0] != "duration"@[0]);
    assert("fileName"@[0] != "direction"@[0]);
    assert("volume"@[0] != "up"@[0]);
    assert("extra"@.len() != "up"@.len());
    assert("startTime"@[0] != "direction"@[0]);
    assert("entityName"@[0] != "location"@[0]);
    assert("transparency"@[0] != "handlerClass"@[0]);
    assert("loopingMethod"@[0] != "up"@[0]);
    assert("loopingMethod"@[4] != "loopCount"@[4]);
    assert("paletteManagement"@[0] != "up"@[0]);
}

proof fn lemma_none_defaulted_concat(a: Seq<StatementV>, b: Seq<StatementV>)
    requires
        none_defaulted(a),
        none_defaulted(b),
    ensures
        none_defaulted(a + b),
{
    assert forall|i: int| 0 <= i < (a + b).len() implies !assigns_defaulted(#[trigger] (a + b)[i]) by {
        if i < a.len() {
            assert((a + b)[i] == a[i]);
        } else {
            assert((a + b)[i] == b[i - a.len()]);
        }
    }
}

proof fn lemma_extra_not_defaulted(a: MxObAttrs, key: Seq<char>)
    requires
        !defaulted_name(key),
    ensures
        none_defaulted(extra_stmts(a, key)),
{
}

/// Every statement that lowering a presenter's children adds is a declaration.
pub proof fn lemma_children_declare(p: MxPresenter, n: int)
    ensures
        lower_children(p, n) matches Ok((d, _)) ==> forall|i: int|
            0 <= i < d.len() ==> #[trigger] d[i] is Declare,
    decreases n,
{
    if 0 < n <= p.list.subchunks@.len() {
        lemma_children_declare(p, n - 1);
    }
}

/// An object whose attributes all hold their implied defaults lowers to a
/// block with no assignment of location, direction, up, loop count,
/// duration or presenter class.
pub proof fn law_defaults_suppressed(o: MxObType, top: bool)
    requires
        default_attributes(o.spec_attrs()),
    ensures
        lower_object(o, top) matches Ok(l) ==> (l.block matches Some(b) ==> none_defaulted(
            b.statements,
        )),
{
    lemma_other_names();
    let a = o.spec_attrs();
    assert(crate::lower::handler_stmts(a) =~= Seq::<StatementV>::empty());
    assert(crate::lower::placement_stmts(a) =~= Seq::<StatementV>::empty());
    assert(crate::lower::duration_stmts(a) =~= Seq::<StatementV>::empty());
    assert(crate::lower::loop_count_stmts(a) =~= Seq::<StatementV>::empty());
    assert(none_defaulted(looping_stmts(a)));
    match o {
        MxObType::Video(v) => {
            let ss = crate::lower::video_statements(v);
            assert forall|i: int| 0 <= i < ss.len() implies !assigns_defaulted(#[trigger] ss[i]) by {
                assert(ss[i] == crate::lower::file_stmt(v.file) || ss[i] == crate::lower::palette_stmts(crate::lower::video_palette(v))[0]
                    || ss[i] == extra_stmts(a, "extra"@)[0]);
            }
        },
        MxObType::Sound(s) => {
            let ss = crate::lower::sound_statements(s);
            assert forall|i: int| 0 <= i < ss.len() implies !assigns_defaulted(#[trigger] ss[i]) by {
                let vol = crate::lower::sound_volume(s);
                assert(ss[i] == crate::lower::file_stmt(s.file)
                    || ss[i] == crate::lower::assign("volume"@, crate::text::ValueV::Int(vol))
                    || ss[i] == crate::lower::assign("startTime"@, crate::text::ValueV::Int(a.start_time))
                    || ss[i] == looping_stmts(a)[0]
                    || ss[i] == extra_stmts(a, "entityName"@)[0]);
            }
        },
        MxObType::Event(e) => {
            let ss = crate::lower::event_statements(e);
            assert forall|i: int| 0 <= i < ss.len() implies !assigns_defaulted(#[trigger] ss[i]) by {
                assert(i == 0 || ss[i] == extra_stmts(a, "extra"@)[0]);
            }
        },
        MxObType::Bitmap(b) => {
            let ss = crate::lower::bitmap_statements(b);
            assert forall|i: int| 0 <= i < ss.len() implies !assigns_defaulted(#[trigger] ss[i]) by {
                assert(ss[i] == crate::lower::file_stmt(b.file) || ss[i] == crate::lower::palette_stmts(crate::lower::bitmap_palette(b))[0]
                    || ss[i] == crate::lower::assign(
                    "transparency"@,
                    crate::text::ValueV::Def(crate::text::Definition::Transparency(crate::text::Transparency::Yes)),
                ) || ss[i] == extra_stmts(a, "extra"@)[0]);
            }
        },
        MxObType::Object(x) => {
            let ss = crate::lower::object_statements(x);
            assert forall|i: int| 0 <= i < ss.len() implies !assigns_defaulted(#[trigger] ss[i]) by {
                assert(i == 0 || ss[i] == extra_stmts(a, "extra"@)[0]);
            }
        },
        MxObType::Presenter(p) => {
            lemma_children_declare(p, p.list.subchunks@.len() as int);
            match lower_children(p, p.list.subchunks@.len() as int) {
                Ok((d, _)) => {
                    let ss = looping_stmts(a) + d + extra_stmts(a, "extra"@);
                    assert(none_defaulted(d));
                    lemma_extra_not_defaulted(a, "extra"@);
                    lemma_none_defaulted_concat(looping_stmts(a), d);
                    lemma_none_defaulted_concat(looping_stmts(a) + d, extra_stmts(a, "extra"@));
                    assert(crate::lower::handler_stmts(a) + crate::lower::placement_stmts(a)
                        + crate::lower::loop_count_stmts(a) + looping_stmts(a) + d + extra_stmts(a, "extra"@) =~= ss);
                },
                Err(_) => {},
            }
        },
        _ => {},
    }
}

/// Decoding never fails once every top-level object has a textual form:
/// where each top-level chunk lowers, the ordered blocks exist.
pub proof fn law_decode_succeeds(chunks: Seq<RiffChunk>, n: int)
    requires
        0 <= n <= chunks.len(),
        forall|i: int| 0 <= i < n ==> (#[trigger] lower_chunk(chunks[i], true)) is Ok,
    ensures
        decode_order(chunks, n) is Ok,
    decreases n,
{
    if n > 0 {
        law_decode_succeeds(chunks, n - 1);
        crate::order::lemma_decode_step(chunks, n - 1);
        assert(lower_chunk(chunks[n - 1], true) is Ok);
    }
}

/// Every chunk header of a sequence lies at or after where the sequence starts.
pub proof fn lemma_positions_from(b: Seq<u8>, pos: int, max: int, buf: int)
    ensures
        chunks_res(b, pos, max, buf) matches Ok(ps) ==> forall|i: int| 0 <= i < ps.len() ==> ps[i] >= pos,
    decreases reach(b.len() as int) - pos,
{
    if pos < 0 || buf <= 0 || buf > 0x8000_0000 || max > b.len() + 0x2_0000_0010 || pos + 8 >= max {
    } else if straddles(pos, buf) {
        if next_buffer_start(pos, buf) > pos {
            lemma_positions_from(b, next_buffer_start(pos, buf), max, buf);
        }
    } else if pos + 8 > b.len() {
    } else {
        match chunk_res(b, pos, buf) {
            Err(_) => {},
            Ok(_) => {
                let next = pos + 8 + even_up(le32(b, pos + 4));
                let hd = tag_of(b, pos) == mxhd_tag();
                if !(hd && header_buffer(b, pos) <= 0) {
                    let nb = if hd { header_buffer(b, pos) as int } else { buf };
                    lemma_positions_from(b, next, max, nb);
                    match chunks_res(b, next, max, nb) {
                        Ok(qs) => {
                            assert forall|i: int| 0 <= i < qs.len() + 1 implies (seq![pos] + qs)[i] >= pos by {
                                if i > 0 {
                                    assert((seq![pos] + qs)[i] == qs[i - 1]);
                                }
                            }
                        },
                        Err(_) => {},
                    }
                }
            },
        }
    }
}

/// Where a chunk header at `pos` would straddle a buffer edge, the bytes up
/// to the next buffer are padding: decoding goes on exactly as if it started
/// at the next buffer, and no chunk header is read before it.
pub proof fn law_straddled_bytes_skipped(b: Seq<u8>, pos: int, max: int, buf: int)
    requires
        0 <= pos,
        0 < buf <= 0x8000_0000,
        max <= b.len() + 0x2_0000_0010,
        pos + 8 < max,
        straddles(pos, buf),
    ensures
        chunks_res(b, pos, max, buf) == chunks_res(b, next_buffer_start(pos, buf), max, buf),
        chunks_res(b, pos, max, buf) matches Ok(ps) ==> forall|i: int|
            0 <= i < ps.len() ==> ps[i] >= next_buffer_start(pos, buf),
{
    crate::decode::lemma_skip_to_next_buffer(pos, buf);
    lemma_positions_from(b, next_buffer_start(pos, buf), max, buf);
}

} // verus!
