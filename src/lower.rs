//! Lowering: each decoded object becomes at most one block of the script
//! model, plus the blocks that must be declared before or after it.
//!
//! An attribute becomes an assignment only where it differs from the default
//! that the script language implies.
use vstd::prelude::*;
use vstd::string::StringExecFns;

use crate::chunk::{MxHd, RiffChunk};
use crate::object::{
    is_forward, is_origin, is_up, MediaFile, MxBitmap, MxBitmapFileType, MxEvent, MxObAttrs,
    MxOb, MxObType, MxObject, MxPresenter, MxSt, MxSound, MxSoundFileType, MxVideo, MxVideoFileType,
};
use crate::text::{
    append_blocks, blocks_view, push_block, push_statement, statements_view, Block, BlockType,
    BlockV, Definition, Duration, LoopingMethod, PaletteManagement, RValue, Statement,
    StatementV, Transparency, ValueV,
};

verus! {

/// What `String::from_utf8_lossy` makes of a byte string.
pub uninterp spec fn utf8_lossy(b: Seq<u8>) -> Seq<char>;

pub open spec fn is_ascii_bytes(b: Seq<u8>) -> bool {
    forall|i: int| 0 <= i < b.len() ==> b[i] < 128
}

pub open spec fn ascii_chars(b: Seq<u8>) -> Seq<char> {
    b.map_values(|x: u8| x as char)
}

/// Relies on `String::from_utf8_lossy`: valid UTF-8 is decoded unchanged (so
/// ASCII bytes become the same characters) and each invalid sequence becomes
/// U+FFFD.
#[verifier::external_body]
fn text_of(b: &[u8]) -> (r: String)
    ensures
        r@ == utf8_lossy(b@),
        is_ascii_bytes(b@) ==> r@ == ascii_chars(b@),
{
    String::from_utf8_lossy(b).into_owned()
}

/// Why an object has no textual form.
#[derive(Clone, Copy, Debug)]
pub enum LowerError {
    /// Worlds and animations have no textual form yet; the identifier says which.
    UnsupportedObject(u32),
    /// A chunk of a kind that does not stand for an object.
    UnsupportedChunk,
    /// An object that loops neither from cache nor from stream; the identifier says which.
    LoopingFlags(u32),
    /// A presenter child that is not an object chunk, so it has no name.
    UnnamedChild,
}

/// A lowered object: its own block, if any, and the blocks around it.
pub struct LoweredV {
    pub block: Option<BlockV>,
    pub before: Seq<BlockV>,
    pub after: Seq<BlockV>,
}

pub type Lowered = (Option<Block>, Vec<Block>, Vec<Block>);

pub open spec fn lowered_view(r: Lowered) -> LoweredV {
    LoweredV {
        block: match r.0 {
            Some(b) => Some(b@),
            None => None,
        },
        before: blocks_view(r.1@),
        after: blocks_view(r.2@),
    }
}

pub open spec fn assign(n: Seq<char>, v: ValueV) -> StatementV {
    StatementV::Assign(n, v)
}

pub open spec fn when(c: bool, s: StatementV) -> Seq<StatementV> {
    if c {
        seq![s]
    } else {
        seq![]
    }
}

pub open spec fn file_stmt(f: MediaFile) -> StatementV {
    assign("fileName"@, ValueV::Str(utf8_lossy(f.filename@)))
}

pub open spec fn handler_stmts(a: MxObAttrs) -> Seq<StatementV> {
    when(a.presenter@.len() > 0, assign("handlerClass"@, ValueV::Str(utf8_lossy(a.presenter@))))
}

pub open spec fn placement_stmts(a: MxObAttrs) -> Seq<StatementV> {
    when(!is_origin(a.location), assign("location"@, ValueV::Vec3(a.location))) + when(
        !is_forward(a.direction),
        assign("direction"@, ValueV::Vec3(a.direction)),
    ) + when(!is_up(a.up), assign("up"@, ValueV::Vec3(a.up)))
}

pub open spec fn duration_stmts(a: MxObAttrs) -> Seq<StatementV> {
    when(
        a.duration != 0,
        assign("duration"@, ValueV::Def(Definition::Duration(Duration { value: a.duration }))),
    )
}

pub open spec fn palette_stmts(has_palette_management: bool) -> Seq<StatementV> {
    when(
        !has_palette_management,
        assign("paletteManagement"@, ValueV::Def(Definition::PaletteManagement(PaletteManagement::Off))),
    )
}

pub open spec fn loop_count_stmts(a: MxObAttrs) -> Seq<StatementV> {
    when(a.loops != 1, assign("loopCount"@, ValueV::Int(a.loops)))
}

/// Looping flags are consistent: no looping, or looping from cache or stream.
pub open spec fn looping_ok(a: MxObAttrs) -> bool {
    a.flags.spec_no_loop() || a.flags.spec_loop_cache() || a.flags.spec_loop_stream()
}

pub open spec fn looping_stmts(a: MxObAttrs) -> Seq<StatementV> {
    when(
        !a.flags.spec_no_loop(),
        assign(
            "loopingMethod"@,
            ValueV::Def(
                Definition::LoopingMethod(
                    if a.flags.spec_loop_cache() {
                        LoopingMethod::Cache
                    } else {
                        LoopingMethod::Stream
                    },
                ),
            ),
        ),
    )
}

pub open spec fn extra_stmts(a: MxObAttrs, key: Seq<char>) -> Seq<StatementV> {
    match a.extra.text {
        Some(t) => seq![assign(key, ValueV::Str(utf8_lossy(t@)))],
        None => seq![],
    }
}

pub open spec fn block_of(a: MxObAttrs, t: BlockType, top: bool, s: Seq<StatementV>) -> BlockV {
    BlockV { id: a.id, block_type: t, name: utf8_lossy(a.name@), is_weave: top, statements: s }
}

pub open spec fn video_palette(v: MxVideo) -> bool {
    match v.filetype {
        MxVideoFileType::Flc(f) => f.flags.spec_has_palette_management(),
        MxVideoFileType::Smk(s) => s.flags.spec_has_palette_management(),
    }
}

pub open spec fn video_statements(v: MxVideo) -> Seq<StatementV> {
    seq![file_stmt(v.file)] + handler_stmts(v.attrs) + placement_stmts(v.attrs) + palette_stmts(
        video_palette(v),
    ) + duration_stmts(v.attrs) + extra_stmts(v.attrs, "extra"@)
}

/// The presenter class that sounds use when none is named.
pub open spec fn default_sound_presenter() -> Seq<u8> {
    seq![
        0x4cu8, 0x65, 0x67, 0x6f, 0x33, 0x44, 0x57, 0x61, 0x76, 0x65, 0x50, 0x72, 0x65, 0x73, 0x65,
        0x6e, 0x74, 0x65, 0x72,
    ]
}

/// The volume that sounds have when none is given.
pub const DEFAULT_VOLUME: i32 = 0x4f;

pub open spec fn sound_volume(s: MxSound) -> i32 {
    match s.filetype {
        MxSoundFileType::Wav(w) => w.volume,
    }
}

pub open spec fn sound_statements(s: MxSound) -> Seq<StatementV> {
    let a = s.attrs;
    seq![file_stmt(s.file)] + when(
        a.presenter@.len() > 0 && a.presenter@ != default_sound_presenter(),
        assign("handlerClass"@, ValueV::Str(utf8_lossy(a.presenter@))),
    ) + placement_stmts(a) + when(
        sound_volume(s) != DEFAULT_VOLUME,
        assign("volume"@, ValueV::Int(sound_volume(s))),
    ) + when(a.start_time != 0, assign("startTime"@, ValueV::Int(a.start_time)))
        + loop_count_stmts(a) + looping_stmts(a) + extra_stmts(a, "entityName"@)
}

/// A file name without any trailing `.evt` suffixes.
pub open spec fn strip_evt(b: Seq<u8>) -> Seq<u8>
    decreases b.len(),
{
    if b.len() >= 4 && b.subrange(b.len() - 4, b.len() as int) == seq![0x2eu8, 0x65, 0x76, 0x74] {
        strip_evt(b.subrange(0, b.len() - 4))
    } else {
        b
    }
}

pub open spec fn event_statements(e: MxEvent) -> Seq<StatementV> {
    seq![assign("fileName"@, ValueV::Str(utf8_lossy(strip_evt(e.file.filename@))))]
        + handler_stmts(e.attrs) + placement_stmts(e.attrs) + extra_stmts(e.attrs, "extra"@)
}

pub open spec fn bitmap_palette(b: MxBitmap) -> bool {
    match b.filetype {
        MxBitmapFileType::Stl(s) => s.flags.spec_has_palette_management(),
    }
}

pub open spec fn bitmap_statements(b: MxBitmap) -> Seq<StatementV> {
    seq![file_stmt(b.file)] + handler_stmts(b.attrs) + duration_stmts(b.attrs) + placement_stmts(
        b.attrs,
    ) + palette_stmts(bitmap_palette(b)) + when(
        b.attrs.flags.spec_transparent(),
        assign("transparency"@, ValueV::Def(Definition::Transparency(Transparency::Yes))),
    ) + extra_stmts(b.attrs, "extra"@)
}

pub open spec fn object_statements(o: MxObject) -> Seq<StatementV> {
    seq![file_stmt(o.file)] + handler_stmts(o.attrs) + placement_stmts(o.attrs) + duration_stmts(
        o.attrs,
    ) + extra_stmts(o.attrs, "extra"@)
}

/// Truncating division by 1024, as the buffer size in kilobytes.
pub open spec fn kilobytes(n: int) -> int {
    if n >= 0 {
        n / 1024
    } else {
        -((-n) / 1024)
    }
}

pub open spec fn settings_block(h: MxHd) -> BlockV {
    BlockV {
        id: 0xffff_ffff,
        block_type: BlockType::DefineSettings,
        name: "Configuration"@,
        is_weave: false,
        statements: seq![
            assign("bufferSizeKB"@, ValueV::Int(kilobytes(h.buffer_size as int) as i32)),
            assign("buffersNum"@, ValueV::Int(h.buffer_count)),
        ],
    }
}

pub open spec fn leaf(b: BlockV) -> Result<LoweredV, LowerError> {
    Ok(LoweredV { block: Some(b), before: seq![], after: seq![] })
}

/// What a chunk lowers to, as a child (`top` false) or at the top level.
pub open spec fn lower_chunk(c: RiffChunk, top: bool) -> Result<LoweredV, LowerError>
    decreases c, 0int,
{
    match c {
        RiffChunk::MxHd(h) => leaf(settings_block(h)),
        RiffChunk::MxOb(x) => lower_object(x.obj, top),
        RiffChunk::MxSt(x) => lower_object(x.obj.obj, top),
        RiffChunk::Pad(_) => Ok(LoweredV { block: None, before: seq![], after: seq![] }),
        _ => Err(LowerError::UnsupportedChunk),
    }
}

/// What an object lowers to.
pub open spec fn lower_object(o: MxObType, top: bool) -> Result<LoweredV, LowerError>
    decreases o, 0int,
{
    match o {
        MxObType::Video(v) => leaf(
            block_of(v.attrs, BlockType::DefineAnim, top, video_statements(v)),
        ),
        MxObType::Sound(s) => if looping_ok(s.attrs) {
            leaf(block_of(s.attrs, BlockType::DefineSound, top, sound_statements(s)))
        } else {
            Err(LowerError::LoopingFlags(s.attrs.id))
        },
        MxObType::World(w) => Err(LowerError::UnsupportedObject(w.attrs.id)),
        MxObType::Presenter(p) => if !looping_ok(p.attrs) {
            Err(LowerError::LoopingFlags(p.attrs.id))
        } else {
            match lower_children(p, p.list.subchunks@.len() as int) {
                Ok((decls, before)) => Ok(
                    LoweredV {
                        block: Some(
                            block_of(
                                p.attrs,
                                BlockType::ParallelAction,
                                top,
                                handler_stmts(p.attrs) + placement_stmts(p.attrs)
                                    + loop_count_stmts(p.attrs) + looping_stmts(p.attrs) + decls
                                    + extra_stmts(p.attrs, "extra"@),
                            ),
                        ),
                        before,
                        after: seq![],
                    },
                ),
                Err(e) => Err(e),
            }
        },
        MxObType::Event(e) => leaf(
            block_of(e.attrs, BlockType::DefineEvent, top, event_statements(e)),
        ),
        MxObType::Animation(a) => Err(LowerError::UnsupportedObject(a.attrs.id)),
        MxObType::Bitmap(b) => leaf(
            block_of(b.attrs, BlockType::DefineStill, top, bitmap_statements(b)),
        ),
        MxObType::Object(x) => leaf(
            block_of(x.attrs, BlockType::DefineObject, top, object_statements(x)),
        ),
    }
}

/// The first `n` children of a presenter: one declaration each, by name, and
/// the blocks that each lowers to, in order, all declared before the parent.
pub open spec fn lower_children(p: MxPresenter, n: int) -> Result<
    (Seq<StatementV>, Seq<BlockV>),
    LowerError,
>
    decreases p, n,
{
    if n <= 0 || n > p.list.subchunks@.len() {
        Ok((seq![], seq![]))
    } else {
        match lower_children(p, n - 1) {
            Err(e) => Err(e),
            Ok((decls, before)) => {
                let c = p.list.subchunks@[n - 1];
                match c.spec_name() {
                    None => Err(LowerError::UnnamedChild),
                    Some(name) => match lower_chunk(c, false) {
                        Err(e) => Err(e),
                        Ok(l) => Ok(
                            (
                                decls.push(StatementV::Declare(utf8_lossy(name))),
                                before + l.before + match l.block {
                                    Some(b) => seq![b],
                                    None => seq![],
                                } + l.after,
                            ),
                        ),
                    },
                }
            },
        }
    }
}

} // verus!

verus! {

pub open spec fn result_view(r: Result<Lowered, LowerError>) -> Result<LoweredV, LowerError> {
    match r {
        Ok(l) => Ok(lowered_view(l)),
        Err(e) => Err(e),
    }
}

fn push_when(v: &mut Vec<Statement>, c: bool, s: Statement)
    ensures
        statements_view(final(v)@) == statements_view(old(v)@) + when(c, s@),
{
    if c {
        push_statement(v, s);
    }
    assert(statements_view(v@) =~= statements_view(old(v)@) + when(c, s@));
}

fn assignment(name: &str, value: RValue) -> (r: Statement)
    ensures
        r@ == assign(name@, value@),
{
    Statement::Assignment(String::from_str(name), value)
}

fn push_handler(v: &mut Vec<Statement>, a: &MxObAttrs)
    ensures
        statements_view(final(v)@) == statements_view(old(v)@) + handler_stmts(*a),
{
    let s = assignment("handlerClass", RValue::String(text_of(a.presenter.as_slice())));
    push_when(v, a.presenter.len() > 0, s);
}

fn push_placement(v: &mut Vec<Statement>, a: &MxObAttrs)
    ensures
        statements_view(final(v)@) == statements_view(old(v)@) + placement_stmts(*a),
{
    let ghost v0 = statements_view(v@);
    push_when(v, !a.location.is_origin(), assignment("location", RValue::Vec3(a.location)));
    push_when(v, !a.direction.is_forward(), assignment("direction", RValue::Vec3(a.direction)));
    push_when(v, !a.up.is_up(), assignment("up", RValue::Vec3(a.up)));
    assert(statements_view(v@) =~= v0 + placement_stmts(*a));
}

fn push_duration(v: &mut Vec<Statement>, a: &MxObAttrs)
    ensures
        statements_view(final(v)@) == statements_view(old(v)@) + duration_stmts(*a),
{
    let d = RValue::Definition(Definition::Duration(Duration { value: a.duration }));
    push_when(v, a.duration != 0, assignment("duration", d));
}

fn push_palette(v: &mut Vec<Statement>, has_palette_management: bool)
    ensures
        statements_view(final(v)@) == statements_view(old(v)@) + palette_stmts(
            has_palette_management,
        ),
{
    let d = RValue::Definition(Definition::PaletteManagement(PaletteManagement::Off));
    push_when(v, !has_palette_management, assignment("paletteManagement", d));
}

fn push_loop_count(v: &mut Vec<Statement>, a: &MxObAttrs)
    ensures
        statements_view(final(v)@) == statements_view(old(v)@) + loop_count_stmts(*a),
{
    push_when(v, a.loops != 1, assignment("loopCount", RValue::Integer(a.loops)));
}

fn push_looping(v: &mut Vec<Statement>, a: &MxObAttrs) -> (r: Result<(), LowerError>)
    ensures
        r is Ok <==> looping_ok(*a),
        r is Err ==> r == Err::<(), LowerError>(LowerError::LoopingFlags(a.id)),
        r is Ok ==> statements_view(final(v)@) == statements_view(old(v)@) + looping_stmts(*a),
{
    if a.flags.no_loop() {
        assert(statements_view(v@) =~= statements_view(old(v)@) + looping_stmts(*a));
        return Ok(());
    }
    let m = if a.flags.loop_cache() {
        LoopingMethod::Cache
    } else if a.flags.loop_stream() {
        LoopingMethod::Stream
    } else {
        return Err(LowerError::LoopingFlags(a.id));
    };
    let s = assignment("loopingMethod", RValue::Definition(Definition::LoopingMethod(m)));
    push_when(v, true, s);
    Ok(())
}

fn push_extra(v: &mut Vec<Statement>, a: &MxObAttrs, key: &str)
    ensures
        statements_view(final(v)@) == statements_view(old(v)@) + extra_stmts(*a, key@),
{
    match &a.extra.text {
        Some(t) => {
            push_when(v, true, assignment(key, RValue::String(text_of(t.as_slice()))));
        },
        None => {
            assert(statements_view(v@) =~= statements_view(old(v)@) + extra_stmts(*a, key@));
        },
    }
}

fn file_statement(f: &MediaFile) -> (r: Statement)
    ensures
        r@ == file_stmt(*f),
{
    assignment("fileName", RValue::String(text_of(f.filename.as_slice())))
}

fn make_block(a: &MxObAttrs, t: BlockType, top: bool, statements: Vec<Statement>) -> (r: Lowered)
    ensures
        lowered_view(r) == (LoweredV {
            block: Some(block_of(*a, t, top, statements_view(statements@))),
            before: seq![],
            after: seq![],
        }),
{
    let b = Block { id: a.id, block_type: t, name: text_of(a.name.as_slice()), is_weave: top, statements };
    let r = (Some(b), Vec::new(), Vec::new());
    assert(blocks_view(r.1@) =~= seq![]);
    assert(blocks_view(r.2@) =~= seq![]);
    r
}

impl MxHd {
    /// The settings block: buffer size in kilobytes and buffer count.
    pub fn to_block(&self, top_level: bool) -> (r: Lowered)
        ensures
            lowered_view(r) == (LoweredV { block: Some(settings_block(*self)), before: seq![], after: seq![] }),
    {
        let bs = self.buffer_size;
        let m: u64 = if bs >= 0 {
            bs as u64
        } else {
            (-(bs as i64)) as u64
        };
        let q = (m / 1024) as i32;
        let kb: i32 = if bs >= 0 {
            q
        } else {
            -q
        };
        assert(kb as int == kilobytes(bs as int));
        let mut statements: Vec<Statement> = Vec::new();
        push_statement(&mut statements, assignment("bufferSizeKB", RValue::Integer(kb)));
        push_statement(&mut statements, assignment("buffersNum", RValue::Integer(self.buffer_count)));
        let b = Block {
            id: 0xffff_ffff,
            block_type: BlockType::DefineSettings,
            name: String::from_str("Configuration"),
            is_weave: false,
            statements,
        };
        let r = (Some(b), Vec::new(), Vec::new());
        assert(statements_view(r.0->0.statements@) =~= settings_block(*self).statements);
        assert(blocks_view(r.1@) =~= seq![]);
        assert(blocks_view(r.2@) =~= seq![]);
        r
    }
}

impl MxVideo {
    pub fn to_block(&self, top_level: bool) -> (r: Lowered)
        ensures
            Ok::<LoweredV, LowerError>(lowered_view(r)) == lower_object(MxObType::Video(*self), top_level),
    {
        let mut v: Vec<Statement> = Vec::new();
        push_statement(&mut v, file_statement(&self.file));
        push_handler(&mut v, &self.attrs);
        push_placement(&mut v, &self.attrs);
        let has = match &self.filetype {
            MxVideoFileType::Flc(f) => f.flags.has_palette_management(),
            MxVideoFileType::Smk(s) => s.flags.has_palette_management(),
        };
        push_palette(&mut v, has);
        push_duration(&mut v, &self.attrs);
        push_extra(&mut v, &self.attrs, "extra");
        assert(statements_view(v@) =~= video_statements(*self));
        make_block(&self.attrs, BlockType::DefineAnim, top_level, v)
    }
}

/// The presenter name is the one that sounds use when none is named.
fn is_default_sound_presenter(b: &Vec<u8>) -> (r: bool)
    ensures
        r == (b@ == default_sound_presenter()),
{
    let lit: [u8; 19] = [
        0x4c, 0x65, 0x67, 0x6f, 0x33, 0x44, 0x57, 0x61, 0x76, 0x65, 0x50, 0x72, 0x65, 0x73, 0x65,
        0x6e, 0x74, 0x65, 0x72,
    ];
    assert(lit@ =~= default_sound_presenter());
    if b.len() != 19 {
        return false;
    }
    let mut i: usize = 0;
    while i < 19
        invariant
            b@.len() == 19,
            lit@ == default_sound_presenter(),
            i <= 19,
            forall|k: int| 0 <= k < i ==> b@[k] == lit@[k],
        decreases 19 - i,
    {
        if b[i] != lit[i] {
            return false;
        }
        i = i + 1;
    }
    assert(b@ =~= default_sound_presenter());
    true
}

impl MxSound {
    pub fn to_block(&self, top_level: bool) -> (r: Result<Lowered, LowerError>)
        ensures
            result_view(r) == lower_object(MxObType::Sound(*self), top_level),
    {
        let a = &self.attrs;
        let mut v: Vec<Statement> = Vec::new();
        push_statement(&mut v, file_statement(&self.file));
        let named = a.presenter.len() > 0 && !is_default_sound_presenter(&a.presenter);
        push_when(
            &mut v,
            named,
            assignment("handlerClass", RValue::String(text_of(a.presenter.as_slice()))),
        );
        push_placement(&mut v, a);
        let MxSoundFileType::Wav(wav) = &self.filetype;
        push_when(&mut v, wav.volume != DEFAULT_VOLUME, assignment("volume", RValue::Integer(wav.volume)));
        push_when(&mut v, a.start_time != 0, assignment("startTime", RValue::Integer(a.start_time)));
        push_loop_count(&mut v, a);
        push_looping(&mut v, a)?;
        push_extra(&mut v, a, "entityName");
        assert(statements_view(v@) =~= sound_statements(*self));
        Ok(make_block(a, BlockType::DefineSound, top_level, v))
    }
}

/// Drops every trailing `.evt` from a file name.
fn strip_evt_suffixes(b: &Vec<u8>) -> (r: Vec<u8>)
    ensures
        r@ == strip_evt(b@),
{
    let mut n = b.len();
    assert(b@.subrange(0, n as int) =~= b@);
    while n >= 4 && b[n - 4] == 0x2e && b[n - 3] == 0x65 && b[n - 2] == 0x76 && b[n - 1] == 0x74
        invariant
            n <= b@.len(),
            strip_evt(b@.subrange(0, n as int)) == strip_evt(b@),
        decreases n,
    {
        proof {
            let s = b@.subrange(0, n as int);
            assert(s.subrange(s.len() - 4, s.len() as int) =~= seq![0x2eu8, 0x65, 0x76, 0x74]);
            assert(s.subrange(0, s.len() - 4) =~= b@.subrange(0, n - 4));
        }
        n = n - 4;
    }
    proof {
        let s = b@.subrange(0, n as int);
        if s.len() >= 4 && s.subrange(s.len() - 4, s.len() as int) == seq![0x2eu8, 0x65, 0x76, 0x74] {
            assert(s.subrange(s.len() - 4, s.len() as int)[0] == b@[n - 4]);
            assert(s.subrange(s.len() - 4, s.len() as int)[1] == b@[n - 3]);
            assert(s.subrange(s.len() - 4, s.len() as int)[2] == b@[n - 2]);
            assert(s.subrange(s.len() - 4, s.len() as int)[3] == b@[n - 1]);
        }
    }
    let r = crate::wire::copy_bytes(b.as_slice(), 0, n as u64);
    assert(r@ =~= b@.subrange(0, n as int));
    r
}

impl MxEvent {
    pub fn to_block(&self, top_level: bool) -> (r: Lowered)
        ensures
            Ok::<LoweredV, LowerError>(lowered_view(r)) == lower_object(MxObType::Event(*self), top_level),
    {
        let mut v: Vec<Statement> = Vec::new();
        let stem = strip_evt_suffixes(&self.file.filename);
        push_statement(&mut v, assignment("fileName", RValue::String(text_of(stem.as_slice()))));
        push_handler(&mut v, &self.attrs);
        push_placement(&mut v, &self.attrs);
        push_extra(&mut v, &self.attrs, "extra");
        assert(statements_view(v@) =~= event_statements(*self));
        make_block(&self.attrs, BlockType::DefineEvent, top_level, v)
    }
}

impl MxBitmap {
    pub fn to_block(&self, top_level: bool) -> (r: Lowered)
        ensures
            Ok::<LoweredV, LowerError>(lowered_view(r)) == lower_object(MxObType::Bitmap(*self), top_level),
    {
        let mut v: Vec<Statement> = Vec::new();
        push_statement(&mut v, file_statement(&self.file));
        push_handler(&mut v, &self.attrs);
        push_duration(&mut v, &self.attrs);
        push_placement(&mut v, &self.attrs);
        let MxBitmapFileType::Stl(stl) = &self.filetype;
        push_palette(&mut v, stl.flags.has_palette_management());
        let t = RValue::Definition(Definition::Transparency(Transparency::Yes));
        push_when(&mut v, self.attrs.flags.transparent(), assignment("transparency", t));
        push_extra(&mut v, &self.attrs, "extra");
        assert(statements_view(v@) =~= bitmap_statements(*self));
        make_block(&self.attrs, BlockType::DefineStill, top_level, v)
    }
}

impl MxObject {
    pub fn to_block(&self, top_level: bool) -> (r: Lowered)
        ensures
            Ok::<LoweredV, LowerError>(lowered_view(r)) == lower_object(MxObType::Object(*self), top_level),
    {
        let mut v: Vec<Statement> = Vec::new();
        push_statement(&mut v, file_statement(&self.file));
        push_handler(&mut v, &self.attrs);
        push_placement(&mut v, &self.attrs);
        push_duration(&mut v, &self.attrs);
        push_extra(&mut v, &self.attrs, "extra");
        assert(statements_view(v@) =~= object_statements(*self));
        make_block(&self.attrs, BlockType::DefineObject, top_level, v)
    }
}

} // verus!

verus! {

/// Once lowering the children of a presenter fails, it fails with the same
/// error for every longer prefix of them.
pub proof fn lemma_children_error_sticks(p: MxPresenter, k: int, m: int)
    requires
        0 <= k <= m <= p.list.subchunks@.len(),
        lower_children(p, k) is Err,
    ensures
        lower_children(p, m) == lower_children(p, k),
    decreases m - k,
{
    if m > k {
        lemma_children_error_sticks(p, k, m - 1);
    }
}

impl MxObType {
    /// The name of the object.
    pub fn get_name(&self) -> (r: String)
        ensures
            r@ == utf8_lossy(self.spec_attrs().name@),
    {
        text_of(self.attrs().name.as_slice())
    }

    pub fn to_block(&self, top_level: bool) -> (r: Result<Lowered, LowerError>)
        ensures
            result_view(r) == lower_object(*self, top_level),
        decreases self, 0int,
    {
        match self {
            MxObType::Video(x) => Ok(x.to_block(top_level)),
            MxObType::Sound(x) => x.to_block(top_level),
            MxObType::World(x) => Err(LowerError::UnsupportedObject(x.attrs.id)),
            MxObType::Presenter(x) => x.to_block(top_level),
            MxObType::Event(x) => Ok(x.to_block(top_level)),
            MxObType::Animation(x) => Err(LowerError::UnsupportedObject(x.attrs.id)),
            MxObType::Bitmap(x) => Ok(x.to_block(top_level)),
            MxObType::Object(x) => Ok(x.to_block(top_level)),
        }
    }
}

impl MxPresenter {
    /// The presenter's own block, with one declaration per child; the
    /// children's blocks come before it.
    pub fn to_block(&self, top_level: bool) -> (r: Result<Lowered, LowerError>)
        ensures
            result_view(r) == lower_object(MxObType::Presenter(*self), top_level),
        decreases self, 0int,
    {
        let a = &self.attrs;
        let mut v: Vec<Statement> = Vec::new();
        push_handler(&mut v, a);
        push_placement(&mut v, a);
        push_loop_count(&mut v, a);
        push_looping(&mut v, a)?;
        let ghost prefix = statements_view(v@);
        let mut before: Vec<Block> = Vec::new();
        let n = self.list.subchunks.len();
        let mut i: usize = 0;
        assert(statements_view(v@) =~= prefix + seq![]);
        assert(blocks_view(before@) =~= seq![]);
        while i < n
            invariant
                i <= n,
                n == self.list.subchunks@.len(),
                looping_ok(self.attrs),
                prefix == handler_stmts(self.attrs) + placement_stmts(self.attrs)
                    + loop_count_stmts(self.attrs) + looping_stmts(self.attrs),
                lower_children(*self, i as int) matches Ok((d, bf)) && statements_view(v@)
                    == prefix + d && blocks_view(before@) == bf,
            decreases n - i,
        {
            let c = &self.list.subchunks[i];
            let name = match c.get_name() {
                Some(nm) => nm,
                None => {
                    proof {
                        lemma_children_error_sticks(*self, i + 1, n as int);
                    }
                    return Err(LowerError::UnnamedChild);
                },
            };
            let ghost d0 = statements_view(v@);
            push_statement(&mut v, Statement::Declaration(name));
            let (b, bb, ba) = match c.to_block(false) {
                Ok(l) => l,
                Err(e) => {
                    proof {
                        lemma_children_error_sticks(*self, i + 1, n as int);
                    }
                    return Err(e);
                },
            };
            append_blocks(&mut before, bb);
            match b {
                Some(b) => push_block(&mut before, b),
                None => {},
            }
            append_blocks(&mut before, ba);
            i = i + 1;
            proof {
                let (d, bf) = lower_children(*self, i - 1)->Ok_0;
                assert(d0 == prefix + d);
                assert(statements_view(v@) =~= prefix + d.push(
                    StatementV::Declare(utf8_lossy(c.spec_name()->0)),
                ));
            }
        }
        push_extra(&mut v, a, "extra");
        let blk = Block {
            id: a.id,
            block_type: BlockType::ParallelAction,
            name: text_of(a.name.as_slice()),
            is_weave: top_level,
            statements: v,
        };
        let r = (Some(blk), before, Vec::new());
        proof {
            let (d, bf) = lower_children(*self, n as int)->Ok_0;
            assert(statements_view(r.0->0.statements@) =~= handler_stmts(self.attrs)
                + placement_stmts(self.attrs) + loop_count_stmts(self.attrs) + looping_stmts(
                self.attrs,
            ) + d + extra_stmts(self.attrs, "extra"@));
            assert(blocks_view(r.2@) =~= seq![]);
        }
        Ok(r)
    }
}

impl RiffChunk {
    /// The name of the object that an `MxOb` chunk holds; other chunks have none.
    pub fn get_name(&self) -> (r: Option<String>)
        ensures
            match self.spec_name() {
                Some(n) => r matches Some(s) && s@ == utf8_lossy(n),
                None => r is None,
            },
    {
        match self {
            RiffChunk::MxOb(x) => Some(x.obj.get_name()),
            _ => None,
        }
    }

    pub fn to_block(&self, top_level: bool) -> (r: Result<Lowered, LowerError>)
        ensures
            result_view(r) == lower_chunk(*self, top_level),
        decreases self, 0int,
    {
        match self {
            RiffChunk::MxHd(h) => Ok(h.to_block(top_level)),
            RiffChunk::MxOb(x) => x.to_block(top_level),
            RiffChunk::MxSt(x) => x.to_block(top_level),
            RiffChunk::Pad(_) => {
                let r: Lowered = (None, Vec::new(), Vec::new());
                assert(blocks_view(r.1@) =~= seq![]);
                assert(blocks_view(r.2@) =~= seq![]);
                Ok(r)
            },
            _ => Err(LowerError::UnsupportedChunk),
        }
    }
}

impl MxOb {
    pub fn to_block(&self, top_level: bool) -> (r: Result<Lowered, LowerError>)
        ensures
            result_view(r) == lower_object(self.obj, top_level),
        decreases self, 0int,
    {
        self.obj.to_block(top_level)
    }
}

impl MxSt {
    pub fn to_block(&self, top_level: bool) -> (r: Result<Lowered, LowerError>)
        ensures
            result_view(r) == lower_object(self.obj.obj, top_level),
        decreases self, 0int,
    {
        self.obj.to_block(top_level)
    }
}

} // verus!
