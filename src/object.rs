//! Stream objects: the media and scene-graph entities that `MxOb` chunks hold.
use vstd::prelude::*;

use crate::chunk::List;
use crate::chunk::RiffChunk;
use crate::chunk::RiffChunkHeader;

verus! {

/// A 3-vector of IEEE-754 doubles, each held as its 64-bit pattern.
#[derive(Clone, Copy, Debug, PartialEq, Eq)]
pub struct Vec3 {
    pub x: u64,
    pub y: u64,
    pub z: u64,
}

/// The bit pattern of the double `1.0`.
pub const ONE_BITS: u64 = 0x3ff0_0000_0000_0000;

/// A double is zero (`0.0` or `-0.0`) when all bits but the sign are clear.
pub open spec fn is_zero_bits(b: u64) -> bool {
    b & 0x7fff_ffff_ffff_ffff == 0
}

/// Equal, as doubles, to `(0, 0, 0)`.
pub open spec fn is_origin(v: Vec3) -> bool {
    is_zero_bits(v.x) && is_zero_bits(v.y) && is_zero_bits(v.z)
}

/// Equal, as doubles, to the forward vector `(0, 0, 1)`.
pub open spec fn is_forward(v: Vec3) -> bool {
    is_zero_bits(v.x) && is_zero_bits(v.y) && v.z == ONE_BITS
}

/// Equal, as doubles, to the up vector `(0, 1, 0)`.
pub open spec fn is_up(v: Vec3) -> bool {
    is_zero_bits(v.x) && v.y == ONE_BITS && is_zero_bits(v.z)
}

pub fn zero_bits(b: u64) -> (r: bool)
    ensures
        r == is_zero_bits(b),
{
    b & 0x7fff_ffff_ffff_ffff == 0
}

impl Vec3 {
    pub fn new(x: u64, y: u64, z: u64) -> (r: Vec3)
        ensures
            r == (Vec3 { x, y, z }),
    {
        Vec3 { x, y, z }
    }

    pub fn is_origin(&self) -> (r: bool)
        ensures
            r == is_origin(*self),
    {
        zero_bits(self.x) && zero_bits(self.y) && zero_bits(self.z)
    }

    pub fn is_forward(&self) -> (r: bool)
        ensures
            r == is_forward(*self),
    {
        zero_bits(self.x) && zero_bits(self.y) && self.z == ONE_BITS
    }

    pub fn is_up(&self) -> (r: bool)
        ensures
            r == is_up(*self),
    {
        zero_bits(self.x) && self.y == ONE_BITS && zero_bits(self.z)
    }
}

/// The optional free text of an object: absent when its stored length is
/// zero, else the bytes before the first zero byte.
#[derive(Debug)]
pub struct ExtraString {
    pub text: Option<Vec<u8>>,
}

impl ExtraString {
    pub fn len(&self) -> (r: usize)
        ensures
            r == match self.text {
                Some(s) => s@.len(),
                None => 0,
            },
    {
        match &self.text {
            Some(s) => s.len(),
            None => 0,
        }
    }

    pub fn is_some(&self) -> (r: bool)
        ensures
            r == self.text is Some,
    {
        self.text.is_some()
    }
}

/// The 32-bit flag word of an object.
#[derive(Clone, Copy, Debug)]
pub struct MxObFlags {
    pub bits: u32,
}

impl MxObFlags {
    pub open spec fn spec_loop_cache(&self) -> bool {
        self.bits & 1 != 0
    }

    pub open spec fn spec_no_loop(&self) -> bool {
        self.bits & 2 != 0
    }

    pub open spec fn spec_loop_stream(&self) -> bool {
        self.bits & 4 != 0
    }

    pub open spec fn spec_transparent(&self) -> bool {
        self.bits & 8 != 0
    }

    pub fn loop_cache(&self) -> (r: bool)
        ensures
            r == self.spec_loop_cache(),
    {
        self.bits & 1 != 0
    }

    pub fn no_loop(&self) -> (r: bool)
        ensures
            r == self.spec_no_loop(),
    {
        self.bits & 2 != 0
    }

    pub fn loop_stream(&self) -> (r: bool)
        ensures
            r == self.spec_loop_stream(),
    {
        self.bits & 4 != 0
    }

    pub fn transparent(&self) -> (r: bool)
        ensures
            r == self.spec_transparent(),
    {
        self.bits & 8 != 0
    }
}

/// The 32-bit flag word of a video or still image record.
#[derive(Clone, Copy, Debug)]
pub struct MediaFlags {
    pub bits: u32,
}

impl MediaFlags {
    pub open spec fn spec_has_palette_management(&self) -> bool {
        self.bits & 1 != 0
    }

    pub fn has_palette_management(&self) -> (r: bool)
        ensures
            r == self.spec_has_palette_management(),
    {
        self.bits & 1 != 0
    }
}

/// The attributes that every object kind carries.
#[derive(Debug)]
pub struct MxObAttrs {
    pub presenter: Vec<u8>,
    pub unk0: u32,
    pub name: Vec<u8>,
    pub id: u32,
    pub flags: MxObFlags,
    pub start_time: i32,
    pub duration: i32,
    pub loops: i32,
    pub location: Vec3,
    pub direction: Vec3,
    pub up: Vec3,
    pub extra: ExtraString,
}

/// The file reference of a file-backed object.
#[derive(Debug)]
pub struct MediaFile {
    pub filename: Vec<u8>,
    pub unk2: u32,
    pub unk3: u32,
    pub unk4: u32,
}

/// The flag word of an FLC video record.
pub type MxFlcFlags = MediaFlags;

/// The flag word of an SMK video record.
pub type MxSmkFlags = MediaFlags;

/// The flag word of a still image record.
pub type MxStlFlags = MediaFlags;

#[derive(Clone, Copy, Debug)]
pub struct MxFlcVideo {
    pub flags: MediaFlags,
    pub unk6: u32,
}

#[derive(Clone, Copy, Debug)]
pub struct MxSmkVideo {
    pub flags: MediaFlags,
    pub unk6: u32,
}

#[derive(Clone, Copy, Debug)]
pub enum MxVideoFileType {
    Flc(MxFlcVideo),
    Smk(MxSmkVideo),
}

#[derive(Debug)]
pub struct MxVideo {
    pub attrs: MxObAttrs,
    pub file: MediaFile,
    pub filetype: MxVideoFileType,
}

#[derive(Clone, Copy, Debug)]
pub struct MxWavObject {
    pub unk5: u32,
    pub unk6: u32,
    pub volume: i32,
}

#[derive(Clone, Copy, Debug)]
pub enum MxSoundFileType {
    Wav(MxWavObject),
}

#[derive(Debug)]
pub struct MxSound {
    pub attrs: MxObAttrs,
    pub file: MediaFile,
    pub filetype: MxSoundFileType,
}

/// A world: attributes and a nested list of stream objects.
#[derive(Debug)]
pub struct MxWorld {
    pub attrs: MxObAttrs,
    pub list: List,
}

/// A presenter: attributes and a nested list of stream objects.
#[derive(Debug)]
pub struct MxPresenter {
    pub attrs: MxObAttrs,
    pub list: List,
}

#[derive(Clone, Copy, Debug)]
pub struct MxEvtEvent {
    pub unk5: u32,
    pub unk6: u32,
}

#[derive(Clone, Copy, Debug)]
pub enum MxEventFileType {
    Evt(MxEvtEvent),
}

#[derive(Debug)]
pub struct MxEvent {
    pub attrs: MxObAttrs,
    pub file: MediaFile,
    pub filetype: MxEventFileType,
}

#[derive(Debug)]
pub struct MxAnimation {
    pub attrs: MxObAttrs,
}

#[derive(Clone, Copy, Debug)]
pub struct MxStlObject {
    pub flags: MediaFlags,
    pub unk6: u32,
}

#[derive(Clone, Copy, Debug)]
pub enum MxBitmapFileType {
    Stl(MxStlObject),
}

#[derive(Debug)]
pub struct MxBitmap {
    pub attrs: MxObAttrs,
    pub file: MediaFile,
    pub filetype: MxBitmapFileType,
}

#[derive(Clone, Copy, Debug)]
pub struct MxObjObject {
    pub unk5: u32,
    pub unk6: u32,
}

#[derive(Clone, Copy, Debug)]
pub enum MxObjectFileType {
    Obj(MxObjObject),
}

#[derive(Debug)]
pub struct MxObject {
    pub attrs: MxObAttrs,
    pub file: MediaFile,
    pub filetype: MxObjectFileType,
}

/// The object kinds, by their 16-bit discriminant in the file.
#[derive(Debug)]
pub enum MxObType {
    Video(MxVideo),
    Sound(MxSound),
    World(MxWorld),
    Presenter(MxPresenter),
    Event(MxEvent),
    Animation(MxAnimation),
    Bitmap(MxBitmap),
    Object(MxObject),
}

impl MxObType {
    pub open spec fn spec_attrs(&self) -> MxObAttrs {
        match self {
            MxObType::Video(x) => x.attrs,
            MxObType::Sound(x) => x.attrs,
            MxObType::World(x) => x.attrs,
            MxObType::Presenter(x) => x.attrs,
            MxObType::Event(x) => x.attrs,
            MxObType::Animation(x) => x.attrs,
            MxObType::Bitmap(x) => x.attrs,
            MxObType::Object(x) => x.attrs,
        }
    }

    pub fn attrs(&self) -> (r: &MxObAttrs)
        ensures
            *r == self.spec_attrs(),
    {
        match self {
            MxObType::Video(x) => &x.attrs,
            MxObType::Sound(x) => &x.attrs,
            MxObType::World(x) => &x.attrs,
            MxObType::Presenter(x) => &x.attrs,
            MxObType::Event(x) => &x.attrs,
            MxObType::Animation(x) => &x.attrs,
            MxObType::Bitmap(x) => &x.attrs,
            MxObType::Object(x) => &x.attrs,
        }
    }
}

/// An `MxOb` chunk: a header and one object.
#[derive(Debug)]
pub struct MxOb {
    pub header: RiffChunkHeader,
    pub obj: MxObType,
}

/// An `MxSt` chunk: a stream's object and the list of its data chunks.
#[derive(Debug)]
pub struct MxSt {
    pub header: RiffChunkHeader,
    pub obj: MxOb,
    pub list: List,
}

impl RiffChunk {
    /// The name bytes of the object that an `MxOb` chunk holds.
    pub open spec fn spec_name(&self) -> Option<Seq<u8>> {
        match self {
            RiffChunk::MxOb(x) => Some(x.obj.spec_attrs().name@),
            _ => None,
        }
    }
}

} // verus!
