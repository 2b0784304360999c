//! Values that the engine core and its host exchange.

use vstd::prelude::*;

use crate::float::Float32;

verus! {

/// Why a core or host operation failed.
#[derive(Debug, Clone, Copy, PartialEq, Eq, Structural)]
pub enum RfvpError {
    InvalidArgument,
    InvalidData,
    NotFound,
    Unsupported,
    EndOfFile,
    CapacityExceeded,
    Io,
    Backend,
}

#[derive(Debug, Clone, Copy, PartialEq, Eq, Structural)]
pub enum RfvpLogLevel {
    Error,
    Warn,
    Info,
    Debug,
    Trace,
}

#[derive(Debug, Clone, Copy, PartialEq, Eq, Structural)]
pub enum RfvpFileKind {
    File,
    Directory,
}

#[derive(Debug, Clone, Copy, PartialEq, Eq, Structural)]
pub struct RfvpFileInfo {
    pub len: u64,
    pub kind: RfvpFileKind,
}

impl RfvpFileInfo {
    /// A plain file of `len` bytes.
    pub fn file(len: u64) -> (r: Self)
        ensures
            r == (RfvpFileInfo { len, kind: RfvpFileKind::File }),
    {
        RfvpFileInfo { len, kind: RfvpFileKind::File }
    }
}

// -------------------------------------------------------------------- graphics

#[derive(Debug, Clone, Copy, PartialEq, Eq, Structural)]
pub struct TextureId(pub u32);

#[derive(Debug, Clone, Copy, PartialEq, Eq, Structural)]
pub enum PixelFormat {
    Rgba8,
    Bgra8,
    Rgb8,
    Luma8,
    LumaA8,
    Alpha8,
}

#[derive(Debug, Clone, Copy, PartialEq, Eq, Structural)]
pub struct TextureDesc {
    pub width: u32,
    pub height: u32,
    pub format: PixelFormat,
    pub mip_count: u32,
}

#[derive(Debug, Clone, Copy, PartialEq, Eq, Structural)]
pub struct TextureRect {
    pub x: u32,
    pub y: u32,
    pub width: u32,
    pub height: u32,
}

/// Pixels handed over with a texture.
#[derive(Debug)]
pub enum PixelBuffer<'a> {
    Borrowed(&'a [u8]),
    Owned(Vec<u8>),
}

impl<'a> PixelBuffer<'a> {
    pub open spec fn view(&self) -> Seq<u8> {
        match self {
            PixelBuffer::Borrowed(bytes) => bytes@,
            PixelBuffer::Owned(bytes) => bytes@,
        }
    }

    pub fn len(&self) -> (r: usize)
        ensures
            r == self@.len(),
    {
        match self {
            PixelBuffer::Borrowed(bytes) => bytes.len(),
            PixelBuffer::Owned(bytes) => bytes.len(),
        }
    }
}

#[derive(Debug, Clone, Copy, PartialEq, Eq, Structural)]
pub struct ColorRgba {
    pub r: Float32,
    pub g: Float32,
    pub b: Float32,
    pub a: Float32,
}

#[derive(Debug, Clone, Copy, PartialEq, Eq, Structural)]
pub struct RectI32 {
    pub x: i32,
    pub y: i32,
    pub width: i32,
    pub height: i32,
}

#[derive(Debug, Clone, Copy, PartialEq, Eq, Structural)]
pub enum BlendMode {
    Opaque,
    Alpha,
    Additive,
    Multiply,
}

/// A corner of a sprite: where it lies on the surface and in the texture.
#[derive(Debug, Clone, Copy, PartialEq, Eq, Structural)]
pub struct SpriteVertex {
    pub x: Float32,
    pub y: Float32,
    pub u: Float32,
    pub v: Float32,
}

#[derive(Debug, Clone, Copy, PartialEq, Eq, Structural)]
pub struct DrawSpriteCommand {
    pub texture: TextureId,
    pub top_left: SpriteVertex,
    pub top_right: SpriteVertex,
    pub bottom_left: SpriteVertex,
    pub bottom_right: SpriteVertex,
    pub color: ColorRgba,
    pub blend: BlendMode,
    pub scissor: Option<RectI32>,
}

#[derive(Debug, Clone, Copy, PartialEq, Eq, Structural)]
pub struct DrawSolidCommand {
    pub rect: RectI32,
    pub color: ColorRgba,
    pub blend: BlendMode,
    pub scissor: Option<RectI32>,
}

// ----------------------------------------------------------------------- audio

#[derive(Debug, Clone, Copy, PartialEq, Eq, Structural)]
pub struct AudioStreamId(pub u32);

#[derive(Debug, Clone, Copy, PartialEq, Eq, Structural)]
pub enum EncodedAudioKind {
    Unknown,
    Wav,
    Ogg,
    Mp3,
    Flac,
}

#[derive(Debug, Clone, Copy, PartialEq, Eq, Structural)]
pub enum AudioSampleFormat {
    I16,
    F32,
}

#[derive(Debug, Clone, Copy, PartialEq, Eq, Structural)]
pub struct AudioStreamDesc {
    pub sample_rate: u32,
    pub channels: u16,
    pub sample_format: AudioSampleFormat,
}

#[derive(Debug, Clone, Copy, PartialEq, Eq, Structural)]
pub struct AudioParams {
    pub volume: Float32,
    pub pan: Float32,
    pub repeat: bool,
}

// ---------------------------------------------------------------------- events

/// A key as the host names it.
#[derive(Debug, Clone, Copy, PartialEq, Eq, Structural)]
pub enum KeyCode {
    Escape,
    Return,
    Space,
    Tab,
    Left,
    Right,
    Up,
    Down,
    Shift,
    Control,
    Alt,
    Backspace,
    PageUp,
    PageDown,
    Home,
    End,
    Insert,
    Delete,
    Function(u8),
    Character(char),
    Unknown(u32),
}

#[derive(Debug, Clone, Copy, PartialEq, Eq, Structural)]
pub enum PointerButton {
    Left,
    Right,
    Middle,
}

/// Modifier keys held down with a key.
#[derive(Debug, Clone, Copy, PartialEq, Eq, Structural)]
pub struct InputModifiers {
    pub bits: u8,
}

impl InputModifiers {
    pub fn empty() -> (r: Self)
        ensures
            r.bits == 0,
    {
        InputModifiers { bits: 0 }
    }
}

#[derive(Debug, Clone, Copy, PartialEq, Eq, Structural)]
pub enum RfvpEvent {
    KeyDown { key: KeyCode, repeat: bool, modifiers: InputModifiers },
    KeyUp { key: KeyCode, modifiers: InputModifiers },
    PointerMove { x: i32, y: i32, in_screen: bool },
    PointerDown { button: PointerButton, x: i32, y: i32 },
    PointerUp { button: PointerButton, x: i32, y: i32 },
    Wheel { delta_x: i32, delta_y: i32 },
    Quit,
}

}
