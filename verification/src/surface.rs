//! The presentation tracker: which textures live, what the frame draws and
//! which part of the surface a frame damages.
//!
//! Damage is derived from the draw commands and from the identities of changed
//! textures. Pixels are neither kept nor read.

use vstd::prelude::*;

use crate::float::Float32;
use crate::host_api::{
    ColorRgba, DrawSolidCommand, DrawSpriteCommand, PixelBuffer, PixelFormat, RectI32, RfvpError,
    SpriteVertex, TextureDesc, TextureId, TextureRect,
};

verus! {

/// A rectangle of surface pixels.
#[derive(Debug, Clone, Copy, PartialEq, Eq, Structural)]
pub struct HostedDamageRect {
    pub x: u32,
    pub y: u32,
    pub width: u32,
    pub height: u32,
}

/// The part of the surface that a frame changes.
#[derive(Debug, Clone, Copy, PartialEq, Eq, Structural)]
pub enum HostedVisualDamage {
    Unchanged,
    Full,
    Rect(HostedDamageRect),
}

/// One step of a frame.
#[derive(Debug, Clone, Copy, PartialEq, Eq, Structural)]
pub enum DirectFrameCommand {
    BeginFrame { width: u32, height: u32, clear: Option<ColorRgba> },
    DrawSprite(DrawSpriteCommand),
    DrawSolid(DrawSolidCommand),
    EndFrame,
    Present,
}

// ------------------------------------------------------------ equal commands

pub open spec fn equal_colors(a: ColorRgba, b: ColorRgba) -> bool {
    &&& crate::float::equal_numbers(a.r, b.r)
    &&& crate::float::equal_numbers(a.g, b.g)
    &&& crate::float::equal_numbers(a.b, b.b)
    &&& crate::float::equal_numbers(a.a, b.a)
}

pub open spec fn equal_clears(a: Option<ColorRgba>, b: Option<ColorRgba>) -> bool {
    match (a, b) {
        (Some(x), Some(y)) => equal_colors(x, y),
        (None, None) => true,
        _ => false,
    }
}

pub open spec fn equal_vertices(a: SpriteVertex, b: SpriteVertex) -> bool {
    &&& crate::float::equal_numbers(a.x, b.x)
    &&& crate::float::equal_numbers(a.y, b.y)
    &&& crate::float::equal_numbers(a.u, b.u)
    &&& crate::float::equal_numbers(a.v, b.v)
}

pub open spec fn equal_sprites(a: DrawSpriteCommand, b: DrawSpriteCommand) -> bool {
    &&& a.texture == b.texture
    &&& equal_vertices(a.top_left, b.top_left)
    &&& equal_vertices(a.top_right, b.top_right)
    &&& equal_vertices(a.bottom_left, b.bottom_left)
    &&& equal_vertices(a.bottom_right, b.bottom_right)
    &&& equal_colors(a.color, b.color)
    &&& a.blend == b.blend
    &&& a.scissor == b.scissor
}

pub open spec fn equal_solids(a: DrawSolidCommand, b: DrawSolidCommand) -> bool {
    &&& a.rect == b.rect
    &&& equal_colors(a.color, b.color)
    &&& a.blend == b.blend
    &&& a.scissor == b.scissor
}

/// Whether two commands draw the same. A command that holds a number which is
/// not a number draws the same as no command.
pub open spec fn equal_commands(a: DirectFrameCommand, b: DirectFrameCommand) -> bool {
    match (a, b) {
        (
            DirectFrameCommand::BeginFrame { width: w, height: h, clear: c },
            DirectFrameCommand::BeginFrame { width: x, height: y, clear: d },
        ) => w == x && h == y && equal_clears(c, d),
        (DirectFrameCommand::DrawSprite(x), DirectFrameCommand::DrawSprite(y)) => equal_sprites(x, y),
        (DirectFrameCommand::DrawSolid(x), DirectFrameCommand::DrawSolid(y)) => equal_solids(x, y),
        (DirectFrameCommand::EndFrame, DirectFrameCommand::EndFrame) => true,
        (DirectFrameCommand::Present, DirectFrameCommand::Present) => true,
        _ => false,
    }
}

pub open spec fn equal_frames(a: Seq<DirectFrameCommand>, b: Seq<DirectFrameCommand>) -> bool {
    &&& a.len() == b.len()
    &&& forall|i: int| 0 <= i < a.len() ==> equal_commands(#[trigger] a[i], b[i])
}

fn same_color(a: ColorRgba, b: ColorRgba) -> (r: bool)
    ensures
        r == equal_colors(a, b),
{
    crate::float::same_number(a.r, b.r) && crate::float::same_number(a.g, b.g)
        && crate::float::same_number(a.b, b.b) && crate::float::same_number(a.a, b.a)
}

fn same_clear(a: Option<ColorRgba>, b: Option<ColorRgba>) -> (r: bool)
    ensures
        r == equal_clears(a, b),
{
    match (a, b) {
        (Some(x), Some(y)) => same_color(x, y),
        (None, None) => true,
        _ => false,
    }
}

fn same_vertex(a: SpriteVertex, b: SpriteVertex) -> (r: bool)
    ensures
        r == equal_vertices(a, b),
{
    crate::float::same_number(a.x, b.x) && crate::float::same_number(a.y, b.y)
        && crate::float::same_number(a.u, b.u) && crate::float::same_number(a.v, b.v)
}

fn same_rect(a: Option<RectI32>, b: Option<RectI32>) -> (r: bool)
    ensures
        r == (a == b),
{
    match (a, b) {
        (Some(x), Some(y)) => x == y,
        (None, None) => true,
        _ => false,
    }
}

fn same_command(a: DirectFrameCommand, b: DirectFrameCommand) -> (r: bool)
    ensures
        r == equal_commands(a, b),
{
    match (a, b) {
        (
            DirectFrameCommand::BeginFrame { width: w, height: h, clear: c },
            DirectFrameCommand::BeginFrame { width: x, height: y, clear: d },
        ) => w == x && h == y && same_clear(c, d),
        (DirectFrameCommand::DrawSprite(x), DirectFrameCommand::DrawSprite(y)) => x.texture
            == y.texture && same_vertex(x.top_left, y.top_left) && same_vertex(
            x.top_right,
            y.top_right,
        ) && same_vertex(x.bottom_left, y.bottom_left) && same_vertex(
            x.bottom_right,
            y.bottom_right,
        ) && same_color(x.color, y.color) && x.blend == y.blend && same_rect(x.scissor, y.scissor),
        (DirectFrameCommand::DrawSolid(x), DirectFrameCommand::DrawSolid(y)) => x.rect == y.rect
            && same_color(x.color, y.color) && x.blend == y.blend && same_rect(
            x.scissor,
            y.scissor,
        ),
        (DirectFrameCommand::EndFrame, DirectFrameCommand::EndFrame) => true,
        (DirectFrameCommand::Present, DirectFrameCommand::Present) => true,
        _ => false,
    }
}

fn same_frame(a: &Vec<DirectFrameCommand>, b: &Vec<DirectFrameCommand>) -> (r: bool)
    ensures
        r == equal_frames(a@, b@),
{
    if a.len() != b.len() {
        return false;
    }
    let mut i: usize = 0;
    while i < a.len()
        invariant
            i <= a@.len() == b@.len(),
            forall|j: int| 0 <= j < i ==> equal_commands(#[trigger] a@[j], b@[j]),
        decreases a@.len() - i,
    {
        if !same_command(a[i], b[i]) {
            assert(!equal_commands(a@[i as int], b@[i as int]));
            return false;
        }
        i = i + 1;
    }
    true
}

// ------------------------------------------------------------ drawn rectangles

pub open spec fn least(a: int, b: int) -> int {
    if a < b {
        a
    } else {
        b
    }
}

pub open spec fn greatest(a: int, b: int) -> int {
    if a < b {
        b
    } else {
        a
    }
}

/// `x` moved into `lo..=hi`.
pub open spec fn clamped(x: int, lo: int, hi: int) -> int {
    if x < lo {
        lo
    } else if x > hi {
        hi
    } else {
        x
    }
}

/// The pixels from `left` to `right` and from `top` to `bottom`, cut to the
/// scissor and to the surface; `None` when nothing is left.
pub open spec fn clipped(
    left: int,
    top: int,
    right: int,
    bottom: int,
    scissor: Option<RectI32>,
    width: u32,
    height: u32,
) -> Option<HostedDamageRect> {
    let (l, t, r, b) = match scissor {
        Some(clip) => (
            greatest(left, clip.x as int),
            greatest(top, clip.y as int),
            least(right, clip.x + clip.width),
            least(bottom, clip.y + clip.height),
        ),
        None => (left, top, right, bottom),
    };
    let x0 = clamped(l, 0, width as int);
    let y0 = clamped(t, 0, height as int);
    let x1 = clamped(r, 0, width as int);
    let y1 = clamped(b, 0, height as int);
    if x1 <= x0 || y1 <= y0 {
        None
    } else {
        Some(
            HostedDamageRect {
                x: x0 as u32,
                y: y0 as u32,
                width: (x1 - x0) as u32,
                height: (y1 - y0) as u32,
            },
        )
    }
}

pub open spec fn vertex_finite(v: SpriteVertex) -> bool {
    v.x.finite() && v.y.finite()
}

/// The sum of two 32-bit integers, kept inside the 32-bit range.
pub open spec fn saturated_sum(a: i32, b: i32) -> i32 {
    clamped(a + b, i32::MIN as int, i32::MAX as int) as i32
}

pub open spec fn least_of(a: int, b: int, c: int, d: int) -> int {
    least(least(a, b), least(c, d))
}

pub open spec fn greatest_of(a: int, b: int, c: int, d: int) -> int {
    greatest(greatest(a, b), greatest(c, d))
}

/// The pixels that a command may draw on a surface of the given size. A sprite
/// with a coordinate that is not finite may draw everywhere.
pub open spec fn bounds_of(command: DirectFrameCommand, width: u32, height: u32) -> Option<
    HostedDamageRect,
> {
    match command {
        DirectFrameCommand::DrawSprite(s) => {
            if !(vertex_finite(s.top_left) && vertex_finite(s.top_right) && vertex_finite(
                s.bottom_left,
            ) && vertex_finite(s.bottom_right)) {
                Some(HostedDamageRect { x: 0, y: 0, width, height })
            } else {
                clipped(
                    least_of(
                        s.top_left.x.floor_or_zero(),
                        s.top_right.x.floor_or_zero(),
                        s.bottom_left.x.floor_or_zero(),
                        s.bottom_right.x.floor_or_zero(),
                    ),
                    least_of(
                        s.top_left.y.floor_or_zero(),
                        s.top_right.y.floor_or_zero(),
                        s.bottom_left.y.floor_or_zero(),
                        s.bottom_right.y.floor_or_zero(),
                    ),
                    greatest_of(
                        s.top_left.x.ceil_or_zero(),
                        s.top_right.x.ceil_or_zero(),
                        s.bottom_left.x.ceil_or_zero(),
                        s.bottom_right.x.ceil_or_zero(),
                    ),
                    greatest_of(
                        s.top_left.y.ceil_or_zero(),
                        s.top_right.y.ceil_or_zero(),
                        s.bottom_left.y.ceil_or_zero(),
                        s.bottom_right.y.ceil_or_zero(),
                    ),
                    s.scissor,
                    width,
                    height,
                )
            }
        },
        DirectFrameCommand::DrawSolid(s) => clipped(
            crate::float::rounded_or_zero(s.rect.x),
            crate::float::rounded_or_zero(s.rect.y),
            crate::float::rounded_or_zero(saturated_sum(s.rect.x, s.rect.width)),
            crate::float::rounded_or_zero(saturated_sum(s.rect.y, s.rect.height)),
            s.scissor,
            width,
            height,
        ),
        _ => None,
    }
}

fn min_i64(a: i64, b: i64) -> (r: i64)
    ensures
        r == least(a as int, b as int),
{
    if a < b {
        a
    } else {
        b
    }
}

fn max_i64(a: i64, b: i64) -> (r: i64)
    ensures
        r == greatest(a as int, b as int),
{
    if a < b {
        b
    } else {
        a
    }
}

fn clamp_to(x: i64, hi: u32) -> (r: u32)
    ensures
        r == clamped(x as int, 0, hi as int),
{
    if x < 0 {
        0
    } else if x > hi as i64 {
        hi
    } else {
        x as u32
    }
}

fn clip(
    left: i64,
    top: i64,
    right: i64,
    bottom: i64,
    scissor: Option<RectI32>,
    width: u32,
    height: u32,
) -> (r: Option<HostedDamageRect>)
    ensures
        r == clipped(
            left as int,
            top as int,
            right as int,
            bottom as int,
            scissor,
            width,
            height,
        ),
{
    let mut l: i64 = left;
    let mut t: i64 = top;
    let mut r: i64 = right;
    let mut b: i64 = bottom;
    match scissor {
        Some(clip) => {
            l = max_i64(l, clip.x as i64);
            t = max_i64(t, clip.y as i64);
            r = min_i64(r, clip.x as i64 + clip.width as i64);
            b = min_i64(b, clip.y as i64 + clip.height as i64);
        },
        None => {},
    }
    let x0: u32 = clamp_to(l, width);
    let y0: u32 = clamp_to(t, height);
    let x1: u32 = clamp_to(r, width);
    let y1: u32 = clamp_to(b, height);
    if x1 <= x0 || y1 <= y0 {
        return None;
    }
    Some(HostedDamageRect { x: x0, y: y0, width: x1 - x0, height: y1 - y0 })
}

fn add_saturating(a: i32, b: i32) -> (r: i32)
    ensures
        r == saturated_sum(a, b),
{
    let sum: i64 = a as i64 + b as i64;
    if sum < i32::MIN as i64 {
        i32::MIN
    } else if sum > i32::MAX as i64 {
        i32::MAX
    } else {
        sum as i32
    }
}

fn is_vertex_finite(v: SpriteVertex) -> (r: bool)
    ensures
        r == vertex_finite(v),
{
    v.x.is_finite() && v.y.is_finite()
}

/// The least of four floors.
fn min_floor(a: Float32, b: Float32, c: Float32, d: Float32) -> (r: i64)
    requires
        a.finite(),
        b.finite(),
        c.finite(),
        d.finite(),
    ensures
        r == least_of(a.floor_or_zero(), b.floor_or_zero(), c.floor_or_zero(), d.floor_or_zero()),
{
    min_i64(
        min_i64(a.floor_to_i64(), b.floor_to_i64()),
        min_i64(c.floor_to_i64(), d.floor_to_i64()),
    )
}

/// The greatest of four ceilings.
fn max_ceil(a: Float32, b: Float32, c: Float32, d: Float32) -> (r: i64)
    requires
        a.finite(),
        b.finite(),
        c.finite(),
        d.finite(),
    ensures
        r == greatest_of(a.ceil_or_zero(), b.ceil_or_zero(), c.ceil_or_zero(), d.ceil_or_zero()),
{
    max_i64(
        max_i64(a.ceil_to_i64(), b.ceil_to_i64()),
        max_i64(c.ceil_to_i64(), d.ceil_to_i64()),
    )
}

/// The pixels that a command may draw.
pub fn command_bounds(command: &DirectFrameCommand, width: u32, height: u32) -> (r: Option<
    HostedDamageRect,
>)
    ensures
        r == bounds_of(*command, width, height),
{
    match *command {
        DirectFrameCommand::DrawSprite(s) => {
            if !(is_vertex_finite(s.top_left) && is_vertex_finite(s.top_right) && is_vertex_finite(
                s.bottom_left,
            ) && is_vertex_finite(s.bottom_right)) {
                return Some(HostedDamageRect { x: 0, y: 0, width, height });
            }
            clip(
                min_floor(s.top_left.x, s.top_right.x, s.bottom_left.x, s.bottom_right.x),
                min_floor(s.top_left.y, s.top_right.y, s.bottom_left.y, s.bottom_right.y),
                max_ceil(s.top_left.x, s.top_right.x, s.bottom_left.x, s.bottom_right.x),
                max_ceil(s.top_left.y, s.top_right.y, s.bottom_left.y, s.bottom_right.y),
                s.scissor,
                width,
                height,
            )
        },
        DirectFrameCommand::DrawSolid(s) => clip(
            crate::float::round_to_float(s.rect.x),
            crate::float::round_to_float(s.rect.y),
            crate::float::round_to_float(add_saturating(s.rect.x, s.rect.width)),
            crate::float::round_to_float(add_saturating(s.rect.y, s.rect.height)),
            s.scissor,
            width,
            height,
        ),
        _ => None,
    }
}

pub open spec fn sum_u32(a: u32, b: u32) -> int {
    least(a + b, u32::MAX as int)
}

/// The smallest rectangle around two rectangles.
pub open spec fn joined(current: Option<HostedDamageRect>, next: HostedDamageRect) -> HostedDamageRect {
    match current {
        None => next,
        Some(c) => {
            let left = least(c.x as int, next.x as int);
            let top = least(c.y as int, next.y as int);
            let right = greatest(sum_u32(c.x, c.width), sum_u32(next.x, next.width));
            let bottom = greatest(sum_u32(c.y, c.height), sum_u32(next.y, next.height));
            HostedDamageRect {
                x: left as u32,
                y: top as u32,
                width: (right - left) as u32,
                height: (bottom - top) as u32,
            }
        },
    }
}

fn min_u32(a: u32, b: u32) -> (r: u32)
    ensures
        r == least(a as int, b as int),
{
    if a < b {
        a
    } else {
        b
    }
}

fn max_u32(a: u32, b: u32) -> (r: u32)
    ensures
        r == greatest(a as int, b as int),
{
    if a < b {
        b
    } else {
        a
    }
}

/// The smallest rectangle around two rectangles.
pub fn union_rect(current: Option<HostedDamageRect>, next: HostedDamageRect) -> (r: HostedDamageRect)
    ensures
        r == joined(current, next),
{
    match current {
        None => next,
        Some(c) => {
            let left: u32 = min_u32(c.x, next.x);
            let top: u32 = min_u32(c.y, next.y);
            let right: u32 = max_u32(
                c.x.saturating_add(c.width),
                next.x.saturating_add(next.width),
            );
            let bottom: u32 = max_u32(
                c.y.saturating_add(c.height),
                next.y.saturating_add(next.height),
            );
            HostedDamageRect {
                x: left,
                y: top,
                width: right.saturating_sub(left),
                height: bottom.saturating_sub(top),
            }
        },
    }
}

// --------------------------------------------------------------- frame damage

/// Size and clear color of a frame: those of its first begin command.
pub open spec fn header_from(frame: Seq<DirectFrameCommand>, i: int) -> Option<
    (u32, u32, Option<ColorRgba>),
>
    decreases frame.len() - i,
{
    if i >= frame.len() {
        None
    } else {
        match frame[i] {
            DirectFrameCommand::BeginFrame { width, height, clear } => Some((width, height, clear)),
            _ => header_from(frame, i + 1),
        }
    }
}

pub open spec fn frame_header(frame: Seq<DirectFrameCommand>) -> Option<(u32, u32, Option<ColorRgba>)> {
    header_from(frame, 0)
}

/// Where the common start of two frames ends, searched from `i` on.
pub open spec fn common_start(a: Seq<DirectFrameCommand>, b: Seq<DirectFrameCommand>, i: int) -> int
    decreases a.len() - i,
{
    if i < a.len() && i < b.len() && equal_commands(a[i], b[i]) {
        common_start(a, b, i + 1)
    } else {
        i
    }
}

/// How many commands at the end of two frames agree without reaching into their
/// common start, searched from `n` on.
pub open spec fn common_end(
    a: Seq<DirectFrameCommand>,
    b: Seq<DirectFrameCommand>,
    start: int,
    n: int,
) -> int
    decreases a.len() - start - n,
{
    if n < a.len() - start && n < b.len() - start && equal_commands(
        a[a.len() - 1 - n],
        b[b.len() - 1 - n],
    ) {
        common_end(a, b, start, n + 1)
    } else {
        n
    }
}

pub open spec fn uses_texture(command: DirectFrameCommand, changed: Seq<TextureId>) -> bool {
    match command {
        DirectFrameCommand::DrawSprite(s) => changed.contains(s.texture),
        _ => false,
    }
}

pub open spec fn grown(
    bounds: Option<HostedDamageRect>,
    command: DirectFrameCommand,
    width: u32,
    height: u32,
) -> Option<HostedDamageRect> {
    match bounds_of(command, width, height) {
        None => bounds,
        Some(rect) => Some(joined(bounds, rect)),
    }
}

/// `bounds` grown by the commands `from..to` of a frame.
pub open spec fn grown_by(
    bounds: Option<HostedDamageRect>,
    frame: Seq<DirectFrameCommand>,
    from: int,
    to: int,
    width: u32,
    height: u32,
) -> Option<HostedDamageRect>
    decreases to - from,
{
    if from >= to {
        bounds
    } else {
        grown_by(grown(bounds, frame[from], width, height), frame, from + 1, to, width, height)
    }
}

/// `bounds` grown by those commands from `from` on that draw a changed texture.
pub open spec fn grown_by_textures(
    bounds: Option<HostedDamageRect>,
    frame: Seq<DirectFrameCommand>,
    from: int,
    changed: Seq<TextureId>,
    width: u32,
    height: u32,
) -> Option<HostedDamageRect>
    decreases frame.len() - from,
{
    if from >= frame.len() {
        bounds
    } else {
        grown_by_textures(
            if uses_texture(frame[from], changed) {
                grown(bounds, frame[from], width, height)
            } else {
                bounds
            },
            frame,
            from + 1,
            changed,
            width,
            height,
        )
    }
}

/// The rectangle around all that differs between two frames of one size.
pub open spec fn changed_bounds(
    previous: Seq<DirectFrameCommand>,
    current: Seq<DirectFrameCommand>,
    changed: Seq<TextureId>,
    width: u32,
    height: u32,
) -> Option<HostedDamageRect> {
    let start = common_start(previous, current, 0);
    let end = common_end(previous, current, start, 0);
    let a = grown_by(None, previous, start, previous.len() - end, width, height);
    let b = grown_by(a, current, start, current.len() - end, width, height);
    let c = grown_by_textures(b, previous, 0, changed, width, height);
    grown_by_textures(c, current, 0, changed, width, height)
}

/// The damage of a frame that follows `previous` when the textures `changed` have
/// new content.
pub open spec fn damage_of(
    previous: Seq<DirectFrameCommand>,
    current: Seq<DirectFrameCommand>,
    changed: Seq<TextureId>,
) -> HostedVisualDamage {
    match (frame_header(current), frame_header(previous)) {
        (Some(now), Some(before)) => {
            if now.0 != before.0 || now.1 != before.1 || !equal_clears(now.2, before.2) {
                HostedVisualDamage::Full
            } else {
                match changed_bounds(previous, current, changed, now.0, now.1) {
                    None => HostedVisualDamage::Unchanged,
                    Some(rect) => if rect == (HostedDamageRect {
                        x: 0,
                        y: 0,
                        width: now.0,
                        height: now.1,
                    }) {
                        HostedVisualDamage::Full
                    } else {
                        HostedVisualDamage::Rect(rect)
                    },
                }
            }
        },
        _ => HostedVisualDamage::Full,
    }
}

pub fn direct_frame_header(frame: &Vec<DirectFrameCommand>) -> (r: Option<
    (u32, u32, Option<ColorRgba>),
>)
    ensures
        r == frame_header(frame@),
{
    let mut i: usize = 0;
    while i < frame.len()
        invariant
            i <= frame@.len(),
            frame_header(frame@) == header_from(frame@, i as int),
        decreases frame@.len() - i,
    {
        match frame[i] {
            DirectFrameCommand::BeginFrame { width, height, clear } => {
                return Some((width, height, clear));
            },
            _ => {},
        }
        i = i + 1;
    }
    None
}

fn contains_texture(ids: &Vec<TextureId>, id: TextureId) -> (r: bool)
    ensures
        r == ids@.contains(id),
{
    let mut i: usize = 0;
    while i < ids.len()
        invariant
            i <= ids@.len(),
            forall|j: int| 0 <= j < i ==> ids@[j] != id,
        decreases ids@.len() - i,
    {
        if ids[i] == id {
            assert(ids@[i as int] == id);
            return true;
        }
        i = i + 1;
    }
    false
}

/// The texture that a command draws.
pub fn command_texture(command: &DirectFrameCommand) -> (r: Option<TextureId>)
    ensures
        match *command {
            DirectFrameCommand::DrawSprite(s) => r == Some(s.texture),
            _ => r is None,
        },
{
    match command {
        DirectFrameCommand::DrawSprite(s) => Some(s.texture),
        _ => None,
    }
}

fn grow(bounds: Option<HostedDamageRect>, command: &DirectFrameCommand, width: u32, height: u32) -> (r:
    Option<HostedDamageRect>)
    ensures
        r == grown(bounds, *command, width, height),
{
    match command_bounds(command, width, height) {
        None => bounds,
        Some(rect) => Some(union_rect(bounds, rect)),
    }
}

fn grow_by(
    bounds: Option<HostedDamageRect>,
    frame: &Vec<DirectFrameCommand>,
    from: usize,
    to: usize,
    width: u32,
    height: u32,
) -> (r: Option<HostedDamageRect>)
    requires
        from <= to <= frame@.len(),
    ensures
        r == grown_by(bounds, frame@, from as int, to as int, width, height),
{
    let mut acc = bounds;
    let mut i: usize = from;
    while i < to
        invariant
            from <= i <= to <= frame@.len(),
            grown_by(bounds, frame@, from as int, to as int, width, height) == grown_by(
                acc,
                frame@,
                i as int,
                to as int,
                width,
                height,
            ),
        decreases to - i,
    {
        acc = grow(acc, &frame[i], width, height);
        i = i + 1;
    }
    acc
}

fn grow_by_textures(
    bounds: Option<HostedDamageRect>,
    frame: &Vec<DirectFrameCommand>,
    changed: &Vec<TextureId>,
    width: u32,
    height: u32,
) -> (r: Option<HostedDamageRect>)
    ensures
        r == grown_by_textures(bounds, frame@, 0, changed@, width, height),
{
    let mut acc = bounds;
    let mut i: usize = 0;
    while i < frame.len()
        invariant
            i <= frame@.len(),
            grown_by_textures(bounds, frame@, 0, changed@, width, height) == grown_by_textures(
                acc,
                frame@,
                i as int,
                changed@,
                width,
                height,
            ),
        decreases frame@.len() - i,
    {
        let touched = match command_texture(&frame[i]) {
            Some(id) => contains_texture(changed, id),
            None => false,
        };
        if touched {
            acc = grow(acc, &frame[i], width, height);
        }
        i = i + 1;
    }
    acc
}

/// The damage of the frame `current` that follows `previous`, when the textures
/// `changed_resources` have new content.
pub fn direct_frame_damage(
    previous: &Vec<DirectFrameCommand>,
    current: &Vec<DirectFrameCommand>,
    changed_resources: &Vec<TextureId>,
) -> (r: HostedVisualDamage)
    ensures
        r == damage_of(previous@, current@, changed_resources@),
{
    let (width, height, clear): (u32, u32, Option<ColorRgba>) = match direct_frame_header(current) {
        Some(v) => v,
        None => return HostedVisualDamage::Full,
    };
    let (old_width, old_height, old_clear): (u32, u32, Option<ColorRgba>) = match direct_frame_header(
        previous,
    ) {
        Some(v) => v,
        None => return HostedVisualDamage::Full,
    };
    if width != old_width || height != old_height || !same_clear(clear, old_clear) {
        return HostedVisualDamage::Full;
    }
    let mut prefix: usize = 0;
    while prefix < previous.len() && prefix < current.len() && same_command(
        previous[prefix],
        current[prefix],
    )
        invariant
            prefix <= previous@.len(),
            prefix <= current@.len(),
            common_start(previous@, current@, 0) == common_start(
                previous@,
                current@,
                prefix as int,
            ),
        decreases previous@.len() - prefix,
    {
        prefix = prefix + 1;
    }
    let mut previous_suffix: usize = previous.len();
    let mut current_suffix: usize = current.len();
    while previous_suffix > prefix && current_suffix > prefix && same_command(
        previous[previous_suffix - 1],
        current[current_suffix - 1],
    )
        invariant
            prefix <= previous_suffix <= previous@.len(),
            prefix <= current_suffix <= current@.len(),
            previous@.len() - previous_suffix == current@.len() - current_suffix,
            common_end(previous@, current@, prefix as int, 0) == common_end(
                previous@,
                current@,
                prefix as int,
                previous@.len() - previous_suffix,
            ),
        decreases previous_suffix,
    {
        previous_suffix = previous_suffix - 1;
        current_suffix = current_suffix - 1;
    }
    assert(prefix == common_start(previous@, current@, 0));
    assert(previous@.len() - previous_suffix == common_end(previous@, current@, prefix as int, 0));
    let a = grow_by(None, previous, prefix, previous_suffix, width, height);
    let b = grow_by(a, current, prefix, current_suffix, width, height);
    let c = grow_by_textures(b, previous, changed_resources, width, height);
    let d = grow_by_textures(c, current, changed_resources, width, height);
    match d {
        None => HostedVisualDamage::Unchanged,
        Some(rect) => if rect.x == 0 && rect.y == 0 && rect.width == width && rect.height == height {
            HostedVisualDamage::Full
        } else {
            HostedVisualDamage::Rect(rect)
        },
    }
}

// ----------------------------------------------------------------- the tracker

pub open spec fn desc_valid(desc: TextureDesc) -> bool {
    desc.width != 0 && desc.height != 0 && desc.mip_count != 0
}

pub open spec fn pixel_bytes(format: PixelFormat) -> int {
    match format {
        PixelFormat::Rgba8 => 4,
        PixelFormat::Bgra8 => 4,
        PixelFormat::Rgb8 => 3,
        PixelFormat::LumaA8 => 2,
        PixelFormat::Luma8 => 1,
        PixelFormat::Alpha8 => 1,
    }
}

/// What is wrong with `bytes` bytes of pixels for a region, if anything is.
pub open spec fn pixels_fault(width: u32, height: u32, format: PixelFormat, bytes: int) -> Option<
    RfvpError,
> {
    if width * height > usize::MAX || width * height * pixel_bytes(format) > usize::MAX {
        Some(RfvpError::CapacityExceeded)
    } else if bytes != width * height * pixel_bytes(format) {
        Some(RfvpError::InvalidData)
    } else {
        None
    }
}

pub fn validate_texture_desc(desc: TextureDesc) -> (r: Result<(), RfvpError>)
    ensures
        desc_valid(desc) ==> r is Ok,
        !desc_valid(desc) ==> r == Err::<(), RfvpError>(RfvpError::InvalidArgument),
{
    if desc.width == 0 || desc.height == 0 || desc.mip_count == 0 {
        Err(RfvpError::InvalidArgument)
    } else {
        Ok(())
    }
}

pub fn texture_bytes_per_pixel(format: PixelFormat) -> (r: usize)
    ensures
        r == pixel_bytes(format),
        1 <= r <= 4,
{
    match format {
        PixelFormat::Rgba8 => 4,
        PixelFormat::Bgra8 => 4,
        PixelFormat::Rgb8 => 3,
        PixelFormat::LumaA8 => 2,
        PixelFormat::Luma8 => 1,
        PixelFormat::Alpha8 => 1,
    }
}

pub fn validate_texture_pixels(desc: TextureDesc, bytes: usize) -> (r: Result<(), RfvpError>)
    ensures
        match r {
            Ok(_) => pixels_fault(desc.width, desc.height, desc.format, bytes as int) is None,
            Err(e) => pixels_fault(desc.width, desc.height, desc.format, bytes as int) == Some(e),
        },
{
    let pixels: usize = match (desc.width as usize).checked_mul(desc.height as usize) {
        Some(v) => v,
        None => return Err(RfvpError::CapacityExceeded),
    };
    match pixels.checked_mul(texture_bytes_per_pixel(desc.format)) {
        None => Err(RfvpError::CapacityExceeded),
        Some(expected) => if bytes != expected {
            Err(RfvpError::InvalidData)
        } else {
            Ok(())
        },
    }
}

pub fn validate_texture_region(desc: TextureDesc, rect: TextureRect, bytes: usize) -> (r: Result<
    (),
    RfvpError,
>)
    ensures
        match r {
            Ok(_) => pixels_fault(rect.width, rect.height, desc.format, bytes as int) is None,
            Err(e) => pixels_fault(rect.width, rect.height, desc.format, bytes as int) == Some(e),
        },
{
    validate_texture_pixels(
        TextureDesc { width: rect.width, height: rect.height, format: desc.format, mip_count: 1 },
        bytes,
    )
}

/// `ids` with `id` in it: appended if it was not there.
pub open spec fn remembered(ids: Seq<TextureId>, id: TextureId) -> Seq<TextureId> {
    if ids.contains(id) {
        ids
    } else {
        ids.push(id)
    }
}

/// Adds `id` to the changed textures.
pub fn remember_texture(changed: &mut Vec<TextureId>, id: TextureId)
    ensures
        final(changed)@ == remembered(old(changed)@, id),
{
    if !contains_texture(changed, id) {
        changed.push(id);
    }
}

/// Where the texture `id` is, if it is known.
pub open spec fn texture_index(textures: Seq<(TextureId, TextureDesc)>, id: TextureId, from: int) -> Option<
    int,
>
    decreases textures.len() - from,
{
    if from >= textures.len() {
        None
    } else if textures[from].0 == id {
        Some(from)
    } else {
        texture_index(textures, id, from + 1)
    }
}

/// The textures without `id`.
pub open spec fn without(textures: Seq<(TextureId, TextureDesc)>, id: TextureId) -> Seq<
    (TextureId, TextureDesc),
>
    decreases textures.len(),
{
    if textures.len() == 0 {
        Seq::empty()
    } else if textures.last().0 == id {
        without(textures.drop_last(), id)
    } else {
        without(textures.drop_last(), id).push(textures.last())
    }
}

/// What the tracker retains of the presentation.
#[derive(Debug)]
pub struct DirectSurfaceTracker {
    pub textures: Vec<(TextureId, TextureDesc)>,
    pub failure: Option<RfvpError>,
    pub direct_frame: Vec<DirectFrameCommand>,
    pub previous_direct_frame: Vec<DirectFrameCommand>,
    pub direct_resource_changed: bool,
    pub direct_changed_resources: Vec<TextureId>,
    pub visual_changed: bool,
    pub visual_damage: HostedVisualDamage,
}

/// The contents of a tracker.
#[verifier::ext_equal]
pub struct TrackerView {
    pub textures: Seq<(TextureId, TextureDesc)>,
    pub failure: Option<RfvpError>,
    pub frame: Seq<DirectFrameCommand>,
    pub previous: Seq<DirectFrameCommand>,
    pub resource_changed: bool,
    pub changed: Seq<TextureId>,
    pub visual_changed: bool,
    pub visual_damage: HostedVisualDamage,
}

/// A tracker that has seen nothing: its first frame is new as a whole.
pub open spec fn fresh_tracker() -> TrackerView {
    TrackerView {
        textures: Seq::empty(),
        failure: None,
        frame: Seq::empty(),
        previous: Seq::empty(),
        resource_changed: true,
        changed: Seq::empty(),
        visual_changed: true,
        visual_damage: HostedVisualDamage::Full,
    }
}

impl TrackerView {
    /// The tracker after the texture `id` got new content.
    pub open spec fn touched(self, id: TextureId) -> TrackerView {
        TrackerView { resource_changed: true, changed: remembered(self.changed, id), ..self }
    }

    pub open spec fn created(self, id: TextureId, desc: TextureDesc) -> TrackerView {
        let textures = match texture_index(self.textures, id, 0) {
            Some(i) => self.textures.update(i, (id, desc)),
            None => self.textures.push((id, desc)),
        };
        TrackerView { textures, ..self }.touched(id)
    }

    /// What is wrong with a new texture, if anything is.
    pub open spec fn create_fault(self, desc: TextureDesc, pixels: Option<int>) -> Option<RfvpError> {
        if self.failure is Some {
            self.failure
        } else if !desc_valid(desc) {
            Some(RfvpError::InvalidArgument)
        } else {
            match pixels {
                Some(len) => pixels_fault(desc.width, desc.height, desc.format, len),
                None => None,
            }
        }
    }

    /// What is wrong with an update of a region, if anything is.
    pub open spec fn update_fault(self, id: TextureId, rect: TextureRect, pixels: int) -> Option<
        RfvpError,
    > {
        if self.failure is Some {
            self.failure
        } else {
            match texture_index(self.textures, id, 0) {
                None => Some(RfvpError::NotFound),
                Some(i) => {
                    let desc = self.textures[i].1;
                    if rect.width == 0 || rect.height == 0 {
                        Some(RfvpError::InvalidArgument)
                    } else if rect.x + rect.width > u32::MAX {
                        Some(RfvpError::CapacityExceeded)
                    } else if rect.x + rect.width > desc.width {
                        Some(RfvpError::InvalidArgument)
                    } else if rect.y + rect.height > u32::MAX {
                        Some(RfvpError::CapacityExceeded)
                    } else if rect.y + rect.height > desc.height {
                        Some(RfvpError::InvalidArgument)
                    } else {
                        pixels_fault(rect.width, rect.height, desc.format, pixels)
                    }
                },
            }
        }
    }

    pub open spec fn destroyed(self, id: TextureId) -> TrackerView {
        if self.failure is Some {
            self
        } else if texture_index(self.textures, id, 0) is None {
            TrackerView { failure: Some(RfvpError::NotFound), ..self }
        } else {
            TrackerView { textures: without(self.textures, id), ..self }.touched(id)
        }
    }

    pub open spec fn pushed(self, command: DirectFrameCommand) -> TrackerView {
        TrackerView { frame: self.frame.push(command), ..self }
    }

    /// The tracker after its frame was presented: the damage is fixed, the frame
    /// becomes the previous one and nothing is changed any more.
    pub open spec fn presented(self) -> TrackerView {
        TrackerView {
            frame: Seq::empty(),
            previous: self.frame,
            resource_changed: false,
            changed: Seq::empty(),
            visual_changed: self.resource_changed || !equal_frames(self.frame, self.previous),
            visual_damage: damage_of(self.previous, self.frame, self.changed),
            ..self
        }
    }
}

impl DirectSurfaceTracker {
    pub open spec fn view(&self) -> TrackerView {
        TrackerView {
            textures: self.textures@,
            failure: self.failure,
            frame: self.direct_frame@,
            previous: self.previous_direct_frame@,
            resource_changed: self.direct_resource_changed,
            changed: self.direct_changed_resources@,
            visual_changed: self.visual_changed,
            visual_damage: self.visual_damage,
        }
    }

    pub fn new() -> (r: Self)
        ensures
            r@ == fresh_tracker(),
    {
        DirectSurfaceTracker {
            textures: Vec::new(),
            failure: None,
            direct_frame: Vec::new(),
            previous_direct_frame: Vec::new(),
            direct_resource_changed: true,
            direct_changed_resources: Vec::new(),
            visual_changed: true,
            visual_damage: HostedVisualDamage::Full,
        }
    }

    /// The failure that the tracker has kept, if any.
    pub fn finish(&self) -> (r: Result<(), RfvpError>)
        ensures
            match r {
                Ok(_) => self@.failure is None,
                Err(e) => self@.failure == Some(e),
            },
    {
        match self.failure {
            None => Ok(()),
            Some(e) => Err(e),
        }
    }

    pub fn is_empty(&self) -> (r: bool)
        ensures
            r == (self@.frame.len() == 0 && self@.textures.len() == 0),
    {
        self.direct_frame.len() == 0 && self.textures.len() == 0
    }

    /// Whether the last frame changed anything; asked once.
    pub fn take_visual_changed(&mut self) -> (r: bool)
        ensures
            r == old(self)@.visual_changed,
            final(self)@ == (TrackerView { visual_changed: false, ..old(self)@ }),
    {
        let r = self.visual_changed;
        self.visual_changed = false;
        r
    }

    /// The damage of the last frame; asked once.
    pub fn take_visual_damage(&mut self) -> (r: HostedVisualDamage)
        ensures
            r == old(self)@.visual_damage,
            final(self)@ == (TrackerView {
                visual_damage: HostedVisualDamage::Unchanged,
                ..old(self)@
            }),
    {
        let r = self.visual_damage;
        self.visual_damage = HostedVisualDamage::Unchanged;
        r
    }

    fn push_direct(&mut self, command: DirectFrameCommand) -> (r: Result<(), RfvpError>)
        ensures
            match r {
                Ok(_) => old(self)@.failure is None && final(self)@ == old(self)@.pushed(command),
                Err(e) => old(self)@.failure == Some(e) && final(self)@ == old(self)@,
            },
    {
        match self.finish() {
            Err(e) => Err(e),
            Ok(_) => {
                self.direct_frame.push(command);
                Ok(())
            },
        }
    }

    fn finish_direct_frame(&mut self)
        ensures
            final(self)@ == old(self)@.presented(),
    {
        let changed = self.direct_resource_changed || !same_frame(
            &self.direct_frame,
            &self.previous_direct_frame,
        );
        self.visual_damage = direct_frame_damage(
            &self.previous_direct_frame,
            &self.direct_frame,
            &self.direct_changed_resources,
        );
        core::mem::swap(&mut self.direct_frame, &mut self.previous_direct_frame);
        self.direct_frame.clear();
        self.direct_resource_changed = false;
        self.direct_changed_resources.clear();
        self.visual_changed = changed;
        assert(self@ =~= old(self)@.presented());
    }

    /// Forgets everything.
    pub fn reset(&mut self)
        ensures
            final(self)@ == fresh_tracker(),
    {
        self.textures.clear();
        self.failure = None;
        self.direct_frame.clear();
        self.previous_direct_frame.clear();
        self.direct_resource_changed = true;
        self.direct_changed_resources.clear();
        self.visual_changed = true;
        self.visual_damage = HostedVisualDamage::Full;
        assert(self@ =~= fresh_tracker());
    }

    fn find(&self, id: TextureId) -> (r: Option<usize>)
        ensures
            match r {
                Some(i) => texture_index(self.textures@, id, 0) == Some(i as int) && i
                    < self.textures@.len(),
                None => texture_index(self.textures@, id, 0) is None,
            },
    {
        let mut i: usize = 0;
        while i < self.textures.len()
            invariant
                i <= self.textures@.len(),
                texture_index(self.textures@, id, 0) == texture_index(self.textures@, id, i as int),
            decreases self.textures@.len() - i,
        {
            if self.textures[i].0 == id {
                return Some(i);
            }
            i = i + 1;
        }
        None
    }

    /// Announces a texture, new or with a new shape; `pixels` is the amount of
    /// pixel bytes that come with it.
    pub fn create_sized(&mut self, id: TextureId, desc: TextureDesc, pixels: Option<usize>) -> (r: Result<
        (),
        RfvpError,
    >)
        ensures
            ({
                let len = match pixels {
                    Some(n) => Some(n as int),
                    None => None,
                };
                match r {
                    Ok(_) => {
                        &&& old(self)@.create_fault(desc, len) is None
                        &&& final(self)@ == old(self)@.created(id, desc)
                    },
                    Err(e) => {
                        &&& old(self)@.create_fault(desc, len) == Some(e)
                        &&& final(self)@ == old(self)@
                    },
                }
            }),
    {
        match self.finish() {
            Err(e) => return Err(e),
            Ok(_) => {},
        }
        match validate_texture_desc(desc) {
            Err(e) => return Err(e),
            Ok(_) => {},
        }
        match pixels {
            Some(n) => match validate_texture_pixels(desc, n) {
                Err(e) => return Err(e),
                Ok(_) => {},
            },
            None => {},
        }
        match self.find(id) {
            Some(i) => self.textures.set(i, (id, desc)),
            None => self.textures.push((id, desc)),
        }
        self.direct_resource_changed = true;
        remember_texture(&mut self.direct_changed_resources, id);
        assert(self@ =~= old(self)@.created(id, desc));
        Ok(())
    }

    /// Announces a texture, new or with a new shape.
    pub fn create_texture(&mut self, id: TextureId, desc: TextureDesc, pixels: Option<PixelBuffer<'_>>) -> (r:
        Result<(), RfvpError>)
        ensures
            ({
                let len = match pixels {
                    Some(p) => Some(p@.len() as int),
                    None => None,
                };
                match r {
                    Ok(_) => {
                        &&& old(self)@.create_fault(desc, len) is None
                        &&& final(self)@ == old(self)@.created(id, desc)
                    },
                    Err(e) => {
                        &&& old(self)@.create_fault(desc, len) == Some(e)
                        &&& final(self)@ == old(self)@
                    },
                }
            }),
    {
        let len: Option<usize> = match &pixels {
            Some(p) => Some(p.len()),
            None => None,
        };
        self.create_sized(id, desc, len)
    }

    /// Announces `pixels` new pixel bytes for a part of a texture.
    pub fn update_sized(&mut self, id: TextureId, rect: TextureRect, pixels: usize) -> (r: Result<
        (),
        RfvpError,
    >)
        ensures
            match r {
                Ok(_) => {
                    &&& old(self)@.update_fault(id, rect, pixels as int) is None
                    &&& final(self)@ == old(self)@.touched(id)
                },
                Err(e) => {
                    &&& old(self)@.update_fault(id, rect, pixels as int) == Some(e)
                    &&& final(self)@ == old(self)@
                },
            },
    {
        match self.finish() {
            Err(e) => return Err(e),
            Ok(_) => {},
        }
        let desc = match self.find(id) {
            None => return Err(RfvpError::NotFound),
            Some(i) => self.textures[i].1,
        };
        if rect.width == 0 || rect.height == 0 {
            return Err(RfvpError::InvalidArgument);
        }
        match rect.x.checked_add(rect.width) {
            None => return Err(RfvpError::CapacityExceeded),
            Some(right) => if right > desc.width {
                return Err(RfvpError::InvalidArgument);
            },
        }
        match rect.y.checked_add(rect.height) {
            None => return Err(RfvpError::CapacityExceeded),
            Some(bottom) => if bottom > desc.height {
                return Err(RfvpError::InvalidArgument);
            },
        }
        match validate_texture_region(desc, rect, pixels) {
            Err(e) => return Err(e),
            Ok(_) => {},
        }
        self.direct_resource_changed = true;
        remember_texture(&mut self.direct_changed_resources, id);
        assert(self@ =~= old(self)@.touched(id));
        Ok(())
    }

    /// Announces new pixels for a part of a texture.
    pub fn update_texture(&mut self, id: TextureId, rect: TextureRect, pixels: PixelBuffer<'_>) -> (r:
        Result<(), RfvpError>)
        ensures
            match r {
                Ok(_) => {
                    &&& old(self)@.update_fault(id, rect, pixels@.len() as int) is None
                    &&& final(self)@ == old(self)@.touched(id)
                },
                Err(e) => {
                    &&& old(self)@.update_fault(id, rect, pixels@.len() as int) == Some(e)
                    &&& final(self)@ == old(self)@
                },
            },
    {
        self.update_sized(id, rect, pixels.len())
    }

    /// Ends the life of a texture; an unknown one is kept as a failure.
    pub fn destroy_texture(&mut self, id: TextureId)
        ensures
            final(self)@ == old(self)@.destroyed(id),
    {
        if self.failure.is_some() {
            return;
        }
        if self.find(id).is_none() {
            self.failure = Some(RfvpError::NotFound);
            assert(self@ =~= old(self)@.destroyed(id));
            return;
        }
        let mut kept: Vec<(TextureId, TextureDesc)> = Vec::new();
        let mut i: usize = 0;
        assert(self.textures@.subrange(0, 0) =~= Seq::<(TextureId, TextureDesc)>::empty());
        while i < self.textures.len()
            invariant
                i <= self.textures@.len(),
                self@ == old(self)@,
                kept@ == without(self.textures@.subrange(0, i as int), id),
            decreases self.textures@.len() - i,
        {
            let ghost next = self.textures@.subrange(0, i + 1);
            assert(next.drop_last() =~= self.textures@.subrange(0, i as int));
            assert(next.last() == self.textures@[i as int]);
            if self.textures[i].0 != id {
                kept.push(self.textures[i]);
            }
            i = i + 1;
        }
        assert(self.textures@.subrange(0, self.textures@.len() as int) =~= self.textures@);
        self.textures = kept;
        self.direct_resource_changed = true;
        remember_texture(&mut self.direct_changed_resources, id);
        assert(self@ =~= old(self)@.destroyed(id));
    }

    pub fn begin_frame(&mut self, width: u32, height: u32, clear: Option<ColorRgba>) -> (r: Result<
        (),
        RfvpError,
    >)
        ensures
            match r {
                Ok(_) => {
                    &&& width != 0 && height != 0
                    &&& old(self)@.failure is None
                    &&& final(self)@ == old(self)@.pushed(
                        DirectFrameCommand::BeginFrame { width, height, clear },
                    )
                },
                Err(e) => {
                    &&& final(self)@ == old(self)@
                    &&& if width == 0 || height == 0 {
                        e == RfvpError::InvalidArgument
                    } else {
                        old(self)@.failure == Some(e)
                    }
                },
            },
    {
        if width == 0 || height == 0 {
            return Err(RfvpError::InvalidArgument);
        }
        self.push_direct(DirectFrameCommand::BeginFrame { width, height, clear })
    }

    pub fn draw_sprite(&mut self, command: &DrawSpriteCommand) -> (r: Result<(), RfvpError>)
        ensures
            match r {
                Ok(_) => old(self)@.failure is None && final(self)@ == old(self)@.pushed(
                    DirectFrameCommand::DrawSprite(*command),
                ),
                Err(e) => old(self)@.failure == Some(e) && final(self)@ == old(self)@,
            },
    {
        self.push_direct(DirectFrameCommand::DrawSprite(*command))
    }

    pub fn draw_solid(&mut self, command: &DrawSolidCommand) -> (r: Result<(), RfvpError>)
        ensures
            match r {
                Ok(_) => old(self)@.failure is None && final(self)@ == old(self)@.pushed(
                    DirectFrameCommand::DrawSolid(*command),
                ),
                Err(e) => old(self)@.failure == Some(e) && final(self)@ == old(self)@,
            },
    {
        self.push_direct(DirectFrameCommand::DrawSolid(*command))
    }

    pub fn end_frame(&mut self) -> (r: Result<(), RfvpError>)
        ensures
            match r {
                Ok(_) => old(self)@.failure is None && final(self)@ == old(self)@.pushed(
                    DirectFrameCommand::EndFrame,
                ),
                Err(e) => old(self)@.failure == Some(e) && final(self)@ == old(self)@,
            },
    {
        self.push_direct(DirectFrameCommand::EndFrame)
    }

    /// Presents the frame and fixes its damage.
    pub fn present(&mut self) -> (r: Result<(), RfvpError>)
        ensures
            match r {
                Ok(_) => {
                    &&& old(self)@.failure is None
                    &&& final(self)@ == old(self)@.pushed(DirectFrameCommand::Present).presented()
                },
                Err(e) => old(self)@.failure == Some(e) && final(self)@ == old(self)@,
            },
    {
        match self.push_direct(DirectFrameCommand::Present) {
            Err(e) => Err(e),
            Ok(_) => {
                self.finish_direct_frame();
                Ok(())
            },
        }
    }
}

// ----------------------------------------------------------------------- laws

pub open spec fn inside(r: HostedDamageRect, width: u32, height: u32) -> bool {
    &&& r.x + r.width <= width
    &&& r.y + r.height <= height
}

/// Whether `outer` holds every pixel of `inner`.
pub open spec fn covers(outer: HostedDamageRect, inner: HostedDamageRect) -> bool {
    &&& outer.x <= inner.x
    &&& outer.y <= inner.y
    &&& inner.x + inner.width <= outer.x + outer.width
    &&& inner.y + inner.height <= outer.y + outer.height
}

/// Whether the damage `damage` of a surface holds every pixel of `r`.
pub open spec fn damage_covers(damage: HostedVisualDamage, r: HostedDamageRect) -> bool {
    match damage {
        HostedVisualDamage::Unchanged => false,
        HostedVisualDamage::Full => true,
        HostedVisualDamage::Rect(rect) => covers(rect, r),
    }
}

pub open spec fn bounds_cover(bounds: Option<HostedDamageRect>, r: HostedDamageRect) -> bool {
    match bounds {
        None => false,
        Some(rect) => covers(rect, r),
    }
}

pub open spec fn bounds_inside(bounds: Option<HostedDamageRect>, width: u32, height: u32) -> bool {
    match bounds {
        None => true,
        Some(rect) => inside(rect, width, height),
    }
}

/// What a command draws lies on the surface.
pub proof fn law_bounds_lie_on_the_surface(command: DirectFrameCommand, width: u32, height: u32)
    ensures
        bounds_inside(bounds_of(command, width, height), width, height),
{
}

proof fn lemma_grown(bounds: Option<HostedDamageRect>, command: DirectFrameCommand, w: u32, h: u32)
    requires
        bounds_inside(bounds, w, h),
    ensures
        bounds_inside(grown(bounds, command, w, h), w, h),
        forall|r: HostedDamageRect| #[trigger]
            bounds_cover(bounds, r) ==> bounds_cover(grown(bounds, command, w, h), r),
        match bounds_of(command, w, h) {
            Some(r) => bounds_cover(grown(bounds, command, w, h), r),
            None => true,
        },
{
    law_bounds_lie_on_the_surface(command, w, h);
}

proof fn lemma_grown_by(
    bounds: Option<HostedDamageRect>,
    frame: Seq<DirectFrameCommand>,
    from: int,
    to: int,
    w: u32,
    h: u32,
)
    requires
        bounds_inside(bounds, w, h),
        0 <= from <= to <= frame.len(),
    ensures
        bounds_inside(grown_by(bounds, frame, from, to, w, h), w, h),
        forall|r: HostedDamageRect| #[trigger]
            bounds_cover(bounds, r) ==> bounds_cover(grown_by(bounds, frame, from, to, w, h), r),
        forall|i: int|
            from <= i < to ==> match bounds_of(#[trigger] frame[i], w, h) {
                Some(r) => bounds_cover(grown_by(bounds, frame, from, to, w, h), r),
                None => true,
            },
    decreases to - from,
{
    if from < to {
        let next = grown(bounds, frame[from], w, h);
        lemma_grown(bounds, frame[from], w, h);
        lemma_grown_by(next, frame, from + 1, to, w, h);
    }
}

proof fn lemma_grown_by_textures(
    bounds: Option<HostedDamageRect>,
    frame: Seq<DirectFrameCommand>,
    from: int,
    changed: Seq<TextureId>,
    w: u32,
    h: u32,
)
    requires
        bounds_inside(bounds, w, h),
        0 <= from <= frame.len(),
    ensures
        bounds_inside(grown_by_textures(bounds, frame, from, changed, w, h), w, h),
        forall|r: HostedDamageRect| #[trigger]
            bounds_cover(bounds, r) ==> bounds_cover(
                grown_by_textures(bounds, frame, from, changed, w, h),
                r,
            ),
        forall|i: int|
            from <= i < frame.len() && uses_texture(frame[i], changed) ==> match bounds_of(
                #[trigger] frame[i],
                w,
                h,
            ) {
                Some(r) => bounds_cover(
                    grown_by_textures(bounds, frame, from, changed, w, h),
                    r,
                ),
                None => true,
            },
    decreases frame.len() - from,
{
    if from < frame.len() {
        let next = if uses_texture(frame[from], changed) {
            grown(bounds, frame[from], w, h)
        } else {
            bounds
        };
        lemma_grown(bounds, frame[from], w, h);
        lemma_grown_by_textures(next, frame, from + 1, changed, w, h);
    }
}

proof fn lemma_common_start(a: Seq<DirectFrameCommand>, b: Seq<DirectFrameCommand>, i: int)
    requires
        0 <= i <= a.len(),
        i <= b.len(),
    ensures
        i <= common_start(a, b, i) <= a.len(),
        common_start(a, b, i) <= b.len(),
    decreases a.len() - i,
{
    if i < a.len() && i < b.len() && equal_commands(a[i], b[i]) {
        lemma_common_start(a, b, i + 1);
    }
}

proof fn lemma_common_end(a: Seq<DirectFrameCommand>, b: Seq<DirectFrameCommand>, start: int, n: int)
    requires
        0 <= start <= a.len(),
        start <= b.len(),
        0 <= n <= a.len() - start,
        n <= b.len() - start,
    ensures
        n <= common_end(a, b, start, n) <= a.len() - start,
        common_end(a, b, start, n) <= b.len() - start,
    decreases a.len() - start - n,
{
    if n < a.len() - start && n < b.len() - start && equal_commands(
        a[a.len() - 1 - n],
        b[b.len() - 1 - n],
    ) {
        lemma_common_end(a, b, start, n + 1);
    }
}

/// Whether the command `i` of one of two frames differs: it lies outside their
/// common start and their common end, or it draws a changed texture.
pub open spec fn differs(
    frame: Seq<DirectFrameCommand>,
    previous: Seq<DirectFrameCommand>,
    current: Seq<DirectFrameCommand>,
    changed: Seq<TextureId>,
    i: int,
) -> bool {
    let start = common_start(previous, current, 0);
    let end = common_end(previous, current, start, 0);
    start <= i < frame.len() - end || uses_texture(frame[i], changed)
}

/// The damage holds every pixel that a differing command of the old or of the new
/// frame may draw, and a damage rectangle lies on the surface.
pub proof fn law_damage_covers_every_change(
    previous: Seq<DirectFrameCommand>,
    current: Seq<DirectFrameCommand>,
    changed: Seq<TextureId>,
)
    requires
        frame_header(current) is Some,
    ensures
        ({
            let w = (frame_header(current)->0).0;
            let h = (frame_header(current)->0).1;
            let damage = damage_of(previous, current, changed);
            &&& forall|i: int|
                0 <= i < previous.len() && differs(previous, previous, current, changed, i)
                    ==> match bounds_of(#[trigger] previous[i], w, h) {
                    Some(r) => damage_covers(damage, r),
                    None => true,
                }
            &&& forall|i: int|
                0 <= i < current.len() && differs(current, previous, current, changed, i)
                    ==> match bounds_of(#[trigger] current[i], w, h) {
                    Some(r) => damage_covers(damage, r),
                    None => true,
                }
            &&& damage matches HostedVisualDamage::Rect(r) ==> inside(r, w, h)
        }),
{
    let w = (frame_header(current)->0).0;
    let h = (frame_header(current)->0).1;
    let start = common_start(previous, current, 0);
    let end = common_end(previous, current, start, 0);
    lemma_common_start(previous, current, 0);
    lemma_common_end(previous, current, start, 0);
    let a = grown_by(None, previous, start, previous.len() - end, w, h);
    let b = grown_by(a, current, start, current.len() - end, w, h);
    let c = grown_by_textures(b, previous, 0, changed, w, h);
    let d = grown_by_textures(c, current, 0, changed, w, h);
    lemma_grown_by(None, previous, start, previous.len() - end, w, h);
    lemma_grown_by(a, current, start, current.len() - end, w, h);
    lemma_grown_by_textures(b, previous, 0, changed, w, h);
    lemma_grown_by_textures(c, current, 0, changed, w, h);
    let damage = damage_of(previous, current, changed);
    assert forall|i: int|
        0 <= i < previous.len() && differs(previous, previous, current, changed, i) implies match bounds_of(
        #[trigger] previous[i],
        w,
        h,
    ) {
        Some(r) => damage_covers(damage, r),
        None => true,
    } by {
        match bounds_of(previous[i], w, h) {
            Some(r) => {
                if start <= i < previous.len() - end {
                    assert(bounds_cover(a, r));
                    assert(bounds_cover(b, r));
                }
                assert(bounds_cover(c, r));
                assert(bounds_cover(d, r));
            },
            None => {},
        }
    }
    assert forall|i: int|
        0 <= i < current.len() && differs(current, previous, current, changed, i) implies match bounds_of(
        #[trigger] current[i],
        w,
        h,
    ) {
        Some(r) => damage_covers(damage, r),
        None => true,
    } by {
        match bounds_of(current[i], w, h) {
            Some(r) => {
                if start <= i < current.len() - end {
                    assert(bounds_cover(b, r));
                    assert(bounds_cover(c, r));
                }
                assert(bounds_cover(d, r));
            },
            None => {},
        }
    }
}

proof fn lemma_same_start(a: Seq<DirectFrameCommand>, b: Seq<DirectFrameCommand>, i: int)
    requires
        equal_frames(a, b),
        0 <= i <= a.len(),
    ensures
        common_start(a, b, i) == a.len(),
    decreases a.len() - i,
{
    if i < a.len() {
        lemma_same_start(a, b, i + 1);
    }
}

proof fn lemma_no_textures(
    bounds: Option<HostedDamageRect>,
    frame: Seq<DirectFrameCommand>,
    from: int,
    w: u32,
    h: u32,
)
    requires
        0 <= from <= frame.len(),
    ensures
        grown_by_textures(bounds, frame, from, Seq::empty(), w, h) == bounds,
    decreases frame.len() - from,
{
    if from < frame.len() {
        lemma_no_textures(bounds, frame, from + 1, w, h);
    }
}

proof fn lemma_same_header(a: Seq<DirectFrameCommand>, b: Seq<DirectFrameCommand>, i: int)
    requires
        equal_frames(a, b),
        0 <= i <= a.len(),
        header_from(b, i) is Some,
    ensures
        header_from(a, i) is Some,
        (header_from(a, i)->0).0 == (header_from(b, i)->0).0,
        (header_from(a, i)->0).1 == (header_from(b, i)->0).1,
        equal_clears((header_from(b, i)->0).2, (header_from(a, i)->0).2),
    decreases a.len() - i,
{
    if i < a.len() {
        assert(equal_commands(a[i], b[i]));
        match b[i] {
            DirectFrameCommand::BeginFrame { .. } => {},
            _ => {
                lemma_same_header(a, b, i + 1);
            },
        }
    }
}

/// A frame that draws what the previous one drew, with no changed texture, damages
/// nothing.
pub proof fn law_equal_frames_damage_nothing(
    previous: Seq<DirectFrameCommand>,
    current: Seq<DirectFrameCommand>,
)
    requires
        equal_frames(previous, current),
        frame_header(current) is Some,
    ensures
        damage_of(previous, current, Seq::empty()) == HostedVisualDamage::Unchanged,
{
    let w = (frame_header(current)->0).0;
    let h = (frame_header(current)->0).1;
    lemma_same_header(previous, current, 0);
    lemma_same_start(previous, current, 0);
    lemma_common_end(previous, current, previous.len() as int, 0);
    lemma_no_textures(None, previous, 0, w, h);
    lemma_no_textures(None, current, 0, w, h);
}

/// Whether a rectangle holds the pixel in column `x` and row `y`.
pub open spec fn holds(r: HostedDamageRect, x: int, y: int) -> bool {
    r.x <= x < r.x + r.width && r.y <= y < r.y + r.height
}

pub open spec fn may_hold(r: Option<HostedDamageRect>, x: int, y: int) -> bool {
    r is Some && holds(r->0, x, y)
}

/// Whether a scissor leaves the pixel in column `x` and row `y`.
pub open spec fn left_by(scissor: Option<RectI32>, x: int, y: int) -> bool {
    match scissor {
        None => true,
        Some(clip) => clip.x <= x < clip.x + clip.width && clip.y <= y < clip.y + clip.height,
    }
}

/// What is left of a rectangle by the scissor and by the surface.
proof fn lemma_clipped(
    left: int,
    top: int,
    right: int,
    bottom: int,
    scissor: Option<RectI32>,
    width: u32,
    height: u32,
    x: int,
    y: int,
)
    ensures
        may_hold(clipped(left, top, right, bottom, scissor, width, height), x, y) <==> {
            &&& 0 <= x < width && 0 <= y < height
            &&& left <= x < right && top <= y < bottom
            &&& left_by(scissor, x, y)
        },
{
}

/// The pixels that four coordinates enclose along one axis.
proof fn lemma_axis(a: Float32, b: Float32, c: Float32, d: Float32, n: int)
    requires
        a.finite(),
        b.finite(),
        c.finite(),
        d.finite(),
        0 <= n < 0x1_0000_0000,
    ensures
        ({
            let start = crate::float::steps_of(n);
            let end = crate::float::steps_of(n + 1);
            let (p, q, r, s) = (
                crate::float::steps(a),
                crate::float::steps(b),
                crate::float::steps(c),
                crate::float::steps(d),
            );
            &&& least_of(
                a.floor_or_zero(),
                b.floor_or_zero(),
                c.floor_or_zero(),
                d.floor_or_zero(),
            ) <= n <==> p < end || q < end || r < end || s < end
            &&& n < greatest_of(
                a.ceil_or_zero(),
                b.ceil_or_zero(),
                c.ceil_or_zero(),
                d.ceil_or_zero(),
            ) <==> p > start || q > start || r > start || s > start
        }),
{
    crate::float::lemma_pixel_of(a, n);
    crate::float::lemma_pixel_of(b, n);
    crate::float::lemma_pixel_of(c, n);
    crate::float::lemma_pixel_of(d, n);
}

/// A sprite with finite corners may draw exactly those pixels of the surface, inside the
/// scissor, that its corners enclose: some corner lies left of the pixel's right edge
/// and some corner right of its left edge, some above its lower edge and some below its
/// upper edge.
#[verifier::rlimit(60)]
pub proof fn law_sprite_draws_between_its_corners(
    sprite: DrawSpriteCommand,
    width: u32,
    height: u32,
    x: int,
    y: int,
)
    requires
        sprite.top_left.x.finite() && sprite.top_left.y.finite(),
        sprite.top_right.x.finite() && sprite.top_right.y.finite(),
        sprite.bottom_left.x.finite() && sprite.bottom_left.y.finite(),
        sprite.bottom_right.x.finite() && sprite.bottom_right.y.finite(),
    ensures
        ({
            let x1 = crate::float::steps(sprite.top_left.x);
            let x2 = crate::float::steps(sprite.top_right.x);
            let x3 = crate::float::steps(sprite.bottom_left.x);
            let x4 = crate::float::steps(sprite.bottom_right.x);
            let y1 = crate::float::steps(sprite.top_left.y);
            let y2 = crate::float::steps(sprite.top_right.y);
            let y3 = crate::float::steps(sprite.bottom_left.y);
            let y4 = crate::float::steps(sprite.bottom_right.y);
            let start_x = crate::float::steps_of(x);
            let end_x = crate::float::steps_of(x + 1);
            let start_y = crate::float::steps_of(y);
            let end_y = crate::float::steps_of(y + 1);
            may_hold(bounds_of(DirectFrameCommand::DrawSprite(sprite), width, height), x, y) <==> {
                &&& 0 <= x < width && 0 <= y < height
                &&& left_by(sprite.scissor, x, y)
                &&& x1 < end_x || x2 < end_x || x3 < end_x || x4 < end_x
                &&& x1 > start_x || x2 > start_x || x3 > start_x || x4 > start_x
                &&& y1 < end_y || y2 < end_y || y3 < end_y || y4 < end_y
                &&& y1 > start_y || y2 > start_y || y3 > start_y || y4 > start_y
            }
        }),
{
    let (tl, tr, bl, br) = (
        sprite.top_left,
        sprite.top_right,
        sprite.bottom_left,
        sprite.bottom_right,
    );
    lemma_clipped(
        least_of(
            tl.x.floor_or_zero(),
            tr.x.floor_or_zero(),
            bl.x.floor_or_zero(),
            br.x.floor_or_zero(),
        ),
        least_of(
            tl.y.floor_or_zero(),
            tr.y.floor_or_zero(),
            bl.y.floor_or_zero(),
            br.y.floor_or_zero(),
        ),
        greatest_of(
            tl.x.ceil_or_zero(),
            tr.x.ceil_or_zero(),
            bl.x.ceil_or_zero(),
            br.x.ceil_or_zero(),
        ),
        greatest_of(
            tl.y.ceil_or_zero(),
            tr.y.ceil_or_zero(),
            bl.y.ceil_or_zero(),
            br.y.ceil_or_zero(),
        ),
        sprite.scissor,
        width,
        height,
        x,
        y,
    );
    if 0 <= x < width && 0 <= y < height {
        lemma_axis(tl.x, tr.x, bl.x, br.x, x);
        lemma_axis(tl.y, tr.y, bl.y, br.y, y);
    }
}

/// A sprite with a corner that is nowhere may draw everywhere.
pub proof fn law_unbounded_sprite_draws_everywhere(
    sprite: DrawSpriteCommand,
    width: u32,
    height: u32,
    x: int,
    y: int,
)
    requires
        !(sprite.top_left.x.finite() && sprite.top_left.y.finite() && sprite.top_right.x.finite()
            && sprite.top_right.y.finite() && sprite.bottom_left.x.finite()
            && sprite.bottom_left.y.finite() && sprite.bottom_right.x.finite()
            && sprite.bottom_right.y.finite()),
    ensures
        may_hold(bounds_of(DirectFrameCommand::DrawSprite(sprite), width, height), x, y) <==> 0 <= x
            < width && 0 <= y < height,
{
}

/// A plain rectangle whose edges single precision has draws exactly its pixels that the
/// scissor and the surface leave.
pub proof fn law_solid_draws_its_rectangle(
    solid: DrawSolidCommand,
    width: u32,
    height: u32,
    x: int,
    y: int,
)
    requires
        solid.rect.x < 0x100_0000,
        solid.rect.y < 0x100_0000,
        solid.rect.x + solid.rect.width < 0x100_0000,
        solid.rect.y + solid.rect.height < 0x100_0000,
    ensures
        may_hold(bounds_of(DirectFrameCommand::DrawSolid(solid), width, height), x, y) <==> {
            &&& 0 <= x < width && 0 <= y < height
            &&& left_by(solid.scissor, x, y)
            &&& solid.rect.x <= x < solid.rect.x + solid.rect.width
            &&& solid.rect.y <= y < solid.rect.y + solid.rect.height
        },
{
    let right = saturated_sum(solid.rect.x, solid.rect.width);
    let bottom = saturated_sum(solid.rect.y, solid.rect.height);
    crate::float::law_single_is_the_nearest(solid.rect.x as int, 0, 0);
    crate::float::law_single_is_the_nearest(solid.rect.y as int, 0, 0);
    crate::float::law_single_is_the_nearest(right as int, 0, 0);
    crate::float::law_single_is_the_nearest(bottom as int, 0, 0);
}

/// An edge of a plain rectangle that single precision does not have goes to the nearest
/// place that it has; no such place is nearer.
pub proof fn law_solid_edges_are_the_nearest(edge: i32, m: int, k: nat)
    requires
        0 <= edge,
        -0x100_0000 <= m <= 0x100_0000,
    ensures
        crate::float::has_24_bits(crate::float::rounded_or_zero(edge)),
        crate::float::apart(crate::float::rounded_or_zero(edge), edge as int)
            <= crate::float::apart(m * vstd::arithmetic::power2::pow2(k), edge as int),
{
    crate::float::law_single_is_the_nearest(edge as int, m, k);
}

/// Only sprites and plain rectangles draw.
pub proof fn law_other_commands_draw_nothing(command: DirectFrameCommand, width: u32, height: u32)
    requires
        !(command is DrawSprite),
        !(command is DrawSolid),
    ensures
        bounds_of(command, width, height) is None,
{
}

/// Two rectangles on a surface are joined to the smallest one around both: it holds
/// what either holds, and lies in every rectangle that does.
pub proof fn law_joined_is_the_smallest(
    a: HostedDamageRect,
    b: HostedDamageRect,
    around: HostedDamageRect,
)
    requires
        a.x + a.width <= u32::MAX,
        a.y + a.height <= u32::MAX,
        b.x + b.width <= u32::MAX,
        b.y + b.height <= u32::MAX,
    ensures
        covers(joined(Some(a), b), a),
        covers(joined(Some(a), b), b),
        covers(around, a) && covers(around, b) ==> covers(around, joined(Some(a), b)),
        joined(None, b) == b,
{
}

// What two frames draw on one pixel.

/// The commands of a frame that may draw the pixel in column `x` and row `y`, in order.
pub open spec fn drawing(frame: Seq<DirectFrameCommand>, width: u32, height: u32, x: int, y: int) -> Seq<
    DirectFrameCommand,
>
    decreases frame.len(),
{
    if frame.len() == 0 {
        Seq::empty()
    } else {
        let before = drawing(frame.drop_last(), width, height, x, y);
        if may_hold(bounds_of(frame.last(), width, height), x, y) {
            before.push(frame.last())
        } else {
            before
        }
    }
}

/// Whether a number is drawn as another one: both have the same value, or they are the
/// same infinity.
pub open spec fn alike(a: Float32, b: Float32) -> bool {
    if a.finite() && b.finite() {
        crate::float::steps(a) == crate::float::steps(b)
    } else {
        a.bits == b.bits && !a.not_a_number()
    }
}

pub open spec fn colors_alike(a: ColorRgba, b: ColorRgba) -> bool {
    alike(a.r, b.r) && alike(a.g, b.g) && alike(a.b, b.b) && alike(a.a, b.a)
}

pub open spec fn vertices_alike(a: SpriteVertex, b: SpriteVertex) -> bool {
    alike(a.x, b.x) && alike(a.y, b.y) && alike(a.u, b.u) && alike(a.v, b.v)
}

/// Two sprites draw the same if and only if they agree in all that they say: texture,
/// corners, colour, blending and scissor. Two plain rectangles likewise, and two starts
/// of a frame in size and clear colour. Commands of two kinds never do.
pub proof fn law_equal_commands_agree_in_all(a: DirectFrameCommand, b: DirectFrameCommand)
    ensures
        equal_commands(a, b) <==> match (a, b) {
            (DirectFrameCommand::DrawSprite(p), DirectFrameCommand::DrawSprite(q)) => {
                &&& p.texture == q.texture
                &&& vertices_alike(p.top_left, q.top_left)
                &&& vertices_alike(p.top_right, q.top_right)
                &&& vertices_alike(p.bottom_left, q.bottom_left)
                &&& vertices_alike(p.bottom_right, q.bottom_right)
                &&& colors_alike(p.color, q.color)
                &&& p.blend == q.blend
                &&& p.scissor == q.scissor
            },
            (DirectFrameCommand::DrawSolid(p), DirectFrameCommand::DrawSolid(q)) => {
                &&& p.rect == q.rect
                &&& colors_alike(p.color, q.color)
                &&& p.blend == q.blend
                &&& p.scissor == q.scissor
            },
            (
                DirectFrameCommand::BeginFrame { width: w, height: h, clear: c },
                DirectFrameCommand::BeginFrame { width: v, height: g, clear: d },
            ) => {
                &&& w == v
                &&& h == g
                &&& c is Some == d is Some
                &&& c is Some ==> colors_alike(c->0, d->0)
            },
            (DirectFrameCommand::EndFrame, DirectFrameCommand::EndFrame) => true,
            (DirectFrameCommand::Present, DirectFrameCommand::Present) => true,
            _ => false,
        },
{
    assert forall|x: Float32, y: Float32| #[trigger]
        crate::float::equal_numbers(x, y) == alike(x, y) by {
        crate::float::law_equal_numbers_have_equal_values(x, y);
    }
}

proof fn lemma_equal_bounds(a: DirectFrameCommand, b: DirectFrameCommand, w: u32, h: u32)
    requires
        equal_commands(a, b),
    ensures
        bounds_of(a, w, h) == bounds_of(b, w, h),
{
}

proof fn lemma_drawing_joined(
    a: Seq<DirectFrameCommand>,
    b: Seq<DirectFrameCommand>,
    w: u32,
    h: u32,
    x: int,
    y: int,
)
    ensures
        drawing(a + b, w, h, x, y) == drawing(a, w, h, x, y) + drawing(b, w, h, x, y),
    decreases b.len(),
{
    if b.len() == 0 {
        assert(a + b =~= a);
        assert(drawing(a, w, h, x, y) + Seq::empty() =~= drawing(a, w, h, x, y));
    } else {
        assert((a + b).drop_last() =~= a + b.drop_last());
        lemma_drawing_joined(a, b.drop_last(), w, h, x, y);
        assert(drawing(a + b, w, h, x, y) =~= drawing(a, w, h, x, y) + drawing(b, w, h, x, y));
    }
}

proof fn lemma_drawing_equal(
    a: Seq<DirectFrameCommand>,
    b: Seq<DirectFrameCommand>,
    w: u32,
    h: u32,
    x: int,
    y: int,
)
    requires
        equal_frames(a, b),
    ensures
        equal_frames(drawing(a, w, h, x, y), drawing(b, w, h, x, y)),
    decreases a.len(),
{
    if a.len() > 0 {
        assert(equal_commands(a[a.len() - 1], b[b.len() - 1]));
        lemma_equal_bounds(a.last(), b.last(), w, h);
        assert forall|i: int| 0 <= i < a.drop_last().len() implies equal_commands(
            #[trigger] a.drop_last()[i],
            b.drop_last()[i],
        ) by {
            assert(equal_commands(a[i], b[i]));
        }
        lemma_drawing_equal(a.drop_last(), b.drop_last(), w, h, x, y);
    }
}

proof fn lemma_drawing_nothing(
    a: Seq<DirectFrameCommand>,
    w: u32,
    h: u32,
    x: int,
    y: int,
)
    requires
        forall|i: int| 0 <= i < a.len() ==> !may_hold(bounds_of(#[trigger] a[i], w, h), x, y),
    ensures
        drawing(a, w, h, x, y) == Seq::<DirectFrameCommand>::empty(),
    decreases a.len(),
{
    if a.len() > 0 {
        assert(!may_hold(bounds_of(a[a.len() - 1], w, h), x, y));
        assert forall|i: int| 0 <= i < a.drop_last().len() implies !may_hold(
            bounds_of(#[trigger] a.drop_last()[i], w, h),
            x,
            y,
        ) by {
            assert(!may_hold(bounds_of(a[i], w, h), x, y));
        }
        lemma_drawing_nothing(a.drop_last(), w, h, x, y);
    }
}

proof fn lemma_start_equal(a: Seq<DirectFrameCommand>, b: Seq<DirectFrameCommand>, i: int, at: int)
    requires
        0 <= i <= at < common_start(a, b, i),
    ensures
        equal_commands(a[at], b[at]),
    decreases a.len() - i,
{
    if i < at {
        lemma_start_equal(a, b, i + 1, at);
    }
}

proof fn lemma_end_equal(
    a: Seq<DirectFrameCommand>,
    b: Seq<DirectFrameCommand>,
    start: int,
    n: int,
    at: int,
)
    requires
        0 <= n <= at < common_end(a, b, start, n),
    ensures
        equal_commands(a[a.len() - 1 - at], b[b.len() - 1 - at]),
    decreases a.len() - start - n,
{
    if n < at {
        lemma_end_equal(a, b, start, n + 1, at);
    }
}

/// What lies outside the damage stays: on a pixel that is not damaged the new frame
/// draws what the old one drew, command by command in the same order, and nothing there
/// shows a texture with new content.
pub proof fn law_undamaged_pixels_stay(
    previous: Seq<DirectFrameCommand>,
    current: Seq<DirectFrameCommand>,
    changed: Seq<TextureId>,
    x: int,
    y: int,
)
    requires
        frame_header(current) is Some,
        damage_of(previous, current, changed) != HostedVisualDamage::Full,
        damage_of(previous, current, changed) matches HostedVisualDamage::Rect(r) ==> !holds(r, x, y),
    ensures
        ({
            let w = (frame_header(current)->0).0;
            let h = (frame_header(current)->0).1;
            let before = drawing(previous, w, h, x, y);
            let now = drawing(current, w, h, x, y);
            &&& before.len() == now.len()
            &&& forall|i: int|
                0 <= i < now.len() ==> equal_commands(#[trigger] before[i], now[i])
            &&& forall|i: int|
                0 <= i < now.len() ==> match #[trigger] now[i] {
                    DirectFrameCommand::DrawSprite(s) => !changed.contains(s.texture),
                    _ => true,
                }
        }),
{
    let w = (frame_header(current)->0).0;
    let h = (frame_header(current)->0).1;
    let start = common_start(previous, current, 0);
    let end = common_end(previous, current, start, 0);
    let damage = damage_of(previous, current, changed);
    law_damage_covers_every_change(previous, current, changed);
    lemma_common_start(previous, current, 0);
    lemma_common_end(previous, current, start, 0);
    let (p1, p2, p3) = (
        previous.subrange(0, start),
        previous.subrange(start, previous.len() - end),
        previous.subrange(previous.len() - end, previous.len() as int),
    );
    let (c1, c2, c3) = (
        current.subrange(0, start),
        current.subrange(start, current.len() - end),
        current.subrange(current.len() - end, current.len() as int),
    );
    assert(previous =~= p1 + p2 + p3);
    assert(current =~= c1 + c2 + c3);
    lemma_drawing_joined(p1 + p2, p3, w, h, x, y);
    lemma_drawing_joined(p1, p2, w, h, x, y);
    lemma_drawing_joined(c1 + c2, c3, w, h, x, y);
    lemma_drawing_joined(c1, c2, w, h, x, y);
    assert forall|i: int| 0 <= i < p2.len() implies !may_hold(
        bounds_of(#[trigger] p2[i], w, h),
        x,
        y,
    ) by {
        assert(p2[i] == previous[start + i]);
        assert(differs(previous, previous, current, changed, start + i));
    }
    assert forall|i: int| 0 <= i < c2.len() implies !may_hold(
        bounds_of(#[trigger] c2[i], w, h),
        x,
        y,
    ) by {
        assert(c2[i] == current[start + i]);
        assert(differs(current, previous, current, changed, start + i));
    }
    lemma_drawing_nothing(p2, w, h, x, y);
    lemma_drawing_nothing(c2, w, h, x, y);
    assert forall|i: int| 0 <= i < p1.len() implies equal_commands(#[trigger] p1[i], c1[i]) by {
        lemma_start_equal(previous, current, 0, i);
    }
    assert forall|i: int| 0 <= i < p3.len() implies equal_commands(#[trigger] p3[i], c3[i]) by {
        lemma_end_equal(previous, current, start, 0, end - 1 - i);
    }
    lemma_drawing_equal(p1, c1, w, h, x, y);
    lemma_drawing_equal(p3, c3, w, h, x, y);
    let (d1, d3) = (drawing(p1, w, h, x, y), drawing(p3, w, h, x, y));
    let (e1, e3) = (drawing(c1, w, h, x, y), drawing(c3, w, h, x, y));
    assert(drawing(previous, w, h, x, y) =~= d1 + d3);
    assert(drawing(current, w, h, x, y) =~= e1 + e3);
    assert forall|i: int| 0 <= i < (e1 + e3).len() implies equal_commands(
        #[trigger] (d1 + d3)[i],
        (e1 + e3)[i],
    ) by {
        if i < d1.len() {
            assert(equal_commands(d1[i], e1[i]));
        } else {
            assert(equal_commands(d3[i - d1.len()], e3[i - d1.len()]));
        }
    }
    lemma_drawing_members(current, w, h, x, y);
    assert forall|i: int| 0 <= i < drawing(current, w, h, x, y).len() implies match #[trigger] drawing(
        current,
        w,
        h,
        x,
        y,
    )[i] {
        DirectFrameCommand::DrawSprite(s) => !changed.contains(s.texture),
        _ => true,
    } by {
        let c = drawing(current, w, h, x, y)[i];
        let at = choose|at: int| 0 <= at < current.len() && current[at] == c;
        if uses_texture(c, changed) {
            assert(differs(current, previous, current, changed, at));
        }
    }
}

proof fn lemma_drawing_members(a: Seq<DirectFrameCommand>, w: u32, h: u32, x: int, y: int)
    ensures
        forall|i: int|
            0 <= i < drawing(a, w, h, x, y).len() ==> {
                &&& may_hold(bounds_of(#[trigger] drawing(a, w, h, x, y)[i], w, h), x, y)
                &&& exists|at: int| 0 <= at < a.len() && a[at] == drawing(a, w, h, x, y)[i]
            },
    decreases a.len(),
{
    if a.len() > 0 {
        let rest = a.drop_last();
        lemma_drawing_members(rest, w, h, x, y);
        assert forall|i: int| 0 <= i < drawing(a, w, h, x, y).len() implies {
            &&& may_hold(bounds_of(#[trigger] drawing(a, w, h, x, y)[i], w, h), x, y)
            &&& exists|at: int| 0 <= at < a.len() && a[at] == drawing(a, w, h, x, y)[i]
        } by {
            if i < drawing(rest, w, h, x, y).len() {
                let c = drawing(rest, w, h, x, y)[i];
                let at = choose|at: int| 0 <= at < rest.len() && rest[at] == c;
                assert(a[at] == c);
            } else {
                assert(a[a.len() - 1] == a.last());
            }
        }
    }
}

// Frames, damage and textures.

proof fn lemma_header_from(frame: Seq<DirectFrameCommand>, i: int, at: int)
    requires
        0 <= i <= at < frame.len(),
        frame[at] is BeginFrame,
        forall|j: int| i <= j < at ==> !(#[trigger] frame[j] is BeginFrame),
    ensures
        header_from(frame, i) == Some(
            (frame[at]->BeginFrame_width, frame[at]->BeginFrame_height, frame[at]->BeginFrame_clear),
        ),
    decreases at - i,
{
    if i < at {
        assert(!(frame[i] is BeginFrame));
        lemma_header_from(frame, i + 1, at);
    }
}

proof fn lemma_no_header_from(frame: Seq<DirectFrameCommand>, i: int)
    requires
        0 <= i <= frame.len(),
        forall|j: int| i <= j < frame.len() ==> !(#[trigger] frame[j] is BeginFrame),
    ensures
        header_from(frame, i) is None,
    decreases frame.len() - i,
{
    if i < frame.len() {
        assert(!(frame[i] is BeginFrame));
        lemma_no_header_from(frame, i + 1);
    }
}

/// Size and clear colour of a frame are those that its first start names; a frame that
/// never starts has none.
pub proof fn law_first_start_names_the_surface(
    frame: Seq<DirectFrameCommand>,
    at: int,
    width: u32,
    height: u32,
    clear: Option<ColorRgba>,
)
    requires
        0 <= at <= frame.len(),
        forall|j: int| 0 <= j < at ==> !(#[trigger] frame[j] is BeginFrame),
        at < frame.len() ==> frame[at] == (DirectFrameCommand::BeginFrame { width, height, clear }),
    ensures
        frame_header(frame) == if at < frame.len() {
            Some((width, height, clear))
        } else {
            None
        },
{
    if at < frame.len() {
        lemma_header_from(frame, 0, at);
    } else {
        lemma_no_header_from(frame, 0);
    }
}

/// A frame of another size or on another clear colour is new as a whole, and so is one
/// that follows a frame without a start, or has none itself.
pub proof fn law_another_surface_is_new_as_a_whole(
    previous: Seq<DirectFrameCommand>,
    current: Seq<DirectFrameCommand>,
    changed: Seq<TextureId>,
)
    requires
        ({
            let now = frame_header(current);
            let before = frame_header(previous);
            ||| now is None
            ||| before is None
            ||| (now->0).0 != (before->0).0
            ||| (now->0).1 != (before->0).1
            ||| (now->0).2 is Some != (before->0).2 is Some
            ||| (now->0).2 is Some && !colors_alike((now->0).2->0, (before->0).2->0)
        }),
    ensures
        damage_of(previous, current, changed) == HostedVisualDamage::Full,
{
    assert forall|x: Float32, y: Float32| #[trigger]
        crate::float::equal_numbers(x, y) == alike(x, y) by {
        crate::float::law_equal_numbers_have_equal_values(x, y);
    }
}

proof fn lemma_grown_least(
    bounds: Option<HostedDamageRect>,
    command: DirectFrameCommand,
    w: u32,
    h: u32,
    around: HostedDamageRect,
)
    requires
        bounds_inside(bounds, w, h),
        bounds is Some ==> covers(around, bounds->0),
        bounds_of(command, w, h) is Some ==> covers(around, bounds_of(command, w, h)->0),
    ensures
        grown(bounds, command, w, h) is Some ==> covers(around, grown(bounds, command, w, h)->0),
        bounds is None && bounds_of(command, w, h) is None ==> grown(bounds, command, w, h) is None,
{
    law_bounds_lie_on_the_surface(command, w, h);
}

proof fn lemma_grown_by_least(
    bounds: Option<HostedDamageRect>,
    frame: Seq<DirectFrameCommand>,
    from: int,
    to: int,
    w: u32,
    h: u32,
    around: HostedDamageRect,
)
    requires
        bounds_inside(bounds, w, h),
        0 <= from <= to <= frame.len(),
        bounds is Some ==> covers(around, bounds->0),
        forall|i: int|
            from <= i < to && bounds_of(#[trigger] frame[i], w, h) is Some ==> covers(
                around,
                bounds_of(frame[i], w, h)->0,
            ),
    ensures
        grown_by(bounds, frame, from, to, w, h) is Some ==> covers(
            around,
            grown_by(bounds, frame, from, to, w, h)->0,
        ),
    decreases to - from,
{
    if from < to {
        let next = grown(bounds, frame[from], w, h);
        lemma_grown(bounds, frame[from], w, h);
        lemma_grown_least(bounds, frame[from], w, h, around);
        lemma_grown_by_least(next, frame, from + 1, to, w, h, around);
    }
}

proof fn lemma_grown_by_textures_least(
    bounds: Option<HostedDamageRect>,
    frame: Seq<DirectFrameCommand>,
    from: int,
    changed: Seq<TextureId>,
    w: u32,
    h: u32,
    around: HostedDamageRect,
)
    requires
        bounds_inside(bounds, w, h),
        0 <= from <= frame.len(),
        bounds is Some ==> covers(around, bounds->0),
        forall|i: int|
            from <= i < frame.len() && uses_texture(#[trigger] frame[i], changed) && bounds_of(
                frame[i],
                w,
                h,
            ) is Some ==> covers(around, bounds_of(frame[i], w, h)->0),
    ensures
        grown_by_textures(bounds, frame, from, changed, w, h) is Some ==> covers(
            around,
            grown_by_textures(bounds, frame, from, changed, w, h)->0,
        ),
    decreases frame.len() - from,
{
    if from < frame.len() {
        let next = if uses_texture(frame[from], changed) {
            grown(bounds, frame[from], w, h)
        } else {
            bounds
        };
        lemma_grown(bounds, frame[from], w, h);
        if uses_texture(frame[from], changed) {
            lemma_grown_least(bounds, frame[from], w, h, around);
        }
        lemma_grown_by_textures_least(next, frame, from + 1, changed, w, h, around);
    }
}

/// Whether a command shows one of the textures.
pub open spec fn shows(command: DirectFrameCommand, textures: Seq<TextureId>) -> bool {
    command matches DirectFrameCommand::DrawSprite(s) && textures.contains(s.texture)
}

/// The damage is no larger than it has to be. Let two frames of one surface agree in the
/// commands before `start`, where they first differ, and in the last `end` ones behind
/// it. Then the damage rectangle lies in every rectangle around what the commands between draw, in
/// the old frame and in the new one, and around what shows a texture with new content.
pub proof fn law_damage_is_no_larger(
    previous: Seq<DirectFrameCommand>,
    current: Seq<DirectFrameCommand>,
    changed: Seq<TextureId>,
    start: int,
    end: int,
    around: HostedDamageRect,
)
    requires
        frame_header(current) is Some,
        0 <= start,
        0 <= end,
        start + end <= previous.len(),
        start + end <= current.len(),
        forall|i: int| 0 <= i < start ==> equal_commands(#[trigger] previous[i], current[i]),
        start < previous.len() && start < current.len() ==> !equal_commands(
            previous[start],
            current[start],
        ),
        forall|i: int|
            0 <= i < end ==> equal_commands(
                #[trigger] previous[previous.len() - 1 - i],
                current[current.len() - 1 - i],
            ),
        ({
            let w = (frame_header(current)->0).0;
            let h = (frame_header(current)->0).1;
            &&& forall|i: int|
                0 <= i < previous.len() && (start <= i < previous.len() - end || shows(
                    previous[i],
                    changed,
                )) && bounds_of(#[trigger] previous[i], w, h) is Some ==> covers(
                    around,
                    bounds_of(previous[i], w, h)->0,
                )
            &&& forall|i: int|
                0 <= i < current.len() && (start <= i < current.len() - end || shows(
                    current[i],
                    changed,
                )) && bounds_of(#[trigger] current[i], w, h) is Some ==> covers(
                    around,
                    bounds_of(current[i], w, h)->0,
                )
        }),
    ensures
        damage_of(previous, current, changed) matches HostedVisualDamage::Rect(r) ==> covers(around, r),
{
    let w = (frame_header(current)->0).0;
    let h = (frame_header(current)->0).1;
    lemma_start_reaches(previous, current, 0, start);
    lemma_end_reaches(previous, current, start, 0, end);
    lemma_common_end(previous, current, start, 0);
    let e = common_end(previous, current, start, 0);
    lemma_changed_least(previous, current, changed, start, e, w, h, around);
}

proof fn lemma_changed_least(
    previous: Seq<DirectFrameCommand>,
    current: Seq<DirectFrameCommand>,
    changed: Seq<TextureId>,
    start: int,
    end: int,
    w: u32,
    h: u32,
    around: HostedDamageRect,
)
    requires
        start == common_start(previous, current, 0),
        end == common_end(previous, current, start, 0),
        0 <= start <= previous.len() - end,
        start <= current.len() - end,
        0 <= end,
        forall|i: int|
            0 <= i < previous.len() && (start <= i < previous.len() - end || shows(
                previous[i],
                changed,
            )) && bounds_of(#[trigger] previous[i], w, h) is Some ==> covers(
                around,
                bounds_of(previous[i], w, h)->0,
            ),
        forall|i: int|
            0 <= i < current.len() && (start <= i < current.len() - end || shows(
                current[i],
                changed,
            )) && bounds_of(#[trigger] current[i], w, h) is Some ==> covers(
                around,
                bounds_of(current[i], w, h)->0,
            ),
    ensures
        changed_bounds(previous, current, changed, w, h) matches Some(r) ==> covers(around, r),
{
    let a = grown_by(None, previous, start, previous.len() - end, w, h);
    let b = grown_by(a, current, start, current.len() - end, w, h);
    let c = grown_by_textures(b, previous, 0, changed, w, h);
    lemma_grown_by(None, previous, start, previous.len() - end, w, h);
    lemma_grown_by_least(None, previous, start, previous.len() - end, w, h, around);
    lemma_grown_by(a, current, start, current.len() - end, w, h);
    lemma_grown_by_least(a, current, start, current.len() - end, w, h, around);
    lemma_grown_by_textures(b, previous, 0, changed, w, h);
    assert forall|i: int|
        0 <= i < previous.len() && uses_texture(#[trigger] previous[i], changed) && bounds_of(
            previous[i],
            w,
            h,
        ) is Some implies covers(around, bounds_of(previous[i], w, h)->0) by {
        assert(shows(previous[i], changed));
    }
    lemma_grown_by_textures_least(b, previous, 0, changed, w, h, around);
    assert forall|i: int|
        0 <= i < current.len() && uses_texture(#[trigger] current[i], changed) && bounds_of(
            current[i],
            w,
            h,
        ) is Some implies covers(around, bounds_of(current[i], w, h)->0) by {
        assert(shows(current[i], changed));
    }
    lemma_grown_by_textures_least(c, current, 0, changed, w, h, around);
}

proof fn lemma_start_reaches(a: Seq<DirectFrameCommand>, b: Seq<DirectFrameCommand>, i: int, start: int)
    requires
        0 <= i <= start <= a.len(),
        start <= b.len(),
        forall|j: int| i <= j < start ==> equal_commands(#[trigger] a[j], b[j]),
        start < a.len() && start < b.len() ==> !equal_commands(a[start], b[start]),
    ensures
        common_start(a, b, i) == start,
    decreases start - i,
{
    if i < start {
        assert(equal_commands(a[i], b[i]));
        lemma_start_reaches(a, b, i + 1, start);
    }
}

proof fn lemma_end_reaches(
    a: Seq<DirectFrameCommand>,
    b: Seq<DirectFrameCommand>,
    start: int,
    n: int,
    end: int,
)
    requires
        0 <= start <= a.len(),
        start <= b.len(),
        0 <= n <= end,
        n <= a.len() - start,
        n <= b.len() - start,
        end <= a.len() - start,
        end <= b.len() - start,
        forall|i: int|
            n <= i < end ==> equal_commands(#[trigger] a[a.len() - 1 - i], b[b.len() - 1 - i]),
    ensures
        end <= common_end(a, b, start, n),
    decreases end - n,
{
    lemma_common_end(a, b, start, n);
    if n < end && n < a.len() - start && n < b.len() - start {
        assert(equal_commands(a[a.len() - 1 - n], b[b.len() - 1 - n]));
        lemma_end_reaches(a, b, start, n + 1, end);
    }
}

/// A frame that is presented again, with no new content in between, changes nothing.
pub proof fn law_presenting_again_changes_nothing(tracker: TrackerView)
    requires
        equal_frames(tracker.frame, tracker.frame),
        frame_header(tracker.frame) is Some,
    ensures
        ({
            let once = tracker.presented();
            let again = TrackerView { frame: tracker.frame, ..once }.presented();
            &&& !again.visual_changed
            &&& again.visual_damage == HostedVisualDamage::Unchanged
            &&& again.textures == tracker.textures
            &&& once.frame.len() == 0
        }),
{
    law_equal_frames_damage_nothing(tracker.frame, tracker.frame);
}

/// New content of a texture is remembered until a frame is presented, and no longer.
pub proof fn law_new_content_is_shown_once(tracker: TrackerView, id: TextureId, desc: TextureDesc)
    ensures
        tracker.created(id, desc).changed.contains(id),
        tracker.created(id, desc).resource_changed,
        tracker.touched(id).changed.contains(id),
        tracker.created(id, desc).presented().visual_changed,
        tracker.created(id, desc).presented().changed.len() == 0,
        !tracker.created(id, desc).presented().resource_changed,
        forall|other: TextureId|
            tracker.changed.contains(other) ==> tracker.touched(id).changed.contains(other),
{
    let ids = tracker.changed;
    if !ids.contains(id) {
        assert(ids.push(id)[ids.len() as int] == id);
        assert forall|other: TextureId| ids.contains(other) implies ids.push(id).contains(other) by {
            let i = choose|i: int| 0 <= i < ids.len() && ids[i] == other;
            assert(ids.push(id)[i] == other);
        }
    }
}

proof fn lemma_texture_index(textures: Seq<(TextureId, TextureDesc)>, id: TextureId, from: int)
    requires
        0 <= from <= textures.len(),
    ensures
        match texture_index(textures, id, from) {
            Some(i) => {
                &&& from <= i < textures.len() && textures[i].0 == id
                &&& forall|j: int| from <= j < i ==> (#[trigger] textures[j]).0 != id
            },
            None => forall|j: int| from <= j < textures.len() ==> (#[trigger] textures[j]).0 != id,
        },
    decreases textures.len() - from,
{
    if from < textures.len() && textures[from].0 != id {
        lemma_texture_index(textures, id, from + 1);
    }
}

/// Whether a list of textures knows one with this description.
pub open spec fn knows(textures: Seq<(TextureId, TextureDesc)>, id: TextureId, desc: TextureDesc) -> bool {
    exists|i: int| 0 <= i < textures.len() && #[trigger] textures[i] == (id, desc)
}

proof fn lemma_without(textures: Seq<(TextureId, TextureDesc)>, id: TextureId)
    ensures
        forall|other: TextureId, desc: TextureDesc| #[trigger]
            knows(without(textures, id), other, desc) <==> knows(textures, other, desc) && other != id,
    decreases textures.len(),
{
    if textures.len() > 0 {
        let rest = textures.drop_last();
        lemma_without(rest, id);
        assert forall|other: TextureId, desc: TextureDesc| #[trigger]
            knows(without(textures, id), other, desc) <==> knows(textures, other, desc) && other
            != id by {
            let kept = without(rest, id);
            let all = without(textures, id);
            assert(knows(kept, other, desc) <==> knows(rest, other, desc) && other != id);
            if knows(all, other, desc) {
                let i = choose|i: int| 0 <= i < all.len() && #[trigger] all[i] == (other, desc);
                if i < kept.len() {
                    assert(kept[i] == (other, desc));
                } else {
                    assert(textures[textures.len() - 1] == (other, desc));
                }
                if knows(rest, other, desc) {
                    let j = choose|j: int| 0 <= j < rest.len() && #[trigger] rest[j] == (other, desc);
                    assert(textures[j] == (other, desc));
                }
            }
            if knows(textures, other, desc) && other != id {
                let i = choose|i: int|
                    0 <= i < textures.len() && #[trigger] textures[i] == (other, desc);
                if i < rest.len() {
                    assert(rest[i] == (other, desc));
                    let j = choose|j: int| 0 <= j < kept.len() && #[trigger] kept[j] == (other, desc);
                    assert(all[j] == (other, desc));
                } else {
                    assert(all[all.len() - 1] == (other, desc));
                }
            }
        }
    }
}

/// A new texture is known by its description from then on; the others stay as they are.
/// A texture that was destroyed is not known any more, and the others stay.
pub proof fn law_textures_live_from_creation_to_destruction(
    tracker: TrackerView,
    id: TextureId,
    desc: TextureDesc,
    other: TextureId,
    kept: TextureDesc,
)
    requires
        tracker.failure is None,
        other != id,
    ensures
        knows(tracker.created(id, desc).textures, id, desc),
        knows(tracker.created(id, desc).textures, other, kept) <==> knows(
            tracker.textures,
            other,
            kept,
        ),
        !knows(tracker.destroyed(id).textures, id, desc),
        knows(tracker.destroyed(id).textures, other, kept) <==> knows(tracker.textures, other, kept),
        tracker.destroyed(id).failure is Some <==> forall|d: TextureDesc| !knows(
            tracker.textures,
            id,
            d,
        ),
        tracker.destroyed(id).failure is Some ==> tracker.destroyed(id).failure == Some(
            RfvpError::NotFound,
        ),
{
    let old_list = tracker.textures;
    lemma_texture_index(old_list, id, 0);
    lemma_without(old_list, id);
    let place = texture_index(old_list, id, 0);
    let made = tracker.created(id, desc).textures;
    match place {
        Some(i) => {
            assert(made[i] == (id, desc));
            assert(knows(old_list, id, old_list[i].1));
        },
        None => {
            assert(made[old_list.len() as int] == (id, desc));
        },
    }
    if knows(made, other, kept) {
        let i = choose|i: int| 0 <= i < made.len() && #[trigger] made[i] == (other, kept);
        assert(old_list[i] == (other, kept));
    }
    if knows(old_list, other, kept) {
        let i = choose|i: int| 0 <= i < old_list.len() && #[trigger] old_list[i] == (other, kept);
        assert(made[i] == (other, kept));
    }
    assert(knows(without(old_list, id), id, desc) ==> false);
    assert(knows(without(old_list, id), other, kept) <==> knows(old_list, other, kept));
    if place is None {
        assert forall|d: TextureDesc| !knows(old_list, id, d) by {}
        assert(!knows(old_list, id, desc));
    }
}

/// The bytes that a pixel takes: four for both orders of red, green and blue with
/// opacity, three without it, two for brightness with opacity, one for either alone.
pub proof fn law_bytes_of_a_pixel(width: u32, height: u32, format: PixelFormat, bytes: int)
    requires
        width * height * 4 <= usize::MAX,
    ensures
        pixels_fault(width, height, format, bytes) == if bytes == width * height * (match format {
            PixelFormat::Rgba8 | PixelFormat::Bgra8 => 4int,
            PixelFormat::Rgb8 => 3,
            PixelFormat::LumaA8 => 2,
            PixelFormat::Luma8 | PixelFormat::Alpha8 => 1,
        }) {
            None
        } else {
            Some(RfvpError::InvalidData)
        },
{
    let n = width * height;
    assert(n * 3 <= n * 4 && n * 2 <= n * 4 && n * 1 <= n * 4) by (nonlinear_arith)
        requires
            n >= 0,
    ;
    assert(n >= 0) by (nonlinear_arith)
        requires
            n == width * height,
    ;
}

/// A region is updated if and only if its texture is known, it is not empty, lies in
/// the texture and comes with its pixels.
pub proof fn law_region_lies_in_its_texture(
    tracker: TrackerView,
    at: int,
    rect: TextureRect,
    pixels: int,
)
    requires
        tracker.failure is None,
        0 <= at < tracker.textures.len(),
        forall|j: int|
            0 <= j < at ==> (#[trigger] tracker.textures[j]).0 != tracker.textures[at].0,
    ensures
        ({
            let desc = tracker.textures[at].1;
            tracker.update_fault(tracker.textures[at].0, rect, pixels) is None <==> {
                &&& rect.width > 0
                &&& rect.height > 0
                &&& rect.x + rect.width <= desc.width
                &&& rect.y + rect.height <= desc.height
                &&& pixels_fault(rect.width, rect.height, desc.format, pixels) is None
            }
        }),
{
    lemma_texture_index(tracker.textures, tracker.textures[at].0, 0);
}

}
