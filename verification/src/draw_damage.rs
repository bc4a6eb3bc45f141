//! What a 2D drawing command changes on the surface.
use vstd::prelude::*;

use crate::damage::DamageEffect;

verus! {

/// A 2D command, without its operands.
#[derive(Clone, Copy, Debug, PartialEq, Eq, Structural)]
pub enum DrawCommand {
    BeginPath,
    ClosePath,
    MoveTo,
    LineTo,
    QuadraticCurveTo,
    BezierCurveTo,
    Arc,
    ArcTo,
    Rect,
    Ellipse,
    SetFillStyle,
    SetStrokeStyle,
    SetLineWidth,
    SetLineCap,
    SetLineJoin,
    SetMiterLimit,
    SetGlobalAlpha,
    SetCompositeOperation,
    SetLineDash,
    SetLineDashOffset,
    SetShadowBlur,
    SetShadowColor,
    SetShadowOffsetX,
    SetShadowOffsetY,
    SetFillStyleGradient,
    SetStrokeStyleGradient,
    SetFillStylePattern,
    SetStrokeStylePattern,
    SetFont,
    SetTextAlign,
    SetTextBaseline,
    SetTextDirection,
    Save,
    Restore,
    SetTransform,
    ResetTransform,
    Translate,
    Rotate,
    Scale,
    Clip,
    MeasureText,
    GetImageData,
    CaptureSnapshot,
    ReadSnapshotPixels,
    CreateContext2D,
    ResizeCanvas,
    FillRect,
    ClearRect,
    StrokeRect,
    DrawImage,
    DrawImageBatch,
    /// Any other command: it paints, and what it covers is not known in advance.
    Other,
}

impl DrawCommand {
    /// The command paints a rectangle, or several.
    pub open spec fn paints_rects(self) -> bool {
        self is FillRect || self is ClearRect || self is StrokeRect || self is DrawImage
            || self is DrawImageBatch
    }

    /// The command only changes state, builds a path or reads.
    pub open spec fn leaves_pixels(self) -> bool {
        !self.paints_rects() && !(self is Other)
    }

    /// Whether the command paints anything.
    pub fn paints(self) -> (b: bool)
        ensures
            b == !self.leaves_pixels(),
    {
        self.is_rect() || matches!(self, DrawCommand::Other)
    }

    /// Whether the command paints a rectangle, or several.
    pub fn is_rect(self) -> (b: bool)
        ensures
            b == self.paints_rects(),
    {
        matches!(
            self,
            DrawCommand::FillRect
                | DrawCommand::ClearRect
                | DrawCommand::StrokeRect
                | DrawCommand::DrawImage
                | DrawCommand::DrawImageBatch
        )
    }
}

/// What a 2D context paints with, as far as it decides where paint can land.
#[derive(Clone, Copy, Debug, PartialEq, Eq, Structural)]
pub struct PaintFacts {
    /// A shadow is drawn.
    pub shadow_visible: bool,
    /// Paint is put over what is there.
    pub source_over: bool,
    /// Paint is not made more transparent.
    pub opaque: bool,
    /// Lines meet in points.
    pub miter_join: bool,
    /// The points may be longer than they are by default.
    pub long_miters: bool,
    /// The transform keeps the sides of a rectangle parallel to the axes.
    pub axis_aligned: bool,
}

/// Paint stays in the rectangle that a command names.
pub open spec fn stays_inside(facts: PaintFacts) -> bool {
    &&& !facts.shadow_visible
    &&& facts.source_over
    &&& facts.opaque
    &&& !(facts.miter_join && facts.long_miters)
    &&& facts.axis_aligned
}

/// Whether the damage of a rectangle may be told as a rectangle. Nothing is remembered: a
/// state that is safe again allows it again.
pub fn state_allows_partial(facts: &PaintFacts) -> (b: bool)
    ensures
        b == stays_inside(*facts),
{
    if facts.shadow_visible {
        return false;
    }
    if !facts.source_over {
        return false;
    }
    if !facts.opaque {
        return false;
    }
    if facts.miter_join && facts.long_miters {
        return false;
    }
    facts.axis_aligned
}

/// What the rectangles of a command cover on the surface, to whole pixels outward.
#[derive(Clone, Copy, Debug, PartialEq, Eq, Structural)]
pub enum Covered {
    /// They have no area, or no numbers for sides.
    Nothing,
    /// The transform has no answer.
    Unknown,
    Pixels { left: i32, top: i32, right: i32, bottom: i32 },
}

/// The length of a side, as far as it can be written down.
pub open spec fn side(from: i32, to: i32) -> i32 {
    if to <= from {
        0
    } else if to - from > i32::MAX {
        i32::MAX
    } else {
        (to - from) as i32
    }
}

/// The damage of rectangles that cover that much.
pub open spec fn rect_damage(covered: Covered) -> DamageEffect {
    match covered {
        Covered::Nothing => DamageEffect::NoDamage,
        Covered::Unknown => DamageEffect::FullSurface,
        Covered::Pixels { left, top, right, bottom } => DamageEffect::OnscreenRect {
            x: left,
            y: top,
            width: side(left, right),
            height: side(top, bottom),
        },
    }
}

/// The damage of a command.
pub open spec fn draw_damage(cmd: DrawCommand, facts: PaintFacts, covered: Covered) -> DamageEffect {
    if cmd.leaves_pixels() {
        DamageEffect::NoDamage
    } else if !stays_inside(facts) {
        DamageEffect::FullSurface
    } else if cmd.paints_rects() {
        rect_damage(covered)
    } else {
        DamageEffect::FullSurface
    }
}

fn side_length(from: i32, to: i32) -> (n: i32)
    ensures
        n == side(from, to),
{
    if to <= from {
        0
    } else {
        let length: i64 = to as i64 - from as i64;
        if length > i32::MAX as i64 {
            i32::MAX
        } else {
            length as i32
        }
    }
}

/// The damage of a command: nothing for one that does not paint, a rectangle for one that
/// paints rectangles and cannot paint outside of them, and otherwise the whole surface.
/// `covered` is what the rectangles of such a command cover.
pub fn classify_draw_damage(cmd: DrawCommand, facts: &PaintFacts, covered: Covered) -> (effect:
    DamageEffect)
    ensures
        effect == draw_damage(cmd, *facts, covered),
{
    if !cmd.paints() {
        return DamageEffect::NoDamage;
    }
    if !state_allows_partial(facts) {
        return DamageEffect::FullSurface;
    }
    if !cmd.is_rect() {
        return DamageEffect::FullSurface;
    }
    match covered {
        Covered::Nothing => DamageEffect::NoDamage,
        Covered::Unknown => DamageEffect::FullSurface,
        Covered::Pixels { left, top, right, bottom } => DamageEffect::OnscreenRect {
            x: left,
            y: top,
            width: side_length(left, right),
            height: side_length(top, bottom),
        },
    }
}

/// A rectangle is declared only where paint cannot land outside of it, and it is the one
/// that the command covers. A command that does not paint damages nothing in any state.
pub proof fn law_partial_damage_is_safe(cmd: DrawCommand, facts: PaintFacts, covered: Covered)
    ensures
        draw_damage(cmd, facts, covered) is OnscreenRect ==> cmd.paints_rects() && stays_inside(
            facts,
        ) && covered is Pixels && draw_damage(cmd, facts, covered) == rect_damage(covered),
        cmd.leaves_pixels() ==> draw_damage(cmd, facts, covered) is NoDamage,
        draw_damage(cmd, facts, covered) is NoDamage ==> cmd.leaves_pixels() || (
        cmd.paints_rects() && covered is Nothing),
{
}

/// The declared rectangle holds every pixel that the command covers, up to what a side can
/// be written down as.
pub proof fn law_damage_covers_the_paint(
    cmd: DrawCommand,
    facts: PaintFacts,
    left: i32,
    top: i32,
    right: i32,
    bottom: i32,
    px: i32,
    py: i32,
)
    requires
        cmd.paints_rects(),
        left <= px < right,
        top <= py < bottom,
        right - left <= i32::MAX,
        bottom - top <= i32::MAX,
    ensures
        match draw_damage(cmd, facts, Covered::Pixels { left, top, right, bottom }) {
            DamageEffect::FullSurface => true,
            DamageEffect::OnscreenRect { x, y, width, height } => x <= px < x + width && y <= py < y
                + height,
            DamageEffect::NoDamage => false,
        },
{
}

/// The five commands that paint rectangles damage every pixel that they cover, in every
/// state: with a rectangle around it, or with the whole surface.
pub proof fn law_rectangles_are_never_left_out(
    cmd: DrawCommand,
    facts: PaintFacts,
    left: i32,
    top: i32,
    right: i32,
    bottom: i32,
    effect: DamageEffect,
)
    requires
        cmd == DrawCommand::FillRect || cmd == DrawCommand::ClearRect || cmd
            == DrawCommand::StrokeRect || cmd == DrawCommand::DrawImage || cmd
            == DrawCommand::DrawImageBatch,
        left < right,
        top < bottom,
        call_ensures(
            classify_draw_damage,
            (cmd, &facts, Covered::Pixels { left, top, right, bottom }),
            effect,
        ),
    ensures
        effect != DamageEffect::NoDamage,
        effect matches DamageEffect::OnscreenRect { x, y, width, height } ==> {
            &&& x == left && y == top
            &&& x + width == right || width == i32::MAX
            &&& y + height == bottom || height == i32::MAX
            &&& width > 0 && height > 0
        },
{
}

/// A state in which paint can land outside of the rectangle that a command names has the whole
/// surface damaged by every command that paints; in any other state the five commands that
/// paint rectangles damage no more than those.
pub proof fn law_unsafe_states_damage_everything(
    cmd: DrawCommand,
    facts: PaintFacts,
    covered: Covered,
    effect: DamageEffect,
)
    requires
        cmd == DrawCommand::FillRect || cmd == DrawCommand::ClearRect || cmd
            == DrawCommand::StrokeRect || cmd == DrawCommand::DrawImage || cmd
            == DrawCommand::DrawImageBatch || cmd == DrawCommand::Other,
        call_ensures(classify_draw_damage, (cmd, &facts, covered), effect),
    ensures
        facts.shadow_visible || !facts.source_over || !facts.opaque || !facts.axis_aligned || (
        facts.miter_join && facts.long_miters) ==> effect == DamageEffect::FullSurface,
        cmd == DrawCommand::Other ==> effect == DamageEffect::FullSurface,
        !facts.shadow_visible && facts.source_over && facts.opaque && facts.axis_aligned && !(
        facts.miter_join && facts.long_miters) && cmd != DrawCommand::Other ==> match covered {
            Covered::Nothing => effect == DamageEffect::NoDamage,
            Covered::Unknown => effect == DamageEffect::FullSurface,
            Covered::Pixels { .. } => effect is OnscreenRect,
        },
{
}

/// A command that is neither one of the five that paint rectangles nor one of those that are
/// not told apart damages nothing, whatever the state and whatever it is said to cover.
pub proof fn law_other_commands_damage_nothing(
    cmd: DrawCommand,
    facts: PaintFacts,
    covered: Covered,
    effect: DamageEffect,
)
    requires
        cmd != DrawCommand::FillRect,
        cmd != DrawCommand::ClearRect,
        cmd != DrawCommand::StrokeRect,
        cmd != DrawCommand::DrawImage,
        cmd != DrawCommand::DrawImageBatch,
        cmd != DrawCommand::Other,
        call_ensures(classify_draw_damage, (cmd, &facts, covered), effect),
    ensures
        effect == DamageEffect::NoDamage,
{
}

/// The commands that paint rectangles are five, and those that paint anything are these and the
/// ones whose reach is not known.
pub proof fn law_which_commands_paint(cmd: DrawCommand, paints: bool, rects: bool)
    requires
        call_ensures(DrawCommand::paints, (cmd,), paints),
        call_ensures(DrawCommand::is_rect, (cmd,), rects),
    ensures
        cmd is FillRect || cmd is ClearRect || cmd is StrokeRect || cmd is DrawImage
            || cmd is DrawImageBatch ==> rects && paints,
        cmd is Other ==> paints && !rects,
        rects ==> paints,
        rects ==> cmd is FillRect || cmd is ClearRect || cmd is StrokeRect || cmd is DrawImage
            || cmd is DrawImageBatch,
        paints ==> rects || cmd is Other,
{
}

/// Paint stays in its rectangle exactly if no shadow is drawn, paint goes opaquely over what is
/// there, no join sticks out and the sides stay parallel to the axes.
pub proof fn law_when_paint_stays_inside(facts: PaintFacts, inside: bool)
    requires
        call_ensures(state_allows_partial, (&facts,), inside),
    ensures
        facts.shadow_visible || !facts.source_over || !facts.opaque || !facts.axis_aligned
            ==> !inside,
        facts.miter_join && facts.long_miters ==> !inside,
        !facts.shadow_visible && facts.source_over && facts.opaque && facts.axis_aligned && !(
        facts.miter_join && facts.long_miters) ==> inside,
{
}

} // verus!
