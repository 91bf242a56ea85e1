//! Blend modes and the pipeline stage each one selects.

use vstd::prelude::*;

verus! {

/// A blending mode.
#[derive(Copy, Clone, Eq, PartialEq, Structural, Ord, PartialOrd, Debug)]
pub enum BlendMode {
    /// Replaces destination with zero: fully transparent.
    Clear,
    /// Replaces destination.
    Source,
    /// Preserves destination.
    Destination,
    /// Source over destination.
    SourceOver,
    /// Destination over source.
    DestinationOver,
    /// Source trimmed inside destination.
    SourceIn,
    /// Destination trimmed by source.
    DestinationIn,
    /// Source trimmed outside destination.
    SourceOut,
    /// Destination trimmed outside source.
    DestinationOut,
    /// Source inside destination blended with destination.
    SourceAtop,
    /// Destination inside source blended with source.
    DestinationAtop,
    /// Each of source and destination trimmed outside the other.
    Xor,
    /// Sum of colors.
    Plus,
    /// Product of premultiplied colors; darkens destination.
    Modulate,
    /// Multiply inverse of pixels, inverting result; brightens destination.
    Screen,
    /// Multiply or screen, depending on destination.
    Overlay,
    /// Darker of source and destination.
    Darken,
    /// Lighter of source and destination.
    Lighten,
    /// Brighten destination to reflect source.
    ColorDodge,
    /// Darken destination to reflect source.
    ColorBurn,
    /// Multiply or screen, depending on source.
    HardLight,
    /// Lighten or darken, depending on source.
    SoftLight,
    /// Subtract darker from lighter with higher contrast.
    Difference,
    /// Subtract darker from lighter with lower contrast.
    Exclusion,
    /// Multiply source with destination, darkening image.
    Multiply,
    /// Hue of source with saturation and luminosity of destination.
    Hue,
    /// Saturation of source with hue and luminosity of destination.
    Saturation,
    /// Hue and saturation of source with luminosity of destination.
    Color,
    /// Luminosity of source with hue and saturation of destination.
    Luminosity,
}

/// The compositing stage of the rendering pipeline that carries out a blend.
#[derive(Copy, Clone, Eq, PartialEq, Structural, Debug)]
pub enum Stage {
    Clear,
    MoveDestinationToSource,
    SourceOver,
    DestinationOver,
    SourceIn,
    DestinationIn,
    SourceOut,
    DestinationOut,
    SourceAtop,
    DestinationAtop,
    Xor,
    Plus,
    Modulate,
    Screen,
    Overlay,
    Darken,
    Lighten,
    ColorDodge,
    ColorBurn,
    HardLight,
    SoftLight,
    Difference,
    Exclusion,
    Multiply,
    Hue,
    Saturation,
    Color,
    Luminosity,
}

impl Default for BlendMode {
    fn default() -> (r: BlendMode)
        ensures
            r == BlendMode::SourceOver,
    {
        BlendMode::SourceOver
    }
}

impl BlendMode {
    /// The blend formula has no term in the source alpha alone, so the source
    /// may be scaled by coverage before the blend.
    ///
    /// `Destination` is `d`, `DestinationOver` is `d + s*inv(da)` and `Plus` is
    /// `clamp(s+d)`: none has a source-alpha term. `DestinationOut`,
    /// `SourceAtop`, `SourceOver` and `Xor` have one only in `inv(sa)`, which
    /// scales with the source.
    pub open spec fn pre_scales_coverage(self) -> bool {
        self == BlendMode::Destination || self == BlendMode::DestinationOver || self
            == BlendMode::Plus || self == BlendMode::DestinationOut || self
            == BlendMode::SourceAtop || self == BlendMode::SourceOver || self == BlendMode::Xor
    }

    /// The stage that carries out the mode; `Source` needs none.
    pub open spec fn stage(self) -> Option<Stage> {
        match self {
            BlendMode::Clear => Some(Stage::Clear),
            BlendMode::Source => None,
            BlendMode::Destination => Some(Stage::MoveDestinationToSource),
            BlendMode::SourceOver => Some(Stage::SourceOver),
            BlendMode::DestinationOver => Some(Stage::DestinationOver),
            BlendMode::SourceIn => Some(Stage::SourceIn),
            BlendMode::DestinationIn => Some(Stage::DestinationIn),
            BlendMode::SourceOut => Some(Stage::SourceOut),
            BlendMode::DestinationOut => Some(Stage::DestinationOut),
            BlendMode::SourceAtop => Some(Stage::SourceAtop),
            BlendMode::DestinationAtop => Some(Stage::DestinationAtop),
            BlendMode::Xor => Some(Stage::Xor),
            BlendMode::Plus => Some(Stage::Plus),
            BlendMode::Modulate => Some(Stage::Modulate),
            BlendMode::Screen => Some(Stage::Screen),
            BlendMode::Overlay => Some(Stage::Overlay),
            BlendMode::Darken => Some(Stage::Darken),
            BlendMode::Lighten => Some(Stage::Lighten),
            BlendMode::ColorDodge => Some(Stage::ColorDodge),
            BlendMode::ColorBurn => Some(Stage::ColorBurn),
            BlendMode::HardLight => Some(Stage::HardLight),
            BlendMode::SoftLight => Some(Stage::SoftLight),
            BlendMode::Difference => Some(Stage::Difference),
            BlendMode::Exclusion => Some(Stage::Exclusion),
            BlendMode::Multiply => Some(Stage::Multiply),
            BlendMode::Hue => Some(Stage::Hue),
            BlendMode::Saturation => Some(Stage::Saturation),
            BlendMode::Color => Some(Stage::Color),
            BlendMode::Luminosity => Some(Stage::Luminosity),
        }
    }

    /// Whether the source may be scaled by coverage before the blend.
    pub fn should_pre_scale_coverage(self) -> (r: bool)
        ensures
            r == self.pre_scales_coverage(),
    {
        matches!(
            self,
            BlendMode::Destination | BlendMode::DestinationOver | BlendMode::Plus
                | BlendMode::DestinationOut | BlendMode::SourceAtop | BlendMode::SourceOver
                | BlendMode::Xor
        )
    }

    /// The pipeline stage of the mode, or `None` where the blend is a no-op.
    pub fn to_stage(self) -> (r: Option<Stage>)
        ensures
            r == self.stage(),
    {
        match self {
            BlendMode::Clear => Some(Stage::Clear),
            BlendMode::Source => None,
            BlendMode::Destination => Some(Stage::MoveDestinationToSource),
            BlendMode::SourceOver => Some(Stage::SourceOver),
            BlendMode::DestinationOver => Some(Stage::DestinationOver),
            BlendMode::SourceIn => Some(Stage::SourceIn),
            BlendMode::DestinationIn => Some(Stage::DestinationIn),
            BlendMode::SourceOut => Some(Stage::SourceOut),
            BlendMode::DestinationOut => Some(Stage::DestinationOut),
            BlendMode::SourceAtop => Some(Stage::SourceAtop),
            BlendMode::DestinationAtop => Some(Stage::DestinationAtop),
            BlendMode::Xor => Some(Stage::Xor),
            BlendMode::Plus => Some(Stage::Plus),
            BlendMode::Modulate => Some(Stage::Modulate),
            BlendMode::Screen => Some(Stage::Screen),
            BlendMode::Overlay => Some(Stage::Overlay),
            BlendMode::Darken => Some(Stage::Darken),
            BlendMode::Lighten => Some(Stage::Lighten),
            BlendMode::ColorDodge => Some(Stage::ColorDodge),
            BlendMode::ColorBurn => Some(Stage::ColorBurn),
            BlendMode::HardLight => Some(Stage::HardLight),
            BlendMode::SoftLight => Some(Stage::SoftLight),
            BlendMode::Difference => Some(Stage::Difference),
            BlendMode::Exclusion => Some(Stage::Exclusion),
            BlendMode::Multiply => Some(Stage::Multiply),
            BlendMode::Hue => Some(Stage::Hue),
            BlendMode::Saturation => Some(Stage::Saturation),
            BlendMode::Color => Some(Stage::Color),
            BlendMode::Luminosity => Some(Stage::Luminosity),
        }
    }
}

/// Only `Source` has no stage.
pub proof fn lemma_only_source_is_a_no_op(mode: BlendMode)
    ensures
        mode.stage() is None <==> mode == BlendMode::Source,
{
}

/// Two modes never share a stage.
pub proof fn lemma_stages_are_distinct(a: BlendMode, b: BlendMode)
    requires
        a.stage() == b.stage(),
    ensures
        a == b,
{
}

/// Every stage but none is selected by some mode: the mapping is onto.
pub proof fn lemma_every_stage_is_selected(stage: Stage)
    ensures
        exists|mode: BlendMode| mode.stage() == Some(stage),
{
    let mode = match stage {
        Stage::Clear => BlendMode::Clear,
        Stage::MoveDestinationToSource => BlendMode::Destination,
        Stage::SourceOver => BlendMode::SourceOver,
        Stage::DestinationOver => BlendMode::DestinationOver,
        Stage::SourceIn => BlendMode::SourceIn,
        Stage::DestinationIn => BlendMode::DestinationIn,
        Stage::SourceOut => BlendMode::SourceOut,
        Stage::DestinationOut => BlendMode::DestinationOut,
        Stage::SourceAtop => BlendMode::SourceAtop,
        Stage::DestinationAtop => BlendMode::DestinationAtop,
        Stage::Xor => BlendMode::Xor,
        Stage::Plus => BlendMode::Plus,
        Stage::Modulate => BlendMode::Modulate,
        Stage::Screen => BlendMode::Screen,
        Stage::Overlay => BlendMode::Overlay,
        Stage::Darken => BlendMode::Darken,
        Stage::Lighten => BlendMode::Lighten,
        Stage::ColorDodge => BlendMode::ColorDodge,
        Stage::ColorBurn => BlendMode::ColorBurn,
        Stage::HardLight => BlendMode::HardLight,
        Stage::SoftLight => BlendMode::SoftLight,
        Stage::Difference => BlendMode::Difference,
        Stage::Exclusion => BlendMode::Exclusion,
        Stage::Multiply => BlendMode::Multiply,
        Stage::Hue => BlendMode::Hue,
        Stage::Saturation => BlendMode::Saturation,
        Stage::Color => BlendMode::Color,
        Stage::Luminosity => BlendMode::Luminosity,
    };
    assert(mode.stage() == Some(stage));
}

} // verus!
