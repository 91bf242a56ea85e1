use path_kernel::blend_mode::{BlendMode, Stage};

fn all_modes() -> Vec<BlendMode> {
    vec![
        BlendMode::Clear,
        BlendMode::Source,
        BlendMode::Destination,
        BlendMode::SourceOver,
        BlendMode::DestinationOver,
        BlendMode::SourceIn,
        BlendMode::DestinationIn,
        BlendMode::SourceOut,
        BlendMode::DestinationOut,
        BlendMode::SourceAtop,
        BlendMode::DestinationAtop,
        BlendMode::Xor,
        BlendMode::Plus,
        BlendMode::Modulate,
        BlendMode::Screen,
        BlendMode::Overlay,
        BlendMode::Darken,
        BlendMode::Lighten,
        BlendMode::ColorDodge,
        BlendMode::ColorBurn,
        BlendMode::HardLight,
        BlendMode::SoftLight,
        BlendMode::Difference,
        BlendMode::Exclusion,
        BlendMode::Multiply,
        BlendMode::Hue,
        BlendMode::Saturation,
        BlendMode::Color,
        BlendMode::Luminosity,
    ]
}

#[test]
fn pre_scale_holds_of_seven_modes() {
    let yes = [
        BlendMode::Destination,
        BlendMode::DestinationOver,
        BlendMode::Plus,
        BlendMode::DestinationOut,
        BlendMode::SourceAtop,
        BlendMode::SourceOver,
        BlendMode::Xor,
    ];
    let mut count = 0;
    for mode in all_modes() {
        assert_eq!(mode.should_pre_scale_coverage(), yes.contains(&mode));
        if mode.should_pre_scale_coverage() {
            count += 1;
        }
    }
    assert_eq!(count, 7);
    assert_eq!(all_modes().len() - count, 22);
}

#[test]
fn only_source_has_no_stage() {
    for mode in all_modes() {
        assert_eq!(mode.to_stage().is_none(), mode == BlendMode::Source);
    }
}

#[test]
fn stages_are_distinct() {
    let modes = all_modes();
    for a in &modes {
        for b in &modes {
            if a != b {
                assert_ne!(a.to_stage(), b.to_stage());
            }
        }
    }
}

#[test]
fn stage_of_each_mode() {
    assert_eq!(BlendMode::Clear.to_stage(), Some(Stage::Clear));
    assert_eq!(BlendMode::Source.to_stage(), None);
    assert_eq!(BlendMode::Destination.to_stage(), Some(Stage::MoveDestinationToSource));
    assert_eq!(BlendMode::SourceOver.to_stage(), Some(Stage::SourceOver));
    assert_eq!(BlendMode::DestinationOver.to_stage(), Some(Stage::DestinationOver));
    assert_eq!(BlendMode::SourceIn.to_stage(), Some(Stage::SourceIn));
    assert_eq!(BlendMode::DestinationIn.to_stage(), Some(Stage::DestinationIn));
    assert_eq!(BlendMode::SourceOut.to_stage(), Some(Stage::SourceOut));
    assert_eq!(BlendMode::DestinationOut.to_stage(), Some(Stage::DestinationOut));
    assert_eq!(BlendMode::SourceAtop.to_stage(), Some(Stage::SourceAtop));
    assert_eq!(BlendMode::DestinationAtop.to_stage(), Some(Stage::DestinationAtop));
    assert_eq!(BlendMode::Xor.to_stage(), Some(Stage::Xor));
    assert_eq!(BlendMode::Plus.to_stage(), Some(Stage::Plus));
    assert_eq!(BlendMode::Modulate.to_stage(), Some(Stage::Modulate));
    assert_eq!(BlendMode::Screen.to_stage(), Some(Stage::Screen));
    assert_eq!(BlendMode::Overlay.to_stage(), Some(Stage::Overlay));
    assert_eq!(BlendMode::Darken.to_stage(), Some(Stage::Darken));
    assert_eq!(BlendMode::Lighten.to_stage(), Some(Stage::Lighten));
    assert_eq!(BlendMode::ColorDodge.to_stage(), Some(Stage::ColorDodge));
    assert_eq!(BlendMode::ColorBurn.to_stage(), Some(Stage::ColorBurn));
    assert_eq!(BlendMode::HardLight.to_stage(), Some(Stage::HardLight));
    assert_eq!(BlendMode::SoftLight.to_stage(), Some(Stage::SoftLight));
    assert_eq!(BlendMode::Difference.to_stage(), Some(Stage::Difference));
    assert_eq!(BlendMode::Exclusion.to_stage(), Some(Stage::Exclusion));
    assert_eq!(BlendMode::Multiply.to_stage(), Some(Stage::Multiply));
    assert_eq!(BlendMode::Hue.to_stage(), Some(Stage::Hue));
    assert_eq!(BlendMode::Saturation.to_stage(), Some(Stage::Saturation));
    assert_eq!(BlendMode::Color.to_stage(), Some(Stage::Color));
    assert_eq!(BlendMode::Luminosity.to_stage(), Some(Stage::Luminosity));
}

#[test]
fn default_mode_is_source_over() {
    assert_eq!(BlendMode::default(), BlendMode::SourceOver);
}
