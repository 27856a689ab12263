use tokyo_library::render::{orientation_of, oriented_size, rotation_for, RenderError, Rotation};

#[test]
fn side_codes_swap_size() {
    assert_eq!(oriented_size(6000, 4000, rotation_for(1)), (6000, 4000));
    assert_eq!(oriented_size(6000, 4000, rotation_for(6)), (4000, 6000));
    assert_eq!(oriented_size(6000, 4000, rotation_for(8)), (4000, 6000));
}

#[test]
fn orientation_code_mapping() {
    assert_eq!(rotation_for(5), Rotation::Quarter);
    assert_eq!(rotation_for(6), Rotation::Quarter);
    assert_eq!(rotation_for(7), Rotation::ThreeQuarter);
    assert_eq!(rotation_for(8), Rotation::ThreeQuarter);
    for code in [0u16, 1, 2, 3, 4, 9] {
        assert_eq!(rotation_for(code), Rotation::Identity);
    }
}

#[test]
fn missing_orientation_is_an_error() {
    assert_eq!(orientation_of(None), Err(RenderError::MissingOrientation));
    assert_eq!(orientation_of(Some(6)), Ok(Rotation::Quarter));
}

#[test]
fn render_error_messages_name_decoding() {
    for e in [
        RenderError::Unreadable,
        RenderError::UnsupportedFormat,
        RenderError::InvalidImage,
        RenderError::MissingOrientation,
    ] {
        assert!(e.message().starts_with("failed to decode image"));
    }
}
