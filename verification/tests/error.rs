use anim_to_vtk::error::ConvertError;

#[test]
fn each_fatal_condition_has_its_message() {
    assert_eq!(ConvertError::Truncated.message(), "Error in reading file");
    assert_eq!(
        ConvertError::UnsupportedVersion.message(),
        "Error in Anim Files version"
    );
    assert_eq!(
        ConvertError::NegativeCount.message(),
        "Error in reading file: negative count"
    );
    assert_eq!(
        ConvertError::Incomplete.message(),
        "Error in Anim Files content: incomplete frame"
    );
}
