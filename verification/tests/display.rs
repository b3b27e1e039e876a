use slicedisplay::SliceDisplay;

#[test]
fn slice_display_empty() {
    // Slightly redundant in order to ensure that we can
    // call display on every supported container kind
    let empty: Vec<u8> = Vec::new();
    let empty_array: [u8; 0] = [];
    let empty_slice: &[u8] = &[];

    assert_eq!(empty.display().to_text(), "[]");
    assert_eq!(empty_array.display().to_text(), "[]");
    assert_eq!(empty_slice.display().to_text(), "[]");
}

#[test]
fn slice_display_single() {
    let single = [1];
    assert_eq!(single.display().to_text(), "[1]");
}

#[test]
fn slice_display_multiple() {
    let numbers = [1, 2, 3, 4, 5];
    assert_eq!(numbers.display().to_text(), "[1, 2, 3, 4, 5]");
}

#[test]
fn slice_display_custom_delimiter() {
    let numbers = [1, 2, 3, 4, 5];
    assert_eq!(numbers.display().delimiter(';').to_text(), "[1; 2; 3; 4; 5]");
    assert_eq!(
        numbers.display().delimiter('-').should_space(false).to_text(),
        "[1-2-3-4-5]"
    );
}

#[test]
fn slice_display_custom_terminators() {
    let numbers = [1, 2, 3, 4, 5];
    assert_eq!(numbers.display().terminator('{', '}').to_text(), "{1, 2, 3, 4, 5}");
    assert_eq!(
        numbers
            .display()
            .terminator('{', '}')
            .should_space(false)
            .delimiter(';')
            .to_text(),
        "{1;2;3;4;5}"
    );
}
