use slicedisplay::sink::BoundedSink;
use slicedisplay::sink::StringSink;
use slicedisplay::sink::WriteError;
use slicedisplay::SliceDisplay;

#[test]
fn builder_purity() {
    let numbers = [7, 8, 9];
    let handle = numbers.display();
    let _loud = handle.terminator('<', '>').delimiter('|').should_space(false);
    // The receiver was copied, not mutated: it still renders with defaults.
    assert_eq!(handle.to_text(), "[7, 8, 9]");
    assert_eq!(numbers.display().to_text(), "[7, 8, 9]");
}

#[test]
fn builder_last_write_wins() {
    let numbers = [1, 2];
    assert_eq!(
        numbers.display().delimiter('|').delimiter(';').to_text(),
        numbers.display().delimiter(';').to_text()
    );
    assert_eq!(
        numbers.display().terminator('(', ')').terminator('{', '}').to_text(),
        numbers.display().terminator('{', '}').to_text()
    );
    assert_eq!(
        numbers.display().should_space(false).should_space(true).to_text(),
        numbers.display().should_space(true).to_text()
    );
}

#[test]
fn rendering_is_pure() {
    let numbers = [4, 0, 4];
    let handle = numbers.display().delimiter(':');
    assert_eq!(handle.to_text(), handle.to_text());
}

#[test]
fn uniform_over_container_kinds() {
    let owned: Vec<i32> = vec![1, 2, 3];
    let array: [i32; 3] = [1, 2, 3];
    let slice: &[i32] = &array;
    assert_eq!(owned.display().to_text(), "[1, 2, 3]");
    assert_eq!(array.display().to_text(), "[1, 2, 3]");
    assert_eq!(slice.display().to_text(), "[1, 2, 3]");
}

#[test]
fn renders_chars() {
    let hello: Vec<char> = "Hello".chars().collect();
    assert_eq!(hello.display().to_text(), "[H, e, l, l, o]");
    assert_eq!(hello.display().terminator('{', '}').to_text(), "{H, e, l, l, o}");
    assert_eq!(hello.display().delimiter(';').to_text(), "[H; e; l; l; o]");
    assert_eq!(
        hello.display().delimiter(';').should_space(false).to_text(),
        "[H;e;l;l;o]"
    );
}

#[test]
fn renders_integer_extremes() {
    assert_eq!([0u8].display().to_text(), "[0]");
    assert_eq!([255u8].display().to_text(), "[255]");
    assert_eq!([65535u16].display().to_text(), "[65535]");
    assert_eq!([4294967295u32].display().to_text(), "[4294967295]");
    assert_eq!([18446744073709551615u64].display().to_text(), "[18446744073709551615]");
    assert_eq!([5usize].display().to_text(), "[5]");
    assert_eq!([-1i32, 0, 1].display().to_text(), "[-1, 0, 1]");
    assert_eq!([i32::MIN, i32::MAX].display().to_text(), "[-2147483648, 2147483647]");
    assert_eq!([i64::MIN, i64::MAX].display().to_text(), "[-9223372036854775808, 9223372036854775807]");
}

#[test]
fn renders_into_string_sink() {
    let numbers = [1, 2, 3];
    let mut sink = StringSink::new();
    let result = numbers.display().render_to(&mut sink);
    assert!(result.is_ok());
    assert_eq!(sink.into_string(), "[1, 2, 3]");
}

#[test]
fn consecutive_renderings_append() {
    let numbers = [1, 2];
    let mut sink = StringSink::new();
    assert!(numbers.display().render_to(&mut sink).is_ok());
    assert!(numbers.display().should_space(false).render_to(&mut sink).is_ok());
    assert_eq!(sink.into_string(), "[1, 2][1,2]");
}

#[test]
fn full_rendering_fits_bounded_sink() {
    let numbers = [1, 2, 3];
    let mut sink = BoundedSink::new(9);
    let result = numbers.display().render_to(&mut sink);
    assert!(result.is_ok());
    let text: String = sink.into_chars().into_iter().collect();
    assert_eq!(text, "[1, 2, 3]");
}

#[test]
fn write_failure_stops_rendering() {
    let numbers = [1, 2, 3];
    let mut sink = BoundedSink::new(4);
    let result = numbers.display().render_to(&mut sink);
    assert_eq!(result, Err(WriteError));
    // The sink keeps the prefix it accepted before the refused write.
    let text: String = sink.into_chars().into_iter().collect();
    assert_eq!(text, "[1, ");
}

#[test]
fn empty_rendering_fails_on_full_sink() {
    let empty: &[u8] = &[];
    let mut sink = BoundedSink::new(0);
    let result = empty.display().render_to(&mut sink);
    assert_eq!(result, Err(WriteError));
    assert_eq!(sink.into_chars().len(), 0);
}
