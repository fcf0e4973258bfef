use otd_core::error::{ConvertError, ErrorCode};
use otd_core::layers::LayerVisibility;
use otd_core::number::{i64_to_string, u64_to_string};

#[test]
fn every_error_has_its_code_and_its_sentence() {
    let s = |t: &str| t.to_string();
    let cases: Vec<(ConvertError, ErrorCode, i32, &str)> = vec![
        (ConvertError::FileNotFound { path: s("a.otd") }, ErrorCode::FileNotFound, -1, "File not found: a.otd"),
        (ConvertError::EmptyFile { path: s("a.otd") }, ErrorCode::EmptyFile, -2, "Empty file: a.otd"),
        (ConvertError::ParseError { line: 12, message: s("bad") }, ErrorCode::ParseError, -3, "Parse error at line 12: bad"),
        (ConvertError::NoPatternSection, ErrorCode::NoPatternSection, -11, "No [Pattern] section found in file"),
        (ConvertError::InvalidSection { line: 0, header: s("[x") }, ErrorCode::ParseError, -3, "Invalid section header at line 0: [x"),
        (ConvertError::MissingField { section: s("Pattern"), field: s("Width") }, ErrorCode::ParseError, -3, "Missing required field 'Width' in section [Pattern]"),
        (ConvertError::InvalidValue { field: s("Width"), expected: s("number"), value: s("w") }, ErrorCode::ParseError, -3, "Invalid value for 'Width': expected number, got 'w'"),
        (ConvertError::InvalidArc { radius: s("10"), x1: s("0"), y1: s("0"), x2: s("100"), y2: s("0") }, ErrorCode::InvalidArc, 100, "Invalid arc geometry: radius 10 is too small for endpoints (0, 0) to (100, 0)"),
        (ConvertError::OutOfBounds { x: s("1"), y: s("2"), width: s("3"), height: s("4") }, ErrorCode::OutOfBounds, 101, "Coordinates out of sheet bounds: (1, 2) exceeds sheet size (3 x 4)"),
        (ConvertError::ShapeSizeMismatch { shape_id: 7 }, ErrorCode::ShapeSizeMismatch, 200, "Shape 7 is used on pieces of different sizes"),
        (ConvertError::NoCutsFound, ErrorCode::NoCutsFound, 201, "No cuts found in layout"),
        (ConvertError::ShapeNotFound { shape_id: -7 }, ErrorCode::ParseError, -3, "Shape reference not found: Shape=-7"),
        (ConvertError::InfoNotFound { info_id: 9 }, ErrorCode::ParseError, -3, "Info reference not found: Info=9"),
        (ConvertError::DecryptionFailed { message: s("why") }, ErrorCode::DecryptionFailed, 300, "OTX decryption failed: why"),
        (ConvertError::Io { message: s("denied") }, ErrorCode::FileNotFound, -1, "IO error: denied"),
        (ConvertError::InvalidNumber { line: 3, value: s("x") }, ErrorCode::ParseError, -3, "Invalid numeric value at line 3: x"),
    ];
    for (error, code, value, sentence) in cases {
        assert_eq!(error.code(), code);
        assert_eq!(error.code_value(), value);
        assert_eq!(error.message(), sentence);
    }
    assert_eq!(ErrorCode::ToolNotFound.value(), 202);
}

#[test]
fn integers_are_written_in_decimal() {
    for n in [0u64, 1, 9, 10, 99, 100, 12345, u32::MAX as u64, u64::MAX] {
        assert_eq!(u64_to_string(n), n.to_string());
    }
    for n in [0i64, -1, 1, -10, 42, i32::MIN as i64, i64::MAX, i64::MIN] {
        assert_eq!(i64_to_string(n), n.to_string());
    }
}

#[test]
fn layers_show_and_hide() {
    let mut layers = LayerVisibility::default();
    assert!(layers.sheet && layers.trim && layers.linear_cuts && layers.pieces && layers.shapes);
    assert!(!layers.labels && !layers.waste && !layers.grid);
    layers.show_all();
    assert!(layers.labels && layers.waste && layers.grid && layers.sheet);
    layers.minimal();
    assert!(layers.sheet);
    assert!(!layers.trim && !layers.linear_cuts && !layers.pieces && !layers.shapes);
    assert!(!layers.labels && !layers.waste && !layers.grid);
}
