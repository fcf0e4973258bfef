use otd_core::generator::gcode::{format_tool_code, GcodeWriter};

#[test]
fn gcode_test_gcode_writer() {
    let mut writer = GcodeWriter::new();
    writer.write_line("G70 LX=100 LY=100");
    writer.write_terminator();

    let output = writer.output();
    assert!(output.contains("N10 G70"));
    assert!(output.contains("%"));
}

#[test]
fn writer_numbers_lines_by_tens() {
    let mut writer = GcodeWriter::with_start(20);
    assert_eq!(writer.current_line(), 20);
    writer.set_param(15, 1);
    writer.call_macro("PRGINIT");
    writer.write_raw("");
    writer.write_comment("note");
    writer.write_label("0001");
    writer.set_tool(3);
    writer.jump_if("P260=2", "999999999");
    writer.jump_complex("(P260=2)~(P007=0003)", "010001");
    writer.jump("999999999");
    writer.call_label("1010001001");
    writer.direction_code(true);
    writer.direction_code(false);
    writer.set_work_offset();
    writer.tangent_mode_on();
    writer.tangent_mode_off();
    writer.tool_up();
    writer.tool_down();
    writer.load_tool();
    writer.apply_rotation();
    writer.write_terminator();
    assert_eq!(writer.current_line(), 180);
    let expected = "N20 P015=1\nN30 L=PRGINIT\n\n; note\n:0001\nN40 P007=0003\n\
N50 JM(P260=2):999999999\nN60 JM((P260=2)~(P007=0003)):010001\nN70 JM:999999999\n\
N80 L:1010001001\nN90 M=533\nN100 M=532\nN110 G58\nN120 G28\nN130 G01 G46\nN140 L=PT_SU\n\
N150 L=PT_GIU\nN160 L=PTOOL\nN170 L=PROT_B\n%\n";
    assert_eq!(writer.output(), expected);
    assert_eq!(writer.take_output(), expected);
}

#[test]
fn writer_places_formatted_measures() {
    let mut writer = GcodeWriter::new();
    writer.rapid_move("0", "129.5", Some("P540"));
    writer.linear_move("10", "20", None);
    writer.arc_cw("1", "2", "3", "4");
    writer.arc_ccw("5", "6", "7", "8");
    writer.set_xo("0.5");
    writer.set_yo("-2");
    writer.set_rotation("90");
    writer.set_param_text(12, "2.25");
    writer.set_param(941, -3);
    writer.set_shape_params("314.159", 1);
    let expected = "N10 G00 X=0 Y=129.5 C=P540\nN20 G01 X=10 Y=20\nN30 G02 X=1 Y=2 I=3 J=4\n\
N40 G03 X=5 Y=6 I=7 J=8\nN50 XO=0.5\nN60 YO=-2\nN70 P539=90\nN80 P012=2.25\nN90 P941=-3\n\
N100 L=PSETSAG\nN110 P203=314.159\nN120 P204=1\n";
    assert_eq!(writer.output(), expected);
}

#[test]
fn writer_room_is_checked_against_the_line_number_range() {
    let writer = GcodeWriter::with_start(u32::MAX - 25);
    assert!(writer.has_room(0));
    assert!(writer.has_room(2));
    assert!(!writer.has_room(3));
    assert!(GcodeWriter::default().has_room(1000));
}

#[test]
fn tool_codes_have_four_digits() {
    assert_eq!(format_tool_code(3), "0003");
    assert_eq!(format_tool_code(31), "0031");
    assert_eq!(format_tool_code(9999), "9999");
    assert_eq!(format_tool_code(65535), "65535");
    assert_eq!(format_tool_code(0), "0000");
}

#[test]
fn test_gcode_writer() {
    let mut writer = GcodeWriter::new();
    writer.write_line("G70 LX=100 LY=100");
    writer.write_terminator();

    let output = writer.output();
    assert!(output.contains("N10 G70"));
    assert!(output.contains("%"));
}
