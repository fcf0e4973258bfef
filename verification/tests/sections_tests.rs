use otd_core::config::Unit;
use otd_core::model::cut::CutType;
use otd_core::parser::cuttings::{parse_cuttings, parse_lowe};
use otd_core::parser::pattern::{parse_pattern_coordinates, parse_pattern_header};
use otd_core::parser::sections::{parse_header, parse_signature};
use otd_core::parser::shapes::{parse_geometry_line, parse_info, parse_shape};

fn number(text: &str) -> f64 {
    text.parse().expect("a measure")
}

// ==================== parse_header tests ====================

#[test]
fn test_parse_header_complete() {
    let lines = vec!["OTDCutVersion=3.0", "Dimension=mm", "Date=2024-01-15"];
    let header = parse_header(&lines);
    assert_eq!(header.otd_version, "3.0");
    assert_eq!(header.unit, Unit::Millimeters);
    assert_eq!(header.date, "2024-01-15");
}

#[test]
fn test_parse_header_with_comments() {
    let lines = vec![
        "; This is a comment",
        "OTDCutVersion=2.5",
        "",
        "Dimension=inch",
    ];
    let header = parse_header(&lines);
    assert_eq!(header.otd_version, "2.5");
    assert_eq!(header.unit, Unit::Inches);
}

#[test]
fn test_parse_header_awcut_version() {
    let lines = vec!["AWCutVersion=1.0"];
    let header = parse_header(&lines);
    assert_eq!(header.otd_version, "1.0");
}

#[test]
fn header_later_lines_override_and_unknown_units_fall_back() {
    let lines = vec![
        "OTDCutVersion=1",
        "AWCutVersion=2",
        "Dimension=Tinch",
        "Dimension=furlong",
        ";Date=never",
        "  Date = today ",
    ];
    let header = parse_header(&lines);
    assert_eq!(header.otd_version, "2");
    assert_eq!(header.unit, Unit::Millimeters);
    assert_eq!(header.date, "today");
    let lines = vec!["Dimension= TINCH "];
    assert_eq!(parse_header(&lines).unit, Unit::TenthsOfInch);
    let none: Vec<&str> = vec![];
    let header = parse_header(&none);
    assert_eq!(header.otd_version, "");
    assert_eq!(header.unit, Unit::Millimeters);
}

#[test]
fn signature_names_the_creator() {
    let lines = vec!["; who", "Creator=OptiCut 9", "Other=1"];
    assert_eq!(parse_signature(&lines).creator, "OptiCut 9");
    let none: Vec<&str> = vec![];
    assert_eq!(parse_signature(&none).creator, "");
}

// ==================== parse_pattern_header tests ====================

#[test]
fn test_parse_pattern_header_basic() {
    let lines = vec![
        "MachineName=CNCMACHINE",
        "MachineNumber=130",
        "Width=3000",
        "Height=2000",
        "GlassThickness=6.5",
    ];
    let pattern = parse_pattern_header(&lines);
    assert_eq!(pattern.machine_name, "CNCMACHINE");
    assert_eq!(pattern.machine_number, 130);
    assert!((number(&pattern.width) - 3000.0).abs() < 0.001);
    assert!((number(&pattern.height) - 2000.0).abs() < 0.001);
    assert!((number(&pattern.thickness) - 6.5).abs() < 0.001);
}

#[test]
fn test_parse_pattern_header_stops_at_coordinates() {
    let lines = vec![
        "Width=3000",
        "X=100",       // Should stop here
        "Height=2000", // Should not be parsed
    ];
    let pattern = parse_pattern_header(&lines);
    assert!((number(&pattern.width) - 3000.0).abs() < 0.001);
    assert!((number(&pattern.height) - 0.0).abs() < 0.001); // Default value
}

#[test]
fn test_parse_pattern_header_defaults() {
    let lines: Vec<&str> = vec![];
    let pattern = parse_pattern_header(&lines);
    assert_eq!(pattern.quantity, 1);
    assert!((number(&pattern.min_angle) - 5.0).abs() < 0.001);
    assert!(pattern.optimize_shape_order);
}

#[test]
fn pattern_header_reads_every_field() {
    let lines = vec![
        "MachineName=Genius",
        "MachineNumber=65666",
        "GlassID=FL4",
        "GlassDescription=Float 4 mm",
        "GlassThickness=4",
        "GlassStructured=1",
        "GlassCoated=2",
        "Width=3210",
        "Width=wide",
        "Height=2250",
        "TrimLeft=10",
        "TrimBottom=1e1",
        "Pieces=-4",
        "CuttingOrder=257",
        "LinearAdvance=0.5",
        "MinAngle=7.5",
        "CoatingMinAngle=9",
        "LinearToolCode=3",
        "ToolCode1=31",
        "ToolCode2=32",
        "ToolCode6=36",
        "ShapeOptimization=0",
        "W=5",
        "Y=1",
        "MachineName=after the coordinates",
    ];
    let p = parse_pattern_header(&lines);
    assert_eq!(p.machine_name, "Genius");
    assert_eq!(p.machine_number, 130);
    assert_eq!(p.glass_id, "FL4");
    assert_eq!(p.glass_description, "Float 4 mm");
    assert_eq!(p.thickness, "4");
    assert!(p.glass_structured);
    assert!(!p.glass_coated);
    assert_eq!(p.width, "3210");
    assert_eq!(p.height, "2250");
    assert_eq!(p.trim_left, "10");
    assert_eq!(p.trim_bottom, "1e1");
    assert_eq!(p.quantity, 1);
    assert_eq!(p.cutting_order, 1);
    assert_eq!(p.linear_advance, "0.5");
    assert_eq!(p.min_angle, "7.5");
    assert_eq!(p.coating_min_angle, "9");
    assert_eq!(p.linear_tool, 3);
    assert_eq!(p.shaped_tool, 31);
    assert_eq!(p.incision_tool, 32);
    assert_eq!(p.open_shaped_tool, 36);
    assert!(!p.optimize_shape_order);
    let p = parse_pattern_header(&["Pieces=12", "MachineNumber=-1", "CuttingOrder=-1"]);
    assert_eq!(p.quantity, 12);
    assert_eq!(p.machine_number, 65535);
    assert_eq!(p.cutting_order, 255);
    assert_eq!(p.thickness, "0");
}

// ==================== parse_info tests ====================

#[test]
fn test_parse_info_complete() {
    let lines = vec![
        "Id=1",
        "OrderNo=ORD-12345",
        "Customer=ACME Corp",
        "SheetWidth=500",
        "SheetHeight=400",
        "SheetCode=42",
    ];
    let info = parse_info(&lines).expect("Should parse info");
    assert_eq!(info.id, 1);
    assert_eq!(info.order_no, "ORD-12345");
    assert_eq!(info.customer, "ACME Corp");
    assert!((number(&info.sheet_width) - 500.0).abs() < 0.001);
    assert!((number(&info.sheet_height) - 400.0).abs() < 0.001);
    assert_eq!(info.piece_code, 42);
}

#[test]
fn test_parse_info_no_id() {
    let lines = vec!["OrderNo=ORD-12345", "Customer=ACME Corp"];
    let info = parse_info(&lines);
    assert!(info.is_none());
}

#[test]
fn test_parse_info_waste_flag() {
    let lines = vec!["Id=1", "Waste=1"];
    let info = parse_info(&lines).expect("Should parse info");
    assert!(info.waste);
}

#[test]
fn info_reads_every_field() {
    let lines = vec![
        "Id=x",
        "Id=7",
        "PosNo=3",
        "Commission=C-1",
        "SecondGlassReference=G2",
        "RackNo=R9",
        "Waste=0",
    ];
    let info = parse_info(&lines).expect("an info");
    assert_eq!(info.id, 7);
    assert_eq!(info.position_no, "3");
    assert_eq!(info.commission, "C-1");
    assert_eq!(info.second_glass_ref, "G2");
    assert_eq!(info.rack_no, "R9");
    assert_eq!(info.sheet_width, "0");
    assert!(!info.waste);
    assert!(parse_info(&["Id=seven"]).is_none());
}

// ==================== parse_shape tests ====================

#[test]
fn test_parse_shape_basic() {
    let lines = vec!["Id=1", "Name=Rectangle", "Description=A simple rectangle"];
    let shape = parse_shape(&lines).expect("Should parse shape");
    assert_eq!(shape.id, 1);
    assert_eq!(shape.name, "Rectangle");
    assert_eq!(shape.description, "A simple rectangle");
}

#[test]
fn test_parse_shape_with_geometry() {
    let lines = vec![
        "Id=1",
        "Name=Triangle",
        "x=0 y=0 X=100 Y=0",
        "x=100 y=0 X=50 Y=86.6",
        "x=50 y=86.6 X=0 Y=0",
    ];
    let shape = parse_shape(&lines).expect("Should parse shape");
    assert_eq!(shape.cuts.len(), 3);
}

#[test]
fn test_parse_shape_no_id() {
    let lines = vec!["Name=NoID", "x=0 y=0 X=100 Y=0"];
    let shape = parse_shape(&lines);
    assert!(shape.is_none());
}

#[test]
fn shape_keeps_its_segments_in_order_and_marks_no_tool() {
    let lines = vec![
        "Id=4",
        "; x=9 y=9 X=9 Y=9",
        "  X=10 Y=0 x=0 y=0 C=2",
        "x=10 y=0 X=10",
        "y=1 x=1 X=2 Y=2",
        "x=10 y=0 X=0 Y=0 L=5",
    ];
    let shape = parse_shape(&lines).expect("a shape");
    assert_eq!(shape.cuts.len(), 2);
    assert_eq!(shape.cuts[0].xi, "0");
    assert_eq!(shape.cuts[0].xf, "10");
    assert_eq!(shape.cuts[0].tool_code, 2);
    assert_eq!(shape.cuts[1].cut_type, CutType::ArcCCW);
    assert_eq!(shape.tool_types, vec![false; 10]);
    assert!(!shape.is_open);
}

// ==================== parse_geometry_line tests ====================

#[test]
fn test_parse_geometry_line_simple_line() {
    let cut = parse_geometry_line("x=0 y=0 X=100 Y=50").expect("Should parse");
    assert!((number(&cut.xi) - 0.0).abs() < 0.001);
    assert!((number(&cut.yi) - 0.0).abs() < 0.001);
    assert!((number(&cut.xf) - 100.0).abs() < 0.001);
    assert!((number(&cut.yf) - 50.0).abs() < 0.001);
    assert_eq!(cut.cut_type, CutType::Line);
}

#[test]
fn test_parse_geometry_line_arc_cw() {
    let cut = parse_geometry_line("x=0 y=0 X=100 Y=0 R=50").expect("Should parse");
    assert_eq!(cut.cut_type, CutType::ArcCW);
    assert!((number(&cut.radius) - 50.0).abs() < 0.001);
}

#[test]
fn test_parse_geometry_line_arc_ccw() {
    let cut = parse_geometry_line("x=0 y=0 X=100 Y=0 L=50").expect("Should parse");
    assert_eq!(cut.cut_type, CutType::ArcCCW);
    assert!((number(&cut.radius) - 50.0).abs() < 0.001);
}

#[test]
fn test_parse_geometry_line_with_tool() {
    let cut = parse_geometry_line("x=0 y=0 X=100 Y=0 C=3").expect("Should parse");
    assert_eq!(cut.tool_code, 3);
}

#[test]
fn test_parse_geometry_line_with_ablation() {
    let cut = parse_geometry_line("x=0 y=0 X=100 Y=0 LA=5.5").expect("Should parse");
    assert!((number(&cut.ablation_width) - 5.5).abs() < 0.001);
}

#[test]
fn test_parse_geometry_line_missing_coords() {
    let cut = parse_geometry_line("x=0 y=0 X=100");
    assert!(cut.is_none());
}

#[test]
fn geometry_line_defaults_and_precedence() {
    let cut = parse_geometry_line("x=1 y=2 X=3 Y=4").expect("a line");
    assert_eq!(cut.tool_code, 1);
    assert_eq!(cut.ablation_width, "0");
    assert_eq!(cut.radius, "0");
    assert_eq!(cut.parent_shape, -1);
    assert!(cut.active);
    // a clockwise radius wins over a counter-clockwise one
    let cut = parse_geometry_line("x=1 y=2 X=3 Y=4 L=7 R=9").expect("an arc");
    assert_eq!(cut.cut_type, CutType::ArcCW);
    assert_eq!(cut.radius, "9");
    // of two settings the last counts, also where it cannot be read
    let cut = parse_geometry_line("x=1 y=2 X=3 Y=4 R=9 R=big L=2 C=5 C=five").expect("an arc");
    assert_eq!(cut.cut_type, CutType::ArcCCW);
    assert_eq!(cut.radius, "2");
    assert_eq!(cut.tool_code, 1);
    assert!(parse_geometry_line("x=1 y=2 X=3 Y=4 y=two").is_none());
    assert!(parse_geometry_line("").is_none());
}

// ==================== parse_cuttings tests ====================

#[test]
fn test_parse_cuttings_basic() {
    let lines = vec![
        "x=0 y=100 X=500 Y=100 Levcut=0",
        "x=500 y=0 X=500 Y=200 Levcut=1",
    ];
    let (cuts, pieces) = parse_cuttings(&lines);
    assert_eq!(cuts.len(), 2);
    assert!(pieces.is_empty());
    assert_eq!(cuts[0].level, 0);
    assert_eq!(cuts[1].level, 1);
}

#[test]
fn test_parse_cuttings_with_pieces() {
    let lines = vec![
        "XO=0 YO=0 Width=100 Height=200 Info=1",
        "XO=100 YO=0 Width=150 Height=200 Info=2 Shape=1",
    ];
    let (cuts, pieces) = parse_cuttings(&lines);
    assert!(cuts.is_empty());
    assert_eq!(pieces.len(), 2);
    assert!((number(&pieces[0].width) - 100.0).abs() < 0.001);
    assert_eq!(pieces[0].info_id, Some(1));
    assert_eq!(pieces[1].shape_id, Some(1));
}

#[test]
fn test_parse_cuttings_mixed() {
    let lines = vec![
        "; Comment line",
        "x=0 y=100 X=500 Y=100 Levcut=0 Tcut=1",
        "",
        "XO=0 YO=0 Width=100 Height=100",
    ];
    let (cuts, pieces) = parse_cuttings(&lines);
    assert_eq!(cuts.len(), 1);
    assert_eq!(pieces.len(), 1);
    assert_eq!(cuts[0].tcut, 1);
}

#[test]
fn test_parse_cuttings_with_ind_piece() {
    let lines = vec![
        "x=0 y=100 X=500 Y=100 Levcut=0",
        "IndPiece=0 Cut=1",
        "IndPiece=1 Cut=2",
    ];
    let (cuts, _pieces) = parse_cuttings(&lines);
    assert_eq!(cuts.len(), 1);
    assert_eq!(cuts[0].piece_indices, vec![0, 1]);
    assert_eq!(cuts[0].cut_indices, vec![1, 2]);
}

#[test]
fn cuttings_defaults_and_links() {
    let lines = vec![
        "IndPiece=9 Cut=9",
        "y=1 x=2 X=3 Y=4 Rot=90 Qcut=5 Lcut=6 Rcut=7 Wcut=1 ParentShape=3",
        "x=1 Rcut=? Wcut=2 Wcut=no ParentShape=? Levcut=? Tcut=?",
        "IndPiece=4 IndPiece=x IndPiece=5 Cut=6",
        "x=0",
        "Width=5 XO=1",
        "XO=1 YO=2 Width=0 Height=-3 IndPiece=8 Info=i",
        "unknown=1",
    ];
    let (cuts, pieces) = parse_lowe(&lines);
    assert_eq!(cuts.len(), 3);
    assert_eq!(cuts[0].xi, "2");
    assert_eq!(cuts[0].yi, "1");
    assert_eq!(cuts[0].rotation, "90");
    assert_eq!(cuts[0].quota, "5");
    assert_eq!(cuts[0].length, "6");
    assert_eq!(cuts[0].rest, "7");
    assert!(cuts[0].is_scrap);
    assert_eq!(cuts[0].parent_shape, 3);
    assert!(cuts[0].piece_indices.is_empty());
    assert_eq!(cuts[1].rest, "-1");
    assert!(cuts[1].is_scrap);
    assert_eq!(cuts[1].parent_shape, -1);
    assert_eq!(cuts[1].level, 0);
    assert_eq!(cuts[1].yi, "0");
    assert_eq!(cuts[1].piece_indices, vec![4, 5]);
    assert_eq!(cuts[1].cut_indices, vec![6]);
    assert_eq!(cuts[2].rest, "0");
    assert_eq!(cuts[2].parent_shape, 0);
    assert!(!cuts[2].is_scrap);
    assert!(cuts[2].active);
    // every piece line gives a piece; sizes are the caller's to judge
    assert_eq!(pieces.len(), 1);
    assert_eq!(pieces[0].x_origin, "1");
    assert_eq!(pieces[0].height, "-3");
    assert_eq!(pieces[0].ind_piece, Some(8));
    assert_eq!(pieces[0].info_id, None);
    assert_eq!(pieces[0].piece_index, 0);
}

// ==================== parse_pattern_coordinates tests ====================

#[test]
fn test_parse_pattern_coordinates_basic() {
    let lines = vec!["X=100", "Y=200", "Z=300"];
    let coords = parse_pattern_coordinates(&lines);
    assert_eq!(coords.len(), 3);
    assert_eq!(coords[0].var, 'X');
    assert!((number(&coords[0].value) - 100.0).abs() < 0.001);
    assert_eq!(coords[0].level, 0);
    assert_eq!(coords[1].var, 'Y');
    assert_eq!(coords[1].level, 1);
    assert_eq!(coords[2].var, 'Z');
    assert_eq!(coords[2].level, 2);
}

#[test]
fn test_parse_pattern_coordinates_with_shape() {
    let lines = vec!["X=100 Shape=1 Info=2"];
    let coords = parse_pattern_coordinates(&lines);
    assert_eq!(coords.len(), 1);
    assert_eq!(coords[0].shape_id, Some(1));
    assert_eq!(coords[0].info_id, Some(2));
}

#[test]
fn test_parse_pattern_coordinates_with_rotation() {
    let lines = vec!["X=100 Rot=90"];
    let coords = parse_pattern_coordinates(&lines);
    assert_eq!(coords.len(), 1);
    assert_eq!(coords[0].rotation.as_deref().map(number), Some(90.0));
}

#[test]
fn coordinates_skip_what_is_no_coordinate_line() {
    let lines = vec![
        "Width=3000",
        "; X=1",
        "",
        "XO=5",
        "X=wide",
        "X",
        "  E=12.5 Tcut=3 Rot=r Shape=1 Shape=x  ",
        "V=7 Info=2",
        "F=1",
    ];
    let coords = parse_pattern_coordinates(&lines);
    assert_eq!(coords.len(), 2);
    assert_eq!(coords[0].var, 'E');
    assert_eq!(coords[0].level, 9);
    assert_eq!(coords[0].value, "12.5");
    assert_eq!(coords[0].tcut, Some(3));
    assert_eq!(coords[0].rotation, None);
    assert_eq!(coords[0].shape_id, None);
    assert_eq!(coords[1].var, 'V');
    assert_eq!(coords[1].level, 4);
    assert_eq!(coords[1].info_id, Some(2));
}
