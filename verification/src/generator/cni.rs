//! The CNI document: its sections, in their fixed order.
//!
//! The measures of the layout reach the generator formatted, as text, and
//! so do the figures that are computed from them and the drawings.

use crate::config::{MachineConfig, Unit};
use crate::error::ConvertError;
use crate::generator::program::{
    check_limits, fits, four_digits, generate_program, numbered_count, program_lines, render,
    within_limits, SchemaPlan, FIRST_LINE,
};
use crate::generator::tools::{
    collect_tools, is_tool_list, lemma_rising_unique, push_tool_lines, tool_lines,
};
use crate::model::schema::{piece_type_position, Schema};
use crate::number::{dec_digits, dec_signed, push_i64, push_u64, push_u64_padded};
use vstd::prelude::*;
use vstd::string::StringExecFns;

verus! {

/// A line of text: a prefix, a value and a line feed.
pub open spec fn text_line(prefix: Seq<char>, value: Seq<char>) -> Seq<char> {
    prefix + value + seq!['\n']
}

/// Appends a line of text.
pub fn push_text_line(out: &mut String, prefix: &str, value: &str)
    ensures
        final(out)@ == old(out)@ + text_line(prefix@, value@),
{
    out.append(prefix);
    out.append(value);
    out.push('\n');
    assert(out@ =~= old(out)@ + text_line(prefix@, value@));
}

// ---------------------------------------------------------------------------
// [COMMENTO], [PARAMETRI01], [UTENSILI01]
// ---------------------------------------------------------------------------

/// The comment section: the project, the material of the first schema
/// where there is one, and who wrote the document.
pub open spec fn comment_section(schemas: Seq<Schema<String>>, filename: Seq<char>) -> Seq<char> {
    text_line("[COMMENTO]"@, Seq::empty()) + text_line("; Project: "@, filename) + (if schemas.len()
        > 0 {
        text_line("; Material : "@, schemas[0].glass_id@)
    } else {
        Seq::<char>::empty()
    }) + text_line("; Creator: otd-convert-rs"@, Seq::empty()) + text_line(
        "; Version: 0.1.0"@,
        Seq::empty(),
    ) + seq!['\n']
}

/// The line of parameters: the unit, the size and thickness of the sheet
/// and the machine number.
pub open spec fn parameters_line(schema: Schema<String>, machine_number: u16) -> Seq<char> {
    "N10 "@ + (if schema.unit == Unit::Millimeters {
        "G71"@
    } else {
        "G70"@
    }) + " LX="@ + schema.width@ + " LY="@ + schema.height@ + " LZ="@ + schema.thickness@
        + " P103="@ + dec_digits(machine_number as nat) + seq!['\n']
}

/// The section of parameters: one line for the first schema, where there
/// is one.
pub open spec fn parameters_section(schemas: Seq<Schema<String>>, machine_number: u16) -> Seq<char> {
    text_line("[PARAMETRI01]"@, Seq::empty()) + (if schemas.len() > 0 {
        parameters_line(schemas[0], machine_number)
    } else {
        Seq::<char>::empty()
    }) + text_line("%"@, Seq::empty()) + seq!['\n']
}

/// The tools that `schemas` need, each once, in ascending order.
pub open spec fn tool_list(schemas: Seq<Schema<String>>) -> Seq<u16> {
    choose|tools: Seq<u16>| is_tool_list(schemas, tools)
}

/// The section of tools.
pub open spec fn tools_section(schemas: Seq<Schema<String>>) -> Seq<char> {
    text_line("[UTENSILI01]"@, Seq::empty()) + tool_lines(tool_list(schemas)) + text_line(
        "%"@,
        Seq::empty(),
    ) + seq!['\n']
}

/// Appends the comment section.
pub fn generate_comment_section(out: &mut String, schemas: &[Schema<String>], filename: &str)
    ensures
        final(out)@ == old(out)@ + comment_section(schemas@, filename@),
{
    proof {
        reveal_strlit("");
        assert(""@ =~= Seq::<char>::empty());
    }
    push_text_line(out, "[COMMENTO]", "");
    push_text_line(out, "; Project: ", filename);
    if schemas.len() > 0 {
        push_text_line(out, "; Material : ", schemas[0].glass_id.as_str());
    }
    push_text_line(out, "; Creator: otd-convert-rs", "");
    push_text_line(out, "; Version: 0.1.0", "");
    out.push('\n');
    assert(out@ =~= old(out)@ + comment_section(schemas@, filename@));
}

/// Appends the section of parameters.
pub fn generate_parameters_section(
    out: &mut String,
    schemas: &[Schema<String>],
    config: &MachineConfig,
)
    ensures
        final(out)@ == old(out)@ + parameters_section(schemas@, config.machine_number),
{
    proof {
        reveal_strlit("");
        assert(""@ =~= Seq::<char>::empty());
    }
    push_text_line(out, "[PARAMETRI01]", "");
    if schemas.len() > 0 {
        let schema = &schemas[0];
        let ghost before = out@;
        out.append("N10 ");
        out.append(schema.unit.gcode());
        out.append(" LX=");
        out.append(schema.width.as_str());
        out.append(" LY=");
        out.append(schema.height.as_str());
        out.append(" LZ=");
        out.append(schema.thickness.as_str());
        out.append(" P103=");
        push_u64(out, config.machine_number as u64);
        out.push('\n');
        assert(out@ =~= before + parameters_line(*schema, config.machine_number));
    }
    push_text_line(out, "%", "");
    out.push('\n');
    assert(out@ =~= old(out)@ + parameters_section(schemas@, config.machine_number));
}

/// Appends the section of tools.
pub fn generate_tools_section(out: &mut String, schemas: &[Schema<String>])
    ensures
        final(out)@ == old(out)@ + tools_section(schemas@),
{
    proof {
        reveal_strlit("");
        assert(""@ =~= Seq::<char>::empty());
    }
    let tools = collect_tools(schemas);
    proof {
        lemma_rising_unique(tools@, tool_list(schemas@));
    }
    push_text_line(out, "[UTENSILI01]", "");
    push_tool_lines(out, &tools);
    push_text_line(out, "%", "");
    out.push('\n');
    assert(out@ =~= old(out)@ + tools_section(schemas@));
}

// ---------------------------------------------------------------------------
// [*LDIST]
// ---------------------------------------------------------------------------

/// The index of the piece type of piece `i`.
pub open spec fn type_of_piece(schema: Schema<String>, i: int) -> Option<int> {
    match schema.pieces[i].info_id {
        Some(id) => piece_type_position(schema.piece_types@, id),
        None => None,
    }
}

/// Whether the piece type of piece `i` has piece code `code`.
pub open spec fn has_code(schema: Schema<String>, i: int, code: i32) -> bool {
    type_of_piece(schema, i) is Some && schema.piece_types[type_of_piece(schema, i)->0].piece_code
        == code
}

/// Whether piece `i` can be listed: it has a piece type whose code is
/// positive and that is not scrap.
pub open spec fn eligible(schema: Schema<String>, i: int) -> bool {
    &&& type_of_piece(schema, i) is Some
    &&& schema.piece_types[type_of_piece(schema, i)->0].piece_code > 0
    &&& !schema.piece_types[type_of_piece(schema, i)->0].waste
}

/// The piece code of piece `i`.
pub open spec fn code_at(schema: Schema<String>, i: int) -> i32 {
    schema.piece_types[type_of_piece(schema, i)->0].piece_code
}

/// Whether piece `i` is listed: it can be, and it is the first piece of
/// its code that can.
pub open spec fn listed(schema: Schema<String>, i: int) -> bool {
    eligible(schema, i) && forall|j: int|
        0 <= j < i && eligible(schema, j) ==> code_at(schema, j) != code_at(schema, i)
}

/// How many of the first `n` pieces have piece code `code`.
pub open spec fn count_code(schema: Schema<String>, code: i32, n: int) -> nat
    decreases n,
{
    if n <= 0 {
        0
    } else {
        count_code(schema, code, n - 1) + if has_code(schema, n - 1, code) {
            1nat
        } else {
            0nat
        }
    }
}

/// The name of the shape of piece `i`; empty where it has none.
pub open spec fn shape_name_of(schema: Schema<String>, i: int) -> Seq<char> {
    match schema.pieces[i].shape_index {
        Some(s) => if s < schema.shapes.len() {
            schema.shapes[s as int].name@
        } else {
            Seq::empty()
        },
        None => Seq::empty(),
    }
}

/// What the distribution list says of piece `i`: nothing unless it is
/// listed; else its shape, its code, its size, how many pieces have its
/// code, and customer and order.
pub open spec fn entry_text(schema: Schema<String>, i: int) -> Seq<char> {
    if listed(schema, i) {
        let kind = schema.piece_types[type_of_piece(schema, i)->0];
        text_line(";NomeSagoma="@, shape_name_of(schema, i)) + text_line(
            ";CodPz="@,
            dec_signed(kind.piece_code as int),
        ) + text_line(";DimXPz="@, schema.pieces[i].width@) + text_line(
            ";DimYPz="@,
            schema.pieces[i].height@,
        ) + text_line(
            ";QtaPz="@,
            dec_digits(count_code(schema, kind.piece_code, schema.pieces.len() as int)),
        ) + text_line(";ClientePz="@, kind.customer@) + text_line(";OrdinePz="@, kind.order_no@)
    } else {
        Seq::empty()
    }
}

/// What the distribution list says of the first `n` pieces.
pub open spec fn entries_text(schema: Schema<String>, n: int) -> Seq<char>
    decreases n,
{
    if n <= 0 {
        Seq::empty()
    } else {
        entries_text(schema, n - 1) + entry_text(schema, n - 1)
    }
}

/// The distribution section of schema number `num`.
pub open spec fn distribution_section(
    schema: Schema<String>,
    code_name: Seq<char>,
    num: nat,
) -> Seq<char> {
    text_line("[*LDIST"@, four_digits(num) + "_01]"@) + text_line(
        ";Cod="@,
        code_name + dec_digits(num),
    ) + text_line(";DimX="@, schema.width@) + text_line(";DimY="@, schema.height@) + text_line(
        ";Spes="@,
        schema.thickness@,
    ) + text_line(";Qta="@, dec_digits(schema.quantity as nat)) + text_line(
        ";TipoVetro="@,
        schema.glass_id@,
    ) + entries_text(schema, schema.pieces.len() as int) + text_line("%"@, Seq::empty())
}

/// The distribution sections of the first `n` schemas.
pub open spec fn distribution_sections(
    schemas: Seq<Schema<String>>,
    code_name: Seq<char>,
    n: int,
) -> Seq<char>
    decreases n,
{
    if n <= 0 {
        Seq::empty()
    } else {
        distribution_sections(schemas, code_name, n - 1) + distribution_section(
            schemas[n - 1],
            code_name,
            n as nat,
        )
    }
}

/// The index of the piece type of piece `i`.
fn piece_type_of(schema: &Schema<String>, i: usize) -> (r: Option<usize>)
    requires
        i < schema.pieces.len(),
    ensures
        match r {
            Some(t) => type_of_piece(*schema, i as int) == Some(t as int) && t
                < schema.piece_types.len(),
            None => type_of_piece(*schema, i as int) is None,
        },
{
    match schema.pieces[i].info_id {
        Some(id) => schema.find_piece_type(id),
        None => None,
    }
}

/// Whether piece `i` can be listed.
fn is_eligible(schema: &Schema<String>, i: usize) -> (r: bool)
    requires
        i < schema.pieces.len(),
    ensures
        r == eligible(*schema, i as int),
{
    match piece_type_of(schema, i) {
        Some(t) => schema.piece_types[t].piece_code > 0 && !schema.piece_types[t].waste,
        None => false,
    }
}

/// Whether piece `i` is listed.
fn is_listed(schema: &Schema<String>, i: usize) -> (r: bool)
    requires
        i < schema.pieces.len(),
    ensures
        r == listed(*schema, i as int),
{
    let t = match piece_type_of(schema, i) {
        Some(t) => t,
        None => {
            return false;
        },
    };
    if !is_eligible(schema, i) {
        return false;
    }
    let code = schema.piece_types[t].piece_code;
    let mut j: usize = 0;
    while j < i
        invariant
            j <= i < schema.pieces.len(),
            eligible(*schema, i as int),
            code == code_at(*schema, i as int),
            forall|k: int| 0 <= k < j && eligible(*schema, k) ==> code_at(*schema, k) != code,
        decreases i - j,
    {
        if is_eligible(schema, j) {
            match piece_type_of(schema, j) {
                Some(u) => {
                    if schema.piece_types[u].piece_code == code {
                        return false;
                    }
                },
                None => {},
            }
        }
        j += 1;
    }
    true
}

/// How many pieces have piece code `code`.
fn count_pieces_with_code(schema: &Schema<String>, code: i32) -> (n: usize)
    ensures
        n == count_code(*schema, code, schema.pieces.len() as int),
{
    let mut n: usize = 0;
    let mut i: usize = 0;
    while i < schema.pieces.len()
        invariant
            i <= schema.pieces.len(),
            n == count_code(*schema, code, i as int),
            n <= i,
        decreases schema.pieces.len() - i,
    {
        match piece_type_of(schema, i) {
            Some(t) => {
                if schema.piece_types[t].piece_code == code {
                    n += 1;
                }
            },
            None => {},
        }
        i += 1;
    }
    n
}

/// Appends what the distribution list says of piece `i`.
fn push_entry(out: &mut String, schema: &Schema<String>, i: usize)
    requires
        i < schema.pieces.len(),
    ensures
        final(out)@ == old(out)@ + entry_text(*schema, i as int),
{
    if !is_listed(schema, i) {
        assert(out@ =~= old(out)@ + entry_text(*schema, i as int));
        return;
    }
    let t = match piece_type_of(schema, i) {
        Some(t) => t,
        None => {
            return;
        },
    };
    proof {
        reveal_strlit("");
        assert(""@ =~= Seq::<char>::empty());
    }
    let piece = &schema.pieces[i];
    let kind = &schema.piece_types[t];
    match piece.shape_index {
        Some(s) => {
            if s < schema.shapes.len() {
                push_text_line(out, ";NomeSagoma=", schema.shapes[s].name.as_str());
            } else {
                push_text_line(out, ";NomeSagoma=", "");
            }
        },
        None => {
            push_text_line(out, ";NomeSagoma=", "");
        },
    }
    let mut code = String::new();
    push_i64(&mut code, kind.piece_code as i64);
    assert(code@ =~= dec_signed(kind.piece_code as int));
    push_text_line(out, ";CodPz=", code.as_str());
    push_text_line(out, ";DimXPz=", piece.width.as_str());
    push_text_line(out, ";DimYPz=", piece.height.as_str());
    let mut count = String::new();
    push_u64(&mut count, count_pieces_with_code(schema, kind.piece_code) as u64);
    assert(count@ =~= dec_digits(
        count_code(*schema, kind.piece_code, schema.pieces.len() as int),
    ));
    push_text_line(out, ";QtaPz=", count.as_str());
    push_text_line(out, ";ClientePz=", kind.customer.as_str());
    push_text_line(out, ";OrdinePz=", kind.order_no.as_str());
    assert(out@ =~= old(out)@ + entry_text(*schema, i as int));
}

/// Appends the distribution section of schema number `num`.
fn push_distribution_section(out: &mut String, schema: &Schema<String>, code_name: &str, num: u32)
    ensures
        final(out)@ == old(out)@ + distribution_section(*schema, code_name@, num as nat),
{
    proof {
        reveal_strlit("");
        assert(""@ =~= Seq::<char>::empty());
    }
    let mut name = String::new();
    push_u64_padded(&mut name, num as u64, 4);
    name.append("_01]");
    assert(name@ =~= four_digits(num as nat) + "_01]"@);
    push_text_line(out, "[*LDIST", name.as_str());
    let mut code = String::from_str(code_name);
    push_u64(&mut code, num as u64);
    push_text_line(out, ";Cod=", code.as_str());
    push_text_line(out, ";DimX=", schema.width.as_str());
    push_text_line(out, ";DimY=", schema.height.as_str());
    push_text_line(out, ";Spes=", schema.thickness.as_str());
    let mut quantity = String::new();
    push_u64(&mut quantity, schema.quantity as u64);
    assert(quantity@ =~= dec_digits(schema.quantity as nat));
    push_text_line(out, ";Qta=", quantity.as_str());
    push_text_line(out, ";TipoVetro=", schema.glass_id.as_str());
    let ghost head = out@;
    let mut i: usize = 0;
    assert(out@ =~= head + entries_text(*schema, 0));
    while i < schema.pieces.len()
        invariant
            i <= schema.pieces.len(),
            out@ == head + entries_text(*schema, i as int),
        decreases schema.pieces.len() - i,
    {
        push_entry(out, schema, i);
        assert(out@ =~= head + entries_text(*schema, i + 1));
        i += 1;
    }
    push_text_line(out, "%", "");
    assert(out@ =~= old(out)@ + distribution_section(*schema, code_name@, num as nat));
}

/// Appends the distribution sections of all schemas, and a blank line.
pub fn generate_distribution_sections(out: &mut String, schemas: &[Schema<String>], code_name: &str)
    requires
        schemas.len() <= u32::MAX,
    ensures
        final(out)@ == old(out)@ + distribution_sections(
            schemas@,
            code_name@,
            schemas.len() as int,
        ) + seq!['\n'],
{
    let mut k: usize = 0;
    assert(out@ =~= old(out)@ + distribution_sections(schemas@, code_name@, 0));
    while k < schemas.len()
        invariant
            k <= schemas.len() <= u32::MAX,
            out@ == old(out)@ + distribution_sections(schemas@, code_name@, k as int),
        decreases schemas.len() - k,
    {
        push_distribution_section(out, &schemas[k], code_name, (k + 1) as u32);
        assert(out@ =~= old(out)@ + distribution_sections(schemas@, code_name@, k + 1));
        k += 1;
    }
    out.push('\n');
}

// ---------------------------------------------------------------------------
// [*PRWB], [*PRWC]
// ---------------------------------------------------------------------------

/// The drawing sections of the first `n` schemas: for each, its normal
/// view and its mirrored view, each under its header.
pub open spec fn drawing_sections(views: Seq<(String, String)>, n: int) -> Seq<char>
    decreases n,
{
    if n <= 0 {
        Seq::empty()
    } else {
        drawing_sections(views, n - 1) + text_line("[*PRWB"@, four_digits(n as nat) + "_01]"@)
            + views[n - 1].0@ + text_line("[*PRWC"@, four_digits(n as nat) + "_01]"@) + views[n
            - 1].1@
    }
}

/// Appends the drawing sections of all schemas.
pub fn generate_dxf_sections(out: &mut String, views: &[(String, String)])
    requires
        views.len() <= u32::MAX,
    ensures
        final(out)@ == old(out)@ + drawing_sections(views@, views.len() as int),
{
    let mut k: usize = 0;
    assert(out@ =~= old(out)@ + drawing_sections(views@, 0));
    while k < views.len()
        invariant
            k <= views.len() <= u32::MAX,
            out@ == old(out)@ + drawing_sections(views@, k as int),
        decreases views.len() - k,
    {
        let mut name = String::new();
        push_u64_padded(&mut name, (k + 1) as u64, 4);
        name.append("_01]");
        assert(name@ =~= four_digits((k + 1) as nat) + "_01]"@);
        push_text_line(out, "[*PRWB", name.as_str());
        out.append(views[k].0.as_str());
        push_text_line(out, "[*PRWC", name.as_str());
        out.append(views[k].1.as_str());
        assert(out@ =~= old(out)@ + drawing_sections(views@, k + 1));
        k += 1;
    }
}

// ---------------------------------------------------------------------------
// The document
// ---------------------------------------------------------------------------

/// The sections before the contour program.
pub open spec fn document_head(
    schemas: Seq<Schema<String>>,
    filename: Seq<char>,
    machine_number: u16,
) -> Seq<char> {
    comment_section(schemas, filename) + text_line("[CENTRO01]"@, Seq::empty()) + seq!['\n']
        + parameters_section(schemas, machine_number) + tools_section(schemas) + text_line(
        "[LAVORAZIONI01]"@,
        Seq::empty(),
    ) + text_line("%"@, Seq::empty()) + seq!['\n']
}

/// The CNI document of a list of schemas.
pub open spec fn cni_text(
    schemas: Seq<Schema<String>>,
    plans: Seq<SchemaPlan>,
    views: Seq<(String, String)>,
    filename: Seq<char>,
    code_name: Seq<char>,
    machine_number: u16,
) -> Seq<char> {
    document_head(schemas, filename, machine_number) + text_line(
        "[CONTORNATURA01]"@,
        Seq::empty(),
    ) + render(program_lines(schemas, plans), FIRST_LINE as int) + seq!['\n']
        + distribution_sections(schemas, code_name, schemas.len() as int) + seq!['\n']
        + drawing_sections(views, views.len() as int)
}

/// Whether a document can be written: there is a plan and a pair of
/// drawings for each schema, the schemas keep to what the program can
/// number, and the line numbers of the program last.
pub open spec fn can_generate(
    schemas: Seq<Schema<String>>,
    plans: Seq<SchemaPlan>,
    views: Seq<(String, String)>,
) -> bool {
    &&& within_limits(schemas, plans)
    &&& views.len() == schemas.len()
    &&& fits(FIRST_LINE as int, numbered_count(program_lines(schemas, plans)))
}

/// Writes the sections before the contour program.
fn generate_head(
    out: &mut String,
    schemas: &[Schema<String>],
    filename: &str,
    config: &MachineConfig,
)
    ensures
        final(out)@ == old(out)@ + document_head(schemas@, filename@, config.machine_number),
{
    proof {
        reveal_strlit("");
        assert(""@ =~= Seq::<char>::empty());
    }
    generate_comment_section(out, schemas, filename);
    push_text_line(out, "[CENTRO01]", "");
    out.push('\n');
    generate_parameters_section(out, schemas, config);
    generate_tools_section(out, schemas);
    push_text_line(out, "[LAVORAZIONI01]", "");
    push_text_line(out, "%", "");
    out.push('\n');
    assert(out@ =~= old(out)@ + document_head(schemas@, filename@, config.machine_number));
}

/// Writes the CNI document of a list of schemas: the comment, the empty
/// centre section, the parameters, the tools, the empty machining
/// section, the contour program, the distribution lists and the drawings.
/// `filename` names the project, `code_name` begins the code of each
/// distribution list. A layout beyond what the document can number is an
/// error.
pub fn generate_cni(
    schemas: &[Schema<String>],
    plans: &[SchemaPlan],
    views: &[(String, String)],
    filename: &str,
    code_name: &str,
    config: &MachineConfig,
) -> (r: Result<String, ConvertError>)
    ensures
        match r {
            Ok(text) => can_generate(schemas@, plans@, views@) && text@ == cni_text(
                schemas@,
                plans@,
                views@,
                filename@,
                code_name@,
                config.machine_number,
            ),
            Err(e) => !can_generate(schemas@, plans@, views@) && e is ParseError
                && e->ParseError_line == 0 && e->ParseError_message@
                == "layout exceeds what a CNI document can number"@,
        },
{
    if !check_limits(schemas, plans) || views.len() != schemas.len() {
        return Err(too_large());
    }
    let program = match generate_program(schemas, plans) {
        Some(program) => program,
        None => {
            return Err(too_large());
        },
    };
    proof {
        reveal_strlit("");
        assert(""@ =~= Seq::<char>::empty());
    }
    let mut out = String::new();
    generate_head(&mut out, schemas, filename, config);
    push_text_line(&mut out, "[CONTORNATURA01]", "");
    out.append(program.as_str());
    out.push('\n');
    generate_distribution_sections(&mut out, schemas, code_name);
    generate_dxf_sections(&mut out, views);
    assert(out@ =~= cni_text(
        schemas@,
        plans@,
        views@,
        filename@,
        code_name@,
        config.machine_number,
    ));
    Ok(out)
}

/// The error of a layout beyond what the document can number.
fn too_large() -> (e: ConvertError)
    ensures
        e is ParseError,
        e->ParseError_line == 0,
        e->ParseError_message@ == "layout exceeds what a CNI document can number"@,
{
    ConvertError::ParseError {
        line: 0,
        message: String::from_str("layout exceeds what a CNI document can number"),
    }
}

} // verus!
