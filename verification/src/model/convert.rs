//! Moving a layout from one type of measure to another.
//!
//! A layout is read with its measures as text, computed with as numbers
//! and written with them as text again. The conversions here apply a
//! function to every measure and keep everything else.

use crate::model::cut::Cut;
use crate::model::piece::Piece;
use crate::model::piece_type::PieceType;
use crate::model::schema::Schema;
use crate::model::shape::Shape;
use vstd::prelude::*;

verus! {

/// Whether `b` is `a` with `f` applied to each of its measures.
pub open spec fn cut_mapped<N, M, F: Fn(N) -> M>(f: F, a: Cut<N>, b: Cut<M>) -> bool {
    &&& call_ensures(f, (a.xi,), b.xi)
    &&& call_ensures(f, (a.yi,), b.yi)
    &&& call_ensures(f, (a.xf,), b.xf)
    &&& call_ensures(f, (a.yf,), b.yf)
    &&& call_ensures(f, (a.xc,), b.xc)
    &&& call_ensures(f, (a.yc,), b.yc)
    &&& call_ensures(f, (a.radius,), b.radius)
    &&& call_ensures(f, (a.rotation,), b.rotation)
    &&& call_ensures(f, (a.quota,), b.quota)
    &&& call_ensures(f, (a.length,), b.length)
    &&& call_ensures(f, (a.rest,), b.rest)
    &&& call_ensures(f, (a.ablation_width,), b.ablation_width)
    &&& b.cut_type == a.cut_type
    &&& b.line_type == a.line_type
    &&& b.level == a.level
    &&& b.tcut == a.tcut
    &&& b.tool_code == a.tool_code
    &&& b.piece_indices == a.piece_indices
    &&& b.cut_indices == a.cut_indices
    &&& b.num_pieces == a.num_pieces
    &&& b.is_scrap == a.is_scrap
    &&& b.parent_shape == a.parent_shape
    &&& b.active == a.active
}

/// Whether `b` is `a` with `f` applied to each of its measures.
pub open spec fn piece_mapped<N, M, F: Fn(N) -> M>(f: F, a: Piece<N>, b: Piece<M>) -> bool {
    &&& call_ensures(f, (a.x_origin,), b.x_origin)
    &&& call_ensures(f, (a.y_origin,), b.y_origin)
    &&& call_ensures(f, (a.width,), b.width)
    &&& call_ensures(f, (a.height,), b.height)
    &&& b.info_id == a.info_id
    &&& b.shape_id == a.shape_id
    &&& b.piece_index == a.piece_index
    &&& b.piece_type_index == a.piece_type_index
    &&& b.shape_index == a.shape_index
    &&& b.ind_piece == a.ind_piece
    &&& b.edge_sides == a.edge_sides
}

/// Whether `b` is `a` with `f` applied to each of its measures.
pub open spec fn piece_type_mapped<N, M, F: Fn(N) -> M>(f: F, a: PieceType<N>, b: PieceType<M>) -> bool {
    &&& call_ensures(f, (a.sheet_width,), b.sheet_width)
    &&& call_ensures(f, (a.sheet_height,), b.sheet_height)
    &&& b.id == a.id
    &&& b.order_no == a.order_no
    &&& b.position_no == a.position_no
    &&& b.customer == a.customer
    &&& b.commission == a.commission
    &&& b.second_glass_ref == a.second_glass_ref
    &&& b.rack_no == a.rack_no
    &&& b.piece_code == a.piece_code
    &&& b.waste == a.waste
}

/// Whether `b` are `a` with `f` applied to each measure of each cut.
pub open spec fn cuts_mapped<N, M, F: Fn(N) -> M>(f: F, a: Seq<Cut<N>>, b: Seq<Cut<M>>) -> bool {
    b.len() == a.len() && forall|i: int| 0 <= i < a.len() ==> cut_mapped(f, a[i], #[trigger] b[i])
}

/// Whether `b` are `a` with `f` applied to each measure of each piece.
pub open spec fn pieces_mapped<N, M, F: Fn(N) -> M>(f: F, a: Seq<Piece<N>>, b: Seq<Piece<M>>) -> bool {
    b.len() == a.len() && forall|i: int| 0 <= i < a.len() ==> piece_mapped(f, a[i], #[trigger] b[i])
}

/// Whether `b` is `a` with `f` applied to each of its measures and to
/// those of its segments.
pub open spec fn shape_mapped<N, M, F: Fn(N) -> M>(f: F, a: Shape<N>, b: Shape<M>) -> bool {
    &&& call_ensures(f, (a.rotation,), b.rotation)
    &&& call_ensures(f, (a.left_border,), b.left_border)
    &&& call_ensures(f, (a.perimeter,), b.perimeter)
    &&& cuts_mapped(f, a.cuts@, b.cuts@)
    &&& b.id == a.id
    &&& b.name == a.name
    &&& b.description == a.description
    &&& b.tool_types == a.tool_types
    &&& b.is_open == a.is_open
}

/// Whether `b` is `a` with `f` applied to every measure in it.
pub open spec fn schema_mapped<N, M, F: Fn(N) -> M>(f: F, a: Schema<N>, b: Schema<M>) -> bool {
    &&& call_ensures(f, (a.thickness,), b.thickness)
    &&& call_ensures(f, (a.width,), b.width)
    &&& call_ensures(f, (a.height,), b.height)
    &&& call_ensures(f, (a.trim_left,), b.trim_left)
    &&& call_ensures(f, (a.trim_bottom,), b.trim_bottom)
    &&& call_ensures(f, (a.linear_advance,), b.linear_advance)
    &&& call_ensures(f, (a.min_angle,), b.min_angle)
    &&& call_ensures(f, (a.coating_min_angle,), b.coating_min_angle)
    &&& cuts_mapped(f, a.linear_cuts@, b.linear_cuts@)
    &&& cuts_mapped(f, a.lowe_cuts@, b.lowe_cuts@)
    &&& pieces_mapped(f, a.pieces@, b.pieces@)
    &&& pieces_mapped(f, a.lowe_pieces@, b.lowe_pieces@)
    &&& b.piece_types.len() == a.piece_types.len()
    &&& forall|i: int|
        0 <= i < a.piece_types.len() ==> piece_type_mapped(
            f,
            a.piece_types[i],
            #[trigger] b.piece_types[i],
        )
    &&& b.shapes.len() == a.shapes.len()
    &&& forall|i: int|
        0 <= i < a.shapes.len() ==> shape_mapped(f, a.shapes[i], #[trigger] b.shapes[i])
    &&& b.otd_version == a.otd_version
    &&& b.unit == a.unit
    &&& b.date == a.date
    &&& b.creator == a.creator
    &&& b.machine_name == a.machine_name
    &&& b.machine_number == a.machine_number
    &&& b.glass_id == a.glass_id
    &&& b.glass_description == a.glass_description
    &&& b.glass_structured == a.glass_structured
    &&& b.glass_coated == a.glass_coated
    &&& b.quantity == a.quantity
    &&& b.cutting_order == a.cutting_order
    &&& b.linear_cuts_optimized == a.linear_cuts_optimized
    &&& b.optimize_shape_order == a.optimize_shape_order
    &&& b.n_layout_sync == a.n_layout_sync
    &&& b.linear_tool == a.linear_tool
    &&& b.shaped_tool == a.shaped_tool
    &&& b.open_shaped_tool == a.open_shaped_tool
    &&& b.incision_tool == a.incision_tool
    &&& b.has_ind_piece == a.has_ind_piece
    &&& b.multiple_shapes == a.multiple_shapes
}

/// `cut` with `f` applied to each of its measures.
pub fn map_cut<N, M, F: Fn(N) -> M>(cut: Cut<N>, f: &F) -> (r: Cut<M>)
    requires
        forall|x: N| call_requires(*f, (x,)),
    ensures
        cut_mapped(*f, cut, r),
{
    Cut {
        cut_type: cut.cut_type,
        line_type: cut.line_type,
        xi: f(cut.xi),
        yi: f(cut.yi),
        xf: f(cut.xf),
        yf: f(cut.yf),
        xc: f(cut.xc),
        yc: f(cut.yc),
        radius: f(cut.radius),
        level: cut.level,
        rotation: f(cut.rotation),
        quota: f(cut.quota),
        length: f(cut.length),
        tcut: cut.tcut,
        rest: f(cut.rest),
        tool_code: cut.tool_code,
        ablation_width: f(cut.ablation_width),
        piece_indices: cut.piece_indices,
        cut_indices: cut.cut_indices,
        num_pieces: cut.num_pieces,
        is_scrap: cut.is_scrap,
        parent_shape: cut.parent_shape,
        active: cut.active,
    }
}

/// `piece` with `f` applied to each of its measures.
pub fn map_piece<N, M, F: Fn(N) -> M>(piece: Piece<N>, f: &F) -> (r: Piece<M>)
    requires
        forall|x: N| call_requires(*f, (x,)),
    ensures
        piece_mapped(*f, piece, r),
{
    Piece {
        x_origin: f(piece.x_origin),
        y_origin: f(piece.y_origin),
        width: f(piece.width),
        height: f(piece.height),
        info_id: piece.info_id,
        shape_id: piece.shape_id,
        piece_index: piece.piece_index,
        piece_type_index: piece.piece_type_index,
        shape_index: piece.shape_index,
        ind_piece: piece.ind_piece,
        edge_sides: piece.edge_sides,
    }
}

/// `kind` with `f` applied to each of its measures.
pub fn map_piece_type<N, M, F: Fn(N) -> M>(kind: PieceType<N>, f: &F) -> (r: PieceType<M>)
    requires
        forall|x: N| call_requires(*f, (x,)),
    ensures
        piece_type_mapped(*f, kind, r),
{
    PieceType {
        id: kind.id,
        order_no: kind.order_no,
        position_no: kind.position_no,
        customer: kind.customer,
        commission: kind.commission,
        second_glass_ref: kind.second_glass_ref,
        rack_no: kind.rack_no,
        sheet_width: f(kind.sheet_width),
        sheet_height: f(kind.sheet_height),
        piece_code: kind.piece_code,
        waste: kind.waste,
    }
}

/// The items of `items`, last first.
fn reversed<T>(items: Vec<T>) -> (back: Vec<T>)
    ensures
        back.len() == items.len(),
        forall|k: int| 0 <= k < items.len() ==> #[trigger] back[k] == items[items.len() - 1 - k],
{
    let ghost all = items@;
    let n = items.len();
    let mut items = items;
    let mut back: Vec<T> = Vec::new();
    while items.len() > 0
        invariant
            items.len() + back.len() == n,
            n == all.len(),
            items@ == all.take(items.len() as int),
            forall|k: int| 0 <= k < back.len() ==> #[trigger] back[k] == all[n - 1 - k],
        decreases items.len(),
    {
        match items.pop() {
            Some(item) => {
                back.push(item);
            },
            None => {},
        }
        assert(items@ =~= all.take(items.len() as int));
    }
    back
}

/// `cuts` with `f` applied to each measure of each cut.
pub fn map_cuts<N, M, F: Fn(N) -> M>(cuts: Vec<Cut<N>>, f: &F) -> (r: Vec<Cut<M>>)
    requires
        forall|x: N| call_requires(*f, (x,)),
    ensures
        cuts_mapped(*f, cuts@, r@),
{
    let n = cuts.len();
    let mut back = reversed(cuts);
    let mut r: Vec<Cut<M>> = Vec::new();
    while back.len() > 0
        invariant
            forall|x: N| call_requires(*f, (x,)),
            back.len() + r.len() == n,
            n == cuts.len(),
            forall|k: int| 0 <= k < back.len() ==> #[trigger] back[k] == cuts[n - 1 - k],
            forall|i: int| 0 <= i < r.len() ==> cut_mapped(*f, cuts[i], #[trigger] r[i]),
        decreases back.len(),
    {
        match back.pop() {
            Some(cut) => {
                r.push(map_cut(cut, f));
            },
            None => {},
        }
    }
    r
}

/// `pieces` with `f` applied to each measure of each piece.
pub fn map_pieces<N, M, F: Fn(N) -> M>(pieces: Vec<Piece<N>>, f: &F) -> (r: Vec<Piece<M>>)
    requires
        forall|x: N| call_requires(*f, (x,)),
    ensures
        pieces_mapped(*f, pieces@, r@),
{
    let n = pieces.len();
    let mut back = reversed(pieces);
    let mut r: Vec<Piece<M>> = Vec::new();
    while back.len() > 0
        invariant
            forall|x: N| call_requires(*f, (x,)),
            back.len() + r.len() == n,
            n == pieces.len(),
            forall|k: int| 0 <= k < back.len() ==> #[trigger] back[k] == pieces[n - 1 - k],
            forall|i: int| 0 <= i < r.len() ==> piece_mapped(*f, pieces[i], #[trigger] r[i]),
        decreases back.len(),
    {
        match back.pop() {
            Some(piece) => {
                r.push(map_piece(piece, f));
            },
            None => {},
        }
    }
    r
}

/// `shape` with `f` applied to each of its measures and to those of its
/// segments.
pub fn map_shape<N, M, F: Fn(N) -> M>(shape: Shape<N>, f: &F) -> (r: Shape<M>)
    requires
        forall|x: N| call_requires(*f, (x,)),
    ensures
        shape_mapped(*f, shape, r),
{
    Shape {
        id: shape.id,
        name: shape.name,
        description: shape.description,
        rotation: f(shape.rotation),
        left_border: f(shape.left_border),
        cuts: map_cuts(shape.cuts, f),
        tool_types: shape.tool_types,
        is_open: shape.is_open,
        perimeter: f(shape.perimeter),
    }
}

/// `schema` with `f` applied to every measure in it.
pub fn map_schema<N, M, F: Fn(N) -> M>(schema: Schema<N>, f: &F) -> (r: Schema<M>)
    requires
        forall|x: N| call_requires(*f, (x,)),
    ensures
        schema_mapped(*f, schema, r),
{
    let types_len = schema.piece_types.len();
    let shapes_len = schema.shapes.len();
    let ghost types = schema.piece_types@;
    let ghost outlines = schema.shapes@;
    let mut back_types = reversed(schema.piece_types);
    let mut piece_types: Vec<PieceType<M>> = Vec::new();
    while back_types.len() > 0
        invariant
            forall|x: N| call_requires(*f, (x,)),
            back_types.len() + piece_types.len() == types_len,
            types_len == types.len(),
            forall|k: int|
                0 <= k < back_types.len() ==> #[trigger] back_types[k] == types[types_len - 1 - k],
            forall|i: int|
                0 <= i < piece_types.len() ==> piece_type_mapped(
                    *f,
                    types[i],
                    #[trigger] piece_types[i],
                ),
        decreases back_types.len(),
    {
        match back_types.pop() {
            Some(kind) => {
                piece_types.push(map_piece_type(kind, f));
            },
            None => {},
        }
    }
    let mut back_shapes = reversed(schema.shapes);
    let mut shapes: Vec<Shape<M>> = Vec::new();
    while back_shapes.len() > 0
        invariant
            forall|x: N| call_requires(*f, (x,)),
            back_shapes.len() + shapes.len() == shapes_len,
            shapes_len == outlines.len(),
            forall|k: int|
                0 <= k < back_shapes.len() ==> #[trigger] back_shapes[k] == outlines[shapes_len - 1
                    - k],
            forall|i: int|
                0 <= i < shapes.len() ==> shape_mapped(*f, outlines[i], #[trigger] shapes[i]),
        decreases back_shapes.len(),
    {
        match back_shapes.pop() {
            Some(shape) => {
                shapes.push(map_shape(shape, f));
            },
            None => {},
        }
    }
    Schema {
        otd_version: schema.otd_version,
        unit: schema.unit,
        date: schema.date,
        creator: schema.creator,
        machine_name: schema.machine_name,
        machine_number: schema.machine_number,
        glass_id: schema.glass_id,
        glass_description: schema.glass_description,
        thickness: f(schema.thickness),
        glass_structured: schema.glass_structured,
        glass_coated: schema.glass_coated,
        width: f(schema.width),
        height: f(schema.height),
        trim_left: f(schema.trim_left),
        trim_bottom: f(schema.trim_bottom),
        quantity: schema.quantity,
        cutting_order: schema.cutting_order,
        linear_advance: f(schema.linear_advance),
        min_angle: f(schema.min_angle),
        coating_min_angle: f(schema.coating_min_angle),
        linear_cuts_optimized: schema.linear_cuts_optimized,
        optimize_shape_order: schema.optimize_shape_order,
        n_layout_sync: schema.n_layout_sync,
        linear_tool: schema.linear_tool,
        shaped_tool: schema.shaped_tool,
        open_shaped_tool: schema.open_shaped_tool,
        incision_tool: schema.incision_tool,
        linear_cuts: map_cuts(schema.linear_cuts, f),
        lowe_cuts: map_cuts(schema.lowe_cuts, f),
        pieces: map_pieces(schema.pieces, f),
        lowe_pieces: map_pieces(schema.lowe_pieces, f),
        piece_types,
        shapes,
        has_ind_piece: schema.has_ind_piece,
        multiple_shapes: schema.multiple_shapes,
    }
}

} // verus!
