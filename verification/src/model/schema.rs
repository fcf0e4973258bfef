//! The layout of one sheet.

use crate::config::Unit;
use crate::model::cut::Cut;
use crate::model::piece::Piece;
use crate::model::piece_type::PieceType;
use crate::model::shape::Shape;
use vstd::prelude::*;

verus! {

/// The complete cutting layout of one sheet: one `[Pattern]` section and
/// the sections that belong to it.
#[derive(Debug, Clone, Default)]
pub struct Schema<N> {
    /// Version of the input format.
    pub otd_version: String,
    /// Unit of measurement.
    pub unit: Unit,
    /// Date of creation.
    pub date: String,
    /// Program that wrote the input.
    pub creator: String,
    /// Name of the target machine.
    pub machine_name: String,
    /// Number of the target machine.
    pub machine_number: u16,
    /// Material id.
    pub glass_id: String,
    /// Material description.
    pub glass_description: String,
    /// Thickness of the sheet.
    pub thickness: N,
    /// Whether the surface is structured.
    pub glass_structured: bool,
    /// Whether the glass is coated.
    pub glass_coated: bool,
    /// Width of the sheet.
    pub width: N,
    /// Height of the sheet.
    pub height: N,
    /// Trim at the left edge.
    pub trim_left: N,
    /// Trim at the bottom edge.
    pub trim_bottom: N,
    /// How many sheets are to be cut.
    pub quantity: u32,
    /// 0 where linear cuts come first, 1 where shapes do.
    pub cutting_order: u8,
    /// How far a linear cut stays away from where it would end.
    pub linear_advance: N,
    /// Least angle between cuts that is a corner, for glass.
    pub min_angle: N,
    /// The same for the coating.
    pub coating_min_angle: N,
    /// Whether the linear cuts are in their final order already.
    pub linear_cuts_optimized: bool,
    /// Whether the order of shaped cuts is to be optimized.
    pub optimize_shape_order: bool,
    /// Layout sync number.
    pub n_layout_sync: i32,
    /// Tool code for linear cuts.
    pub linear_tool: i32,
    /// Tool code for shaped cuts.
    pub shaped_tool: i32,
    /// Tool code for open shaped cuts.
    pub open_shaped_tool: i32,
    /// Tool code for incisions.
    pub incision_tool: i32,
    /// The linear cuts.
    pub linear_cuts: Vec<Cut<N>>,
    /// The cuts that remove coating.
    pub lowe_cuts: Vec<Cut<N>>,
    /// The pieces.
    pub pieces: Vec<Piece<N>>,
    /// The pieces of the coating layout.
    pub lowe_pieces: Vec<Piece<N>>,
    /// The piece types.
    pub piece_types: Vec<PieceType<N>>,
    /// The shapes.
    pub shapes: Vec<Shape<N>>,
    /// Whether the input numbered its pieces.
    pub has_ind_piece: bool,
    /// Whether the schema uses several shapes per piece.
    pub multiple_shapes: bool,
}

/// The index of the first piece type with id `id`.
pub open spec fn piece_type_position<N>(types: Seq<PieceType<N>>, id: i32) -> Option<int> {
    types.map_values(|t: PieceType<N>| t.id).index_of_first(id)
}

/// The index of the first shape with id `id`.
pub open spec fn shape_position<N>(shapes: Seq<Shape<N>>, id: i32) -> Option<int> {
    shapes.map_values(|s: Shape<N>| s.id).index_of_first(id)
}

/// `i` as an exec index.
pub open spec fn as_index(i: Option<int>) -> Option<usize> {
    match i {
        Some(k) => Some(k as usize),
        None => None,
    }
}

/// A piece after its references are resolved against the given piece types
/// and shapes: a piece that names an `Info` id gets the position of that
/// id among the piece types, or none where no type has it; likewise for a
/// `Shape` id. A piece that names no id keeps the index it had.
pub open spec fn resolved<N>(
    piece: Piece<N>,
    types: Seq<PieceType<N>>,
    shapes: Seq<Shape<N>>,
) -> Piece<N> {
    Piece {
        piece_type_index: match piece.info_id {
            Some(id) => as_index(piece_type_position(types, id)),
            None => piece.piece_type_index,
        },
        shape_index: match piece.shape_id {
            Some(id) => as_index(shape_position(shapes, id)),
            None => piece.shape_index,
        },
        ..piece
    }
}

/// The id of the piece type of piece `i`, where its resolved index points
/// at one.
pub open spec fn type_id_of<N>(schema: Schema<N>, i: int) -> Option<i32> {
    match schema.pieces[i].piece_type_index {
        Some(t) => if t < schema.piece_types.len() {
            Some(schema.piece_types[t as int].id)
        } else {
            None
        },
        None => None,
    }
}

/// How many of the first `n` pieces have a piece type with id `id`.
pub open spec fn count_of_type<N>(schema: Schema<N>, id: i32, n: int) -> nat
    decreases n,
{
    if n <= 0 {
        0
    } else {
        count_of_type(schema, id, n - 1) + if type_id_of(schema, n - 1) == Some(id) {
            1nat
        } else {
            0nat
        }
    }
}

/// Whether `counts` is the distribution of the first `n` pieces over the
/// piece types: for each id that a piece has, the id and the number of
/// pieces that have it, in ascending order of the ids.
pub open spec fn is_distribution<N>(schema: Schema<N>, counts: Seq<(i32, usize)>, n: int) -> bool {
    &&& forall|a: int, b: int| 0 <= a < b < counts.len() ==> counts[a].0 < counts[b].0
    &&& forall|k: int|
        0 <= k < counts.len() ==> (#[trigger] counts[k]).1 > 0 && counts[k].1 == count_of_type(
            schema,
            counts[k].0,
            n,
        )
    &&& forall|id: i32|
        count_of_type(schema, id, n) > 0 ==> exists|k: int|
            0 <= k < counts.len() && (#[trigger] counts[k]).0 == id
}

/// No more pieces have an id than there are pieces.
pub proof fn lemma_count_of_type_bound<N>(schema: Schema<N>, id: i32, n: int)
    requires
        0 <= n,
    ensures
        count_of_type(schema, id, n) <= n,
    decreases n,
{
    if n > 0 {
        lemma_count_of_type_bound(schema, id, n - 1);
    }
}

impl<N> Schema<N> {
    /// Whether every resolved index of a piece points into the schema.
    pub open spec fn references_wf(&self) -> bool {
        forall|i: int|
            0 <= i < self.pieces.len() ==> {
                &&& (#[trigger] self.pieces[i]).piece_type_index matches Some(t)
                    ==> t < self.piece_types.len()
                &&& self.pieces[i].shape_index matches Some(s) ==> s < self.shapes.len()
            }
    }

    /// Empties the linear cuts, with room for `capacity` of them.
    pub fn init_linear_cuts(&mut self, capacity: usize)
        ensures
            *final(self) == (Schema { linear_cuts: final(self).linear_cuts, ..*old(self) }),
            final(self).linear_cuts@.len() == 0,
    {
        self.linear_cuts = Vec::with_capacity(capacity);
    }

    /// Empties the pieces, with room for `capacity` of them.
    pub fn init_pieces(&mut self, capacity: usize)
        ensures
            *final(self) == (Schema { pieces: final(self).pieces, ..*old(self) }),
            final(self).pieces@.len() == 0,
    {
        self.pieces = Vec::with_capacity(capacity);
    }

    /// Empties the piece types, with room for `capacity` of them.
    pub fn init_piece_types(&mut self, capacity: usize)
        ensures
            *final(self) == (Schema { piece_types: final(self).piece_types, ..*old(self) }),
            final(self).piece_types@.len() == 0,
    {
        self.piece_types = Vec::with_capacity(capacity);
    }

    /// Empties the shapes, with room for `capacity` of them.
    pub fn init_shapes(&mut self, capacity: usize)
        ensures
            *final(self) == (Schema { shapes: final(self).shapes, ..*old(self) }),
            final(self).shapes@.len() == 0,
    {
        self.shapes = Vec::with_capacity(capacity);
    }

    /// Appends a linear cut.
    pub fn add_linear_cut(&mut self, cut: Cut<N>)
        ensures
            *final(self) == (Schema { linear_cuts: final(self).linear_cuts, ..*old(self) }),
            final(self).linear_cuts@ == old(self).linear_cuts@.push(cut),
    {
        self.linear_cuts.push(cut);
    }

    /// Appends a piece.
    pub fn add_piece(&mut self, piece: Piece<N>)
        ensures
            *final(self) == (Schema { pieces: final(self).pieces, ..*old(self) }),
            final(self).pieces@ == old(self).pieces@.push(piece),
    {
        self.pieces.push(piece);
    }

    /// Appends a piece type.
    pub fn add_piece_type(&mut self, piece_type: PieceType<N>)
        ensures
            *final(self) == (Schema { piece_types: final(self).piece_types, ..*old(self) }),
            final(self).piece_types@ == old(self).piece_types@.push(piece_type),
    {
        self.piece_types.push(piece_type);
    }

    /// Appends a shape.
    pub fn add_shape(&mut self, shape: Shape<N>)
        ensures
            *final(self) == (Schema { shapes: final(self).shapes, ..*old(self) }),
            final(self).shapes@ == old(self).shapes@.push(shape),
    {
        self.shapes.push(shape);
    }

    /// The index of the first piece type with id `id`.
    pub fn find_piece_type(&self, id: i32) -> (r: Option<usize>)
        ensures
            r == as_index(piece_type_position(self.piece_types@, id)),
            r matches Some(i) ==> i < self.piece_types.len() && self.piece_types[i as int].id == id
                && piece_type_position(self.piece_types@, id) == Some(i as int),
            r is None ==> piece_type_position(self.piece_types@, id) is None,
    {
        let ghost ids = self.piece_types@.map_values(|t: PieceType<N>| t.id);
        proof {
            ids.index_of_first_ensures(id);
        }
        let mut i: usize = 0;
        while i < self.piece_types.len()
            invariant
                i <= self.piece_types.len(),
                ids == self.piece_types@.map_values(|t: PieceType<N>| t.id),
                forall|j: int| 0 <= j < i ==> ids[j] != id,
            decreases self.piece_types.len() - i,
        {
            if self.piece_types[i].id == id {
                assert(ids[i as int] == id);
                proof {
                    ids.index_of_first_ensures(id);
                }
                return Some(i);
            }
            i += 1;
        }
        proof {
            ids.index_of_first_ensures(id);
            if ids.contains(id) {
                let k = choose|k: int| 0 <= k < ids.len() && ids[k] == id;
                assert(false);
            }
        }
        None
    }

    /// The index of the first shape with id `id`.
    pub fn find_shape(&self, id: i32) -> (r: Option<usize>)
        ensures
            r == as_index(shape_position(self.shapes@, id)),
            r matches Some(i) ==> i < self.shapes.len() && self.shapes[i as int].id == id
                && shape_position(self.shapes@, id) == Some(i as int),
            r is None ==> shape_position(self.shapes@, id) is None,
    {
        let ghost ids = self.shapes@.map_values(|s: Shape<N>| s.id);
        let mut i: usize = 0;
        while i < self.shapes.len()
            invariant
                i <= self.shapes.len(),
                ids == self.shapes@.map_values(|s: Shape<N>| s.id),
                forall|j: int| 0 <= j < i ==> ids[j] != id,
            decreases self.shapes.len() - i,
        {
            if self.shapes[i].id == id {
                assert(ids[i as int] == id);
                proof {
                    ids.index_of_first_ensures(id);
                }
                return Some(i);
            }
            i += 1;
        }
        proof {
            ids.index_of_first_ensures(id);
            if ids.contains(id) {
                let k = choose|k: int| 0 <= k < ids.len() && ids[k] == id;
                assert(false);
            }
        }
        None
    }

    /// How many linear cuts there are.
    pub fn num_linear_cuts(&self) -> (n: usize)
        ensures
            n == self.linear_cuts.len(),
    {
        self.linear_cuts.len()
    }

    /// How many pieces there are.
    pub fn num_pieces(&self) -> (n: usize)
        ensures
            n == self.pieces.len(),
    {
        self.pieces.len()
    }

    /// How many shapes there are.
    pub fn num_shapes(&self) -> (n: usize)
        ensures
            n == self.shapes.len(),
    {
        self.shapes.len()
    }

    /// How the pieces are distributed over the piece types: for each id
    /// that a piece has, by its resolved index, the id and the number of
    /// pieces that have it, in ascending order of the ids.
    pub fn piece_distribution(&self) -> (counts: Vec<(i32, usize)>)
        ensures
            is_distribution(*self, counts@, self.pieces.len() as int),
    {
        let mut counts: Vec<(i32, usize)> = Vec::new();
        let mut i: usize = 0;
        while i < self.pieces.len()
            invariant
                i <= self.pieces.len(),
                is_distribution(*self, counts@, i as int),
            decreases self.pieces.len() - i,
        {
            let ghost before = counts@;
            let found: Option<i32> = match self.pieces[i].piece_type_index {
                Some(t) => if t < self.piece_types.len() {
                    Some(self.piece_types[t].id)
                } else {
                    None
                },
                None => None,
            };
            match found {
                Some(id) => {
                    let mut k: usize = 0;
                    while k < counts.len() && counts[k].0 < id
                        invariant
                            k <= counts.len(),
                            counts@ == before,
                            forall|j: int| 0 <= j < k ==> (#[trigger] counts[j]).0 < id,
                        decreases counts.len() - k,
                    {
                        k += 1;
                    }
                    if k < counts.len() && counts[k].0 == id {
                        proof {
                            lemma_count_of_type_bound(*self, id, i as int);
                        }
                        let n = counts[k].1;
                        counts[k] = (id, n + 1);
                        proof {
                            let after = counts@;
                            let m: int = i + 1;
                            assert(after =~= before.update(k as int, (id, (n + 1) as usize)));
                            assert forall|a: int, b: int| 0 <= a < b < after.len() implies after[a].0
                                < after[b].0 by {
                                assert(after[a].0 == before[a].0 && after[b].0 == before[b].0);
                            }
                            assert forall|c: i32| #[trigger]
                                count_of_type(*self, c, m) > 0 implies exists|j: int|
                                0 <= j < after.len() && (#[trigger] after[j]).0 == c by {
                                if c == id {
                                    assert(after[k as int].0 == c);
                                } else {
                                    assert(count_of_type(*self, c, i as int) > 0);
                                    let j = choose|j: int|
                                        0 <= j < before.len() && (#[trigger] before[j]).0 == c;
                                    assert(after[j].0 == c);
                                }
                            }
                            assert forall|j: int| 0 <= j < after.len() implies (
                            #[trigger] after[j]).1 > 0 && after[j].1 == count_of_type(
                                *self,
                                after[j].0,
                                m,
                            ) by {
                                if j != k {
                                    assert(after[j] == before[j]);
                                }
                            }
                        }
                    } else {
                        proof {
                            // no piece so far has this id
                            if count_of_type(*self, id, i as int) > 0 {
                                let j = choose|j: int|
                                    0 <= j < before.len() && (#[trigger] before[j]).0 == id;
                                assert(false);
                            }
                        }
                        counts.insert(k, (id, 1));
                        proof {
                            let after = counts@;
                            assert(after =~= before.insert(k as int, (id, 1usize)));
                            assert forall|a: int, b: int| 0 <= a < b < after.len() implies after[a].0
                                < after[b].0 by {
                                let a0 = if a < k { a } else { a - 1 };
                                let b0 = if b < k { b } else { b - 1 };
                                if a != k && b != k {
                                    assert(after[a] == before[a0] && after[b] == before[b0]);
                                } else if a == k {
                                    assert(after[b] == before[b0]);
                                    assert(before[k as int].0 <= before[b0].0);
                                } else {
                                    assert(after[a] == before[a0]);
                                }
                            }
                            let m: int = i + 1;
                            assert forall|j: int| 0 <= j < after.len() implies (
                            #[trigger] after[j]).1 > 0 && after[j].1 == count_of_type(
                                *self,
                                after[j].0,
                                m,
                            ) by {
                                if j != k {
                                    let j0 = if j < k { j } else { j - 1 };
                                    assert(after[j] == before[j0]);
                                    assert(before[j0].0 != id);
                                }
                            }
                            assert forall|c: i32| #[trigger]
                                count_of_type(*self, c, m) > 0 implies exists|j: int|
                                0 <= j < after.len() && (#[trigger] after[j]).0 == c by {
                                if c == id {
                                    assert(after[k as int].0 == c);
                                } else {
                                    assert(count_of_type(*self, c, i as int) > 0);
                                    let j = choose|j: int|
                                        0 <= j < before.len() && (#[trigger] before[j]).0 == c;
                                    let j1 = if j < k { j } else { j + 1 };
                                    assert(after[j1] == before[j]);
                                }
                            }
                        }
                    }
                },
                None => {
                    proof {
                        let m: int = i + 1;
                        assert forall|c: i32| #[trigger]
                            count_of_type(*self, c, m) == count_of_type(*self, c, i as int) by {}
                        assert forall|j: int| 0 <= j < before.len() implies (
                        #[trigger] before[j]).1 > 0 && before[j].1 == count_of_type(
                            *self,
                            before[j].0,
                            m,
                        ) by {}
                        assert forall|c: i32| #[trigger]
                            count_of_type(*self, c, m) > 0 implies exists|j: int|
                            0 <= j < before.len() && (#[trigger] before[j]).0 == c by {
                            assert(count_of_type(*self, c, i as int) > 0);
                        }
                    }
                },
            }
            i += 1;
        }
        counts
    }

    /// Resolves the ids that pieces name into indices of the schema's
    /// piece types and shapes.
    pub fn resolve_piece_references(&mut self)
        ensures
            *final(self) == (Schema { pieces: final(self).pieces, ..*old(self) }),
            final(self).pieces.len() == old(self).pieces.len(),
            forall|i: int|
                0 <= i < old(self).pieces.len() ==> #[trigger] final(self).pieces[i] == resolved(
                    old(self).pieces[i],
                    old(self).piece_types@,
                    old(self).shapes@,
                ),
    {
        let n = self.pieces.len();
        let mut i: usize = 0;
        while i < n
            invariant
                i <= n,
                n == self.pieces.len(),
                n == old(self).pieces.len(),
                *self == (Schema { pieces: self.pieces, ..*old(self) }),
                forall|j: int|
                    0 <= j < i ==> #[trigger] self.pieces[j] == resolved(
                        old(self).pieces[j],
                        old(self).piece_types@,
                        old(self).shapes@,
                    ),
                forall|j: int| i <= j < n ==> #[trigger] self.pieces[j] == old(self).pieces[j],
            decreases n - i,
        {
            let info_id = self.pieces[i].info_id;
            let shape_id = self.pieces[i].shape_id;
            if let Some(id) = info_id {
                let found = self.find_piece_type(id);
                self.pieces[i].piece_type_index = found;
            }
            if let Some(id) = shape_id {
                let found = self.find_shape(id);
                self.pieces[i].shape_index = found;
            }
            i += 1;
        }
    }
}

impl<N: Default> Schema<N> {
    /// An empty schema for one sheet, with the given least corner angles
    /// for glass and coating, and with the order of shaped cuts to be
    /// optimized.
    pub fn new(min_angle: N, coating_min_angle: N) -> (s: Schema<N>)
        ensures
            s.min_angle == min_angle,
            s.coating_min_angle == coating_min_angle,
            s.quantity == 1,
            s.optimize_shape_order,
            !s.linear_cuts_optimized,
            s.unit == Unit::Millimeters,
            s.linear_cuts@.len() == 0,
            s.lowe_cuts@.len() == 0,
            s.pieces@.len() == 0,
            s.lowe_pieces@.len() == 0,
            s.piece_types@.len() == 0,
            s.shapes@.len() == 0,
            s.machine_number == 0,
            s.linear_tool == 0,
            s.shaped_tool == 0,
            s.open_shaped_tool == 0,
            s.incision_tool == 0,
            s.n_layout_sync == 0,
            s.cutting_order == 0,
    {
        Schema {
            otd_version: String::new(),
            unit: Unit::Millimeters,
            date: String::new(),
            creator: String::new(),
            machine_name: String::new(),
            machine_number: 0,
            glass_id: String::new(),
            glass_description: String::new(),
            thickness: N::default(),
            glass_structured: false,
            glass_coated: false,
            width: N::default(),
            height: N::default(),
            trim_left: N::default(),
            trim_bottom: N::default(),
            quantity: 1,
            cutting_order: 0,
            linear_advance: N::default(),
            min_angle,
            coating_min_angle,
            linear_cuts_optimized: false,
            optimize_shape_order: true,
            n_layout_sync: 0,
            linear_tool: 0,
            shaped_tool: 0,
            open_shaped_tool: 0,
            incision_tool: 0,
            linear_cuts: Vec::new(),
            lowe_cuts: Vec::new(),
            pieces: Vec::new(),
            lowe_pieces: Vec::new(),
            piece_types: Vec::new(),
            shapes: Vec::new(),
            has_ind_piece: false,
            multiple_shapes: false,
        }
    }
}

} // verus!
