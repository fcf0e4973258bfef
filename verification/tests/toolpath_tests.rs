use otd_core::model::cut::{Cut, CutType, LineType};
use otd_core::model::piece::Piece;
use otd_core::model::schema::Schema;
use otd_core::model::shape::Shape;
use otd_core::transform::shapes::{
    check_shape_piece_sizes, choose_open, entry_cut, first_with_shape, PieceWalk,
};
use otd_core::transform::linear::get_cut_indices;
use otd_core::transform::toolpath::{choose_nearest, CutWalk, Visit, FARTHEST};

fn cut(xi: f64, yi: f64, xf: f64, yf: f64, active: bool) -> Cut<f64> {
    Cut {
        cut_type: CutType::Line,
        line_type: LineType::Oblique,
        xi,
        yi,
        xf,
        yf,
        active,
        ..Default::default()
    }
}

fn key(from: (f64, f64), to: (f64, f64)) -> u64 {
    let dx = from.0 - to.0;
    let dy = from.1 - to.1;
    (dx * dx + dy * dy).sqrt().to_bits()
}

/// The walk, with distances measured here.
fn walk(cuts: &Vec<Cut<f64>>) -> (Vec<Visit>, Vec<Cut<f64>>) {
    let mut walk = CutWalk::start(cuts, (0.0, 0.0));
    let mut steps = 0;
    while !walk.is_done() {
        let at = walk.position();
        let keys: Vec<(u64, u64)> = walk
            .remaining()
            .iter()
            .map(|&i| (key(at, (cuts[i].xi, cuts[i].yi)), key(at, (cuts[i].xf, cuts[i].yf))))
            .collect();
        let before = walk.remaining().len();
        let visit = walk.advance(cuts, &keys);
        assert_eq!(walk.remaining().len(), before - 1);
        assert!(cuts[visit.index].active);
        steps += 1;
    }
    assert_eq!(steps, cuts.iter().filter(|c| c.active).count());
    let order = walk.order().clone();
    (order, walk.arrange(cuts.clone()))
}

/// The same order, found the plain way.
fn plain_order(cuts: &Vec<Cut<f64>>) -> Vec<(usize, bool)> {
    let mut remaining: Vec<usize> = (0..cuts.len()).filter(|&i| cuts[i].active).collect();
    let (mut x, mut y) = (0.0f64, 0.0f64);
    let mut order = Vec::new();
    for _ in 0..remaining.len() {
        let mut best = 0;
        let mut best_dist = f64::MAX;
        let mut reversed = false;
        for (i, &orig) in remaining.iter().enumerate() {
            let c = &cuts[orig];
            let start = ((x - c.xi).powi(2) + (y - c.yi).powi(2)).sqrt();
            let end = ((x - c.xf).powi(2) + (y - c.yf).powi(2)).sqrt();
            if start < best_dist {
                best_dist = start;
                best = i;
                reversed = false;
            }
            if end < best_dist {
                best_dist = end;
                best = i;
                reversed = true;
            }
        }
        let orig = remaining.remove(best);
        if reversed {
            x = cuts[orig].xi;
            y = cuts[orig].yi;
        } else {
            x = cuts[orig].xf;
            y = cuts[orig].yf;
        }
        order.push((orig, reversed));
    }
    order
}

#[test]
fn nearest_is_the_first_least_key_below_the_limit() {
    assert_eq!(choose_nearest(&vec![]), (0, false));
    assert_eq!(choose_nearest(&vec![(5, 3), (3, 9)]), (0, true));
    assert_eq!(choose_nearest(&vec![(5, 7), (5, 4), (4, 4)]), (1, true));
    assert_eq!(choose_nearest(&vec![(9, 9), (2, 2)]), (1, false));
    // nothing below the limit: the first cut, forwards
    assert_eq!(choose_nearest(&vec![(FARTHEST, u64::MAX), (u64::MAX, FARTHEST)]), (0, false));
    assert_eq!(choose_nearest(&vec![(FARTHEST, FARTHEST), (FARTHEST - 1, 0)]), (1, true));
    assert_eq!(FARTHEST, f64::MAX.to_bits());
}

#[test]
fn the_walk_visits_each_active_cut_once() {
    let cuts = vec![
        cut(100.0, 0.0, 100.0, 50.0, true),
        cut(0.0, 10.0, 50.0, 10.0, true),
        cut(7.0, 7.0, 8.0, 8.0, false),
        cut(60.0, 10.0, 55.0, 10.0, true),
        cut(0.0, 0.0, 0.0, 5.0, true),
    ];
    let (order, arranged) = walk(&cuts);
    let visited: Vec<(usize, bool)> = order.iter().map(|v| (v.index, v.reversed)).collect();
    assert_eq!(visited, vec![(4, false), (1, false), (3, true), (0, false)]);
    assert_eq!(visited, plain_order(&cuts));
    // the cuts made come first, turned round where made backwards; then the others
    assert_eq!(arranged.len(), 5);
    assert_eq!((arranged[2].xi, arranged[2].xf), (55.0, 60.0));
    assert_eq!((arranged[3].xi, arranged[3].yf), (100.0, 50.0));
    assert!(!arranged[4].active);
    assert_eq!(arranged[4].xi, 7.0);
}

#[test]
fn the_walk_agrees_with_the_plain_search() {
    let mut seed: u32 = 99;
    let mut next = || {
        seed = seed.wrapping_mul(1664525).wrapping_add(1013904223);
        ((seed >> 8) % 1000) as f64 / 4.0
    };
    for round in 0..60 {
        let n = round % 9;
        let mut cuts = Vec::new();
        for k in 0..n {
            let active = (round + k) % 4 != 0;
            cuts.push(cut(next(), next(), next(), next(), active));
        }
        if round % 7 == 0 && n > 1 {
            cuts[1] = cut(f64::NAN, 1.0, f64::INFINITY, 2.0, true);
        }
        let (order, arranged) = walk(&cuts);
        let visited: Vec<(usize, bool)> = order.iter().map(|v| (v.index, v.reversed)).collect();
        assert_eq!(visited, plain_order(&cuts));
        let mut seen: Vec<usize> = visited.iter().map(|v| v.0).collect();
        seen.sort();
        seen.dedup();
        assert_eq!(seen.len(), visited.len());
        assert_eq!(arranged.len(), cuts.len());
    }
}

#[test]
fn a_walk_over_nothing_is_done_at_once() {
    let cuts = vec![cut(1.0, 1.0, 2.0, 2.0, false)];
    let walk = CutWalk::start(&cuts, (0.0, 0.0));
    assert!(walk.is_done());
    assert_eq!(walk.position(), (0.0, 0.0));
    let arranged = walk.arrange(cuts);
    assert_eq!(arranged.len(), 1);
}

#[test]
fn shaped_pieces_are_visited_nearest_first() {
    assert_eq!(choose_open(&vec![5, 3, 3, 1], &vec![true, true, true, false]), Some(1));
    assert_eq!(choose_open(&vec![5, 3], &vec![false, false]), None);
    assert_eq!(choose_open(&vec![FARTHEST, u64::MAX], &vec![true, true]), None);

    let mut walk = PieceWalk::start(vec![true, false, true, true]);
    assert_eq!(walk.advance(&vec![9, 0, 4, 4]), Some(2));
    assert_eq!(walk.advance(&vec![9, 0, 0, 4]), Some(3));
    assert_eq!(walk.advance(&vec![9, 0, 0, 0]), Some(0));
    assert_eq!(walk.advance(&vec![0, 0, 0, 0]), None);
    assert_eq!(walk.finish(true), vec![2, 3, 0]);

    let mut walk = PieceWalk::start(vec![true, true]);
    assert_eq!(walk.advance(&vec![2, 1]), Some(1));
    assert_eq!(walk.finish(false), vec![0, 1]);
    let walk = PieceWalk::start(vec![false, false, false]);
    assert_eq!(walk.finish(true), vec![0, 1, 2]);
}

#[test]
fn a_shape_is_entered_at_its_first_active_cut_of_the_tool() {
    let mut shape: Shape<f64> = Shape::new(1);
    for (tool, active) in [(2, true), (1, false), (1, true), (1, true)] {
        let mut c = cut(0.0, 0.0, 1.0, 1.0, active);
        c.tool_code = tool;
        shape.add_cut(c);
    }
    assert_eq!(entry_cut(&shape, 1), None);
    shape.detect_tool_types();
    assert_eq!(entry_cut(&shape, 1), Some(2));
    assert_eq!(entry_cut(&shape, 2), Some(0));
    assert_eq!(entry_cut(&shape, 3), None);
    shape.cuts[0].active = false;
    assert_eq!(entry_cut(&shape, 2), None);
}

#[test]
fn mismatched_shapes_are_named_once_each() {
    let mut schema: Schema<f64> = Schema::new(5.0, 5.0);
    for shape in [Some(3), Some(4), None, Some(3), Some(4), Some(3), None] {
        let mut piece = Piece::new(0.0, 0.0, 1.0, 1.0);
        piece.shape_id = shape;
        schema.add_piece(piece);
    }
    assert_eq!(first_with_shape(&schema, 0), 0);
    assert_eq!(first_with_shape(&schema, 3), 0);
    assert_eq!(first_with_shape(&schema, 4), 1);
    assert_eq!(first_with_shape(&schema, 6), 2);
    let none = vec![false; 7];
    assert_eq!(check_shape_piece_sizes(&schema, &none), Ok(()));
    let differs = vec![false, false, true, false, true, true, true];
    assert_eq!(check_shape_piece_sizes(&schema, &differs), Err(vec![4, 3]));
    let differs = vec![false, false, false, true];
    assert_eq!(check_shape_piece_sizes(&schema, &differs), Err(vec![3]));
}

#[test]
fn cuts_are_picked_by_orientation() {
    let mut cuts = Vec::new();
    for (line_type, active) in [
        (LineType::Vertical, true),
        (LineType::Horizontal, true),
        (LineType::Vertical, false),
        (LineType::Oblique, true),
        (LineType::Vertical, true),
        (LineType::Horizontal, false),
    ] {
        let mut c = cut(0.0, 0.0, 1.0, 1.0, active);
        c.line_type = line_type;
        cuts.push(c);
    }
    assert_eq!(get_cut_indices(&cuts, true), vec![0, 4]);
    assert_eq!(get_cut_indices(&cuts, false), vec![1]);
    assert!(get_cut_indices(&Vec::<Cut<f64>>::new(), true).is_empty());
}
