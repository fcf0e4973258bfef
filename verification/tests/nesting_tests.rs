use otd_core::parser::nesting::{
    ancestor_path, coordinate_level, nesting_steps, steps_to, StepKind,
};
use otd_core::parser::strips::{walk_strips, Strip};

fn kinds(levels: &[i32], i: usize) -> Vec<(usize, StepKind, bool)> {
    let levels = levels.to_vec();
    let path = ancestor_path(&levels, i);
    nesting_steps(&levels, &path).iter().map(|s| (s.index, s.kind, s.vertical)).collect()
}

#[test]
fn variables_map_to_levels() {
    let vars = ['X', 'Y', 'Z', 'W', 'V', 'A', 'B', 'C', 'D', 'E'];
    for (level, var) in vars.iter().enumerate() {
        assert_eq!(coordinate_level(*var), Some(level as i32));
    }
    assert_eq!(coordinate_level('x'), None);
    assert_eq!(coordinate_level('F'), None);
    assert_eq!(coordinate_level('='), None);
}

#[test]
fn the_path_keeps_what_no_later_entry_falls_below() {
    // X Y Y X Y Z Z Y
    let levels = vec![0, 1, 1, 0, 1, 2, 2, 1];
    assert_eq!(ancestor_path(&levels, 0), vec![0]);
    assert_eq!(ancestor_path(&levels, 1), vec![0, 1]);
    assert_eq!(ancestor_path(&levels, 2), vec![0, 1, 2]);
    assert_eq!(ancestor_path(&levels, 3), vec![0, 3]);
    assert_eq!(ancestor_path(&levels, 4), vec![0, 3, 4]);
    assert_eq!(ancestor_path(&levels, 5), vec![0, 3, 4, 5]);
    assert_eq!(ancestor_path(&levels, 6), vec![0, 3, 4, 5, 6]);
    assert_eq!(ancestor_path(&levels, 7), vec![0, 3, 4, 7]);
}

#[test]
fn the_path_is_what_a_backward_scan_with_a_running_minimum_finds() {
    let mut seed: u32 = 12345;
    for _ in 0..200 {
        let mut levels = Vec::new();
        for _ in 0..12 {
            seed = seed.wrapping_mul(1103515245).wrapping_add(12345);
            levels.push(((seed >> 16) % 4) as i32);
        }
        for i in 0..levels.len() {
            let mut expected = vec![i];
            let mut lowest = levels[i];
            for j in (0..i).rev() {
                if levels[j] <= lowest {
                    lowest = levels[j];
                    expected.push(j);
                }
            }
            expected.reverse();
            assert_eq!(ancestor_path(&levels, i), expected);
        }
    }
}

#[test]
fn steps_descend_or_follow_a_sibling() {
    let levels = [0, 1, 1, 0, 1, 2, 2, 1];
    assert_eq!(kinds(&levels, 0), vec![(0, StepKind::Descend, true)]);
    assert_eq!(
        kinds(&levels, 2),
        vec![
            (0, StepKind::Descend, true),
            (1, StepKind::Descend, false),
            (2, StepKind::Sibling, false)
        ]
    );
    assert_eq!(
        kinds(&levels, 6),
        vec![
            (0, StepKind::Descend, true),
            (3, StepKind::Sibling, true),
            (4, StepKind::Descend, false),
            (5, StepKind::Descend, true),
            (6, StepKind::Sibling, true)
        ]
    );
    // a negative level lies below the level reached before the first entry
    assert_eq!(kinds(&[-2, -1, 3], 2), vec![
        (0, StepKind::Skip, true),
        (1, StepKind::Sibling, false),
        (2, StepKind::Descend, false)
    ]);
}

#[test]
fn path_and_steps_come_together() {
    let levels = vec![0, 1, 1, 0, 1, 2, 2, 1];
    for i in 0..levels.len() {
        let (path, steps) = steps_to(&levels, i);
        assert_eq!(path, ancestor_path(&levels, i));
        assert_eq!(steps.len(), path.len());
        assert_eq!(steps[0].kind, StepKind::Descend);
        assert!(steps.iter().all(|s| s.kind != StepKind::Skip));
        assert_eq!(steps[steps.len() - 1].index, i);
    }
}

#[test]
fn strips_are_cut_off_what_is_left() {
    // X=60 Y=40 Y=30 X=50 Y=95 on a sheet of 130 by 95
    let levels = vec![0, 1, 1, 0, 1];
    let values: Vec<i64> = vec![60, 40, 30, 50, 95];
    let whole = Strip { offset_x: 0, offset_y: 0, dim_x: 130, dim_y: 95, rest_x: -1, rest_y: -1 };
    let strip = |i: usize| {
        let (_, steps) = steps_to(&levels, i);
        let strips = walk_strips(&steps, &values, whole, &|a: i64, b: i64| a + b, &|a: i64, b: i64| a - b);
        assert_eq!(strips.len(), steps.len());
        let last = strips[strips.len() - 1];
        (last.offset_x, last.offset_y, last.dim_x, last.dim_y, last.rest_x, last.rest_y)
    };
    assert_eq!(strip(0), (0, 0, 60, 95, 70, -1));
    assert_eq!(strip(1), (0, 0, 60, 40, 70, 55));
    assert_eq!(strip(2), (0, 40, 60, 30, 70, 25));
    assert_eq!(strip(3), (60, 0, 50, 95, 20, -1));
    assert_eq!(strip(4), (60, 0, 50, 95, 20, 0));
    // the arithmetic is the caller's: here every sum is a product
    let (_, steps) = steps_to(&levels, 2);
    let strips = walk_strips(&steps, &values, whole, &|a: i64, b: i64| a * b, &|a: i64, _| a);
    assert_eq!(strips[2].offset_y, 0);
    assert_eq!(strips[2].rest_y, 95);
}
