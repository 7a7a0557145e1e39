use std::collections::HashSet;
use treq_app::fold::{fold_all, group_ends, has_foldable, toggle_fold, visible_indices, visible_rows};

fn lines(s: &str) -> Vec<String> {
    s.lines().map(|l| l.to_string()).collect()
}

const NESTED: &str = r#"{
  "a": {
    "b": [
      1,
      2
    ],
    "c": "}{"
  },
  "d": {}
}"#;

#[test]
fn pairs_open_and_close_lines() {
    let l = lines(NESTED);
    let ends = group_ends(&l);
    assert_eq!(ends[0], Some(9));
    assert_eq!(ends[1], Some(7));
    assert_eq!(ends[2], Some(5));
    assert_eq!(ends[3], None);
    assert_eq!(ends[6], None);
    assert_eq!(ends[8], None);
}

#[test]
fn folds_hide_the_matched_range() {
    let l = lines(NESTED);
    let ends = group_ends(&l);
    let folded: HashSet<usize> = [2].into_iter().collect();
    assert_eq!(visible_indices(&ends, &folded), vec![0, 1, 2, 6, 7, 8, 9]);
    let all: HashSet<usize> = [0].into_iter().collect();
    assert_eq!(visible_indices(&ends, &all), vec![0]);
}

#[test]
fn fold_all_only_folds_the_outermost_level() {
    let l = lines(NESTED);
    let ends = group_ends(&l);
    let set = fold_all(&ends);
    assert_eq!(set, [0].into_iter().collect::<HashSet<usize>>());
    assert_eq!(visible_indices(&ends, &set).len(), 1);
    assert_eq!(visible_indices(&ends, &HashSet::new()).len(), l.len());
    assert!(has_foldable(&ends));
}

#[test]
fn arrays_of_inline_objects_dont_confuse_the_pairs() {
    let l = lines("[\n  {\"a\": 1},\n  {\"b\": 2}\n]");
    let ends = group_ends(&l);
    assert_eq!(ends[0], Some(3));
    assert_eq!(ends[1], None);
    assert_eq!(ends[2], None);
    assert_eq!(visible_indices(&ends, &[0].into_iter().collect()), vec![0]);
}

#[test]
fn empty_structures_and_plain_text_have_nothing_to_fold() {
    let l = lines("{\n}");
    assert_eq!(group_ends(&l)[0], Some(1));
    assert!(has_foldable(&group_ends(&l)));
    let plain = lines("hello\nworld");
    assert!(!has_foldable(&group_ends(&plain)));
    assert_eq!(
        visible_indices(&group_ends(&plain), &HashSet::new()),
        vec![0, 1]
    );
}

#[test]
fn unmatched_brackets_do_not_panic() {
    let l = lines("{\n  \"a\": [\n");
    let ends = group_ends(&l);
    assert_eq!(ends[0], None);
    assert_eq!(ends[1], None);
    assert!(!has_foldable(&ends));
}

#[test]
fn stale_fold_indices_are_ignored() {
    let l = lines("{\n  \"a\": 1\n}");
    let ends = group_ends(&l);
    let folded: HashSet<usize> = [99, 1].into_iter().collect();
    assert_eq!(visible_indices(&ends, &folded), vec![0, 1, 2]);
}

#[test]
fn fold_all_equals_folding_every_line() {
    let l = lines(NESTED);
    let ends = group_ends(&l);
    let every: HashSet<usize> = (0..l.len()).collect();
    assert_eq!(
        visible_indices(&ends, &fold_all(&ends)),
        visible_indices(&ends, &every)
    );
}

#[test]
fn ends_lie_after_their_lines() {
    let l = lines(NESTED);
    let ends = group_ends(&l);
    for (i, e) in ends.iter().enumerate() {
        if let Some(e) = e {
            assert!(*e > i && *e < l.len());
        }
    }
    assert!(fold_all(&group_ends(&lines("a\nb"))).is_empty());
}

#[test]
fn brackets_in_strings_on_other_lines_do_not_pair() {
    let l = lines("\"[\"\n\"]\"");
    assert_eq!(group_ends(&l), vec![None, None]);
}

#[test]
fn clicking_a_group_line_folds_and_unfolds_it() {
    let ends = vec![Some(3), None, Some(1), None];
    let mut folded: HashSet<usize> = HashSet::new();
    toggle_fold(&ends, &mut folded, 0);
    assert!(folded.contains(&0));
    toggle_fold(&ends, &mut folded, 1);
    toggle_fold(&ends, &mut folded, 2);
    toggle_fold(&ends, &mut folded, 9);
    assert_eq!(folded.len(), 1);
    toggle_fold(&ends, &mut folded, 0);
    assert!(folded.is_empty());
}

#[test]
fn rows_follow_folds_only_with_an_end_per_line() {
    let ends = vec![Some(2), None, None, None];
    let mut folded: HashSet<usize> = HashSet::new();
    folded.insert(0);
    assert_eq!(visible_rows(&ends, &folded, 4), vec![0, 3]);
    assert_eq!(visible_rows(&[], &folded, 3), vec![0, 1, 2]);
    assert_eq!(visible_rows(&ends, &HashSet::new(), 4), vec![0, 1, 2, 3]);
}

#[test]
fn a_bracket_inside_a_quoted_string_on_a_bracket_line_does_not_count() {
    let l: Vec<String> = vec!["[".into(), r#"  ["{"],"#.into(), "  1".into(), "]".into()];
    assert_eq!(group_ends(&l), vec![Some(3), None, None, None]);
}

#[test]
fn a_line_cut_inside_a_string_after_a_backslash_is_handled() {
    let l: Vec<String> = vec!["{".into(), r#"  "p": "C:\"#.into(), "}".into()];
    assert_eq!(group_ends(&l), vec![Some(2), None, None]);
}

#[test]
fn inner_groups_close_inside_their_outer_group() {
    let l = lines("{\n  \"a\": [\n    {\n    }\n  ],\n  \"b\": {\n  }\n}");
    let ends = group_ends(&l);
    assert_eq!(ends, vec![Some(7), Some(4), Some(3), None, None, Some(6), None, None]);
    for i in 0..ends.len() {
        if let Some(k) = ends[i] {
            for j in i + 1..k {
                if let Some(f) = ends[j] {
                    assert!(f <= k);
                }
            }
        }
    }
}

#[test]
fn a_line_is_hidden_exactly_inside_a_visible_folded_group() {
    let l = lines(NESTED);
    let ends = group_ends(&l);
    let folded: HashSet<usize> = [1, 2].into_iter().collect();
    let v = visible_indices(&ends, &folded);
    assert!(v.windows(2).all(|w| w[0] < w[1]));
    assert_eq!(v[0], 0);
    for k in 0..ends.len() {
        let hidden = v.iter().any(|&i| folded.contains(&i) && matches!(ends[i], Some(e) if i < k && k <= e));
        assert_eq!(!v.contains(&k), hidden, "line {k}");
    }
}

#[test]
fn fold_all_folds_exactly_the_visible_groups() {
    let l = lines("[\n  {\n    \"a\": [\n      1\n    ]\n  },\n  {\n  }\n]\n{\n}");
    let ends = group_ends(&l);
    let set = fold_all(&ends);
    let v = visible_indices(&ends, &set);
    let want: HashSet<usize> =
        v.iter().copied().filter(|&i| matches!(ends[i], Some(e) if e > i)).collect();
    assert_eq!(set, want);
    assert_eq!(set, [0, 9].into_iter().collect::<HashSet<usize>>());
}
