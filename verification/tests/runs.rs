use treq_app::runs::{apply_selection, editor_runs, line_runs, Palette, Run};

const SEL: u32 = 99;

fn palette() -> Palette {
    Palette { fg: 1, string: 2, key: 3, num: 4, konst: 5 }
}

fn run(len: usize) -> Run {
    Run { len, style: 1, background: None, decorated: false }
}

fn runs_of(text: &str) -> Vec<Run> {
    vec![run(text.len())]
}

fn painted(runs: &[Run], text: &str) -> Vec<(String, bool)> {
    let mut out = Vec::new();
    let mut pos = 0;
    for r in runs {
        out.push((text[pos..pos + r.len].to_string(), r.background.is_some()));
        pos += r.len;
    }
    out
}

#[test]
fn splits_runs_and_paints_only_the_selection() {
    let text = "  \"a\": 42,";
    let mut runs = runs_of(text);
    apply_selection(&mut runs, Some((2, 10)), SEL);
    assert_eq!(
        painted(&runs, text),
        vec![("  ".to_string(), false), ("\"a\": 42,".to_string(), true)]
    );
    assert_eq!(runs.iter().map(|r| r.len).sum::<usize>(), text.len());
}

#[test]
fn no_selection_and_empty_selection_leave_runs_alone() {
    let text = "abc";
    let mut runs = runs_of(text);
    apply_selection(&mut runs, None, SEL);
    assert_eq!(runs.len(), 1);
    assert!(runs[0].background.is_none());
    let mut runs = runs_of(text);
    apply_selection(&mut runs, Some((1, 1)), SEL);
    assert_eq!(runs.len(), 1, "空选中不动 runs");
}

#[test]
fn selection_across_several_runs_keeps_order() {
    let text = "\"key\": 42";
    let mut runs = vec![run(5), run(4)];
    apply_selection(&mut runs, Some((2, 8)), SEL);
    assert_eq!(
        painted(&runs, text),
        vec![
            ("\"k".to_string(), false),
            ("ey\": 4".to_string(), true),
            ("2".to_string(), false),
        ]
    );
}

#[test]
fn neighbours_that_draw_alike_are_merged_but_decorated_ones_are_not() {
    let mut runs = vec![run(2), run(3), Run { len: 1, style: 1, background: None, decorated: true }];
    apply_selection(&mut runs, Some((0, 6)), SEL);
    assert_eq!(
        runs,
        vec![
            Run { len: 5, style: 1, background: Some(SEL), decorated: false },
            Run { len: 1, style: 1, background: Some(SEL), decorated: true },
        ]
    );
}

#[test]
fn selection_past_the_end_is_clipped() {
    let mut runs = vec![run(3)];
    apply_selection(&mut runs, Some((1, 50)), SEL);
    assert_eq!(
        runs,
        vec![run(1), Run { len: 2, style: 1, background: Some(SEL), decorated: false }]
    );
}

#[test]
fn line_runs_cover_the_whole_line() {
    for line in [
        r#"  "method": "POST","#,
        r#"  { "#,
        "  }",
        r#"    "body": "{\"x\":  1}","#,
        "plain text 中文",
        "",
    ] {
        let n: usize = line_runs(line, palette()).iter().map(|r| r.len).sum();
        assert_eq!(n, line.len(), "runs 长度和 != 行长度: {line:?}");
    }
}

#[test]
fn runs_cover_the_whole_line() {
    let base = Run { len: 0, style: 7, background: None, decorated: false };
    for line in [
        "  \"name\": \"treq\",",
        "{\"a\":1}",
        "true",
        "   ",
        "",
        "\"k\": [1, 2.5e3, null]",
        "中文键\": \"值\"",
    ] {
        let runs = editor_runs(line, base, palette());
        let sum: usize = runs.iter().map(|r| r.len).sum();
        assert_eq!(sum, line.len(), "runs 必须覆盖整行: {line:?} {runs:?}");
        assert!(!runs.is_empty());
    }
}

#[test]
fn editor_runs_color_keys_and_strings_differently() {
    let base = Run { len: 0, style: 7, background: None, decorated: false };
    let runs = editor_runs("\"k\": \"v\"", base, palette());
    let key = &runs[0];
    let value = runs.iter().find(|r| r.len == 3).unwrap();
    assert_eq!(key.style, palette().key);
    assert_eq!(value.style, palette().string);
}

#[test]
fn editor_runs_cover_a_line_cut_inside_a_string() {
    let base = Run { len: 0, style: 7, background: None, decorated: false };
    let line = "  \"path\": \"C:\\";
    let runs = editor_runs(line, base, palette());
    let sum: usize = runs.iter().map(|r| r.len).sum();
    assert_eq!(sum, line.len());
    assert_eq!(runs.last().unwrap().len, 4);
}

#[test]
fn a_selection_leaves_no_two_alike_neighbors() {
    let runs = vec![
        Run { len: 3, style: 1, background: None, decorated: false },
        Run { len: 2, style: 1, background: None, decorated: false },
        Run { len: 4, style: 2, background: None, decorated: false },
    ];
    let mut sel = runs.clone();
    apply_selection(&mut sel, Some((1, 6)), 9);
    assert_eq!(sel.iter().map(|r| r.len).sum::<usize>(), 9);
    for w in sel.windows(2) {
        assert!(!(w[0].style == w[1].style && w[0].background == w[1].background));
    }
    let mut same = runs.clone();
    apply_selection(&mut same, Some((4, 4)), 9);
    assert_eq!(same, runs);
    apply_selection(&mut same, None, 9);
    assert_eq!(same, runs);
}
