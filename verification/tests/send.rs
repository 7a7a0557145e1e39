use treq_app::send::next_mark_line;

#[test]
fn marks_follow_the_line_numbers_of_each_chunk() {
    let mut total = 0;
    let mut marks = Vec::new();
    for chunk in [b"id: 1\ndata: a\n\n".as_slice(), b"id: 2\ndata: b\n\n", b"data: c\n\n"] {
        marks.push(next_mark_line(&mut total, chunk));
    }
    assert_eq!(marks, vec![0, 3, 6], "每块的首行号");
    assert_eq!(total, 8, "累计行数 = 各块换行之和（3 + 3 + 2）");
    assert_eq!(next_mark_line(&mut total, b""), 8);
    assert_eq!(total, 8);
}

#[test]
fn one_chunk_or_two_count_the_same() {
    let mut a = 0;
    next_mark_line(&mut a, b"x\ny\nz\n");
    let mut b = 0;
    next_mark_line(&mut b, b"x\ny");
    next_mark_line(&mut b, b"\nz\n");
    assert_eq!(a, b);
    assert_eq!(a, 3);
}
