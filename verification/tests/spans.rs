use frontend::span::{FileId, Span};

fn sp(start: usize, len: usize) -> Span {
    Span { source: FileId(0), start, len }
}

#[test]
fn new_span_holds_its_parts() {
    let span = Span::new(FileId(3), 7, 2);
    assert_eq!(span, Span { source: FileId(3), start: 7, len: 2 });
    assert_eq!(span.end_offset(), 9);
}

#[test]
fn merge_of_disjoint_spans_bounds_both() {
    assert_eq!(sp(2, 3).to(sp(10, 4)), sp(2, 12));
    assert_eq!(sp(10, 4).to(sp(2, 3)), sp(2, 12));
}

#[test]
fn merge_of_overlapping_spans() {
    assert_eq!(sp(2, 5).to(sp(4, 10)), sp(2, 12));
    assert_eq!(sp(4, 10).to(sp(2, 5)), sp(2, 12));
}

#[test]
fn merge_with_a_span_inside_changes_nothing() {
    assert_eq!(sp(2, 10).to(sp(4, 3)), sp(2, 10));
    assert_eq!(sp(4, 3).to(sp(2, 10)), sp(2, 10));
    assert_eq!(sp(5, 0).to(sp(5, 0)), sp(5, 0));
    assert_eq!(sp(2, 10).to(sp(2, 10)), sp(2, 10));
}

#[test]
fn merge_with_an_empty_span_reaches_it() {
    assert_eq!(sp(4, 2).to(sp(9, 0)), sp(4, 5));
    assert_eq!(sp(9, 0).to(sp(4, 2)), sp(4, 5));
}

#[test]
fn merge_keeps_the_source_of_the_first() {
    let a = Span { source: FileId(1), start: 0, len: 1 };
    let b = Span { source: FileId(2), start: 5, len: 1 };
    assert_eq!(a.to(b), Span { source: FileId(1), start: 0, len: 6 });
    assert_eq!(b.to(a), Span { source: FileId(2), start: 0, len: 6 });
}

#[test]
fn merge_at_the_end_of_the_address_space() {
    let a = sp(usize::MAX - 1, 1);
    let b = sp(0, 0);
    assert_eq!(a.to(b), sp(0, usize::MAX));
}
