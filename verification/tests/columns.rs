use stringpy::apply::{apply, check_rows};
use stringpy::boundary::{expect_kind, host_offsets, ElementKind};
use stringpy::column::Column;
use stringpy::error::StringpyErr;
use stringpy::ragged::{assemble, ListColumn};
use stringpy::text::to_decimal;

fn strings(rows: &[Option<&str>]) -> Column<String> {
    Column::new(rows.iter().map(|r| r.map(|s| s.to_string())).collect())
}

#[test]
fn column_reports_length_and_rows() {
    let col = strings(&[Some("a"), None, Some("")]);
    assert_eq!(col.len(), 3);
    assert_eq!(col.get(0), Some(&"a".to_string()));
    assert_eq!(col.get(1), None);
    assert_eq!(col.get(2), Some(&String::new()));
    assert_eq!(col.get(3), None);
    assert!(!col.is_null(0));
    assert!(col.is_null(1));
    assert!(!col.is_null(2));
    assert!(col.is_null(7));
}

#[test]
fn column_push_and_into_rows_keep_order() {
    let mut col: Column<i32> = Column::empty();
    assert_eq!(col.len(), 0);
    col.push(Some(4));
    col.push(None);
    col.push(Some(-1));
    assert_eq!(col.into_rows(), vec![Some(4), None, Some(-1)]);
}

#[test]
fn apply_hands_each_row_its_position_and_slot() {
    let col = strings(&[Some("a"), None, Some("ccc")]);
    let out = apply(&col, |i: usize, x: &Option<String>| x.as_ref().map(|s| s.len() + 10 * i));
    assert_eq!(out.rows, vec![Some(1), None, Some(23)]);
}

#[test]
fn apply_on_an_empty_column_gives_an_empty_column() {
    let col = strings(&[]);
    let out = apply(&col, |_i: usize, x: &Option<String>| x.clone());
    assert_eq!(out.len(), 0);
}

#[test]
fn per_row_parameter_must_have_one_value_or_one_per_row() {
    assert!(check_rows(1, 5).is_ok());
    assert!(check_rows(5, 5).is_ok());
    assert!(check_rows(1, 0).is_ok());
    assert!(check_rows(0, 0).is_ok());
    assert!(matches!(check_rows(2, 5), Err(StringpyErr::InvalidParameter(_))));
    assert!(matches!(check_rows(0, 5), Err(StringpyErr::InvalidParameter(_))));
    assert!(matches!(check_rows(3, 0), Err(StringpyErr::InvalidParameter(_))));
}

#[test]
fn errors_give_their_message() {
    assert_eq!(StringpyErr::PatternError("bad".to_string()).message(), "bad");
    assert_eq!(StringpyErr::TypeMismatch("kind".to_string()).message(), "kind");
    assert_eq!(StringpyErr::InvalidParameter("side".to_string()).message(), "side");
    assert_eq!(StringpyErr::HostBoundaryError("host".to_string()).message(), "host");
    let group = StringpyErr::InvalidGroupIndex { group: 12, groups: 3, pattern: "(a)(b)".to_string() };
    assert_eq!(group.message(), "Group 12 does not exist in `(a)(b)`");
    match check_rows(2, 5) {
        Err(e) => assert_eq!(
            e.message(),
            "a per-row parameter must have one value, or one for each row"
        ),
        Ok(()) => panic!("two values for five rows were accepted"),
    }
    match expect_kind(ElementKind::Int32, ElementKind::Utf8) {
        Err(e) => assert_eq!(e.message(), "the array does not hold the expected kind of element"),
        Ok(()) => panic!("another kind was accepted"),
    }
    match host_offsets(&vec![0, 2147483648]) {
        Err(e) => assert_eq!(e.message(), "the list column is too long for 32-bit offsets"),
        Ok(_) => panic!("an offset past 32 bits was accepted"),
    }
}

#[test]
fn numbers_are_written_in_decimal() {
    assert_eq!(to_decimal(0), "0");
    assert_eq!(to_decimal(7), "7");
    assert_eq!(to_decimal(10), "10");
    assert_eq!(to_decimal(1234567890), "1234567890");
    assert_eq!(to_decimal(usize::MAX), usize::MAX.to_string());
}

#[test]
fn new_value_err_is_an_invalid_parameter() {
    match StringpyErr::new_value_err("bad side") {
        StringpyErr::InvalidParameter(message) => assert_eq!(message, "bad side"),
        other => panic!("unexpected error {:?}", other),
    }
    assert!(matches!(
        StringpyErr::new_value_err(String::from("x")),
        StringpyErr::InvalidParameter(_)
    ));
}

#[test]
fn assemble_gives_null_and_empty_rows_one_null_slot() {
    let results = vec![
        Some(vec![Some(1), Some(2)]),
        None,
        Some(vec![]),
        Some(vec![None, Some(3)]),
    ];
    let out = assemble(results);
    assert_eq!(out.offsets, vec![0, 2, 3, 4, 6]);
    assert_eq!(out.values.rows, vec![Some(1), Some(2), None, None, None, Some(3)]);
    assert_eq!(out.len(), 4);
    assert_eq!(out.row_range(0), Some((0, 2)));
    assert_eq!(out.row_range(1), Some((2, 3)));
    assert_eq!(out.row_range(2), Some((3, 4)));
    assert_eq!(out.row_range(3), Some((4, 6)));
    assert_eq!(out.row_range(4), None);
}

#[test]
fn assemble_of_no_rows_has_the_single_offset_zero() {
    let out = assemble(Vec::<Option<Vec<Option<String>>>>::new());
    assert_eq!(out.offsets, vec![0]);
    assert_eq!(out.values.len(), 0);
    assert_eq!(out.len(), 0);
}

#[test]
fn assembled_offsets_never_step_back_and_end_at_the_values() {
    let results = vec![None, Some(vec![Some("a".to_string())]), Some(vec![]), None];
    let out = assemble(results);
    assert_eq!(out.offsets[0], 0);
    assert_eq!(*out.offsets.last().unwrap(), out.values.len());
    for i in 0..out.len() {
        assert!(out.offsets[i + 1] - out.offsets[i] >= 1);
    }
}

#[test]
fn list_column_is_made_only_from_offsets_that_mark_rows() {
    let values = || Column::new(vec![Some(1), None, Some(3)]);
    assert!(ListColumn::from_parts(vec![0, 1, 3], values()).is_some());
    assert!(ListColumn::from_parts(vec![0, 0, 3, 3], values()).is_some());
    assert!(ListColumn::from_parts(vec![], values()).is_none());
    assert!(ListColumn::from_parts(vec![1, 3], values()).is_none());
    assert!(ListColumn::from_parts(vec![0, 2], values()).is_none());
    assert!(ListColumn::from_parts(vec![0, 2, 1, 3], values()).is_none());
    assert!(ListColumn::from_parts(vec![0, 4, 3], values()).is_none());
    let empty: Column<i32> = Column::empty();
    assert!(ListColumn::from_parts(vec![0], empty).is_some());
}

#[test]
fn kind_of_element_is_checked_at_the_boundary() {
    assert!(expect_kind(ElementKind::Utf8, ElementKind::Utf8).is_ok());
    assert!(matches!(
        expect_kind(ElementKind::Int32, ElementKind::Utf8),
        Err(StringpyErr::TypeMismatch(_))
    ));
    assert!(matches!(
        expect_kind(ElementKind::Other, ElementKind::Boolean),
        Err(StringpyErr::TypeMismatch(_))
    ));
}

#[test]
fn offsets_go_to_the_host_in_32_bits() {
    assert_eq!(host_offsets(&vec![0, 2, 5]).unwrap(), vec![0, 2, 5]);
    assert_eq!(host_offsets(&vec![0, 2147483647]).unwrap(), vec![0, 2147483647]);
    assert!(matches!(
        host_offsets(&vec![0, 2147483648]),
        Err(StringpyErr::HostBoundaryError(_))
    ));
}
