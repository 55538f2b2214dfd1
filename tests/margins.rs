use himawari::margins::{Margins, MarginsValueParser, MARGINS_USAGE, INVALID_VALUE};

fn m(top: u32, right: u32, bottom: u32, left: u32) -> Margins {
    Margins { top, right, bottom, left }
}

#[test]
fn one_value_sets_all_sides() {
    assert_eq!(Margins::try_parse("5"), Some(m(5, 5, 5, 5)));
}

#[test]
fn two_values_set_vertical_and_horizontal() {
    assert_eq!(Margins::try_parse("5,10"), Some(m(5, 10, 5, 10)));
}

#[test]
fn three_values_take_left_from_top() {
    assert_eq!(Margins::try_parse("5,10,15"), Some(m(5, 10, 15, 5)));
}

#[test]
fn four_values_set_each_side() {
    assert_eq!(Margins::try_parse("5,10,15,20"), Some(m(5, 10, 15, 20)));
}

#[test]
fn five_values_are_rejected() {
    assert_eq!(Margins::try_parse("5,10,15,20,25"), None);
}

#[test]
fn non_numeric_fields_are_rejected() {
    assert_eq!(Margins::try_parse("a"), None);
    assert_eq!(Margins::try_parse("5,x"), None);
    assert_eq!(Margins::try_parse("5,10,15,2O"), None);
    assert_eq!(Margins::try_parse("-5"), None);
    assert_eq!(Margins::try_parse("5.0"), None);
}

#[test]
fn empty_fields_are_rejected() {
    assert_eq!(Margins::try_parse(""), None);
    assert_eq!(Margins::try_parse("5,"), None);
    assert_eq!(Margins::try_parse(",5"), None);
    assert_eq!(Margins::try_parse("+"), None);
}

#[test]
fn white_space_around_fields_is_ignored() {
    assert_eq!(Margins::try_parse(" 5 ,\t10\n"), Some(m(5, 10, 5, 10)));
    assert_eq!(Margins::try_parse("\u{3000}7\u{a0}"), Some(m(7, 7, 7, 7)));
}

#[test]
fn leading_plus_is_accepted() {
    assert_eq!(Margins::try_parse("+5"), Some(m(5, 5, 5, 5)));
}

#[test]
fn largest_u32_is_accepted_and_one_more_rejected() {
    assert_eq!(
        Margins::try_parse("4294967295"),
        Some(m(4294967295, 4294967295, 4294967295, 4294967295))
    );
    assert_eq!(Margins::try_parse("4294967296"), None);
    assert_eq!(Margins::try_parse("1,99999999999"), None);
}

#[test]
fn empty_and_default_margins_are_zero() {
    assert_eq!(Margins::empty(), m(0, 0, 0, 0));
    assert_eq!(Margins::default(), m(0, 0, 0, 0));
}

#[test]
fn value_parser_accepts_margins() {
    let r = MarginsValueParser.parse_ref("1,2,3,4");
    assert_eq!(r.ok(), Some(m(1, 2, 3, 4)));
}

#[test]
fn value_parser_reports_usage() {
    match MarginsValueParser.parse_ref("1,2,3,4,5") {
        Ok(_) => panic!("five fields were accepted"),
        Err(e) => {
            assert_eq!(e.kind, INVALID_VALUE);
            assert_eq!(e.message, MARGINS_USAGE);
            assert_eq!(e.message, "Use format TOP[,RIGHT][,BOTTOM][,LEFT]");
            assert!(e.cause.is_none());
        }
    }
}

#[test]
fn margins_are_shown_side_by_side() {
    assert_eq!(m(5, 10, 15, 20).to_string(), "5, 10, 15, 20");
    assert_eq!(Margins::empty().to_string(), "0, 0, 0, 0");
}
