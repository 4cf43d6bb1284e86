use pdf_inspector_api::page_spec::parse_page_spec;

#[test]
fn selector_with_singles_and_range() {
    assert_eq!(parse_page_spec("1,3,5-10"), vec![1, 3, 5, 6, 7, 8, 9, 10]);
}

#[test]
fn selector_is_sorted_and_deduped() {
    assert_eq!(parse_page_spec("3,1,2,3,1-2"), vec![1, 2, 3]);
    assert_eq!(parse_page_spec("1-3,2-4"), vec![1, 2, 3, 4]);
}

#[test]
fn selector_trims_whitespace() {
    assert_eq!(parse_page_spec(" 2 , 1 "), vec![1, 2]);
    assert_eq!(parse_page_spec("1 - 3"), vec![1, 2, 3]);
    assert_eq!(parse_page_spec("\t4\n"), vec![4]);
    assert_eq!(parse_page_spec("\u{3000}8\u{a0}"), vec![8]);
}

#[test]
fn selector_skips_bad_parts() {
    assert_eq!(parse_page_spec("a,2"), vec![2]);
    assert_eq!(parse_page_spec("5-3"), Vec::<u32>::new());
    assert_eq!(parse_page_spec("-5"), Vec::<u32>::new());
    assert_eq!(parse_page_spec("1-2-3"), Vec::<u32>::new());
    assert_eq!(parse_page_spec("1-"), Vec::<u32>::new());
    assert_eq!(parse_page_spec("x-2,4"), vec![4]);
    assert_eq!(parse_page_spec("1.5"), Vec::<u32>::new());
    assert_eq!(parse_page_spec("١"), Vec::<u32>::new());
}

#[test]
fn selector_empty_parts() {
    assert_eq!(parse_page_spec(""), Vec::<u32>::new());
    assert_eq!(parse_page_spec(",,,"), Vec::<u32>::new());
    assert_eq!(parse_page_spec(" , 6 ,"), vec![6]);
}

#[test]
fn selector_number_forms() {
    assert_eq!(parse_page_spec("+7"), vec![7]);
    assert_eq!(parse_page_spec("++7"), Vec::<u32>::new());
    assert_eq!(parse_page_spec("+"), Vec::<u32>::new());
    assert_eq!(parse_page_spec("007"), vec![7]);
    assert_eq!(parse_page_spec("0"), vec![0]);
    assert_eq!(parse_page_spec("+2-+3"), vec![2, 3]);
}

#[test]
fn selector_u32_limits() {
    assert_eq!(parse_page_spec("4294967295"), vec![4294967295]);
    assert_eq!(parse_page_spec("4294967296"), Vec::<u32>::new());
    assert_eq!(parse_page_spec("4294967294-4294967295"), vec![4294967294, 4294967295]);
    assert_eq!(parse_page_spec("99999999999999999999999,1"), vec![1]);
}

#[test]
fn selector_part_order_does_not_matter() {
    assert_eq!(parse_page_spec("1,5-6"), parse_page_spec("5-6,1"));
    assert_eq!(parse_page_spec("2-4,9"), parse_page_spec("9,2-4"));
}

#[test]
fn selector_repeated_names_same_pages() {
    assert_eq!(parse_page_spec("2-4,9,2-4,9"), parse_page_spec("2-4,9"));
}

#[test]
fn selector_union_of_parts() {
    let mut both = parse_page_spec("1-3");
    both.extend(parse_page_spec("7,2"));
    both.sort();
    both.dedup();
    assert_eq!(parse_page_spec("1-3,7,2"), both);
}
