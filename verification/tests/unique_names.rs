use downloads_sorter::filename::{candidate_name, extension_cut};
use downloads_sorter::sorting::Sorter;

fn listing(names: &[&str]) -> Vec<String> {
    names.iter().map(|n| String::from(*n)).collect()
}

#[test]
fn extension_is_cut_at_the_last_dot() {
    assert_eq!(extension_cut("a.pdf"), Some(1));
    assert_eq!(extension_cut("archive.tar.gz"), Some(11));
    assert_eq!(extension_cut("notes."), Some(5));
    assert_eq!(extension_cut("..."), Some(2));
    assert_eq!(extension_cut("\u{e9}t\u{e9}.txt"), Some(3));
}

#[test]
fn names_without_extension_are_not_cut() {
    assert_eq!(extension_cut("README"), None);
    assert_eq!(extension_cut(".profile"), None);
    assert_eq!(extension_cut(""), None);
    assert_eq!(extension_cut("."), None);
    assert_eq!(extension_cut(".."), None);
}

#[test]
fn first_candidate_is_the_name_itself() {
    assert_eq!(candidate_name("report.pdf", 0), "report.pdf");
    assert_eq!(candidate_name("notes.", 0), "notes.");
    assert_eq!(candidate_name("", 0), "");
}

#[test]
fn copy_names_in_order() {
    assert_eq!(candidate_name("report.pdf", 1), "report - Copy.pdf");
    assert_eq!(candidate_name("report.pdf", 2), "report - Copy (2).pdf");
    assert_eq!(candidate_name("report.pdf", 3), "report - Copy (3).pdf");
    assert_eq!(candidate_name("report.pdf", 9), "report - Copy (9).pdf");
    assert_eq!(candidate_name("report.pdf", 10), "report - Copy (10).pdf");
    assert_eq!(candidate_name("report.pdf", 11), "report - Copy (11).pdf");
    assert_eq!(candidate_name("report.pdf", 100), "report - Copy (100).pdf");
    assert_eq!(candidate_name("report.pdf", 1234567890), "report - Copy (1234567890).pdf");
}

#[test]
fn copy_names_keep_inner_dots_in_the_stem() {
    assert_eq!(candidate_name("archive.tar.gz", 1), "archive.tar - Copy.gz");
    assert_eq!(candidate_name("archive.tar.gz", 2), "archive.tar - Copy (2).gz");
}

#[test]
fn copy_names_without_extension_have_no_trailing_dot() {
    assert_eq!(candidate_name("name", 1), "name - Copy");
    assert_eq!(candidate_name("name", 2), "name - Copy (2)");
    assert_eq!(candidate_name(".profile", 1), ".profile - Copy");
    assert_eq!(candidate_name("notes.", 1), "notes - Copy");
    assert_eq!(candidate_name("notes.", 4), "notes - Copy (4)");
    assert_eq!(candidate_name("..", 1), ".. - Copy");
}

#[test]
fn free_name_is_kept() {
    assert_eq!(Sorter::make_filename_unique("a.pdf", &listing(&[])), "a.pdf");
    assert_eq!(Sorter::make_filename_unique("a.pdf", &listing(&["b.pdf", "a.txt", "A.pdf"])), "a.pdf");
    assert_eq!(Sorter::make_filename_unique("a.pdf", &listing(&["a - Copy.pdf"])), "a.pdf");
}

#[test]
fn names_that_differ_in_case_are_different_names() {
    let occupied = listing(&["REPORT.pdf", "Report.PDF"]);
    assert_eq!(Sorter::make_filename_unique("report.PDF", &occupied), "report.PDF");
    assert_eq!(Sorter::make_filename_unique("REPORT.pdf", &occupied), "REPORT - Copy.pdf");
}

#[test]
fn collision_sequence() {
    let mut occupied = listing(&["name.ext"]);
    assert_eq!(Sorter::make_filename_unique("name.ext", &occupied), "name - Copy.ext");
    occupied.push(String::from("name - Copy.ext"));
    assert_eq!(Sorter::make_filename_unique("name.ext", &occupied), "name - Copy (2).ext");
    occupied.push(String::from("name - Copy (2).ext"));
    assert_eq!(Sorter::make_filename_unique("name.ext", &occupied), "name - Copy (3).ext");
    occupied.push(String::from("name - Copy (3).ext"));
    assert_eq!(Sorter::make_filename_unique("name.ext", &occupied), "name - Copy (4).ext");
}

#[test]
fn collision_sequence_fills_the_first_gap() {
    let occupied = listing(&["name - Copy (3).ext", "name.ext", "name - Copy.ext", "name - Copy (4).ext"]);
    assert_eq!(Sorter::make_filename_unique("name.ext", &occupied), "name - Copy (2).ext");
}

#[test]
fn collision_sequence_past_nine() {
    let mut occupied = listing(&["f.txt", "f - Copy.txt"]);
    for i in 2..=11 {
        occupied.push(format!("f - Copy ({}).txt", i));
    }
    assert_eq!(Sorter::make_filename_unique("f.txt", &occupied), "f - Copy (12).txt");
}

#[test]
fn empty_extension_collision() {
    assert_eq!(Sorter::make_filename_unique("name", &listing(&["name"])), "name - Copy");
    assert_eq!(
        Sorter::make_filename_unique("name", &listing(&["name", "name - Copy"])),
        "name - Copy (2)"
    );
    assert_eq!(Sorter::make_filename_unique("name.", &listing(&["name."])), "name - Copy");
}

#[test]
fn resolve_is_repeatable_and_ignores_listing_order() {
    let one = listing(&["a.zip", "a - Copy.zip", "other"]);
    let two = listing(&["other", "a - Copy.zip", "a.zip", "a.zip"]);
    let first = Sorter::make_filename_unique("a.zip", &one);
    assert_eq!(first, "a - Copy (2).zip");
    assert_eq!(Sorter::make_filename_unique("a.zip", &one), first);
    assert_eq!(Sorter::make_filename_unique("a.zip", &two), first);
}

#[test]
fn unique_name_is_never_occupied() {
    let occupied = listing(&["x", "x - Copy", "x - Copy (2)", "x - Copy (3)"]);
    let name = Sorter::make_filename_unique("x", &occupied);
    assert_eq!(name, "x - Copy (4)");
    assert!(!occupied.contains(&name));
}

#[test]
fn unique_name_with_non_ascii_characters() {
    let occupied = listing(&["r\u{e9}sum\u{e9}.pdf"]);
    assert_eq!(
        Sorter::make_filename_unique("r\u{e9}sum\u{e9}.pdf", &occupied),
        "r\u{e9}sum\u{e9} - Copy.pdf"
    );
}
