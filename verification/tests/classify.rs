use downloads_sorter::category::{classify, Category};
use downloads_sorter::pass::SortedPath;
use downloads_sorter::sorting::Sorter;

#[test]
fn listed_extensions_have_their_category() {
    for ext in ["pdf", "txt", "docx", "doc", "pptx", "ppt", "tex", "xlsx", "xls"] {
        assert_eq!(classify(ext), Some(Category::Documents));
    }
    for ext in ["png", "jpg", "jpeg", "svg", "webp"] {
        assert_eq!(classify(ext), Some(Category::Images));
    }
    for ext in ["rar", "zip", "7z"] {
        assert_eq!(classify(ext), Some(Category::Archives));
    }
    for ext in ["html", "css", "csv", "py", "c", "h", "cpp", "rs"] {
        assert_eq!(classify(ext), Some(Category::Code));
    }
    for ext in ["exe", "jar", "msi", "iso"] {
        assert_eq!(classify(ext), Some(Category::Executables));
    }
}

#[test]
fn classification_ignores_case() {
    assert_eq!(classify("PDF"), Some(Category::Documents));
    assert_eq!(classify("Pdf"), Some(Category::Documents));
    assert_eq!(classify("JPeG"), Some(Category::Images));
    assert_eq!(classify("7Z"), Some(Category::Archives));
    assert_eq!(classify("HTML"), Some(Category::Code));
    assert_eq!(classify("Exe"), Some(Category::Executables));
}

#[test]
fn empty_extension_is_miscellaneous() {
    assert_eq!(classify(""), Some(Category::Miscellaneous));
}

#[test]
fn unlisted_extensions_have_no_category() {
    assert_eq!(classify("unknownext"), None);
    assert_eq!(classify("gz"), None);
    assert_eq!(classify("pd"), None);
    assert_eq!(classify("pdff"), None);
    assert_eq!(classify(" pdf"), None);
    assert_eq!(classify("p\u{212a}"), None);
    assert_eq!(classify("\u{e9}"), None);
    assert_eq!(classify("."), None);
}

#[test]
fn categories_name_their_directories() {
    assert_eq!(Category::Documents.directory(), "Documents");
    assert_eq!(Category::Images.directory(), "Images");
    assert_eq!(Category::Archives.directory(), "Archives");
    assert_eq!(Category::Code.directory(), "Code");
    assert_eq!(Category::Executables.directory(), "Executables");
    assert_eq!(Category::Miscellaneous.directory(), "Miscellaneous");
}

fn sorted(category: Category, file_name: &str) -> Option<SortedPath> {
    Some(SortedPath { category, file_name: String::from(file_name) })
}

#[test]
fn sorted_path_goes_by_the_last_extension() {
    assert_eq!(Sorter::get_sorted_path("a.pdf"), sorted(Category::Documents, "a.pdf"));
    assert_eq!(Sorter::get_sorted_path("photo.final.JPG"), sorted(Category::Images, "photo.final.JPG"));
    assert_eq!(Sorter::get_sorted_path("backup.tar.gz"), None);
    assert_eq!(Sorter::get_sorted_path("b.unknownext"), None);
    assert_eq!(Sorter::get_sorted_path("main.rs"), sorted(Category::Code, "main.rs"));
}

#[test]
fn sorted_path_without_extension_is_miscellaneous() {
    assert_eq!(Sorter::get_sorted_path("c"), sorted(Category::Miscellaneous, "c"));
    assert_eq!(Sorter::get_sorted_path("README"), sorted(Category::Miscellaneous, "README"));
    assert_eq!(Sorter::get_sorted_path(".profile"), sorted(Category::Miscellaneous, ".profile"));
    assert_eq!(Sorter::get_sorted_path("notes."), sorted(Category::Miscellaneous, "notes."));
    assert_eq!(Sorter::get_sorted_path(".."), sorted(Category::Miscellaneous, ".."));
}

#[test]
fn sorted_path_of_hidden_file_with_extension() {
    assert_eq!(Sorter::get_sorted_path(".hidden.zip"), sorted(Category::Archives, ".hidden.zip"));
    assert_eq!(Sorter::get_sorted_path("..pdf"), sorted(Category::Documents, "..pdf"));
    assert_eq!(Sorter::get_sorted_path(".pdf"), sorted(Category::Miscellaneous, ".pdf"));
}
