//! The fixed rule that assigns a category to a file extension.

use crate::text::{lower, spells, to_lower_chars};
use vstd::prelude::*;

verus! {

/// The directory a file is filed under.
#[derive(Clone, Copy, Debug, PartialEq, Eq, Structural)]
pub enum Category {
    Documents,
    Images,
    Archives,
    Code,
    Executables,
    Miscellaneous,
}

pub open spec fn is_document(e: Seq<char>) -> bool {
    e == "pdf"@ || e == "txt"@ || e == "docx"@ || e == "doc"@ || e == "pptx"@ || e == "ppt"@ || e
        == "tex"@ || e == "xlsx"@ || e == "xls"@
}

pub open spec fn is_image(e: Seq<char>) -> bool {
    e == "png"@ || e == "jpg"@ || e == "jpeg"@ || e == "svg"@ || e == "webp"@
}

pub open spec fn is_archive(e: Seq<char>) -> bool {
    e == "rar"@ || e == "zip"@ || e == "7z"@
}

pub open spec fn is_code(e: Seq<char>) -> bool {
    e == "html"@ || e == "css"@ || e == "csv"@ || e == "py"@ || e == "c"@ || e == "h"@ || e
        == "cpp"@ || e == "rs"@
}

pub open spec fn is_executable(e: Seq<char>) -> bool {
    e == "exe"@ || e == "jar"@ || e == "msi"@ || e == "iso"@
}

/// The table itself, on an extension that is already in lower case.
/// Only the empty extension is miscellaneous; an extension that the
/// table does not list has no category at all.
pub open spec fn listed_category(e: Seq<char>) -> Option<Category> {
    if is_document(e) {
        Some(Category::Documents)
    } else if is_image(e) {
        Some(Category::Images)
    } else if is_archive(e) {
        Some(Category::Archives)
    } else if is_code(e) {
        Some(Category::Code)
    } else if is_executable(e) {
        Some(Category::Executables)
    } else if e.len() == 0 {
        Some(Category::Miscellaneous)
    } else {
        None
    }
}

/// The category of an extension, whatever its case.
///
/// Only the letters `A` to `Z` are folded. The table needs no more:
/// its extensions are all ASCII, and none of them is the lower-case
/// form of a text that holds any other character.
pub open spec fn category_of(extension: Seq<char>) -> Option<Category> {
    listed_category(lower(extension))
}

/// The name of the directory that holds a category's files.
pub open spec fn directory_of(category: Category) -> Seq<char> {
    match category {
        Category::Documents => "Documents"@,
        Category::Images => "Images"@,
        Category::Archives => "Archives"@,
        Category::Code => "Code"@,
        Category::Executables => "Executables"@,
        Category::Miscellaneous => "Miscellaneous"@,
    }
}

impl Category {
    /// The name of the directory that holds this category's files.
    pub fn directory(&self) -> (name: &'static str)
        ensures
            name@ == directory_of(*self),
    {
        match self {
            Category::Documents => "Documents",
            Category::Images => "Images",
            Category::Archives => "Archives",
            Category::Code => "Code",
            Category::Executables => "Executables",
            Category::Miscellaneous => "Miscellaneous",
        }
    }
}

/// Looks an extension (without its dot) up in the table, ignoring case.
/// `None` means that the file is to be left where it is.
pub fn classify(extension: &str) -> (category: Option<Category>)
    ensures
        category == category_of(extension@),
{
    let e = to_lower_chars(extension);
    if spells(&e, "pdf") || spells(&e, "txt") || spells(&e, "docx") || spells(&e, "doc") || spells(
        &e,
        "pptx",
    ) || spells(&e, "ppt") || spells(&e, "tex") || spells(&e, "xlsx") || spells(&e, "xls") {
        Some(Category::Documents)
    } else if spells(&e, "png") || spells(&e, "jpg") || spells(&e, "jpeg") || spells(&e, "svg")
        || spells(&e, "webp") {
        Some(Category::Images)
    } else if spells(&e, "rar") || spells(&e, "zip") || spells(&e, "7z") {
        Some(Category::Archives)
    } else if spells(&e, "html") || spells(&e, "css") || spells(&e, "csv") || spells(&e, "py")
        || spells(&e, "c") || spells(&e, "h") || spells(&e, "cpp") || spells(&e, "rs") {
        Some(Category::Code)
    } else if spells(&e, "exe") || spells(&e, "jar") || spells(&e, "msi") || spells(&e, "iso") {
        Some(Category::Executables)
    } else if e.len() == 0 {
        Some(Category::Miscellaneous)
    } else {
        None
    }
}

} // verus!
