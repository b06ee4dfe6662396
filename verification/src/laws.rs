//! What holds of the classifier, of collision avoidance and of a pass,
//! whatever the inputs.

use crate::category::{
    category_of, is_archive, is_code, is_document, is_executable, is_image, Category,
};
use crate::filename::{
    candidate, copy_mark, decimal, dotted, extension_of, has_extension, lemma_last_dot, stem_of,
};
use crate::pass::{
    after, asked, category_of_name, fits, next_sortable, Answer, PassState, Request,
};
use crate::text::{lower, lower_char};
use crate::unique::{
    first_free, is_first_free, lemma_first_free_exists, lemma_first_free_is, unique_name,
};
use vstd::prelude::*;

verus! {

/// How the listed extensions are spelt, character by character.
proof fn lemma_listed_spellings()
    ensures
        "pdf"@.len() == 3 && "pdf"@[0] == 'p' && "pdf"@[1] == 'd' && "pdf"@[2] == 'f',
        "txt"@.len() == 3 && "txt"@[0] == 't' && "txt"@[1] == 'x' && "txt"@[2] == 't',
        "docx"@.len() == 4 && "docx"@[0] == 'd' && "docx"@[1] == 'o' && "docx"@[2] == 'c' && "docx"@[3] == 'x',
        "doc"@.len() == 3 && "doc"@[0] == 'd' && "doc"@[1] == 'o' && "doc"@[2] == 'c',
        "pptx"@.len() == 4 && "pptx"@[0] == 'p' && "pptx"@[1] == 'p' && "pptx"@[2] == 't' && "pptx"@[3] == 'x',
        "ppt"@.len() == 3 && "ppt"@[0] == 'p' && "ppt"@[1] == 'p' && "ppt"@[2] == 't',
        "tex"@.len() == 3 && "tex"@[0] == 't' && "tex"@[1] == 'e' && "tex"@[2] == 'x',
        "xlsx"@.len() == 4 && "xlsx"@[0] == 'x' && "xlsx"@[1] == 'l' && "xlsx"@[2] == 's' && "xlsx"@[3] == 'x',
        "xls"@.len() == 3 && "xls"@[0] == 'x' && "xls"@[1] == 'l' && "xls"@[2] == 's',
        "png"@.len() == 3 && "png"@[0] == 'p' && "png"@[1] == 'n' && "png"@[2] == 'g',
        "jpg"@.len() == 3 && "jpg"@[0] == 'j' && "jpg"@[1] == 'p' && "jpg"@[2] == 'g',
        "jpeg"@.len() == 4 && "jpeg"@[0] == 'j' && "jpeg"@[1] == 'p' && "jpeg"@[2] == 'e' && "jpeg"@[3] == 'g',
        "svg"@.len() == 3 && "svg"@[0] == 's' && "svg"@[1] == 'v' && "svg"@[2] == 'g',
        "webp"@.len() == 4 && "webp"@[0] == 'w' && "webp"@[1] == 'e' && "webp"@[2] == 'b' && "webp"@[3] == 'p',
        "rar"@.len() == 3 && "rar"@[0] == 'r' && "rar"@[1] == 'a' && "rar"@[2] == 'r',
        "zip"@.len() == 3 && "zip"@[0] == 'z' && "zip"@[1] == 'i' && "zip"@[2] == 'p',
        "7z"@.len() == 2 && "7z"@[0] == '7' && "7z"@[1] == 'z',
        "html"@.len() == 4 && "html"@[0] == 'h' && "html"@[1] == 't' && "html"@[2] == 'm' && "html"@[3] == 'l',
        "css"@.len() == 3 && "css"@[0] == 'c' && "css"@[1] == 's' && "css"@[2] == 's',
        "csv"@.len() == 3 && "csv"@[0] == 'c' && "csv"@[1] == 's' && "csv"@[2] == 'v',
        "py"@.len() == 2 && "py"@[0] == 'p' && "py"@[1] == 'y',
        "c"@.len() == 1 && "c"@[0] == 'c',
        "h"@.len() == 1 && "h"@[0] == 'h',
        "cpp"@.len() == 3 && "cpp"@[0] == 'c' && "cpp"@[1] == 'p' && "cpp"@[2] == 'p',
        "rs"@.len() == 2 && "rs"@[0] == 'r' && "rs"@[1] == 's',
        "exe"@.len() == 3 && "exe"@[0] == 'e' && "exe"@[1] == 'x' && "exe"@[2] == 'e',
        "jar"@.len() == 3 && "jar"@[0] == 'j' && "jar"@[1] == 'a' && "jar"@[2] == 'r',
        "msi"@.len() == 3 && "msi"@[0] == 'm' && "msi"@[1] == 's' && "msi"@[2] == 'i',
        "iso"@.len() == 3 && "iso"@[0] == 'i' && "iso"@[1] == 's' && "iso"@[2] == 'o',
{
    reveal_strlit("pdf");
    reveal_strlit("txt");
    reveal_strlit("docx");
    reveal_strlit("doc");
    reveal_strlit("pptx");
    reveal_strlit("ppt");
    reveal_strlit("tex");
    reveal_strlit("xlsx");
    reveal_strlit("xls");
    reveal_strlit("png");
    reveal_strlit("jpg");
    reveal_strlit("jpeg");
    reveal_strlit("svg");
    reveal_strlit("webp");
    reveal_strlit("rar");
    reveal_strlit("zip");
    reveal_strlit("7z");
    reveal_strlit("html");
    reveal_strlit("css");
    reveal_strlit("csv");
    reveal_strlit("py");
    reveal_strlit("c");
    reveal_strlit("h");
    reveal_strlit("cpp");
    reveal_strlit("rs");
    reveal_strlit("exe");
    reveal_strlit("jar");
    reveal_strlit("msi");
    reveal_strlit("iso");
}

/// An extension that the table lists, in whatever case it is written,
/// has the category it is listed under; the empty extension is
/// miscellaneous; every other extension has no category.
pub proof fn lemma_classification(extension: Seq<char>)
    ensures
        is_document(lower(extension)) ==> category_of(extension) == Some(Category::Documents),
        is_image(lower(extension)) ==> category_of(extension) == Some(Category::Images),
        is_archive(lower(extension)) ==> category_of(extension) == Some(Category::Archives),
        is_code(lower(extension)) ==> category_of(extension) == Some(Category::Code),
        is_executable(lower(extension)) ==> category_of(extension) == Some(Category::Executables),
        extension.len() == 0 ==> category_of(extension) == Some(Category::Miscellaneous),
        extension.len() > 0 && !is_document(lower(extension)) && !is_image(lower(extension))
            && !is_archive(lower(extension)) && !is_code(lower(extension)) && !is_executable(
            lower(extension),
        ) ==> category_of(extension) is None,
{
    // No extension is listed under two categories: any two listed
    // ones differ in their length or in one of their characters.
    lemma_listed_spellings();
}

/// Lower-casing a second time changes nothing.
pub proof fn lemma_lower_idempotent(s: Seq<char>)
    ensures
        lower(lower(s)) == lower(s),
{
    assert forall|i: int| 0 <= i < s.len() implies lower_char(lower_char(s[i])) == lower_char(
        s[i],
    ) by {
        let c = s[i];
        if 'A' <= c && c <= 'Z' {
            let l = ((c as u8) + 32) as char;
            assert('a' <= l && l <= 'z');
        }
    }
    assert(lower(lower(s)) =~= lower(s));
}

/// Two extensions that differ only in the case of their letters have
/// the same category, and so has an extension and its lower-case form.
pub proof fn lemma_classification_ignores_case(a: Seq<char>, b: Seq<char>)
    requires
        lower(a) == lower(b),
    ensures
        category_of(a) == category_of(b),
        category_of(lower(a)) == category_of(a),
{
    lemma_lower_idempotent(a);
}

/// The name that a file is given depends only on which names are
/// occupied, not on the order in which they are listed nor on how
/// often: against the same files it is always the same name, and that
/// name, character for character, is none of the occupied ones.
pub proof fn lemma_unique_name_is_settled(
    name: Seq<char>,
    occupied: Seq<Seq<char>>,
    again: Seq<Seq<char>>,
)
    requires
        forall|s: Seq<char>| occupied.contains(s) <==> again.contains(s),
    ensures
        unique_name(name, occupied) == unique_name(name, again),
        !occupied.contains(unique_name(name, occupied)),
{
    lemma_first_free_exists(name, occupied);
    let k = first_free(name, occupied);
    assert(is_first_free(name, again, k));
    lemma_first_free_is(name, again, k);
}

/// A file whose own name is free keeps it.
pub proof fn lemma_free_name_is_kept(name: Seq<char>, occupied: Seq<Seq<char>>)
    requires
        !occupied.contains(name),
    ensures
        unique_name(name, occupied) == name,
{
    assert(is_first_free(name, occupied, 0));
    lemma_first_free_is(name, occupied, 0);
}

/// Where a file's own name and its first `n - 1` copy names are all
/// occupied and the `n`-th copy name is free, the file is given the
/// `n`-th copy name.
pub proof fn lemma_collision_sequence(name: Seq<char>, occupied: Seq<Seq<char>>, n: nat)
    requires
        forall|j: nat| j < n ==> occupied.contains(#[trigger] candidate(name, j)),
        !occupied.contains(candidate(name, n)),
    ensures
        unique_name(name, occupied) == candidate(name, n),
{
    assert(is_first_free(name, occupied, n));
    lemma_first_free_is(name, occupied, n);
}

/// How the copy names read: `stem - Copy.ext` for the first copy,
/// `stem - Copy (2).ext` for the second, `stem - Copy (3).ext` for the
/// third, and ` (n)` with `n` in decimal for every later one.
pub proof fn lemma_copy_names(name: Seq<char>, n: nat)
    ensures
        candidate(name, 0) == name,
        candidate(name, 1) == stem_of(name) + copy_mark() + dotted(extension_of(name)),
        candidate(name, 2) == stem_of(name) + copy_mark() + seq![' ', '(', '2', ')'] + dotted(
            extension_of(name),
        ),
        candidate(name, 3) == stem_of(name) + copy_mark() + seq![' ', '(', '3', ')'] + dotted(
            extension_of(name),
        ),
        n >= 2 ==> candidate(name, n) == stem_of(name) + copy_mark() + seq![' ', '('] + decimal(n)
            + seq![')'] + dotted(extension_of(name)),
{
    let stem = stem_of(name);
    let tail = dotted(extension_of(name));
    assert(stem + copy_mark() + Seq::<char>::empty() + tail =~= stem + copy_mark() + tail);
    assert(seq![' ', '('] + decimal(2) + seq![')'] =~= seq![' ', '(', '2', ')']);
    assert(seq![' ', '('] + decimal(3) + seq![')'] =~= seq![' ', '(', '3', ')']);
    assert(stem + copy_mark() + (seq![' ', '('] + decimal(n) + seq![')']) + tail =~= stem
        + copy_mark() + seq![' ', '('] + decimal(n) + seq![')'] + tail);
}

/// A name with a non-empty extension is its stem, a dot and its
/// extension; a name without one is its own stem.
pub proof fn lemma_name_parts(name: Seq<char>)
    ensures
        extension_of(name).len() > 0 ==> name == stem_of(name) + seq!['.'] + extension_of(name),
        !has_extension(name) ==> name == stem_of(name),
        !extension_of(name).contains('.'),
{
    lemma_last_dot(name);
    if has_extension(name) {
        assert(name =~= stem_of(name) + seq!['.'] + extension_of(name));
    }
}

/// The copy of a file without an extension is named by the stem and
/// ` - Copy` alone, and no copy name of any file ends in a dot.
pub proof fn lemma_no_trailing_dot(name: Seq<char>, n: nat)
    requires
        n >= 1,
    ensures
        extension_of(name).len() == 0 ==> candidate(name, 1) == stem_of(name) + copy_mark(),
        candidate(name, n).len() > 0,
        candidate(name, n).last() != '.',
{
    lemma_name_parts(name);
    let ext = extension_of(name);
    let c = candidate(name, n);
    if ext.len() == 0 {
        assert(candidate(name, 1) =~= stem_of(name) + copy_mark());
        if n == 1 {
            assert(c.last() == 'y');
        } else {
            assert(c.last() == ')');
        }
    } else {
        assert(c.last() == ext.last());
        assert(ext.contains(ext.last()));
    }
}

/// A pass never asks to move a file under a name that was listed for
/// the directory: the name it picks for a file is not among those
/// listed, and it is the file's own name wherever that is free. Names
/// are compared character by character, so a listed name that differs
/// from the one picked in the case of a letter does not count as the
/// same.
pub proof fn lemma_move_never_overwrites(state: PassState, listing: Seq<Seq<char>>)
    requires
        !state.finished(),
        !state.moving,
    ensures
        asked(state, Answer::Listed(listing)) is Move,
        !listing.contains(asked(state, Answer::Listed(listing))->new_name),
        asked(state, Answer::Listed(listing))->file_name == state.files[state.position as int],
        !listing.contains(state.files[state.position as int]) ==> asked(
            state,
            Answer::Listed(listing),
        )->new_name == state.files[state.position as int],
{
    let name = state.files[state.position as int];
    lemma_first_free_exists(name, listing);
    if !listing.contains(name) {
        lemma_free_name_is_kept(name, listing);
    }
}

/// A pass goes through the files in order and stops at each file that
/// has a category: between one stop and the next lie only files
/// without one.
pub proof fn lemma_next_sortable(files: Seq<Seq<char>>, from: nat)
    requires
        from <= files.len(),
    ensures
        from <= next_sortable(files, from) <= files.len(),
        next_sortable(files, from) < files.len() ==> category_of_name(
            files[next_sortable(files, from) as int],
        ) is Some,
        forall|i: int|
            from <= i < next_sortable(files, from) ==> category_of_name(#[trigger] files[i])
                is None,
    decreases files.len() - from,
{
    if from < files.len() && category_of_name(files[from as int]) is None {
        lemma_next_sortable(files, from + 1);
    }
}

/// The pass after a run of answers, taken one after the other.
pub open spec fn replayed(state: PassState, answers: Seq<Answer>) -> PassState
    decreases answers.len(),
{
    if answers.len() == 0 {
        state
    } else {
        replayed(after(state, answers[0]), answers.drop_first())
    }
}

/// Whether an answer leaves the outcome of a pass as it is. Only an
/// answer that closes the file in progress with a failure does not.
pub open spec fn harmless(state: PassState, answer: Answer) -> bool {
    state.finished() || fits(state, answer)
}

/// Whether none of the answers, taken one after the other, reports a
/// failure.
pub open spec fn all_harmless(state: PassState, answers: Seq<Answer>) -> bool
    decreases answers.len(),
{
    answers.len() == 0 || (harmless(state, answers[0]) && all_harmless(
        after(state, answers[0]),
        answers.drop_first(),
    ))
}

/// A pass succeeds exactly if nothing failed in it: after any run of
/// answers it counts as succeeded if and only if it did before and
/// none of the answers reported a failure.
pub proof fn lemma_pass_succeeds_iff_nothing_failed(state: PassState, answers: Seq<Answer>)
    ensures
        replayed(state, answers).succeeded == (state.succeeded && all_harmless(state, answers)),
    decreases answers.len(),
{
    if answers.len() > 0 {
        lemma_pass_succeeds_iff_nothing_failed(after(state, answers[0]), answers.drop_first());
    }
}

/// No answer takes a pass back to an earlier file, changes its files,
/// or makes a failed pass succeed.
pub proof fn lemma_replayed(state: PassState, answers: Seq<Answer>)
    requires
        state.position <= state.files.len(),
    ensures
        replayed(state, answers).files == state.files,
        state.position <= replayed(state, answers).position <= state.files.len(),
        replayed(state, answers).succeeded ==> state.succeeded,
    decreases answers.len(),
{
    if answers.len() > 0 {
        if !state.finished() {
            lemma_next_sortable(state.files, state.position + 1);
        }
        lemma_replayed(after(state, answers[0]), answers.drop_first());
    }
}

/// Every file is visited once: an answer that closes the file in
/// progress takes the pass forward to the next file that has a
/// category, past files without one only, and a listing leaves it at
/// the file in progress.
pub proof fn lemma_each_file_is_visited_once(state: PassState, answer: Answer)
    requires
        state.position < state.files.len(),
    ensures
        !state.moving && answer is Listed ==> after(state, answer).position == state.position
            && after(state, answer).moving,
        state.moving || !(answer is Listed) ==> state.position < after(state, answer).position
            <= state.files.len() && !after(state, answer).moving,
        forall|i: int|
            state.position < i < after(state, answer).position ==> category_of_name(
                #[trigger] state.files[i],
            ) is None,
        (state.moving || !(answer is Listed)) && !after(state, answer).finished()
            ==> category_of_name(state.files[after(state, answer).position as int]) is Some,
{
    lemma_next_sortable(state.files, state.position + 1);
}

/// One failure fails the pass and stops nothing: when a file cannot
/// be prepared or moved, the pass goes on to the very file it would
/// have gone on to had the move succeeded, and whatever is answered
/// for the remaining files, its outcome is a failure.
pub proof fn lemma_failure_fails_pass(state: PassState, answer: Answer, rest: Seq<Answer>)
    requires
        state.position < state.files.len(),
        !fits(state, answer),
    ensures
        after(state, answer).position == next_sortable(state.files, state.position + 1),
        after(state, answer).position == after(
            PassState { moving: true, ..state },
            Answer::Moved,
        ).position,
        !after(state, answer).moving,
        !replayed(after(state, answer), rest).succeeded,
{
    lemma_next_sortable(state.files, state.position + 1);
    lemma_replayed(after(state, answer), rest);
}

} // verus!
