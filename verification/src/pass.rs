//! One sorting pass, as a machine that asks for one piece of outside
//! work at a time and is told how it went.
//!
//! The caller scans the directory, begins a pass with the file names,
//! carries out each request and hands the answer to `Sorter::sort`,
//! until the request is to finish.

use crate::category::{category_of, classify, Category};
use crate::filename::{extension_cut, extension_of};
use crate::sorting::Sorter;
use crate::unique::{names_of, unique_name};
use vstd::prelude::*;
use vstd::string::*;

verus! {

/// The category of a file, by the extension of its name.
pub open spec fn category_of_name(name: Seq<char>) -> Option<Category> {
    category_of(extension_of(name))
}

/// The first file at or after `from` that has a category; the number
/// of files where there is none.
pub open spec fn next_sortable(files: Seq<Seq<char>>, from: nat) -> nat
    decreases files.len() - from,
{
    if from >= files.len() {
        files.len()
    } else if category_of_name(files[from as int]) is Some {
        from
    } else {
        next_sortable(files, from + 1)
    }
}

/// What a directory entry is known by: its name and whether it is a
/// file.
pub struct Entry {
    pub name: String,
    pub is_file: bool,
}

/// The names of the entries that are files, in the order of the
/// entries.
pub open spec fn files_among(entries: Seq<Entry>) -> Seq<Seq<char>>
    decreases entries.len(),
{
    if entries.len() == 0 {
        Seq::empty()
    } else if entries.last().is_file {
        files_among(entries.drop_last()).push(entries.last().name@)
    } else {
        files_among(entries.drop_last())
    }
}

/// Where a file goes: the category's directory, and the file's own
/// name in it.
#[derive(Debug, PartialEq, Eq)]
pub struct SortedPath {
    pub category: Category,
    pub file_name: String,
}

/// A pass, as contracts speak of it.
pub struct PassState {
    /// The names of the files that the scan found, in its order.
    pub files: Seq<Seq<char>>,
    /// The file in progress; the number of files once the pass is over.
    pub position: nat,
    /// Whether the file in progress has its new name and awaits the
    /// move.
    pub moving: bool,
    /// Whether nothing has failed so far.
    pub succeeded: bool,
}

/// What the caller reports, as contracts speak of it.
pub enum Answer {
    Listed(Seq<Seq<char>>),
    Moved,
    Failed,
}

/// What the pass asks for, as contracts speak of it.
pub enum Request {
    Prepare { category: Category },
    Move { file_name: Seq<char>, category: Category, new_name: Seq<char> },
    Finish { succeeded: bool },
}

/// What the caller reports back to a pass.
#[derive(Debug, PartialEq, Eq)]
pub enum PassEvent {
    /// The directory asked for is there, and these are the files in it.
    Listed(Vec<String>),
    /// The file was moved as asked.
    Moved,
    /// What was asked for could not be done.
    Failed,
}

/// What a pass asks its caller to do next.
#[derive(Debug, PartialEq, Eq)]
pub enum PassAction {
    /// Make sure the category's directory exists beside the files, and
    /// list the files in it.
    Prepare { category: Category },
    /// Move the file into the category's directory, under the new name.
    Move { file_name: String, category: Category, new_name: String },
    /// Nothing is left to do; the pass succeeded if no file failed.
    Finish { succeeded: bool },
}

impl View for PassEvent {
    type V = Answer;

    open spec fn view(&self) -> Answer {
        match self {
            PassEvent::Listed(listing) => Answer::Listed(names_of(listing@)),
            PassEvent::Moved => Answer::Moved,
            PassEvent::Failed => Answer::Failed,
        }
    }
}

impl View for PassAction {
    type V = Request;

    open spec fn view(&self) -> Request {
        match self {
            PassAction::Prepare { category } => Request::Prepare { category: *category },
            PassAction::Move { file_name, category, new_name } => Request::Move {
                file_name: file_name@,
                category: *category,
                new_name: new_name@,
            },
            PassAction::Finish { succeeded } => Request::Finish { succeeded: *succeeded },
        }
    }
}

impl PassState {
    /// Whether the pass is over.
    pub open spec fn finished(self) -> bool {
        self.position >= self.files.len()
    }

    /// What a pass asks for when it turns to the file at its position:
    /// to prepare that file's directory, or to finish.
    pub open spec fn request(self) -> Request {
        if self.finished() {
            Request::Finish { succeeded: self.succeeded }
        } else {
            Request::Prepare { category: category_of_name(self.files[self.position as int])->0 }
        }
    }

    /// The pass turned to the first file at or after `from` that has a
    /// category.
    pub open spec fn turned_to(self, from: nat, succeeded: bool) -> PassState {
        PassState {
            files: self.files,
            position: next_sortable(self.files, from),
            moving: false,
            succeeded,
        }
    }
}

/// A pass over `files` before anything was asked: it stands at the
/// first file that has a category.
pub open spec fn begun(files: Seq<Seq<char>>) -> PassState {
    PassState { files, position: next_sortable(files, 0), moving: false, succeeded: true }
}

/// Whether the answer is the success that the pass waits for: a
/// listing while it prepares, a move while it moves.
pub open spec fn fits(state: PassState, answer: Answer) -> bool {
    if state.moving {
        answer is Moved
    } else {
        answer is Listed
    }
}

/// The pass after an answer.
///
/// A listing for the file in progress settles its new name, and the
/// move is next. Any other answer closes the file in progress: with
/// `Moved` while the move was awaited it is done, with anything else
/// it has failed and the pass with it; either way the pass turns to
/// the next file that has a category. A pass that is over stays so.
pub open spec fn after(state: PassState, answer: Answer) -> PassState {
    if state.finished() {
        state
    } else if !state.moving && answer is Listed {
        PassState { moving: true, ..state }
    } else {
        state.turned_to(state.position + 1, state.succeeded && fits(state, answer))
    }
}

/// What the pass asks for after an answer.
pub open spec fn asked(state: PassState, answer: Answer) -> Request {
    if !state.finished() && !state.moving && answer is Listed {
        let file_name = state.files[state.position as int];
        Request::Move {
            file_name,
            category: category_of_name(file_name)->0,
            new_name: unique_name(file_name, answer->Listed_0),
        }
    } else {
        after(state, answer).request()
    }
}

/// A sorting pass in progress.
pub struct SortPass {
    files: Vec<String>,
    position: usize,
    moving: bool,
    succeeded: bool,
}

impl View for SortPass {
    type V = PassState;

    closed spec fn view(&self) -> PassState {
        PassState {
            files: names_of(self.files@),
            position: self.position as nat,
            moving: self.moving,
            succeeded: self.succeeded,
        }
    }
}

impl SortPass {
    #[verifier::type_invariant]
    spec fn well_formed(&self) -> bool {
        &&& self.position <= self.files.len()
        &&& self.position < self.files.len() ==> category_of_name(
            self.files[self.position as int]@,
        ) is Some
        &&& self.position == self.files.len() ==> !self.moving
    }

    /// Begins a pass over the files that the scan found, and says what
    /// to do first.
    pub fn begin(files: Vec<String>) -> (r: (SortPass, PassAction))
        ensures
            r.0@ == begun(names_of(files@)),
            r.1@ == begun(names_of(files@)).request(),
    {
        let position = seek(&files, 0);
        let action = request_at(&files, position, true);
        (SortPass { files, position, moving: false, succeeded: true }, action)
    }

    /// Whether the pass is over.
    pub fn is_finished(&self) -> (r: bool)
        ensures
            r == self@.finished(),
    {
        self.position >= self.files.len()
    }
}

fn seek(files: &Vec<String>, from: usize) -> (position: usize)
    requires
        from <= files.len(),
    ensures
        position == next_sortable(names_of(files@), from as nat),
        from <= position <= files.len(),
        position < files.len() ==> category_of_name(files[position as int]@) is Some,
{
    let ghost names = names_of(files@);
    let mut i = from;
    while i < files.len()
        invariant
            from <= i <= files.len(),
            names == names_of(files@),
            next_sortable(names, from as nat) == next_sortable(names, i as nat),
        decreases files.len() - i,
    {
        assert(names[i as int] == files[i as int]@);
        if Sorter::get_sorted_path(files[i].as_str()).is_some() {
            return i;
        }
        i += 1;
    }
    i
}

fn request_at(files: &Vec<String>, position: usize, succeeded: bool) -> (action: PassAction)
    requires
        position <= files.len(),
        position < files.len() ==> category_of_name(files[position as int]@) is Some,
    ensures
        action@ == (PassState {
            files: names_of(files@),
            position: position as nat,
            moving: false,
            succeeded,
        }).request(),
{
    if position < files.len() {
        assert(names_of(files@)[position as int] == files[position as int]@);
        match Sorter::get_sorted_path(files[position].as_str()) {
            Some(path) => PassAction::Prepare { category: path.category },
            None => PassAction::Finish { succeeded },
        }
    } else {
        PassAction::Finish { succeeded }
    }
}

impl Sorter {
    /// Where a file belongs: its category, found by its extension, and
    /// its name there. `None` for a file that has no category and stays
    /// where it is.
    pub fn get_sorted_path(file_name: &str) -> (path: Option<SortedPath>)
        ensures
            match path {
                Some(p) => category_of_name(file_name@) == Some(p.category) && p.file_name@
                    == file_name@,
                None => category_of_name(file_name@) is None,
            },
    {
        let len = file_name.unicode_len();
        let category = match extension_cut(file_name) {
            Some(dot) => classify(file_name.substring_char(dot + 1, len)),
            None => {
                proof {
                    reveal_strlit("");
                    assert(""@ =~= Seq::<char>::empty());
                }
                classify("")
            },
        };
        match category {
            Some(category) => Some(SortedPath { category, file_name: String::from_str(file_name) }),
            None => None,
        }
    }

    /// The names of the files among the entries of a directory, in the
    /// order of the entries. Entries that are not files are left out.
    pub fn get_filenames_in_dir(entries: &[Entry]) -> (names: Vec<String>)
        ensures
            names_of(names@) == files_among(entries@),
    {
        let mut names: Vec<String> = Vec::new();
        let mut i: usize = 0;
        assert(entries@.subrange(0, 0) =~= Seq::<Entry>::empty());
        while i < entries.len()
            invariant
                i <= entries.len(),
                names_of(names@) == files_among(entries@.subrange(0, i as int)),
            decreases entries.len() - i,
        {
            let ghost before = names_of(names@);
            assert(entries@.subrange(0, i + 1).drop_last() =~= entries@.subrange(0, i as int));
            if entries[i].is_file {
                names.push(entries[i].name.clone());
                assert(names_of(names@) =~= before.push(entries[i as int].name@));
            }
            i += 1;
        }
        assert(entries@.subrange(0, i as int) =~= entries@);
        names
    }

    /// Takes one step of a pass: given the answer to what the pass
    /// asked last, returns the pass as it stands then and what it asks
    /// next.
    pub fn sort(pass: SortPass, event: PassEvent) -> (r: (SortPass, PassAction))
        ensures
            r.0@ == after(pass@, event@),
            r.1@ == asked(pass@, event@),
    {
        proof {
            use_type_invariant(&pass);
        }
        let SortPass { files, position, moving, succeeded } = pass;
        if position >= files.len() {
            return (
                SortPass { files, position, moving, succeeded },
                PassAction::Finish { succeeded },
            );
        }
        assert(names_of(files@)[position as int] == files[position as int]@);
        if !moving {
            if let PassEvent::Listed(listing) = event {
                let path = Sorter::get_sorted_path(files[position].as_str());
                let new_name = Sorter::make_filename_unique(
                    files[position].as_str(),
                    listing.as_slice(),
                );
                let action = match path {
                    Some(p) => PassAction::Move {
                        file_name: p.file_name,
                        category: p.category,
                        new_name,
                    },
                    None => PassAction::Finish { succeeded },
                };
                return (SortPass { files, position, moving: true, succeeded }, action);
            }
        }
        let done = moving && matches!(event, PassEvent::Moved);
        let succeeded = succeeded && done;
        let position = seek(&files, position + 1);
        let action = request_at(&files, position, succeeded);
        (SortPass { files, position, moving: false, succeeded }, action)
    }
}

} // verus!
