//! Reading the migration units out of a directory embedded in the program.
//!
//! The directory is an `include_dir::Dir`. Its files, in the order in which
//! the directory stores them, are the units: the path of a file names the
//! unit and the text of the file is its script.

use crate::error::ConfigurationError;
use crate::migration::MigrationUnit;
use include_dir::Dir;
use vstd::prelude::*;

verus! {

/// `include_dir::Dir`: a directory embedded in the program, opaque here.
#[verifier::external_type_specification]
#[verifier::external_body]
pub struct ExDir<'a>(Dir<'a>);

/// The files that sit directly in an embedded directory, in stored order:
/// each with its path and, where its contents are UTF-8, its text.
pub uninterp spec fn embedded_files(dir: Dir) -> Seq<(Seq<char>, Option<Seq<char>>)>;

/// Lists the files directly in `dir`. The body walks `include_dir::Dir::files`
/// and turns each `include_dir::File` into its `path`, as text, and its
/// `contents_utf8`. Nothing is claimed of the listing but that it is the one
/// that `embedded_files` names: the same directory value always lists alike.
#[verifier::external_body]
fn list_files(dir: &Dir) -> (files: Vec<(String, Option<String>)>)
    ensures
        files.deep_view() == embedded_files(*dir),
{
    dir.files().map(
        |file|
            (
                file.path().to_string_lossy().into_owned(),
                file.contents_utf8().map(str::to_owned),
            ),
    ).collect()
}

/// `result` is what a listing yields: one unit per file, in the same order,
/// named by the path and holding the text; or the refusal of the first file
/// whose contents are not text.
pub open spec fn yields(
    files: Seq<(Seq<char>, Option<Seq<char>>)>,
    result: Result<Vec<MigrationUnit>, ConfigurationError>,
) -> bool {
    match result {
        Ok(units) => {
            &&& units.len() == files.len()
            &&& forall|i: int|
                0 <= i < files.len() ==> files[i].1 == Some(#[trigger] units[i].script@)
                    && units[i].name@ == files[i].0
        },
        Err(error) => {
            &&& error matches ConfigurationError::UnreadableScript { index }
            &&& index < files.len()
            &&& files[index as int].1 is None
            &&& forall|k: int| 0 <= k < index ==> (#[trigger] files[k]).1 is Some
        },
    }
}

/// Turns a listing of files into the unit list. A file whose contents are
/// not text cannot be a script; the first such file is refused by position.
pub fn units_from_files(files: &Vec<(String, Option<String>)>) -> (result: Result<
    Vec<MigrationUnit>,
    ConfigurationError,
>)
    ensures
        yields(files.deep_view(), result),
{
    let ghost listing = files.deep_view();
    let mut units: Vec<MigrationUnit> = Vec::new();
    let mut i: usize = 0;
    while i < files.len()
        invariant
            i <= files.len(),
            listing == files.deep_view(),
            listing.len() == files.len(),
            units.len() == i,
            forall|k: int|
                0 <= k < i ==> listing[k].1 == Some(#[trigger] units[k].script@) && units[k].name@
                    == listing[k].0,
        decreases files.len() - i,
    {
        assert(listing[i as int] == files[i as int].deep_view());
        match &files[i].1 {
            Some(text) => {
                units.push(MigrationUnit { name: files[i].0.clone(), script: text.clone() });
            },
            None => {
                assert forall|k: int| 0 <= k < i implies (#[trigger] listing[k]).1 is Some by {
                    assert(listing[k].1 == Some(units[k].script@));
                }
                return Err(ConfigurationError::UnreadableScript { index: i });
            },
        }
        i = i + 1;
    }
    Ok(units)
}

/// The migration units embedded in `dir`, in the order in which `dir` stores
/// its files.
pub fn embedded_units(dir: &Dir) -> (result: Result<Vec<MigrationUnit>, ConfigurationError>)
    ensures
        yields(embedded_files(*dir), result),
{
    let files = list_files(dir);
    units_from_files(&files)
}

} // verus!
