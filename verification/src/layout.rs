//! Where an installed version lies on disk.
//!
//! Every place is given below the data root, as the names to descend by,
//! one after the other. A version is installed in a directory of its own,
//! named by its token, below `versions`.

use crate::routes::{extraction_root, route_for};
use vstd::prelude::*;

verus! {

/// A place below the data root: the names by which one descends to it from
/// there, in order. Each name is joined to the path before it as a path of
/// its own, so a name may hold several components.
#[derive(Clone, Debug, PartialEq, Eq)]
pub struct Location {
    pub segments: Vec<String>,
}

/// What a list of names holds.
pub open spec fn names_view(names: Seq<String>) -> Seq<Seq<char>> {
    names.map_values(|name: String| name@)
}

impl View for Location {
    type V = Seq<Seq<char>>;

    open spec fn view(&self) -> Seq<Seq<char>> {
        names_view(self.segments@)
    }
}

/// The directory in which the version stored under `token` is installed.
pub open spec fn install_dir(token: Seq<char>) -> Seq<Seq<char>> {
    seq!["versions"@, token]
}

/// The main executable of the version stored under `token`.
pub open spec fn executable_path(token: Seq<char>) -> Seq<Seq<char>> {
    install_dir(token).push("RobloxPlayerBeta.exe"@)
}

/// The settings document of the version stored under `token`.
pub open spec fn settings_path(token: Seq<char>) -> Seq<Seq<char>> {
    install_dir(token).push("AppSettings.xml"@)
}

/// The directory into which the members of the archive `filename` of the
/// version stored under `token` are unpacked.
pub open spec fn extraction_dir(token: Seq<char>, filename: Seq<char>) -> Seq<Seq<char>> {
    install_dir(token).push(route_for(filename))
}

impl Location {
    /// The place `name` below this one.
    pub fn child(&self, name: &str) -> (place: Location)
        ensures
            place@ == self@.push(name@),
    {
        let mut segments: Vec<String> = Vec::new();
        let mut i: usize = 0;
        while i < self.segments.len()
            invariant
                i <= self.segments.len(),
                segments@.len() == i,
                forall|j: int| 0 <= j < i ==> (#[trigger] segments@[j])@ == self.segments@[j]@,
            decreases self.segments.len() - i,
        {
            segments.push(self.segments[i].clone());
            i = i + 1;
        }
        segments.push(name.to_owned());
        let place = Location { segments };
        assert(place@ =~= self@.push(name@));
        place
    }
}

/// The directory in which the version stored under `token` is installed.
pub fn install_location(token: &str) -> (place: Location)
    ensures
        place@ == install_dir(token@),
{
    let mut segments: Vec<String> = Vec::new();
    segments.push("versions".to_owned());
    segments.push(token.to_owned());
    let place = Location { segments };
    assert(place@ =~= install_dir(token@));
    place
}

/// The main executable of the version stored under `token`.
pub fn executable_location(token: &str) -> (place: Location)
    ensures
        place@ == executable_path(token@),
{
    install_location(token).child("RobloxPlayerBeta.exe")
}

/// The settings document of the version stored under `token`.
pub fn settings_location(token: &str) -> (place: Location)
    ensures
        place@ == settings_path(token@),
{
    install_location(token).child("AppSettings.xml")
}

/// The directory into which the members of the archive `filename` of the
/// version stored under `token` are unpacked.
pub fn extraction_location(token: &str, filename: &str) -> (place: Location)
    ensures
        place@ == extraction_dir(token@, filename@),
{
    install_location(token).child(extraction_root(filename))
}

/// The main executable lies in the install directory of its version, and so
/// does the settings document.
pub proof fn lemma_version_files_in_install_dir(token: Seq<char>)
    ensures
        executable_path(token).drop_last() == install_dir(token),
        settings_path(token).drop_last() == install_dir(token),
{
    assert(executable_path(token).drop_last() =~= install_dir(token));
    assert(settings_path(token).drop_last() =~= install_dir(token));
}

} // verus!
