use vstd::prelude::*;

use crate::plex::models::string_equals;

verus! {

/// A content library of the server, as listed by `/media/providers`.
#[derive(Debug, Clone)]
pub struct Library {
    pub id: String,
    pub name: String,
    pub library_type: String,
    pub duration_total: i64,
    pub storage_total: i64,
    pub item_count: i64,
}

pub struct LibraryView {
    pub id: Seq<char>,
    pub name: Seq<char>,
    pub library_type: Seq<char>,
    pub duration_total: i64,
    pub storage_total: i64,
    pub item_count: i64,
}

impl View for Library {
    type V = LibraryView;

    open spec fn view(&self) -> LibraryView {
        LibraryView {
            id: self.id@,
            name: self.name@,
            library_type: self.library_type@,
            duration_total: self.duration_total,
            storage_total: self.storage_total,
            item_count: self.item_count,
        }
    }
}

/// The directory types that are content libraries: movies, shows and music.
pub open spec fn spec_is_library_directory_type(t: Seq<char>) -> bool {
    t == "movie"@ || t == "show"@ || t == "artist"@
}

pub fn is_library_directory_type(directory_type: &String) -> (r: bool)
    ensures
        r == spec_is_library_directory_type(directory_type@),
{
    string_equals(directory_type, "movie") || string_equals(directory_type, "show")
        || string_equals(directory_type, "artist")
}

/// The first library of `libs` whose id is `id`.
pub open spec fn spec_find_library(libs: Seq<LibraryView>, id: Seq<char>) -> Option<LibraryView>
    decreases libs.len(),
{
    if libs.len() == 0 {
        None
    } else if libs[0].id == id {
        Some(libs[0])
    } else {
        spec_find_library(libs.drop_first(), id)
    }
}

/// Looks a library up by its id; the first one listed wins.
pub fn find_library<'a>(libs: &'a Vec<Library>, id: &str) -> (r: Option<&'a Library>)
    ensures
        r matches Some(l) ==> Some(l@) == spec_find_library(libs@.map_values(|l: Library| l@), id@),
        r is None ==> spec_find_library(libs@.map_values(|l: Library| l@), id@) is None,
{
    let ghost views = libs@.map_values(|l: Library| l@);
    let mut i: usize = 0;
    assert(views.skip(0) =~= views);
    while i < libs.len()
        invariant
            i <= libs@.len(),
            views == libs@.map_values(|l: Library| l@),
            spec_find_library(views, id@) == spec_find_library(views.skip(i as int), id@),
        decreases libs@.len() - i,
    {
        assert(views.skip(i as int).drop_first() =~= views.skip(i + 1));
        if string_equals(&libs[i].id, id) {
            return Some(&libs[i]);
        }
        i = i + 1;
    }
    None
}

} // verus!
