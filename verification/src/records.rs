//! Client-facing record shapes: the entity record (a movie with optional
//! scalar fields and an optional cast), the person record, the search-result
//! wrapper, and the counter-increment outcome.

use vstd::prelude::*;

verus! {

/// A person surfaced alongside a movie: required name, a job classifier
/// derived from the relationship type, and optional character roles.
#[derive(Debug)]
pub struct Person {
    pub job: String,
    pub role: Option<Vec<String>>,
    pub name: String,
}

/// Mathematical image of a person record.
pub struct PersonV {
    pub job: Seq<char>,
    pub role: Option<Seq<Seq<char>>>,
    pub name: Seq<char>,
}

pub open spec fn strings_view(v: Seq<String>) -> Seq<Seq<char>> {
    v.map_values(|s: String| s@)
}

pub open spec fn opt_string_view(o: Option<String>) -> Option<Seq<char>> {
    match o {
        Some(s) => Some(s@),
        None => None,
    }
}

pub open spec fn opt_strings_view(o: Option<Vec<String>>) -> Option<Seq<Seq<char>>> {
    match o {
        Some(v) => Some(strings_view(v@)),
        None => None,
    }
}

impl View for Person {
    type V = PersonV;

    open spec fn view(&self) -> PersonV {
        PersonV { job: self.job@, role: opt_strings_view(self.role), name: self.name@ }
    }
}

/// The entity record: every field optional, so that a missing column or a
/// missing row decodes to an empty field rather than an error.
#[derive(Debug)]
pub struct Movie {
    pub released: Option<u32>,
    pub title: Option<String>,
    pub tagline: Option<String>,
    pub votes: Option<usize>,
    pub cast: Option<Vec<Person>>,
}

/// Mathematical image of an entity record.
pub struct MovieV {
    pub released: Option<u32>,
    pub title: Option<Seq<char>>,
    pub tagline: Option<Seq<char>>,
    pub votes: Option<usize>,
    pub cast: Option<Seq<PersonV>>,
}

pub open spec fn persons_view(v: Seq<Person>) -> Seq<PersonV> {
    v.map_values(|p: Person| p@)
}

impl View for Movie {
    type V = MovieV;

    open spec fn view(&self) -> MovieV {
        MovieV {
            released: self.released,
            title: opt_string_view(self.title),
            tagline: opt_string_view(self.tagline),
            votes: self.votes,
            cast: match self.cast {
                Some(v) => Some(persons_view(v@)),
                None => None,
            },
        }
    }
}

impl MovieV {
    /// All fields empty: the defined default when no row backs a lookup.
    pub open spec fn is_empty_record(self) -> bool {
        &&& self.released is None
        &&& self.title is None
        &&& self.tagline is None
        &&& self.votes is None
        &&& self.cast is None
    }
}

impl Default for Movie {
    /// The empty-field record: what absence of a backing row yields.
    fn default() -> (m: Movie)
        ensures
            m@.is_empty_record(),
    {
        Movie { released: None, title: None, tagline: None, votes: None, cast: None }
    }
}

/// One search hit, wrapping an entity record.
#[derive(Debug)]
pub struct MovieResult {
    pub movie: Movie,
}

impl View for MovieResult {
    type V = MovieV;

    open spec fn view(&self) -> MovieV {
        self.movie@
    }
}

/// Outcome of the counter increment: the reported updates-count.
#[derive(Clone, Copy, Debug, PartialEq, Eq, Structural)]
pub struct Voted {
    pub updates: usize,
}

} // verus!
