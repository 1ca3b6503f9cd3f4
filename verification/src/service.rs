//! The service facade: one fixed query template per operation, parameter
//! binding as data (never interpolated into the text), default values, and
//! the result shaping each operation owes its caller.

use vstd::prelude::*;
use crate::decode::{decode_result, result_spec};
use crate::records::{MovieResult, MovieV, Voted};
use crate::row::{DecodeError, DecodeErrorV, Row};

verus! {

/// Exact-match single-entity fetch; the cast column collects each related
/// person's name, raw relationship type and roles for the decoder.
pub const FIND_MOVIE: &'static str = "MATCH (movie:Movie {title:$title}) OPTIONAL MATCH (movie)<-[r]-(person:Person) WITH movie.title AS title, collect({name: person.name, rel: type(r), role: r.roles}) AS cast LIMIT 1 RETURN title, cast";

/// Counter increment: initializes the counter to 0 when absent, then adds 1.
pub const VOTE_IN_MOVIE: &'static str = "MATCH (movie:Movie {title:$title}) SET movie.votes = coalesce(movie.votes, 0) + 1 RETURN movie.votes";

/// Case-insensitive substring search over titles.
pub const SEARCH_MOVIES: &'static str = "MATCH (movie:Movie) WHERE toLower(movie.title) CONTAINS toLower($part) RETURN movie";

/// Bounded browse stream: one row per movie with its collected cast names.
pub const GRAPH: &'static str = "MATCH (m:Movie)<-[:ACTED_IN]-(a:Person) RETURN m.title AS movie, collect(a.name) AS cast LIMIT $limit";

/// A value bound to a named placeholder.
#[derive(Debug)]
pub enum Param {
    Str(String),
    Int(i64),
}

/// A statement-scoped query: a fixed template and its named parameters,
/// bound out-of-band by the driver. User input never enters the text.
#[derive(Debug)]
pub struct Query {
    pub text: &'static str,
    pub params: Vec<(&'static str, Param)>,
}

/// The single-entity fetch for one exact title.
pub fn movie_query(title: String) -> (q: Query)
    ensures
        q.text@ == FIND_MOVIE@,
        q.params@.len() == 1,
        q.params@[0].0@ == "title"@,
        q.params@[0].1 == Param::Str(title),
{
    let mut params: Vec<(&'static str, Param)> = Vec::new();
    params.push(("title", Param::Str(title)));
    Query { text: FIND_MOVIE, params }
}

/// The counter increment for one exact title.
pub fn vote_query(title: String) -> (q: Query)
    ensures
        q.text@ == VOTE_IN_MOVIE@,
        q.params@.len() == 1,
        q.params@[0].0@ == "title"@,
        q.params@[0].1 == Param::Str(title),
{
    let mut params: Vec<(&'static str, Param)> = Vec::new();
    params.push(("title", Param::Str(title)));
    Query { text: VOTE_IN_MOVIE, params }
}

/// The title search for one query fragment.
pub fn search_query(fragment: String) -> (q: Query)
    ensures
        q.text@ == SEARCH_MOVIES@,
        q.params@.len() == 1,
        q.params@[0].0@ == "part"@,
        q.params@[0].1 == Param::Str(fragment),
{
    let mut params: Vec<(&'static str, Param)> = Vec::new();
    params.push(("part", Param::Str(fragment)));
    Query { text: SEARCH_MOVIES, params }
}

/// The browse limit actually used: the given positive bound, or 100.
pub open spec fn effective_limit(limit: Option<i64>) -> i64 {
    match limit {
        Some(l) => l,
        None => 100,
    }
}

/// The bounded browse query; a missing limit defaults to 100.
pub fn graph_query(limit: Option<i64>) -> (q: Query)
    ensures
        q.text@ == GRAPH@,
        q.params@.len() == 1,
        q.params@[0].0@ == "limit"@,
        q.params@[0].1 == Param::Int(effective_limit(limit)),
{
    let l = match limit {
        Some(l) => l,
        None => 100,
    };
    let mut params: Vec<(&'static str, Param)> = Vec::new();
    params.push(("limit", Param::Int(l)));
    Query { text: GRAPH, params }
}

/// What the increment operation reports after the statement executed
/// without error: a constant updates-count of 1 ("this call succeeded"),
/// not a cumulative or true affected-row count.
pub fn vote_result() -> (v: Voted)
    ensures
        v.updates == 1,
{
    Voted { updates: 1 }
}

/// The decoded images of a whole search result set, first error winning.
pub open spec fn results_spec(rows: Seq<Row>) -> Result<Seq<MovieV>, DecodeErrorV>
    decreases rows.len(),
{
    if rows.len() == 0 {
        Ok(Seq::empty())
    } else {
        match result_spec(rows[0]) {
            Err(e) => Err(e),
            Ok(m) => match results_spec(rows.drop_first()) {
                Err(e) => Err(e),
                Ok(ms) => Ok(seq![m] + ms),
            },
        }
    }
}

pub proof fn lemma_results_spec_split(rows: Seq<Row>, i: int)
    requires
        0 <= i <= rows.len(),
    ensures
        results_spec(rows) == match results_spec(rows.take(i)) {
            Err(e) => Err(e),
            Ok(ms) => match results_spec(rows.skip(i)) {
                Err(e) => Err(e),
                Ok(ns) => Ok(ms + ns),
            },
        },
    decreases i,
{
    if i == 0 {
        assert(rows.take(0) =~= Seq::<Row>::empty());
        assert(rows.skip(0) =~= rows);
        if results_spec(rows) is Ok {
            assert(Seq::<MovieV>::empty() + results_spec(rows)->Ok_0 =~= results_spec(rows)->Ok_0);
        }
    } else {
        let rest = rows.drop_first();
        assert(rows.take(i)[0] == rows[0]);
        match result_spec(rows[0]) {
            Err(e) => {},
            Ok(m) => {
                lemma_results_spec_split(rest, i - 1);
                assert(rows.take(i).drop_first() =~= rest.take(i - 1));
                assert(rows.skip(i) =~= rest.skip(i - 1));
                match results_spec(rest.take(i - 1)) {
                    Err(e) => {},
                    Ok(ms) => {
                        match results_spec(rest.skip(i - 1)) {
                            Err(e) => {},
                            Ok(ns) => {
                                assert((seq![m] + ms) + ns =~= seq![m] + (ms + ns));
                            },
                        }
                    },
                }
            },
        }
    }
}

pub open spec fn results_view(v: Seq<MovieResult>) -> Seq<MovieV> {
    v.map_values(|m: MovieResult| m@)
}

/// Materializes a search result set: every row decoded in order; the first
/// failing row aborts the whole operation, discarding all progress.
pub fn search_from_rows(rows: &Vec<Row>) -> (r: Result<Vec<MovieResult>, DecodeError>)
    ensures
        match r {
            Ok(ms) => results_spec(rows@) == Ok::<_, DecodeErrorV>(results_view(ms@)),
            Err(e) => results_spec(rows@) == Err::<Seq<MovieV>, _>(e@),
        },
{
    let mut out: Vec<MovieResult> = Vec::new();
    proof {
        assert(rows@.take(0) =~= Seq::<Row>::empty());
        assert(results_view(out@) =~= Seq::<MovieV>::empty());
    }
    let mut i: usize = 0;
    while i < rows.len()
        invariant
            0 <= i <= rows@.len(),
            results_spec(rows@.take(i as int)) == Ok::<_, DecodeErrorV>(results_view(out@)),
        decreases rows@.len() - i,
    {
        match decode_result(&rows[i]) {
            Err(e) => {
                proof {
                    lemma_results_spec_split(rows@, i as int);
                    assert(rows@.skip(i as int)[0] == rows@[i as int]);
                }
                return Err(e);
            },
            Ok(m) => {
                let ghost prev = out@;
                let ghost mv = m@;
                out.push(m);
                proof {
                    lemma_results_spec_split(rows@.take(i as int + 1), i as int);
                    assert(rows@.take(i as int + 1).take(i as int) =~= rows@.take(i as int));
                    let tail = rows@.take(i as int + 1).skip(i as int);
                    assert(tail =~= seq![rows@[i as int]]);
                    assert(tail.drop_first() =~= Seq::<Row>::empty());
                    assert(results_spec(tail.drop_first()) == Ok::<_, DecodeErrorV>(
                        Seq::<MovieV>::empty(),
                    ));
                    assert(results_spec(tail) == Ok::<_, DecodeErrorV>(
                        seq![mv] + Seq::<MovieV>::empty(),
                    ));
                    assert(results_view(prev) + (seq![mv] + Seq::<MovieV>::empty())
                        =~= results_view(out@));
                }
            },
        }
        i += 1;
    }
    proof {
        assert(rows@.take(rows@.len() as int) =~= rows@);
    }
    Ok(out)
}

} // verus!
