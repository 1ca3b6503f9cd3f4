//! The row decoder: turns one opaque row (or one nested entity group) into
//! a populated entity record, or fails with the column name and the
//! expected type. Missing or null optional columns yield empty fields,
//! never an error; the first mismatching column (in field order) wins.

use vstd::prelude::*;
use crate::records::{Movie, MovieResult, MovieV, Person, PersonV, opt_strings_view, persons_view};
use crate::row::{CastEntry, DecodeError, DecodeErrorV, Expected, Row, Value, get_col, lookup};
use crate::text::{classifier, classify};

verus! {

pub open spec fn field_err(key: Seq<char>, expected: Expected) -> DecodeErrorV {
    DecodeErrorV { column: key, expected }
}

/// An optional string column: missing or null is an empty field.
pub open spec fn opt_str_spec(cols: Seq<(String, Value)>, key: Seq<char>) -> Result<
    Option<Seq<char>>,
    DecodeErrorV,
> {
    match lookup(cols, key) {
        None => Ok(None),
        Some(Value::Null) => Ok(None),
        Some(Value::Str(s)) => Ok(Some(s@)),
        Some(_) => Err(field_err(key, Expected::Str)),
    }
}

/// An optional unsigned scalar column read from a driver integer.
pub open spec fn opt_u32_spec(cols: Seq<(String, Value)>, key: Seq<char>) -> Result<
    Option<u32>,
    DecodeErrorV,
> {
    match lookup(cols, key) {
        None => Ok(None),
        Some(Value::Null) => Ok(None),
        Some(Value::Int(i)) => if 0 <= i <= u32::MAX {
            Ok(Some(i as u32))
        } else {
            Err(field_err(key, Expected::Int))
        },
        Some(_) => Err(field_err(key, Expected::Int)),
    }
}

/// An optional count column; accepted when it fits an unsigned 32-bit
/// count, stored as a machine-size integer.
pub open spec fn opt_count_spec(cols: Seq<(String, Value)>, key: Seq<char>) -> Result<
    Option<usize>,
    DecodeErrorV,
> {
    match lookup(cols, key) {
        None => Ok(None),
        Some(Value::Null) => Ok(None),
        Some(Value::Int(i)) => if 0 <= i <= u32::MAX {
            Ok(Some(i as usize))
        } else {
            Err(field_err(key, Expected::Int))
        },
        Some(_) => Err(field_err(key, Expected::Int)),
    }
}

/// One cast group: the name is required, the job classifier is derived
/// from the required relationship type, roles pass through unchanged.
pub open spec fn person_spec(e: CastEntry) -> Result<PersonV, DecodeErrorV> {
    match e.name {
        None => Err(field_err("cast"@, Expected::Str)),
        Some(n) => match e.rel {
            None => Err(field_err("cast"@, Expected::Str)),
            Some(rel) => Ok(
                PersonV { job: classifier(rel@), role: opt_strings_view(e.roles), name: n@ },
            ),
        },
    }
}

/// A whole cast column, first error winning.
pub open spec fn cast_spec(es: Seq<CastEntry>) -> Result<Seq<PersonV>, DecodeErrorV>
    decreases es.len(),
{
    if es.len() == 0 {
        Ok(Seq::empty())
    } else {
        match person_spec(es[0]) {
            Err(e) => Err(e),
            Ok(p) => match cast_spec(es.drop_first()) {
                Err(e) => Err(e),
                Ok(ps) => Ok(seq![p] + ps),
            },
        }
    }
}

/// Decoding a split list: the prefix decodes first, then the rest, and the
/// results concatenate.
pub proof fn lemma_cast_spec_split(es: Seq<CastEntry>, i: int)
    requires
        0 <= i <= es.len(),
    ensures
        cast_spec(es) == match cast_spec(es.take(i)) {
            Err(e) => Err(e),
            Ok(ps) => match cast_spec(es.skip(i)) {
                Err(e) => Err(e),
                Ok(qs) => Ok(ps + qs),
            },
        },
    decreases i,
{
    if i == 0 {
        assert(es.take(0) =~= Seq::<CastEntry>::empty());
        assert(es.skip(0) =~= es);
        if cast_spec(es) is Ok {
            assert(Seq::<PersonV>::empty() + cast_spec(es)->Ok_0 =~= cast_spec(es)->Ok_0);
        }
    } else {
        assert(es.len() > 0);
        let rest = es.drop_first();
        assert(es.take(i)[0] == es[0]);
        match person_spec(es[0]) {
            Err(e) => {},
            Ok(p) => {
                lemma_cast_spec_split(rest, i - 1);
                assert(es.take(i).drop_first() =~= rest.take(i - 1));
                assert(es.skip(i) =~= rest.skip(i - 1));
                match cast_spec(rest.take(i - 1)) {
                    Err(e) => {},
                    Ok(ps) => {
                        match cast_spec(rest.skip(i - 1)) {
                            Err(e) => {},
                            Ok(qs) => {
                                assert((seq![p] + ps) + qs =~= seq![p] + (ps + qs));
                            },
                        }
                    },
                }
            },
        }
    }
}

/// The cast column of a row: missing or null is an empty field; any other
/// value than a collected cast list is a mismatch.
pub open spec fn cast_col_spec(cols: Seq<(String, Value)>) -> Result<
    Option<Seq<PersonV>>,
    DecodeErrorV,
> {
    match lookup(cols, "cast"@) {
        None => Ok(None),
        Some(Value::Null) => Ok(None),
        Some(Value::Cast(es)) => match cast_spec(es@) {
            Err(e) => Err(e),
            Ok(ps) => Ok(Some(ps)),
        },
        Some(_) => Err(field_err("cast"@, Expected::Cast)),
    }
}

/// The entity record decoded from a column group, fields in order: title,
/// released, tagline, votes, cast; the first mismatch wins.
pub open spec fn movie_spec(cols: Seq<(String, Value)>) -> Result<MovieV, DecodeErrorV> {
    match opt_str_spec(cols, "title"@) {
        Err(e) => Err(e),
        Ok(title) => match opt_u32_spec(cols, "released"@) {
            Err(e) => Err(e),
            Ok(released) => match opt_str_spec(cols, "tagline"@) {
                Err(e) => Err(e),
                Ok(tagline) => match opt_count_spec(cols, "votes"@) {
                    Err(e) => Err(e),
                    Ok(votes) => match cast_col_spec(cols) {
                        Err(e) => Err(e),
                        Ok(cast) => Ok(MovieV { released, title, tagline, votes, cast }),
                    },
                },
            },
        },
    }
}

/// A search row: its `movie` column must hold an entity group, which is
/// decoded as an entity record.
pub open spec fn result_spec(row: Row) -> Result<MovieV, DecodeErrorV> {
    match lookup(row.cols@, "movie"@) {
        Some(Value::Entity(inner)) => movie_spec(inner@),
        _ => Err(field_err("movie"@, Expected::Entity)),
    }
}

/// A browse-stream row: a required primary name and a required (possibly
/// empty) collection of secondary names.
pub open spec fn browse_row_spec(cols: Seq<(String, Value)>) -> Result<
    crate::assemble::GRow,
    DecodeErrorV,
> {
    match lookup(cols, "movie"@) {
        Some(Value::Str(movie)) => match lookup(cols, "cast"@) {
            Some(Value::StrList(cast)) => Ok(
                crate::assemble::GRow {
                    movie: movie@,
                    cast: crate::records::strings_view(cast@),
                },
            ),
            _ => Err(field_err("cast"@, Expected::StrList)),
        },
        _ => Err(field_err("movie"@, Expected::Str)),
    }
}

/// A fetched optional row: absence decodes to the empty-field record, a
/// deliberate policy (no "not found" error).
pub open spec fn fetch_spec(row: Option<Row>) -> Result<MovieV, DecodeErrorV> {
    match row {
        None => Ok(
            MovieV { released: None, title: None, tagline: None, votes: None, cast: None },
        ),
        Some(r) => movie_spec(r.cols@),
    }
}

pub proof fn lemma_cast_spec_err_column(es: Seq<CastEntry>)
    ensures
        cast_spec(es) matches Err(e) ==> e.column == "cast"@,
    decreases es.len(),
{
    if es.len() != 0 {
        lemma_cast_spec_err_column(es.drop_first());
    }
}

/// A row lacking an optional column decodes with that field empty, never
/// with an error caused by the absence: a reported error always names a
/// column that is present, and a row lacking every column decodes to the
/// empty-field record.
pub proof fn lemma_missing_optional_empty(cols: Seq<(String, Value)>)
    ensures
        movie_spec(cols) matches Ok(m) ==> {
            &&& lookup(cols, "title"@) is None ==> m.title is None
            &&& lookup(cols, "released"@) is None ==> m.released is None
            &&& lookup(cols, "tagline"@) is None ==> m.tagline is None
            &&& lookup(cols, "votes"@) is None ==> m.votes is None
            &&& lookup(cols, "cast"@) is None ==> m.cast is None
        },
        movie_spec(cols) matches Err(e) ==> lookup(cols, e.column) is Some,
        lookup(cols, "title"@) is None && lookup(cols, "released"@) is None && lookup(
            cols,
            "tagline"@,
        ) is None && lookup(cols, "votes"@) is None && lookup(cols, "cast"@) is None
            ==> (movie_spec(cols) matches Ok(m) && m.is_empty_record()),
{
    if movie_spec(cols) is Err {
        match lookup(cols, "cast"@) {
            Some(Value::Cast(es)) => {
                lemma_cast_spec_err_column(es@);
            },
            _ => {},
        }
    }
}

pub open spec fn movie_res_view(r: Result<Movie, DecodeError>) -> Result<MovieV, DecodeErrorV> {
    match r {
        Ok(m) => Ok(m@),
        Err(e) => Err(e@),
    }
}

pub open spec fn person_res_view(r: Result<Person, DecodeError>) -> Result<PersonV, DecodeErrorV> {
    match r {
        Ok(p) => Ok(p@),
        Err(e) => Err(e@),
    }
}

fn clone_strings(v: &Vec<String>) -> (r: Vec<String>)
    ensures
        r@ == v@,
{
    let mut out: Vec<String> = Vec::new();
    let mut i: usize = 0;
    while i < v.len()
        invariant
            0 <= i <= v@.len(),
            out@ =~= v@.take(i as int),
        decreases v@.len() - i,
    {
        out.push(v[i].clone());
        proof {
            assert(out@ =~= v@.take(i as int + 1));
        }
        i += 1;
    }
    proof {
        assert(v@.take(v@.len() as int) =~= v@);
    }
    out
}

fn get_opt_str(cols: &Vec<(String, Value)>, key: &str) -> (r: Result<Option<String>, DecodeError>)
    ensures
        match r {
            Ok(o) => opt_str_spec(cols@, key@) == Ok::<_, DecodeErrorV>(
                crate::records::opt_string_view(o),
            ),
            Err(e) => opt_str_spec(cols@, key@) == Err::<Option<Seq<char>>, _>(e@),
        },
{
    match get_col(cols, key) {
        None => Ok(None),
        Some(Value::Null) => Ok(None),
        Some(Value::Str(s)) => Ok(Some(s.clone())),
        Some(_) => Err(DecodeError { column: key.to_owned(), expected: Expected::Str }),
    }
}

fn get_opt_u32(cols: &Vec<(String, Value)>, key: &str) -> (r: Result<Option<u32>, DecodeError>)
    ensures
        match r {
            Ok(o) => opt_u32_spec(cols@, key@) == Ok::<_, DecodeErrorV>(o),
            Err(e) => opt_u32_spec(cols@, key@) == Err::<Option<u32>, _>(e@),
        },
{
    match get_col(cols, key) {
        None => Ok(None),
        Some(Value::Null) => Ok(None),
        Some(Value::Int(i)) => {
            let i = *i;
            if 0 <= i && i <= u32::MAX as i64 {
                Ok(Some(i as u32))
            } else {
                Err(DecodeError { column: key.to_owned(), expected: Expected::Int })
            }
        },
        Some(_) => Err(DecodeError { column: key.to_owned(), expected: Expected::Int }),
    }
}

fn get_opt_count(cols: &Vec<(String, Value)>, key: &str) -> (r: Result<Option<usize>, DecodeError>)
    ensures
        match r {
            Ok(o) => opt_count_spec(cols@, key@) == Ok::<_, DecodeErrorV>(o),
            Err(e) => opt_count_spec(cols@, key@) == Err::<Option<usize>, _>(e@),
        },
{
    match get_col(cols, key) {
        None => Ok(None),
        Some(Value::Null) => Ok(None),
        Some(Value::Int(i)) => {
            let i = *i;
            if 0 <= i && i <= u32::MAX as i64 {
                Ok(Some(i as u32 as usize))
            } else {
                Err(DecodeError { column: key.to_owned(), expected: Expected::Int })
            }
        },
        Some(_) => Err(DecodeError { column: key.to_owned(), expected: Expected::Int }),
    }
}

/// Decodes one cast group into a person record.
pub fn decode_person(e: &CastEntry) -> (r: Result<Person, DecodeError>)
    ensures
        person_res_view(r) == person_spec(*e),
{
    let name = match &e.name {
        None => {
            return Err(DecodeError { column: "cast".to_owned(), expected: Expected::Str });
        },
        Some(n) => n.clone(),
    };
    let rel = match &e.rel {
        None => {
            return Err(DecodeError { column: "cast".to_owned(), expected: Expected::Str });
        },
        Some(rel) => rel,
    };
    let job = classify(rel.as_str());
    let role = match &e.roles {
        None => None,
        Some(v) => Some(clone_strings(v)),
    };
    Ok(Person { job, role, name })
}

fn decode_cast(es: &Vec<CastEntry>) -> (r: Result<Vec<Person>, DecodeError>)
    ensures
        match r {
            Ok(ps) => cast_spec(es@) == Ok::<_, DecodeErrorV>(persons_view(ps@)),
            Err(e) => cast_spec(es@) == Err::<Seq<PersonV>, _>(e@),
        },
{
    let mut out: Vec<Person> = Vec::new();
    proof {
        assert(es@.take(0) =~= Seq::<CastEntry>::empty());
        assert(persons_view(out@) =~= Seq::<PersonV>::empty());
    }
    let mut i: usize = 0;
    while i < es.len()
        invariant
            0 <= i <= es@.len(),
            cast_spec(es@.take(i as int)) == Ok::<_, DecodeErrorV>(persons_view(out@)),
        decreases es@.len() - i,
    {
        match decode_person(&es[i]) {
            Err(e) => {
                proof {
                    lemma_cast_spec_split(es@, i as int);
                    assert(es@.skip(i as int)[0] == es@[i as int]);
                }
                return Err(e);
            },
            Ok(p) => {
                let ghost prev = out@;
                let ghost pv = p@;
                out.push(p);
                proof {
                    lemma_cast_spec_split(es@.take(i as int + 1), i as int);
                    assert(es@.take(i as int + 1).take(i as int) =~= es@.take(i as int));
                    let tail = es@.take(i as int + 1).skip(i as int);
                    assert(tail =~= seq![es@[i as int]]);
                    assert(tail.drop_first() =~= Seq::<CastEntry>::empty());
                    assert(cast_spec(tail.drop_first()) == Ok::<_, DecodeErrorV>(
                        Seq::<PersonV>::empty(),
                    ));
                    assert(cast_spec(tail) == Ok::<_, DecodeErrorV>(
                        seq![pv] + Seq::<PersonV>::empty(),
                    ));
                    assert(persons_view(prev) + (seq![pv] + Seq::<PersonV>::empty())
                        =~= persons_view(out@));
                }
            },
        }
        i += 1;
    }
    proof {
        assert(es@.take(es@.len() as int) =~= es@);
    }
    Ok(out)
}

/// Decodes an entity record from a column group.
pub fn decode_movie_cols(cols: &Vec<(String, Value)>) -> (r: Result<Movie, DecodeError>)
    ensures
        movie_res_view(r) == movie_spec(cols@),
{
    let title = match get_opt_str(cols, "title") {
        Ok(t) => t,
        Err(e) => {
            return Err(e);
        },
    };
    let released = match get_opt_u32(cols, "released") {
        Ok(v) => v,
        Err(e) => {
            return Err(e);
        },
    };
    let tagline = match get_opt_str(cols, "tagline") {
        Ok(t) => t,
        Err(e) => {
            return Err(e);
        },
    };
    let votes = match get_opt_count(cols, "votes") {
        Ok(v) => v,
        Err(e) => {
            return Err(e);
        },
    };
    let cast = match get_col(cols, "cast") {
        None => None,
        Some(Value::Null) => None,
        Some(Value::Cast(es)) => match decode_cast(es) {
            Ok(ps) => Some(ps),
            Err(e) => {
                return Err(e);
            },
        },
        Some(_) => {
            return Err(DecodeError { column: "cast".to_owned(), expected: Expected::Cast });
        },
    };
    Ok(Movie { released, title, tagline, votes, cast })
}

/// Decodes one whole row as an entity record.
pub fn decode_movie(row: &Row) -> (r: Result<Movie, DecodeError>)
    ensures
        movie_res_view(r) == movie_spec(row.cols@),
{
    decode_movie_cols(&row.cols)
}

/// Decodes one search row: the wrapped entity under its `movie` column.
pub fn decode_result(row: &Row) -> (r: Result<MovieResult, DecodeError>)
    ensures
        match r {
            Ok(m) => result_spec(*row) == Ok::<_, DecodeErrorV>(m@),
            Err(e) => result_spec(*row) == Err::<MovieV, _>(e@),
        },
{
    match row.get("movie") {
        Some(Value::Entity(inner)) => match decode_movie_cols(inner) {
            Ok(m) => Ok(MovieResult { movie: m }),
            Err(e) => Err(e),
        },
        _ => Err(DecodeError { column: "movie".to_owned(), expected: Expected::Entity }),
    }
}

/// Decodes one browse-stream row into an assembler input row.
pub fn decode_browse_row(row: &Row) -> (r: Result<crate::assemble::GraphRow, DecodeError>)
    ensures
        match r {
            Ok(g) => browse_row_spec(row.cols@) == Ok::<_, DecodeErrorV>(g@),
            Err(e) => browse_row_spec(row.cols@) == Err::<crate::assemble::GRow, _>(e@),
        },
{
    let movie = match row.get("movie") {
        Some(Value::Str(s)) => s.clone(),
        _ => {
            return Err(DecodeError { column: "movie".to_owned(), expected: Expected::Str });
        },
    };
    match row.get("cast") {
        Some(Value::StrList(v)) => Ok(
            crate::assemble::GraphRow { movie, cast: clone_strings(v) },
        ),
        _ => Err(DecodeError { column: "cast".to_owned(), expected: Expected::StrList }),
    }
}

/// Decodes an optional fetched row; a missing row yields the empty-field
/// record, never an error.
pub fn movie_from_row(row: &Option<Row>) -> (r: Result<Movie, DecodeError>)
    ensures
        movie_res_view(r) == fetch_spec(*row),
        row is None ==> (r matches Ok(m) && m@.is_empty_record()),
{
    match row {
        None => Ok(Movie::default()),
        Some(r) => decode_movie(r),
    }
}

} // verus!
