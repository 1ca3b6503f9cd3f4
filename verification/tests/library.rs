use movies_graph::assemble::{assemble, GraphAssembler, GraphRow, Label};
use movies_graph::decode::{
    decode_browse_row, decode_movie, decode_movie_cols, decode_person, movie_from_row,
};
use movies_graph::records::Voted;
use movies_graph::row::{CastEntry, Expected, Row, Value};
use movies_graph::service::{
    graph_query, movie_query, search_from_rows, search_query, vote_query, vote_result, Param,
    FIND_MOVIE, GRAPH, SEARCH_MOVIES, VOTE_IN_MOVIE,
};
use movies_graph::text::{classify, title_matches};

fn row(cols: Vec<(&str, Value)>) -> Row {
    Row { cols: cols.into_iter().map(|(k, v)| (k.to_owned(), v)).collect() }
}

fn graph_row(movie: &str, cast: &[&str]) -> GraphRow {
    GraphRow {
        movie: movie.to_owned(),
        cast: cast.iter().map(|s| (*s).to_owned()).collect(),
    }
}

#[test]
fn classifier_examples() {
    assert_eq!(classify("DIRECTED_BY"), "directed");
    assert_eq!(classify("ACTED_IN"), "acted");
    assert_eq!(classify("WROTE"), "wrote");
    assert_eq!(classify(""), "");
}

#[test]
fn assemble_two_rows_example() {
    let rows = vec![graph_row("M1", &["A", "B"]), graph_row("M2", &["B"])];
    let r = assemble(&rows);

    assert_eq!(r.nodes.len(), 4);
    assert_eq!(r.nodes[0].title, "M1");
    assert_eq!(r.nodes[0].label, Label::Movie);
    assert_eq!(r.nodes[1].title, "A");
    assert_eq!(r.nodes[1].label, Label::Actor);
    assert_eq!(r.nodes[2].title, "B");
    assert_eq!(r.nodes[2].label, Label::Actor);
    assert_eq!(r.nodes[3].title, "M2");
    assert_eq!(r.nodes[3].label, Label::Movie);

    assert_eq!(r.links.len(), 3);
    assert_eq!((r.links[0].source, r.links[0].target), (1, 0));
    assert_eq!((r.links[1].source, r.links[1].target), (2, 0));
    assert_eq!((r.links[2].source, r.links[2].target), (2, 3));
}

#[test]
fn assemble_shared_name_single_node() {
    let rows = vec![graph_row("M1", &["X"]), graph_row("M2", &["X"])];
    let r = assemble(&rows);
    let actor_count = r.nodes.iter().filter(|n| n.label == Label::Actor).count();
    assert_eq!(actor_count, 1);
    assert_eq!(r.links[0].source, r.links[1].source);
}

#[test]
fn assemble_counts() {
    // 3 rows, 4 distinct names, 5 cast occurrences.
    let rows = vec![
        graph_row("M1", &["A", "B"]),
        graph_row("M2", &["B", "C"]),
        graph_row("M3", &["D"]),
    ];
    let r = assemble(&rows);
    assert_eq!(r.nodes.len(), 3 + 4);
    assert_eq!(r.links.len(), 5);
}

#[test]
fn assemble_duplicate_movie_titles_not_deduplicated() {
    let rows = vec![graph_row("Same", &[]), graph_row("Same", &[])];
    let r = assemble(&rows);
    assert_eq!(r.nodes.len(), 2);
    assert_eq!(r.links.len(), 0);
}

#[test]
fn assemble_duplicate_name_within_row_links_twice() {
    let rows = vec![graph_row("M", &["A", "A"])];
    let r = assemble(&rows);
    assert_eq!(r.nodes.len(), 2);
    assert_eq!(r.links.len(), 2);
    assert_eq!(r.links[0].source, r.links[1].source);
}

#[test]
fn assemble_empty_stream() {
    let r = assemble(&Vec::new());
    assert!(r.nodes.is_empty());
    assert!(r.links.is_empty());
}

#[test]
fn assembler_streaming_matches_batch() {
    let rows = vec![graph_row("M1", &["A"]), graph_row("M2", &["A", "B"])];
    let mut a = GraphAssembler::new();
    for r in &rows {
        a.push_row(r);
    }
    let streamed = a.finish();
    let batched = assemble(&rows);
    assert_eq!(streamed.nodes.len(), batched.nodes.len());
    assert_eq!(streamed.links.len(), batched.links.len());
    for (x, y) in streamed.links.iter().zip(batched.links.iter()) {
        assert_eq!(x, y);
    }
}

#[test]
fn decode_missing_optional_column_is_empty() {
    let r = row(vec![(
        "title",
        Value::Str("The Matrix".to_owned()),
    )]);
    let m = decode_movie(&r).unwrap();
    assert_eq!(m.title.as_deref(), Some("The Matrix"));
    assert!(m.released.is_none());
    assert!(m.tagline.is_none());
    assert!(m.votes.is_none());
    assert!(m.cast.is_none());
}

#[test]
fn decode_null_optional_column_is_empty() {
    let r = row(vec![("title", Value::Null), ("cast", Value::Null)]);
    let m = decode_movie(&r).unwrap();
    assert!(m.title.is_none());
    assert!(m.cast.is_none());
}

#[test]
fn fetch_without_row_yields_default_record() {
    let m = movie_from_row(&None).unwrap();
    assert!(m.title.is_none());
    assert!(m.released.is_none());
    assert!(m.tagline.is_none());
    assert!(m.votes.is_none());
    assert!(m.cast.is_none());
}

#[test]
fn decode_full_row_with_cast() {
    let cast = vec![
        CastEntry {
            name: Some("Keanu Reeves".to_owned()),
            rel: Some("ACTED_IN".to_owned()),
            roles: Some(vec!["Neo".to_owned()]),
        },
        CastEntry {
            name: Some("Lana Wachowski".to_owned()),
            rel: Some("DIRECTED_BY".to_owned()),
            roles: None,
        },
    ];
    let r = row(vec![
        ("title", Value::Str("The Matrix".to_owned())),
        ("released", Value::Int(1999)),
        ("tagline", Value::Str("Welcome to the Real World".to_owned())),
        ("votes", Value::Int(345)),
        ("cast", Value::Cast(cast)),
    ]);
    let m = decode_movie(&r).unwrap();
    assert_eq!(m.released, Some(1999));
    assert_eq!(m.votes, Some(345));
    let people = m.cast.unwrap();
    assert_eq!(people.len(), 2);
    assert_eq!(people[0].name, "Keanu Reeves");
    assert_eq!(people[0].job, "acted");
    assert_eq!(people[0].role.as_deref(), Some(&["Neo".to_owned()][..]));
    assert_eq!(people[1].name, "Lana Wachowski");
    assert_eq!(people[1].job, "directed");
    assert!(people[1].role.is_none());
}

#[test]
fn decode_wrong_title_type_fails() {
    let r = row(vec![("title", Value::Int(7))]);
    let e = decode_movie(&r).unwrap_err();
    assert_eq!(e.column, "title");
    assert_eq!(e.expected, Expected::Str);
}

#[test]
fn decode_wrong_released_type_fails() {
    let r = row(vec![("released", Value::Str("x".to_owned()))]);
    let e = decode_movie(&r).unwrap_err();
    assert_eq!(e.column, "released");
    assert_eq!(e.expected, Expected::Int);
}

#[test]
fn decode_out_of_range_votes_fails() {
    let r = row(vec![("votes", Value::Int(-1))]);
    let e = decode_movie(&r).unwrap_err();
    assert_eq!(e.column, "votes");
    assert_eq!(e.expected, Expected::Int);
}

#[test]
fn decode_wrong_cast_type_fails() {
    let r = row(vec![("cast", Value::Str("nope".to_owned()))]);
    let e = decode_movie(&r).unwrap_err();
    assert_eq!(e.column, "cast");
    assert_eq!(e.expected, Expected::Cast);
}

#[test]
fn decode_cast_entry_without_name_fails() {
    let cast = vec![CastEntry { name: None, rel: Some("ACTED_IN".to_owned()), roles: None }];
    let r = row(vec![("cast", Value::Cast(cast))]);
    let e = decode_movie(&r).unwrap_err();
    assert_eq!(e.column, "cast");
    assert_eq!(e.expected, Expected::Str);
}

#[test]
fn decode_person_derives_job() {
    let e = CastEntry {
        name: Some("Carrie-Anne Moss".to_owned()),
        rel: Some("ACTED_IN".to_owned()),
        roles: Some(vec!["Trinity".to_owned()]),
    };
    let p = decode_person(&e).unwrap();
    assert_eq!(p.job, "acted");
    assert_eq!(p.name, "Carrie-Anne Moss");
}

#[test]
fn decode_movie_cols_direct() {
    let cols = vec![("tagline".to_owned(), Value::Str("Free your mind".to_owned()))];
    let m = decode_movie_cols(&cols).unwrap();
    assert_eq!(m.tagline.as_deref(), Some("Free your mind"));
}

#[test]
fn search_rows_decode_in_order() {
    let r1 = Row {
        cols: vec![(
            "movie".to_owned(),
            Value::Entity(vec![("title".to_owned(), Value::Str("M1".to_owned()))]),
        )],
    };
    let r2 = Row {
        cols: vec![(
            "movie".to_owned(),
            Value::Entity(vec![("title".to_owned(), Value::Str("M2".to_owned()))]),
        )],
    };
    let out = search_from_rows(&vec![r1, r2]).unwrap();
    assert_eq!(out.len(), 2);
    assert_eq!(out[0].movie.title.as_deref(), Some("M1"));
    assert_eq!(out[1].movie.title.as_deref(), Some("M2"));
}

#[test]
fn search_row_without_entity_fails() {
    let good = Row {
        cols: vec![(
            "movie".to_owned(),
            Value::Entity(vec![("title".to_owned(), Value::Str("M1".to_owned()))]),
        )],
    };
    let bad = Row { cols: vec![("movie".to_owned(), Value::Int(3))] };
    let e = search_from_rows(&vec![good, bad]).unwrap_err();
    assert_eq!(e.column, "movie");
    assert_eq!(e.expected, Expected::Entity);
}

#[test]
fn decode_browse_row_round_trip() {
    let r = row(vec![
        ("movie", Value::Str("M1".to_owned())),
        ("cast", Value::StrList(vec!["A".to_owned(), "B".to_owned()])),
    ]);
    let g = decode_browse_row(&r).unwrap();
    assert_eq!(g.movie, "M1");
    assert_eq!(g.cast, vec!["A".to_owned(), "B".to_owned()]);
}

#[test]
fn decode_browse_row_requires_movie_name() {
    let r = row(vec![("cast", Value::StrList(vec![]))]);
    let e = decode_browse_row(&r).unwrap_err();
    assert_eq!(e.column, "movie");
    assert_eq!(e.expected, Expected::Str);
}

#[test]
fn decode_browse_row_requires_cast_list() {
    let r = row(vec![
        ("movie", Value::Str("M1".to_owned())),
        ("cast", Value::Str("not a list".to_owned())),
    ]);
    let e = decode_browse_row(&r).unwrap_err();
    assert_eq!(e.column, "cast");
    assert_eq!(e.expected, Expected::StrList);
}

#[test]
fn vote_reports_one_each_call() {
    let first = vote_result();
    let second = vote_result();
    assert_eq!(first, Voted { updates: 1 });
    assert_eq!(second, Voted { updates: 1 });
    assert_eq!(first.updates + second.updates, 2);
}

#[test]
fn empty_fragment_matches_every_title() {
    assert!(title_matches("The Matrix", ""));
    assert!(title_matches("", ""));
    assert!(title_matches("anything at all", ""));
}

#[test]
fn title_match_is_case_insensitive_substring() {
    assert!(title_matches("The Matrix Reloaded", "matrix"));
    assert!(title_matches("THE MATRIX", "the mat"));
    assert!(title_matches("Cloud Atlas", "ATLAS"));
    assert!(!title_matches("Cloud Atlas", "matrix"));
    assert!(!title_matches("", "x"));
}

#[test]
fn query_builders_bind_named_parameters() {
    let q = movie_query("The Matrix".to_owned());
    assert_eq!(q.text, FIND_MOVIE);
    assert_eq!(q.params.len(), 1);
    assert_eq!(q.params[0].0, "title");
    assert!(matches!(&q.params[0].1, Param::Str(s) if s == "The Matrix"));

    let q = vote_query("The Matrix".to_owned());
    assert_eq!(q.text, VOTE_IN_MOVIE);
    assert_eq!(q.params[0].0, "title");

    let q = search_query("mat".to_owned());
    assert_eq!(q.text, SEARCH_MOVIES);
    assert_eq!(q.params[0].0, "part");
    assert!(matches!(&q.params[0].1, Param::Str(s) if s == "mat"));
}

#[test]
fn graph_query_defaults_limit_to_100() {
    let q = graph_query(None);
    assert_eq!(q.text, GRAPH);
    assert_eq!(q.params[0].0, "limit");
    assert!(matches!(q.params[0].1, Param::Int(100)));

    let q = graph_query(Some(7));
    assert!(matches!(q.params[0].1, Param::Int(7)));
}
