//! Graph assembly: consumes (primary, secondary-collection) rows and builds
//! a deduplicated, index-addressed node list plus a link list.
//!
//! Each row appends one fresh movie node (primaries are never deduplicated);
//! each secondary name is deduplicated case-sensitively through a
//! name-to-index map scoped to one assembly. Links pair a secondary node
//! index (source) with the row's movie node index (target). The structure is
//! append-only: no row mutates a previously emitted node or link.

use vstd::prelude::*;
use crate::text::str_eq;

verus! {

/// Node kind: the primary entity of a row, or a secondary participant.
#[derive(Clone, Copy, Debug, PartialEq, Eq, Structural)]
pub enum Label {
    Movie,
    Actor,
}

/// One visualization node; its position in the node list is its identity.
#[derive(Clone, Debug)]
pub struct Node {
    pub title: String,
    pub label: Label,
}

/// One directed link between node indices: `source` participates in `target`.
#[derive(Clone, Copy, Debug, PartialEq, Eq, Structural)]
pub struct Link {
    pub source: usize,
    pub target: usize,
}

/// One input row of the browse stream: a primary name and the ordered
/// secondary names that participate in it.
#[derive(Clone, Debug)]
pub struct GraphRow {
    pub movie: String,
    pub cast: Vec<String>,
}

/// The assembled subgraph handed back to the caller.
#[derive(Clone, Debug)]
pub struct BrowseResponse {
    pub nodes: Vec<Node>,
    pub links: Vec<Link>,
}

/// Mathematical image of a node.
pub struct GNode {
    pub title: Seq<char>,
    pub label: Label,
}

/// Mathematical image of a link, over unbounded indices.
pub struct GLink {
    pub source: int,
    pub target: int,
}

impl View for Node {
    type V = GNode;

    open spec fn view(&self) -> GNode {
        GNode { title: self.title@, label: self.label }
    }
}

impl View for Link {
    type V = GLink;

    open spec fn view(&self) -> GLink {
        GLink { source: self.source as int, target: self.target as int }
    }
}

/// Mathematical image of a row.
pub struct GRow {
    pub movie: Seq<char>,
    pub cast: Seq<Seq<char>>,
}

impl View for GraphRow {
    type V = GRow;

    open spec fn view(&self) -> GRow {
        GRow { movie: self.movie@, cast: crate::records::strings_view(self.cast@) }
    }
}

pub open spec fn rows_view(rows: Seq<GraphRow>) -> Seq<GRow> {
    rows.map_values(|r: GraphRow| r@)
}

/// Assembly state: the nodes and links emitted so far, plus the
/// name-to-index deduplication map for secondary names.
#[verifier::ext_equal]
pub struct GState {
    pub nodes: Seq<GNode>,
    pub links: Seq<GLink>,
    pub index: Map<Seq<char>, int>,
}

pub open spec fn init_state() -> GState {
    GState { nodes: Seq::empty(), links: Seq::empty(), index: Map::empty() }
}

/// One secondary name: reuse its node when the name was seen before,
/// otherwise append a fresh actor node and record it; either way append
/// one link to the row's movie node.
pub open spec fn push_actor(st: GState, name: Seq<char>, target: int) -> GState {
    if st.index.dom().contains(name) {
        GState {
            nodes: st.nodes,
            links: st.links.push(GLink { source: st.index[name], target }),
            index: st.index,
        }
    } else {
        GState {
            nodes: st.nodes.push(GNode { title: name, label: Label::Actor }),
            links: st.links.push(GLink { source: st.nodes.len() as int, target }),
            index: st.index.insert(name, st.nodes.len() as int),
        }
    }
}

pub open spec fn push_cast(st: GState, cast: Seq<Seq<char>>, target: int) -> GState
    decreases cast.len(),
{
    if cast.len() == 0 {
        st
    } else {
        push_cast(push_actor(st, cast[0], target), cast.drop_first(), target)
    }
}

/// A fresh movie node for a row's primary name: never deduplicated.
pub open spec fn with_movie(st: GState, title: Seq<char>) -> GState {
    GState {
        nodes: st.nodes.push(GNode { title, label: Label::Movie }),
        links: st.links,
        index: st.index,
    }
}

pub open spec fn push_row_s(st: GState, row: GRow) -> GState {
    push_cast(with_movie(st, row.movie), row.cast, st.nodes.len() as int)
}

pub open spec fn push_rows(st: GState, rows: Seq<GRow>) -> GState
    decreases rows.len(),
{
    if rows.len() == 0 {
        st
    } else {
        push_rows(push_row_s(st, rows[0]), rows.drop_first())
    }
}

/// The subgraph assembled from a whole row sequence, starting empty.
pub open spec fn assembled(rows: Seq<GRow>) -> GState {
    push_rows(init_state(), rows)
}

/// The set of secondary names of one row.
pub open spec fn cast_names(cast: Seq<Seq<char>>) -> Set<Seq<char>>
    decreases cast.len(),
{
    if cast.len() == 0 {
        Set::empty()
    } else {
        cast_names(cast.drop_first()).insert(cast[0])
    }
}

/// The set of distinct secondary names across all rows.
pub open spec fn all_names(rows: Seq<GRow>) -> Set<Seq<char>>
    decreases rows.len(),
{
    if rows.len() == 0 {
        Set::empty()
    } else {
        cast_names(rows[0].cast).union(all_names(rows.drop_first()))
    }
}

/// The sum of secondary-collection lengths across all rows.
pub open spec fn total_cast(rows: Seq<GRow>) -> int
    decreases rows.len(),
{
    if rows.len() == 0 {
        0
    } else {
        rows[0].cast.len() + total_cast(rows.drop_first())
    }
}

/// A link is sound for a state: both endpoints exist, the source is the
/// actor node registered in the map under its name, the target is a movie.
pub open spec fn link_ok(st: GState, l: GLink) -> bool {
    &&& 0 <= l.source < st.nodes.len()
    &&& 0 <= l.target < st.nodes.len()
    &&& st.nodes[l.source].label == Label::Actor
    &&& st.index.dom().contains(st.nodes[l.source].title)
    &&& st.index[st.nodes[l.source].title] == l.source
    &&& st.nodes[l.target].label == Label::Movie
}

/// State invariant: the map registers exactly the actor nodes, one per name,
/// and every link is sound.
pub open spec fn st_inv(st: GState) -> bool {
    &&& st.index.dom().finite()
    &&& forall|n: Seq<char>| #[trigger] st.index.dom().contains(n) ==> {
        &&& 0 <= st.index[n] < st.nodes.len()
        &&& st.nodes[st.index[n]].title == n
        &&& st.nodes[st.index[n]].label == Label::Actor
    }
    &&& forall|i: int|
        0 <= i < st.nodes.len() && (#[trigger] st.nodes[i]).label == Label::Actor
            ==> st.index.dom().contains(st.nodes[i].title) && st.index[st.nodes[i].title] == i
    &&& forall|k: int| 0 <= k < st.links.len() ==> link_ok(st, #[trigger] st.links[k])
}

/// `post` keeps every node and every map entry of `pre` unchanged.
pub open spec fn extends(post: GState, pre: GState) -> bool {
    &&& pre.nodes.len() <= post.nodes.len()
    &&& forall|i: int| 0 <= i < pre.nodes.len() ==> #[trigger] post.nodes[i] == pre.nodes[i]
    &&& forall|n: Seq<char>|
        #[trigger] pre.index.dom().contains(n) ==> post.index.dom().contains(n)
            && post.index[n] == pre.index[n]
}

pub proof fn lemma_push_actor(st: GState, name: Seq<char>, target: int)
    requires
        st_inv(st),
        0 <= target < st.nodes.len(),
        st.nodes[target].label == Label::Movie,
    ensures
        st_inv(push_actor(st, name, target)),
        extends(push_actor(st, name, target), st),
        push_actor(st, name, target).index.dom() =~= st.index.dom().insert(name),
        push_actor(st, name, target).links.len() == st.links.len() + 1,
        push_actor(st, name, target).nodes.len() - push_actor(st, name, target).index.dom().len()
            == st.nodes.len() - st.index.dom().len(),
{
    let r = push_actor(st, name, target);
    vstd::set::axiom_set_insert_len(st.index.dom(), name);
    if st.index.dom().contains(name) {
        assert(r.index.dom() =~= st.index.dom().insert(name));
        assert(st.index.dom().insert(name) =~= st.index.dom());
        assert forall|k: int| 0 <= k < r.links.len() implies link_ok(r, #[trigger] r.links[k]) by {
            if k < st.links.len() {
                assert(link_ok(st, st.links[k]));
            }
        }
    } else {
        let n0 = st.nodes.len() as int;
        assert forall|n: Seq<char>| #[trigger] r.index.dom().contains(n) implies {
            &&& 0 <= r.index[n] < r.nodes.len()
            &&& r.nodes[r.index[n]].title == n
            &&& r.nodes[r.index[n]].label == Label::Actor
        } by {
            if n != name {
                assert(st.index.dom().contains(n));
                assert(r.nodes[st.index[n]] == st.nodes[st.index[n]]);
            }
        }
        assert forall|i: int|
            0 <= i < r.nodes.len() && (#[trigger] r.nodes[i]).label == Label::Actor implies
            r.index.dom().contains(r.nodes[i].title) && r.index[r.nodes[i].title] == i by {
            if i < st.nodes.len() {
                assert(r.nodes[i] == st.nodes[i]);
                assert(st.index.dom().contains(st.nodes[i].title));
                assert(st.nodes[i].title != name);
            }
        }
        assert forall|k: int| 0 <= k < r.links.len() implies link_ok(r, #[trigger] r.links[k]) by {
            if k < st.links.len() {
                let l = st.links[k];
                assert(link_ok(st, l));
                assert(r.nodes[l.source] == st.nodes[l.source]);
                assert(r.nodes[l.target] == st.nodes[l.target]);
                assert(st.nodes[l.source].title != name);
            } else {
                assert(r.links[k] == GLink { source: n0, target });
                assert(r.nodes[target] == st.nodes[target]);
            }
        }
    }
}

pub proof fn lemma_push_cast(st: GState, cast: Seq<Seq<char>>, target: int)
    requires
        st_inv(st),
        0 <= target < st.nodes.len(),
        st.nodes[target].label == Label::Movie,
    ensures
        st_inv(push_cast(st, cast, target)),
        extends(push_cast(st, cast, target), st),
        push_cast(st, cast, target).index.dom() =~= st.index.dom().union(cast_names(cast)),
        push_cast(st, cast, target).links.len() == st.links.len() + cast.len(),
        push_cast(st, cast, target).nodes.len() - push_cast(st, cast, target).index.dom().len()
            == st.nodes.len() - st.index.dom().len(),
    decreases cast.len(),
{
    let r = push_cast(st, cast, target);
    if cast.len() == 0 {
        assert(r.index.dom() =~= st.index.dom().union(cast_names(cast)));
    } else {
        let st1 = push_actor(st, cast[0], target);
        lemma_push_actor(st, cast[0], target);
        assert(st1.nodes[target] == st.nodes[target]);
        lemma_push_cast(st1, cast.drop_first(), target);
        assert(r.index.dom() =~= st1.index.dom().union(cast_names(cast.drop_first())));
        assert(r.index.dom() =~= st.index.dom().union(cast_names(cast)));
    }
}

pub proof fn lemma_push_row(st: GState, row: GRow)
    requires
        st_inv(st),
    ensures
        st_inv(push_row_s(st, row)),
        extends(push_row_s(st, row), st),
        push_row_s(st, row).index.dom() =~= st.index.dom().union(cast_names(row.cast)),
        push_row_s(st, row).links.len() == st.links.len() + row.cast.len(),
        push_row_s(st, row).nodes.len() - push_row_s(st, row).index.dom().len() == st.nodes.len()
            - st.index.dom().len() + 1,
{
    let st1 = with_movie(st, row.movie);
    let target = st.nodes.len() as int;
    lemma_with_movie(st, row.movie);
    lemma_push_cast(st1, row.cast, target);
}

pub proof fn lemma_with_movie(st: GState, title: Seq<char>)
    requires
        st_inv(st),
    ensures
        st_inv(with_movie(st, title)),
        extends(with_movie(st, title), st),
        with_movie(st, title).nodes.len() == st.nodes.len() + 1,
        with_movie(st, title).nodes[st.nodes.len() as int].label == Label::Movie,
{
    let r = with_movie(st, title);
    assert forall|n: Seq<char>| #[trigger] r.index.dom().contains(n) implies {
        &&& 0 <= r.index[n] < r.nodes.len()
        &&& r.nodes[r.index[n]].title == n
        &&& r.nodes[r.index[n]].label == Label::Actor
    } by {
        assert(r.nodes[st.index[n]] == st.nodes[st.index[n]]);
    }
    assert forall|i: int|
        0 <= i < r.nodes.len() && (#[trigger] r.nodes[i]).label == Label::Actor implies
        r.index.dom().contains(r.nodes[i].title) && r.index[r.nodes[i].title] == i by {
        assert(i < st.nodes.len());
        assert(r.nodes[i] == st.nodes[i]);
    }
    assert forall|k: int| 0 <= k < r.links.len() implies link_ok(r, #[trigger] r.links[k]) by {
        let l = st.links[k];
        assert(link_ok(st, l));
        assert(r.nodes[l.source] == st.nodes[l.source]);
        assert(r.nodes[l.target] == st.nodes[l.target]);
    }
}

pub proof fn lemma_push_rows(st: GState, rows: Seq<GRow>)
    requires
        st_inv(st),
    ensures
        st_inv(push_rows(st, rows)),
        extends(push_rows(st, rows), st),
        push_rows(st, rows).index.dom() =~= st.index.dom().union(all_names(rows)),
        push_rows(st, rows).links.len() == st.links.len() + total_cast(rows),
        push_rows(st, rows).nodes.len() - push_rows(st, rows).index.dom().len() == st.nodes.len()
            - st.index.dom().len() + rows.len(),
    decreases rows.len(),
{
    let r = push_rows(st, rows);
    if rows.len() == 0 {
        assert(r.index.dom() =~= st.index.dom().union(all_names(rows)));
    } else {
        let st1 = push_row_s(st, rows[0]);
        lemma_push_row(st, rows[0]);
        lemma_push_rows(st1, rows.drop_first());
        assert(r.index.dom() =~= st.index.dom().union(all_names(rows)));
    }
}

/// Counting law: the assembled node count is the row count plus the number
/// of distinct secondary names, and the link count is the sum of the
/// secondary-collection lengths.
pub proof fn lemma_assembled_counts(rows: Seq<GRow>)
    ensures
        st_inv(assembled(rows)),
        assembled(rows).index.dom() =~= all_names(rows),
        assembled(rows).nodes.len() == rows.len() + all_names(rows).len(),
        assembled(rows).links.len() == total_cast(rows),
{
    lemma_push_rows(init_state(), rows);
    assert(init_state().index.dom().union(all_names(rows)) =~= all_names(rows));
    broadcast use vstd::set::axiom_set_empty_len;
}

/// Deduplication law: one actor node per name, and every link joins the
/// registered actor node carrying its name (source) to a movie node
/// (target), both indices in range.
pub proof fn lemma_assembled_dedup(rows: Seq<GRow>)
    ensures
        forall|i: int, j: int|
            0 <= i < assembled(rows).nodes.len() && 0 <= j < assembled(rows).nodes.len() && i != j
                && (#[trigger] assembled(rows).nodes[i]).label == Label::Actor
                && (#[trigger] assembled(rows).nodes[j]).label == Label::Actor
                ==> assembled(rows).nodes[i].title != assembled(rows).nodes[j].title,
        forall|k: int|
            0 <= k < assembled(rows).links.len() ==> link_ok(
                assembled(rows),
                #[trigger] assembled(rows).links[k],
            ),
{
    lemma_push_rows(init_state(), rows);
}

/// The assembler: append-only node and link lists plus the transient
/// deduplication index, scoped to one browse invocation.
pub struct GraphAssembler {
    nodes: Vec<Node>,
    links: Vec<Link>,
    names: Vec<String>,
    ids: Vec<usize>,
    index: Ghost<Map<Seq<char>, int>>,
}

/// Every link of a response addresses existing nodes.
pub open spec fn response_wf(r: BrowseResponse) -> bool {
    forall|k: int|
        0 <= k < r.links@.len() ==> (#[trigger] r.links@[k]).source < r.nodes@.len()
            && r.links@[k].target < r.nodes@.len()
}

impl GraphAssembler {
    /// The mathematical state this assembler has reached.
    pub closed spec fn model(self) -> GState {
        GState {
            nodes: self.nodes@.map_values(|n: Node| n@),
            links: self.links@.map_values(|l: Link| l@),
            index: self.index@,
        }
    }

    pub closed spec fn wf(self) -> bool {
        &&& self.names@.len() == self.ids@.len()
        &&& forall|k: int|
            0 <= k < self.names@.len() ==> self.index@.dom().contains(
                (#[trigger] self.names@[k])@,
            ) && self.index@[self.names@[k]@] == self.ids@[k] as int
        &&& forall|n: Seq<char>|
            #[trigger] self.index@.dom().contains(n) ==> exists|k: int|
                0 <= k < self.names@.len() && (#[trigger] self.names@[k])@ == n
        &&& st_inv(self.model())
    }

    /// A fresh, empty assembler.
    pub fn new() -> (a: GraphAssembler)
        ensures
            a.wf(),
            a.model() == init_state(),
    {
        let a = GraphAssembler {
            nodes: Vec::new(),
            links: Vec::new(),
            names: Vec::new(),
            ids: Vec::new(),
            index: Ghost(Map::empty()),
        };
        proof {
            assert(a.model().nodes =~= init_state().nodes);
            assert(a.model().links =~= init_state().links);
            assert(a.model() =~= init_state());
        }
        a
    }

    fn find_name(&self, name: &str) -> (r: Option<usize>)
        requires
            self.wf(),
        ensures
            match r {
                Some(id) => self.model().index.dom().contains(name@) && self.model().index[name@]
                    == id as int,
                None => !self.model().index.dom().contains(name@),
            },
    {
        let mut k: usize = 0;
        while k < self.names.len()
            invariant
                self.wf(),
                0 <= k <= self.names@.len(),
                forall|j: int| 0 <= j < k ==> (#[trigger] self.names@[j])@ != name@,
            decreases self.names@.len() - k,
        {
            if str_eq(self.names[k].as_str(), name) {
                return Some(self.ids[k]);
            }
            k += 1;
        }
        proof {
            if self.index@.dom().contains(name@) {
                let j = choose|j: int|
                    0 <= j < self.names@.len() && (#[trigger] self.names@[j])@ == name@;
                assert(false);
            }
        }
        None
    }

    /// Consumes one row: appends a fresh movie node, then one link per
    /// secondary name, deduplicating secondary nodes by exact name.
    pub fn push_row(&mut self, row: &GraphRow)
        requires
            old(self).wf(),
        ensures
            final(self).wf(),
            final(self).model() == push_row_s(old(self).model(), row@),
    {
        let ghost st0 = self.model();
        let target = self.nodes.len();
        self.nodes.push(Node { title: row.movie.clone(), label: Label::Movie });
        proof {
            assert(self.model().nodes =~= with_movie(st0, row@.movie).nodes);
            assert(self.model() =~= with_movie(st0, row@.movie));
            lemma_with_movie(st0, row@.movie);
        }
        let ghost st1 = self.model();
        proof {
            assert(row@.cast.skip(0) =~= row@.cast);
        }
        let mut c: usize = 0;
        while c < row.cast.len()
            invariant
                self.wf(),
                target < self.model().nodes.len(),
                self.model().nodes[target as int].label == Label::Movie,
                0 <= c <= row.cast@.len(),
                self.names@.len() == self.ids@.len(),
                push_cast(self.model(), row@.cast.skip(c as int), target as int) == push_cast(
                    st1,
                    row@.cast,
                    target as int,
                ),
            decreases row.cast@.len() - c,
        {
            let ghost pre = self.model();
            let ghost pre_names = self.names@;
            let ghost name_v = row@.cast[c as int];
            let source: usize;
            match self.find_name(row.cast[c].as_str()) {
                Some(id) => {
                    source = id;
                    self.links.push(Link { source, target });
                    proof {
                        assert(self.model().links =~= push_actor(
                            pre,
                            name_v,
                            target as int,
                        ).links);
                        assert(self.model() =~= push_actor(pre, name_v, target as int));
                    }
                },
                None => {
                    source = self.nodes.len();
                    self.names.push(row.cast[c].clone());
                    self.ids.push(source);
                    self.index = Ghost(self.index@.insert(name_v, source as int));
                    self.nodes.push(Node { title: row.cast[c].clone(), label: Label::Actor });
                    self.links.push(Link { source, target });
                    proof {
                        assert(self.model().nodes =~= push_actor(
                            pre,
                            name_v,
                            target as int,
                        ).nodes);
                        assert(self.model().links =~= push_actor(
                            pre,
                            name_v,
                            target as int,
                        ).links);
                        assert(self.model() =~= push_actor(pre, name_v, target as int));
                        assert forall|n: Seq<char>|
                            #[trigger] self.index@.dom().contains(n) implies exists|k: int|
                            0 <= k < self.names@.len() && (#[trigger] self.names@[k])@ == n by {
                            assert(self.names@.len() == pre_names.len() + 1);
                            if n == name_v {
                                assert((self.names@[self.names@.len() - 1])@ == n);
                            } else {
                                assert(pre.index.dom().contains(n));
                                let k = choose|k: int|
                                    0 <= k < pre_names.len() && (#[trigger] pre_names[k])@ == n;
                                assert(self.names@[k] == pre_names[k]);
                                assert((self.names@[k])@ == n);
                            }
                        }
                    }
                },
            }
            proof {
                lemma_push_actor(pre, name_v, target as int);
                assert(row@.cast.skip(c as int)[0] == name_v);
                assert(row@.cast.skip(c as int).drop_first() =~= row@.cast.skip(c as int + 1));
            }
            c += 1;
        }
        proof {
            assert(row@.cast.skip(row.cast@.len() as int) =~= Seq::<Seq<char>>::empty());
            assert(self.model() == push_cast(st1, row@.cast, target as int));
            assert(st1 == with_movie(st0, row@.movie));
            assert(target as int == st0.nodes.len() as int);
        }
    }

    /// Hands out the assembled subgraph; the deduplication index is
    /// discarded with the assembler.
    pub fn finish(self) -> (r: BrowseResponse)
        requires
            self.wf(),
        ensures
            r.nodes@.map_values(|n: Node| n@) == self.model().nodes,
            r.links@.map_values(|l: Link| l@) == self.model().links,
            response_wf(r),
    {
        proof {
            assert forall|k: int|
                0 <= k < self.links@.len() implies (#[trigger] self.links@[k]).source
                < self.nodes@.len() && self.links@[k].target < self.nodes@.len() by {
                assert(link_ok(self.model(), self.model().links[k]));
            }
        }
        BrowseResponse { nodes: self.nodes, links: self.links }
    }
}

/// Assembles a materialized row sequence in order, starting from nothing:
/// the browse operation over an already-bounded stream.
pub fn assemble(rows: &Vec<GraphRow>) -> (r: BrowseResponse)
    ensures
        r.nodes@.map_values(|n: Node| n@) == assembled(rows_view(rows@)).nodes,
        r.links@.map_values(|l: Link| l@) == assembled(rows_view(rows@)).links,
        response_wf(r),
        r.nodes@.len() == rows@.len() + all_names(rows_view(rows@)).len(),
        r.links@.len() == total_cast(rows_view(rows@)),
{
    proof {
        lemma_assembled_counts(rows_view(rows@));
    }
    let mut a = GraphAssembler::new();
    proof {
        assert(rows_view(rows@).skip(0) =~= rows_view(rows@));
    }
    let mut i: usize = 0;
    while i < rows.len()
        invariant
            a.wf(),
            0 <= i <= rows@.len(),
            push_rows(a.model(), rows_view(rows@).skip(i as int)) == assembled(rows_view(rows@)),
        decreases rows@.len() - i,
    {
        let ghost pre = a.model();
        a.push_row(&rows[i]);
        proof {
            assert(rows_view(rows@).skip(i as int)[0] == rows@[i as int]@);
            assert(rows_view(rows@).skip(i as int).drop_first() =~= rows_view(rows@).skip(
                i as int + 1,
            ));
        }
        i += 1;
    }
    proof {
        assert(rows_view(rows@).skip(rows@.len() as int) =~= Seq::<GRow>::empty());
    }
    a.finish()
}

} // verus!
