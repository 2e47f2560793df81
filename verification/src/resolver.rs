//! Iterative remote-dependency-closure resolver.
//!
//! Given a set of root ids, the resolver hands out query batches of at most
//! five ids and absorbs the metadata results the caller fetches for them,
//! discovering child ids as it goes, until no undiscovered id remains.  The
//! caller owns the transport; the resolver owns every decision: what to ask
//! for next, what to store, and what a result's children add to the
//! frontier.  A missing-item result is stored like any other; interpreting
//! it is the caller's business.
//!
//! Each id is queried at most once per resolution, even when items name each
//! other in cycles ([`lemma_each_id_queried_at_most_once`]); each batch
//! strictly grows the log of queried ids, which never leaves the finite
//! universe of ids the service names ([`lemma_queried_bounded`]), so a
//! resolution performs finitely many batches.

use vstd::prelude::*;
use vstd::set_lib::lemma_len_subset;
use crate::schemas::GetPublishedFileDetailsResponseItem;
use crate::schemas::PublishedFileChild;
use crate::schemas::str_seq_view;

verus! {

/// The batch size: how many ids one metadata query may name, chosen to
/// bound the query string against service limits.
pub const QUERY_BATCH_SIZE: usize = 5;

/// The ids one metadata result names as children; none for a missing-item
/// marker.
pub open spec fn children_of_item(item: GetPublishedFileDetailsResponseItem) -> Seq<Seq<char>> {
    match item {
        GetPublishedFileDetailsResponseItem::FileDetails(fd) => match fd.children {
            Some(cs) => cs@.map_values(|c: PublishedFileChild| c.publishedfileid@),
            None => Seq::empty(),
        },
        GetPublishedFileDetailsResponseItem::MissingItem { .. } => Seq::empty(),
    }
}

/// The key under which each stored result is filed.
pub open spec fn key_views(s: Seq<(String, GetPublishedFileDetailsResponseItem)>) -> Seq<
    Seq<char>,
> {
    s.map_values(|p: (String, GetPublishedFileDetailsResponseItem)| p.0@)
}

/// No id of `a` occurs in `b`.
pub open spec fn disjoint_ids(a: Seq<Seq<char>>, b: Seq<Seq<char>>) -> bool {
    forall|i: int, j: int|
        #![trigger a[i], b[j]]
        0 <= i < a.len() && 0 <= j < b.len() ==> a[i] != b[j]
}

/// How one result's children grow the frontier: a child enters iff it has
/// been neither queried nor discovered before.
pub open spec fn add_children(
    frontier: Seq<Seq<char>>,
    queried: Seq<Seq<char>>,
    children: Seq<Seq<char>>,
) -> Seq<Seq<char>>
    decreases children.len(),
{
    if children.len() == 0 {
        frontier
    } else {
        let c = children.first();
        let grown = if !frontier.contains(c) && !queried.contains(c) {
            frontier.push(c)
        } else {
            frontier
        };
        add_children(grown, queried, children.drop_first())
    }
}

/// What absorbing a round of results does to the resolver's state: each
/// result for a queried id is stored once, in arrival order, and the
/// children of every full result extend the frontier.  Results for ids that
/// were never handed out are ignored.
pub open spec fn absorb(
    fetched: Seq<(String, GetPublishedFileDetailsResponseItem)>,
    queried: Seq<Seq<char>>,
    frontier: Seq<Seq<char>>,
    results: Seq<(String, GetPublishedFileDetailsResponseItem)>,
) -> (Seq<(String, GetPublishedFileDetailsResponseItem)>, Seq<Seq<char>>)
    decreases results.len(),
{
    if results.len() == 0 {
        (fetched, frontier)
    } else {
        let p = results.first();
        let grown = add_children(frontier, queried, children_of_item(p.1));
        let stored = if queried.contains(p.0@) && !key_views(fetched).contains(p.0@) {
            fetched.push(p)
        } else {
            fetched
        };
        absorb(stored, queried, grown, results.drop_first())
    }
}

/// One resolution in progress.
pub struct DependencyResolver {
    /// The results stored so far, keyed by id, no key twice.
    pub fetched: Vec<(String, GetPublishedFileDetailsResponseItem)>,
    /// Every id ever handed out in a batch, in order, no id twice.
    pub queried: Vec<String>,
    /// Ids discovered but not yet handed out.
    pub frontier: Vec<String>,
}

impl DependencyResolver {
    /// The resolver's invariant: no id is ever queried twice, and the
    /// frontier holds only undiscovered, unqueried ids, each once.
    pub open spec fn wf(self) -> bool {
        &&& str_seq_view(self.queried@).no_duplicates()
        &&& str_seq_view(self.frontier@).no_duplicates()
        &&& disjoint_ids(str_seq_view(self.frontier@), str_seq_view(self.queried@))
    }

    /// Start a resolution from the root ids; duplicates among the roots
    /// collapse to one frontier entry.
    pub fn new(roots: &Vec<String>) -> (r: DependencyResolver)
        ensures
            r.wf(),
            r.fetched@.len() == 0,
            r.queried@.len() == 0,
            forall|x: Seq<char>| #[trigger]
                str_seq_view(r.frontier@).contains(x) == str_seq_view(roots@).contains(x),
    {
        let mut frontier: Vec<String> = Vec::new();
        let mut i: usize = 0;
        while i < roots.len()
            invariant
                i <= roots.len(),
                str_seq_view(frontier@).no_duplicates(),
                forall|x: Seq<char>| #[trigger]
                    str_seq_view(frontier@).contains(x) == str_seq_view(roots@).take(
                        i as int,
                    ).contains(x),
            decreases roots.len() - i,
        {
            let ghost pre = str_seq_view(frontier@);
            let seen = contains_id(&frontier, &roots[i]);
            if !seen {
                frontier.push(roots[i].clone());
            }
            proof {
                let now = str_seq_view(frontier@);
                let taken = str_seq_view(roots@).take(i + 1);
                assert(taken.drop_last() =~= str_seq_view(roots@).take(i as int));
                assert(taken.last() == roots@[i as int]@);
                if !seen {
                    assert(now =~= pre.push(roots@[i as int]@));
                    assert forall|x: Seq<char>| #[trigger] now.contains(x) implies taken.contains(
                        x,
                    ) by {
                        let w = choose|k: int| 0 <= k < now.len() && now[k] == x;
                        if w < pre.len() {
                            assert(pre.contains(x));
                            let v = choose|k: int|
                                0 <= k < taken.drop_last().len() && taken.drop_last()[k] == x;
                            assert(taken[v] == x);
                        } else {
                            assert(taken[taken.len() - 1] == x);
                        }
                    }
                    assert forall|x: Seq<char>| #[trigger] taken.contains(x) implies now.contains(
                        x,
                    ) by {
                        let w = choose|k: int| 0 <= k < taken.len() && taken[k] == x;
                        if w < taken.len() - 1 {
                            assert(taken.drop_last()[w] == x);
                            assert(pre.contains(x));
                            let v = choose|k: int| 0 <= k < pre.len() && pre[k] == x;
                            assert(now[v] == x);
                        } else {
                            assert(now[now.len() - 1] == x);
                        }
                    }
                    assert forall|p: int, q: int| 0 <= p < q < now.len() implies now[p] != now[q] by {
                        if q == now.len() - 1 {
                            assert(pre[p] == now[p]);
                            assert(!pre.contains(now[q]));
                        }
                    }
                } else {
                    assert forall|x: Seq<char>| #[trigger] now.contains(x) == taken.contains(
                        x,
                    ) by {
                        if taken.contains(x) {
                            let w = choose|k: int| 0 <= k < taken.len() && taken[k] == x;
                            if w < taken.len() - 1 {
                                assert(taken.drop_last()[w] == x);
                            } else {
                                assert(str_seq_view(roots@).take(i as int).contains(x)
                                    == now.contains(x));
                            }
                        }
                        if now.contains(x) {
                            let w = choose|k: int| 0 <= k < now.len() && now[k] == x;
                            assert(str_seq_view(roots@).take(i as int).contains(x));
                            let v = choose|k: int|
                                0 <= k < i && str_seq_view(roots@).take(i as int)[k] == x;
                            assert(taken[v] == x);
                        }
                    }
                }
            }
            i = i + 1;
        }
        proof {
            assert(str_seq_view(roots@).take(roots@.len() as int) =~= str_seq_view(roots@));
        }
        DependencyResolver { fetched: Vec::new(), queried: Vec::new(), frontier }
    }

    /// Whether the resolution has reached its fixpoint: nothing discovered
    /// remains unqueried.
    pub fn done(&self) -> (r: bool)
        ensures
            r == (self.frontier@.len() == 0),
    {
        self.frontier.len() == 0
    }

    /// Hand out the next batch: up to five frontier ids, which move to the
    /// queried log.  Yields nothing exactly when the resolution is done.
    /// Every id handed out was never handed out before, and the queried log
    /// strictly grows — with finitely many reachable ids, resolution
    /// therefore terminates.
    pub fn next_batch(&mut self) -> (r: Option<Vec<String>>)
        requires
            old(self).wf(),
        ensures
            final(self).wf(),
            final(self).fetched@ == old(self).fetched@,
            old(self).frontier@.len() == 0 ==> (r matches None && *final(self) == *old(self)),
            old(self).frontier@.len() > 0 ==> (r matches Some(batch) && {
                let k = if old(self).frontier@.len() < QUERY_BATCH_SIZE as int {
                    old(self).frontier@.len() as int
                } else {
                    QUERY_BATCH_SIZE as int
                };
                &&& batch@.len() == k
                &&& batch@.len() >= 1
                &&& str_seq_view(batch@) == str_seq_view(old(self).frontier@).take(k)
                &&& str_seq_view(final(self).frontier@) == str_seq_view(old(self).frontier@).skip(
                    k,
                )
                &&& str_seq_view(final(self).queried@) == str_seq_view(old(self).queried@)
                    + str_seq_view(batch@)
                &&& final(self).queried@.len() > old(self).queried@.len()
            }),
    {
        if self.frontier.len() == 0 {
            return None;
        }
        let ghost orig_f = str_seq_view(self.frontier@);
        let ghost orig_q = str_seq_view(self.queried@);
        let k = if self.frontier.len() < QUERY_BATCH_SIZE {
            self.frontier.len()
        } else {
            QUERY_BATCH_SIZE
        };
        let mut batch: Vec<String> = Vec::new();
        let mut i: usize = 0;
        while i < k
            invariant
                i <= k,
                k <= self.frontier@.len(),
                self.frontier@ == old(self).frontier@,
                orig_f == str_seq_view(self.frontier@),
                orig_q == str_seq_view(old(self).queried@),
                self.fetched@ == old(self).fetched@,
                batch@.len() == i,
                str_seq_view(batch@) == orig_f.take(i as int),
                str_seq_view(self.queried@) == orig_q + orig_f.take(i as int),
            decreases k - i,
        {
            let ghost pre_b = str_seq_view(batch@);
            let ghost pre_q = str_seq_view(self.queried@);
            let id = self.frontier[i].clone();
            self.queried.push(id.clone());
            batch.push(id);
            proof {
                assert(str_seq_view(batch@) =~= pre_b.push(orig_f[i as int]));
                assert(str_seq_view(batch@) =~= orig_f.take(i + 1));
                assert(str_seq_view(self.queried@) =~= pre_q.push(orig_f[i as int]));
                assert(str_seq_view(self.queried@) =~= orig_q + orig_f.take(i + 1));
            }
            i = i + 1;
        }
        let mut rest: Vec<String> = Vec::new();
        let mut j: usize = k;
        while j < self.frontier.len()
            invariant
                k <= j <= self.frontier@.len(),
                self.frontier@ == old(self).frontier@,
                orig_f == str_seq_view(self.frontier@),
                str_seq_view(rest@) == orig_f.subrange(k as int, j as int),
            decreases self.frontier.len() - j,
        {
            let ghost pre_r = str_seq_view(rest@);
            rest.push(self.frontier[j].clone());
            proof {
                assert(str_seq_view(rest@) =~= pre_r.push(orig_f[j as int]));
                assert(str_seq_view(rest@) =~= orig_f.subrange(k as int, j + 1));
            }
            j = j + 1;
        }
        self.frontier = rest;
        proof {
            assert(str_seq_view(self.frontier@) =~= orig_f.skip(k as int));
        }
        proof {
            let new_q = str_seq_view(self.queried@);
            let new_f = str_seq_view(self.frontier@);
            let bv = str_seq_view(batch@);
            // the queried log stays duplicate-free: old entries were unique,
            // the batch is a slice of the unique frontier, and frontier and
            // queried ids were disjoint
            assert forall|p: int, q: int| 0 <= p < q < new_q.len() implies new_q[p] != new_q[
                q
            ] by {
                if p < orig_q.len() && q >= orig_q.len() {
                    assert(new_q[p] == orig_q[p]);
                    assert(new_q[q] == orig_f[q - orig_q.len()]);
                } else if p >= orig_q.len() {
                    assert(new_q[p] == orig_f[p - orig_q.len()]);
                    assert(new_q[q] == orig_f[q - orig_q.len()]);
                }
            }
            assert forall|p: int, q: int|
                #![trigger new_f[p], new_q[q]]
                0 <= p < new_f.len() && 0 <= q < new_q.len() implies new_f[p] != new_q[q] by {
                assert(new_f[p] == orig_f[p + k]);
                if q >= orig_q.len() {
                    assert(new_q[q] == orig_f[q - orig_q.len()]);
                }
            }
            assert forall|p: int, q: int| 0 <= p < q < new_f.len() implies new_f[p] != new_f[
                q
            ] by {
                assert(new_f[p] == orig_f[p + k]);
                assert(new_f[q] == orig_f[q + k]);
            }
        }
        Some(batch)
    }

    /// Absorb the results of one batch.  Results for queried ids are stored
    /// once each, in arrival order; the children named by every full result
    /// join the frontier unless already seen.
    pub fn record_batch(&mut self, results: Vec<(String, GetPublishedFileDetailsResponseItem)>)
        requires
            old(self).wf(),
        ensures
            final(self).wf(),
            final(self).queried@ == old(self).queried@,
            final(self).fetched@ == absorb(
                old(self).fetched@,
                str_seq_view(old(self).queried@),
                str_seq_view(old(self).frontier@),
                results@,
            ).0,
            str_seq_view(final(self).frontier@) == absorb(
                old(self).fetched@,
                str_seq_view(old(self).queried@),
                str_seq_view(old(self).frontier@),
                results@,
            ).1,
    {
        let ghost q = str_seq_view(self.queried@);
        let ghost orig_results = results@;
        let ghost orig_fetched = self.fetched@;
        let ghost orig_frontier = str_seq_view(self.frontier@);
        let mut results = results;
        while results.len() > 0
            invariant
                q == str_seq_view(self.queried@),
                self.queried@ == old(self).queried@,
                str_seq_view(self.frontier@).no_duplicates(),
                disjoint_ids(str_seq_view(self.frontier@), q),
                absorb(orig_fetched, q, orig_frontier, orig_results) == absorb(
                    self.fetched@,
                    q,
                    str_seq_view(self.frontier@),
                    results@,
                ),
            decreases results.len(),
        {
            let ghost pre_results = results@;
            let ghost pre_fetched = self.fetched@;
            let ghost pre_frontier = str_seq_view(self.frontier@);
            let p = results.remove(0);
            proof {
                assert(results@ =~= pre_results.drop_first());
            }
            match &p.1 {
                GetPublishedFileDetailsResponseItem::FileDetails(fd) => {
                    match &fd.children {
                        Some(cs) => {
                            let ghost children = children_of_item(p.1);
                            proof {
                                assert(children.skip(0) =~= children);
                            }
                            let mut ci: usize = 0;
                            while ci < cs.len()
                                invariant
                                    ci <= cs.len(),
                                    children == children_of_item(p.1),
                                    children.len() == cs.len(),
                                    forall|x: int| 0 <= x < cs.len() ==> children[x] == cs@[x].publishedfileid@,
                                    q == str_seq_view(self.queried@),
                                    self.queried@ == old(self).queried@,
                                    self.fetched@ == pre_fetched,
                                    str_seq_view(self.frontier@).no_duplicates(),
                                    disjoint_ids(str_seq_view(self.frontier@), q),
                                    add_children(pre_frontier, q, children) == add_children(
                                        str_seq_view(self.frontier@),
                                        q,
                                        children.skip(ci as int),
                                    ),
                                decreases cs.len() - ci,
                            {
                                let ghost cur_frontier = str_seq_view(self.frontier@);
                                let ghost rest = children.skip(ci as int);
                                let cid = cs[ci].publishedfileid.clone();
                                let in_frontier = contains_id(&self.frontier, &cid);
                                let in_queried = contains_id(&self.queried, &cid);
                                if !in_frontier && !in_queried {
                                    self.frontier.push(cid);
                                }
                                proof {
                                    assert(rest[0] == children[ci as int]);
                                    assert(rest.drop_first() =~= children.skip(ci + 1));
                                    if !in_frontier && !in_queried {
                                        assert(str_seq_view(self.frontier@) =~= cur_frontier.push(
                                            children[ci as int],
                                        ));
                                        let now = str_seq_view(self.frontier@);
                                        assert forall|a: int, b: int| 0 <= a < b < now.len()
                                            implies now[a] != now[b] by {
                                            if b == now.len() - 1 {
                                                assert(now[a] == cur_frontier[a]);
                                                assert(!cur_frontier.contains(now[b]));
                                            }
                                        }
                                    }
                                }
                                ci = ci + 1;
                            }
                            proof {
                                assert(children.skip(cs@.len() as int) =~= Seq::<Seq<char>>::empty());
                                assert(add_children(
                                    str_seq_view(self.frontier@),
                                    q,
                                    children.skip(cs@.len() as int),
                                ) == str_seq_view(self.frontier@));
                            }
                        },
                        None => {
                            proof {
                                assert(children_of_item(p.1) =~= Seq::<Seq<char>>::empty());
                            }
                        },
                    }
                },
                GetPublishedFileDetailsResponseItem::MissingItem { .. } => {
                    proof {
                        assert(children_of_item(p.1) =~= Seq::<Seq<char>>::empty());
                    }
                },
            }
            let in_queried = contains_id(&self.queried, &p.0);
            let already_stored = contains_key(&self.fetched, &p.0);
            if in_queried && !already_stored {
                let ghost pf = self.fetched@;
                self.fetched.push(p);
                proof {
                    assert(self.fetched@ =~= pf.push(pre_results.first()));
                }
            }
            proof {
                assert(absorb(pre_fetched, q, pre_frontier, pre_results) == absorb(
                    self.fetched@,
                    q,
                    str_seq_view(self.frontier@),
                    results@,
                ));
            }
        }
        proof {
            assert(absorb(self.fetched@, q, str_seq_view(self.frontier@), results@) == (
                self.fetched@,
                str_seq_view(self.frontier@),
            ));
        }
    }

    /// Surrender the stored results: one entry per queried id that the
    /// service answered, in arrival order.
    pub fn into_results(self) -> (r: Vec<(String, GetPublishedFileDetailsResponseItem)>)
        ensures
            r == self.fetched,
    {
        self.fetched
    }
}

/// Law: over a whole resolution, each id is queried at most once — the log
/// of handed-out ids never holds an id twice, however items name each other
/// (cycles included).
pub proof fn lemma_each_id_queried_at_most_once(r: DependencyResolver)
    requires
        r.wf(),
    ensures
        str_seq_view(r.queried@).no_duplicates(),
{
}

/// Law: the queried log cannot outgrow any finite universe that holds its
/// ids (such as the roots together with every id the service ever names as
/// a child).  With each batch strictly growing the log — see
/// [`DependencyResolver::next_batch`] — a resolution over finitely many
/// reachable ids therefore terminates.
pub proof fn lemma_queried_bounded(r: DependencyResolver, universe: Set<Seq<char>>)
    requires
        r.wf(),
        universe.finite(),
        forall|x: Seq<char>| #[trigger]
            str_seq_view(r.queried@).contains(x) ==> universe.contains(x),
    ensures
        r.queried@.len() <= universe.len(),
{
    let qv = str_seq_view(r.queried@);
    qv.unique_seq_to_set();
    assert(qv.to_set().subset_of(universe));
    lemma_len_subset(qv.to_set(), universe);
}

/// The id one service reply element is filed under: a full result's own
/// published file id, a missing-item marker's named id.
pub open spec fn item_id(item: GetPublishedFileDetailsResponseItem) -> Seq<char> {
    match item {
        GetPublishedFileDetailsResponseItem::FileDetails(fd) => fd.publishedfileid@,
        GetPublishedFileDetailsResponseItem::MissingItem { publishedfileid, .. } =>
            publishedfileid@,
    }
}

/// File each element of one metadata reply under its id, keeping arrival
/// order.  The two reply shapes are told apart by structure alone; a
/// missing-item marker is a result like any other.
pub fn key_response_items(items: Vec<GetPublishedFileDetailsResponseItem>) -> (r: Vec<
    (String, GetPublishedFileDetailsResponseItem),
>)
    ensures
        r@.len() == items@.len(),
        forall|i: int|
            0 <= i < items@.len() ==> (#[trigger] r@[i].1 == items@[i] && r@[i].0@ == item_id(
                items@[i],
            )),
{
    let ghost orig = items@;
    let mut items = items;
    let mut r: Vec<(String, GetPublishedFileDetailsResponseItem)> = Vec::new();
    while items.len() > 0
        invariant
            r@.len() + items@.len() == orig.len(),
            items@ == orig.skip(r@.len() as int),
            forall|i: int|
                0 <= i < r@.len() ==> (#[trigger] r@[i].1 == orig[i] && r@[i].0@ == item_id(
                    orig[i],
                )),
        decreases items.len(),
    {
        let ghost done = r@.len() as int;
        let item = items.remove(0);
        proof {
            assert(orig.skip(done)[0] == orig[done]);
            assert(items@ =~= orig.skip(done + 1));
        }
        let id = match &item {
            GetPublishedFileDetailsResponseItem::FileDetails(fd) => fd.publishedfileid.clone(),
            GetPublishedFileDetailsResponseItem::MissingItem { publishedfileid, .. } =>
                publishedfileid.clone(),
        };
        r.push((id, item));
        proof {
            assert(r@[done].1 == orig[done]);
            assert(r@[done].0@ == item_id(orig[done]));
            assert(forall|i: int| 0 <= i < done ==> r@[i] == r@.drop_last()[i]);
        }
    }
    r
}

/// Whether a list of ids holds this id.
fn contains_id(v: &Vec<String>, id: &String) -> (r: bool)
    ensures
        r == str_seq_view(v@).contains(id@),
{
    let mut i: usize = 0;
    while i < v.len()
        invariant
            i <= v.len(),
            forall|k: int| 0 <= k < i ==> str_seq_view(v@)[k] != id@,
        decreases v.len() - i,
    {
        if v[i].eq(id) {
            proof {
                assert(str_seq_view(v@)[i as int] == id@);
            }
            return true;
        }
        i = i + 1;
    }
    false
}

/// Whether a result store already files an entry under this id.
fn contains_key(
    v: &Vec<(String, GetPublishedFileDetailsResponseItem)>,
    id: &String,
) -> (r: bool)
    ensures
        r == key_views(v@).contains(id@),
{
    let mut i: usize = 0;
    while i < v.len()
        invariant
            i <= v.len(),
            forall|k: int| 0 <= k < i ==> key_views(v@)[k] != id@,
        decreases v.len() - i,
    {
        if v[i].0.eq(id) {
            proof {
                assert(key_views(v@)[i as int] == id@);
            }
            return true;
        }
        i = i + 1;
    }
    false
}

} // verus!
