use crate::routes::{
    lookup_outcome, parsed_url_of, redirect_status, CountedLinkStatistic, Link, LinkStatisticEvent,
};
use crate::utils::{StoreError, STATUS_NOT_FOUND, STATUS_TEMPORARY_REDIRECT};
use vstd::prelude::*;

verus! {

/// A recorded event as (link id, referer, user agent).
pub open spec fn event_view(e: LinkStatisticEvent) -> (Seq<char>, Seq<char>, Seq<char>) {
    (e.link_id@, e.referer@, e.user_agent@)
}

pub open spec fn events_view(events: Seq<LinkStatisticEvent>) -> Seq<(Seq<char>, Seq<char>, Seq<char>)> {
    events.map_values(|e: LinkStatisticEvent| event_view(e))
}

/// How many of `events` were recorded for `link_id` with this referer and
/// user agent.
pub open spec fn event_count(
    events: Seq<(Seq<char>, Seq<char>, Seq<char>)>,
    link_id: Seq<char>,
    referer: Seq<char>,
    user_agent: Seq<char>,
) -> nat
    decreases events.len(),
{
    if events.len() == 0 {
        0
    } else {
        event_count(events.drop_last(), link_id, referer, user_agent) + if events.last() == (
        link_id,
        referer,
        user_agent,
        ) {
            1nat
        } else {
            0nat
        }
    }
}

/// The (referer, user agent) pair of a grouped row.
pub open spec fn row_key(row: CountedLinkStatistic) -> (Seq<char>, Seq<char>) {
    (row.referer->Some_0@, row.user_agent->Some_0@)
}

/// `rows` group the events of `link_id`: one row per distinct (referer, user
/// agent) pair among them, each with the number of such events.
pub open spec fn groups_events(
    rows: Seq<CountedLinkStatistic>,
    events: Seq<(Seq<char>, Seq<char>, Seq<char>)>,
    link_id: Seq<char>,
) -> bool {
    &&& forall|i: int|
        0 <= i < rows.len() ==> {
            &&& (#[trigger] rows[i]).referer is Some
            &&& rows[i].user_agent is Some
            &&& event_count(events, link_id, row_key(rows[i]).0, row_key(rows[i]).1) > 0
            &&& rows[i].amount == Some(
                event_count(events, link_id, row_key(rows[i]).0, row_key(rows[i]).1) as i64,
            )
        }
    &&& forall|i: int, j: int|
        0 <= i < rows.len() && 0 <= j < rows.len() && i != j ==> row_key(#[trigger] rows[i])
            != row_key(#[trigger] rows[j])
    &&& forall|k: int|
        0 <= k < events.len() && (#[trigger] events[k]).0 == link_id ==> exists|i: int|
            0 <= i < rows.len() && row_key(#[trigger] rows[i]) == (events[k].1, events[k].2)
}

proof fn lemma_count_step(
    events: Seq<(Seq<char>, Seq<char>, Seq<char>)>,
    k: int,
    link_id: Seq<char>,
    referer: Seq<char>,
    user_agent: Seq<char>,
)
    requires
        0 <= k < events.len(),
    ensures
        event_count(events.take(k + 1), link_id, referer, user_agent) == event_count(
            events.take(k),
            link_id,
            referer,
            user_agent,
        ) + if events[k] == (link_id, referer, user_agent) {
            1nat
        } else {
            0nat
        },
{
    assert(events.take(k + 1).drop_last() == events.take(k));
}

proof fn lemma_count_bound(
    events: Seq<(Seq<char>, Seq<char>, Seq<char>)>,
    link_id: Seq<char>,
    referer: Seq<char>,
    user_agent: Seq<char>,
)
    ensures
        event_count(events, link_id, referer, user_agent) <= events.len(),
        event_count(events, link_id, referer, user_agent) > 0 ==> exists|k: int|
            0 <= k < events.len() && events[k] == (link_id, referer, user_agent),
    decreases events.len(),
{
    if events.len() > 0 {
        let rest = events.drop_last();
        lemma_count_bound(rest, link_id, referer, user_agent);
        if event_count(rest, link_id, referer, user_agent) > 0 {
            let k = choose|k: int| 0 <= k < rest.len() && rest[k] == (link_id, referer, user_agent);
            assert(events[k] == rest[k]);
        }
    }
}

spec fn key_at(referers: Seq<String>, agents: Seq<String>, i: int) -> (Seq<char>, Seq<char>) {
    (referers[i]@, agents[i]@)
}

/// The parallel sequences hold one distinct key per group of `events` of
/// `link_id`, with the group's size.
spec fn keys_group(
    referers: Seq<String>,
    agents: Seq<String>,
    counts: Seq<u64>,
    events: Seq<(Seq<char>, Seq<char>, Seq<char>)>,
    link_id: Seq<char>,
) -> bool {
    &&& referers.len() == counts.len()
    &&& agents.len() == counts.len()
    &&& forall|i: int|
        0 <= i < counts.len() ==> #[trigger] counts[i] as nat == event_count(
            events,
            link_id,
            referers[i]@,
            agents[i]@,
        ) && counts[i] > 0
    &&& forall|i: int, j: int|
        0 <= i < counts.len() && 0 <= j < counts.len() && i != j ==> #[trigger] key_at(
            referers,
            agents,
            i,
        ) != #[trigger] key_at(referers, agents, j)
    &&& forall|m: int|
        0 <= m < events.len() && (#[trigger] events[m]).0 == link_id ==> exists|i: int|
            0 <= i < counts.len() && #[trigger] key_at(referers, agents, i) == (
            events[m].1,
            events[m].2,
            )
}

/// Groups the events recorded for `link_id` by (referer, user agent), with
/// the number of events in each group; no events give no rows.
pub fn count_statistics(events: &[LinkStatisticEvent], link_id: &str) -> (r: Vec<
    CountedLinkStatistic,
>)
    requires
        events@.len() <= i64::MAX,
    ensures
        groups_events(r@, events_view(events@), link_id@),
        (forall|k: int|
            0 <= k < events@.len() ==> (#[trigger] events@[k]).link_id@ != link_id@) ==> r@.len()
            == 0,
{
    let ghost ev = events_view(events@);
    let id = link_id.to_owned();
    let mut referers: Vec<String> = Vec::new();
    let mut agents: Vec<String> = Vec::new();
    let mut counts: Vec<u64> = Vec::new();
    let mut k: usize = 0;
    while k < events.len()
        invariant
            ev == events_view(events@),
            id@ == link_id@,
            events@.len() <= i64::MAX,
            k <= events@.len(),
            keys_group(referers@, agents@, counts@, ev.take(k as int), link_id@),
        decreases events@.len() - k,
    {
        let e = &events[k];
        let ghost old_referers = referers@;
        let ghost old_agents = agents@;
        let ghost old_counts = counts@;
        let ghost before = ev.take(k as int);
        let ghost after = ev.take(k + 1);
        assert(ev[k as int] == event_view(events@[k as int]));
        assert(after[k as int] == ev[k as int]);
        proof {
            assert forall|r: Seq<char>, u: Seq<char>|
                #![trigger event_count(after, link_id@, r, u)]
                event_count(after, link_id@, r, u) == event_count(before, link_id@, r, u) + if ev[k as int]
                    == (link_id@, r, u) {
                    1nat
                } else {
                    0nat
                } by {
                lemma_count_step(ev, k as int, link_id@, r, u);
            }
        }
        if e.link_id == id {
            let mut i: usize = 0;
            let mut found = false;
            while !found && i < referers.len()
                invariant
                    referers@.len() == agents@.len(),
                    i <= referers@.len(),
                    !found ==> forall|j: int|
                        0 <= j < i ==> #[trigger] key_at(referers@, agents@, j) != (
                        e.referer@,
                        e.user_agent@,
                        ),
                    found ==> i < referers@.len() && key_at(referers@, agents@, i as int) == (
                    e.referer@,
                    e.user_agent@,
                    ),
                decreases referers@.len() - i + if found {
                    0int
                } else {
                    1int
                },
            {
                if referers[i] == e.referer && agents[i] == e.user_agent {
                    found = true;
                } else {
                    i = i + 1;
                }
            }
            if found {
                let c = counts[i];
                proof {
                    lemma_count_bound(before, link_id@, e.referer@, e.user_agent@);
                }
                counts.set(i, c + 1);
                proof {
                    assert forall|j: int| 0 <= j < counts@.len() implies #[trigger] counts@[j] as nat
                        == event_count(after, link_id@, referers@[j]@, agents@[j]@) && counts@[j]
                        > 0 by {
                        if j != i {
                            assert(key_at(referers@, agents@, j) != key_at(
                                referers@,
                                agents@,
                                i as int,
                            ));
                            assert(old_counts[j] == counts@[j]);
                        }
                    }
                    assert forall|m: int|
                        0 <= m < after.len() && (#[trigger] after[m]).0 == link_id@ implies exists|
                        j: int,
                    |
                        0 <= j < counts@.len() && #[trigger] key_at(referers@, agents@, j) == (
                        after[m].1,
                        after[m].2,
                        ) by {
                        if m == k {
                            assert(key_at(referers@, agents@, i as int) == (after[m].1, after[m].2));
                        } else {
                            assert(after[m] == before[m]);
                        }
                    }
                }
            } else {
                proof {
                    lemma_count_bound(before, link_id@, e.referer@, e.user_agent@);
                    if event_count(before, link_id@, e.referer@, e.user_agent@) > 0 {
                        let m = choose|m: int|
                            0 <= m < before.len() && before[m] == (
                            link_id@,
                            e.referer@,
                            e.user_agent@,
                            );
                        assert(before[m].0 == link_id@);
                        let j = choose|j: int|
                            0 <= j < old_counts.len() && #[trigger] key_at(old_referers, old_agents, j)
                                == (before[m].1, before[m].2);
                        assert(key_at(old_referers, old_agents, j) != (e.referer@, e.user_agent@));
                    }
                }
                referers.push(e.referer.clone());
                agents.push(e.user_agent.clone());
                counts.push(1);
                proof {
                    let n = old_counts.len() as int;
                    assert(key_at(referers@, agents@, n) == (e.referer@, e.user_agent@));
                    assert forall|j: int| 0 <= j < n implies #[trigger] key_at(referers@, agents@, j)
                        == key_at(old_referers, old_agents, j) && counts@[j] == old_counts[j] by {}
                    assert forall|j: int| 0 <= j < counts@.len() implies #[trigger] counts@[j] as nat
                        == event_count(after, link_id@, referers@[j]@, agents@[j]@) && counts@[j]
                        > 0 by {
                        if j < n {
                            assert(key_at(referers@, agents@, j) == key_at(old_referers, old_agents, j));
                        }
                    }
                    assert forall|a: int, b: int|
                        0 <= a < counts@.len() && 0 <= b < counts@.len() && a != b implies #[trigger] key_at(
                        referers@,
                        agents@,
                        a,
                    ) != #[trigger] key_at(referers@, agents@, b) by {
                        if a < n && b < n {
                            assert(key_at(old_referers, old_agents, a) != key_at(old_referers, old_agents, b));
                        }
                    }
                    assert forall|m: int|
                        0 <= m < after.len() && (#[trigger] after[m]).0 == link_id@ implies exists|
                        j: int,
                    |
                        0 <= j < counts@.len() && #[trigger] key_at(referers@, agents@, j) == (
                        after[m].1,
                        after[m].2,
                        ) by {
                        if m == k {
                            assert(key_at(referers@, agents@, n) == (after[m].1, after[m].2));
                        } else {
                            assert(after[m] == before[m]);
                            let j = choose|j: int|
                                0 <= j < old_counts.len() && #[trigger] key_at(old_referers, old_agents, j)
                                    == (before[m].1, before[m].2);
                            assert(key_at(referers@, agents@, j) == key_at(old_referers, old_agents, j));
                        }
                    }
                }
            }
        } else {
            proof {
                assert forall|m: int|
                    0 <= m < after.len() && (#[trigger] after[m]).0 == link_id@ implies exists|j: int|
                    0 <= j < counts@.len() && #[trigger] key_at(referers@, agents@, j) == (
                    after[m].1,
                    after[m].2,
                    ) by {
                    assert(after[m] == before[m]);
                }
            }
        }
        k = k + 1;
    }
    assert(ev.take(k as int) == ev);
    let mut rows: Vec<CountedLinkStatistic> = Vec::new();
    let mut i: usize = 0;
    while i < counts.len()
        invariant
            ev == events_view(events@),
            events@.len() <= i64::MAX,
            i <= counts@.len(),
            rows@.len() == i,
            keys_group(referers@, agents@, counts@, ev, link_id@),
            forall|j: int|
                0 <= j < i ==> {
                    &&& (#[trigger] rows@[j]).referer == Some(referers@[j])
                    &&& rows@[j].user_agent == Some(agents@[j])
                    &&& rows@[j].amount == Some(counts@[j] as i64)
                },
        decreases counts@.len() - i,
    {
        proof {
            lemma_count_bound(ev, link_id@, referers@[i as int]@, agents@[i as int]@);
        }
        rows.push(
            CountedLinkStatistic {
                amount: Some(counts[i] as i64),
                referer: Some(referers[i].clone()),
                user_agent: Some(agents[i].clone()),
            },
        );
        i = i + 1;
    }
    proof {
        assert forall|a: int, b: int|
            0 <= a < rows@.len() && 0 <= b < rows@.len() && a != b implies row_key(
            #[trigger] rows@[a],
        ) != row_key(#[trigger] rows@[b]) by {
            assert(row_key(rows@[a]) == key_at(referers@, agents@, a));
            assert(row_key(rows@[b]) == key_at(referers@, agents@, b));
        }
        assert forall|m: int|
            0 <= m < ev.len() && (#[trigger] ev[m]).0 == link_id@ implies exists|a: int|
            0 <= a < rows@.len() && row_key(#[trigger] rows@[a]) == (ev[m].1, ev[m].2) by {
            let j = choose|j: int|
                0 <= j < counts@.len() && #[trigger] key_at(referers@, agents@, j) == (
                ev[m].1,
                ev[m].2,
                );
            assert(row_key(rows@[j]) == key_at(referers@, agents@, j));
        }
        if rows@.len() > 0 {
            assert(counts@[0] > 0);
            lemma_count_bound(ev, link_id@, referers@[0]@, agents@[0]@);
            let m = choose|m: int|
                0 <= m < ev.len() && ev[m] == (link_id@, referers@[0]@, agents@[0]@);
            assert(ev[m] == event_view(events@[m]));
        }
    }
    rows
}

/// The target stored for `id`, if any.
pub open spec fn lookup(links: Map<Seq<char>, Seq<char>>, id: Seq<char>) -> Option<Seq<char>> {
    if links.contains_key(id) {
        Some(links[id])
    } else {
        None
    }
}

fn copy_link(l: &Link) -> (r: Link)
    ensures
        r == *l,
{
    Link { id: l.id.clone(), target_url: l.target_url.clone() }
}

/// Links and statistic events held in memory, with the semantics of the
/// persistent store: identifiers unique, events append-only.
pub struct LinkRepository {
    links: Vec<Link>,
    events: Vec<LinkStatisticEvent>,
    stored: Ghost<Map<Seq<char>, Seq<char>>>,
}

impl LinkRepository {
    /// The stored links, from identifier to target.
    pub closed spec fn links(&self) -> Map<Seq<char>, Seq<char>> {
        self.stored@
    }

    /// The recorded events, oldest first.
    pub closed spec fn events(&self) -> Seq<(Seq<char>, Seq<char>, Seq<char>)> {
        events_view(self.events@)
    }

    pub closed spec fn wf(&self) -> bool {
        &&& forall|id: Seq<char>|
            #![trigger self.stored@.contains_key(id)]
            self.stored@.contains_key(id) <==> exists|i: int|
                0 <= i < self.links@.len() && (#[trigger] self.links@[i]).id@ == id
        &&& forall|i: int|
            0 <= i < self.links@.len() ==> self.stored@.contains_key((#[trigger] self.links@[i]).id@)
                && self.stored@[self.links@[i].id@] == self.links@[i].target_url@
        &&& forall|i: int, j: int|
            0 <= i < self.links@.len() && 0 <= j < self.links@.len() && i != j ==> (
            #[trigger] self.links@[i]).id@ != (#[trigger] self.links@[j]).id@
        &&& self.events@.len() <= i64::MAX
    }

    /// An empty repository.
    pub fn new() -> (r: LinkRepository)
        ensures
            r.wf(),
            r.links() == Map::<Seq<char>, Seq<char>>::empty(),
            r.events() == Seq::<(Seq<char>, Seq<char>, Seq<char>)>::empty(),
    {
        let r = LinkRepository { links: Vec::new(), events: Vec::new(), stored: Ghost(Map::empty()) };
        assert(r.events() =~= Seq::<(Seq<char>, Seq<char>, Seq<char>)>::empty());
        r
    }

    /// Number of recorded events.
    pub fn event_len(&self) -> (r: usize)
        ensures
            r == self.events().len(),
    {
        self.events.len()
    }

    fn find_index(&self, id: &String) -> (r: Option<usize>)
        requires
            self.wf(),
        ensures
            match r {
                Some(i) => i < self.links@.len() && self.links@[i as int].id@ == id@,
                None => !self.links().contains_key(id@),
            },
    {
        let mut i: usize = 0;
        while i < self.links.len()
            invariant
                i <= self.links@.len(),
                forall|j: int| 0 <= j < i ==> (#[trigger] self.links@[j]).id@ != id@,
            decreases self.links@.len() - i,
        {
            if self.links[i].id == *id {
                return Some(i);
            }
            i = i + 1;
        }
        None
    }

    /// Inserts a link and returns the stored row. An identifier already in
    /// use fails, as a unique constraint does, and changes nothing.
    pub fn insert_link(&mut self, id: String, target_url: String) -> (r: Result<Link, StoreError>)
        requires
            old(self).wf(),
        ensures
            final(self).wf(),
            final(self).events() == old(self).events(),
            old(self).links().contains_key(id@) ==> r is Err && final(self).links() == old(
                self,
            ).links(),
            !old(self).links().contains_key(id@) ==> r is Ok && r->Ok_0.id@ == id@
                && r->Ok_0.target_url@ == target_url@ && final(self).links() == old(
                self,
            ).links().insert(id@, target_url@),
    {
        if self.find_index(&id).is_some() {
            return Err(StoreError::DataStore("duplicate link identifier".to_owned()));
        }
        let link = Link { id, target_url };
        let row = copy_link(&link);
        let ghost prev = self.links@;
        self.links.push(link);
        self.stored = Ghost(self.stored@.insert(row.id@, row.target_url@));
        proof {
            let n = prev.len() as int;
            assert(self.links@[n] == row);
            assert forall|i: int| 0 <= i < n implies #[trigger] self.links@[i] == prev[i] by {}
            assert forall|x: Seq<char>|
                #![trigger self.stored@.contains_key(x)]
                self.stored@.contains_key(x) implies exists|j: int|
                0 <= j < self.links@.len() && (#[trigger] self.links@[j]).id@ == x by {
                if x != row.id@ {
                    let j = choose|j: int| 0 <= j < prev.len() && (#[trigger] prev[j]).id@ == x;
                    assert(self.links@[j] == prev[j]);
                }
            }
            assert forall|i: int, j: int|
                0 <= i < self.links@.len() && 0 <= j < self.links@.len() && i != j implies (
                #[trigger] self.links@[i]).id@ != (#[trigger] self.links@[j]).id@ by {
                if i == n {
                    assert(prev[j].id@ != row.id@);
                } else if j == n {
                    assert(prev[i].id@ != row.id@);
                }
            }
        }
        Ok(row)
    }

    /// Points the link `id` at a new target and returns the stored row. No
    /// such link fails, as a query expecting one row does, and changes
    /// nothing.
    pub fn update_link(&mut self, id: String, target_url: String) -> (r: Result<Link, StoreError>)
        requires
            old(self).wf(),
        ensures
            final(self).wf(),
            final(self).events() == old(self).events(),
            !old(self).links().contains_key(id@) ==> r is Err && final(self).links() == old(
                self,
            ).links(),
            old(self).links().contains_key(id@) ==> r is Ok && r->Ok_0.id@ == id@
                && r->Ok_0.target_url@ == target_url@ && final(self).links() == old(
                self,
            ).links().insert(id@, target_url@),
    {
        match self.find_index(&id) {
            None => Err(
                StoreError::DataStore(
                    "no rows returned by a query that expected to return at least one row".to_owned(),
                ),
            ),
            Some(i) => {
                let link = Link { id, target_url };
                let row = copy_link(&link);
                let ghost prev = self.links@;
                self.links.set(i, link);
                self.stored = Ghost(self.stored@.insert(row.id@, row.target_url@));
                proof {
                    assert forall|j: int| 0 <= j < prev.len() && j != i implies #[trigger] self.links@[j]
                        == prev[j] by {}
                    assert forall|x: Seq<char>|
                        #![trigger self.stored@.contains_key(x)]
                        self.stored@.contains_key(x) implies exists|j: int|
                        0 <= j < self.links@.len() && (#[trigger] self.links@[j]).id@ == x by {
                        if x != row.id@ {
                            let j = choose|j: int| 0 <= j < prev.len() && (#[trigger] prev[j]).id@ == x;
                            assert(self.links@[j] == prev[j]);
                        } else {
                            assert(self.links@[i as int].id@ == x);
                        }
                    }
                }
                Ok(row)
            },
        }
    }

    /// The link stored under `id`, or `None` where there is none.
    pub fn find_link(&self, id: &str) -> (r: Option<Link>)
        requires
            self.wf(),
        ensures
            lookup_outcome(Ok(r)) == Ok::<Option<Seq<char>>, Seq<char>>(lookup(self.links(), id@)),
            r is Some ==> r->Some_0.id@ == id@,
    {
        let key = id.to_owned();
        match self.find_index(&key) {
            Some(i) => Some(copy_link(&self.links[i])),
            None => None,
        }
    }

    /// Appends one event.
    pub fn record_statistic(&mut self, event: LinkStatisticEvent)
        requires
            old(self).wf(),
            old(self).events().len() < i64::MAX,
        ensures
            final(self).wf(),
            final(self).links() == old(self).links(),
            final(self).events() == old(self).events().push(event_view(event)),
    {
        let ghost e = event_view(event);
        assert(old(self).events@.len() == old(self).events().len());
        self.events.push(event);
        assert(events_view(self.events@) =~= events_view(old(self).events@).push(e));
        assert(self.links@ == old(self).links@);
        assert(self.stored@ == old(self).stored@);
        assert(self.events@.len() <= i64::MAX);
    }

    /// The events of `link_id` grouped by (referer, user agent), with the
    /// size of each group; no events give no rows.
    pub fn aggregate_statistics(&self, link_id: &str) -> (r: Vec<CountedLinkStatistic>)
        requires
            self.wf(),
        ensures
            groups_events(r@, self.events(), link_id@),
            (forall|k: int|
                0 <= k < self.events().len() ==> (#[trigger] self.events()[k]).0 != link_id@)
                ==> r@.len() == 0,
    {
        let r = count_statistics(self.events.as_slice(), link_id);
        proof {
            if forall|k: int|
                0 <= k < self.events().len() ==> (#[trigger] self.events()[k]).0 != link_id@ {
                assert forall|k: int| 0 <= k < self.events@.len() implies (
                #[trigger] self.events@[k]).link_id@ != link_id@ by {
                    assert(self.events()[k] == event_view(self.events@[k]));
                }
            }
        }
        r
    }
}

/// A link created from a target that parses, then looked up by its
/// identifier, redirects with 307 to the target's normalized form.
pub proof fn lemma_created_link_redirects(
    links: Map<Seq<char>, Seq<char>>,
    target_url: Seq<char>,
    id: Seq<char>,
)
    requires
        parsed_url_of(target_url) is Some,
        !links.contains_key(id),
    ensures
        ({
            let found = lookup(links.insert(id, parsed_url_of(target_url)->Some_0), id);
            &&& redirect_status(Ok(found)) == STATUS_TEMPORARY_REDIRECT
            &&& found == parsed_url_of(target_url)
        }),
{
}

/// An identifier that no link holds redirects to 404.
pub proof fn lemma_unknown_id_not_found(links: Map<Seq<char>, Seq<char>>, id: Seq<char>)
    requires
        !links.contains_key(id),
    ensures
        redirect_status(Ok(lookup(links, id))) == STATUS_NOT_FOUND,
{
}

/// Recording an event adds exactly one to the count of its own group and
/// leaves every other group's count as it was.
pub proof fn lemma_record_counts_once(
    events: Seq<(Seq<char>, Seq<char>, Seq<char>)>,
    event: (Seq<char>, Seq<char>, Seq<char>),
    link_id: Seq<char>,
    referer: Seq<char>,
    user_agent: Seq<char>,
)
    ensures
        event_count(events.push(event), link_id, referer, user_agent) == event_count(
            events,
            link_id,
            referer,
            user_agent,
        ) + if event == (link_id, referer, user_agent) {
            1nat
        } else {
            0nat
        },
{
    assert(events.push(event).drop_last() == events);
}

} // verus!
