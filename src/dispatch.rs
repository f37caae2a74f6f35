//! Subscriptions of one table, and the routing of change notifications to
//! them.

use vstd::prelude::*;

use crate::operation::{OperationNotification, Tabled};
use crate::query::{query_eval, Checkable, EvalError, QueryTree};
use crate::value::JsonObject;

verus! {

broadcast use vstd::std_specs::vec::group_vec_axioms;

/// A live query and the channel its events go to.
pub struct Subscription<C> {
    pub id: String,
    pub query: QueryTree,
    pub channel: C,
}

/// The subscriptions of one table, at most one per id, in order of arrival.
pub struct SubscriptionTable<C> {
    pub subs: Vec<Subscription<C>>,
}

/// What one subscription is sent for one notification.
#[derive(Debug)]
pub enum Event {
    /// The notification itself.
    Forward,
    /// A delete carrying the updated row, for a subscription whose filter no
    /// longer accepts it.
    SyntheticDelete,
    /// A batch insert holding only the rows at these positions.
    Subset(Vec<usize>),
}

/// Whether some subscription of `subs` has id `id`.
pub open spec fn has_id<C>(subs: Seq<Subscription<C>>, id: Seq<char>) -> bool {
    exists|i: int| 0 <= i < subs.len() && (#[trigger] subs[i]).id@ == id
}

/// `subs` after registering `s`: it takes the place of the subscription
/// with the same id, or comes last if there is none.
pub open spec fn subscribed<C>(subs: Seq<Subscription<C>>, s: Subscription<C>) -> Seq<
    Subscription<C>,
> {
    if has_id(subs, s.id@) {
        subs.update(choose|i: int| 0 <= i < subs.len() && (#[trigger] subs[i]).id@ == s.id@, s)
    } else {
        subs.push(s)
    }
}

/// Whether `id` is one of `ids`.
pub open spec fn listed(ids: Seq<String>, id: Seq<char>) -> bool {
    exists|k: int| 0 <= k < ids.len() && (#[trigger] ids[k])@ == id
}

/// `subs` without the subscriptions whose id is listed in `ids`, order kept.
pub open spec fn without_ids<C>(subs: Seq<Subscription<C>>, ids: Seq<String>) -> Seq<
    Subscription<C>,
>
    decreases subs.len(),
{
    if subs.len() == 0 {
        Seq::empty()
    } else if listed(ids, subs.last().id@) {
        without_ids(subs.drop_last(), ids)
    } else {
        without_ids(subs.drop_last(), ids).push(subs.last())
    }
}

/// Positions of the rows that `q` accepts, in order.
pub open spec fn matching_rows(q: QueryTree, rows: Seq<JsonObject>) -> Seq<usize>
    decreases rows.len(),
{
    if rows.len() == 0 {
        Seq::empty()
    } else if query_eval(q, rows.last()) == Ok::<bool, EvalError>(true) {
        matching_rows(q, rows.drop_last()).push((rows.len() - 1) as usize)
    } else {
        matching_rows(q, rows.drop_last())
    }
}

/// The event a subscription with query `q` is sent for notification `n`:
/// a create or delete goes to the queries that accept its row; an update
/// goes to those that accept the new row, and every other query whose
/// filter could be evaluated gets a delete of that row; a batch insert goes,
/// cut down to the accepted rows, to the queries that accept at least one.
/// A query that cannot be evaluated on a row is sent nothing for it.
pub open spec fn event_for(q: QueryTree, n: OperationNotification<JsonObject>, e: Option<Event>) -> bool {
    match n {
        OperationNotification::Create { data, .. } => e == if query_eval(q, data) == Ok::<
            bool,
            EvalError,
        >(true) {
            Some(Event::Forward)
        } else {
            None
        },
        OperationNotification::Delete { data, .. } => e == if query_eval(q, data) == Ok::<
            bool,
            EvalError,
        >(true) {
            Some(Event::Forward)
        } else {
            None
        },
        OperationNotification::Update { data, .. } => e == match query_eval(q, data) {
            Ok(true) => Some(Event::Forward),
            Ok(false) => Some(Event::SyntheticDelete),
            Err(_) => None,
        },
        OperationNotification::CreateMany { data, .. } => {
            let m = matching_rows(q, data@);
            if m.len() == 0 {
                e is None
            } else {
                e is Some && e->0 is Subset && e->0->Subset_0@ == m
            }
        },
    }
}

impl<C> SubscriptionTable<C> {
    /// No two subscriptions share an id.
    pub open spec fn wf(&self) -> bool {
        forall|i: int, j: int|
            0 <= i < j < self.subs@.len() ==> (#[trigger] self.subs@[i]).id@ != (
            #[trigger] self.subs@[j]).id@
    }

    /// A table without subscriptions.
    pub fn new() -> (r: Self)
        ensures
            r.wf(),
            r.subs@.len() == 0,
    {
        SubscriptionTable { subs: Vec::new() }
    }

    /// Register `query` under `id`, replacing the subscription that held
    /// that id, if any, in its place.
    pub fn subscribe(&mut self, id: String, query: QueryTree, channel: C)
        requires
            old(self).wf(),
        ensures
            final(self).wf(),
            final(self).subs@ == subscribed(old(self).subs@, Subscription { id, query, channel }),
    {
        let mut i: usize = 0;
        while i < self.subs.len()
            invariant
                self.wf(),
                i <= self.subs@.len(),
                self.subs@ == old(self).subs@,
                forall|k: int| 0 <= k < i ==> (#[trigger] self.subs@[k]).id@ != id@,
            decreases self.subs.len() - i,
        {
            if self.subs[i].id.eq(&id) {
                let ghost before = self.subs@;
                self.subs.set(i, Subscription { id, query, channel });
                assert forall|a: int, b: int|
                    0 <= a < b < self.subs@.len() implies (#[trigger] self.subs@[a]).id@ != (
                    #[trigger] self.subs@[b]).id@ by {
                    assert(before[a].id@ != before[b].id@);
                }
                proof {
                    let j = choose|j: int| 0 <= j < before.len() && (#[trigger] before[j]).id@ == id@;
                    if j != i {
                        if j < i {
                            assert(before[j].id@ != before[i as int].id@);
                        } else {
                            assert(before[i as int].id@ != before[j].id@);
                        }
                    }
                }
                return;
            }
            i = i + 1;
        }
        self.subs.push(Subscription { id, query, channel });
    }

    /// Remove every subscription whose id is listed in `ids`; the others
    /// stay, in order.
    pub fn prune(&mut self, ids: &Vec<String>)
        requires
            old(self).wf(),
        ensures
            final(self).wf(),
            final(self).subs@ == without_ids(old(self).subs@, ids@),
            forall|k: int| 0 <= k < ids@.len() ==> !has_id(final(self).subs@, (#[trigger] ids@[k])@),
    {
        let ghost start = self.subs@;
        let mut kept: Vec<Subscription<C>> = Vec::new();
        let mut i: usize = 0;
        assert(start.len() == self.subs.len());
        proof { lemma_without_ids_prefix(start, ids@, 0); }
        while self.subs.len() > 0
            invariant
                self.subs@ == start.subrange(i as int, start.len() as int),
                i <= start.len(),
                start.len() <= usize::MAX,
                kept@ == without_ids(start.subrange(0, i as int), ids@),
            decreases self.subs.len(),
        {
            let ghost prefix = start.subrange(0, i + 1);
            assert(prefix.drop_last() =~= start.subrange(0, i as int));
            assert(prefix.last() == start[i as int]);
            let s = self.subs.remove(0);
            if !contains_id(ids, &s.id) {
                kept.push(s);
            }
            i = i + 1;
            assert(self.subs@ =~= start.subrange(i as int, start.len() as int));
        }
        assert(start.subrange(0, i as int) =~= start);
        self.subs = kept;
        proof {
            lemma_without_ids_sound(start, ids@);
            assert forall|k: int| 0 <= k < ids@.len() implies !has_id(
                self.subs@,
                (#[trigger] ids@[k])@,
            ) by {
                if has_id(self.subs@, ids@[k]@) {
                    let j = choose|j: int|
                        0 <= j < self.subs@.len() && (#[trigger] self.subs@[j]).id@ == ids@[k]@;
                    assert(listed(ids@, self.subs@[j].id@));
                }
            }
        }
    }

    /// Remove the subscription with id `id`, if there is one.
    pub fn unsubscribe(&mut self, id: &String)
        requires
            old(self).wf(),
        ensures
            final(self).wf(),
            !has_id(final(self).subs@, id@),
            final(self).subs@ == without_ids(old(self).subs@, seq![*id]),
            forall|i: int|
                0 <= i < old(self).subs@.len() && (#[trigger] old(self).subs@[i]).id@ != id@
                    ==> final(self).subs@.contains(old(self).subs@[i]),
    {
        let mut ids: Vec<String> = Vec::new();
        ids.push(id.clone());
        assert(ids@ =~= seq![*id]);
        self.prune(&ids);
        proof {
            assert(ids@[0]@ == id@);
            assert forall|i: int|
                0 <= i < old(self).subs@.len() && (#[trigger] old(self).subs@[i]).id@ != id@
                    implies self.subs@.contains(old(self).subs@[i]) by {
                lemma_without_ids_keeps(old(self).subs@, ids@, i);
            }
        }
    }
}

fn contains_id(ids: &Vec<String>, id: &String) -> (r: bool)
    ensures
        r == listed(ids@, id@),
{
    let mut k: usize = 0;
    while k < ids.len()
        invariant
            k <= ids@.len(),
            forall|j: int| 0 <= j < k ==> (#[trigger] ids@[j])@ != id@,
        decreases ids.len() - k,
    {
        if ids[k].eq(id) {
            return true;
        }
        k = k + 1;
    }
    false
}

proof fn lemma_without_ids_prefix<C>(subs: Seq<Subscription<C>>, ids: Seq<String>, n: int)
    requires
        n == 0,
    ensures
        without_ids(subs.subrange(0, n), ids) == Seq::<Subscription<C>>::empty(),
{
}

/// Every subscription left by `without_ids` is one of `subs`, not listed.
proof fn lemma_without_ids_sound<C>(subs: Seq<Subscription<C>>, ids: Seq<String>)
    ensures
        forall|j: int|
            0 <= j < without_ids(subs, ids).len() ==> !listed(
                ids,
                (#[trigger] without_ids(subs, ids)[j]).id@,
            ) && subs.contains(without_ids(subs, ids)[j]),
        forall|a: int, b: int|
            0 <= a < b < without_ids(subs, ids).len() ==> exists|x: int, y: int|
                0 <= x < y < subs.len() && subs[x] == (#[trigger] without_ids(subs, ids)[a])
                    && subs[y] == (#[trigger] without_ids(subs, ids)[b]),
    decreases subs.len(),
{
    if subs.len() > 0 {
        let rest = subs.drop_last();
        lemma_without_ids_sound(rest, ids);
        let w = without_ids(subs, ids);
        let wr = without_ids(rest, ids);
        assert forall|j: int| 0 <= j < w.len() implies !listed(ids, (#[trigger] w[j]).id@)
            && subs.contains(w[j]) by {
            if j < wr.len() {
                assert(w[j] == wr[j]);
                let x = choose|x: int| 0 <= x < rest.len() && rest[x] == wr[j];
                assert(subs[x] == wr[j]);
            } else {
                assert(subs[subs.len() - 1] == w[j]);
            }
        }
        assert forall|a: int, b: int| 0 <= a < b < w.len() implies exists|x: int, y: int|
            0 <= x < y < subs.len() && subs[x] == (#[trigger] w[a]) && subs[y] == (
            #[trigger] w[b]) by {
            if b < wr.len() {
                let (x, y) = choose|x: int, y: int|
                    0 <= x < y < rest.len() && rest[x] == wr[a] && rest[y] == wr[b];
                assert(subs[x] == w[a] && subs[y] == w[b]);
            } else {
                assert(w[a] == wr[a]);
                let x = choose|x: int| 0 <= x < rest.len() && rest[x] == wr[a];
                assert(subs[x] == w[a]);
                assert(subs[subs.len() - 1] == w[b]);
            }
        }
    }
}

/// A subscription whose id is not listed survives `without_ids`.
proof fn lemma_without_ids_keeps<C>(subs: Seq<Subscription<C>>, ids: Seq<String>, i: int)
    requires
        0 <= i < subs.len(),
        !listed(ids, subs[i].id@),
    ensures
        without_ids(subs, ids).contains(subs[i]),
    decreases subs.len(),
{
    let rest = subs.drop_last();
    if i == subs.len() - 1 {
        assert(without_ids(subs, ids).last() == subs[i]);
    } else {
        assert(rest[i] == subs[i]);
        lemma_without_ids_keeps(rest, ids, i);
        let j = choose|j: int| 0 <= j < without_ids(rest, ids).len() && without_ids(rest, ids)[j] == subs[i];
        assert(without_ids(subs, ids)[j] == subs[i]);
    }
}

fn matching_positions(q: &QueryTree, rows: &Vec<JsonObject>) -> (r: Vec<usize>)
    ensures
        r@ == matching_rows(*q, rows@),
{
    let mut out: Vec<usize> = Vec::new();
    let mut i: usize = 0;
    while i < rows.len()
        invariant
            i <= rows@.len(),
            out@ == matching_rows(*q, rows@.subrange(0, i as int)),
        decreases rows.len() - i,
    {
        let ghost prefix = rows@.subrange(0, i + 1);
        assert(prefix.drop_last() =~= rows@.subrange(0, i as int));
        assert(prefix.last() == rows@[i as int]);
        match q.check(&rows[i]) {
            Ok(true) => {
                out.push(i);
            },
            _ => {},
        }
        i = i + 1;
    }
    assert(rows@.subrange(0, rows@.len() as int) =~= rows@);
    out
}

fn event_of(q: &QueryTree, n: &OperationNotification<JsonObject>) -> (r: Option<Event>)
    ensures
        event_for(*q, *n, r),
{
    match n {
        OperationNotification::Create { data, .. } => match q.check(data) {
            Ok(true) => Some(Event::Forward),
            _ => None,
        },
        OperationNotification::Delete { data, .. } => match q.check(data) {
            Ok(true) => Some(Event::Forward),
            _ => None,
        },
        OperationNotification::Update { data, .. } => match q.check(data) {
            Ok(true) => Some(Event::Forward),
            Ok(false) => Some(Event::SyntheticDelete),
            Err(_) => None,
        },
        OperationNotification::CreateMany { data, .. } => {
            let m = matching_positions(q, data);
            if m.len() == 0 {
                None
            } else {
                Some(Event::Subset(m))
            }
        },
    }
}

impl<C> SubscriptionTable<C> {
    /// For each subscription, in order, the event it is to be sent for `n`.
    pub fn route(&self, n: &OperationNotification<JsonObject>) -> (r: Vec<Option<Event>>)
        ensures
            r@.len() == self.subs@.len(),
            forall|i: int|
                0 <= i < r@.len() ==> event_for((#[trigger] self.subs@[i]).query, *n, r@[i]),
    {
        let mut out: Vec<Option<Event>> = Vec::new();
        let mut i: usize = 0;
        while i < self.subs.len()
            invariant
                i <= self.subs@.len(),
                out@.len() == i,
                forall|k: int|
                    0 <= k < i ==> event_for((#[trigger] self.subs@[k]).query, *n, out@[k]),
            decreases self.subs.len() - i,
        {
            out.push(event_of(&self.subs[i].query, n));
            i = i + 1;
        }
        out
    }
}

/// The delete sent in place of an update to a subscription whose filter
/// rejects the new row: same table, id and row.
pub open spec fn synthetic_delete_of<T>(n: OperationNotification<T>) -> OperationNotification<T> {
    match n {
        OperationNotification::Update { table, id, data } => OperationNotification::Delete {
            table,
            id,
            data,
        },
        other => other,
    }
}

/// The delete that stands for update `n`.
pub fn synthetic_delete<T>(n: OperationNotification<T>) -> (r: OperationNotification<T>)
    ensures
        r == synthetic_delete_of(n),
{
    match n {
        OperationNotification::Update { table, id, data } => OperationNotification::Delete {
            table,
            id,
            data,
        },
        other => other,
    }
}

/// An update whose new row a subscription's filter rejects sends that
/// subscription exactly one event, a delete carrying the update's table, id
/// and new row.
pub proof fn lemma_update_rejected_sends_delete(
    q: QueryTree,
    n: OperationNotification<JsonObject>,
    e: Option<Event>,
)
    requires
        n is Update,
        query_eval(q, n->Update_data) == Ok::<bool, EvalError>(false),
        event_for(q, n, e),
    ensures
        e == Some(Event::SyntheticDelete),
        synthetic_delete_of(n) == (OperationNotification::Delete {
            table: n->Update_table,
            id: n->Update_id,
            data: n->Update_data,
        }),
{
}

/// Failure of a dispatcher operation.
#[derive(Debug, Clone, Copy, PartialEq, Eq, Structural)]
pub enum DispatchError {
    /// The table is not one the dispatcher was built with.
    UnknownTable,
}

/// The subscriptions of one named table.
pub struct TableSubscriptions<C> {
    pub name: String,
    pub table: SubscriptionTable<C>,
}

/// The subscriptions of every table known at startup.
pub struct Dispatcher<C> {
    pub tables: Vec<TableSubscriptions<C>>,
}

/// Position of the first table named `name`, from position `i` on.
pub open spec fn table_index_from<C>(tables: Seq<TableSubscriptions<C>>, name: Seq<char>, i: int) -> Option<
    int,
>
    decreases tables.len() - i,
{
    if i < 0 || i >= tables.len() {
        None
    } else if tables[i].name@ == name {
        Some(i)
    } else {
        table_index_from(tables, name, i + 1)
    }
}

proof fn lemma_table_index_in_range<C>(tables: Seq<TableSubscriptions<C>>, name: Seq<char>, i: int)
    requires
        0 <= i,
    ensures
        table_index_from(tables, name, i) matches Some(k) ==> i <= k < tables.len()
            && tables[k].name@ == name,
    decreases tables.len() - i,
{
    if i < tables.len() && tables[i].name@ != name {
        lemma_table_index_in_range(tables, name, i + 1);
    }
}

impl<C> Dispatcher<C> {
    /// Position of the first table named `name`.
    pub open spec fn index_of(&self, name: Seq<char>) -> Option<int> {
        table_index_from(self.tables@, name, 0)
    }

    /// Every table's subscriptions are well formed.
    pub open spec fn wf(&self) -> bool {
        forall|i: int| 0 <= i < self.tables@.len() ==> (#[trigger] self.tables@[i]).table.wf()
    }

    /// A dispatcher for the tables `names`, in that order, without
    /// subscriptions.
    pub fn new(names: Vec<String>) -> (r: Self)
        ensures
            r.wf(),
            r.tables@.len() == names@.len(),
            forall|i: int|
                0 <= i < names@.len() ==> (#[trigger] r.tables@[i]).name == names@[i]
                    && r.tables@[i].table.subs@.len() == 0,
    {
        let mut names = names;
        let ghost all = names@;
        let mut tables: Vec<TableSubscriptions<C>> = Vec::new();
        while names.len() > 0
            invariant
                tables@.len() + names@.len() == all.len(),
                names@ == all.subrange(tables@.len() as int, all.len() as int),
                forall|i: int|
                    0 <= i < tables@.len() ==> (#[trigger] tables@[i]).name == all[i]
                        && tables@[i].table.subs@.len() == 0 && tables@[i].table.wf(),
            decreases names.len(),
        {
            let ghost k = tables@.len() as int;
            let name = names.remove(0);
            assert(name == all[k]);
            tables.push(TableSubscriptions { name, table: SubscriptionTable::new() });
            assert(names@ =~= all.subrange(tables@.len() as int, all.len() as int));
        }
        Dispatcher { tables }
    }

    /// Position of the first table named `name`.
    pub fn find(&self, name: &str) -> (r: Option<usize>)
        ensures
            match self.index_of(name@) {
                Some(k) => r == Some(k as usize),
                None => r is None,
            },
    {
        let wanted = String::from_str(name);
        let mut i: usize = 0;
        while i < self.tables.len()
            invariant
                i <= self.tables@.len(),
                wanted@ == name@,
                self.index_of(name@) == table_index_from(self.tables@, name@, i as int),
            decreases self.tables.len() - i,
        {
            if self.tables[i].name.eq(&wanted) {
                return Some(i);
            }
            i = i + 1;
        }
        None
    }

    /// Register `query` under `id` on `table`; unknown tables are refused and
    /// nothing changes.
    pub fn subscribe(&mut self, table: &str, id: String, query: QueryTree, channel: C) -> (r: Result<
        (),
        DispatchError,
    >)
        requires
            old(self).wf(),
        ensures
            final(self).wf(),
            match old(self).index_of(table@) {
                None => r == Err::<(), DispatchError>(DispatchError::UnknownTable)
                    && final(self).tables@ == old(self).tables@,
                Some(k) => {
                    &&& r is Ok
                    &&& final(self).tables@.len() == old(self).tables@.len()
                    &&& final(self).tables@[k].name == old(self).tables@[k].name
                    &&& final(self).tables@[k].table.subs@ == subscribed(
                        old(self).tables@[k].table.subs@,
                        Subscription { id, query, channel },
                    )
                    &&& forall|j: int|
                        0 <= j < old(self).tables@.len() && j != k ==> final(self).tables@[j]
                            == old(self).tables@[j]
                },
            },
    {
        proof { lemma_table_index_in_range(self.tables@, table@, 0); }
        match self.find(table) {
            None => Err(DispatchError::UnknownTable),
            Some(k) => {
                let mut t = self.tables.remove(k);
                assert(t.table.wf());
                t.table.subscribe(id, query, channel);
                self.tables.insert(k, t);
                assert forall|i: int| 0 <= i < self.tables@.len() implies (
                #[trigger] self.tables@[i]).table.wf() by {
                    if i < k {
                        assert(self.tables@[i] == old(self).tables@[i]);
                    } else if i > k {
                        assert(self.tables@[i] == old(self).tables@[i]);
                    }
                }
                Ok(())
            },
        }
    }

    /// Remove from `table` the subscriptions whose id is listed in `ids`.
    pub fn prune(&mut self, table: &str, ids: &Vec<String>) -> (r: Result<(), DispatchError>)
        requires
            old(self).wf(),
        ensures
            final(self).wf(),
            match old(self).index_of(table@) {
                None => r == Err::<(), DispatchError>(DispatchError::UnknownTable)
                    && final(self).tables@ == old(self).tables@,
                Some(k) => {
                    &&& r is Ok
                    &&& final(self).tables@.len() == old(self).tables@.len()
                    &&& final(self).tables@[k].name == old(self).tables@[k].name
                    &&& final(self).tables@[k].table.subs@ == without_ids(
                        old(self).tables@[k].table.subs@,
                        ids@,
                    )
                    &&& forall|j: int|
                        0 <= j < old(self).tables@.len() && j != k ==> final(self).tables@[j]
                            == old(self).tables@[j]
                },
            },
    {
        proof { lemma_table_index_in_range(self.tables@, table@, 0); }
        match self.find(table) {
            None => Err(DispatchError::UnknownTable),
            Some(k) => {
                let mut t = self.tables.remove(k);
                assert(t.table.wf());
                t.table.prune(ids);
                self.tables.insert(k, t);
                assert forall|i: int| 0 <= i < self.tables@.len() implies (
                #[trigger] self.tables@[i]).table.wf() by {
                    if i < k {
                        assert(self.tables@[i] == old(self).tables@[i]);
                    } else if i > k {
                        assert(self.tables@[i] == old(self).tables@[i]);
                    }
                }
                Ok(())
            },
        }
    }

    /// Remove the subscription `id` from `table`; idempotent.
    pub fn unsubscribe(&mut self, table: &str, id: &String) -> (r: Result<(), DispatchError>)
        requires
            old(self).wf(),
        ensures
            final(self).wf(),
            match old(self).index_of(table@) {
                None => r == Err::<(), DispatchError>(DispatchError::UnknownTable)
                    && final(self).tables@ == old(self).tables@,
                Some(k) => {
                    &&& r is Ok
                    &&& final(self).tables@.len() == old(self).tables@.len()
                    &&& !has_id(final(self).tables@[k].table.subs@, id@)
                    &&& final(self).tables@[k].table.subs@ == without_ids(
                        old(self).tables@[k].table.subs@,
                        seq![*id],
                    )
                    &&& forall|j: int|
                        0 <= j < old(self).tables@.len() && j != k ==> final(self).tables@[j]
                            == old(self).tables@[j]
                },
            },
    {
        let mut ids: Vec<String> = Vec::new();
        ids.push(id.clone());
        assert(ids@ =~= seq![*id]);
        let r = self.prune(table, &ids);
        proof {
            if let Some(k) = old(self).index_of(table@) {
                assert(ids@[0]@ == id@);
                let before = old(self).tables@[k].table.subs@;
                lemma_without_ids_sound(before, ids@);
                if has_id(self.tables@[k].table.subs@, id@) {
                    let j = choose|j: int|
                        0 <= j < self.tables@[k].table.subs@.len() && (
                        #[trigger] self.tables@[k].table.subs@[j]).id@ == id@;
                    assert(listed(ids@, without_ids(before, ids@)[j].id@));
                }
            }
        }
        r
    }

    /// For each subscription of the notification's table, in order, the
    /// event it is to be sent; unknown tables are refused.
    pub fn route(&self, n: &OperationNotification<JsonObject>) -> (r: Result<
        Vec<Option<Event>>,
        DispatchError,
    >)
        ensures
            match self.index_of(n.table_of()) {
                None => r == Err::<Vec<Option<Event>>, DispatchError>(DispatchError::UnknownTable),
                Some(k) => {
                    &&& r is Ok
                    &&& r->Ok_0@.len() == self.tables@[k].table.subs@.len()
                    &&& forall|i: int|
                        0 <= i < r->Ok_0@.len() ==> event_for(
                            (#[trigger] self.tables@[k].table.subs@[i]).query,
                            *n,
                            r->Ok_0@[i],
                        )
                },
            },
    {
        proof { lemma_table_index_in_range(self.tables@, n.table_of(), 0); }
        let name = n.get_table();
        assert(name@ == n.table_of());
        match self.find(name) {
            None => Err(DispatchError::UnknownTable),
            Some(k) => {
                let events = self.tables[k].table.route(n);
                assert(self.tables@.len() == self.tables.len());
                assert(self.index_of(n.table_of()) == Some(k as int));
                Ok(events)
            },
        }
    }
}

} // verus!
