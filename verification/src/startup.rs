//! What happens to the store and to the workers when the service starts.

use crate::db::{listed, Db, UserView};
use crate::registry::{as_map, distinct, lemma_as_map_at};
use crate::supervisor::{SpawnOrder, Supervisor, Tasks};
use vstd::prelude::*;

verus! {

/// Whether the account of the record at `i` resolved. A record without an
/// answer counts as one whose account did not.
pub open spec fn resolved_at(resolved: Seq<bool>, i: int) -> bool {
    0 <= i < resolved.len() && resolved[i]
}

/// The names among the first `n` records whose account did not resolve.
pub open spec fn stale(records: Seq<(Seq<char>, UserView)>, resolved: Seq<bool>, n: int) -> Set<
    Seq<char>,
> {
    Set::new(
        |name: Seq<char>|
            exists|i: int| 0 <= i < n && i < records.len() && records[i].0 == name && !resolved_at(resolved, i),
    )
}

proof fn lemma_stale_step(records: Seq<(Seq<char>, UserView)>, resolved: Seq<bool>, i: int)
    requires
        0 <= i < records.len(),
    ensures
        stale(records, resolved, i + 1) == if resolved_at(resolved, i) {
            stale(records, resolved, i)
        } else {
            stale(records, resolved, i).insert(records[i].0)
        },
{
    let wider = stale(records, resolved, i + 1);
    let narrow = stale(records, resolved, i);
    assert forall|name: Seq<char>| wider.contains(name) implies narrow.contains(name) || (
    !resolved_at(resolved, i) && name == records[i].0) by {
        let j = choose|j: int|
            0 <= j < i + 1 && j < records.len() && records[j].0 == name && !resolved_at(
                resolved,
                j,
            );
        if j < i {
            assert(0 <= j < i && j < records.len() && records[j].0 == name && !resolved_at(
                resolved,
                j,
            ));
        }
    }
    assert forall|name: Seq<char>| narrow.contains(name) implies wider.contains(name) by {
        let j = choose|j: int|
            0 <= j < i && j < records.len() && records[j].0 == name && !resolved_at(resolved, j);
        assert(0 <= j < i + 1 && j < records.len() && records[j].0 == name && !resolved_at(
            resolved,
            j,
        ));
    }
    if !resolved_at(resolved, i) {
        assert(0 <= i < i + 1 && i < records.len() && records[i].0 == records[i].0
            && !resolved_at(resolved, i));
        assert(wider.contains(records[i].0));
        assert(wider =~= narrow.insert(records[i].0));
    } else {
        assert(wider =~= narrow);
    }
}

/// Drops the users whose account did not resolve; `resolved` answers for
/// the records of the store in their order.
pub fn drop_stale(db: &mut Db, resolved: &Vec<bool>)
    requires
        old(db).wf(),
    ensures
        final(db).wf(),
        final(db)@ == old(db)@.remove_keys(
            stale(old(db).records(), resolved@, old(db).records().len() as int),
        ),
        final(db).path() == old(db).path(),
        final(db).passphrase() == old(db).passphrase(),
{
    let users = db.users();
    let ghost records = db.records();
    let ghost before = db@;
    let mut i: usize = 0;
    assert(before.remove_keys(stale(records, resolved@, 0)) =~= before);
    while i < users.len()
        invariant
            i <= users.len(),
            listed(users@) == records,
            db.wf(),
            db@ == before.remove_keys(stale(records, resolved@, i as int)),
            db.path() == old(db).path(),
            db.passphrase() == old(db).passphrase(),
        decreases users.len() - i,
    {
        let keep = i < resolved.len() && resolved[i];
        let ghost name = users@[i as int].0@;
        assert(records[i as int].0 == name);
        proof {
            lemma_stale_step(records, resolved@, i as int);
        }
        if !keep {
            db.remove_user(users[i].0.as_str());
            assert(db@ =~= before.remove_keys(stale(records, resolved@, i + 1)));
        }
        i += 1;
    }
}

/// A user who stays is one whose account resolved: after the stale users
/// are dropped, every user left stands at a place that resolved, with the
/// record they had.
pub proof fn lemma_survivors_resolved(
    records: Seq<(Seq<char>, UserView)>,
    resolved: Seq<bool>,
    i: int,
)
    requires
        distinct(records),
        0 <= i < records.len(),
    ensures
        as_map(records).remove_keys(
            stale(records, resolved, records.len() as int),
        ).contains_key(records[i].0) == resolved_at(resolved, i),
{
    lemma_as_map_at(records, i);
    let gone = stale(records, resolved, records.len() as int);
    if gone.contains(records[i].0) {
        let j = choose|j: int|
            0 <= j < records.len() && j < records.len() && records[j].0 == records[i].0
                && !resolved_at(resolved, j);
        assert(j == i);
    }
}

/// The tasks and the orders after a worker was spawned for each authorized
/// user among `records`, in their order.
pub open spec fn started(records: Seq<(Seq<char>, UserView)>, tasks: Tasks) -> (
    Tasks,
    Seq<(Seq<char>, SpawnOrder)>,
)
    decreases records.len(),
{
    if records.len() == 0 {
        (tasks, Seq::empty())
    } else {
        let (so_far, orders) = started(records.drop_last(), tasks);
        let user = records.last();
        if user.1.authorized() && so_far.can_spawn() {
            (so_far.spawn(user.0), orders.push((user.0, so_far.spawn_order(user.0))))
        } else {
            (so_far, orders)
        }
    }
}

/// The orders of a list as values.
pub open spec fn orders_of(orders: Seq<(String, SpawnOrder)>) -> Seq<(Seq<char>, SpawnOrder)> {
    Seq::new(orders.len(), |i: int| (orders[i].0@, orders[i].1))
}

/// Spawns a worker for every user of the store who has authorized the
/// service, and hands back the orders, each with the user it is for.
pub fn spawn_initial_updaters(db: &Db, tasks: &mut Supervisor) -> (orders: Vec<
    (String, SpawnOrder),
>)
    requires
        old(tasks).wf(),
    ensures
        final(tasks).wf(),
        (final(tasks)@, orders_of(orders@)) == started(db.records(), old(tasks)@),
{
    let users = db.users();
    let ghost records = db.records();
    let mut orders: Vec<(String, SpawnOrder)> = Vec::new();
    let mut i: usize = 0;
    assert(records.take(0) =~= Seq::<(Seq<char>, UserView)>::empty());
    assert(orders_of(orders@) =~= Seq::<(Seq<char>, SpawnOrder)>::empty());
    while i < users.len()
        invariant
            i <= users.len(),
            listed(users@) == records,
            tasks.wf(),
            (tasks@, orders_of(orders@)) == started(records.take(i as int), old(tasks)@),
        decreases users.len() - i,
    {
        let ghost so_far = tasks@;
        let ghost listed_orders = orders_of(orders@);
        proof {
            let upto = records.take(i + 1);
            assert(upto.drop_last() =~= records.take(i as int));
            assert(upto.last() == (users@[i as int].0@, users@[i as int].1@));
        }
        if users[i].1.slack_token().is_some() {
            match tasks.spawn(users[i].0.as_str()) {
                Some(order) => {
                    orders.push((users[i].0.clone(), order));
                    assert(orders_of(orders@) =~= listed_orders.push((users@[i as int].0@, order)));
                },
                None => {},
            }
        }
        i += 1;
    }
    assert(records.take(users.len() as int) =~= records);
    orders
}

} // verus!
