use vstd::prelude::*;
use crate::lazy_todo::{ToDo, ToDoTrait, ToDoView, TodoError};

verus! {

/// The views of a sequence of records, in the same order.
pub open spec fn views_of(s: Seq<ToDo>) -> Seq<ToDoView> {
    s.map_values(|t: ToDo| t@)
}

/// The sub-sequence of `s`, in order, whose done flag equals `flag`:
/// what a listing with that flag returns.
pub open spec fn listed(s: Seq<ToDoView>, flag: bool) -> Seq<ToDoView>
    decreases s.len(),
{
    if s.len() == 0 {
        Seq::empty()
    } else {
        let rest = listed(s.drop_last(), flag);
        if s.last().done == flag {
            rest.push(s.last())
        } else {
            rest
        }
    }
}

/// Whether some entry of `s` carries the id.
pub open spec fn has_id(s: Seq<ToDoView>, id: int) -> bool {
    exists|i: int| 0 <= i < s.len() && s[i].id == id
}

/// `s` with the done flag of every entry carrying the id set to true, and
/// everything else unchanged.
pub open spec fn mark_done(s: Seq<ToDoView>, id: int) -> Seq<ToDoView> {
    Seq::new(
        s.len(),
        |i: int|
            if s[i].id == id {
                ToDoView {
                    id: s[i].id,
                    description: s[i].description,
                    done: true,
                    create_date: s[i].create_date,
                }
            } else {
                s[i]
            },
    )
}

/// How many entries of `s` carry the description.
pub open spec fn count_with_description(s: Seq<ToDoView>, d: Seq<char>) -> nat
    decreases s.len(),
{
    if s.len() == 0 {
        0
    } else {
        count_with_description(s.drop_last(), d) + (if s.last().description == d {
            1nat
        } else {
            0nat
        })
    }
}

/// A listing of `s.push(e)` is the listing of `s`, with `e` appended
/// exactly when its done flag matches.
pub proof fn lemma_listed_push(s: Seq<ToDoView>, e: ToDoView, flag: bool)
    ensures
        listed(s.push(e), flag) == if e.done == flag {
            listed(s, flag).push(e)
        } else {
            listed(s, flag)
        },
{
    assert(s.push(e).drop_last() =~= s);
    assert(s.push(e).last() == e);
}

/// A listing holds exactly the entries of the store whose done flag
/// matches, kept as values.
pub proof fn lemma_listed_contains(s: Seq<ToDoView>, flag: bool)
    ensures
        forall|x: ToDoView|
            #[trigger] listed(s, flag).contains(x) <==> s.contains(x) && x.done == flag,
    decreases s.len(),
{
    if s.len() == 0 {
    } else {
        lemma_listed_contains(s.drop_last(), flag);
        assert(s =~= s.drop_last().push(s.last()));
        assert forall|x: ToDoView|
            #[trigger] listed(s, flag).contains(x) <==> s.contains(x) && x.done == flag by {
            assert(listed(s.drop_last(), flag).contains(x) <==> s.drop_last().contains(x)
                && x.done == flag);
            vstd::seq_lib::lemma_seq_contains_after_push(s.drop_last(), s.last(), x);
            if s.last().done == flag {
                vstd::seq_lib::lemma_seq_contains_after_push(
                    listed(s.drop_last(), flag),
                    s.last(),
                    x,
                );
            }
        }
    }
}

/// No entry of `s` carries the description exactly when the count is zero.
pub proof fn lemma_count_zero(s: Seq<ToDoView>, d: Seq<char>)
    ensures
        count_with_description(s, d) == 0 <==> (forall|i: int|
            0 <= i < s.len() ==> s[i].description != d),
    decreases s.len(),
{
    if s.len() == 0 {
    } else {
        lemma_count_zero(s.drop_last(), d);
        assert(s.last() == s[s.len() - 1]);
        assert(forall|i: int| 0 <= i < s.len() - 1 ==> s.drop_last()[i] == s[i]);
    }
}

/// The in-memory store: a substitute for the database-backed one behind the
/// same interface, holding its entries in a vector. It assigns ids the way
/// the database does, counting up from one, and leaves the timestamp empty —
/// it exists to exercise the logic, not the clock. It is the implementation
/// whose operations carry exact contracts.
pub struct MemToDo {
    entries: Vec<ToDo>,
    next_id: i64,
}

impl View for MemToDo {
    type V = Seq<ToDoView>;

    closed spec fn view(&self) -> Seq<ToDoView> {
        views_of(self.entries@)
    }
}

impl MemToDo {
    /// The store's invariant: ids strictly increase in store order (so they
    /// are unique and never reused), and every id is below the next to be
    /// assigned.
    pub closed spec fn wf(self) -> bool {
        &&& 1 <= self.next_id
        &&& forall|i: int, j: int| 0 <= i < j < self@.len() ==> self@[i].id < self@[j].id
        &&& forall|i: int| 0 <= i < self@.len() ==> self@[i].id < self.next_id
    }

    /// The id the next insertion will assign.
    pub closed spec fn next_id_spec(self) -> int {
        self.next_id as int
    }

    /// What the invariant gives callers outside this module: no two entries
    /// of the store share an id.
    pub proof fn lemma_wf_ids_distinct(self)
        requires
            self.wf(),
        ensures
            forall|i: int, j: int|
                0 <= i < self@.len() && 0 <= j < self@.len() && i != j ==> self@[i].id
                    != self@[j].id,
    {
        assert forall|i: int, j: int|
            0 <= i < self@.len() && 0 <= j < self@.len() && i != j implies self@[i].id
            != self@[j].id by {
            if i < j {
                assert(self@[i].id < self@[j].id);
            } else {
                assert(self@[j].id < self@[i].id);
            }
        }
    }

    /// An empty store: no entries, ids starting at one.
    pub fn new() -> (r: MemToDo)
        ensures
            r@ == Seq::<ToDoView>::empty(),
            r.wf(),
            r.next_id_spec() == 1,
    {
        let r = MemToDo { entries: Vec::new(), next_id: 1 };
        proof {
            assert(r@ =~= Seq::<ToDoView>::empty());
        }
        r
    }
}

impl ToDoTrait for MemToDo {
    open spec fn inv(self) -> bool {
        self.wf()
    }

    /// A listing never fails, and returns exactly the entries whose done
    /// flag matches, in store order.
    open spec fn get_all_ens(self, checked: bool, r: Result<Vec<ToDo>, TodoError>) -> bool {
        match r {
            Ok(v) => views_of(v@) == listed(self@, checked),
            Err(_) => false,
        }
    }

    /// An insertion appends one entry carrying the given description, not
    /// done, under the next id; it fails, leaving the store unchanged, only
    /// when the id space is exhausted.
    open spec fn insert_ens(self, post: Self, description: Seq<char>, r: Result<(), TodoError>) -> bool {
        if self.next_id_spec() < i64::MAX {
            &&& r == Result::<(), TodoError>::Ok(())
            &&& post@ == self@.push(
                (ToDoView {
                    id: self.next_id_spec(),
                    description: description,
                    done: false,
                    create_date: Seq::<char>::empty(),
                }),
            )
            &&& post.next_id_spec() == self.next_id_spec() + 1
        } else {
            &&& r == Result::<(), TodoError>::Err(TodoError::InsertError)
            &&& post@ == self@
            &&& post.next_id_spec() == self.next_id_spec()
        }
    }

    /// Where the store holds the id, the entry's done flag is set and
    /// everything else is kept; where it does not, the call fails with
    /// UpdateError carrying the id, and no row is altered.
    open spec fn mark_as_done_ens(self, post: Self, id: i64, r: Result<(), TodoError>) -> bool {
        &&& post.next_id_spec() == self.next_id_spec()
        &&& if has_id(self@, id as int) {
            r == Result::<(), TodoError>::Ok(()) && post@ == mark_done(self@, id as int)
        } else {
            r == Result::<(), TodoError>::Err(TodoError::UpdateError(id)) && post@ == self@
        }
    }

    fn get_all(&self, checked: bool) -> (r: Result<Vec<ToDo>, TodoError>) {
        let mut out: Vec<ToDo> = Vec::new();
        let n = self.entries.len();
        let mut i: usize = 0;
        proof {
            assert(self@.take(0) =~= Seq::<ToDoView>::empty());
        }
        while i < n
            invariant
                n == self.entries.len(),
                i <= n,
                views_of(out@) == listed(self@.take(i as int), checked),
            decreases n - i,
        {
            let e = &self.entries[i];
            proof {
                assert(self@.take(i + 1) =~= self@.take(i as int).push(self@[i as int]));
                lemma_listed_push(self@.take(i as int), self@[i as int], checked);
            }
            if e.done == checked {
                let copy = ToDo {
                    id: e.id,
                    description: e.description.clone(),
                    done: e.done,
                    create_date: e.create_date.clone(),
                };
                proof {
                    assert(copy@ == self@[i as int]);
                    assert(views_of(out@.push(copy)) =~= views_of(out@).push(copy@));
                }
                out.push(copy);
            }
            i += 1;
        }
        proof {
            assert(self@.take(n as int) =~= self@);
        }
        Ok(out)
    }

    fn insert(&mut self, description: String) -> (r: Result<(), TodoError>) {
        if self.next_id == i64::MAX {
            return Err(TodoError::InsertError);
        }
        let id = self.next_id;
        self.next_id = self.next_id + 1;
        let entry = ToDo { id, description, done: false, create_date: String::new() };
        let ghost entry_view = entry@;
        self.entries.push(entry);
        proof {
            assert(self@ =~= old(self)@.push(entry_view));
            assert(forall|k: int|
                0 <= k < old(self)@.len() ==> #[trigger] old(self)@[k].id < id as int);
        }
        Ok(())
    }

    fn mark_as_done(&mut self, id: i64) -> (r: Result<(), TodoError>) {
        let n = self.entries.len();
        let mut j: usize = 0;
        while j < n
            invariant
                *self == *old(self),
                old(self).inv(),
                n == self.entries.len(),
                j <= n,
                forall|k: int| 0 <= k < j ==> self@[k].id != id as int,
            decreases n - j,
        {
            if self.entries[j].id == id {
                self.entries[j].done = true;
                proof {
                    let pre = old(self)@;
                    assert(pre[j as int].id == id as int);
                    assert forall|k: int| 0 <= k < self@.len() implies self@[k] == mark_done(
                        pre,
                        id as int,
                    )[k] by {
                        if k < j as int {
                            assert(pre[k].id != id as int);
                        } else if k > j as int {
                            assert(pre[j as int].id < pre[k].id);
                        }
                    }
                    assert(self@ =~= mark_done(pre, id as int));
                    assert(forall|k: int|
                        0 <= k < self@.len() ==> #[trigger] self@[k].id == pre[k].id);
                }
                return Ok(());
            }
            j += 1;
        }
        Err(TodoError::UpdateError(id))
    }
}

/// Inserting an entry whose description no undone entry already carries,
/// then listing the undone entries, shows exactly one entry with that
/// description: the new one, present and not done.
pub proof fn lemma_insert_then_list_undone(s: Seq<ToDoView>, m: ToDoView)
    requires
        !m.done,
        forall|i: int| 0 <= i < s.len() ==> s[i].done || s[i].description != m.description,
    ensures
        count_with_description(listed(s.push(m), false), m.description) == 1,
        listed(s.push(m), false).contains(m),
{
    lemma_listed_push(s, m, false);
    let base = listed(s, false);
    lemma_listed_contains(s, false);
    assert forall|i: int| 0 <= i < base.len() implies base[i].description != m.description by {
        assert(base.contains(base[i]));
        let k = choose|k: int| 0 <= k < s.len() && s[k] == base[i];
        assert(s[k].done || s[k].description != m.description);
    }
    lemma_count_zero(base, m.description);
    assert(base.push(m).drop_last() =~= base);
    assert(base.push(m).last() == m);
    assert(base.push(m)[base.len() as int] == m);
    assert(base.push(m).contains(m));
}

/// Marking an id the store holds, then listing: the done listing includes
/// an entry carrying that id, every entry of the done listing is done, and
/// the id no longer appears in the undone listing.
pub proof fn lemma_mark_then_list(s: Seq<ToDoView>, id: int)
    requires
        has_id(s, id),
    ensures
        has_id(listed(mark_done(s, id), true), id),
        forall|j: int|
            0 <= j < listed(mark_done(s, id), true).len() ==> (#[trigger] listed(
                mark_done(s, id),
                true,
            )[j]).done,
        !has_id(listed(mark_done(s, id), false), id),
{
    let md = mark_done(s, id);
    lemma_listed_contains(md, true);
    lemma_listed_contains(md, false);
    let i = choose|i: int| 0 <= i < s.len() && s[i].id == id;
    assert(md[i].id == id && md[i].done);
    assert(md.contains(md[i]));
    assert(listed(md, true).contains(md[i]));
    let j = choose|j: int| 0 <= j < listed(md, true).len() && listed(md, true)[j] == md[i];
    assert(listed(md, true)[j].id == id);
    assert forall|j2: int|
        0 <= j2 < listed(md, true).len() implies (#[trigger] listed(md, true)[j2]).done by {
        assert(0 <= j2 < listed(md, true).len() && listed(md, true)[j2] == listed(md, true)[j2]);
        assert(listed(md, true).contains(listed(md, true)[j2]));
    }
    assert forall|j2: int|
        0 <= j2 < listed(md, false).len() implies (#[trigger] listed(md, false)[j2]).id != id by {
        let x = listed(md, false)[j2];
        assert(listed(md, false).contains(x));
        let k = choose|k: int| 0 <= k < md.len() && md[k] == x;
        assert(!x.done);
        if s[k].id == id {
            assert(md[k].done);
        }
    }
}

/// The two listings partition the store: every entry stands in the done
/// listing exactly when its flag is set, in the undone listing exactly when
/// it is not, and the two listings together are as long as the store, so
/// nothing is listed twice or dropped.
pub proof fn lemma_listings_partition(s: Seq<ToDoView>)
    ensures
        listed(s, true).len() + listed(s, false).len() == s.len(),
        forall|i: int|
            0 <= i < s.len() ==> (listed(s, true).contains(#[trigger] s[i]) <==> s[i].done),
        forall|i: int|
            0 <= i < s.len() ==> (listed(s, false).contains(#[trigger] s[i]) <==> !s[i].done),
    decreases s.len(),
{
    lemma_listed_contains(s, true);
    lemma_listed_contains(s, false);
    if s.len() > 0 {
        lemma_listings_partition(s.drop_last());
    }
    assert forall|i: int| 0 <= i < s.len() implies s.contains(s[i]) by {
        assert(0 <= i < s.len() && s[i] == s[i]);
    }
}

/// In a store whose ids are distinct — the store invariant — the done and
/// undone listings share no id: no entry is listed twice.
pub proof fn lemma_listings_id_disjoint(s: Seq<ToDoView>)
    requires
        forall|i: int, j: int| 0 <= i < s.len() && 0 <= j < s.len() && i != j ==> s[i].id != s[j].id,
    ensures
        forall|i: int, j: int|
            0 <= i < listed(s, true).len() && 0 <= j < listed(s, false).len()
                ==> (#[trigger] listed(s, true)[i]).id != (#[trigger] listed(s, false)[j]).id,
{
    lemma_listed_contains(s, true);
    lemma_listed_contains(s, false);
    assert forall|i: int, j: int|
        0 <= i < listed(s, true).len() && 0 <= j < listed(s, false).len() implies (#[trigger] listed(
        s,
        true,
    )[i]).id != (#[trigger] listed(s, false)[j]).id by {
        let x = listed(s, true)[i];
        let y = listed(s, false)[j];
        assert(listed(s, true).contains(x));
        assert(listed(s, false).contains(y));
        let a = choose|a: int| 0 <= a < s.len() && s[a] == x;
        let b = choose|b: int| 0 <= b < s.len() && s[b] == y;
        assert(x.done && !y.done);
        assert(a != b);
        assert(s[a].id != s[b].id);
    }
}

/// A listing of an empty store is empty, with either flag; that the call
/// returns it rather than an error is part of get_all's contract.
pub proof fn lemma_list_of_empty(s: Seq<ToDoView>, flag: bool)
    requires
        s.len() == 0,
    ensures
        listed(s, flag).len() == 0,
{
}

} // verus!
