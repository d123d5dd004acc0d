//! The in-memory order table: records kept in insertion order with unique
//! ids, viewed as a map from order id to status.

use vstd::prelude::*;
use crate::jsontext::{dump_body, dump_text, entry_json, lemma_dump_body_step};

verus! {

/// A single order record: the provider's identifier and its latest status.
pub struct Order {
    pub uuid: String,
    pub status: String,
}

impl View for Order {
    type V = (Seq<char>, Seq<char>);

    open spec fn view(&self) -> (Seq<char>, Seq<char>) {
        (self.uuid@, self.status@)
    }
}

/// The map denoted by a sequence of (id, status) pairs, later pairs winning.
pub open spec fn entries_map(s: Seq<(Seq<char>, Seq<char>)>) -> Map<Seq<char>, Seq<char>>
    decreases s.len(),
{
    if s.len() == 0 {
        Map::empty()
    } else {
        entries_map(s.drop_last()).insert(s.last().0, s.last().1)
    }
}

/// Whether the ids of the pairs are pairwise distinct.
pub open spec fn distinct_ids(s: Seq<(Seq<char>, Seq<char>)>) -> bool {
    forall|i: int, j: int| 0 <= i < j < s.len() ==> s[i].0 != s[j].0
}

proof fn lemma_em_push(s: Seq<(Seq<char>, Seq<char>)>, p: (Seq<char>, Seq<char>))
    ensures
        entries_map(s.push(p)) == entries_map(s).insert(p.0, p.1),
{
    assert(s.push(p).drop_last() =~= s);
    assert(s.push(p).last() == p);
}

proof fn lemma_em_update(s: Seq<(Seq<char>, Seq<char>)>, i: int, p: (Seq<char>, Seq<char>))
    requires
        distinct_ids(s),
        0 <= i < s.len(),
        p.0 == s[i].0,
    ensures
        entries_map(s.update(i, p)) == entries_map(s).insert(p.0, p.1),
    decreases s.len(),
{
    let t = s.update(i, p);
    if i == s.len() - 1 {
        assert(t.drop_last() =~= s.drop_last());
        assert(t.last() == p);
        assert(entries_map(s.drop_last()).insert(s.last().0, s.last().1).insert(p.0, p.1)
            =~= entries_map(s.drop_last()).insert(p.0, p.1));
    } else {
        assert(t.drop_last() =~= s.drop_last().update(i, p));
        assert(t.last() == s.last());
        assert forall|a: int, b: int|
            0 <= a < b < s.drop_last().len() implies s.drop_last()[a].0 != s.drop_last()[b].0 by {
            assert(s[a].0 != s[b].0);
        }
        assert(s.drop_last()[i] == s[i]);
        lemma_em_update(s.drop_last(), i, p);
        assert(s.last().0 != p.0);
        assert(entries_map(s.drop_last()).insert(p.0, p.1).insert(s.last().0, s.last().1)
            =~= entries_map(s.drop_last()).insert(s.last().0, s.last().1).insert(p.0, p.1));
    }
}

proof fn lemma_em_contains(s: Seq<(Seq<char>, Seq<char>)>, k: Seq<char>)
    ensures
        entries_map(s).contains_key(k) <==> (exists|i: int| 0 <= i < s.len() && s[i].0 == k),
    decreases s.len(),
{
    if s.len() > 0 {
        lemma_em_contains(s.drop_last(), k);
        if entries_map(s).contains_key(k) {
            if k == s.last().0 {
                assert(s[s.len() - 1].0 == k);
            } else {
                let i = choose|i: int| 0 <= i < s.drop_last().len() && s.drop_last()[i].0 == k;
                assert(s[i].0 == k);
            }
        }
        if exists|i: int| 0 <= i < s.len() && s[i].0 == k {
            let i = choose|i: int| 0 <= i < s.len() && s[i].0 == k;
            if i < s.len() - 1 {
                assert(s.drop_last()[i].0 == k);
            }
        }
    }
}

proof fn lemma_em_at(s: Seq<(Seq<char>, Seq<char>)>, i: int)
    requires
        distinct_ids(s),
        0 <= i < s.len(),
    ensures
        entries_map(s).contains_key(s[i].0),
        entries_map(s)[s[i].0] == s[i].1,
    decreases s.len(),
{
    if i < s.len() - 1 {
        assert forall|a: int, b: int|
            0 <= a < b < s.drop_last().len() implies s.drop_last()[a].0 != s.drop_last()[b].0 by {
            assert(s[a].0 != s[b].0);
        }
        assert(s.drop_last()[i] == s[i]);
        lemma_em_at(s.drop_last(), i);
        assert(s.last().0 != s[i].0);
    }
}

/// The in-memory order table.
pub struct OrderStore {
    orders: Vec<Order>,
}

impl View for OrderStore {
    type V = Map<Seq<char>, Seq<char>>;

    closed spec fn view(&self) -> Map<Seq<char>, Seq<char>> {
        entries_map(self.entries())
    }
}

impl OrderStore {
    /// The (id, status) pairs the table holds, in insertion order.
    pub closed spec fn entries(self) -> Seq<(Seq<char>, Seq<char>)> {
        self.orders@.map_values(|o: Order| o@)
    }

    /// The ids the table holds, in insertion order.
    pub open spec fn ids(self) -> Seq<Seq<char>> {
        self.entries().map_values(|e: (Seq<char>, Seq<char>)| e.0)
    }

    /// Well-formedness: no two records share an id.
    pub closed spec fn wf(self) -> bool {
        distinct_ids(self.entries())
    }

    /// Creates an empty table.
    pub fn new() -> (r: OrderStore)
        ensures
            r.wf(),
            r@ == Map::<Seq<char>, Seq<char>>::empty(),
            r.entries() == Seq::<(Seq<char>, Seq<char>)>::empty(),
    {
        let r = OrderStore { orders: Vec::new() };
        proof {
            assert(r.entries() =~= Seq::<(Seq<char>, Seq<char>)>::empty());
            assert(r@ =~= Map::<Seq<char>, Seq<char>>::empty());
        }
        r
    }

    /// Inserts the record, or overwrites the status of the record that
    /// already carries this id; the id set gains at most the one id.
    pub fn upsert(&mut self, uuid: String, status: String)
        requires
            old(self).wf(),
        ensures
            final(self).wf(),
            final(self)@ == old(self)@.insert(uuid@, status@),
    {
        let ghost old_entries = self.entries();
        let n = self.orders.len();
        let mut i: usize = 0;
        while i < n
            invariant
                i <= n,
                n == self.orders.len(),
                *self == *old(self),
                old_entries == self.entries(),
                distinct_ids(old_entries),
                forall|k: int| 0 <= k < i ==> self.entries()[k].0 != uuid@,
            decreases n - i,
        {
            if self.orders[i].uuid == uuid {
                proof {
                    assert(old_entries[i as int].0 == uuid@);
                }
                self.orders[i] = Order { uuid, status };
                proof {
                    assert(self.entries() =~= old_entries.update(
                        i as int,
                        (uuid@, status@),
                    ));
                    lemma_em_update(old_entries, i as int, (uuid@, status@));
                    assert forall|a: int, b: int|
                        0 <= a < b < self.entries().len() implies self.entries()[a].0
                        != self.entries()[b].0 by {
                        assert(self.entries()[a].0 == old_entries[a].0);
                        assert(self.entries()[b].0 == old_entries[b].0);
                    }
                }
                return;
            }
            i += 1;
        }
        self.orders.push(Order { uuid, status });
        proof {
            assert(self.entries() =~= old_entries.push((uuid@, status@)));
            lemma_em_push(old_entries, (uuid@, status@));
            assert forall|a: int, b: int|
                0 <= a < b < self.entries().len() implies self.entries()[a].0
                != self.entries()[b].0 by {
                if b < old_entries.len() {
                    assert(old_entries[a].0 != old_entries[b].0);
                }
            }
        }
    }

    /// The stored status for an id, if the table holds that id.
    pub fn lookup(&self, uuid: &String) -> (r: Option<String>)
        requires
            self.wf(),
        ensures
            match r {
                Some(st) => self@.contains_key(uuid@) && self@[uuid@] == st@,
                None => !self@.contains_key(uuid@),
            },
    {
        let n = self.orders.len();
        let mut i: usize = 0;
        while i < n
            invariant
                i <= n,
                n == self.orders.len(),
                self.wf(),
                forall|k: int| 0 <= k < i ==> self.entries()[k].0 != uuid@,
            decreases n - i,
        {
            if self.orders[i].uuid == *uuid {
                let st = self.orders[i].status.clone();
                proof {
                    lemma_em_at(self.entries(), i as int);
                }
                return Some(st);
            }
            i += 1;
        }
        proof {
            lemma_em_contains(self.entries(), uuid@);
            if self@.contains_key(uuid@) {
                let w = choose|w: int| 0 <= w < self.entries().len() && self.entries()[w].0
                    == uuid@;
                assert(false);
            }
        }
        None
    }

    /// The ids the table lists are pairwise distinct and are exactly the
    /// keys of its map view.
    pub proof fn lemma_ids_are_keys(self)
        requires
            self.wf(),
        ensures
            self.ids().no_duplicates(),
            forall|k: Seq<char>| #[trigger] self@.contains_key(k) <==> self.ids().contains(k),
    {
        assert forall|a: int, b: int|
            0 <= a < b < self.ids().len() implies self.ids()[a] != self.ids()[b] by {
            assert(self.entries()[a].0 != self.entries()[b].0);
        }
        assert forall|k: Seq<char>| #[trigger] self@.contains_key(k) <==> self.ids().contains(
            k,
        ) by {
            lemma_em_contains(self.entries(), k);
            if self@.contains_key(k) {
                let i = choose|i: int| 0 <= i < self.entries().len() && self.entries()[i].0 == k;
                assert(self.ids()[i] == k);
            }
            if self.ids().contains(k) {
                let i = choose|i: int| 0 <= i < self.ids().len() && self.ids()[i] == k;
                assert(self.entries()[i].0 == k);
            }
        }
    }

    /// Renders the whole table as one JSON object keyed by order id, one
    /// member per record, in insertion order.
    pub fn dump_json(&self) -> (r: String)
        ensures
            r@ == dump_text(self.entries()),
    {
        let mut out = "{".to_owned();
        let n = self.orders.len();
        let mut i: usize = 0;
        while i < n
            invariant
                i <= n,
                n == self.orders.len(),
                out@ == "{"@ + dump_body(self.entries().take(i as int)),
            decreases n - i,
        {
            let ghost pre = out@;
            if i > 0 {
                out.append(",");
            }
            let entry = entry_json(self.orders[i].uuid.as_str(), self.orders[i].status.as_str());
            out.append(entry.as_str());
            proof {
                lemma_dump_body_step(self.entries(), i as int);
                if i == 0 {
                    assert(self.entries().take(0) =~= Seq::<(Seq<char>, Seq<char>)>::empty());
                    assert(pre =~= "{"@);
                }
                assert(out@ =~= "{"@ + dump_body(self.entries().take(i as int + 1)));
            }
            i += 1;
        }
        out.append("}");
        proof {
            assert(self.entries().take(n as int) =~= self.entries());
            assert(out@ =~= dump_text(self.entries()));
        }
        out
    }
}

} // verus!
