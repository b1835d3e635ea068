//! An association table sorted strictly by key, the shape of every
//! mapping of the descriptor index.
//!
//! The table keeps its `(name, value)` entries in strictly increasing
//! lexicographic key order, so iterating a built table always walks keys
//! in the same order whatever the order of insertion was; inserting an
//! existing key replaces its value (last write wins).

use vstd::prelude::*;
use vstd::string::StringExecFns;

use crate::strutil::lemma_lex_asymmetric;
use crate::strutil::lemma_lex_transitive;
use crate::strutil::lemma_lex_trichotomy;
use crate::strutil::lex_lt;
use crate::strutil::str_eq;
use crate::strutil::str_lt;

verus! {

/// An association table sorted strictly by key.
#[derive(Debug, Clone)]
pub struct OrderedTable<V> {
    pub entries: Vec<(String, V)>,
}

impl<V: View> View for OrderedTable<V> {
    type V = Seq<(Seq<char>, V::V)>;

    open spec fn view(&self) -> Seq<(Seq<char>, V::V)> {
        self.entries@.map_values(|e: (String, V)| (e.0@, e.1@))
    }
}

/// Keys appear in strictly increasing lexicographic order.
pub open spec fn table_sorted<M>(s: Seq<(Seq<char>, M)>) -> bool {
    forall|i: int, j: int| 0 <= i < j < s.len() ==> lex_lt(#[trigger] s[i].0, #[trigger] s[j].0)
}

/// The table after putting one binding: existing order kept, an equal key
/// replaced.
pub open spec fn spec_put<M>(s: Seq<(Seq<char>, M)>, k: Seq<char>, v: M) -> Seq<(Seq<char>, M)>
    decreases s.len(),
{
    if s.len() == 0 {
        seq![(k, v)]
    } else if lex_lt(k, s[0].0) {
        seq![(k, v)] + s
    } else if k == s[0].0 {
        seq![(k, v)] + s.skip(1)
    } else {
        seq![s[0]] + spec_put(s.skip(1), k, v)
    }
}

/// The value bound to a key, if any.
pub open spec fn spec_get<M>(s: Seq<(Seq<char>, M)>, k: Seq<char>) -> Option<M>
    decreases s.len(),
{
    if s.len() == 0 {
        None
    } else if s[0].0 == k {
        Some(s[0].1)
    } else {
        spec_get(s.skip(1), k)
    }
}

/// Putting a binding keeps the table sorted, binds the key to the value,
/// and leaves every other key bound as before.
pub proof fn lemma_put<M>(s: Seq<(Seq<char>, M)>, k: Seq<char>, v: M)
    requires
        table_sorted(s),
    ensures
        table_sorted(spec_put(s, k, v)),
        spec_get(spec_put(s, k, v), k) == Some(v),
        forall|k2: Seq<char>|
            k2 != k ==> #[trigger] spec_get(spec_put(s, k, v), k2) == spec_get(s, k2),
    decreases s.len(),
{
    let r = spec_put(s, k, v);
    if s.len() == 0 {
        assert(r =~= seq![(k, v)]);
        assert forall|k2: Seq<char>| k2 != k implies #[trigger] spec_get(r, k2) == spec_get(
            s,
            k2,
        ) by {
            assert(r.skip(1) =~= Seq::<(Seq<char>, M)>::empty());
            assert(spec_get(r, k2) == spec_get(r.skip(1), k2));
            assert(spec_get(r.skip(1), k2) is None);
        }
    } else if lex_lt(k, s[0].0) {
        assert(r =~= seq![(k, v)] + s);
        assert(r.skip(1) =~= s);
        assert forall|i: int, j: int| 0 <= i < j < r.len() implies lex_lt(
            #[trigger] r[i].0,
            #[trigger] r[j].0,
        ) by {
            if i == 0 {
                if j > 1 {
                    lemma_lex_transitive(k, s[0].0, s[j - 1].0);
                }
            }
        }
        lemma_lex_asymmetric(k, s[0].0);
    } else if k == s[0].0 {
        assert(r =~= seq![(k, v)] + s.skip(1));
        assert(r.skip(1) =~= s.skip(1));
        assert forall|i: int, j: int| 0 <= i < j < r.len() implies lex_lt(
            #[trigger] r[i].0,
            #[trigger] r[j].0,
        ) by {
            if i == 0 {
                assert(lex_lt(s[0].0, s[j].0));
            } else {
                assert(lex_lt(s[i].0, s[j].0));
            }
        }
        assert forall|k2: Seq<char>| k2 != k implies #[trigger] spec_get(r, k2) == spec_get(
            s,
            k2,
        ) by {
            assert(r[0].0 == k);
            assert(spec_get(r, k2) == spec_get(r.skip(1), k2));
            assert(spec_get(s, k2) == spec_get(s.skip(1), k2));
        }
    } else {
        lemma_lex_trichotomy(k, s[0].0);
        assert(lex_lt(s[0].0, k));
        let tail = s.skip(1);
        assert(table_sorted(tail)) by {
            assert(forall|i: int, j: int|
                0 <= i < j < tail.len() ==> lex_lt(#[trigger] tail[i].0, #[trigger] tail[j].0));
        }
        lemma_put(tail, k, v);
        let rt = spec_put(tail, k, v);
        assert(r =~= seq![s[0]] + rt);
        assert(r.skip(1) =~= rt);
        // every key of rt is the new key or a key of the tail, so s[0].0
        // sorts below it
        assert forall|j: int| 0 <= j < rt.len() implies lex_lt(s[0].0, rt[j].0) by {
            lemma_put_keys(tail, k, v, j);
            if rt[j].0 == k {
            } else {
                let i = choose|i: int| 0 <= i < tail.len() && tail[i].0 == rt[j].0;
                assert(lex_lt(s[0].0, s[i + 1].0));
            }
        }
        assert forall|i: int, j: int| 0 <= i < j < r.len() implies lex_lt(
            #[trigger] r[i].0,
            #[trigger] r[j].0,
        ) by {
            if i == 0 {
                assert(r[j] == rt[j - 1]);
            }
        }
        lemma_lex_asymmetric(s[0].0, k);
        assert(spec_get(r, k) == spec_get(rt, k));
        assert(spec_get(r, k) == Some(v));
        assert forall|k2: Seq<char>| k2 != k implies #[trigger] spec_get(r, k2) == spec_get(
            s,
            k2,
        ) by {
            if r[0].0 == k2 {
            } else {
                assert(spec_get(r, k2) == spec_get(rt, k2));
                assert(spec_get(s, k2) == spec_get(s.skip(1), k2));
            }
        }
    }
}

/// Every key of a put result is the new key or one of the old keys.
proof fn lemma_put_keys<M>(s: Seq<(Seq<char>, M)>, k: Seq<char>, v: M, j: int)
    requires
        0 <= j < spec_put(s, k, v).len(),
    ensures
        spec_put(s, k, v)[j].0 == k || exists|i: int|
            0 <= i < s.len() && s[i].0 == spec_put(s, k, v)[j].0,
    decreases s.len(),
{
    let r = spec_put(s, k, v);
    if s.len() == 0 {
    } else if lex_lt(k, s[0].0) {
        if j > 0 {
            assert(s[j - 1].0 == r[j].0);
        }
    } else if k == s[0].0 {
        if j > 0 {
            assert(s[j].0 == r[j].0);
        }
    } else {
        if j == 0 {
            assert(s[0].0 == r[0].0);
        } else {
            lemma_put_keys(s.skip(1), k, v, j - 1);
            assert(r[j] == spec_put(s.skip(1), k, v)[j - 1]);
            if spec_put(s.skip(1), k, v)[j - 1].0 != k {
                let i = choose|i: int|
                    0 <= i < s.skip(1).len() && s.skip(1)[i].0 == spec_put(s.skip(1), k, v)[j
                        - 1].0;
                assert(s[i + 1].0 == r[j].0);
            }
        }
    }
}

impl<V: View> OrderedTable<V> {
    /// The keys are strictly sorted.
    pub open spec fn wf(&self) -> bool {
        table_sorted(self@)
    }

    /// An empty table.
    pub fn new() -> (r: OrderedTable<V>)
        ensures
            r@ =~= Seq::<(Seq<char>, V::V)>::empty(),
            r.wf(),
    {
        OrderedTable { entries: Vec::new() }
    }

    /// Binds a key to a value, replacing any previous binding.
    pub fn insert(&mut self, key: String, value: V)
        requires
            old(self).wf(),
        ensures
            final(self).wf(),
            final(self)@ == spec_put(old(self)@, key@, value@),
    {
        proof {
            lemma_put(self@, key@, value@);
        }
        let ghost s0 = self@;
        let mut i: usize = 0;
        while i < self.entries.len() && str_lt(self.entries[i].0.as_str(), key.as_str())
            invariant
                self@ == s0,
                self.entries@.map_values(|e: (String, V)| (e.0@, e.1@)) == s0,
                table_sorted(s0),
                i <= self.entries.len(),
                forall|j: int| 0 <= j < i ==> lex_lt(#[trigger] s0[j].0, key@),
            decreases self.entries.len() - i,
        {
            i += 1;
        }
        let replace = if i < self.entries.len() {
            str_eq(self.entries[i].0.as_str(), key.as_str())
        } else {
            false
        };
        if replace {
            self.entries.remove(i);
            self.entries.insert(i, (key, value));
            proof {
                lemma_put_shape(s0, key@, value@, i as int, true);
                assert(self@ =~= s0.take(i as int) + seq![(key@, value@)] + s0.skip(i + 1));
            }
        } else {
            self.entries.insert(i, (key, value));
            proof {
                if i < s0.len() {
                    lemma_lex_trichotomy(key@, s0[i as int].0);
                }
                lemma_put_shape(s0, key@, value@, i as int, false);
                assert(self@ =~= s0.take(i as int) + seq![(key@, value@)] + s0.skip(i as int));
            }
        }
    }

    /// Looks a key up.
    pub fn get(&self, key: &str) -> (r: Option<&V>)
        ensures
            match r {
                Some(v) => spec_get(self@, key@) == Some(v@),
                None => spec_get(self@, key@) is None,
            },
    {
        let mut i: usize = 0;
        proof {
            assert(self@.skip(0) =~= self@);
        }
        while i < self.entries.len()
            invariant
                i <= self.entries.len(),
                spec_get(self@, key@) == spec_get(self@.skip(i as int), key@),
            decreases self.entries.len() - i,
        {
            if str_eq(self.entries[i].0.as_str(), key) {
                assert(self@.skip(i as int)[0] == self@[i as int]);
                return Some(&self.entries[i].1);
            }
            proof {
                assert(self@.skip(i as int)[0] == self@[i as int]);
                assert(self@.skip(i as int).skip(1) =~= self@.skip(i + 1));
            }
            i += 1;
        }
        assert(self@.skip(i as int).len() == 0);
        None
    }

    /// The number of bindings.
    pub fn len(&self) -> (r: usize)
        ensures
            r == self@.len(),
    {
        self.entries.len()
    }
}

/// Where the scan of `insert` stops, the put result is a splice at that
/// position.
proof fn lemma_put_shape<M>(s: Seq<(Seq<char>, M)>, k: Seq<char>, v: M, pos: int, replace: bool)
    requires
        table_sorted(s),
        0 <= pos <= s.len(),
        forall|j: int| 0 <= j < pos ==> lex_lt(#[trigger] s[j].0, k),
        replace ==> pos < s.len() && s[pos].0 == k,
        !replace && pos < s.len() ==> lex_lt(k, s[pos].0),
    ensures
        replace ==> spec_put(s, k, v) =~= s.take(pos) + seq![(k, v)] + s.skip(pos + 1),
        !replace ==> spec_put(s, k, v) =~= s.take(pos) + seq![(k, v)] + s.skip(pos),
    decreases s.len(),
{
    if s.len() == 0 {
    } else if pos == 0 {
        if replace {
            crate::strutil::lemma_lex_irreflexive(k);
            assert(!lex_lt(k, s[0].0));
            assert(spec_put(s, k, v) == seq![(k, v)] + s.skip(1));
            assert(s.take(0) =~= Seq::<(Seq<char>, M)>::empty());
            assert(spec_put(s, k, v) =~= s.take(0) + seq![(k, v)] + s.skip(1));
        } else {
            assert(lex_lt(k, s[0].0));
            assert(spec_put(s, k, v) =~= s.take(0) + seq![(k, v)] + s.skip(0));
        }
    } else {
        assert(lex_lt(s[0].0, k));
        lemma_lex_asymmetric(s[0].0, k);
        let tail = s.skip(1);
        assert(table_sorted(tail)) by {
            assert(forall|i: int, j: int|
                0 <= i < j < tail.len() ==> lex_lt(#[trigger] tail[i].0, #[trigger] tail[j].0));
        }
        lemma_put_shape(tail, k, v, pos - 1, replace);
        if replace {
            assert(spec_put(s, k, v) =~= seq![s[0]] + (tail.take(pos - 1) + seq![(k, v)]
                + tail.skip(pos)));
            assert(seq![s[0]] + (tail.take(pos - 1) + seq![(k, v)] + tail.skip(pos)) =~= s.take(pos)
                + seq![(k, v)] + s.skip(pos + 1));
        } else {
            assert(spec_put(s, k, v) =~= seq![s[0]] + (tail.take(pos - 1) + seq![(k, v)]
                + tail.skip(pos - 1)));
            assert(seq![s[0]] + (tail.take(pos - 1) + seq![(k, v)] + tail.skip(pos - 1)) =~= s.take(
                pos,
            ) + seq![(k, v)] + s.skip(pos));
        }
    }
}

} // verus!
