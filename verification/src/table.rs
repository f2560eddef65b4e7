//! Small association tables backing the engine's persistent maps.
//!
//! Lookups scan from the front and updates rewrite the first binding,
//! so the first binding of a key is the authoritative one and the spec
//! view [`seq_get`] reads the same way.

use crate::types::{AccountId, CurrencyId};
use vstd::prelude::*;

verus! {

/// First value bound to `k` in `s`, scanning from the front.
pub open spec fn seq_get<V>(s: Seq<(CurrencyId, V)>, k: CurrencyId) -> Option<V>
    decreases s.len(),
{
    if s.len() == 0 {
        None
    } else if s[0].0 == k {
        Some(s[0].1)
    } else {
        seq_get(s.drop_first(), k)
    }
}

/// First value bound to `(who, k)` in `s`, scanning from the front.
pub open spec fn seq_get2<V>(s: Seq<(AccountId, CurrencyId, V)>, who: AccountId, k: CurrencyId) -> Option<
    V,
>
    decreases s.len(),
{
    if s.len() == 0 {
        None
    } else if s[0].0 == who && s[0].1 == k {
        Some(s[0].2)
    } else {
        seq_get2(s.drop_first(), who, k)
    }
}

proof fn lemma_seq_get_skip_unfold<V>(s: Seq<(CurrencyId, V)>, i: int, k: CurrencyId)
    requires
        0 <= i < s.len(),
    ensures
        seq_get(s.skip(i), k) == if s[i].0 == k {
            Some(s[i].1)
        } else {
            seq_get(s.skip(i + 1), k)
        },
{
    assert(s.skip(i).len() > 0);
    assert(s.skip(i)[0] == s[i]);
    assert(s.skip(i).drop_first() =~= s.skip(i + 1));
}

proof fn lemma_seq_get2_skip_unfold<V>(
    s: Seq<(AccountId, CurrencyId, V)>,
    i: int,
    who: AccountId,
    k: CurrencyId,
)
    requires
        0 <= i < s.len(),
    ensures
        seq_get2(s.skip(i), who, k) == if s[i].0 == who && s[i].1 == k {
            Some(s[i].2)
        } else {
            seq_get2(s.skip(i + 1), who, k)
        },
{
    assert(s.skip(i).len() > 0);
    assert(s.skip(i)[0] == s[i]);
    assert(s.skip(i).drop_first() =~= s.skip(i + 1));
}

proof fn lemma_seq_get_push<V>(s: Seq<(CurrencyId, V)>, k: CurrencyId, v: V, k2: CurrencyId)
    ensures
        seq_get(s.push((k, v)), k2) == if seq_get(s, k2) is Some {
            seq_get(s, k2)
        } else if k2 == k {
            Some(v)
        } else {
            None::<V>
        },
    decreases s.len(),
{
    if s.len() == 0 {
        assert(s.push((k, v))[0] == (k, v));
        assert(s.push((k, v)).drop_first() =~= Seq::<(CurrencyId, V)>::empty());
        assert(seq_get(Seq::<(CurrencyId, V)>::empty(), k2) is None);
        assert(seq_get(s, k2) is None);
    } else {
        assert(s.push((k, v))[0] == s[0]);
        assert(s.push((k, v)).drop_first() =~= s.drop_first().push((k, v)));
        lemma_seq_get_push(s.drop_first(), k, v, k2);
    }
}

proof fn lemma_seq_get2_push<V>(
    s: Seq<(AccountId, CurrencyId, V)>,
    who: AccountId,
    k: CurrencyId,
    v: V,
    who2: AccountId,
    k2: CurrencyId,
)
    ensures
        seq_get2(s.push((who, k, v)), who2, k2) == if seq_get2(s, who2, k2) is Some {
            seq_get2(s, who2, k2)
        } else if who2 == who && k2 == k {
            Some(v)
        } else {
            None::<V>
        },
    decreases s.len(),
{
    if s.len() == 0 {
        assert(s.push((who, k, v))[0] == (who, k, v));
        assert(s.push((who, k, v)).drop_first() =~= Seq::<(AccountId, CurrencyId, V)>::empty());
        assert(seq_get2(Seq::<(AccountId, CurrencyId, V)>::empty(), who2, k2) is None);
        assert(seq_get2(s, who2, k2) is None);
    } else {
        assert(s.push((who, k, v))[0] == s[0]);
        assert(s.push((who, k, v)).drop_first() =~= s.drop_first().push((who, k, v)));
        lemma_seq_get2_push(s.drop_first(), who, k, v, who2, k2);
    }
}

proof fn lemma_seq_get_update<V>(s: Seq<(CurrencyId, V)>, i: int, k: CurrencyId, v: V, k2: CurrencyId)
    requires
        0 <= i < s.len(),
        s[i].0 == k,
        forall|j: int| 0 <= j < i ==> (#[trigger] s[j]).0 != k,
    ensures
        seq_get(s.update(i, (k, v)), k) == Some(v),
        k2 != k ==> seq_get(s.update(i, (k, v)), k2) == seq_get(s, k2),
    decreases i,
{
    if i == 0 {
        assert(s.update(0, (k, v))[0] == (k, v));
        assert(s.update(0, (k, v)).drop_first() =~= s.drop_first());
    } else {
        assert(s.update(i, (k, v))[0] == s[0]);
        assert(s.update(i, (k, v)).drop_first() =~= s.drop_first().update(i - 1, (k, v)));
        assert(forall|j: int|
            0 <= j < i - 1 ==> (#[trigger] s.drop_first()[j]) == s[j + 1]);
        lemma_seq_get_update(s.drop_first(), i - 1, k, v, k2);
    }
}

proof fn lemma_seq_get2_update<V>(
    s: Seq<(AccountId, CurrencyId, V)>,
    i: int,
    who: AccountId,
    k: CurrencyId,
    v: V,
    who2: AccountId,
    k2: CurrencyId,
)
    requires
        0 <= i < s.len(),
        s[i].0 == who && s[i].1 == k,
        forall|j: int| 0 <= j < i ==> !((#[trigger] s[j]).0 == who && s[j].1 == k),
    ensures
        seq_get2(s.update(i, (who, k, v)), who, k) == Some(v),
        !(who2 == who && k2 == k) ==> seq_get2(s.update(i, (who, k, v)), who2, k2) == seq_get2(
            s,
            who2,
            k2,
        ),
    decreases i,
{
    if i == 0 {
        assert(s.update(0, (who, k, v))[0] == (who, k, v));
        assert(s.update(0, (who, k, v)).drop_first() =~= s.drop_first());
    } else {
        assert(s.update(i, (who, k, v))[0] == s[0]);
        assert(s.update(i, (who, k, v)).drop_first() =~= s.drop_first().update(
            i - 1,
            (who, k, v),
        ));
        assert(forall|j: int|
            0 <= j < i - 1 ==> (#[trigger] s.drop_first()[j]) == s[j + 1]);
        lemma_seq_get2_update(s.drop_first(), i - 1, who, k, v, who2, k2);
    }
}

/// A table keyed by currency.
pub struct CurTable<V> {
    pub entries: Vec<(CurrencyId, V)>,
}

impl<V: Copy> CurTable<V> {
    /// The table's spec view: first binding of each key.
    pub open spec fn spec_get(self, k: CurrencyId) -> Option<V> {
        seq_get(self.entries@, k)
    }

    pub fn new() -> (r: Self)
        ensures
            forall|k: CurrencyId| #[trigger] r.spec_get(k) is None,
    {
        let r = CurTable { entries: Vec::new() };
        proof {
            assert(forall|k: CurrencyId| #[trigger] seq_get(r.entries@, k) is None);
        }
        r
    }

    pub fn get(&self, k: CurrencyId) -> (r: Option<V>)
        ensures
            r == self.spec_get(k),
    {
        let ghost s = self.entries@;
        proof {
            assert(s.skip(0) =~= s);
        }
        let n = self.entries.len();
        for i in 0..n
            invariant
                n == self.entries.len(),
                s == self.entries@,
                seq_get(s, k) == seq_get(s.skip(i as int), k),
        {
            proof {
                lemma_seq_get_skip_unfold(s, i as int, k);
            }
            let e = &self.entries[i];
            if e.0 == k {
                return Some(e.1);
            }
        }
        proof {
            assert(s.skip(n as int) =~= Seq::<(CurrencyId, V)>::empty());
        }
        None
    }

    /// Bind `k` to `v`, leaving every other key's binding unchanged.
    #[verifier::loop_isolation(false)]
    pub fn set(&mut self, k: CurrencyId, v: V)
        ensures
            final(self).spec_get(k) == Some(v),
            forall|k2: CurrencyId|
                k2 != k ==> #[trigger] final(self).spec_get(k2) == old(self).spec_get(k2),
    {
        let ghost s = self.entries@;
        proof {
            assert(s.skip(0) =~= s);
        }
        let n = self.entries.len();
        for i in 0..n
            invariant
                n == self.entries.len(),
                s == self.entries@,
                seq_get(s, k) == seq_get(s.skip(i as int), k),
                forall|j: int| 0 <= j < i ==> (#[trigger] s[j]).0 != k,
        {
            proof {
                lemma_seq_get_skip_unfold(s, i as int, k);
            }
            if self.entries[i].0 == k {
                self.entries[i] = (k, v);
                proof {
                    assert forall|k2: CurrencyId| k2 != k implies #[trigger] seq_get(
                        self.entries@,
                        k2,
                    ) == seq_get(s, k2) by {
                        lemma_seq_get_update(s, i as int, k, v, k2);
                    }
                    lemma_seq_get_update(s, i as int, k, v, k);
                }
                return ;
            }
        }
        proof {
            assert(s.skip(n as int) =~= Seq::<(CurrencyId, V)>::empty());
        }
        self.entries.push((k, v));
        proof {
            assert forall|k2: CurrencyId| k2 != k implies #[trigger] seq_get(self.entries@, k2)
                == seq_get(s, k2) by {
                lemma_seq_get_push(s, k, v, k2);
            }
            lemma_seq_get_push(s, k, v, k);
        }
    }
}

/// A table keyed by account and currency.
pub struct AcctTable<V> {
    pub entries: Vec<(AccountId, CurrencyId, V)>,
}

impl<V: Copy> AcctTable<V> {
    /// The table's spec view: first binding of each key pair.
    pub open spec fn spec_get(self, who: AccountId, k: CurrencyId) -> Option<V> {
        seq_get2(self.entries@, who, k)
    }

    pub fn new() -> (r: Self)
        ensures
            forall|who: AccountId, k: CurrencyId| #[trigger] r.spec_get(who, k) is None,
    {
        let r = AcctTable { entries: Vec::new() };
        proof {
            assert(forall|who: AccountId, k: CurrencyId|
                #[trigger] seq_get2(r.entries@, who, k) is None);
        }
        r
    }

    pub fn get(&self, who: AccountId, k: CurrencyId) -> (r: Option<V>)
        ensures
            r == self.spec_get(who, k),
    {
        let ghost s = self.entries@;
        proof {
            assert(s.skip(0) =~= s);
        }
        let n = self.entries.len();
        for i in 0..n
            invariant
                n == self.entries.len(),
                s == self.entries@,
                seq_get2(s, who, k) == seq_get2(s.skip(i as int), who, k),
        {
            proof {
                lemma_seq_get2_skip_unfold(s, i as int, who, k);
            }
            let e = &self.entries[i];
            if e.0 == who && e.1 == k {
                return Some(e.2);
            }
        }
        proof {
            assert(s.skip(n as int) =~= Seq::<(AccountId, CurrencyId, V)>::empty());
        }
        None
    }

    /// Bind `(who, k)` to `v`, leaving every other binding unchanged.
    #[verifier::loop_isolation(false)]
    pub fn set(&mut self, who: AccountId, k: CurrencyId, v: V)
        ensures
            final(self).spec_get(who, k) == Some(v),
            forall|who2: AccountId, k2: CurrencyId|
                !(who2 == who && k2 == k) ==> #[trigger] final(self).spec_get(who2, k2) == old(
                    self,
                ).spec_get(who2, k2),
    {
        let ghost s = self.entries@;
        proof {
            assert(s.skip(0) =~= s);
        }
        let n = self.entries.len();
        for i in 0..n
            invariant
                n == self.entries.len(),
                s == self.entries@,
                seq_get2(s, who, k) == seq_get2(s.skip(i as int), who, k),
                forall|j: int| 0 <= j < i ==> !((#[trigger] s[j]).0 == who && s[j].1 == k),
        {
            proof {
                lemma_seq_get2_skip_unfold(s, i as int, who, k);
            }
            let hit = {
                let e = &self.entries[i];
                e.0 == who && e.1 == k
            };
            if hit {
                self.entries[i] = (who, k, v);
                proof {
                    assert forall|who2: AccountId, k2: CurrencyId|
                        !(who2 == who && k2 == k) implies #[trigger] seq_get2(
                        self.entries@,
                        who2,
                        k2,
                    ) == seq_get2(s, who2, k2) by {
                        lemma_seq_get2_update(s, i as int, who, k, v, who2, k2);
                    }
                    lemma_seq_get2_update(s, i as int, who, k, v, who, k);
                }
                return ;
            }
        }
        proof {
            assert(s.skip(n as int) =~= Seq::<(AccountId, CurrencyId, V)>::empty());
        }
        self.entries.push((who, k, v));
        proof {
            assert forall|who2: AccountId, k2: CurrencyId|
                !(who2 == who && k2 == k) implies #[trigger] seq_get2(self.entries@, who2, k2)
                == seq_get2(s, who2, k2) by {
                lemma_seq_get2_push(s, who, k, v, who2, k2);
            }
            lemma_seq_get2_push(s, who, k, v, who, k);
        }
    }
}

} // verus!
