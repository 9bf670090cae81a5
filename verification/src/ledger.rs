use vstd::prelude::*;

use crate::item::Item;
use crate::sat_add64;

verus! {

/// The quantity a ledger holds for `item`: its first entry for `item`, or
/// zero. Ledgers hold non-negative quantities by construction.
pub open spec fn lookup_qty(s: Seq<(Item, u64)>, item: Item) -> int
    decreases s.len(),
{
    if s.len() == 0 {
        0
    } else if s[0].0 == item {
        s[0].1 as int
    } else {
        lookup_qty(s.skip(1), item)
    }
}

/// The signed quantity an asset list holds for `item`.
pub open spec fn lookup_signed(s: Seq<(Item, i64)>, item: Item) -> int
    decreases s.len(),
{
    if s.len() == 0 {
        0
    } else if s[0].0 == item {
        s[0].1 as int
    } else {
        lookup_signed(s.skip(1), item)
    }
}

/// Reads a ledger.
pub fn get_qty(v: &Vec<(Item, u64)>, item: Item) -> (r: u64)
    ensures
        r == lookup_qty(v@, item),
{
    let ghost s = v@;
    proof {
        assert(s.skip(0) =~= s);
    }
    let mut i: usize = 0;
    while i < v.len()
        invariant
            0 <= i <= s.len(),
            v@ == s,
            lookup_qty(s.skip(i as int), item) == lookup_qty(s, item),
        decreases s.len() - i,
    {
        proof {
            assert(s.skip(i as int)[0] == s[i as int]);
        }
        if v[i].0 == item {
            return v[i].1;
        }
        proof {
            assert(s.skip(i as int).skip(1) =~= s.skip(i as int + 1));
        }
        i = i + 1;
    }
    proof {
        assert(s.skip(i as int).len() == 0);
    }
    0
}

/// Reads a signed asset list.
pub fn get_signed(v: &Vec<(Item, i64)>, item: Item) -> (r: i64)
    ensures
        r == lookup_signed(v@, item),
{
    let ghost s = v@;
    proof {
        assert(s.skip(0) =~= s);
    }
    let mut i: usize = 0;
    while i < v.len()
        invariant
            0 <= i <= s.len(),
            v@ == s,
            lookup_signed(s.skip(i as int), item) == lookup_signed(s, item),
        decreases s.len() - i,
    {
        proof {
            assert(s.skip(i as int)[0] == s[i as int]);
        }
        if v[i].0 == item {
            return v[i].1;
        }
        proof {
            assert(s.skip(i as int).skip(1) =~= s.skip(i as int + 1));
        }
        i = i + 1;
    }
    proof {
        assert(s.skip(i as int).len() == 0);
    }
    0
}

proof fn lemma_lookup_update(s: Seq<(Item, u64)>, i: int, item: Item, value: u64, probe: Item)
    requires
        0 <= i < s.len(),
        s[i].0 == item,
        forall|j: int| 0 <= j < i ==> (#[trigger] s[j]).0 != item,
    ensures
        lookup_qty(s.update(i, (item, value)), probe) == if probe == item {
            value as int
        } else {
            lookup_qty(s, probe)
        },
    decreases s.len(),
{
    let t = s.update(i, (item, value));
    if i == 0 {
        assert(t[0] == (item, value));
        if probe != item {
            assert(t.skip(1) =~= s.skip(1));
        }
    } else {
        assert(t[0] == s[0]);
        assert(s[0].0 != item);
        assert(t.skip(1) =~= s.skip(1).update(i - 1, (item, value)));
        assert forall|j: int| 0 <= j < i - 1 implies (#[trigger] s.skip(1)[j]).0 != item by {
            assert(s.skip(1)[j] == s[j + 1]);
        }
        assert(s.skip(1)[i - 1] == s[i]);
        lemma_lookup_update(s.skip(1), i - 1, item, value, probe);
    }
}

proof fn lemma_lookup_push(s: Seq<(Item, u64)>, item: Item, value: u64, probe: Item)
    requires
        forall|j: int| 0 <= j < s.len() ==> (#[trigger] s[j]).0 != item,
    ensures
        lookup_qty(s.push((item, value)), probe) == if probe == item {
            value as int
        } else {
            lookup_qty(s, probe)
        },
    decreases s.len(),
{
    let t = s.push((item, value));
    if s.len() == 0 {
        assert(t[0] == (item, value));
        assert(t.skip(1) =~= Seq::<(Item, u64)>::empty());
        assert(lookup_qty(Seq::<(Item, u64)>::empty(), probe) == 0);
    } else {
        assert(t[0] == s[0]);
        assert(t.skip(1) =~= s.skip(1).push((item, value)));
        assert forall|j: int| 0 <= j < s.skip(1).len() implies (#[trigger] s.skip(1)[j]).0
            != item by {
            assert(s.skip(1)[j] == s[j + 1]);
        }
        lemma_lookup_push(s.skip(1), item, value, probe);
    }
}

/// Adds `qty` onto the ledger's entry for `item` (creating it if absent),
/// saturating at `u64::MAX`; every other item's quantity is unchanged.
pub fn add_qty(v: &mut Vec<(Item, u64)>, item: Item, qty: u64)
    ensures
        lookup_qty(final(v)@, item) == sat_add64(lookup_qty(old(v)@, item), qty as int),
        forall|probe: Item| probe != item ==> lookup_qty(final(v)@, probe) == lookup_qty(
            old(v)@,
            probe,
        ),
{
    let ghost s = v@;
    proof {
        assert(s.skip(0) =~= s);
    }
    let mut i: usize = 0;
    while i < v.len()
        invariant
            0 <= i <= s.len(),
            v@ == s,
            old(v)@ == s,
            lookup_qty(s.skip(i as int), item) == lookup_qty(s, item),
            forall|j: int| 0 <= j < i ==> (#[trigger] s[j]).0 != item,
        decreases s.len() - i,
    {
        proof {
            assert(s.skip(i as int)[0] == s[i as int]);
        }
        if v[i].0 == item {
            let updated = crate::vol_add(v[i].1, qty);
            proof {
                assert(lookup_qty(s, item) == s[i as int].1 as int);
            }
            v.set(i, (item, updated));
            proof {
                lemma_lookup_update_all(s, i as int, item, updated);
            }
            return ;
        }
        proof {
            assert(s.skip(i as int).skip(1) =~= s.skip(i as int + 1));
        }
        i = i + 1;
    }
    proof {
        assert(s.skip(i as int).len() == 0);
        assert(lookup_qty(s, item) == 0);
    }
    v.push((item, qty));
    proof {
        lemma_lookup_push_all(s, item, qty);
    }
}

proof fn lemma_lookup_update_all(s: Seq<(Item, u64)>, i: int, item: Item, value: u64)
    requires
        0 <= i < s.len(),
        s[i].0 == item,
        forall|j: int| 0 <= j < i ==> (#[trigger] s[j]).0 != item,
    ensures
        lookup_qty(s.update(i, (item, value)), item) == value as int,
        forall|probe: Item| probe != item ==> lookup_qty(s.update(i, (item, value)), probe)
            == lookup_qty(s, probe),
{
    lemma_lookup_update(s, i, item, value, item);
    assert forall|probe: Item| probe != item implies lookup_qty(
        s.update(i, (item, value)),
        probe,
    ) == lookup_qty(s, probe) by {
        lemma_lookup_update(s, i, item, value, probe);
    }
}

proof fn lemma_lookup_push_all(s: Seq<(Item, u64)>, item: Item, value: u64)
    requires
        forall|j: int| 0 <= j < s.len() ==> (#[trigger] s[j]).0 != item,
    ensures
        lookup_qty(s.push((item, value)), item) == value as int,
        forall|probe: Item| probe != item ==> lookup_qty(s.push((item, value)), probe)
            == lookup_qty(s, probe),
{
    lemma_lookup_push(s, item, value, item);
    assert forall|probe: Item| probe != item implies lookup_qty(
        s.push((item, value)),
        probe,
    ) == lookup_qty(s, probe) by {
        lemma_lookup_push(s, item, value, probe);
    }
}

/// Law: a ledger never holds a negative pending quantity, and every
/// quantity fits the machine word.
pub proof fn lemma_ledger_nonneg(s: Seq<(Item, u64)>, item: Item)
    ensures
        0 <= lookup_qty(s, item) <= u64::MAX,
    decreases s.len(),
{
    if s.len() == 0 {
    } else if s[0].0 == item {
    } else {
        lemma_ledger_nonneg(s.skip(1), item);
    }
}

} // verus!
