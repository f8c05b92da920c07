//! A goods ledger: quantities of products keyed by product id, held as a
//! vector with unique keys. Factories use one for raw materials and one for
//! finished goods.

use vstd::prelude::*;
use crate::money::{cap_qty, QTY_CAP};

verus! {

/// One line of a ledger.
#[derive(Debug, Clone, Copy, PartialEq, Eq, Structural)]
pub struct LedgerEntry {
    pub product_id: u32,
    pub quantity: u64,
}

/// The quantity a ledger holds of a product; zero when absent.
pub open spec fn ledger_qty(s: Seq<LedgerEntry>, product_id: u32) -> int
    decreases s.len(),
{
    if s.len() == 0 {
        0
    } else if s[0].product_id == product_id {
        s[0].quantity as int
    } else {
        ledger_qty(s.drop_first(), product_id)
    }
}

/// Whether a ledger has a line for a product (possibly with quantity zero).
pub open spec fn ledger_has(s: Seq<LedgerEntry>, product_id: u32) -> bool
    decreases s.len(),
{
    if s.len() == 0 {
        false
    } else if s[0].product_id == product_id {
        true
    } else {
        ledger_has(s.drop_first(), product_id)
    }
}

/// A valid ledger: unique keys, quantities within the cap.
pub open spec fn ledger_wf(s: Seq<LedgerEntry>) -> bool {
    &&& forall|i: int, j: int|
        0 <= i < j < s.len() ==> (#[trigger] s[i]).product_id != (#[trigger] s[j]).product_id
    &&& forall|i: int| 0 <= i < s.len() ==> (#[trigger] s[i]).quantity <= QTY_CAP
}

/// A ledger has a line for a product exactly when some index holds it.
pub proof fn lemma_ledger_has_index(s: Seq<LedgerEntry>, product_id: u32)
    ensures
        ledger_has(s, product_id) <==> exists|i: int|
            0 <= i < s.len() && (#[trigger] s[i]).product_id == product_id,
    decreases s.len(),
{
    if s.len() > 0 {
        lemma_ledger_has_index(s.drop_first(), product_id);
        if s[0].product_id == product_id {
            assert(s[0].product_id == product_id && 0 < s.len());
        } else {
            if ledger_has(s, product_id) {
                let i = choose|i: int|
                    0 <= i < s.drop_first().len() && (#[trigger] s.drop_first()[i]).product_id
                        == product_id;
                assert(s[i + 1].product_id == product_id);
            }
            if exists|i: int| 0 <= i < s.len() && (#[trigger] s[i]).product_id == product_id {
                let i = choose|i: int|
                    0 <= i < s.len() && (#[trigger] s[i]).product_id == product_id;
                assert(s.drop_first()[i - 1].product_id == product_id);
            }
        }
    }
}

/// In a unique-key ledger, the line at any matching index is the product's
/// quantity.
pub proof fn lemma_ledger_at_index(s: Seq<LedgerEntry>, i: int, product_id: u32)
    requires
        ledger_wf(s),
        0 <= i < s.len(),
        s[i].product_id == product_id,
    ensures
        ledger_qty(s, product_id) == s[i].quantity,
        ledger_has(s, product_id),
    decreases s.len(),
{
    if i == 0 {
    } else {
        assert(s[0].product_id != product_id);
        assert(ledger_wf(s.drop_first())) by {
            assert(forall|a: int, b: int|
                0 <= a < b < s.drop_first().len() ==> (#[trigger] s.drop_first()[a]).product_id
                    != (#[trigger] s.drop_first()[b]).product_id) by {
                assert(forall|a: int, b: int|
                    0 <= a < b < s.drop_first().len() ==> s.drop_first()[a] == s[a + 1]
                        && s.drop_first()[b] == s[b + 1]);
            }
        }
        assert(s.drop_first()[i - 1] == s[i]);
        lemma_ledger_at_index(s.drop_first(), i - 1, product_id);
    }
}

/// Replacing the quantity at one line changes that product alone.
pub proof fn lemma_ledger_update(s: Seq<LedgerEntry>, i: int, q: u64, product_id: u32)
    requires
        ledger_wf(s),
        0 <= i < s.len(),
    ensures
        ledger_qty(
            s.update(i, LedgerEntry { product_id: s[i].product_id, quantity: q }),
            product_id,
        ) == if product_id == s[i].product_id {
            q as int
        } else {
            ledger_qty(s, product_id)
        },
        ledger_has(
            s.update(i, LedgerEntry { product_id: s[i].product_id, quantity: q }),
            product_id,
        ) == ledger_has(s, product_id),
    decreases s.len(),
{
    let t = s.update(i, LedgerEntry { product_id: s[i].product_id, quantity: q });
    if i == 0 {
        if s[0].product_id != product_id {
            assert(t.drop_first() =~= s.drop_first());
        }
    } else {
        assert(t[0] == s[0]);
        assert(ledger_wf(s.drop_first())) by {
            assert(forall|a: int, b: int|
                0 <= a < b < s.drop_first().len() ==> s.drop_first()[a] == s[a + 1]
                    && s.drop_first()[b] == s[b + 1]);
        }
        assert(t.drop_first() =~= s.drop_first().update(
            i - 1,
            LedgerEntry { product_id: s[i].product_id, quantity: q },
        ));
        assert(s.drop_first()[i - 1] == s[i]);
        lemma_ledger_update(s.drop_first(), i - 1, q, product_id);
    }
}

/// Appending a line for a new product changes that product alone.
pub proof fn lemma_ledger_push(s: Seq<LedgerEntry>, e: LedgerEntry, product_id: u32)
    ensures
        ledger_qty(s.push(e), product_id) == if ledger_has(s, product_id) {
            ledger_qty(s, product_id)
        } else if e.product_id == product_id {
            e.quantity as int
        } else {
            0
        },
        ledger_has(s.push(e), product_id) == (ledger_has(s, product_id) || e.product_id
            == product_id),
    decreases s.len(),
{
    let t = s.push(e);
    assert(t.len() == s.len() + 1);
    if s.len() == 0 {
        assert(t[0] == e);
        assert(t.drop_first() =~= Seq::<LedgerEntry>::empty());
        assert(ledger_qty(t.drop_first(), product_id) == 0);
        assert(!ledger_has(t.drop_first(), product_id));
        if e.product_id == product_id {
            assert(ledger_qty(t, product_id) == e.quantity);
        } else {
            assert(ledger_qty(t, product_id) == ledger_qty(t.drop_first(), product_id));
        }
    } else {
        assert(t[0] == s[0]);
        assert(t.drop_first() =~= s.drop_first().push(e));
        lemma_ledger_push(s.drop_first(), e, product_id);
        if s[0].product_id == product_id {
            assert(ledger_qty(t, product_id) == s[0].quantity);
            assert(ledger_qty(s, product_id) == s[0].quantity);
            assert(ledger_has(s, product_id));
        } else {
            assert(ledger_qty(t, product_id) == ledger_qty(t.drop_first(), product_id));
            assert(ledger_qty(s, product_id) == ledger_qty(s.drop_first(), product_id));
            assert(ledger_has(t, product_id) == ledger_has(t.drop_first(), product_id));
            assert(ledger_has(s, product_id) == ledger_has(s.drop_first(), product_id));
        }
    }
}

/// Stored quantities stay within the cap.
pub proof fn lemma_ledger_qty_bounds(s: Seq<LedgerEntry>, product_id: u32)
    requires
        forall|i: int| 0 <= i < s.len() ==> (#[trigger] s[i]).quantity <= QTY_CAP,
    ensures
        0 <= ledger_qty(s, product_id) <= QTY_CAP,
    decreases s.len(),
{
    if s.len() > 0 {
        assert(forall|i: int|
            0 <= i < s.drop_first().len() ==> (#[trigger] s.drop_first()[i]).quantity
                <= QTY_CAP) by {
            assert(forall|i: int|
                0 <= i < s.drop_first().len() ==> s.drop_first()[i] == s[i + 1]);
        }
        lemma_ledger_qty_bounds(s.drop_first(), product_id);
    }
}

/// The total units a ledger holds over all products, before capping.
pub open spec fn ledger_units(s: Seq<LedgerEntry>) -> int
    decreases s.len(),
{
    if s.len() == 0 {
        0
    } else {
        ledger_units(s.drop_last()) + s.last().quantity
    }
}

/// Returns the total units a ledger holds, capped.
pub fn ledger_total_units(v: &Vec<LedgerEntry>) -> (r: u64)
    requires
        ledger_wf(v@),
    ensures
        r == cap_qty(ledger_units(v@)),
{
    let mut total: u64 = 0;
    let mut i: usize = 0;
    while i < v.len()
        invariant
            i <= v@.len(),
            ledger_wf(v@),
            total == cap_qty(ledger_units(v@.take(i as int))),
            ledger_units(v@.take(i as int)) >= 0,
        decreases v@.len() - i,
    {
        proof {
            assert(v@.take(i as int + 1).drop_last() =~= v@.take(i as int));
            assert(v@.take(i as int + 1).last() == v@[i as int]);
        }
        total = crate::money::add_qty(total, v[i].quantity);
        i = i + 1;
    }
    proof {
        assert(v@.take(v@.len() as int) =~= v@);
    }
    total
}

/// Looks up the quantity a ledger holds of a product, with the index found.
pub fn ledger_find(v: &Vec<LedgerEntry>, product_id: u32) -> (r: Option<usize>)
    requires
        ledger_wf(v@),
    ensures
        match r {
            Some(i) => i < v@.len() && v@[i as int].product_id == product_id && ledger_qty(
                v@,
                product_id,
            ) == v@[i as int].quantity && ledger_has(v@, product_id),
            None => !ledger_has(v@, product_id) && ledger_qty(v@, product_id) == 0,
        },
{
    let mut i: usize = 0;
    while i < v.len()
        invariant
            i <= v@.len(),
            ledger_wf(v@),
            forall|j: int| 0 <= j < i ==> (#[trigger] v@[j]).product_id != product_id,
        decreases v@.len() - i,
    {
        if v[i].product_id == product_id {
            proof {
                lemma_ledger_at_index(v@, i as int, product_id);
            }
            return Some(i);
        }
        i = i + 1;
    }
    proof {
        lemma_ledger_has_index(v@, product_id);
        if ledger_has(v@, product_id) {
            let j = choose|j: int|
                0 <= j < v@.len() && (#[trigger] v@[j]).product_id == product_id;
            assert(false);
        }
        lemma_ledger_qty_absent(v@, product_id);
    }
    None
}

/// An absent product has quantity zero.
pub proof fn lemma_ledger_qty_absent(s: Seq<LedgerEntry>, product_id: u32)
    requires
        !ledger_has(s, product_id),
    ensures
        ledger_qty(s, product_id) == 0,
    decreases s.len(),
{
    if s.len() > 0 {
        lemma_ledger_qty_absent(s.drop_first(), product_id);
    }
}

/// Returns the quantity a ledger holds of a product.
pub fn ledger_get(v: &Vec<LedgerEntry>, product_id: u32) -> (r: u64)
    requires
        ledger_wf(v@),
    ensures
        r == ledger_qty(v@, product_id),
{
    match ledger_find(v, product_id) {
        Some(i) => v[i].quantity,
        None => 0,
    }
}

/// Adds a quantity of a product to a ledger, saturating at `QTY_CAP`;
/// no other product changes.
pub fn ledger_add(v: &mut Vec<LedgerEntry>, product_id: u32, quantity: u64)
    requires
        ledger_wf(old(v)@),
        quantity <= QTY_CAP,
    ensures
        ledger_wf(final(v)@),
        ledger_qty(final(v)@, product_id) == cap_qty(ledger_qty(old(v)@, product_id) + quantity),
        ledger_has(final(v)@, product_id),
        forall|p: u32|
            p != product_id ==> #[trigger] ledger_qty(final(v)@, p) == ledger_qty(old(v)@, p),
        forall|p: u32|
            p != product_id ==> #[trigger] ledger_has(final(v)@, p) == ledger_has(old(v)@, p),
{
    match ledger_find(v, product_id) {
        Some(i) => {
            let q: u64 = crate::money::add_qty(v[i].quantity, quantity);
            let entry = LedgerEntry { product_id, quantity: q };
            proof {
                lemma_ledger_update(v@, i as int, q, product_id);
            }
            v.set(i, entry);
            proof {
                assert(old(v)@[i as int].product_id == product_id);
                assert(entry == (LedgerEntry {
                    product_id: old(v)@[i as int].product_id,
                    quantity: q,
                }));
                assert(v@ =~= old(v)@.update(i as int, entry));
                assert forall|p: u32| p != product_id implies #[trigger] ledger_qty(v@, p)
                    == ledger_qty(old(v)@, p) by {
                    lemma_ledger_update(old(v)@, i as int, q, p);
                    assert(v@ == old(v)@.update(i as int, LedgerEntry {
                        product_id: old(v)@[i as int].product_id,
                        quantity: q,
                    }));
                }
                assert forall|p: u32| p != product_id implies #[trigger] ledger_has(v@, p)
                    == ledger_has(old(v)@, p) by {
                    lemma_ledger_update(old(v)@, i as int, q, p);
                    assert(v@ == old(v)@.update(i as int, LedgerEntry {
                        product_id: old(v)@[i as int].product_id,
                        quantity: q,
                    }));
                }
            }
        },
        None => {
            let entry = LedgerEntry { product_id, quantity };
            proof {
                lemma_ledger_has_index(old(v)@, product_id);
            }
            v.push(entry);
            proof {
                lemma_ledger_push(old(v)@, entry, product_id);
                assert forall|p: u32| p != product_id implies #[trigger] ledger_qty(v@, p)
                    == ledger_qty(old(v)@, p) by {
                    lemma_ledger_push(old(v)@, entry, p);
                    if !ledger_has(old(v)@, p) {
                        lemma_ledger_qty_absent(old(v)@, p);
                    }
                }
                assert forall|p: u32| p != product_id implies #[trigger] ledger_has(v@, p)
                    == ledger_has(old(v)@, p) by {
                    lemma_ledger_push(old(v)@, entry, p);
                }
            }
        },
    }
}

/// Removes a quantity of a product from a ledger; the caller must not take
/// more than is there. No other product changes, and the line stays (it may
/// reach zero).
pub fn ledger_take(v: &mut Vec<LedgerEntry>, product_id: u32, quantity: u64)
    requires
        ledger_wf(old(v)@),
        quantity <= ledger_qty(old(v)@, product_id),
    ensures
        ledger_wf(final(v)@),
        ledger_qty(final(v)@, product_id) == ledger_qty(old(v)@, product_id) - quantity,
        forall|p: u32|
            p != product_id ==> #[trigger] ledger_qty(final(v)@, p) == ledger_qty(old(v)@, p),
        forall|p: u32|
            p != product_id ==> #[trigger] ledger_has(final(v)@, p) == ledger_has(old(v)@, p),
        ledger_has(final(v)@, product_id) == ledger_has(old(v)@, product_id),
{
    if quantity == 0 {
        proof {
            assert(v@ =~= old(v)@);
        }
        return ;
    }
    match ledger_find(v, product_id) {
        Some(i) => {
            let q: u64 = v[i].quantity - quantity;
            let entry = LedgerEntry { product_id, quantity: q };
            proof {
                lemma_ledger_update(v@, i as int, q, product_id);
            }
            v.set(i, entry);
            proof {
                assert(old(v)@[i as int].product_id == product_id);
                assert(entry == (LedgerEntry {
                    product_id: old(v)@[i as int].product_id,
                    quantity: q,
                }));
                assert(v@ =~= old(v)@.update(i as int, entry));
                assert forall|p: u32| p != product_id implies #[trigger] ledger_qty(v@, p)
                    == ledger_qty(old(v)@, p) by {
                    lemma_ledger_update(old(v)@, i as int, q, p);
                    assert(v@ == old(v)@.update(i as int, LedgerEntry {
                        product_id: old(v)@[i as int].product_id,
                        quantity: q,
                    }));
                }
                assert forall|p: u32| p != product_id implies #[trigger] ledger_has(v@, p)
                    == ledger_has(old(v)@, p) by {
                    lemma_ledger_update(old(v)@, i as int, q, p);
                    assert(v@ == old(v)@.update(i as int, LedgerEntry {
                        product_id: old(v)@[i as int].product_id,
                        quantity: q,
                    }));
                }
            }
        },
        None => {
            proof {
                assert(false);
            }
        },
    }
}

} // verus!
