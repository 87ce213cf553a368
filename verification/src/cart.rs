//! The session cart: a map of product id to requested quantity, held as an
//! ordered entry list, together with the pricing resolution that clamps
//! requested quantities to live stock and accumulates weight and value
//! totals.
//!
//! The cart itself has no pricing knowledge; `resolve` reconciles it
//! against live catalog rows on every read.

use vstd::prelude::*;
use crate::media::Media;
use crate::strutil::find_from;
use crate::strutil::find_char;
use crate::strutil::parse_i32;
use crate::strutil::spec_parse_i32;
use crate::strutil::split_on;
use crate::strutil::split_str;
use crate::strutil::str_eq;
use vstd::string::StrSliceExecFns;

verus! {

/// Most catalog rows one resolution accepts (guards overflow of totals).
pub const MAX_CART_LINES: usize = 1_000;

/// Largest stock quantity a catalog row may carry into resolution.
pub const QTY_CAP: i32 = 100_000;

/// Largest unit price, in cents, a catalog row may carry into resolution.
pub const PRICE_CENTS_CAP: u64 = 1_000_000_000;

/// Largest unit weight, in grams, a catalog row may carry into resolution.
pub const WEIGHT_GRAMS_CAP: u64 = 1_000_000_000;

/// An "add to cart" request: a product and how many units of it.
#[derive(Debug)]
pub struct ProductToCart {
    pub product_id: i32,
    pub product_quantity: i32,
}

/// A live catalog row for a published product, as the catalog reader
/// returns it. Prices are cents, the weight is grams.
#[derive(Debug)]
pub struct CatalogItem {
    pub id: i32,
    pub name: String,
    pub sku: String,
    pub price: u64,
    pub regular_price: u64,
    pub stock_quantity: i32,
    pub weight: u64,
    pub permalink: String,
    pub image: Media,
}

/// A resolved cart line: a cart entry enriched with live catalog data,
/// its quantity clamped to available stock.
#[derive(Debug)]
pub struct Product {
    pub id: i32,
    pub name: String,
    pub sku: String,
    pub price: u64,
    pub regular_price: u64,
    pub quantity: i32,
    pub weight: u64,
    pub permalink: String,
    pub image: Media,
}

/// The session cart: an ordered list of (product id, requested quantity)
/// entries with the totals of the last resolution.
pub struct Cart {
    /// The (product id, requested quantity) entries, in insertion order.
    pub entries: Vec<(i32, i32)>,
    /// Total weight, in grams, of the last resolution.
    pub total_weight: u64,
    /// Total order value, in cents, of the last resolution.
    pub total_order: u64,
}

/// The quantity map an entry list denotes; later entries win.
pub open spec fn entries_map(s: Seq<(i32, i32)>) -> Map<i32, i32>
    decreases s.len(),
{
    if s.len() == 0 {
        Map::empty()
    } else {
        entries_map(s.drop_last()).insert(s.last().0, s.last().1)
    }
}

/// Pairwise distinct product ids.
pub open spec fn distinct_ids(s: Seq<(i32, i32)>) -> bool {
    forall|i: int, j: int|
        0 <= i < j < s.len() ==> (#[trigger] s[i]).0 != (#[trigger] s[j]).0
}

/// `a + b` clamped into the `i32` range.
pub open spec fn sat_add(a: i32, b: i32) -> i32 {
    if a + b > i32::MAX {
        i32::MAX
    } else if a + b < i32::MIN {
        i32::MIN
    } else {
        (a + b) as i32
    }
}

/// `a + b` with saturation at the `i32` bounds.
fn sat_add_i32(a: i32, b: i32) -> (r: i32)
    ensures
        r == sat_add(a, b),
{
    if b >= 0 {
        if a <= i32::MAX - b {
            a + b
        } else {
            i32::MAX
        }
    } else {
        if a >= i32::MIN - b {
            a + b
        } else {
            i32::MIN
        }
    }
}

/// A key is in the map exactly when some entry carries it.
proof fn lemma_entries_map_dom(s: Seq<(i32, i32)>, id: i32)
    ensures
        entries_map(s).contains_key(id) <==> exists|i: int|
            0 <= i < s.len() && (#[trigger] s[i]).0 == id,
    decreases s.len(),
{
    if s.len() > 0 {
        lemma_entries_map_dom(s.drop_last(), id);
        if s.last().0 == id {
            assert(s[s.len() - 1].0 == id);
        } else if entries_map(s).contains_key(id) {
            let i = choose|i: int| 0 <= i < s.drop_last().len() && (#[trigger] s.drop_last()[i]).0
                == id;
            assert(s[i].0 == id);
        } else if exists|i: int| 0 <= i < s.len() && (#[trigger] s[i]).0 == id {
            let i = choose|i: int| 0 <= i < s.len() && (#[trigger] s[i]).0 == id;
            assert(s.drop_last()[i].0 == id);
        }
    }
}

/// Under distinct ids, the map value at an entry's id is that entry's
/// quantity.
proof fn lemma_entries_map_at(s: Seq<(i32, i32)>, i: int)
    requires
        distinct_ids(s),
        0 <= i < s.len(),
    ensures
        entries_map(s).contains_key(s[i].0),
        entries_map(s)[s[i].0] == s[i].1,
    decreases s.len(),
{
    if i < s.len() - 1 {
        assert(distinct_ids(s.drop_last()));
        lemma_entries_map_at(s.drop_last(), i);
        assert(s.last().0 != s[i].0);
    }
}

/// Updating an entry's quantity in place updates the map binding.
proof fn lemma_entries_map_update(s: Seq<(i32, i32)>, i: int, q: i32)
    requires
        distinct_ids(s),
        0 <= i < s.len(),
    ensures
        entries_map(s.update(i, (s[i].0, q))) == entries_map(s).insert(s[i].0, q),
    decreases s.len(),
{
    let su = s.update(i, (s[i].0, q));
    if i == s.len() - 1 {
        assert(su.drop_last() =~= s.drop_last());
        assert(entries_map(s.drop_last()).insert(s[i].0, s[i].1).insert(s[i].0, q)
            =~= entries_map(s.drop_last()).insert(s[i].0, q));
    } else {
        assert(distinct_ids(s.drop_last()));
        lemma_entries_map_update(s.drop_last(), i, q);
        assert(su.drop_last() =~= s.drop_last().update(i, (s[i].0, q)));
        assert(su.last() == s.last());
        assert(s.last().0 != s[i].0);
        assert(entries_map(s.drop_last()).insert(s[i].0, q).insert(s.last().0, s.last().1)
            =~= entries_map(s.drop_last()).insert(s.last().0, s.last().1).insert(s[i].0, q));
    }
}

/// Removing an entry removes its map binding.
proof fn lemma_entries_map_remove(s: Seq<(i32, i32)>, i: int)
    requires
        distinct_ids(s),
        0 <= i < s.len(),
    ensures
        entries_map(s.remove(i)) == entries_map(s).remove(s[i].0),
    decreases s.len(),
{
    if i == s.len() - 1 {
        assert(s.remove(i) =~= s.drop_last());
        lemma_entries_map_dom(s.drop_last(), s[i].0);
        assert(forall|j: int| 0 <= j < s.drop_last().len() ==> (#[trigger] s.drop_last()[j]).0
            != s[i].0);
        assert(entries_map(s.drop_last()).insert(s[i].0, s[i].1).remove(s[i].0)
            =~= entries_map(s.drop_last()));
    } else {
        assert(distinct_ids(s.drop_last()));
        lemma_entries_map_remove(s.drop_last(), i);
        assert(s.remove(i).drop_last() =~= s.drop_last().remove(i));
        assert(s.remove(i).last() == s.last());
        assert(s.last().0 != s[i].0);
        assert(entries_map(s.drop_last()).remove(s[i].0).insert(s.last().0, s.last().1)
            =~= entries_map(s.drop_last()).insert(s.last().0, s.last().1).remove(s[i].0));
    }
}

/// Appending an entry with a fresh id inserts its binding.
proof fn lemma_entries_map_push(s: Seq<(i32, i32)>, id: i32, q: i32)
    ensures
        entries_map(s.push((id, q))) == entries_map(s).insert(id, q),
{
    assert(s.push((id, q)).drop_last() =~= s);
    assert(s.push((id, q)).last() == (id, q));
}

/// The quantity a cart entry resolves to against a live catalog row:
/// clamped into `[0, stock]`, zero when the product is out of stock or not
/// in the cart at all.
pub open spec fn resolved_qty(m: Map<i32, i32>, it: CatalogItem) -> i32 {
    if !m.contains_key(it.id) {
        0
    } else if it.stock_quantity == 0 {
        0
    } else if m[it.id] > it.stock_quantity {
        it.stock_quantity
    } else if m[it.id] < 0 {
        0
    } else {
        m[it.id]
    }
}

/// The resolved line a catalog row yields at quantity `q`.
pub open spec fn resolved_line(it: CatalogItem, q: i32) -> Product {
    Product {
        id: it.id,
        name: it.name,
        sku: it.sku,
        price: it.price,
        regular_price: it.regular_price,
        quantity: q,
        weight: it.weight,
        permalink: it.permalink,
        image: it.image,
    }
}

/// Total weight of resolved lines: unit weight times quantity, summed.
pub open spec fn sum_weight(s: Seq<Product>) -> int
    decreases s.len(),
{
    if s.len() == 0 {
        0
    } else {
        sum_weight(s.drop_last()) + s.last().weight * s.last().quantity
    }
}

/// Total value of resolved lines: unit price times quantity, summed.
pub open spec fn sum_value(s: Seq<Product>) -> int
    decreases s.len(),
{
    if s.len() == 0 {
        0
    } else {
        sum_value(s.drop_last()) + s.last().price * s.last().quantity
    }
}

/// Catalog rows suitable for resolution: pairwise distinct ids and
/// non-negative stock, all within the caps that keep totals in `u64`.
pub open spec fn items_ok(items: Seq<CatalogItem>) -> bool {
    &&& items.len() <= MAX_CART_LINES
    &&& forall|i: int, j: int|
        0 <= i < j < items.len() ==> (#[trigger] items[i]).id != (#[trigger] items[j]).id
    &&& forall|i: int|
        0 <= i < items.len() ==> {
            let it = #[trigger] items[i];
            0 <= it.stock_quantity <= QTY_CAP && it.weight <= WEIGHT_GRAMS_CAP && it.price
                <= PRICE_CENTS_CAP && it.regular_price <= PRICE_CENTS_CAP
        }
}

/// The ids of rows reported out of stock.
pub open spec fn zero_stock_ids(items: Seq<CatalogItem>) -> Set<i32> {
    Set::new(
        |id: i32|
            exists|i: int|
                0 <= i < items.len() && (#[trigger] items[i]).id == id
                    && items[i].stock_quantity == 0,
    )
}

/// Law: after a resolution, every product the catalog reported out of
/// stock is absent from the cart map (`resolve` ensures the map is the old
/// one with exactly the out-of-stock ids removed).
pub proof fn lemma_zero_stock_removed(m: Map<i32, i32>, items: Seq<CatalogItem>, id: i32)
    requires
        exists|i: int|
            0 <= i < items.len() && (#[trigger] items[i]).id == id && items[i].stock_quantity
                == 0,
    ensures
        !m.remove_keys(zero_stock_ids(items)).contains_key(id),
{
    assert(zero_stock_ids(items).contains(id));
}

/// One `key=value` pair of a batch edit applied to the quantity map and
/// the running product context: `id` parses a product id, resets its entry
/// to zero and makes it the context; `quantity` adds to the context's
/// entry if one exists; `remove` deletes the context's entry; anything
/// else, and any pair that fails to parse, is skipped.
pub open spec fn apply_pair(
    m: Map<i32, i32>,
    ctx: Option<i32>,
    key: Seq<char>,
    value: Seq<char>,
) -> (Map<i32, i32>, Option<i32>) {
    if key == "id"@ {
        match spec_parse_i32(value) {
            Some(id) => (m.insert(id, 0), Some(id)),
            None => (m, ctx),
        }
    } else if key == "quantity"@ {
        match ctx {
            Some(id) => match spec_parse_i32(value) {
                Some(q) => if m.contains_key(id) {
                    (m.insert(id, sat_add(m[id], q)), ctx)
                } else {
                    (m, ctx)
                },
                None => (m, ctx),
            },
            None => (m, ctx),
        }
    } else if key == "remove"@ {
        match ctx {
            Some(id) => (m.remove(id), ctx),
            None => (m, ctx),
        }
    } else {
        (m, ctx)
    }
}

/// One raw token of a batch edit: split at the first `=`; a token without
/// one is skipped.
pub open spec fn apply_token(m: Map<i32, i32>, ctx: Option<i32>, t: Seq<char>) -> (
    Map<i32, i32>,
    Option<i32>,
) {
    let k = find_from(t, 0, '=');
    if k == t.len() {
        (m, ctx)
    } else {
        apply_pair(m, ctx, t.subrange(0, k), t.subrange(k + 1, t.len() as int))
    }
}

/// A token sequence applied left to right, threading the context.
pub open spec fn apply_tokens(m: Map<i32, i32>, ctx: Option<i32>, ts: Seq<Seq<char>>) -> (
    Map<i32, i32>,
    Option<i32>,
)
    decreases ts.len(),
{
    if ts.len() == 0 {
        (m, ctx)
    } else {
        let p = apply_token(m, ctx, ts[0]);
        apply_tokens(p.0, p.1, ts.drop_first())
    }
}

/// The batch-edit semantics of a raw `key=value&key=value` form body.
pub open spec fn spec_update(m: Map<i32, i32>, raw: Seq<char>) -> Map<i32, i32> {
    apply_tokens(m, None, split_on(raw, '&')).0
}

/// Index of the entry carrying `id`, if one exists.
fn find_entry(entries: &Vec<(i32, i32)>, id: i32) -> (r: Option<usize>)
    ensures
        match r {
            Some(k) => k < entries@.len() && entries@[k as int].0 == id,
            None => forall|t: int| 0 <= t < entries@.len() ==> (#[trigger] entries@[t]).0 != id,
        },
{
    let n = entries.len();
    let mut k: usize = 0;
    while k < n
        invariant
            0 <= k <= n,
            n == entries@.len(),
            forall|t: int| 0 <= t < k ==> (#[trigger] entries@[t]).0 != id,
        decreases n - k,
    {
        if entries[k].0 == id {
            return Some(k);
        }
        k += 1;
    }
    None
}

impl Cart {
    /// The entry list, in insertion order.
    pub open spec fn entry_seq(&self) -> Seq<(i32, i32)> {
        self.entries@
    }

    /// The quantity map the cart holds.
    pub open spec fn contents(&self) -> Map<i32, i32> {
        entries_map(self.entry_seq())
    }

    /// Entries carry pairwise distinct product ids.
    pub open spec fn wf(&self) -> bool {
        distinct_ids(self.entry_seq())
    }

    /// An empty cart with zeroed totals.
    pub fn new() -> (c: Cart)
        ensures
            c.wf(),
            c.entry_seq().len() == 0,
            c.contents() == Map::<i32, i32>::empty(),
            c.total_weight == 0,
            c.total_order == 0,
    {
        Cart { entries: Vec::new(), total_weight: 0, total_order: 0 }
    }

    /// Clear the map and the accumulated totals.
    pub fn reset(&mut self)
        ensures
            final(self).wf(),
            final(self).entry_seq().len() == 0,
            final(self).contents() == Map::<i32, i32>::empty(),
            final(self).total_weight == 0,
            final(self).total_order == 0,
    {
        self.entries.clear();
        self.total_weight = 0;
        self.total_order = 0;
    }

    /// Whether the cart holds no entries at all.
    pub fn is_empty(&self) -> (r: bool)
        ensures
            r == (self.entry_seq().len() == 0),
    {
        self.entries.len() == 0
    }

    /// The requested quantity for a product, if an entry exists.
    pub fn get(&self, product_id: i32) -> (r: Option<i32>)
        requires
            self.wf(),
        ensures
            r == (if self.contents().contains_key(product_id) {
                Some(self.contents()[product_id])
            } else {
                None
            }),
    {
        proof {
            lemma_entries_map_dom(self.entry_seq(), product_id);
        }
        match find_entry(&self.entries, product_id) {
            Some(k) => {
                proof {
                    lemma_entries_map_at(self.entry_seq(), k as int);
                }
                Some(self.entries[k].1)
            },
            None => None,
        }
    }

    /// Set a product's requested quantity outright, inserting the entry if
    /// absent.
    pub fn set_quantity(&mut self, product_id: i32, quantity: i32)
        requires
            old(self).wf(),
        ensures
            final(self).wf(),
            final(self).contents() == old(self).contents().insert(product_id, quantity),
            final(self).total_weight == old(self).total_weight,
            final(self).total_order == old(self).total_order,
    {
        match find_entry(&self.entries, product_id) {
            Some(k) => {
                proof {
                    lemma_entries_map_update(self.entry_seq(), k as int, quantity);
                }
                let ghost s0 = self.entries@;
                self.entries.remove(k);
                self.entries.insert(k, (product_id, quantity));
                proof {
                    assert(self.entries@ =~= s0.update(k as int, (product_id, quantity)));
                    assert(distinct_ids(self.entries@));
                }
            },
            None => {
                proof {
                    lemma_entries_map_push(self.entry_seq(), product_id, quantity);
                }
                self.entries.push((product_id, quantity));
                proof {
                    assert(distinct_ids(self.entries@));
                }
            },
        }
    }

    /// AddOrIncrement: accumulate the requested quantity onto an existing
    /// entry (saturating at the `i32` bounds) or insert a new one. No sign
    /// validation happens here; resolution clamps downstream.
    pub fn add(&mut self, product_to_cart: &ProductToCart)
        requires
            old(self).wf(),
        ensures
            final(self).wf(),
            final(self).contents() == old(self).contents().insert(
                product_to_cart.product_id,
                if old(self).contents().contains_key(product_to_cart.product_id) {
                    sat_add(
                        old(self).contents()[product_to_cart.product_id],
                        product_to_cart.product_quantity,
                    )
                } else {
                    product_to_cart.product_quantity
                },
            ),
            final(self).total_weight == old(self).total_weight,
            final(self).total_order == old(self).total_order,
    {
        proof {
            lemma_entries_map_dom(self.entry_seq(), product_to_cart.product_id);
        }
        match find_entry(&self.entries, product_to_cart.product_id) {
            Some(k) => {
                proof {
                    lemma_entries_map_at(self.entry_seq(), k as int);
                }
                let q = sat_add_i32(self.entries[k].1, product_to_cart.product_quantity);
                proof {
                    lemma_entries_map_update(self.entry_seq(), k as int, q);
                }
                let ghost s0 = self.entries@;
                self.entries.remove(k);
                self.entries.insert(k, (product_to_cart.product_id, q));
                proof {
                    assert(self.entries@ =~= s0.update(
                        k as int,
                        (product_to_cart.product_id, q),
                    ));
                    assert(distinct_ids(self.entries@));
                }
            },
            None => {
                proof {
                    lemma_entries_map_push(
                        self.entry_seq(),
                        product_to_cart.product_id,
                        product_to_cart.product_quantity,
                    );
                }
                self.entries.push((product_to_cart.product_id, product_to_cart.product_quantity));
                proof {
                    assert(distinct_ids(self.entries@));
                }
            },
        }
    }

    /// Delete a product's entry; absent ids are a no-op.
    pub fn remove(&mut self, product_id: i32)
        requires
            old(self).wf(),
        ensures
            final(self).wf(),
            final(self).contents() == old(self).contents().remove(product_id),
            final(self).total_weight == old(self).total_weight,
            final(self).total_order == old(self).total_order,
    {
        match find_entry(&self.entries, product_id) {
            Some(k) => {
                proof {
                    lemma_entries_map_remove(self.entry_seq(), k as int);
                    let s = self.entry_seq();
                    assert(forall|a: int, b: int|
                        0 <= a < b < s.remove(k as int).len() ==> (#[trigger] s.remove(
                            k as int,
                        )[a]).0 != (#[trigger] s.remove(k as int)[b]).0);
                }
                self.entries.remove(k);
            },
            None => {
                proof {
                    lemma_entries_map_dom(self.entry_seq(), product_id);
                    assert(self.contents().remove(product_id) =~= self.contents());
                }
            },
        }
    }

    /// The product ids currently in the cart, in entry order.
    pub fn ids(&self) -> (r: Vec<i32>)
        ensures
            r@.len() == self.entry_seq().len(),
            forall|i: int| 0 <= i < r@.len() ==> r@[i] == (#[trigger] self.entry_seq()[i]).0,
    {
        let n = self.entries.len();
        let mut r: Vec<i32> = Vec::new();
        let mut k: usize = 0;
        while k < n
            invariant
                0 <= k <= n,
                n == self.entries@.len(),
                r@.len() == k,
                forall|i: int| 0 <= i < k ==> r@[i] == (#[trigger] self.entries@[i]).0,
            decreases n - k,
        {
            r.push(self.entries[k].0);
            k += 1;
        }
        r
    }

    /// The entries as (product id, quantity) pairs, in entry order.
    pub fn pairs(&self) -> (r: Vec<(i32, i32)>)
        ensures
            r@ == self.entry_seq(),
    {
        let n = self.entries.len();
        let mut r: Vec<(i32, i32)> = Vec::new();
        let mut k: usize = 0;
        while k < n
            invariant
                0 <= k <= n,
                n == self.entries@.len(),
                r@.len() == k,
                forall|i: int| 0 <= i < k ==> r@[i] == self.entries@[i],
            decreases n - k,
        {
            r.push(self.entries[k]);
            k += 1;
        }
        proof {
            assert(r@ =~= self.entry_seq());
        }
        r
    }

    /// Add `q` onto the entry for `id`, saturating; ids without an entry
    /// are a no-op.
    fn add_to_existing(&mut self, id: i32, q: i32)
        requires
            old(self).wf(),
        ensures
            final(self).wf(),
            final(self).contents() == (if old(self).contents().contains_key(id) {
                old(self).contents().insert(id, sat_add(old(self).contents()[id], q))
            } else {
                old(self).contents()
            }),
            final(self).total_weight == old(self).total_weight,
            final(self).total_order == old(self).total_order,
    {
        proof {
            lemma_entries_map_dom(self.entry_seq(), id);
        }
        match find_entry(&self.entries, id) {
            Some(k) => {
                proof {
                    lemma_entries_map_at(self.entry_seq(), k as int);
                }
                let nq = sat_add_i32(self.entries[k].1, q);
                proof {
                    lemma_entries_map_update(self.entry_seq(), k as int, nq);
                }
                let ghost s0 = self.entries@;
                self.entries.remove(k);
                self.entries.insert(k, (id, nq));
                proof {
                    assert(self.entries@ =~= s0.update(k as int, (id, nq)));
                    assert(distinct_ids(self.entries@));
                }
            },
            None => {},
        }
    }

    /// ApplyBulkUpdate over a raw `key=value&key=value` form body, exactly
    /// as `spec_update` describes it: `id` establishes the product context
    /// (resetting that entry to zero), `quantity` adds onto the context's
    /// entry, `remove` deletes it, and malformed or unrecognized pairs are
    /// skipped without aborting the batch.
    pub fn update(&mut self, raw_form_data: &str)
        requires
            old(self).wf(),
        ensures
            final(self).wf(),
            final(self).contents() == spec_update(old(self).contents(), raw_form_data@),
            final(self).total_weight == old(self).total_weight,
            final(self).total_order == old(self).total_order,
    {
        let ghost m0 = self.contents();
        let ghost toks = split_on(raw_form_data@, '&');
        let tokens = split_str(raw_form_data, '&');
        let mut ctx: Option<i32> = None;
        let nt = tokens.len();
        let mut ti: usize = 0;
        proof {
            assert(toks.subrange(0, toks.len() as int) =~= toks);
        }
        while ti < nt
            invariant
                0 <= ti <= nt,
                nt == toks.len(),
                tokens@.len() == nt,
                forall|i: int| 0 <= i < nt ==> (#[trigger] tokens@[i])@ == toks[i],
                distinct_ids(self.entries@),
                apply_tokens(m0, None, toks) == apply_tokens(
                    self.contents(),
                    ctx,
                    toks.subrange(ti as int, nt as int),
                ),
                self.total_weight == old(self).total_weight,
                self.total_order == old(self).total_order,
            decreases nt - ti,
        {
            let ghost cur = self.contents();
            let ghost octx = ctx;
            let ghost tk = toks[ti as int];
            let t = &tokens[ti];
            let tlen = t.as_str().unicode_len();
            let eq = find_char(t.as_str(), 0, '=');
            proof {
                assert(toks.subrange(ti as int, nt as int)[0] == tk);
                assert(toks.subrange(ti as int, nt as int).drop_first() =~= toks.subrange(
                    ti as int + 1,
                    nt as int,
                ));
            }
            if eq < tlen {
                let key = t.as_str().substring_char(0, eq);
                let value = t.as_str().substring_char(eq + 1, tlen);
                proof {
                    assert(key@ == tk.subrange(0, eq as int));
                    assert(value@ == tk.subrange(eq as int + 1, tk.len() as int));
                }
                if str_eq(key, "id") {
                    match parse_i32(value) {
                        Some(id) => {
                            self.set_quantity(id, 0);
                            ctx = Some(id);
                            proof {
                                assert((self.contents(), ctx) == apply_token(cur, octx, tk));
                            }
                        },
                        None => {
                            proof {
                                assert((self.contents(), ctx) == apply_token(cur, octx, tk));
                            }
                        },
                    }
                } else if str_eq(key, "quantity") {
                    match ctx {
                        Some(id) => {
                            match parse_i32(value) {
                                Some(qd) => {
                                    self.add_to_existing(id, qd);
                                    proof {
                                        assert((self.contents(), ctx) == apply_token(
                                            cur,
                                            octx,
                                            tk,
                                        ));
                                    }
                                },
                                None => {
                                    proof {
                                        assert((self.contents(), ctx) == apply_token(
                                            cur,
                                            octx,
                                            tk,
                                        ));
                                    }
                                },
                            }
                        },
                        None => {
                            proof {
                                assert((self.contents(), ctx) == apply_token(cur, octx, tk));
                            }
                        },
                    }
                } else if str_eq(key, "remove") {
                    match ctx {
                        Some(id) => {
                            self.remove(id);
                            proof {
                                assert((self.contents(), ctx) == apply_token(cur, octx, tk));
                            }
                        },
                        None => {
                            proof {
                                assert((self.contents(), ctx) == apply_token(cur, octx, tk));
                            }
                        },
                    }
                } else {
                    proof {
                        assert((self.contents(), ctx) == apply_token(cur, octx, tk));
                    }
                }
            } else {
                proof {
                    crate::strutil::lemma_find_from_props(tk, 0, '=');
                    assert(find_from(tk, 0, '=') == tk.len());
                    assert((self.contents(), ctx) == apply_token(cur, octx, tk));
                }
            }
            proof {
                assert((self.contents(), ctx) == apply_token(cur, octx, tk));
            }
            ti += 1;
        }
        proof {
            assert(toks.subrange(nt as int, nt as int) =~= Seq::<Seq<char>>::empty());
        }
    }

    /// Resolve the cart against live catalog rows: one line per row, its
    /// quantity clamped into `[0, stock]`; entries for out-of-stock rows
    /// are removed from the cart map (rows missing from `items` are left
    /// alone); the totals are recomputed as the sums over the returned
    /// lines. Requested quantities of in-stock rows are not overwritten.
    pub fn resolve(&mut self, items: Vec<CatalogItem>) -> (r: Vec<Product>)
        requires
            old(self).wf(),
            items_ok(items@),
        ensures
            final(self).wf(),
            r@.len() == items@.len(),
            forall|i: int|
                0 <= i < items@.len() ==> #[trigger] r@[i] == resolved_line(
                    items@[i],
                    resolved_qty(old(self).contents(), items@[i]),
                ),
            forall|i: int|
                0 <= i < items@.len() ==> 0 <= (#[trigger] r@[i]).quantity <= items@[
                    i
                ].stock_quantity,
            final(self).contents() == old(self).contents().remove_keys(zero_stock_ids(items@)),
            final(self).total_weight == sum_weight(r@),
            final(self).total_order == sum_value(r@),
    {
        let ghost m0 = old(self).contents();
        let mut rest = items;
        let n = rest.len();
        let mut r: Vec<Product> = Vec::new();
        let mut total_weight: u64 = 0;
        let mut total_order: u64 = 0;
        let mut k: usize = 0;
        proof {
            assert(rest@ =~= items@.subrange(0, n as int));
            assert(items@.subrange(0, 0) =~= Seq::<CatalogItem>::empty());
            assert(self.contents() =~= m0.remove_keys(zero_stock_ids(items@.subrange(0, 0))));
        }
        while k < n
            invariant
                0 <= k <= n,
                n == items@.len(),
                items_ok(items@),
                rest@ == items@.subrange(k as int, n as int),
                distinct_ids(self.entries@),
                self.contents() == m0.remove_keys(
                    zero_stock_ids(items@.subrange(0, k as int)),
                ),
                r@.len() == k,
                forall|i: int|
                    0 <= i < k ==> #[trigger] r@[i] == resolved_line(
                        items@[i],
                        resolved_qty(m0, items@[i]),
                    ),
                forall|i: int|
                    0 <= i < k ==> 0 <= (#[trigger] r@[i]).quantity <= items@[i].stock_quantity,
                total_weight as int == sum_weight(r@),
                total_order as int == sum_value(r@),
                sum_weight(r@) <= k as int * 100_000_000_000_000int,
                sum_value(r@) <= k as int * 100_000_000_000_000int,
            decreases n - k,
        {
            let ghost pre = items@.subrange(0, k as int);
            let ghost zs = zero_stock_ids(pre);
            let it = rest.remove(0);
            proof {
                assert(it == items@[k as int]);
                assert(rest@ =~= items@.subrange(k as int + 1, n as int));
                // The current row's id was never removed so far: removed ids
                // come from earlier rows, and ids are pairwise distinct.
                if zs.contains(it.id) {
                    let j = choose|j: int|
                        0 <= j < pre.len() && (#[trigger] pre[j]).id == it.id
                            && pre[j].stock_quantity == 0;
                    assert(items@[j].id == items@[k as int].id);
                    assert(false);
                }
                lemma_entries_map_dom(self.entries@, it.id);
            }
            let found = find_entry(&self.entries, it.id);
            let mut q: i32 = 0;
            match found {
                Some(e) => {
                    proof {
                        lemma_entries_map_at(self.entries@, e as int);
                    }
                    if it.stock_quantity == 0 {
                        proof {
                            lemma_entries_map_remove(self.entries@, e as int);
                            let s = self.entries@;
                            assert(forall|a: int, b: int|
                                0 <= a < b < s.remove(e as int).len() ==> (#[trigger] s.remove(
                                    e as int,
                                )[a]).0 != (#[trigger] s.remove(e as int)[b]).0);
                        }
                        self.entries.remove(e);
                        q = 0;
                    } else {
                        let req = self.entries[e].1;
                        q = if req > it.stock_quantity {
                            it.stock_quantity
                        } else if req < 0 {
                            0
                        } else {
                            req
                        };
                    }
                },
                None => {
                    q = 0;
                },
            }
            proof {
                assert(q == resolved_qty(m0, items@[k as int]));
                // The zero-stock id set grows by exactly this row's effect.
                let pre1 = items@.subrange(0, k as int + 1);
                let zs1 = zero_stock_ids(pre1);
                assert(forall|j: int| 0 <= j < pre.len() ==> pre[j] == pre1[j]);
                assert(pre1[k as int] == items@[k as int]);
                if it.stock_quantity == 0 {
                    assert forall|id2: i32| zs1.contains(id2) implies zs.insert(it.id).contains(
                        id2,
                    ) by {
                        let j = choose|j: int|
                            0 <= j < pre1.len() && (#[trigger] pre1[j]).id == id2
                                && pre1[j].stock_quantity == 0;
                        if j < k as int {
                            assert(pre[j].id == id2 && pre[j].stock_quantity == 0);
                        }
                    }
                    assert forall|id2: i32| zs.insert(it.id).contains(id2) implies zs1.contains(
                        id2,
                    ) by {
                        if id2 == it.id {
                            assert(pre1[k as int].id == id2 && pre1[k as int].stock_quantity
                                == 0);
                        } else {
                            let j = choose|j: int|
                                0 <= j < pre.len() && (#[trigger] pre[j]).id == id2
                                    && pre[j].stock_quantity == 0;
                            assert(pre1[j].id == id2 && pre1[j].stock_quantity == 0);
                        }
                    }
                    assert(zs1 =~= zs.insert(it.id));
                    if found is Some {
                        assert(self.contents() =~= m0.remove_keys(zs1));
                    } else {
                        // The id is not in the cart at all, so removing it
                        // from the key set changes nothing.
                        assert(!m0.contains_key(it.id));
                        assert(self.contents() =~= m0.remove_keys(zs1));
                    }
                } else {
                    assert forall|id2: i32| zs1.contains(id2) implies zs.contains(id2) by {
                        let j = choose|j: int|
                            0 <= j < pre1.len() && (#[trigger] pre1[j]).id == id2
                                && pre1[j].stock_quantity == 0;
                        assert(j != k as int);
                        assert(pre[j].id == id2 && pre[j].stock_quantity == 0);
                    }
                    assert forall|id2: i32| zs.contains(id2) implies zs1.contains(id2) by {
                        let j = choose|j: int|
                            0 <= j < pre.len() && (#[trigger] pre[j]).id == id2
                                && pre[j].stock_quantity == 0;
                        assert(pre1[j].id == id2 && pre1[j].stock_quantity == 0);
                    }
                    assert(zs1 =~= zs);
                    assert(self.contents() =~= m0.remove_keys(zs1));
                }
            }
            let p = Product {
                id: it.id,
                name: it.name,
                sku: it.sku,
                price: it.price,
                regular_price: it.regular_price,
                quantity: q,
                weight: it.weight,
                permalink: it.permalink,
                image: it.image,
            };
            proof {
                assert(p == resolved_line(items@[k as int], resolved_qty(m0, items@[k as int])));
                assert(0 <= q <= QTY_CAP);
                assert(p.weight as int * p.quantity as int <= 100_000_000_000_000int)
                    by (nonlinear_arith)
                    requires
                        0 <= p.weight as int <= 1_000_000_000int,
                        0 <= p.quantity as int <= 100_000int,
                ;
                assert(p.price as int * p.quantity as int <= 100_000_000_000_000int)
                    by (nonlinear_arith)
                    requires
                        0 <= p.price as int <= 1_000_000_000int,
                        0 <= p.quantity as int <= 100_000int,
                ;
                assert(r@.push(p).drop_last() =~= r@);
            }
            let w_add = p.weight * (q as u64);
            let v_add = p.price * (q as u64);
            total_weight = total_weight + w_add;
            total_order = total_order + v_add;
            r.push(p);
            k += 1;
            proof {
                assert(rest@ =~= items@.subrange(k as int, n as int));
            }
        }
        proof {
            assert(items@.subrange(0, n as int) =~= items@);
        }
        self.total_weight = total_weight;
        self.total_order = total_order;
        r
    }
}

} // verus!
