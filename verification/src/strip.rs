use vstd::prelude::*;

use crate::json::Json;
use vstd::arithmetic::div_mod::{lemma_fundamental_div_mod, lemma_fundamental_div_mod_converse};

verus! {

/// The outcome of a step along a strip of tabs or workspaces.
pub enum Pick {
    /// The id of the entry to focus.
    Id(String),
    /// The step leaves the strip and the strip does not wrap.
    End,
    /// No entry is focused, or the target has no id.
    Miss,
}

/// What a `Pick` says, with the id by its characters.
pub enum Picked {
    Id(Seq<char>),
    End,
    Miss,
}

impl View for Pick {
    type V = Picked;

    open spec fn view(&self) -> Picked {
        match self {
            Pick::Id(id) => Picked::Id(id@),
            Pick::End => Picked::End,
            Pick::Miss => Picked::Miss,
        }
    }
}

/// The position number of an entry; 0 where it has none.
pub open spec fn order_key(item: Json) -> int {
    match item.field("number"@) {
        Some(v) => match v.count() {
            Some(n) => n as int,
            None => 0,
        },
        None => 0,
    }
}

/// Whether an entry is marked focused; not where the mark is missing.
pub open spec fn is_focused(item: Json) -> bool {
    match item.field("focused"@) {
        Some(v) => match v.flag() {
            Some(b) => b,
            None => false,
        },
        None => false,
    }
}

/// Entry `i` comes before entry `j` on the strip: by number, and by place in
/// the list among equal numbers.
pub open spec fn shown_before(items: Seq<Json>, i: int, j: int) -> bool {
    order_key(items[i]) < order_key(items[j]) || (order_key(items[i]) == order_key(items[j])
        && i < j)
}

/// `order` lists the index of every entry once, in strip order.
pub open spec fn is_display_order(items: Seq<Json>, order: Seq<usize>) -> bool {
    &&& order.len() == items.len()
    &&& forall|k: int| 0 <= k < order.len() ==> #[trigger] order[k] < items.len()
    &&& forall|a: int, b: int|
        0 <= a < b < order.len() ==> shown_before(items, #[trigger] order[a] as int, #[trigger] order[b] as int)
    &&& forall|i: int| 0 <= i < items.len() ==> #[trigger] order.contains(i as usize)
}

/// The strip order of the entries (there is exactly one: see
/// `law_display_order_unique`).
pub open spec fn display_order(items: Seq<Json>) -> Seq<usize> {
    choose|order: Seq<usize>| is_display_order(items, order)
}

/// Position `k` of the strip holds its first focused entry.
pub open spec fn is_first_focused(items: Seq<Json>, order: Seq<usize>, k: int) -> bool {
    &&& 0 <= k < order.len()
    &&& is_focused(items[order[k] as int])
    &&& forall|j: int| 0 <= j < k ==> !is_focused(#[trigger] items[order[j] as int])
}

/// The id of the entry at strip position `slot`.
pub open spec fn picked_at(items: Seq<Json>, order: Seq<usize>, id_key: Seq<char>, slot: int) -> Picked {
    match items[order[slot] as int].field(id_key) {
        Some(v) => match v.text() {
            Some(id) => Picked::Id(id),
            None => Picked::Miss,
        },
        None => Picked::Miss,
    }
}

/// The entry `step` places away from the first focused entry of the strip,
/// read by `id_key`: past either end the strip wraps around if `wrap`, and
/// ends otherwise.
pub open spec fn pick_spec(items: Seq<Json>, id_key: Seq<char>, step: int, wrap: bool) -> Picked {
    let order = display_order(items);
    let n = items.len() as int;
    if n == 0 || !(exists|k: int| is_first_focused(items, order, k)) {
        Picked::Miss
    } else {
        let rank = choose|k: int| is_first_focused(items, order, k);
        let target = rank + step;
        if 0 <= target < n {
            picked_at(items, order, id_key, target)
        } else if wrap {
            picked_at(items, order, id_key, target % n)
        } else {
            Picked::End
        }
    }
}

fn order_number(item: &Json) -> (r: u64)
    ensures
        r == order_key(*item),
{
    match item.get("number") {
        Some(v) => match v.as_u64() {
            Some(n) => n,
            None => 0,
        },
        None => 0,
    }
}

fn focused(item: &Json) -> (r: bool)
    ensures
        r == is_focused(*item),
{
    match item.get("focused") {
        Some(v) => match v.as_bool() {
            Some(b) => b,
            None => false,
        },
        None => false,
    }
}

/// `order` lists each of the first `m` entries once, in strip order.
pub open spec fn is_prefix_order(items: Seq<Json>, order: Seq<usize>, m: int) -> bool {
    &&& order.len() == m
    &&& forall|k: int| 0 <= k < order.len() ==> #[trigger] order[k] < m
    &&& forall|a: int, b: int|
        0 <= a < b < order.len() ==> shown_before(items, #[trigger] order[a] as int, #[trigger] order[b] as int)
    &&& forall|j: int| 0 <= j < m ==> #[trigger] order.contains(j as usize)
}

/// The first position from `from` on whose entry has a number above that of
/// entry `m`; the end of `order` where there is none.
pub open spec fn first_above(items: Seq<Json>, order: Seq<usize>, m: int, from: int) -> int
    decreases order.len() - from,
{
    if from >= order.len() {
        order.len() as int
    } else if order_key(items[order[from] as int]) > order_key(items[m]) {
        from
    } else {
        first_above(items, order, m, from + 1)
    }
}

proof fn lemma_first_above(items: Seq<Json>, order: Seq<usize>, m: int, from: int)
    requires
        0 <= from <= order.len(),
    ensures
        from <= first_above(items, order, m, from) <= order.len(),
        forall|q: int|
            from <= q < first_above(items, order, m, from) ==> order_key(
                items[#[trigger] order[q] as int],
            ) <= order_key(items[m]),
        first_above(items, order, m, from) < order.len() ==> order_key(
            items[order[first_above(items, order, m, from)] as int],
        ) > order_key(items[m]),
    decreases order.len() - from,
{
    if from < order.len() && order_key(items[order[from] as int]) <= order_key(items[m]) {
        lemma_first_above(items, order, m, from + 1);
    }
}

/// Inserting entry `m` into the strip order of the first `m` entries, before
/// the first entry numbered above it, gives the order of the first `m + 1`.
proof fn lemma_insert_in_order(items: Seq<Json>, order: Seq<usize>, m: int, p: int)
    requires
        is_prefix_order(items, order, m),
        0 <= m < items.len(),
        m < usize::MAX,
        0 <= p <= m,
        forall|q: int| 0 <= q < p ==> order_key(items[#[trigger] order[q] as int]) <= order_key(items[m]),
        p < m ==> order_key(items[order[p] as int]) > order_key(items[m]),
    ensures
        is_prefix_order(items, order.insert(p, m as usize), m + 1),
{
    let new_order = order.insert(p, m as usize);
    assert forall|k: int| 0 <= k < m + 1 implies #[trigger] new_order[k] < m + 1 by {
        if k < p {
            assert(new_order[k] == order[k]);
        } else if k > p {
            assert(new_order[k] == order[k - 1]);
        }
    }
    assert forall|a: int, b: int| 0 <= a < b < m + 1 implies shown_before(
        items,
        #[trigger] new_order[a] as int,
        #[trigger] new_order[b] as int,
    ) by {
        if b < p {
            assert(new_order[a] == order[a] && new_order[b] == order[b]);
        } else if b == p {
            assert(new_order[a] == order[a]);
            assert(order_key(items[order[a] as int]) <= order_key(items[m]));
            assert(order[a] < m);
        } else if a < p {
            assert(new_order[a] == order[a] && new_order[b] == order[b - 1]);
        } else if a == p {
            assert(new_order[b] == order[b - 1]);
            if b - 1 > p {
                assert(shown_before(items, order[p] as int, order[b - 1] as int));
            }
        } else {
            assert(new_order[a] == order[a - 1] && new_order[b] == order[b - 1]);
        }
    }
    assert forall|j: int| 0 <= j < m + 1 implies #[trigger] new_order.contains(j as usize) by {
        if j == m {
            assert(new_order[p] == m as usize);
        } else {
            assert(order.contains(j as usize));
            let k = choose|k: int| 0 <= k < order.len() && order[k] == j as usize;
            if k < p {
                assert(new_order[k] == j as usize);
            } else {
                assert(new_order[k + 1] == j as usize);
            }
        }
    }
}

/// Every list of entries of a length that fits in memory has a strip order.
proof fn lemma_prefix_order_exists(items: Seq<Json>, m: int)
    requires
        0 <= m <= items.len(),
        items.len() <= usize::MAX,
    ensures
        exists|order: Seq<usize>| is_prefix_order(items, order, m),
    decreases m,
{
    if m == 0 {
        assert(is_prefix_order(items, Seq::<usize>::empty(), 0));
    } else {
        let prev = m - 1;
        lemma_prefix_order_exists(items, prev);
        let order = choose|order: Seq<usize>| is_prefix_order(items, order, prev);
        lemma_first_above(items, order, m - 1, 0);
        let p = first_above(items, order, m - 1, 0);
        lemma_insert_in_order(items, order, m - 1, p);
        assert(is_prefix_order(items, order.insert(p, (m - 1) as usize), m));
    }
}

/// The entries of a list that fits in memory have a strip order.
pub proof fn law_display_order_exists(items: Seq<Json>)
    requires
        items.len() <= usize::MAX,
    ensures
        is_display_order(items, display_order(items)),
{
    let n = items.len() as int;
    lemma_prefix_order_exists(items, n);
    let order = choose|order: Seq<usize>| is_prefix_order(items, order, n);
    assert(is_display_order(items, order));
}

/// Sorts the entries' indices into strip order, by insertion.
fn display_order_of(items: &[Json]) -> (order: Vec<usize>)
    ensures
        is_display_order(items@, order@),
{
    let n = items.len();
    let mut keys: Vec<u64> = Vec::new();
    let mut i: usize = 0;
    while i < n
        invariant
            n == items@.len(),
            i <= n,
            keys@.len() == i,
            forall|k: int| 0 <= k < i ==> keys@[k] == order_key(#[trigger] items@[k]),
        decreases n - i,
    {
        keys.push(order_number(&items[i]));
        i = i + 1;
    }
    let mut order: Vec<usize> = Vec::new();
    let mut i: usize = 0;
    while i < n
        invariant
            n == items@.len(),
            keys@.len() == n,
            forall|k: int| 0 <= k < n ==> keys@[k] == order_key(#[trigger] items@[k]),
            i <= n,
            is_prefix_order(items@, order@, i as int),
        decreases n - i,
    {
        let mut p: usize = 0;
        while p < order.len() && keys[order[p]] <= keys[i]
            invariant
                n == items@.len(),
                keys@.len() == n,
                forall|k: int| 0 <= k < n ==> keys@[k] == order_key(#[trigger] items@[k]),
                i < n,
                is_prefix_order(items@, order@, i as int),
                p <= order@.len(),
                forall|q: int|
                    0 <= q < p ==> order_key(items@[#[trigger] order@[q] as int]) <= order_key(
                        items@[i as int],
                    ),
            decreases order@.len() - p,
        {
            p = p + 1;
        }
        proof {
            lemma_insert_in_order(items@, order@, i as int, p as int);
        }
        order.insert(p, i);
        i = i + 1;
    }
    order
}

proof fn lemma_orders_agree(items: Seq<Json>, o1: Seq<usize>, o2: Seq<usize>, s: int)
    requires
        is_display_order(items, o1),
        is_display_order(items, o2),
        0 <= s <= items.len(),
    ensures
        forall|k: int| 0 <= k < s ==> o1[k] == o2[k],
    decreases s,
{
    if s > 0 {
        lemma_orders_agree(items, o1, o2, s - 1);
        let x = o1[s - 1];
        let y = o2[s - 1];
        if x != y {
            assert(x < items.len());
            assert(o2.contains((x as int) as usize));
            let p = choose|p: int| 0 <= p < o2.len() && o2[p] == x;
            if p < s - 1 {
                assert(o1[p] == x);
                assert(shown_before(items, o1[p] as int, o1[s - 1] as int));
            }
            assert(p > s - 1);
            assert(shown_before(items, o2[s - 1] as int, o2[p] as int));
            assert(y < items.len());
            assert(o1.contains((y as int) as usize));
            let q = choose|q: int| 0 <= q < o1.len() && o1[q] == y;
            if q < s - 1 {
                assert(o2[q] == y);
                assert(shown_before(items, o2[q] as int, o2[s - 1] as int));
            }
            assert(q > s - 1);
            assert(shown_before(items, o1[s - 1] as int, o1[q] as int));
        }
    }
}

/// The strip order is unique: any two orders of the same entries that both
/// list each entry once, in strip order, are the same.
pub proof fn law_display_order_unique(items: Seq<Json>, o1: Seq<usize>, o2: Seq<usize>)
    requires
        is_display_order(items, o1),
        is_display_order(items, o2),
    ensures
        o1 == o2,
{
    lemma_orders_agree(items, o1, o2, items.len() as int);
    assert(o1 =~= o2);
}

/// The slot that `target` reaches on a strip of `n` entries that wraps.
fn wrapped_slot(target: i128, n: usize) -> (slot: usize)
    requires
        n > 0,
        -0x1_0000_0000_0000_0000_0000 <= target <= 0x1_0000_0000_0000_0000_0000,
    ensures
        slot as int == target as int % n as int,
        slot < n,
{
    let len = n as i128;
    if target >= 0 {
        let m = target % len;
        proof {
            lemma_fundamental_div_mod(target as int, len as int);
        }
        m as usize
    } else {
        let m = (0 - target) % len;
        proof {
            let t = 0 - target;
            lemma_fundamental_div_mod(t as int, len as int);
            let q = t as int / len as int;
            if m == 0 {
                assert(target as int == (0 - q) * len as int + 0) by (nonlinear_arith)
                    requires t == q * len + m, m == 0, target == 0 - t;
                lemma_fundamental_div_mod_converse(target as int, len as int, 0 - q, 0);
            } else {
                assert(target as int == (0 - q - 1) * len as int + (len - m)) by (nonlinear_arith)
                    requires t == q * len + m, target == 0 - t;
                lemma_fundamental_div_mod_converse(target as int, len as int, 0 - q - 1, len - m);
            }
        }
        if m == 0 {
            0
        } else {
            (len - m) as usize
        }
    }
}

/// The entry `step` places away from the focused entry of a strip of tabs or
/// workspaces: entries are ordered by their `number` (0 where missing), the
/// focused entry is the first marked `focused` in that order, and a step past
/// either end wraps around if `wrap` and ends otherwise.
pub fn strip_pick(items: &[Json], id_key: &str, step: i64, wrap: bool) -> (r: Pick)
    ensures
        r@ == pick_spec(items@, id_key@, step as int, wrap),
{
    let n = items.len();
    if n == 0 {
        return Pick::Miss;
    }
    let order = display_order_of(items);
    proof {
        law_display_order_unique(items@, order@, display_order(items@));
    }
    let mut k: usize = 0;
    while k < n && !focused(&items[order[k]])
        invariant
            n == items@.len(),
            order@.len() == n,
            forall|q: int| 0 <= q < n ==> #[trigger] order@[q] < n,
            k <= n,
            forall|j: int| 0 <= j < k ==> !is_focused(#[trigger] items@[order@[j] as int]),
        decreases n - k,
    {
        k = k + 1;
    }
    if k == n {
        proof {
            assert forall|q: int| !is_first_focused(items@, order@, q) by {
                if 0 <= q < n {
                    assert(!is_focused(items@[order@[q] as int]));
                }
            }
        }
        return Pick::Miss;
    }
    proof {
        assert(is_first_focused(items@, order@, k as int));
        let c = choose|c: int| is_first_focused(items@, order@, c);
        if c < k {
            assert(!is_focused(items@[order@[c] as int]));
        }
        if k < c {
            assert(!is_focused(items@[order@[k as int] as int]));
        }
        assert(c == k);
    }
    let target: i128 = k as i128 + step as i128;
    let slot: usize;
    if 0 <= target && target < n as i128 {
        slot = target as usize;
    } else if wrap {
        slot = wrapped_slot(target, n);
    } else {
        return Pick::End;
    }
    match items[order[slot]].get(id_key) {
        Some(v) => match v.as_str() {
            Some(id) => Pick::Id(id.to_owned()),
            None => Pick::Miss,
        },
        None => Pick::Miss,
    }
}


/// Wrapping only matters past the ends of the strip: a step that stays on
/// the strip picks the same entry either way, a step past an end of a strip
/// that wraps never ends, and one past an end of a strip that does not wrap
/// always ends.
pub proof fn law_wrap_only_at_edges(items: Seq<Json>, id_key: Seq<char>, step: int)
    requires
        items.len() <= usize::MAX,
    ensures
        pick_spec(items, id_key, step, true) != Picked::End,
        ({
            let order = display_order(items);
            forall|k: int|
                #[trigger] is_first_focused(items, order, k) ==> {
                    &&& (0 <= k + step < items.len()) ==> pick_spec(items, id_key, step, true)
                        == pick_spec(items, id_key, step, false)
                    &&& !(0 <= k + step < items.len()) ==> pick_spec(items, id_key, step, false)
                        == Picked::End
                }
        }),
{
    let order = display_order(items);
    law_display_order_exists(items);
    assert forall|k: int| #[trigger] is_first_focused(items, order, k) implies {
        &&& (0 <= k + step < items.len()) ==> pick_spec(items, id_key, step, true) == pick_spec(
            items,
            id_key,
            step,
            false,
        )
        &&& !(0 <= k + step < items.len()) ==> pick_spec(items, id_key, step, false) == Picked::End
    } by {
        let c = choose|c: int| is_first_focused(items, order, c);
        if c < k {
            assert(!is_focused(items[order[c] as int]));
        }
        if k < c {
            assert(!is_focused(items[order[k] as int]));
        }
    }
}


/// A strip order never lists an entry twice.
proof fn lemma_order_injective(items: Seq<Json>, order: Seq<usize>)
    requires
        is_display_order(items, order),
    ensures
        forall|a: int, b: int|
            0 <= a < order.len() && 0 <= b < order.len() && #[trigger] order[a] == #[trigger] order[b]
                ==> a == b,
{
    assert forall|a: int, b: int|
        0 <= a < order.len() && 0 <= b < order.len() && #[trigger] order[a] == #[trigger] order[b]
            implies a == b by {
        if a < b {
            assert(shown_before(items, order[a] as int, order[b] as int));
        } else if b < a {
            assert(shown_before(items, order[b] as int, order[a] as int));
        }
    }
}

/// Where entry `f` is the only focused one, the strip starts from its
/// position in the order.
proof fn lemma_single_focus(items: Seq<Json>, order: Seq<usize>, f: int) -> (pos: int)
    requires
        is_display_order(items, order),
        items.len() <= usize::MAX,
        0 <= f < items.len(),
        forall|i: int| 0 <= i < items.len() ==> (is_focused(#[trigger] items[i]) <==> i == f),
    ensures
        0 <= pos < order.len(),
        order[pos] == f,
        is_first_focused(items, order, pos),
        forall|k: int| #[trigger] is_first_focused(items, order, k) ==> k == pos,
{
    lemma_order_injective(items, order);
    assert((f as usize) as int == f);
    assert(order.contains(f as usize));
    let pos = choose|p: int| 0 <= p < order.len() && order[p] == f as usize;
    assert forall|j: int| 0 <= j < pos implies !is_focused(#[trigger] items[order[j] as int]) by {
        assert(order[j] < items.len());
        if order[j] == f {
            assert(order[j] == order[pos]);
        }
    }
    assert forall|k: int| #[trigger] is_first_focused(items, order, k) implies k == pos by {
        assert(order[k] < items.len());
        assert(is_focused(items[order[k] as int]));
        assert(order[k] == order[pos]);
    }
    pos
}

/// Two orders that list the same entries, position by position, start from
/// the same focused position.
proof fn lemma_same_first_focus(
    items1: Seq<Json>,
    order1: Seq<usize>,
    items2: Seq<Json>,
    order2: Seq<usize>,
)
    requires
        order1.len() == order2.len(),
        forall|k: int|
            0 <= k < order1.len() ==> #[trigger] items1[order1[k] as int] == items2[order2[k] as int],
    ensures
        (exists|k: int| is_first_focused(items1, order1, k)) == (exists|k: int|
            is_first_focused(items2, order2, k)),
        (exists|k: int| is_first_focused(items1, order1, k)) ==> (choose|k: int|
            is_first_focused(items1, order1, k)) == (choose|k: int| is_first_focused(items2, order2, k)),
{
    assert forall|k: int| is_first_focused(items1, order1, k) == is_first_focused(items2, order2, k) by {
        if 0 <= k < order1.len() {
            assert(items1[order1[k] as int] == items2[order2[k] as int]);
            assert forall|j: int| 0 <= j < k implies items1[order1[j] as int] == items2[order2[j] as int] by {
                assert(items1[order1[j] as int] == items2[order2[j] as int]);
            }
        }
    }
    if exists|k: int| is_first_focused(items1, order1, k) {
        let c1 = choose|k: int| is_first_focused(items1, order1, k);
        let c2 = choose|k: int| is_first_focused(items2, order2, k);
        assert(is_first_focused(items1, order1, c2));
        if c1 < c2 {
            assert(!is_focused(items1[order1[c1] as int]));
        }
        if c2 < c1 {
            assert(!is_focused(items1[order1[c2] as int]));
        }
    }
}

/// Where no two entries share a number, the pick does not depend on the
/// order in which the entries are listed: `items2` lists the entries of
/// `items` (`items2[i]` is `items[perm[i]]`, `inv` undoes `perm`).
pub proof fn law_pick_ignores_list_order(
    items: Seq<Json>,
    items2: Seq<Json>,
    perm: Seq<int>,
    inv: Seq<int>,
    id_key: Seq<char>,
    step: int,
    wrap: bool,
)
    requires
        items.len() <= usize::MAX,
        items2.len() == items.len(),
        perm.len() == items.len(),
        inv.len() == items.len(),
        forall|i: int|
            0 <= i < items.len() ==> 0 <= #[trigger] perm[i] < items.len() && items2[i] == items[perm[i]]
                && inv[perm[i]] == i,
        forall|j: int| 0 <= j < items.len() ==> 0 <= #[trigger] inv[j] < items.len() && perm[inv[j]] == j,
        forall|i: int, j: int|
            0 <= i < items.len() && 0 <= j < items.len() && i != j ==> order_key(#[trigger] items[i])
                != order_key(#[trigger] items[j]),
    ensures
        pick_spec(items2, id_key, step, wrap) == pick_spec(items, id_key, step, wrap),
{
    let n = items.len() as int;
    law_display_order_exists(items);
    let o = display_order(items);
    lemma_order_injective(items, o);
    let o2 = Seq::new(n as nat, |k: int| inv[o[k] as int] as usize);
    assert forall|k: int| 0 <= k < n implies #[trigger] items2[o2[k] as int] == items[o[k] as int] by {
        assert(o[k] < n);
        assert(0 <= inv[o[k] as int] < n);
        assert(perm[inv[o[k] as int]] == o[k]);
    }
    assert forall|a: int, b: int| 0 <= a < b < n implies shown_before(
        items2,
        #[trigger] o2[a] as int,
        #[trigger] o2[b] as int,
    ) by {
        assert(items2[o2[a] as int] == items[o[a] as int]);
        assert(items2[o2[b] as int] == items[o[b] as int]);
        assert(shown_before(items, o[a] as int, o[b] as int));
        assert(o[a] < n && o[b] < n);
        assert(o[a] != o[b]);
        assert(order_key(items[o[a] as int]) != order_key(items[o[b] as int]));
    }
    assert forall|k: int| 0 <= k < n implies #[trigger] o2[k] < n by {
        assert(o[k] < n);
        assert(0 <= inv[o[k] as int] < n);
    }
    assert forall|j: int| 0 <= j < n implies #[trigger] o2.contains(j as usize) by {
        assert(0 <= perm[j] < n);
        assert(o.contains(perm[j] as usize));
        let k = choose|k: int| 0 <= k < o.len() && o[k] == perm[j] as usize;
        assert(o2[k] == j as usize);
    }
    assert(is_display_order(items2, o2));
    law_display_order_exists(items2);
    law_display_order_unique(items2, o2, display_order(items2));
    lemma_same_first_focus(items, o, items2, o2);
    if n > 0 && exists|k: int| is_first_focused(items, o, k) {
        let rank = choose|k: int| is_first_focused(items, o, k);
        let target = rank + step;
        if 0 <= target < n {
            assert(items2[o2[target] as int] == items[o[target] as int]);
        } else if wrap {
            assert(0 <= target % n < n);
            assert(items2[o2[target % n] as int] == items[o[target % n] as int]);
        }
    }
}

/// The text id of an entry, where it has one.
pub open spec fn id_of(item: Json, id_key: Seq<char>) -> Option<Seq<char>> {
    match item.field(id_key) {
        Some(v) => v.text(),
        None => None,
    }
}

/// Stepping back returns: where numbers and ids are distinct and only entry
/// `f` is focused, a step that picks entry `g`, followed by the opposite
/// step from `g` (the same entries, with only `g` focused: `items2`), picks
/// `f` again.
pub proof fn law_step_back_returns(
    items: Seq<Json>,
    items2: Seq<Json>,
    id_key: Seq<char>,
    step: int,
    wrap: bool,
    f: int,
    g: int,
)
    requires
        items.len() <= usize::MAX,
        0 <= f < items.len(),
        0 <= g < items.len(),
        forall|i: int, j: int|
            0 <= i < items.len() && 0 <= j < items.len() && i != j ==> order_key(#[trigger] items[i])
                != order_key(#[trigger] items[j]) && id_of(items[i], id_key) != id_of(
                items[j],
                id_key,
            ),
        forall|i: int| 0 <= i < items.len() ==> (#[trigger] id_of(items[i], id_key)) is Some,
        forall|i: int| 0 <= i < items.len() ==> (is_focused(#[trigger] items[i]) <==> i == f),
        pick_spec(items, id_key, step, wrap) == Picked::Id(id_of(items[g], id_key).unwrap()),
        items2.len() == items.len(),
        forall|i: int|
            0 <= i < items.len() ==> order_key(#[trigger] items2[i]) == order_key(items[i])
                && items2[i].field(id_key) == items[i].field(id_key) && (is_focused(items2[i])
                <==> i == g),
    ensures
        pick_spec(items2, id_key, -step, wrap) == Picked::Id(id_of(items[f], id_key).unwrap()),
{
    let n = items.len() as int;
    law_display_order_exists(items);
    let o = display_order(items);
    lemma_order_injective(items, o);
    assert forall|a: int, b: int| 0 <= a < b < o.len() implies shown_before(
        items2,
        #[trigger] o[a] as int,
        #[trigger] o[b] as int,
    ) by {
        assert(shown_before(items, o[a] as int, o[b] as int));
        assert(o[a] < n && o[b] < n);
        assert(order_key(items2[o[a] as int]) == order_key(items[o[a] as int]));
        assert(order_key(items2[o[b] as int]) == order_key(items[o[b] as int]));
    }
    assert(is_display_order(items2, o));
    law_display_order_exists(items2);
    law_display_order_unique(items2, o, display_order(items2));
    let pf = lemma_single_focus(items, o, f);
    assert forall|i: int| 0 <= i < items2.len() implies (is_focused(#[trigger] items2[i]) <==> i == g) by {
        assert(order_key(items2[i]) == order_key(items[i]));
    }
    let pg = lemma_single_focus(items2, o, g);
    let target = pf + step;
    let slot = if 0 <= target < n {
        target
    } else {
        target % n
    };
    assert(0 <= slot < n);
    assert(picked_at(items, o, id_key, slot) == Picked::Id(id_of(items[g], id_key).unwrap()));
    assert(o[slot] < n);
    assert(id_of(items[o[slot] as int], id_key) == id_of(items[g], id_key));
    assert(o[slot] == g);
    assert(slot == pg);
    let back = pg - step;
    if 0 <= target < n {
        assert(back == pf);
    } else {
        assert(wrap);
        lemma_fundamental_div_mod(target, n);
        let q = target / n;
        assert(back == (0 - q) * n + pf) by (nonlinear_arith)
            requires
                target == n * q + pg,
                back == pg - step,
                target == pf + step,
        ;
        lemma_fundamental_div_mod_converse(back, n, 0 - q, pf);
        if 0 <= back < n {
            lemma_fundamental_div_mod_converse(back, n, 0, back);
        }
    }
    assert(o[pf] == f);
    assert(items2[f].field(id_key) == items[f].field(id_key));
}


/// A step moves along the strip order: in any order of the entries by
/// number, where position `r` holds the first focused entry and `r + step`
/// stays on the strip, the pick is the id of the entry at `r + step`
/// (left and up pick the one before, right and down the one after).
pub proof fn law_pick_moves_by_step(
    items: Seq<Json>,
    order: Seq<usize>,
    id_key: Seq<char>,
    r: int,
    step: int,
    wrap: bool,
)
    requires
        items.len() <= usize::MAX,
        is_display_order(items, order),
        0 <= r < items.len(),
        is_focused(items[order[r] as int]),
        forall|j: int| 0 <= j < r ==> !is_focused(#[trigger] items[order[j] as int]),
        0 <= r + step < items.len(),
    ensures
        pick_spec(items, id_key, step, wrap) == (match items[order[r + step] as int].field(id_key) {
            Some(v) => match v.text() {
                Some(id) => Picked::Id(id),
                None => Picked::Miss,
            },
            None => Picked::Miss,
        }),
{
    law_display_order_exists(items);
    law_display_order_unique(items, order, display_order(items));
    assert(is_first_focused(items, order, r));
    let c = choose|c: int| is_first_focused(items, order, c);
    if c < r {
        assert(!is_focused(items[order[c] as int]));
    }
    if r < c {
        assert(!is_focused(items[order[r] as int]));
    }
}

} // verus!
