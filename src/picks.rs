//! Which chips a transportation or sales card takes, and in which order.
use vstd::prelude::*;
use crate::cards::ChipType;
use crate::table::{ChipOnTable, PRODUCTION_AREA, SALES_AREA};

verus! {

/// Capacity that moving or selling one chip uses up.
pub const CAPACITY_PER_CHIP: u64 = 10;

/// Whether chip `c`, not yet taken in this resolution (`!taken`), can be
/// picked for `player` at `turn`: for transportation (`sales == false`) a
/// chip of the production area that entered it before this turn; for sales
/// a chip of the sales area that entered it in an earlier, nonzero turn.
pub open spec fn eligible(
    c: ChipOnTable,
    taken: bool,
    player: int,
    turn: int,
    chip_type: ChipType,
    sales: bool,
) -> bool {
    &&& !taken
    &&& c.chip_type == chip_type
    &&& c.player == player
    &&& if sales {
        c.area == SALES_AREA && c.turn_activation_2 < turn && c.turn_activation_2 != 0
    } else {
        c.area == PRODUCTION_AREA && c.turn_activation_1 < turn
    }
}

/// Whether chip `i` is picked before chip `j`: by ascending sort key for
/// transportation, descending for sales, and by position in the snapshot
/// among equal keys.
pub open spec fn goes_before(chips: Seq<ChipOnTable>, i: int, j: int, sales: bool) -> bool {
    let ki = chips[i].sort_key;
    let kj = chips[j].sort_key;
    if sales {
        ki > kj || (ki == kj && i < j)
    } else {
        ki < kj || (ki == kj && i < j)
    }
}

/// Where index `x` goes in the pick order `s`: before the first entry that
/// it goes before.
pub open spec fn insert_pos(s: Seq<usize>, x: usize, chips: Seq<ChipOnTable>, sales: bool) -> int
    decreases s.len(),
{
    if s.len() == 0 || goes_before(chips, x as int, s[0] as int, sales) {
        0
    } else {
        1 + insert_pos(s.drop_first(), x, chips, sales)
    }
}

/// Indices of the eligible chips among the first `n` of the snapshot, in
/// pick order.
pub open spec fn pick_order_spec(
    chips: Seq<ChipOnTable>,
    taken: Seq<bool>,
    player: int,
    turn: int,
    chip_type: ChipType,
    sales: bool,
    n: int,
) -> Seq<usize>
    decreases n,
{
    if n <= 0 {
        Seq::empty()
    } else {
        let prev = pick_order_spec(chips, taken, player, turn, chip_type, sales, n - 1);
        if eligible(chips[n - 1], taken[n - 1], player, turn, chip_type, sales) {
            prev.insert(insert_pos(prev, (n - 1) as usize, chips, sales), (n - 1) as usize)
        } else {
            prev
        }
    }
}

/// One pick of each list in turn, `a` first, until one runs out; then the
/// rest of the other.
pub open spec fn interleave(a: Seq<usize>, b: Seq<usize>) -> Seq<usize> {
    let c = if a.len() <= b.len() {
        a.len() as int
    } else {
        b.len() as int
    };
    Seq::new((2 * c) as nat, |k: int| if k % 2 == 0 { a[k / 2] } else { b[k / 2] }) + a.subrange(
        c,
        a.len() as int,
    ) + b.subrange(c, b.len() as int)
}

/// The cannabis picks and the cocaine picks, interleaved.
pub open spec fn pick_queue(
    chips: Seq<ChipOnTable>,
    taken: Seq<bool>,
    player: int,
    turn: int,
    sales: bool,
) -> Seq<usize> {
    interleave(
        pick_order_spec(chips, taken, player, turn, ChipType::Cannabis, sales, chips.len() as int),
        pick_order_spec(chips, taken, player, turn, ChipType::Cocaine, sales, chips.len() as int),
    )
}

/// The picks that a card of capacity `capacity` takes: the head of the
/// queue, one chip per `CAPACITY_PER_CHIP` units.
pub open spec fn chips_taken(
    chips: Seq<ChipOnTable>,
    taken: Seq<bool>,
    player: int,
    turn: int,
    sales: bool,
    capacity: int,
) -> Seq<usize> {
    let q = pick_queue(chips, taken, player, turn, sales);
    let k = capacity / CAPACITY_PER_CHIP as int;
    q.subrange(0, if q.len() <= k { q.len() as int } else { k })
}

/// `taken` with the chips of `picks` marked as taken.
pub open spec fn mark_taken(taken: Seq<bool>, picks: Seq<usize>) -> Seq<bool> {
    Seq::new(taken.len(), |i: int| taken[i] || picks.contains(i as usize))
}

fn is_eligible(
    c: &ChipOnTable,
    taken: bool,
    player: usize,
    turn: usize,
    chip_type: ChipType,
    sales: bool,
) -> (r: bool)
    ensures
        r == eligible(*c, taken, player as int, turn as int, chip_type, sales),
{
    if taken || c.chip_type != chip_type || c.player != player {
        false
    } else if sales {
        c.area == SALES_AREA && c.turn_activation_2 < turn && c.turn_activation_2 != 0
    } else {
        c.area == PRODUCTION_AREA && c.turn_activation_1 < turn
    }
}

fn picks_before(chips: &Vec<ChipOnTable>, i: usize, j: usize, sales: bool) -> (r: bool)
    requires
        i < chips@.len(),
        j < chips@.len(),
    ensures
        r == goes_before(chips@, i as int, j as int, sales),
{
    let ki = chips[i].sort_key;
    let kj = chips[j].sort_key;
    if sales {
        ki > kj || (ki == kj && i < j)
    } else {
        ki < kj || (ki == kj && i < j)
    }
}

proof fn lemma_pick_order_bounded(
    chips: Seq<ChipOnTable>,
    taken: Seq<bool>,
    player: int,
    turn: int,
    chip_type: ChipType,
    sales: bool,
    n: int,
)
    ensures
        forall|k: int|
            0 <= k < pick_order_spec(chips, taken, player, turn, chip_type, sales, n).len() ==> (
            #[trigger] pick_order_spec(chips, taken, player, turn, chip_type, sales, n)[k]) < n,
        pick_order_spec(chips, taken, player, turn, chip_type, sales, n).len() <= if n <= 0 {
            0
        } else {
            n
        },
    decreases n,
{
    if n > 0 {
        lemma_pick_order_bounded(chips, taken, player, turn, chip_type, sales, n - 1);
        let prev = pick_order_spec(chips, taken, player, turn, chip_type, sales, n - 1);
        if eligible(chips[n - 1], taken[n - 1], player, turn, chip_type, sales) {
            lemma_insert_pos_bounded(prev, (n - 1) as usize, chips, sales);
        }
    }
}

proof fn lemma_insert_pos_bounded(s: Seq<usize>, x: usize, chips: Seq<ChipOnTable>, sales: bool)
    ensures
        0 <= insert_pos(s, x, chips, sales) <= s.len(),
    decreases s.len(),
{
    if s.len() > 0 {
        lemma_insert_pos_bounded(s.drop_first(), x, chips, sales);
    }
}

/// Indices of the chips of `chip_type` that can be picked for `player` at
/// `turn`, in pick order.
pub fn pick_order(
    chips: &Vec<ChipOnTable>,
    taken: &Vec<bool>,
    player: usize,
    turn: usize,
    chip_type: ChipType,
    sales: bool,
) -> (r: Vec<usize>)
    requires
        taken@.len() == chips@.len(),
    ensures
        r@ == pick_order_spec(
            chips@,
            taken@,
            player as int,
            turn as int,
            chip_type,
            sales,
            chips@.len() as int,
        ),
        forall|k: int| 0 <= k < r@.len() ==> #[trigger] r@[k] < chips@.len(),
        forall|k: int|
            0 <= k < r@.len() ==> eligible(
                chips@[#[trigger] r@[k] as int],
                taken@[r@[k] as int],
                player as int,
                turn as int,
                chip_type,
                sales,
            ),
        forall|i: int|
            0 <= i < chips@.len() && eligible(
                chips@[i],
                taken@[i],
                player as int,
                turn as int,
                chip_type,
                sales,
            ) ==> #[trigger] r@.contains(i as usize),
        in_pick_order(r@, chips@, sales),
{
    let mut r: Vec<usize> = Vec::new();
    let mut i: usize = 0;
    while i < chips.len()
        invariant
            i <= chips@.len(),
            taken@.len() == chips@.len(),
            r@ == pick_order_spec(
                chips@,
                taken@,
                player as int,
                turn as int,
                chip_type,
                sales,
                i as int,
            ),
        decreases chips@.len() - i,
    {
        proof {
            lemma_pick_order_bounded(
                chips@,
                taken@,
                player as int,
                turn as int,
                chip_type,
                sales,
                i as int,
            );
        }
        if is_eligible(&chips[i], taken[i], player, turn, chip_type, sales) {
            let mut p: usize = 0;
            assert(r@.subrange(0, r@.len() as int) =~= r@);
            while p < r.len() && !picks_before(chips, i, r[p], sales)
                invariant
                    p <= r@.len(),
                    i < chips@.len(),
                    forall|k: int| 0 <= k < r@.len() ==> #[trigger] r@[k] < i,
                    insert_pos(r@, i, chips@, sales) == p + insert_pos(
                        r@.subrange(p as int, r@.len() as int),
                        i,
                        chips@,
                        sales,
                    ),
                decreases r@.len() - p,
            {
                assert(r@.subrange(p as int, r@.len() as int).drop_first() =~= r@.subrange(
                    p + 1,
                    r@.len() as int,
                ));
                p = p + 1;
            }
            r.insert(p, i);
        }
        i = i + 1;
    }
    proof {
        lemma_pick_order_bounded(
            chips@,
            taken@,
            player as int,
            turn as int,
            chip_type,
            sales,
            chips@.len() as int,
        );
        lemma_pick_order_eligible(
            chips@,
            taken@,
            player as int,
            turn as int,
            chip_type,
            sales,
            chips@.len() as int,
        );
        lemma_pick_order_sorted(
            chips@,
            taken@,
            player as int,
            turn as int,
            chip_type,
            sales,
            chips@.len() as int,
        );
    }
    r
}

/// Interleaves two pick orders, `a` first.
pub fn interleave_picks(a: &Vec<usize>, b: &Vec<usize>) -> (r: Vec<usize>)
    ensures
        r@ == interleave(a@, b@),
{
    let c: usize = if a.len() <= b.len() {
        a.len()
    } else {
        b.len()
    };
    let ghost pairs = Seq::new(
        (2 * c) as nat,
        |k: int|
            if k % 2 == 0 {
                a@[k / 2]
            } else {
                b@[k / 2]
            },
    );
    let mut r: Vec<usize> = Vec::new();
    let mut i: usize = 0;
    while i < c
        invariant
            i <= c,
            c <= a@.len(),
            c <= b@.len(),
            pairs.len() == 2 * c,
            forall|k: int|
                0 <= k < 2 * c ==> #[trigger] pairs[k] == if k % 2 == 0 {
                    a@[k / 2]
                } else {
                    b@[k / 2]
                },
            r@ =~= pairs.subrange(0, 2 * i as int),
        decreases c - i,
    {
        r.push(a[i]);
        r.push(b[i]);
        assert(pairs[2 * i as int] == a@[i as int]);
        assert(pairs[2 * i + 1] == b@[i as int]);
        assert(r@ =~= pairs.subrange(0, 2 * (i + 1) as int));
        i = i + 1;
    }
    let mut j: usize = c;
    while j < a.len()
        invariant
            c <= j <= a@.len(),
            r@ =~= pairs + a@.subrange(c as int, j as int),
        decreases a@.len() - j,
    {
        r.push(a[j]);
        j = j + 1;
    }
    let mut j: usize = c;
    while j < b.len()
        invariant
            c <= j <= b@.len(),
            c <= a@.len(),
            r@ =~= pairs + a@.subrange(c as int, a@.len() as int) + b@.subrange(c as int, j as int),
        decreases b@.len() - j,
    {
        r.push(b[j]);
        j = j + 1;
    }
    r
}

/// Whether `x` is among the entries of `s`.
fn contains_index(s: &Vec<usize>, x: usize) -> (r: bool)
    ensures
        r == s@.contains(x),
{
    let mut i: usize = 0;
    while i < s.len()
        invariant
            i <= s@.len(),
            forall|k: int| 0 <= k < i ==> s@[k] != x,
        decreases s@.len() - i,
    {
        if s[i] == x {
            assert(s@[i as int] == x);
            return true;
        }
        i = i + 1;
    }
    false
}

/// The chips that a card of capacity `capacity` moves (`sales == false`) or
/// sells (`sales == true`) for `player` at `turn`; they are marked in
/// `taken`, so that a later card of the same resolution leaves them alone.
pub fn take_chips(
    chips: &Vec<ChipOnTable>,
    taken: &mut Vec<bool>,
    player: usize,
    turn: usize,
    sales: bool,
    capacity: u64,
) -> (r: Vec<usize>)
    requires
        old(taken)@.len() == chips@.len(),
    ensures
        r@ == chips_taken(chips@, old(taken)@, player as int, turn as int, sales, capacity as int),
        final(taken)@ == mark_taken(old(taken)@, r@),
        r@.len() <= capacity / CAPACITY_PER_CHIP,
        forall|k: int| 0 <= k < r@.len() ==> #[trigger] r@[k] < chips@.len(),
{
    let a = pick_order(chips, taken, player, turn, ChipType::Cannabis, sales);
    let b = pick_order(chips, taken, player, turn, ChipType::Cocaine, sales);
    let q = interleave_picks(&a, &b);
    assert forall|k: int| 0 <= k < q@.len() implies #[trigger] q@[k] < chips@.len() by {
        let c = if a@.len() <= b@.len() {
            a@.len() as int
        } else {
            b@.len() as int
        };
        if k < 2 * c {
            if k % 2 == 0 {
                assert(q@[k] == a@[k / 2]);
            } else {
                assert(q@[k] == b@[k / 2]);
            }
        } else if k < a@.len() + c {
            assert(q@[k] == a@[k - c]);
        } else {
            assert(q@[k] == b@[k - a@.len()]);
        }
    }
    let limit: u64 = capacity / CAPACITY_PER_CHIP;
    let n: usize = if (q.len() as u64) <= limit {
        q.len()
    } else {
        limit as usize
    };
    let mut r: Vec<usize> = Vec::new();
    let mut i: usize = 0;
    while i < n
        invariant
            i <= n <= q@.len(),
            r@ =~= q@.subrange(0, i as int),
        decreases n - i,
    {
        r.push(q[i]);
        i = i + 1;
    }
    let ghost before = taken@;
    let mut j: usize = 0;
    while j < taken.len()
        invariant
            j <= taken@.len(),
            taken@.len() == before.len(),
            forall|k: int|
                0 <= k < j ==> #[trigger] taken@[k] == (before[k] || r@.contains(k as usize)),
            forall|k: int| j <= k < taken@.len() ==> taken@[k] == before[k],
        decreases taken@.len() - j,
    {
        let hit = contains_index(&r, j);
        let ghost prev = taken@;
        if hit {
            taken.set(j, true);
        }
        assert(taken@[j as int] == (before[j as int] || r@.contains(j)));
        assert forall|k: int| 0 <= k < j implies #[trigger] taken@[k] == prev[k] by {}
        j = j + 1;
    }
    assert forall|k: int| 0 <= k < taken@.len() implies taken@[k] == mark_taken(before, r@)[k] by {
        assert(taken@[k] == (before[k] || r@.contains(k as usize)));
    }
    assert(taken@ =~= mark_taken(before, r@));
    r
}

/// Number of eligible chips among the first `n` of the snapshot.
pub open spec fn eligible_count(
    chips: Seq<ChipOnTable>,
    taken: Seq<bool>,
    player: int,
    turn: int,
    chip_type: ChipType,
    sales: bool,
    n: int,
) -> nat
    decreases n,
{
    if n <= 0 {
        0
    } else {
        eligible_count(chips, taken, player, turn, chip_type, sales, n - 1) + if eligible(
            chips[n - 1],
            taken[n - 1],
            player,
            turn,
            chip_type,
            sales,
        ) {
            1nat
        } else {
            0nat
        }
    }
}

/// The pick order holds each eligible chip once: its length is the number
/// of eligible chips, and each entry is an eligible chip.
pub proof fn lemma_pick_order_eligible(
    chips: Seq<ChipOnTable>,
    taken: Seq<bool>,
    player: int,
    turn: int,
    chip_type: ChipType,
    sales: bool,
    n: int,
)
    requires
        0 <= n <= chips.len() <= usize::MAX,
        taken.len() == chips.len(),
    ensures
        pick_order_spec(chips, taken, player, turn, chip_type, sales, n).len() == eligible_count(
            chips,
            taken,
            player,
            turn,
            chip_type,
            sales,
            n,
        ),
        forall|k: int|
            0 <= k < pick_order_spec(chips, taken, player, turn, chip_type, sales, n).len() ==> {
                let i = #[trigger] pick_order_spec(chips, taken, player, turn, chip_type, sales, n)[k] as int;
                0 <= i < n && eligible(chips[i], taken[i], player, turn, chip_type, sales)
            },
    decreases n,
{
    if n > 0 {
        lemma_pick_order_eligible(chips, taken, player, turn, chip_type, sales, n - 1);
        let prev = pick_order_spec(chips, taken, player, turn, chip_type, sales, n - 1);
        if eligible(chips[n - 1], taken[n - 1], player, turn, chip_type, sales) {
            let pos = insert_pos(prev, (n - 1) as usize, chips, sales);
            lemma_insert_pos_bounded(prev, (n - 1) as usize, chips, sales);
            let cur = prev.insert(pos, (n - 1) as usize);
            assert forall|k: int| 0 <= k < cur.len() implies {
                let i = #[trigger] cur[k] as int;
                0 <= i < n && eligible(chips[i], taken[i], player, turn, chip_type, sales)
            } by {
                if k < pos {
                    assert(cur[k] == prev[k]);
                    let i = prev[k] as int;
                    assert(0 <= i < n - 1 && eligible(chips[i], taken[i], player, turn, chip_type, sales));
                } else if k > pos {
                    assert(cur[k] == prev[k - 1]);
                    let i = prev[k - 1] as int;
                    assert(0 <= i < n - 1 && eligible(chips[i], taken[i], player, turn, chip_type, sales));
                } else {
                    assert(cur[k] == (n - 1) as usize);
                }
            }
        }
    }
}

/// The interleaved queue holds both pick orders whole.
pub proof fn lemma_interleave_len(a: Seq<usize>, b: Seq<usize>)
    ensures
        interleave(a, b).len() == a.len() + b.len(),
{
}

proof fn lemma_insert_pos_splits(s: Seq<usize>, x: usize, chips: Seq<ChipOnTable>, sales: bool)
    ensures
        forall|a: int|
            0 <= a < insert_pos(s, x, chips, sales) ==> !goes_before(
                chips,
                x as int,
                #[trigger] s[a] as int,
                sales,
            ),
        insert_pos(s, x, chips, sales) < s.len() ==> goes_before(
            chips,
            x as int,
            s[insert_pos(s, x, chips, sales)] as int,
            sales,
        ),
    decreases s.len(),
{
    if s.len() > 0 && !goes_before(chips, x as int, s[0] as int, sales) {
        lemma_insert_pos_splits(s.drop_first(), x, chips, sales);
        lemma_insert_pos_bounded(s.drop_first(), x, chips, sales);
        assert forall|a: int| 0 <= a < insert_pos(s, x, chips, sales) implies !goes_before(
            chips,
            x as int,
            #[trigger] s[a] as int,
            sales,
        ) by {
            if a > 0 {
                assert(s[a] == s.drop_first()[a - 1]);
            }
        }
    }
}

/// Strictly ordered by `goes_before`.
pub open spec fn in_pick_order(r: Seq<usize>, chips: Seq<ChipOnTable>, sales: bool) -> bool {
    forall|a: int, b: int|
        0 <= a < b < r.len() ==> goes_before(chips, #[trigger] r[a] as int, #[trigger] r[b] as int, sales)
}

proof fn lemma_insert_keeps_order(s: Seq<usize>, x: usize, chips: Seq<ChipOnTable>, sales: bool)
    requires
        in_pick_order(s, chips, sales),
        forall|a: int| 0 <= a < s.len() ==> #[trigger] s[a] < x,
    ensures
        in_pick_order(s.insert(insert_pos(s, x, chips, sales), x), chips, sales),
{
    let pos = insert_pos(s, x, chips, sales);
    lemma_insert_pos_bounded(s, x, chips, sales);
    lemma_insert_pos_splits(s, x, chips, sales);
    let cur = s.insert(pos, x);
    assert forall|a: int| 0 <= a < pos implies goes_before(
        chips,
        #[trigger] s[a] as int,
        x as int,
        sales,
    ) by {
        assert(!goes_before(chips, x as int, s[a] as int, sales));
        assert(s[a] < x);
    }
    assert forall|a: int| pos <= a < s.len() implies goes_before(
        chips,
        x as int,
        #[trigger] s[a] as int,
        sales,
    ) by {
        if a > pos {
            assert(goes_before(chips, s[pos] as int, s[a] as int, sales));
        }
    }
    assert forall|a: int, b: int| 0 <= a < b < cur.len() implies goes_before(
        chips,
        #[trigger] cur[a] as int,
        #[trigger] cur[b] as int,
        sales,
    ) by {
        if b < pos {
            assert(cur[a] == s[a] && cur[b] == s[b]);
        } else if b == pos {
            assert(cur[a] == s[a] && cur[b] == x);
        } else if a < pos {
            assert(cur[a] == s[a] && cur[b] == s[b - 1]);
        } else if a == pos {
            assert(cur[a] == x && cur[b] == s[b - 1]);
        } else {
            assert(cur[a] == s[a - 1] && cur[b] == s[b - 1]);
        }
    }
}

/// The pick order is the eligible chips sorted by sort key (ascending for
/// transportation, descending for sales), equal keys kept in snapshot
/// order: every entry goes before the next, and every eligible chip is in
/// it.
pub proof fn lemma_pick_order_sorted(
    chips: Seq<ChipOnTable>,
    taken: Seq<bool>,
    player: int,
    turn: int,
    chip_type: ChipType,
    sales: bool,
    n: int,
)
    requires
        0 <= n <= chips.len() <= usize::MAX,
        taken.len() == chips.len(),
    ensures
        in_pick_order(pick_order_spec(chips, taken, player, turn, chip_type, sales, n), chips, sales),
        forall|i: int|
            0 <= i < n && eligible(chips[i], taken[i], player, turn, chip_type, sales)
                ==> #[trigger] pick_order_spec(chips, taken, player, turn, chip_type, sales, n).contains(
                i as usize,
            ),
    decreases n,
{
    if n > 0 {
        lemma_pick_order_sorted(chips, taken, player, turn, chip_type, sales, n - 1);
        lemma_pick_order_eligible(chips, taken, player, turn, chip_type, sales, n - 1);
        let prev = pick_order_spec(chips, taken, player, turn, chip_type, sales, n - 1);
        let x = (n - 1) as usize;
        if eligible(chips[n - 1], taken[n - 1], player, turn, chip_type, sales) {
            let pos = insert_pos(prev, x, chips, sales);
            lemma_insert_pos_bounded(prev, x, chips, sales);
            assert forall|a: int| 0 <= a < prev.len() implies #[trigger] prev[a] < x by {
                let i = prev[a] as int;
                assert(0 <= i < n - 1);
            }
            lemma_insert_keeps_order(prev, x, chips, sales);
            let cur = prev.insert(pos, x);
            assert forall|i: int|
                0 <= i < n && eligible(
                    chips[i],
                    taken[i],
                    player,
                    turn,
                    chip_type,
                    sales,
                ) implies #[trigger] cur.contains(i as usize) by {
                if i == n - 1 {
                    assert(cur[pos] == x);
                } else {
                    assert(prev.contains(i as usize));
                    let k = choose|k: int| 0 <= k < prev.len() && prev[k] == i as usize;
                    if k < pos {
                        assert(cur[k] == prev[k]);
                    } else {
                        assert(cur[k + 1] == prev[k]);
                    }
                }
            }
        }
    }
}

} // verus!
