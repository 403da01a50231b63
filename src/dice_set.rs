//! Resource dice: the element categories and a fixed-capacity pool of them.

use vstd::multiset::Multiset;
use vstd::prelude::*;
use vstd::seq_lib::{to_multiset_build, to_multiset_contains, to_multiset_insert, to_multiset_len, to_multiset_remove};

verus! {

/// The category of a resource die. `Universal` is the wildcard and `Null`
/// marks an empty slot; the seven others are the elements.
#[derive(Clone, Copy, PartialEq, Eq, Structural, Debug, Hash, PartialOrd, Ord)]
pub enum ElementType {
    Universal,
    Electro,
    Hydro,
    Pyro,
    Cryo,
    Anemo,
    Geo,
    Dendro,
    Null,
}

/// The numeric rank of a category: `Universal` is 0, the elements are 1 to 7
/// in declaration order and `Null` is 8.
pub open spec fn rank(e: ElementType) -> int {
    match e {
        ElementType::Universal => 0,
        ElementType::Electro => 1,
        ElementType::Hydro => 2,
        ElementType::Pyro => 3,
        ElementType::Cryo => 4,
        ElementType::Anemo => 5,
        ElementType::Geo => 6,
        ElementType::Dendro => 7,
        ElementType::Null => 8,
    }
}

/// The category of rank `r`; every rank above 8 maps to `Null`.
pub open spec fn element_of_rank(r: int) -> ElementType {
    if r == 0 {
        ElementType::Universal
    } else if r == 1 {
        ElementType::Electro
    } else if r == 2 {
        ElementType::Hydro
    } else if r == 3 {
        ElementType::Pyro
    } else if r == 4 {
        ElementType::Cryo
    } else if r == 5 {
        ElementType::Anemo
    } else if r == 6 {
        ElementType::Geo
    } else if r == 7 {
        ElementType::Dendro
    } else {
        ElementType::Null
    }
}

impl ElementType {
    /// The numeric rank of this category, as sent to clients.
    pub fn int_value(&self) -> (r: i8)
        ensures
            r == rank(*self),
    {
        match self {
            ElementType::Universal => 0,
            ElementType::Electro => 1,
            ElementType::Hydro => 2,
            ElementType::Pyro => 3,
            ElementType::Cryo => 4,
            ElementType::Anemo => 5,
            ElementType::Geo => 6,
            ElementType::Dendro => 7,
            ElementType::Null => 8,
        }
    }

    /// The category of a numeric rank, or `None` when no category has it.
    pub fn from_int(v: i8) -> (r: Option<ElementType>)
        ensures
            0 <= v <= 8 ==> r == Some(element_of_rank(v as int)),
            !(0 <= v <= 8) ==> r.is_none(),
    {
        match v {
            0 => Some(ElementType::Universal),
            1 => Some(ElementType::Electro),
            2 => Some(ElementType::Hydro),
            3 => Some(ElementType::Pyro),
            4 => Some(ElementType::Cryo),
            5 => Some(ElementType::Anemo),
            6 => Some(ElementType::Geo),
            7 => Some(ElementType::Dendro),
            8 => Some(ElementType::Null),
            _ => None,
        }
    }
}


/// Number of slots in a pool.
pub const DICE_CAPACITY: usize = 16;

/// Number of dice a fresh roll fills.
pub const ROLLED_DICE: usize = 8;

/// Number of categories a die can be rolled as: the wildcard and the seven elements.
pub const ROLLABLE_KINDS: u8 = 8;

/// Relies on `rand::Rng::gen_range` over `rand::thread_rng()`: a value drawn
/// from `0..ROLLABLE_KINDS`, which the documentation promises lies in that range.
#[verifier::external_body]
pub(crate) fn draw_die_code() -> (r: u8)
    ensures
        r < ROLLABLE_KINDS,
{
    rand::Rng::gen_range(&mut rand::thread_rng(), 0..ROLLABLE_KINDS)
}

/// The die that a drawn code in `0..ROLLABLE_KINDS` stands for.
pub fn die_of_code(code: u8) -> (e: ElementType)
    requires
        code < ROLLABLE_KINDS,
    ensures
        e == element_of_rank(code as int),
        e != ElementType::Null,
{
    match code {
        0 => ElementType::Universal,
        1 => ElementType::Electro,
        2 => ElementType::Hydro,
        3 => ElementType::Pyro,
        4 => ElementType::Cryo,
        5 => ElementType::Anemo,
        6 => ElementType::Geo,
        _ => ElementType::Dendro,
    }
}

/// The dice that a sequence of drawn codes stands for.
pub open spec fn dice_of_codes(codes: Seq<u8>) -> Seq<ElementType> {
    Seq::new(codes.len(), |i: int| element_of_rank(codes[i] as int))
}

/// Whether every code of a sequence is a valid draw.
pub open spec fn valid_codes(codes: Seq<u8>) -> bool {
    forall|i: int| 0 <= i < codes.len() ==> #[trigger] codes[i] < ROLLABLE_KINDS
}

/// The place of a die in the pool's order: wildcards first, then the
/// elements listed in `priority` by rank, then the other elements by rank,
/// and empty slots last.
pub open spec fn sort_key(e: ElementType, priority: Seq<ElementType>) -> int {
    if e == ElementType::Universal {
        0
    } else if e == ElementType::Null {
        16
    } else if priority.contains(e) {
        rank(e)
    } else {
        8 + rank(e)
    }
}

/// Whether `s` is ordered by `sort_key` under `priority`.
pub open spec fn sorted_by_priority(s: Seq<ElementType>, priority: Seq<ElementType>) -> bool {
    forall|i: int, j: int|
        0 <= i < j < s.len() ==> sort_key(#[trigger] s[i], priority) <= sort_key(
            #[trigger] s[j],
            priority,
        )
}

/// Whether `r` holds the dice of `s` ordered by `sort_key` under `priority`.
pub open spec fn is_arrangement(
    r: Seq<ElementType>,
    s: Seq<ElementType>,
    priority: Seq<ElementType>,
) -> bool {
    r.to_multiset() == s.to_multiset() && sorted_by_priority(r, priority)
}

/// Distinct categories never share a place in the order.
pub proof fn lemma_sort_key_injective(a: ElementType, b: ElementType, priority: Seq<ElementType>)
    requires
        sort_key(a, priority) == sort_key(b, priority),
    ensures
        a == b,
{
}

/// An ordering of a multiset of dice by `sort_key` is unique.
pub proof fn lemma_arrangement_unique(
    r: Seq<ElementType>,
    s: Seq<ElementType>,
    priority: Seq<ElementType>,
)
    requires
        sorted_by_priority(r, priority),
        sorted_by_priority(s, priority),
        r.to_multiset() == s.to_multiset(),
    ensures
        r == s,
    decreases r.len(),
{
    to_multiset_len(r);
    to_multiset_len(s);
    if r.len() > 0 {
        to_multiset_contains(r, r[0]);
        to_multiset_contains(s, r[0]);
        let j = choose|j: int| 0 <= j < s.len() && s[j] == r[0];
        assert(sort_key(s[0], priority) <= sort_key(s[j], priority));
        to_multiset_contains(s, s[0]);
        to_multiset_contains(r, s[0]);
        let k = choose|k: int| 0 <= k < r.len() && r[k] == s[0];
        assert(sort_key(r[0], priority) <= sort_key(r[k], priority));
        lemma_sort_key_injective(r[0], s[0], priority);
        to_multiset_remove(r, 0);
        to_multiset_remove(s, 0);
        assert(r.remove(0) =~= r.drop_first());
        assert(s.remove(0) =~= s.drop_first());
        lemma_arrangement_unique(r.drop_first(), s.drop_first(), priority);
        assert(r =~= seq![r[0]] + r.drop_first());
        assert(s =~= seq![s[0]] + s.drop_first());
    }
}

/// Sorting is idempotent: the only ordering of a pool that is already in
/// order is that pool itself.
pub proof fn lemma_sort_idempotent(
    pool: Seq<ElementType>,
    priority: Seq<ElementType>,
    sorted: Seq<ElementType>,
)
    requires
        sorted_by_priority(pool, priority),
        is_arrangement(sorted, pool, priority),
    ensures
        sorted == pool,
{
    lemma_arrangement_unique(sorted, pool, priority);
}

/// The place of die `e` in the order under `priority`.
fn priority_key(e: ElementType, priority: &Vec<ElementType>) -> (k: u8)
    ensures
        k == sort_key(e, priority@),
{
    if e == ElementType::Universal {
        return 0;
    }
    if e == ElementType::Null {
        return 16;
    }
    let r = e.int_value() as u8;
    let mut i: usize = 0;
    while i < priority.len()
        invariant
            i <= priority@.len(),
            r == rank(e),
            e != ElementType::Universal,
            e != ElementType::Null,
            forall|j: int| 0 <= j < i ==> priority@[j] != e,
        decreases priority@.len() - i,
    {
        if priority[i] == e {
            assert(priority@.contains(e));
            return r;
        }
        i += 1;
    }
    8 + r
}

/// Orders `dice` by `sort_key` under `priority`.
fn arrange(dice: &Vec<ElementType>, priority: &Vec<ElementType>) -> (r: Vec<ElementType>)
    ensures
        is_arrangement(r@, dice@, priority@),
{
    let mut out: Vec<ElementType> = Vec::new();
    let mut i: usize = 0;
    assert(dice@.subrange(0, 0) =~= out@);
    while i < dice.len()
        invariant
            i <= dice@.len(),
            is_arrangement(out@, dice@.subrange(0, i as int), priority@),
        decreases dice@.len() - i,
    {
        let e = dice[i];
        let k = priority_key(e, priority);
        let mut p: usize = 0;
        while p < out.len() && priority_key(out[p], priority) <= k
            invariant
                p <= out@.len(),
                forall|j: int| 0 <= j < p ==> sort_key(#[trigger] out@[j], priority@) <= k,
            decreases out@.len() - p,
        {
            p += 1;
        }
        proof {
            if p < out@.len() {
                assert(sort_key(out@[p as int], priority@) > k);
            }
            assert(dice@.subrange(0, i + 1) =~= dice@.subrange(0, i as int).push(e));
        }
        let ghost before = out@;
        out.insert(p, e);
        proof {
            to_multiset_insert(before, p as int, e);
            to_multiset_build(dice@.subrange(0, i as int), e);
            assert forall|a: int, b: int| 0 <= a < b < out@.len() implies sort_key(
                #[trigger] out@[a],
                priority@,
            ) <= sort_key(#[trigger] out@[b], priority@) by {
                if b < p {
                } else if b == p {
                } else if a < p {
                    assert(out@[b] == before[b - 1]);
                    if p < before.len() {
                        assert(sort_key(before[p as int], priority@) <= sort_key(
                            before[b - 1],
                            priority@,
                        ));
                    }
                } else if a == p {
                    assert(out@[b] == before[b - 1]);
                    assert(sort_key(before[p as int], priority@) <= sort_key(
                        before[b - 1],
                        priority@,
                    )) by {
                        if p < b - 1 {
                        }
                    }
                } else {
                    assert(out@[a] == before[a - 1]);
                    assert(out@[b] == before[b - 1]);
                }
            }
        }
        i += 1;
    }
    assert(dice@.subrange(0, i as int) =~= dice@);
    out
}

/// The number of dice equal to `e` among the first `p` of `s`.
pub open spec fn occurrences(s: Seq<ElementType>, e: ElementType, p: int) -> nat
    decreases p,
{
    if p <= 0 {
        0
    } else {
        occurrences(s, e, p - 1) + if s[p - 1] == e {
            1nat
        } else {
            0nat
        }
    }
}

/// The running total of element `e` over the first `p` dice of `s`: its own
/// dice plus the wildcards.
pub open spec fn tally(s: Seq<ElementType>, e: ElementType, p: int) -> nat {
    occurrences(s, e, p) + occurrences(s, ElementType::Universal, p)
}

/// Whether `e` is one of the seven elements.
pub open spec fn is_element(e: ElementType) -> bool {
    e != ElementType::Universal && e != ElementType::Null
}

/// The lowest-ranked element of rank `r` to 7 whose running total over the
/// first `p` dice of `s` reaches `n`.
pub open spec fn reaching_from(s: Seq<ElementType>, n: int, p: int, r: int) -> Option<ElementType>
    decreases 8 - r,
{
    if r < 1 || r > 7 {
        None
    } else if tally(s, element_of_rank(r), p) >= n {
        Some(element_of_rank(r))
    } else {
        reaching_from(s, n, p, r + 1)
    }
}

/// Scanning `s` from its first `p` dice onwards, the element picked at the
/// first point where some running total reaches `n` (the lowest-ranked
/// element if several reach it there).
pub open spec fn auto_from(s: Seq<ElementType>, n: int, p: int) -> Option<ElementType>
    decreases s.len() - p,
{
    if p < 0 || p > s.len() {
        None
    } else if reaching_from(s, n, p, 1) is Some {
        reaching_from(s, n, p, 1)
    } else if p == s.len() {
        None
    } else {
        auto_from(s, n, p + 1)
    }
}

/// The element that an automatic same-element selection of `n` dice picks
/// in `s`, if any.
pub open spec fn auto_element(s: Seq<ElementType>, n: int) -> Option<ElementType> {
    auto_from(s, n, 0)
}

/// Whether a die `t` may pay a cost: any die when the cost does not ask for
/// one element, else a die of the selected element or a wildcard.
pub open spec fn qualifies(t: ElementType, must_same: bool, selected: ElementType) -> bool {
    !must_same || t == selected || t == ElementType::Universal
}

/// The indices in `lo..hi` of the dice of `s` that qualify, highest first.
pub open spec fn matches_from_back(
    s: Seq<ElementType>,
    must_same: bool,
    selected: ElementType,
    lo: int,
    hi: int,
) -> Seq<usize>
    decreases hi - lo,
{
    if lo >= hi {
        seq![]
    } else {
        matches_from_back(s, must_same, selected, lo + 1, hi) + if qualifies(
            s[lo],
            must_same,
            selected,
        ) {
            seq![lo as usize]
        } else {
            seq![]
        }
    }
}

/// The category a cost is paid in: the automatic pick when a same-element
/// cost names `Null`, else the named category.
pub open spec fn selected_element(
    s: Seq<ElementType>,
    must_same: bool,
    ty: ElementType,
    num: int,
) -> Option<ElementType> {
    if must_same && ty == ElementType::Null {
        auto_element(s, num)
    } else {
        Some(ty)
    }
}

/// The indices that pay a cost of `num` dice from the pool `s`: the `num`
/// qualifying dice nearest the end, highest index first, or `None` when
/// there are not that many.
pub open spec fn find_result(s: Seq<ElementType>, must_same: bool, ty: ElementType, num: int) -> Option<
    Seq<usize>,
> {
    match selected_element(s, must_same, ty, num) {
        None => None,
        Some(sel) => {
            let q = matches_from_back(s, must_same, sel, 0, s.len() as int);
            if q.len() >= num {
                Some(q.take(num))
            } else {
                None
            }
        },
    }
}

proof fn lemma_occurrences_bound(s: Seq<ElementType>, e: ElementType, p: int)
    requires
        0 <= p,
    ensures
        occurrences(s, e, p) <= p,
    decreases p,
{
    if p > 0 {
        lemma_occurrences_bound(s, e, p - 1);
    }
}

/// The matches found scanning down to `lo` begin the matches found scanning
/// further down to `lo2`.
proof fn lemma_matches_prefix(
    s: Seq<ElementType>,
    must_same: bool,
    selected: ElementType,
    lo2: int,
    lo: int,
    hi: int,
)
    requires
        lo2 <= lo <= hi,
    ensures
        matches_from_back(s, must_same, selected, lo, hi).len() <= matches_from_back(
            s,
            must_same,
            selected,
            lo2,
            hi,
        ).len(),
        forall|k: int|
            0 <= k < matches_from_back(s, must_same, selected, lo, hi).len() ==> (
            #[trigger] matches_from_back(s, must_same, selected, lo, hi)[k]) == matches_from_back(
                s,
                must_same,
                selected,
                lo2,
                hi,
            )[k],
    decreases lo - lo2,
{
    if lo2 < lo {
        lemma_matches_prefix(s, must_same, selected, lo2 + 1, lo, hi);
    }
}

proof fn lemma_occurrences_monotone(s: Seq<ElementType>, e: ElementType, p: int, q: int)
    requires
        p <= q,
    ensures
        occurrences(s, e, p) <= occurrences(s, e, q),
    decreases q - p,
{
    if p < q {
        lemma_occurrences_monotone(s, e, p, q - 1);
    }
}

/// Whatever `reaching_from` picks is an element that reached the total.
proof fn lemma_reaching_sound(s: Seq<ElementType>, n: int, p: int, r: int)
    requires
        reaching_from(s, n, p, r) is Some,
    ensures
        is_element(reaching_from(s, n, p, r)->0),
        tally(s, reaching_from(s, n, p, r)->0, p) >= n,
    decreases 8 - r,
{
    if 1 <= r <= 7 && tally(s, element_of_rank(r), p) < n {
        lemma_reaching_sound(s, n, p, r + 1);
    }
}

/// `reaching_from` finds an element whenever one of rank `r` or above reaches the total.
proof fn lemma_reaching_complete(s: Seq<ElementType>, n: int, p: int, r: int, e: ElementType)
    requires
        1 <= r <= rank(e),
        is_element(e),
        tally(s, e, p) >= n,
    ensures
        reaching_from(s, n, p, r) is Some,
    decreases 8 - r,
{
    if r < rank(e) && tally(s, element_of_rank(r), p) < n {
        lemma_reaching_complete(s, n, p, r + 1, e);
    }
    assert(element_of_rank(rank(e)) == e);
}

/// Whatever `auto_from` picks is an element whose total over the pool reaches `n`.
proof fn lemma_auto_sound(s: Seq<ElementType>, n: int, p: int)
    requires
        auto_from(s, n, p) is Some,
    ensures
        is_element(auto_from(s, n, p)->0),
        tally(s, auto_from(s, n, p)->0, s.len() as int) >= n,
    decreases s.len() - p,
{
    if reaching_from(s, n, p, 1) is Some {
        lemma_reaching_sound(s, n, p, 1);
        let e = reaching_from(s, n, p, 1)->0;
        lemma_occurrences_monotone(s, e, p, s.len() as int);
        lemma_occurrences_monotone(s, ElementType::Universal, p, s.len() as int);
    } else {
        lemma_auto_sound(s, n, p + 1);
    }
}

/// `auto_from` picks an element whenever some element's total over the pool reaches `n`.
proof fn lemma_auto_complete(s: Seq<ElementType>, n: int, p: int, e: ElementType)
    requires
        0 <= p <= s.len(),
        is_element(e),
        tally(s, e, s.len() as int) >= n,
    ensures
        auto_from(s, n, p) is Some,
    decreases s.len() - p,
{
    if p == s.len() {
        lemma_reaching_complete(s, n, p, 1, e);
    } else if reaching_from(s, n, p, 1) is None {
        lemma_auto_complete(s, n, p + 1, e);
    }
}

/// Extending the scanned range by one die at the top puts that die's index first.
proof fn lemma_matches_extend(
    s: Seq<ElementType>,
    must_same: bool,
    selected: ElementType,
    lo: int,
    hi: int,
)
    requires
        lo <= hi,
    ensures
        matches_from_back(s, must_same, selected, lo, hi + 1) == (if qualifies(
            s[hi],
            must_same,
            selected,
        ) {
            seq![hi as usize]
        } else {
            seq![]
        }) + matches_from_back(s, must_same, selected, lo, hi),
    decreases hi - lo,
{
    let head: Seq<usize> = if qualifies(s[hi], must_same, selected) {
        seq![hi as usize]
    } else {
        seq![]
    };
    let own: Seq<usize> = if qualifies(s[lo], must_same, selected) {
        seq![lo as usize]
    } else {
        seq![]
    };
    if lo < hi {
        lemma_matches_extend(s, must_same, selected, lo + 1, hi);
        assert(matches_from_back(s, must_same, selected, lo, hi + 1) == matches_from_back(
            s,
            must_same,
            selected,
            lo + 1,
            hi + 1,
        ) + own);
        assert(matches_from_back(s, must_same, selected, lo, hi) == matches_from_back(
            s,
            must_same,
            selected,
            lo + 1,
            hi,
        ) + own);
        assert((head + matches_from_back(s, must_same, selected, lo + 1, hi)) + own =~= head + (
        matches_from_back(s, must_same, selected, lo + 1, hi) + own));
    } else {
        assert(matches_from_back(s, must_same, selected, lo, hi + 1) == matches_from_back(
            s,
            must_same,
            selected,
            lo + 1,
            hi + 1,
        ) + head);
        assert(matches_from_back(s, must_same, selected, lo + 1, hi + 1) == Seq::<usize>::empty());
        assert(matches_from_back(s, must_same, selected, lo, hi) == Seq::<usize>::empty());
        assert(Seq::<usize>::empty() + head =~= head + Seq::<usize>::empty());
    }
}

/// For one element, the same-element matches in the first `hi` dice are as
/// many as the element's running total there.
proof fn lemma_matches_len(s: Seq<ElementType>, e: ElementType, hi: int)
    requires
        0 <= hi <= s.len(),
        is_element(e),
    ensures
        matches_from_back(s, true, e, 0, hi).len() == tally(s, e, hi),
    decreases hi,
{
    if hi > 0 {
        lemma_matches_len(s, e, hi - 1);
        lemma_matches_extend(s, true, e, 0, hi - 1);
    }
}

/// The matches in `lo..hi` are qualifying indices of that range, strictly
/// decreasing.
proof fn lemma_matches_members(
    s: Seq<ElementType>,
    must_same: bool,
    selected: ElementType,
    lo: int,
    hi: int,
)
    requires
        0 <= lo,
        hi <= usize::MAX,
    ensures
        forall|k: int|
            0 <= k < matches_from_back(s, must_same, selected, lo, hi).len() ==> {
                let x = #[trigger] matches_from_back(s, must_same, selected, lo, hi)[k];
                &&& lo <= x < hi
                &&& qualifies(s[x as int], must_same, selected)
            },
        forall|k1: int, k2: int|
            0 <= k1 < k2 < matches_from_back(s, must_same, selected, lo, hi).len() ==> #[trigger] matches_from_back(
                s,
                must_same,
                selected,
                lo,
                hi,
            )[k1] > #[trigger] matches_from_back(s, must_same, selected, lo, hi)[k2],
    decreases hi - lo,
{
    if lo < hi {
        lemma_matches_members(s, must_same, selected, lo + 1, hi);
        let m = matches_from_back(s, must_same, selected, lo + 1, hi);
        let own: Seq<usize> = if qualifies(s[lo], must_same, selected) {
            seq![lo as usize]
        } else {
            seq![]
        };
        let full = matches_from_back(s, must_same, selected, lo, hi);
        assert(full == m + own);
        assert forall|k: int| 0 <= k < full.len() implies {
            let x = #[trigger] full[k];
            &&& lo <= x < hi
            &&& qualifies(s[x as int], must_same, selected)
        } by {
            if k < m.len() {
                assert(full[k] == m[k]);
            }
        }
        assert forall|k1: int, k2: int| 0 <= k1 < k2 < full.len() implies #[trigger] full[k1]
            > #[trigger] full[k2] by {
            assert(full[k1] == m[k1]);
            if k2 < m.len() {
                assert(full[k2] == m[k2]);
            }
        }
    }
}

/// An automatic same-element selection of `k` dice from a pool succeeds
/// exactly when some element has at least `k` dice, counting wildcards
/// toward every element. It then returns `k` distinct indices of the pool,
/// each holding the picked element or a wildcard.
pub proof fn lemma_auto_find(s: Seq<ElementType>, k: int)
    requires
        0 <= k,
        s.len() <= DICE_CAPACITY,
        forall|i: int| 0 <= i < s.len() ==> #[trigger] s[i] != ElementType::Null,
    ensures
        find_result(s, true, ElementType::Null, k) is Some <==> exists|e: ElementType|
            is_element(e) && #[trigger] tally(s, e, s.len() as int) >= k,
        find_result(s, true, ElementType::Null, k) is Some ==> {
            let r = find_result(s, true, ElementType::Null, k)->0;
            let e = auto_element(s, k)->0;
            &&& is_element(e)
            &&& tally(s, e, s.len() as int) >= k
            &&& r.len() == k
            &&& forall|j: int|
                0 <= j < k ==> #[trigger] r[j] < s.len() && (s[r[j] as int] == e || s[r[j] as int]
                    == ElementType::Universal)
            &&& forall|j1: int, j2: int| 0 <= j1 < j2 < k ==> #[trigger] r[j1] != #[trigger] r[j2]
        },
{
    if auto_element(s, k) is Some {
        let e = auto_element(s, k)->0;
        lemma_auto_sound(s, k, 0);
        lemma_matches_len(s, e, s.len() as int);
        lemma_matches_members(s, true, e, 0, s.len() as int);
    }
    if exists|e: ElementType| is_element(e) && #[trigger] tally(s, e, s.len() as int) >= k {
        let e = choose|e: ElementType| is_element(e) && #[trigger] tally(s, e, s.len() as int) >= k;
        lemma_auto_complete(s, k, 0, e);
    }
}

/// `reaching_from` computed from per-category counts of the first `p` dice.
fn lowest_reaching(counts: &Vec<usize>, num: usize, Ghost(s): Ghost<Seq<ElementType>>, Ghost(
    p,
): Ghost<int>) -> (r: Option<ElementType>)
    requires
        counts@.len() == 8,
        0 <= p <= DICE_CAPACITY,
        forall|k: int|
            0 <= k < 8 ==> #[trigger] counts@[k] == occurrences(s, element_of_rank(k), p),
    ensures
        r == reaching_from(s, num as int, p, 1),
{
    let mut r: usize = 1;
    while r < 8
        invariant
            1 <= r <= 8,
            counts@.len() == 8,
            0 <= p <= DICE_CAPACITY,
            forall|k: int|
                0 <= k < 8 ==> #[trigger] counts@[k] == occurrences(s, element_of_rank(k), p),
            reaching_from(s, num as int, p, 1) == reaching_from(s, num as int, p, r as int),
        decreases 8 - r,
    {
        proof {
            lemma_occurrences_bound(s, element_of_rank(r as int), p);
            lemma_occurrences_bound(s, ElementType::Universal, p);
            assert(counts@[0] == occurrences(s, element_of_rank(0), p));
            assert(counts@[r as int] == occurrences(s, element_of_rank(r as int), p));
        }
        if counts[r] + counts[0] >= num {
            return Some(die_of_code(r as u8));
        }
        r += 1;
    }
    None
}

/// The dice at the given slots of `s`, in the order the slots are listed.
pub open spec fn spent_dice(s: Seq<ElementType>, indices: Seq<usize>) -> Seq<ElementType> {
    indices.map_values(|i: usize| s[i as int])
}

/// The slot layout of a pool: `DICE_CAPACITY` slots whose first `count`
/// hold dice and whose others are empty.
pub open spec fn pool_layout(slots: Seq<ElementType>, count: int) -> bool {
    &&& slots.len() == DICE_CAPACITY
    &&& 0 <= count <= DICE_CAPACITY
    &&& forall|i: int| 0 <= i < count ==> #[trigger] slots[i] != ElementType::Null
    &&& forall|i: int| count <= i < DICE_CAPACITY ==> #[trigger] slots[i] == ElementType::Null
}

/// Whether `indices` are distinct slots below `count`.
pub open spec fn selects_distinct_dice(indices: Seq<usize>, count: int) -> bool {
    &&& forall|j: int| 0 <= j < indices.len() ==> #[trigger] indices[j] < count
    &&& forall|j1: int, j2: int|
        0 <= j1 < j2 < indices.len() ==> #[trigger] indices[j1] != #[trigger] indices[j2]
}

/// The slots `dice` after redrawing the slots `indices[..k]`, in order,
/// as the codes `codes[..k]` give them.
pub open spec fn rerolled(dice: Seq<ElementType>, indices: Seq<usize>, codes: Seq<u8>, k: int) -> Seq<
    ElementType,
>
    decreases k,
{
    if k <= 0 {
        dice
    } else {
        rerolled(dice, indices, codes, k - 1).update(
            indices[k - 1] as int,
            element_of_rank(codes[k - 1] as int),
        )
    }
}

/// A pool of resource dice with a fixed number of slots. The first
/// `dice_count` slots hold dice; the rest hold `Null`.
pub struct DiceSet {
    pub dices: Vec<ElementType>,
    pub dice_count: usize,
}

impl DiceSet {
    /// The slot layout: the valid dice form a prefix, the empty slots the rest.
    pub open spec fn wf(&self) -> bool {
        pool_layout(self.dices@, self.dice_count as int)
    }

    /// The dice currently in the pool, in slot order.
    pub open spec fn valid_dice(&self) -> Seq<ElementType> {
        self.dices@.subrange(0, self.dice_count as int)
    }

    /// Fills the pool from the given dice, followed by empty slots.
    fn fill_from(&mut self, dice: &Vec<ElementType>)
        requires
            dice@.len() <= DICE_CAPACITY,
            forall|i: int| 0 <= i < dice@.len() ==> #[trigger] dice@[i] != ElementType::Null,
        ensures
            final(self).wf(),
            final(self).dice_count == dice@.len(),
            final(self).valid_dice() == dice@,
    {
        let mut slots: Vec<ElementType> = Vec::new();
        let mut i: usize = 0;
        while i < DICE_CAPACITY
            invariant
                i <= DICE_CAPACITY,
                slots@.len() == i,
                dice@.len() <= DICE_CAPACITY,
                forall|j: int| 0 <= j < i && j < dice@.len() ==> #[trigger] slots@[j] == dice@[j],
                forall|j: int| dice@.len() <= j < i ==> #[trigger] slots@[j] == ElementType::Null,
            decreases DICE_CAPACITY - i,
        {
            if i < dice.len() {
                slots.push(dice[i]);
            } else {
                slots.push(ElementType::Null);
            }
            i += 1;
        }
        self.dices = slots;
        self.dice_count = dice.len();
        assert(self.valid_dice() =~= dice@);
    }

    /// Replaces the pool by a fresh roll whose dice are the given draws: the
    /// first slots hold the dice the codes stand for, the others are empty.
    pub fn roll_from(&mut self, codes: &Vec<u8>)
        requires
            codes@.len() == ROLLED_DICE,
            valid_codes(codes@),
        ensures
            final(self).wf(),
            final(self).dice_count == ROLLED_DICE,
            final(self).valid_dice() == dice_of_codes(codes@),
    {
        let mut dice: Vec<ElementType> = Vec::new();
        let mut i: usize = 0;
        while i < codes.len()
            invariant
                i <= codes@.len(),
                codes@.len() == ROLLED_DICE,
                valid_codes(codes@),
                dice@ == dice_of_codes(codes@.subrange(0, i as int)),
            decreases codes@.len() - i,
        {
            assert(codes@[i as int] < ROLLABLE_KINDS);
            let e = die_of_code(codes[i]);
            dice.push(e);
            i += 1;
            assert(dice@ =~= dice_of_codes(codes@.subrange(0, i as int)));
        }
        assert(codes@.subrange(0, i as int) =~= codes@);
        self.fill_from(&dice);
    }

    /// Clears the pool and rolls `ROLLED_DICE` fresh dice, each drawn
    /// uniformly from the wildcard and the seven elements.
    pub fn roll_dices(&mut self)
        ensures
            final(self).wf(),
            final(self).dice_count == ROLLED_DICE,
    {
        let mut codes: Vec<u8> = Vec::new();
        let mut i: usize = 0;
        while i < ROLLED_DICE
            invariant
                i <= ROLLED_DICE,
                codes@.len() == i,
                valid_codes(codes@),
            decreases ROLLED_DICE - i,
        {
            let c = draw_die_code();
            codes.push(c);
            i += 1;
        }
        self.roll_from(&codes);
    }

    /// Sets the die in slot `index` to the one that `code` stands for; the
    /// number of dice does not change.
    pub fn set_die(&mut self, index: usize, code: u8)
        requires
            old(self).wf(),
            index < old(self).dice_count,
            code < ROLLABLE_KINDS,
        ensures
            final(self).wf(),
            final(self).dice_count == old(self).dice_count,
            final(self).dices@ == old(self).dices@.update(index as int, element_of_rank(code as int)),
    {
        let e = die_of_code(code);
        self.dices.set(index, e);
    }

    /// Redraws the die in slot `index`; the number of dice does not change.
    pub fn reroll_dice(&mut self, index: usize)
        requires
            old(self).wf(),
            index < old(self).dice_count,
        ensures
            final(self).wf(),
            final(self).dice_count == old(self).dice_count,
            forall|i: int|
                0 <= i < DICE_CAPACITY && i != index ==> #[trigger] final(self).dices@[i]
                    == old(self).dices@[i],
    {
        let c = draw_die_code();
        self.set_die(index, c);
    }

    /// The automatic same-element selection for a cost of `num` dice.
    fn auto_select(&self, num: usize) -> (r: Option<ElementType>)
        requires
            self.wf(),
        ensures
            r == auto_element(self.valid_dice(), num as int),
    {
        let ghost s = self.valid_dice();
        let mut counts: Vec<usize> = Vec::new();
        let mut k: usize = 0;
        while k < 8
            invariant
                k <= 8,
                counts@.len() == k,
                forall|j: int| 0 <= j < k ==> #[trigger] counts@[j] == 0,
            decreases 8 - k,
        {
            counts.push(0);
            k += 1;
        }
        let mut i: usize = 0;
        loop
            invariant
                self.wf(),
                s == self.valid_dice(),
                i <= self.dice_count,
                counts@.len() == 8,
                forall|j: int|
                    0 <= j < 8 ==> #[trigger] counts@[j] == occurrences(
                        s,
                        element_of_rank(j),
                        i as int,
                    ),
                auto_element(s, num as int) == auto_from(s, num as int, i as int),
            decreases self.dice_count - i,
        {
            let pick = lowest_reaching(&counts, num, Ghost(s), Ghost(i as int));
            if pick.is_some() {
                return pick;
            }
            if i == self.dice_count {
                return None;
            }
            let t = self.dices[i];
            let c = t.int_value() as usize;
            proof {
                lemma_occurrences_bound(s, t, i as int);
                assert(element_of_rank(c as int) == t);
            }
            counts.set(c, counts[c] + 1);
            i += 1;
            assert forall|j: int| 0 <= j < 8 implies #[trigger] counts@[j] == occurrences(
                s,
                element_of_rank(j),
                i as int,
            ) by {
                assert(s[i - 1] == t);
            }
        }
    }

    /// Picks `num` dice to pay a cost: when `must_same`, dice of one element
    /// or wildcards, the element being `ty`, or picked automatically when
    /// `ty` is `Null`; otherwise any dice. The pool is scanned from its last
    /// die down, so dice at the front are kept. Returns the indices, highest
    /// first, or `None` when there are fewer than `num` such dice.
    pub fn find_dice(&self, must_same: bool, ty: ElementType, num: usize) -> (r: Option<Vec<usize>>)
        requires
            self.wf(),
        ensures
            r.is_some() == find_result(self.valid_dice(), must_same, ty, num as int).is_some(),
            r.is_some() ==> r.unwrap()@ == find_result(
                self.valid_dice(),
                must_same,
                ty,
                num as int,
            ).unwrap(),
    {
        let ghost s = self.valid_dice();
        let mut selected = ty;
        if must_same && ty == ElementType::Null {
            match self.auto_select(num) {
                Some(e) => {
                    selected = e;
                },
                None => {
                    return None;
                },
            }
        }
        let mut result: Vec<usize> = Vec::new();
        if num == 0 {
            assert(matches_from_back(s, must_same, selected, 0, s.len() as int).take(0) =~= result@);
            return Some(result);
        }
        let mut i: usize = self.dice_count;
        while i > 0
            invariant
                self.wf(),
                s == self.valid_dice(),
                i <= self.dice_count,
                0 < num,
                selected_element(s, must_same, ty, num as int) == Some(selected),
                result@ == matches_from_back(s, must_same, selected, i as int, s.len() as int),
                result@.len() < num,
            decreases i,
        {
            i -= 1;
            let t = self.dices[i];
            if !must_same || t == selected || t == ElementType::Universal {
                result.push(i);
                assert(result@ =~= matches_from_back(s, must_same, selected, i as int, s.len() as int));
                if result.len() == num {
                    proof {
                        lemma_matches_prefix(s, must_same, selected, 0, i as int, s.len() as int);
                        assert(matches_from_back(s, must_same, selected, 0, s.len() as int).take(
                            num as int,
                        ) =~= result@);
                    }
                    return Some(result);
                }
            } else {
                assert(result@ =~= matches_from_back(s, must_same, selected, i as int, s.len() as int));
            }
        }
        None
    }

    /// Whether `indices` are distinct slots of dice in the pool.
    pub open spec fn valid_selection(&self, indices: Seq<usize>) -> bool {
        selects_distinct_dice(indices, self.dice_count as int)
    }

    /// Checks that `indices` are distinct slots of dice in the pool.
    pub fn check_selection(&self, indices: &Vec<usize>) -> (b: bool)
        ensures
            b == self.valid_selection(indices@),
    {
        let mut j: usize = 0;
        while j < indices.len()
            invariant
                j <= indices@.len(),
                forall|a: int| 0 <= a < j ==> #[trigger] indices@[a] < self.dice_count,
                forall|a: int, b: int|
                    0 <= a < b < indices@.len() && a < j ==> #[trigger] indices@[a]
                        != #[trigger] indices@[b],
            decreases indices@.len() - j,
        {
            if indices[j] >= self.dice_count {
                return false;
            }
            let mut k: usize = j + 1;
            while k < indices.len()
                invariant
                    j < k <= indices@.len(),
                    forall|b: int| j < b < k ==> indices@[j as int] != #[trigger] indices@[b],
                decreases indices@.len() - k,
            {
                if indices[j] == indices[k] {
                    return false;
                }
                k += 1;
            }
            j += 1;
        }
        true
    }

    /// Whether every die at slots `indices` is of `element` or a wildcard.
    pub fn dice_match(&self, indices: &Vec<usize>, element: ElementType) -> (b: bool)
        requires
            self.wf(),
            self.valid_selection(indices@),
        ensures
            b == forall|j: int|
                0 <= j < indices@.len() ==> qualifies(
                    #[trigger] self.dices@[indices@[j] as int],
                    true,
                    element,
                ),
    {
        let mut j: usize = 0;
        while j < indices.len()
            invariant
                self.wf(),
                self.valid_selection(indices@),
                j <= indices@.len(),
                forall|k: int|
                    0 <= k < j ==> qualifies(#[trigger] self.dices@[indices@[k] as int], true, element),
            decreases indices@.len() - j,
        {
            let d = self.dices[indices[j]];
            if !(d == element || d == ElementType::Universal) {
                assert(!qualifies(self.dices@[indices@[j as int] as int], true, element));
                return false;
            }
            j += 1;
        }
        true
    }

    /// Redraws the dice at slots `indices`, in order, as the dice that
    /// `codes` stand for; the number of dice does not change.
    pub fn redraw(&mut self, indices: &Vec<usize>, codes: &Vec<u8>)
        requires
            old(self).wf(),
            old(self).valid_selection(indices@),
            codes@.len() >= indices@.len(),
            valid_codes(codes@),
        ensures
            final(self).wf(),
            final(self).dice_count == old(self).dice_count,
            final(self).dices@ == rerolled(old(self).dices@, indices@, codes@, indices@.len() as int),
    {
        let mut k: usize = 0;
        while k < indices.len()
            invariant
                self.wf(),
                self.dice_count == old(self).dice_count,
                old(self).valid_selection(indices@),
                k <= indices@.len(),
                codes@.len() >= indices@.len(),
                valid_codes(codes@),
                self.dices@ == rerolled(old(self).dices@, indices@, codes@, k as int),
            decreases indices@.len() - k,
        {
            assert(indices@[k as int] < self.dice_count);
            assert(codes@[k as int] < ROLLABLE_KINDS);
            self.set_die(indices[k], codes[k]);
            k += 1;
        }
    }

    /// Spends the dice in the slots `indices`: they leave the pool, the
    /// remaining dice are put back in order under `character_types`, and the
    /// number of dice drops by the number spent.
    pub fn spend_dice(&mut self, indices: &Vec<usize>, character_types: Vec<ElementType>)
        requires
            old(self).wf(),
            old(self).valid_selection(indices@),
        ensures
            final(self).wf(),
            final(self).dice_count == old(self).dice_count - indices@.len(),
            final(self).valid_dice().to_multiset().add(
                spent_dice(old(self).valid_dice(), indices@).to_multiset(),
            ) == old(self).valid_dice().to_multiset(),
            sorted_by_priority(final(self).valid_dice(), character_types@),
    {
        broadcast use vstd::multiset::group_multiset_axioms;

        let ghost s = self.valid_dice();
        let mut positions: Vec<usize> = Vec::new();
        let mut dice: Vec<ElementType> = Vec::new();
        let mut i: usize = 0;
        while i < self.dice_count
            invariant
                self.wf(),
                s == self.valid_dice(),
                i <= self.dice_count,
                positions@.len() == i,
                dice@ == s.subrange(0, i as int),
                forall|q: int| 0 <= q < i ==> #[trigger] positions@[q] == q,
            decreases self.dice_count - i,
        {
            positions.push(i);
            dice.push(self.dices[i]);
            i += 1;
            assert(dice@ =~= s.subrange(0, i as int));
        }
        assert(dice@ =~= s);
        assert(spent_dice(s, indices@.subrange(0, 0)) =~= Seq::<ElementType>::empty());
        proof {
            let none = spent_dice(s, indices@.subrange(0, 0));
            vstd::seq_lib::to_multiset_len(none);
            vstd::multiset::lemma_multiset_empty_len(none.to_multiset());
        }
        assert forall|q: usize|
            q < s.len() && !indices@.subrange(0, 0).contains(q) implies #[trigger] positions@.contains(
            q,
        ) by {
            assert(positions@[q as int] == q);
        }
        assert(dice@.to_multiset().add(Multiset::empty()) =~= s.to_multiset());
        let mut k: usize = 0;
        while k < indices.len()
            invariant
                self.wf(),
                s == self.valid_dice(),
                self.valid_selection(indices@),
                k <= indices@.len(),
                positions@.len() == dice@.len(),
                dice@.len() == s.len() - k,
                forall|q: int|
                    0 <= q < positions@.len() ==> #[trigger] positions@[q] < s.len() && dice@[q]
                        == s[positions@[q] as int],
                forall|q: usize|
                    q < s.len() && !indices@.subrange(0, k as int).contains(q)
                        ==> #[trigger] positions@.contains(q),
                dice@.to_multiset().add(
                    spent_dice(s, indices@.subrange(0, k as int)).to_multiset(),
                ) == s.to_multiset(),
            decreases indices@.len() - k,
        {
            let target = indices[k];
            proof {
                assert(!indices@.subrange(0, k as int).contains(target)) by {
                    if indices@.subrange(0, k as int).contains(target) {
                        let a = choose|a: int|
                            0 <= a < k && #[trigger] indices@.subrange(0, k as int)[a] == target;
                        assert(indices@[a] == indices@[k as int]);
                    }
                }
                assert(positions@.contains(target));
            }
            let mut j: usize = 0;
            while j < positions.len() && positions[j] != target
                invariant
                    j <= positions@.len(),
                    positions@.contains(target),
                    forall|q: int| 0 <= q < j ==> #[trigger] positions@[q] != target,
                decreases positions@.len() - j,
            {
                j += 1;
            }
            assert(j < positions@.len());
            let ghost before_pos = positions@;
            let ghost before_dice = dice@;
            positions.remove(j);
            let x = dice.remove(j);
            proof {
                assert(x == s[target as int]);
                vstd::seq_lib::to_multiset_remove(before_dice, j as int);
                let done = indices@.subrange(0, k as int);
                let done_next = indices@.subrange(0, k + 1);
                assert(done_next =~= done.push(target));
                assert(spent_dice(s, done_next) =~= spent_dice(s, done).push(x));
                vstd::seq_lib::to_multiset_build(spent_dice(s, done), x);
                vstd::seq_lib::to_multiset_contains(before_dice, x);
                assert(dice@.to_multiset().add(spent_dice(s, done_next).to_multiset())
                    =~= before_dice.to_multiset().add(spent_dice(s, done).to_multiset()));
                assert forall|q: usize|
                    q < s.len() && !done_next.contains(q) implies #[trigger] positions@.contains(
                    q,
                ) by {
                    assert(!done.contains(q)) by {
                        if done.contains(q) {
                            let a = choose|a: int| 0 <= a < done.len() && #[trigger] done[a] == q;
                            assert(done_next[a] == q);
                        }
                    }
                    assert(before_pos.contains(q));
                    let a = choose|a: int| 0 <= a < before_pos.len() && #[trigger] before_pos[a] == q;
                    assert(q != target) by {
                        assert(done_next[k as int] == target);
                    }
                    if a < j {
                        assert(positions@[a] == q);
                    } else {
                        assert(a > j);
                        assert(positions@[a - 1] == q);
                    }
                }
            }
            k += 1;
        }
        assert(indices@.subrange(0, k as int) =~= indices@);
        let sorted = arrange(&dice, &character_types);
        proof {
            assert forall|j: int| 0 <= j < sorted@.len() implies #[trigger] sorted@[j]
                != ElementType::Null by {
                vstd::seq_lib::to_multiset_contains(sorted@, sorted@[j]);
                vstd::seq_lib::to_multiset_contains(dice@, sorted@[j]);
                let q = choose|q: int| 0 <= q < dice@.len() && dice@[q] == sorted@[j];
                assert(positions@[q] < s.len());
            }
            vstd::seq_lib::to_multiset_len(sorted@);
            vstd::seq_lib::to_multiset_len(dice@);
        }
        self.fill_from(&sorted);
    }

    /// Puts the dice in the pool's order: wildcards first, then dice of the
    /// elements in `character_types`, then the others, each group by
    /// ascending rank. The empty slots stay empty.
    pub fn sort_dice(&mut self, character_types: Vec<ElementType>)
        requires
            old(self).wf(),
        ensures
            final(self).wf(),
            final(self).dice_count == old(self).dice_count,
            is_arrangement(final(self).valid_dice(), old(self).valid_dice(), character_types@),
    {
        let mut dice: Vec<ElementType> = Vec::new();
        let mut i: usize = 0;
        while i < self.dice_count
            invariant
                self.wf(),
                i <= self.dice_count,
                dice@ == self.valid_dice().subrange(0, i as int),
            decreases self.dice_count - i,
        {
            dice.push(self.dices[i]);
            i += 1;
            assert(dice@ =~= self.valid_dice().subrange(0, i as int));
        }
        assert(dice@ =~= self.valid_dice());
        let sorted = arrange(&dice, &character_types);
        proof {
            assert forall|j: int| 0 <= j < sorted@.len() implies #[trigger] sorted@[j]
                != ElementType::Null by {
                to_multiset_contains(sorted@, sorted@[j]);
                to_multiset_contains(dice@, sorted@[j]);
            }
            to_multiset_len(sorted@);
            to_multiset_len(dice@);
        }
        self.fill_from(&sorted);
    }
}

impl Default for DiceSet {
    /// An empty pool.
    fn default() -> (r: DiceSet)
        ensures
            r.wf(),
            r.dice_count == 0,
    {
        let mut d = DiceSet { dices: Vec::new(), dice_count: 0 };
        let none: Vec<ElementType> = Vec::new();
        d.fill_from(&none);
        d
    }
}

} // verus!
