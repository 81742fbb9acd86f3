//! Choosing the dominant trait and the heaviest echoes.
//!
//! Both choices are made on the bit patterns of the doubles. The dominant
//! trait is found as a running maximum that moves on to each next value
//! unless the one held is strictly greater, which for numbers is the last
//! of the largest values. The echoes are the first three items of a stable
//! sort from heaviest to lightest, made on order keys, so that among equal
//! weights the earlier reading comes first.

use vstd::prelude::*;
use crate::keys::{
    all_numbers, greater_value, is_number, key_of, keys_of, lemma_keys_order_values, order_keys,
    value_eq, value_gt, value_lt,
};

verus! {

/// `i` holds the largest key, and no later slot holds as large a key.
pub open spec fn is_last_max(keys: Seq<u64>, i: int) -> bool {
    &&& 0 <= i < keys.len()
    &&& forall|j: int| 0 <= j < keys.len() ==> keys[j] <= keys[i]
    &&& forall|j: int| i < j < keys.len() ==> keys[j] < keys[i]
}

/// The slot the running maximum holds after the first `n` values: it
/// starts at the first and moves on to each next value unless the value
/// held is strictly greater.
pub open spec fn running_max(bits: Seq<u64>, n: int) -> int
    decreases n,
{
    if n <= 1 {
        0
    } else {
        let held = running_max(bits, n - 1);
        if value_gt(bits[held], bits[n - 1]) {
            held
        } else {
            n - 1
        }
    }
}

/// The dominant slot of a personality given by bit patterns: the running
/// maximum over all values, or 0 when there are none.
pub open spec fn dominant_slot(bits: Seq<u64>) -> int {
    if bits.len() == 0 {
        0
    } else {
        running_max(bits, bits.len() as int)
    }
}

/// Item `i` comes before item `j` when sorting from heaviest to lightest,
/// keeping the original order among equal keys.
pub open spec fn heavier(keys: Seq<u64>, i: int, j: int) -> bool {
    keys[i] > keys[j] || (keys[i] == keys[j] && i < j)
}

/// How many echoes are taken: three, or all of them when there are fewer.
pub open spec fn echo_count(n: nat) -> nat {
    if n < 3 {
        n
    } else {
        3
    }
}

/// `r` lists, in the stable heaviest-first order, the heaviest items: valid
/// slots, strictly in that order, each ahead of every slot left out, and no
/// more than `echo_count` of them.
pub open spec fn is_top_prefix(keys: Seq<u64>, r: Seq<usize>) -> bool {
    &&& r.len() <= echo_count(keys.len())
    &&& forall|i: int| 0 <= i < r.len() ==> r[i] < keys.len()
    &&& forall|i: int, j: int|
        0 <= i < j < r.len() ==> heavier(keys, r[i] as int, r[j] as int)
    &&& forall|i: int, m: int|
        0 <= i < r.len() && 0 <= m < keys.len() && !r.contains(m as usize) ==> heavier(
            keys,
            r[i] as int,
            m,
        )
}

/// `r` lists the first `echo_count` items of the stable heaviest-first
/// order.
pub open spec fn is_top_echoes(keys: Seq<u64>, r: Seq<usize>) -> bool {
    &&& is_top_prefix(keys, r)
    &&& r.len() == echo_count(keys.len())
}

/// `f` is the first slot holding the largest key.
pub open spec fn is_first_max(keys: Seq<u64>, f: int) -> bool {
    &&& 0 <= f < keys.len()
    &&& forall|j: int| 0 <= j < keys.len() ==> keys[j] <= keys[f]
    &&& forall|j: int| 0 <= j < f ==> keys[j] < keys[f]
}

/// The slots of the heaviest echoes, heaviest first.
pub open spec fn top_echoes(keys: Seq<u64>) -> Seq<usize> {
    choose|r: Seq<usize>| is_top_echoes(keys, r)
}

/// The heaviest-first order is a strict total order on the slots.
pub proof fn lemma_heavier_strict_total(keys: Seq<u64>, i: int, j: int, m: int)
    ensures
        !heavier(keys, i, i),
        heavier(keys, i, j) ==> !heavier(keys, j, i),
        i != j ==> heavier(keys, i, j) || heavier(keys, j, i),
        heavier(keys, i, j) && heavier(keys, j, m) ==> heavier(keys, i, m),
{
}

/// On weights that are numbers, the heaviest-first order is the order of
/// the values: the greater weight first, and the earlier of equal weights.
pub proof fn lemma_heavier_by_value(bits: Seq<u64>, i: int, j: int)
    requires
        0 <= i < bits.len(),
        0 <= j < bits.len(),
        is_number(bits[i]),
        is_number(bits[j]),
    ensures
        heavier(keys_of(bits), i, j) <==> (value_lt(bits[j], bits[i]) || (value_eq(bits[i], bits[j])
            && i < j)),
{
    lemma_keys_order_values(bits[i], bits[j]);
    lemma_keys_order_values(bits[j], bits[i]);
    assert(keys_of(bits)[i] == key_of(bits[i]));
    assert(keys_of(bits)[j] == key_of(bits[j]));
}

/// There is at most one list of top echoes.
pub proof fn lemma_top_echoes_unique(keys: Seq<u64>, r1: Seq<usize>, r2: Seq<usize>)
    requires
        is_top_echoes(keys, r1),
        is_top_echoes(keys, r2),
    ensures
        r1 == r2,
{
    assert forall|i: int| 0 <= i < r1.len() implies r1[i] == r2[i] by {
        lemma_top_echoes_agree_upto(keys, r1, r2, i);
    }
    assert(r1 =~= r2);
}

proof fn lemma_top_echoes_agree_upto(keys: Seq<u64>, r1: Seq<usize>, r2: Seq<usize>, i: int)
    requires
        is_top_echoes(keys, r1),
        is_top_echoes(keys, r2),
        0 <= i < r1.len(),
    ensures
        forall|p: int| 0 <= p <= i ==> r1[p] == r2[p],
    decreases i,
{
    if i > 0 {
        lemma_top_echoes_agree_upto(keys, r1, r2, i - 1);
    }
    let a = r1[i] as int;
    let b = r2[i] as int;
    if a != b {
        // Item b is, in r1, either left out or listed after position i.
        if r1.contains(b as usize) {
            let p = choose|p: int| 0 <= p < r1.len() && r1[p] == b as usize;
            if p < i {
                assert(r2[p] == r1[p]);
                assert(heavier(keys, r2[p] as int, r2[i] as int));
            } else if p == i {
            } else {
                assert(heavier(keys, r1[i] as int, r1[p] as int));
            }
        }
        assert(heavier(keys, a, b));
        if r2.contains(a as usize) {
            let q = choose|q: int| 0 <= q < r2.len() && r2[q] == a as usize;
            if q < i {
                assert(r1[q] == r2[q]);
                assert(heavier(keys, r1[q] as int, r1[i] as int));
            } else if q == i {
            } else {
                assert(heavier(keys, r2[i] as int, r2[q] as int));
            }
        }
        assert(heavier(keys, b, a));
        lemma_heavier_strict_total(keys, a, b, a);
    }
}

/// Appending the heaviest slot not yet listed keeps a top prefix.
proof fn lemma_extend_top(keys: Seq<u64>, r: Seq<usize>, b: usize)
    requires
        is_top_prefix(keys, r),
        r.len() < echo_count(keys.len()),
        b < keys.len(),
        !r.contains(b),
        forall|m: int|
            0 <= m < keys.len() && !#[trigger] r.contains(m as usize) ==> m == b || heavier(
                keys,
                b as int,
                m,
            ),
    ensures
        is_top_prefix(keys, r.push(b)),
{
    let s = r.push(b);
    assert forall|i: int, m: int|
        0 <= i < s.len() && 0 <= m < keys.len() && !s.contains(m as usize) implies heavier(
        keys,
        s[i] as int,
        m,
    ) by {
        assert(s[s.len() - 1] == b);
        if !r.contains(m as usize) {
            if i < r.len() {
                assert(s[i] == r[i]);
            } else {
                assert(m != b);
            }
        } else {
            let p = choose|p: int| 0 <= p < r.len() && r[p] == m as usize;
            assert(s[p] == r[p]);
        }
    }
    assert forall|i: int, j: int| 0 <= i < j < s.len() implies heavier(
        keys,
        s[i] as int,
        s[j] as int,
    ) by {
        if j == s.len() - 1 {
            assert(s[i] == r[i]);
        } else {
            assert(s[i] == r[i]);
            assert(s[j] == r[j]);
        }
    }
}

/// The heaviest slot below `j` that `r` leaves out, or -1 when there is none.
spec fn best_outside(keys: Seq<u64>, r: Seq<usize>, j: int) -> int
    decreases j,
{
    if j <= 0 {
        -1
    } else {
        let b = best_outside(keys, r, j - 1);
        if r.contains((j - 1) as usize) {
            b
        } else if b == -1 || keys[j - 1] > keys[b] {
            j - 1
        } else {
            b
        }
    }
}

proof fn lemma_best_outside(keys: Seq<u64>, r: Seq<usize>, j: int)
    requires
        0 <= j <= keys.len(),
    ensures
        best_outside(keys, r, j) == -1 || (0 <= best_outside(keys, r, j) < j && !r.contains(
            best_outside(keys, r, j) as usize,
        )),
        forall|m: int|
            0 <= m < j && !#[trigger] r.contains(m as usize) ==> best_outside(keys, r, j) != -1
                && (m == best_outside(keys, r, j) || heavier(keys, best_outside(keys, r, j), m)),
    decreases j,
{
    if j > 0 {
        lemma_best_outside(keys, r, j - 1);
    }
}

/// A top prefix of every length up to `echo_count` exists.
proof fn lemma_top_prefix_exists(keys: Seq<u64>, k: nat) -> (r: Seq<usize>)
    requires
        keys.len() <= usize::MAX,
        k <= echo_count(keys.len()),
    ensures
        is_top_prefix(keys, r),
        r.len() == k,
    decreases k,
{
    if k == 0 {
        Seq::empty()
    } else {
        let r0 = lemma_top_prefix_exists(keys, (k - 1) as nat);
        let missing = lemma_missing_slot(r0, keys.len());
        lemma_best_outside(keys, r0, keys.len() as int);
        let b = best_outside(keys, r0, keys.len() as int);
        assert(!r0.contains((missing as int) as usize));
        assert(b != -1);
        let bu = b as usize;
        assert(bu as int == b);
        assert forall|m: int|
            0 <= m < keys.len() && !#[trigger] r0.contains(m as usize) implies m == bu
            || heavier(keys, bu as int, m) by {}
        lemma_extend_top(keys, r0, bu);
        r0.push(bu)
    }
}

/// The top echoes always exist, so `top_echoes` lists them.
pub proof fn lemma_top_echoes_exist(keys: Seq<u64>)
    requires
        keys.len() <= usize::MAX,
    ensures
        is_top_echoes(keys, top_echoes(keys)),
{
    let r = lemma_top_prefix_exists(keys, echo_count(keys.len()));
    assert(is_top_echoes(keys, r));
}

/// The heaviest reading (the first of the largest keys) leads the echoes.
pub proof fn lemma_heaviest_leads(keys: Seq<u64>, f: int)
    requires
        keys.len() <= usize::MAX,
        is_first_max(keys, f),
    ensures
        top_echoes(keys).len() > 0,
        top_echoes(keys)[0] == f,
{
    lemma_top_echoes_exist(keys);
    let r = top_echoes(keys);
    let a = r[0] as int;
    if a != f {
        if r.contains(f as usize) {
            let p = choose|p: int| 0 <= p < r.len() && r[p] == f as usize;
            assert(p != 0);
            assert(heavier(keys, r[0] as int, r[p] as int));
            assert(heavier(keys, a, f));
        } else {
            assert(heavier(keys, a, f));
        }
        if a < f {
            assert(keys[a] < keys[f]);
        }
    }
}

/// Every echo weighs at least as much as every reading left out.
pub proof fn lemma_echoes_outweigh_rest(keys: Seq<u64>, i: int, m: int)
    requires
        keys.len() <= usize::MAX,
        0 <= i < top_echoes(keys).len(),
        0 <= m < keys.len(),
        !top_echoes(keys).contains(m as usize),
    ensures
        keys[top_echoes(keys)[i] as int] >= keys[m],
{
    lemma_top_echoes_exist(keys);
    assert(heavier(keys, top_echoes(keys)[i] as int, m));
}

/// A venue with readings has echoes; one without has none.
pub proof fn lemma_echoes_iff_readings(keys: Seq<u64>)
    requires
        keys.len() <= usize::MAX,
    ensures
        top_echoes(keys).len() == echo_count(keys.len()),
        top_echoes(keys).len() > 0 <==> keys.len() > 0,
        top_echoes(keys).len() <= 3,
        keys.len() >= 3 ==> top_echoes(keys).len() == 3,
        keys.len() < 3 ==> top_echoes(keys).len() == keys.len(),
{
    lemma_top_echoes_exist(keys);
}

proof fn lemma_running_max_is_last_max(bits: Seq<u64>, n: int)
    requires
        all_numbers(bits),
        1 <= n <= bits.len(),
    ensures
        0 <= running_max(bits, n) < n,
        forall|j: int| 0 <= j < n ==> #[trigger] keys_of(bits)[j] <= keys_of(bits)[running_max(bits, n)],
        forall|j: int|
            running_max(bits, n) < j < n ==> #[trigger] keys_of(bits)[j] < keys_of(bits)[running_max(
                bits,
                n,
            )],
    decreases n,
{
    let k = keys_of(bits);
    if n > 1 {
        lemma_running_max_is_last_max(bits, n - 1);
        let held = running_max(bits, n - 1);
        lemma_keys_order_values(bits[n - 1], bits[held]);
        lemma_keys_order_values(bits[held], bits[n - 1]);
        assert(is_number(bits[held]) && is_number(bits[n - 1]));
        assert(k[held] == key_of(bits[held]));
        assert(k[n - 1] == key_of(bits[n - 1]));
    }
}

/// When every value is a number, the dominant slot holds the largest value
/// and no later slot holds as large a one.
pub proof fn lemma_dominant_is_last_max(bits: Seq<u64>)
    requires
        all_numbers(bits),
        bits.len() > 0,
    ensures
        is_last_max(keys_of(bits), dominant_slot(bits)),
{
    lemma_running_max_is_last_max(bits, bits.len() as int);
}

/// The dominant trait slot of a personality given by the bit patterns of
/// its values: the running maximum (the last of the largest values when all
/// are numbers), or 0 for an empty personality.
pub fn dominant_index(bits: &Vec<u64>) -> (r: usize)
    ensures
        r == dominant_slot(bits@),
        bits@.len() > 0 ==> r < bits@.len(),
{
    let n = bits.len();
    if n == 0 {
        return 0;
    }
    let mut best: usize = 0;
    let mut j: usize = 1;
    while j < n
        invariant
            n == bits@.len(),
            1 <= j <= n,
            best < j,
            best == running_max(bits@, j as int),
        decreases n - j,
    {
        if !greater_value(bits[best], bits[j]) {
            best = j;
        }
        j = j + 1;
    }
    best
}

/// Whether `x` is among the slots already chosen.
fn chosen(r: &Vec<usize>, x: usize) -> (b: bool)
    ensures
        b == r@.contains(x),
{
    let mut i: usize = 0;
    while i < r.len()
        invariant
            i <= r@.len(),
            forall|p: int| 0 <= p < i ==> r@[p] != x,
        decreases r@.len() - i,
    {
        if r[i] == x {
            return true;
        }
        i = i + 1;
    }
    false
}

/// A slot below `n` that a list shorter than three and shorter than `n`
/// leaves out.
proof fn lemma_missing_slot(r: Seq<usize>, n: nat) -> (m: usize)
    requires
        r.len() < 3,
        r.len() < n,
    ensures
        m < n,
        !r.contains(m),
{
    let m: usize = if !r.contains(0) {
        0
    } else if !r.contains(1) {
        1
    } else {
        2
    };
    if r.contains(0) && r.contains(1) {
        let p0 = choose|p: int| 0 <= p < r.len() && r[p] == 0usize;
        let p1 = choose|p: int| 0 <= p < r.len() && r[p] == 1usize;
        assert(p0 != p1);
        assert(r.len() == 2);
        if r.contains(2) {
            let p2 = choose|p: int| 0 <= p < r.len() && r[p] == 2usize;
            assert(false);
        }
    }
    m
}

fn top_by_keys(keys: &Vec<u64>) -> (r: Vec<usize>)
    ensures
        is_top_echoes(keys@, r@),
        r@ == top_echoes(keys@),
{
    let n = keys.len();
    let k: usize = if n < 3 {
        n
    } else {
        3
    };
    let mut r: Vec<usize> = Vec::new();
    while r.len() < k
        invariant
            n == keys@.len(),
            k == echo_count(n as nat),
            is_top_prefix(keys@, r@),
        decreases k - r@.len(),
    {
        let ghost missing = lemma_missing_slot(r@, n as nat);
        let mut best: Option<usize> = None;
        let mut j: usize = 0;
        while j < n
            invariant
                n == keys@.len(),
                j <= n,
                best matches Some(b) ==> b < j && !r@.contains(b),
                forall|m: int|
                    0 <= m < j && !#[trigger] r@.contains(m as usize) ==> (best matches Some(b) && (m == b
                        || heavier(keys@, b as int, m))),
            decreases n - j,
        {
            if !chosen(&r, j) {
                match best {
                    None => {
                        best = Some(j);
                    },
                    Some(b) => {
                        if keys[j] > keys[b] {
                            best = Some(j);
                        }
                    },
                }
            }
            j = j + 1;
        }
        assert(!r@.contains((missing as int) as usize));
        let b = match best {
            Some(b) => b,
            None => {
                assert(false);
                0
            },
        };
        proof {
            lemma_extend_top(keys@, r@, b);
        }
        r.push(b);
    }
    proof {
        assert(is_top_echoes(keys@, r@));
        let c = choose|s: Seq<usize>| is_top_echoes(keys@, s);
        lemma_top_echoes_unique(keys@, c, r@);
    }
    r
}

/// The slots of the three heaviest readings (all of them when there are
/// fewer), given the bit patterns of their weights: heaviest first, earlier
/// first among equal weights.
pub fn top_echo_indices(weight_bits: &Vec<u64>) -> (r: Vec<usize>)
    ensures
        is_top_echoes(keys_of(weight_bits@), r@),
        r@ == top_echoes(keys_of(weight_bits@)),
{
    let keys = order_keys(weight_bits);
    top_by_keys(&keys)
}

} // verus!
