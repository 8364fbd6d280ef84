//! Drawing the indices of an audit round: reproducible numbers from a source
//! of randomness, reduced to distinct indices into a pool.
//!
//! The subject of every draw is made of the tag of the ledger and a counter
//! that starts at the tick of the round. Whoever knows both can ask the source
//! the same questions, so a round is the same wherever it is computed, and it
//! is no secret: a miner can work out ahead of a tick what it will be
//! challenged on as soon as the source answers for that tick.

use vstd::prelude::*;
use vstd::bytes::{spec_u32_from_le_bytes, spec_u32_to_le_bytes};
use crate::codec::{decode_u32, encode_subject};
use crate::types::{BlockNumber, Error};

verus! {

/// The filler rate of an audit, in thousandths.
pub const FILLER_RATE: u32 = 46;

/// The file rate of an audit, in thousandths: three times the filler rate.
pub const FILE_RATE: u32 = 138;

/// `f` answers equal subjects with equal bytes.
pub open spec fn deterministic<F: Fn(Vec<u8>) -> Vec<u8>>(f: F) -> bool {
    forall|s1: Vec<u8>, s2: Vec<u8>, o1: Vec<u8>, o2: Vec<u8>|
        s1@ == s2@ && call_ensures(f, (s1,), o1) && call_ensures(f, (s2,), o2) ==> o1@ == o2@
}

/// `f` accepts every subject.
pub open spec fn total<F: Fn(Vec<u8>) -> Vec<u8>>(f: F) -> bool {
    forall|s: Vec<u8>| call_requires(f, (s,))
}

/// `out` is among what `f` may answer to `subject`.
pub open spec fn produces<F: Fn(Vec<u8>) -> Vec<u8>>(f: F, subject: Seq<u8>, out: Seq<u8>) -> bool {
    exists|s: Vec<u8>, o: Vec<u8>| s@ == subject && o@ == out && #[trigger] call_ensures(f, (s,), o)
}

/// The bytes that a deterministic `f` answers to `subject`.
pub open spec fn answer<F: Fn(Vec<u8>) -> Vec<u8>>(f: F, subject: Seq<u8>) -> Seq<u8> {
    choose|out: Seq<u8>| produces(f, subject, out)
}

/// The subject of the draw with the counter `n`: the tag, then the four bytes
/// of the counter, least significant first.
pub open spec fn subject_of(tag: Seq<u8>, n: u32) -> Seq<u8> {
    tag + spec_u32_to_le_bytes(n)
}

/// The number that drawn bytes stand for: their first four bytes, least
/// significant first, and 0 where there are fewer than four.
pub open spec fn number_of(drawn: Seq<u8>) -> u32 {
    if drawn.len() >= 4 {
        spec_u32_from_le_bytes(drawn.subrange(0, 4))
    } else {
        0
    }
}

/// The numbers that `f` yields under `tag`, by counter.
pub open spec fn draws<F: Fn(Vec<u8>) -> Vec<u8>>(f: F, tag: Seq<u8>) -> spec_fn(u32) -> u32 {
    |n: u32| number_of(answer(f, subject_of(tag, n)))
}

/// The first number other than 0 among the draws with the counters `s`,
/// `s + 1` and so on, or `None` where the counters run out first.
pub open spec fn first_nonzero(w: spec_fn(u32) -> u32, s: int) -> Option<u32>
    decreases u32::MAX + 1 - s,
{
    if s < 0 || s > u32::MAX {
        None
    } else if w(s as u32) != 0 {
        Some(w(s as u32))
    } else {
        first_nonzero(w, s + 1)
    }
}

/// Each item is smaller than the next.
pub open spec fn strictly_increasing(s: Seq<u32>) -> bool {
    forall|i: int, j: int| 0 <= i < j < s.len() ==> s[i] < s[j]
}

/// The increasing sequence `s` with `x` put in its place, unless it is there.
pub open spec fn insert_sorted(s: Seq<u32>, x: u32) -> Seq<u32>
    decreases s.len(),
{
    if s.len() == 0 {
        seq![x]
    } else if s.last() < x {
        s.push(x)
    } else if s.last() == x {
        s
    } else {
        insert_sorted(s.drop_last(), x).push(s.last())
    }
}

/// The indices that a round settles on. Starting after the counter `seed`
/// with the indices `picked` in hand: each turn the counter goes up by one;
/// the round ends when `num` indices are in hand; else the next number is
/// drawn, reduced modulo `length` and put among the indices. A counter that
/// runs out ends the round with `Overflow`.
pub open spec fn sample_from(
    w: spec_fn(u32) -> u32,
    length: u32,
    num: u32,
    seed: int,
    picked: Seq<u32>,
) -> Result<Seq<u32>, Error>
    decreases u32::MAX - seed,
{
    if seed < 0 || seed >= u32::MAX {
        Err(Error::Overflow)
    } else if picked.len() >= num {
        Ok(picked)
    } else {
        match first_nonzero(w, seed + 1) {
            None => Err(Error::Overflow),
            Some(v) => sample_from(
                w,
                length,
                num,
                seed + 1,
                insert_sorted(picked, (v % length) as u32),
            ),
        }
    }
}

/// The index that the `i`-th turn after the counter `seed` draws, if the
/// counter lasts until then.
pub open spec fn candidate(w: spec_fn(u32) -> u32, length: u32, seed: int, i: int) -> Option<u32> {
    match first_nonzero(w, seed + i) {
        Some(v) => Some((v % length) as u32),
        None => None,
    }
}

/// `list` holds what `picked` holds and what the first `t` turns after the
/// counter `seed` draw, and nothing else.
pub open spec fn holds_draws(
    w: spec_fn(u32) -> u32,
    length: u32,
    seed: int,
    t: int,
    picked: Seq<u32>,
    list: Seq<u32>,
) -> bool {
    forall|x: u32|
        list.contains(x) <==> picked.contains(x) || exists|i: int|
            1 <= i <= t && #[trigger] candidate(w, length, seed, i) == Some(x)
}

/// What a round settles on is what it had in hand and what its turns drew:
/// there is a number of turns, returned here, such that the indices of the
/// round are, in increasing order, those in hand at the start and those drawn
/// in these turns.
pub proof fn lemma_round_holds_its_draws(
    w: spec_fn(u32) -> u32,
    length: u32,
    num: u32,
    seed: int,
    picked: Seq<u32>,
    list: Seq<u32>,
) -> (t: int)
    requires
        length > 0,
        strictly_increasing(picked),
        sample_from(w, length, num, seed, picked) == Ok::<Seq<u32>, Error>(list),
    ensures
        0 <= t,
        strictly_increasing(list),
        holds_draws(w, length, seed, t, picked, list),
    decreases u32::MAX - seed,
{
    if picked.len() >= num {
        0
    } else {
        let v = first_nonzero(w, seed + 1)->Some_0;
        let x = (v % length) as u32;
        let next = insert_sorted(picked, x);
        lemma_insert_sorted_holds(picked, x);
        let rest = lemma_round_holds_its_draws(w, length, num, seed + 1, next, list);
        let t = rest + 1;
        assert(candidate(w, length, seed, 1) == Some(x));
        assert forall|y: u32|
            list.contains(y) <==> picked.contains(y) || exists|i: int|
                1 <= i <= t && #[trigger] candidate(w, length, seed, i) == Some(y) by {
            if list.contains(y) && !picked.contains(y) && !next.contains(y) {
                let i = choose|i: int|
                    1 <= i <= rest && #[trigger] candidate(w, length, seed + 1, i) == Some(y);
                assert(candidate(w, length, seed, i + 1) == Some(y));
            }
            if exists|i: int| 1 <= i <= t && #[trigger] candidate(w, length, seed, i) == Some(y) {
                let i = choose|i: int|
                    1 <= i <= t && #[trigger] candidate(w, length, seed, i) == Some(y);
                if i != 1 {
                    assert(candidate(w, length, seed + 1, i - 1) == Some(y));
                }
            }
        }
        t
    }
}

/// Where `x` belongs in an increasing sequence, there `insert_sorted` puts it.
pub proof fn lemma_insert_sorted_at(s: Seq<u32>, x: u32, p: int)
    requires
        strictly_increasing(s),
        0 <= p <= s.len(),
        forall|j: int| 0 <= j < p ==> s[j] < x,
        forall|j: int| p <= j < s.len() ==> s[j] > x,
    ensures
        insert_sorted(s, x) == s.insert(p, x),
        strictly_increasing(s.insert(p, x)),
    decreases s.len(),
{
    if s.len() > 0 && s.last() > x {
        lemma_insert_sorted_at(s.drop_last(), x, p);
    }
}

/// An index that is in hand already changes nothing.
pub proof fn lemma_insert_sorted_present(s: Seq<u32>, x: u32, p: int)
    requires
        strictly_increasing(s),
        0 <= p < s.len(),
        s[p] == x,
    ensures
        insert_sorted(s, x) == s,
    decreases s.len(),
{
    if s.last() > x {
        lemma_insert_sorted_present(s.drop_last(), x, p);
    }
}

/// What `insert_sorted` returns is increasing again, and holds `x` and what
/// was there.
pub proof fn lemma_insert_sorted_holds(s: Seq<u32>, x: u32)
    requires
        strictly_increasing(s),
    ensures
        strictly_increasing(insert_sorted(s, x)),
        insert_sorted(s, x).contains(x),
        forall|y: u32| #[trigger] s.contains(y) ==> insert_sorted(s, x).contains(y),
        forall|y: u32| #[trigger] insert_sorted(s, x).contains(y) ==> y == x || s.contains(y),
    decreases s.len(),
{
    let r = insert_sorted(s, x);
    if s.len() == 0 {
        assert(r[0] == x);
    } else if s.last() < x {
        assert(r[s.len() as int] == x);
        assert forall|y: u32| (#[trigger] r.contains(y) ==> y == x || s.contains(y)) && (
        #[trigger] s.contains(y) ==> r.contains(y)) by {
            if s.contains(y) {
                let i = choose|i: int| 0 <= i < s.len() && s[i] == y;
                assert(r[i] == y);
            }
        }
    } else if s.last() > x {
        let t = s.drop_last();
        let u = insert_sorted(t, x);
        lemma_insert_sorted_holds(t, x);
        assert forall|i: int, j: int| 0 <= i < j < r.len() implies r[i] < r[j] by {
            if j == r.len() - 1 {
                assert(u.contains(u[i]));
            }
        }
        assert forall|y: u32| (#[trigger] r.contains(y) ==> y == x || s.contains(y)) && (
        #[trigger] s.contains(y) ==> r.contains(y)) by {
            if r.contains(y) {
                let i = choose|i: int| 0 <= i < r.len() && r[i] == y;
                if i < u.len() {
                    assert(u.contains(y));
                }
            }
            if s.contains(y) {
                let k = choose|k: int| 0 <= k < s.len() && s[k] == y;
                if k < t.len() {
                    assert(t[k] == y);
                    assert(t.contains(y));
                    let i = choose|i: int| 0 <= i < u.len() && u[i] == y;
                    assert(r[i] == y);
                } else {
                    assert(r[r.len() - 1] == y);
                }
            }
        }
    }
}

/// A round that asks for more indices than the pool has items ends with
/// `Overflow`: the indices in hand never reach the number asked for.
pub proof fn lemma_never_enough(
    w: spec_fn(u32) -> u32,
    length: u32,
    num: u32,
    seed: int,
    picked: Seq<u32>,
)
    requires
        0 < length < num,
        0 <= seed <= u32::MAX,
        strictly_increasing(picked),
        forall|i: int| 0 <= i < picked.len() ==> picked[i] < length,
    ensures
        sample_from(w, length, num, seed, picked) == Err::<Seq<u32>, Error>(Error::Overflow),
    decreases u32::MAX - seed,
{
    lemma_increasing_bounded(picked, length as int);
    if seed < u32::MAX {
        match first_nonzero(w, seed + 1) {
            None => {},
            Some(v) => {
                let x = (v % length) as u32;
                let next = insert_sorted(picked, x);
                lemma_insert_sorted_holds(picked, x);
                assert forall|i: int| 0 <= i < next.len() implies next[i] < length by {
                    assert(next.contains(next[i]));
                }
                lemma_never_enough(w, length, num, seed + 1, next);
            },
        }
    }
}

/// An increasing sequence of numbers under `bound` has at most `bound` items.
pub proof fn lemma_increasing_bounded(s: Seq<u32>, bound: int)
    requires
        0 <= bound,
        strictly_increasing(s),
        forall|i: int| 0 <= i < s.len() ==> s[i] < bound,
    ensures
        s.len() <= bound,
    decreases s.len(),
{
    if s.len() > 0 {
        let t = s.drop_last();
        assert(s[s.len() - 1] < bound);
        lemma_increasing_bounded(t, bound - 1);
    }
}

/// Puts `x` in its place among the increasing `picked`, unless it is there.
fn insert_index(picked: &mut Vec<u32>, x: u32)
    requires
        strictly_increasing(old(picked)@),
    ensures
        final(picked)@ == insert_sorted(old(picked)@, x),
        strictly_increasing(final(picked)@),
        final(picked)@.len() <= old(picked)@.len() + 1,
        forall|y: u32| final(picked)@.contains(y) <==> (y == x || old(picked)@.contains(y)),
{
    let mut p: usize = 0;
    while p < picked.len() && picked[p] < x
        invariant
            p <= picked@.len(),
            picked@ == old(picked)@,
            strictly_increasing(picked@),
            forall|j: int| 0 <= j < p ==> picked@[j] < x,
        decreases picked.len() - p,
    {
        p = p + 1;
    }
    let ghost before = picked@;
    if p < picked.len() && picked[p] == x {
        proof {
            lemma_insert_sorted_present(before, x, p as int);
        }
    } else {
        proof {
            lemma_insert_sorted_at(before, x, p as int);
        }
        picked.insert(p, x);
        proof {
            let after = picked@;
            assert(after[p as int] == x);
            assert forall|y: u32| after.contains(y) <==> (y == x || before.contains(y)) by {
                if before.contains(y) {
                    let i = choose|i: int| 0 <= i < before.len() && before[i] == y;
                    if i < p {
                        assert(after[i] == y);
                    } else {
                        assert(after[i + 1] == y);
                    }
                }
            }
        }
    }
}

/// The number that drawn bytes stand for: see [`number_of`].
pub fn random_number_of(drawn: &Vec<u8>) -> (n: u32)
    ensures
        n == number_of(drawn@),
{
    match decode_u32(drawn) {
        Some(n) => n,
        None => 0,
    }
}

/// Draws from `random` under the counters `seed`, `seed + 1` and so on until a
/// number other than 0 comes. Fails with `Overflow` where the counters run out
/// first.
pub fn generate_random_number<F: Fn(Vec<u8>) -> Vec<u8>>(
    tag: &[u8; 8],
    seed: u32,
    random: &F,
) -> (r: Result<u32, Error>)
    requires
        total(*random),
        deterministic(*random),
    ensures
        match r {
            Ok(v) => v != 0 && first_nonzero(draws(*random, tag@), seed as int) == Some(v),
            Err(e) => e == Error::Overflow && first_nonzero(draws(*random, tag@), seed as int)
                is None,
        },
{
    let ghost w = draws(*random, tag@);
    let mut counter: u32 = 0;
    loop
        invariant
            total(*random),
            deterministic(*random),
            w == draws(*random, tag@),
            first_nonzero(w, seed as int) == first_nonzero(w, seed + counter),
        decreases u32::MAX - counter,
    {
        let n = match seed.checked_add(counter) {
            Some(n) => n,
            None => {
                return Err(Error::Overflow);
            },
        };
        let subject = encode_subject(tag, n);
        let ghost asked = subject@;
        let drawn = random(subject);
        proof {
            assert(produces(*random, asked, drawn@));
        }
        let number = random_number_of(&drawn);
        if number != 0 {
            return Ok(number);
        }
        assert(first_nonzero(w, n as int) == first_nonzero(w, n + 1));
        counter = match counter.checked_add(1) {
            Some(c) => c,
            None => {
                return Err(Error::Overflow);
            },
        };
    }
}

/// Draws indices into a pool of `length` items until `num` different ones are
/// in hand, and returns them in increasing order. The counter of the draws
/// starts after `now`.
///
/// Fails with `Overflow` where the counter runs out first, which is sure to
/// happen where `num` is more than `length`.
pub fn sample_indices<F: Fn(Vec<u8>) -> Vec<u8>>(
    tag: &[u8; 8],
    length: u32,
    num: u32,
    now: BlockNumber,
    random: &F,
) -> (r: Result<Vec<u32>, Error>)
    requires
        length > 0,
        total(*random),
        deterministic(*random),
    ensures
        match r {
            Ok(list) => {
                &&& sample_from(draws(*random, tag@), length, num, now as int, Seq::empty())
                    == Ok::<Seq<u32>, Error>(list@)
                &&& strictly_increasing(list@)
                &&& list@.len() == num
                &&& forall|i: int| 0 <= i < list@.len() ==> list@[i] < length
            },
            Err(e) => sample_from(draws(*random, tag@), length, num, now as int, Seq::empty())
                == Err::<Seq<u32>, Error>(e),
        },
{
    let ghost w = draws(*random, tag@);
    if num > length {
        proof {
            lemma_never_enough(w, length, num, now as int, Seq::empty());
        }
        return Err(Error::Overflow);
    }
    let mut seed: u32 = now;
    let mut picked: Vec<u32> = Vec::new();
    loop
        invariant
            length > 0,
            total(*random),
            deterministic(*random),
            w == draws(*random, tag@),
            sample_from(w, length, num, now as int, Seq::empty()) == sample_from(
                w,
                length,
                num,
                seed as int,
                picked@,
            ),
            strictly_increasing(picked@),
            picked@.len() <= num,
            forall|i: int| 0 <= i < picked@.len() ==> picked@[i] < length,
        decreases u32::MAX - seed,
    {
        seed = match seed.checked_add(1) {
            Some(s) => s,
            None => {
                return Err(Error::Overflow);
            },
        };
        if picked.len() >= num as usize {
            return Ok(picked);
        }
        let v = match generate_random_number(tag, seed, random) {
            Ok(v) => v,
            Err(e) => {
                return Err(e);
            },
        };
        insert_index(&mut picked, v % length);
    }
}

/// The share of a pool that an audit draws, in thousandths: [`FILE_RATE`] for
/// the pool of files, which is `random_type` 2, and [`FILLER_RATE`] for any
/// other pool.
pub open spec fn rate_of(random_type: u8) -> u32 {
    if random_type == 2 {
        FILE_RATE
    } else {
        FILLER_RATE
    }
}

/// The number of indices that an audit draws from a pool of `length` items:
/// its share of the pool, rounded up.
pub open spec fn pool_count(length: u32, random_type: u8) -> int {
    (length * rate_of(random_type) + 999) / 1000
}

/// The number of shards that an audit draws from an object of `block_num`
/// shards: the filler share of them, rounded up, and one more.
pub open spec fn shard_count(block_num: u32) -> int {
    (block_num * FILLER_RATE + 999) / 1000 + 1
}

/// The indices that an audit at `now` draws from a pool of `length` items:
/// none from an empty pool, else [`pool_count`] different ones, in increasing
/// order.
pub open spec fn number_list_of(
    w: spec_fn(u32) -> u32,
    length: u32,
    random_type: u8,
    now: BlockNumber,
) -> Result<Seq<u32>, Error> {
    if length == 0 {
        Ok(Seq::empty())
    } else if length * rate_of(random_type) > u32::MAX {
        Err(Error::Overflow)
    } else {
        sample_from(w, length, pool_count(length, random_type) as u32, now as int, Seq::empty())
    }
}

/// The shards that an audit at `now` draws from an object of `block_num`
/// shards: none where there are none, else [`shard_count`] different ones, in
/// increasing order, each as a byte.
pub open spec fn shards_of(w: spec_fn(u32) -> u32, block_num: u32, now: BlockNumber) -> Result<
    Seq<u8>,
    Error,
> {
    if block_num == 0 {
        Ok(Seq::empty())
    } else if block_num * FILLER_RATE > u32::MAX {
        Err(Error::Overflow)
    } else {
        match sample_from(w, block_num, shard_count(block_num) as u32, now as int, Seq::empty()) {
            Ok(indices) => Ok(indices.map_values(|i: u32| (i % 256) as u8)),
            Err(e) => Err(e),
        }
    }
}

/// The rounded-up share `rate` of `length`, or `Overflow` where their product
/// does not fit.
fn share_of(length: u32, rate: u32) -> (r: Result<u32, Error>)
    requires
        rate <= 1000,
    ensures
        r == if length * rate > u32::MAX {
            Err::<u32, Error>(Error::Overflow)
        } else {
            Ok(((length * rate + 999) / 1000) as u32)
        },
{
    let product = match length.checked_mul(rate) {
        Some(p) => p,
        None => {
            return Err(Error::Overflow);
        },
    };
    if product % 1000 == 0 {
        Ok(product / 1000)
    } else {
        Ok(product / 1000 + 1)
    }
}

/// Draws the indices of an audit at `now` from a pool of `length` items:
/// see [`number_list_of`]. Fails with `Overflow` where the share of the pool
/// does not fit or the counter of the draws runs out.
pub fn get_random_numberlist<F: Fn(Vec<u8>) -> Vec<u8>>(
    tag: &[u8; 8],
    length: u32,
    random_type: u8,
    now: BlockNumber,
    random: &F,
) -> (r: Result<Vec<u32>, Error>)
    requires
        total(*random),
        deterministic(*random),
    ensures
        match r {
            Ok(list) => {
                &&& number_list_of(draws(*random, tag@), length, random_type, now) == Ok::<
                    Seq<u32>,
                    Error,
                >(list@)
                &&& strictly_increasing(list@)
                &&& list@.len() == pool_count(length, random_type)
                &&& forall|i: int| 0 <= i < list@.len() ==> list@[i] < length
            },
            Err(e) => number_list_of(draws(*random, tag@), length, random_type, now) == Err::<
                Seq<u32>,
                Error,
            >(e),
        },
{
    if length == 0 {
        return Ok(Vec::new());
    }
    let rate = if random_type == 2 {
        FILE_RATE
    } else {
        FILLER_RATE
    };
    let num = match share_of(length, rate) {
        Ok(n) => n,
        Err(e) => {
            return Err(e);
        },
    };
    sample_indices(tag, length, num, now, random)
}

/// Draws the shards of an audit at `now` from an object of `block_num`
/// shards: see [`shards_of`]. Fails with `Overflow` where the share of the
/// shards does not fit or the counter of the draws runs out.
pub fn get_random_shards<F: Fn(Vec<u8>) -> Vec<u8>>(
    tag: &[u8; 8],
    block_num: u32,
    now: BlockNumber,
    random: &F,
) -> (r: Result<Vec<u8>, Error>)
    requires
        total(*random),
        deterministic(*random),
    ensures
        match r {
            Ok(shards) => shards_of(draws(*random, tag@), block_num, now) == Ok::<Seq<u8>, Error>(
                shards@,
            ),
            Err(e) => shards_of(draws(*random, tag@), block_num, now) == Err::<Seq<u8>, Error>(e),
        },
{
    if block_num == 0 {
        return Ok(Vec::new());
    }
    let share = match share_of(block_num, FILLER_RATE) {
        Ok(n) => n,
        Err(e) => {
            return Err(e);
        },
    };
    let indices = match sample_indices(tag, block_num, share + 1, now, random) {
        Ok(indices) => indices,
        Err(e) => {
            return Err(e);
        },
    };
    let mut shards: Vec<u8> = Vec::new();
    let mut i: usize = 0;
    while i < indices.len()
        invariant
            i <= indices@.len(),
            shards@ == indices@.take(i as int).map_values(|i: u32| (i % 256) as u8),
        decreases indices@.len() - i,
    {
        shards.push((indices[i] % 256) as u8);
        i = i + 1;
    }
    assert(indices@.take(indices@.len() as int) =~= indices@);
    Ok(shards)
}

} // verus!
