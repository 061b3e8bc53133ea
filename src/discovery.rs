use vstd::prelude::*;

use crate::error::UsageError;
use crate::text::chars_of;

verus! {

/// Modification time `a` is strictly later than `b`; an unknown time is
/// earlier than every known one.
pub open spec fn newer(a: Option<u128>, b: Option<u128>) -> bool {
    match (a, b) {
        (Some(x), Some(y)) => x > y,
        (Some(_), None) => true,
        _ => false,
    }
}

fn is_newer(a: Option<u128>, b: Option<u128>) -> (r: bool)
    ensures
        r == newer(a, b),
{
    match (a, b) {
        (Some(x), Some(y)) => x > y,
        (Some(_), None) => true,
        _ => false,
    }
}

/// A file name that `Path::extension` reads as having the extension
/// `jsonl`: it ends in `.jsonl` and has something before that.
pub open spec fn is_session_log_name_spec(name: Seq<char>) -> bool {
    name.len() > 6 && name.skip(name.len() - 6) == seq!['.', 'j', 's', 'o', 'n', 'l']
}

/// Whether a file name marks a session log (extension `jsonl`).
pub fn is_session_log_name(name: &str) -> (r: bool)
    ensures
        r == is_session_log_name_spec(name@),
{
    let cs = chars_of(name);
    let n = cs.len();
    if n <= 6 {
        return false;
    }
    let r = cs[n - 6] == '.' && cs[n - 5] == 'j' && cs[n - 4] == 's' && cs[n - 3] == 'o' && cs[n - 2]
        == 'n' && cs[n - 1] == 'l';
    proof {
        let tail = name@.skip(n - 6);
        let want = seq!['.', 'j', 's', 'o', 'n', 'l'];
        if r {
            assert(tail =~= want);
        } else {
            assert(tail != want) by {
                if tail == want {
                    assert(tail[0] == want[0] && tail[1] == want[1] && tail[2] == want[2]);
                    assert(tail[3] == want[3] && tail[4] == want[4] && tail[5] == want[5]);
                }
            }
        }
    }
    r
}

/// Picks the most recently modified session log: the first of those with
/// the latest modification time. Fails with `NoSessionsDirectory` where the
/// sessions root is absent and with `NoSessionFiles` where it holds no log.
pub fn find_latest_session_file(sessions_dir_exists: bool, modified: &Vec<Option<u128>>) -> (r: Result<usize, UsageError>)
    ensures
        !sessions_dir_exists ==> r == Err::<usize, UsageError>(UsageError::NoSessionsDirectory),
        sessions_dir_exists && modified@.len() == 0 ==> r == Err::<usize, UsageError>(
            UsageError::NoSessionFiles,
        ),
        sessions_dir_exists && modified@.len() > 0 ==> (r matches Ok(i) && i < modified@.len() && (
        forall|j: int| 0 <= j < modified@.len() ==> !newer(#[trigger] modified@[j], modified@[i as int]))
            && (forall|j: int| 0 <= j < i ==> newer(modified@[i as int], #[trigger] modified@[j]))),
{
    if !sessions_dir_exists {
        return Err(UsageError::NoSessionsDirectory);
    }
    if modified.len() == 0 {
        return Err(UsageError::NoSessionFiles);
    }
    let mut best: usize = 0;
    let mut i: usize = 1;
    while i < modified.len()
        invariant
            0 <= best < i <= modified@.len(),
            forall|j: int| 0 <= j < i ==> !newer(#[trigger] modified@[j], modified@[best as int]),
            forall|j: int| 0 <= j < best ==> newer(modified@[best as int], #[trigger] modified@[j]),
        decreases modified@.len() - i,
    {
        if is_newer(modified[i], modified[best]) {
            best = i;
        }
        i = i + 1;
    }
    Ok(best)
}

/// Where index `k` goes in an order that lists newer files first and keeps
/// the order of equally new ones: before the first entry older than it.
pub open spec fn recency_slot(order: Seq<int>, keys: Seq<Option<u128>>, k: int) -> int
    decreases order.len(),
{
    if order.len() == 0 {
        0
    } else if newer(keys[k], keys[order[0]]) {
        0
    } else {
        1 + recency_slot(order.drop_first(), keys, k)
    }
}

/// The indices `0..n` ordered newest first; equally new files keep their
/// order (a stable sort).
pub open spec fn recency_order(keys: Seq<Option<u128>>, n: nat) -> Seq<int>
    decreases n,
{
    if n == 0 {
        seq![]
    } else {
        let prev = recency_order(keys, (n - 1) as nat);
        prev.insert(recency_slot(prev, keys, n - 1), n - 1)
    }
}

proof fn lemma_recency_slot_bound(order: Seq<int>, keys: Seq<Option<u128>>, k: int)
    ensures
        0 <= recency_slot(order, keys, k) <= order.len(),
    decreases order.len(),
{
    if order.len() > 0 {
        lemma_recency_slot_bound(order.drop_first(), keys, k);
    }
}

proof fn lemma_recency_order_len(keys: Seq<Option<u128>>, n: nat)
    ensures
        recency_order(keys, n).len() == n,
        forall|i: int| 0 <= i < n ==> 0 <= #[trigger] recency_order(keys, n)[i] < n,
    decreases n,
{
    if n > 0 {
        lemma_recency_order_len(keys, (n - 1) as nat);
        let prev = recency_order(keys, (n - 1) as nat);
        lemma_recency_slot_bound(prev, keys, n - 1);
        let p = recency_slot(prev, keys, n - 1);
        let cur = prev.insert(p, n - 1);
        assert forall|i: int| 0 <= i < n implies 0 <= #[trigger] cur[i] < n by {
            if i < p {
                assert(cur[i] == prev[i]);
            } else if i > p {
                assert(cur[i] == prev[i - 1]);
            }
        }
    }
}

/// The session logs to inspect, newest first: the indices of at most
/// `limit` logs, in the order of a stable sort by modification time, newest
/// first.
pub fn recent_session_files(modified: &Vec<Option<u128>>, limit: usize) -> (r: Vec<usize>)
    ensures
        r@.len() == (if limit < modified@.len() {
            limit as int
        } else {
            modified@.len() as int
        }),
        forall|i: int|
            0 <= i < r@.len() ==> #[trigger] r@[i] as int == recency_order(
                modified@,
                modified@.len(),
            )[i],
{
    let n = modified.len();
    let mut order: Vec<usize> = Vec::new();
    let mut k: usize = 0;
    while k < n
        invariant
            k <= n == modified@.len(),
            order@.len() == k,
            forall|i: int|
                0 <= i < k ==> #[trigger] order@[i] as int == recency_order(modified@, k as nat)[i],
            forall|i: int| 0 <= i < k ==> #[trigger] order@[i] < k,
        decreases n - k,
    {
        let ghost prev = recency_order(modified@, k as nat);
        let ghost prev_int = order@.map_values(|x: usize| x as int);
        proof {
            lemma_recency_order_len(modified@, k as nat);
        }
        assert(prev_int =~= prev);
        let mut p: usize = 0;
        assert(prev.skip(0) =~= prev);
        while p < order.len() && !is_newer(modified[k], modified[order[p]])
            invariant
                k < n == modified@.len(),
                order@.len() == k,
                prev == recency_order(modified@, k as nat),
                prev_int == prev,
                prev_int == order@.map_values(|x: usize| x as int),
                forall|i: int| 0 <= i < k ==> #[trigger] order@[i] < k,
                p <= order@.len(),
                recency_slot(prev, modified@, k as int) == p + recency_slot(
                    prev.skip(p as int),
                    modified@,
                    k as int,
                ),
            decreases order@.len() - p,
        {
            assert(prev.skip(p as int).drop_first() =~= prev.skip(p + 1));
            assert(prev.skip(p as int)[0] == prev[p as int]);
            p = p + 1;
        }
        proof {
            if p < order@.len() {
                assert(prev.skip(p as int)[0] == prev[p as int]);
            }
            assert(recency_slot(prev, modified@, k as int) == p);
        }
        let ghost old_order = order@;
        order.insert(p, k);
        proof {
            let cur = recency_order(modified@, (k + 1) as nat);
            assert(cur == prev.insert(p as int, k as int));
            assert forall|i: int| 0 <= i < k + 1 implies #[trigger] order@[i] as int == cur[i] by {
                if i < p {
                    assert(order@[i] == old_order[i]);
                    assert(prev_int[i] == old_order[i] as int);
                } else if i > p {
                    assert(order@[i] == old_order[i - 1]);
                    assert(prev_int[i - 1] == old_order[i - 1] as int);
                }
            }
            assert forall|i: int| 0 <= i < k + 1 implies #[trigger] order@[i] < k + 1 by {
                if i < p {
                    assert(order@[i] == old_order[i]);
                } else if i > p {
                    assert(order@[i] == old_order[i - 1]);
                }
            }
        }
        k = k + 1;
    }
    let take = if limit < n {
        limit
    } else {
        n
    };
    order.truncate(take);
    order
}

} // verus!
