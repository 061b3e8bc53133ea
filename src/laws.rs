use vstd::prelude::*;

use crate::bindings::{
    bindings_of, bound_elsewhere, claims, has_account, keep_recent, recorded, session_index,
    sort_bindings, sorted_slot, sorts_after, store_after, store_wf, upsert, BindingView,
    StoreView, MAX_BINDINGS_PER_ACCOUNT,
};
use crate::decimal::{pow10, Decimal};
use crate::normalize::{normalized_timestamp, MAX_VALID_EPOCH_MS, MS_THRESHOLD};
use crate::order::{lemma_text_cmp_antisym, lemma_text_cmp_eq, lemma_text_cmp_trans, text_cmp};
use crate::percent::{left_from_strict_percent, within_percent};

verus! {

/// For a used percentage in `[0, 100]`, the percentage left is exactly
/// `100 - used` (as the fraction `(100 * 10^s - m) / 10^s` of the used value
/// `m / 10^s`), and it lies in `[0, 100]`.
pub proof fn lemma_percent_left_complements_used(used: Decimal)
    requires
        used.wf(),
        within_percent(used),
    ensures
        left_from_strict_percent(used).den == pow10(used.scale as nat),
        left_from_strict_percent(used).num == 100 * pow10(used.scale as nat) - used.mantissa,
        left_from_strict_percent(used).is_percent(),
{
    crate::decimal::lemma_pow10_grows(used.scale as nat, 17);
    crate::decimal::lemma_pow10_17();
}

/// Normalizing a timestamp that is already in milliseconds gives it back,
/// and normalizing the result again changes nothing.
pub proof fn lemma_normalize_idempotent(x: int)
    requires
        MS_THRESHOLD <= x,
    ensures
        x <= MAX_VALID_EPOCH_MS ==> normalized_timestamp(x) == Ok::<int, crate::error::UsageError>(x),
        normalized_timestamp(x) matches Ok(v) ==> normalized_timestamp(v) == normalized_timestamp(x),
{
}

proof fn lemma_cmp_facts(a: Seq<char>, b: Seq<char>)
    ensures
        text_cmp(a, b) == -text_cmp(b, a),
        -1 <= text_cmp(a, b) <= 1,
        text_cmp(a, b) == 0 <==> a == b,
{
    lemma_text_cmp_antisym(a, b);
    lemma_text_cmp_eq(a, b);
}

/// No binding sorts both after and before another.
pub proof fn lemma_sorts_after_asym(a: BindingView, b: BindingView)
    ensures
        sorts_after(a, b) ==> !sorts_after(b, a),
{
    lemma_cmp_facts(a.1, b.1);
    lemma_cmp_facts(a.3, b.3);
}

/// Where `x` sorts no later than `y` and after `z`, `y` sorts after `z`.
proof fn lemma_after_through(x: BindingView, y: BindingView, z: BindingView)
    requires
        !sorts_after(x, y),
        sorts_after(x, z),
    ensures
        sorts_after(y, z),
{
    lemma_cmp_facts(x.1, y.1);
    lemma_cmp_facts(x.1, z.1);
    lemma_cmp_facts(y.1, z.1);
    lemma_cmp_facts(x.3, y.3);
    lemma_cmp_facts(x.3, z.3);
    lemma_cmp_facts(y.3, z.3);
    if text_cmp(x.1, y.1) < 0 {
        if text_cmp(x.1, z.1) > 0 {
            lemma_text_cmp_trans(z.1, x.1, y.1);
        }
    } else {
        if text_cmp(x.1, z.1) == 0 {
            lemma_text_cmp_trans(z.3, x.3, y.3);
        }
    }
}

/// The bindings appear in (created at, bound at) order.
pub open spec fn in_binding_order(s: Seq<BindingView>) -> bool {
    forall|i: int, j: int| 0 <= i < j < s.len() ==> !sorts_after(#[trigger] s[i], #[trigger] s[j])
}

proof fn lemma_slot(list: Seq<BindingView>, b: BindingView)
    ensures
        0 <= sorted_slot(list, b) <= list.len(),
        forall|q: int| 0 <= q < sorted_slot(list, b) ==> !sorts_after(#[trigger] list[q], b),
        sorted_slot(list, b) < list.len() ==> sorts_after(list[sorted_slot(list, b)], b),
    decreases list.len(),
{
    if list.len() > 0 && !sorts_after(list[0], b) {
        let rest = list.drop_first();
        lemma_slot(rest, b);
        assert forall|q: int| 0 <= q < sorted_slot(list, b) implies !sorts_after(#[trigger] list[q], b) by {
            if q > 0 {
                assert(list[q] == rest[q - 1]);
            }
        }
        if sorted_slot(list, b) < list.len() {
            assert(list[sorted_slot(list, b)] == rest[sorted_slot(rest, b)]);
        }
    }
}

proof fn lemma_insert_in_order(list: Seq<BindingView>, b: BindingView)
    requires
        in_binding_order(list),
    ensures
        in_binding_order(list.insert(sorted_slot(list, b), b)),
{
    lemma_slot(list, b);
    let p = sorted_slot(list, b);
    let t = list.insert(p, b);
    assert forall|i: int, j: int| 0 <= i < j < t.len() implies !sorts_after(#[trigger] t[i], #[trigger] t[j]) by {
        if j < p {
            assert(t[i] == list[i] && t[j] == list[j]);
        } else if j == p {
            assert(t[i] == list[i] && t[j] == b);
        } else if i < p {
            assert(t[i] == list[i] && t[j] == list[j - 1]);
        } else if i == p {
            assert(t[i] == b && t[j] == list[j - 1]);
            if j - 1 > p {
                lemma_after_through(list[p], list[j - 1], b);
            }
            lemma_sorts_after_asym(list[j - 1], b);
        } else {
            assert(t[i] == list[i - 1] && t[j] == list[j - 1]);
        }
    }
}

/// Sorting keeps the number of bindings and puts them in (created at,
/// bound at) order.
pub proof fn lemma_sort_bindings(s: Seq<BindingView>)
    ensures
        sort_bindings(s).len() == s.len(),
        in_binding_order(sort_bindings(s)),
    decreases s.len(),
{
    if s.len() > 0 {
        let prev = sort_bindings(s.drop_last());
        lemma_sort_bindings(s.drop_last());
        lemma_slot(prev, s.last());
        lemma_insert_in_order(prev, s.last());
    }
}

proof fn lemma_session_index(s: Seq<BindingView>, sid: Seq<char>)
    ensures
        0 <= session_index(s, sid) <= s.len(),
        session_index(s, sid) < s.len() ==> s[session_index(s, sid)].0 == sid,
    decreases s.len(),
{
    if s.len() > 0 && s[0].0 != sid {
        lemma_session_index(s.drop_first(), sid);
    }
}

/// Recording a binding whose session id the list already holds replaces
/// that entry: a list within the retention bound keeps its length.
pub proof fn lemma_rebind_keeps_length(entries: Seq<BindingView>, b: BindingView)
    requires
        session_index(entries, b.0) < entries.len(),
        entries.len() <= MAX_BINDINGS_PER_ACCOUNT,
    ensures
        recorded(entries, b).len() == entries.len(),
{
    let u = upsert(entries, b);
    lemma_session_index(entries, b.0);
    assert(u.len() == entries.len());
    lemma_sort_bindings(u);
    assert(sort_bindings(u).len() <= MAX_BINDINGS_PER_ACCOUNT);
    assert(keep_recent(sort_bindings(u)) == sort_bindings(u));
}

/// Binding a session id that an account already holds, to that same
/// account, leaves its number of bindings unchanged (the entry is
/// replaced), and the other accounts as they were.
pub proof fn lemma_rebind_same_account(s: StoreView, account: Seq<char>, b: BindingView)
    requires
        store_wf(s),
        has_account(s, account),
        session_index(bindings_of(s, account), b.0) < bindings_of(s, account).len(),
        bindings_of(s, account).len() <= MAX_BINDINGS_PER_ACCOUNT,
    ensures
        store_after(s, account, b).len() == s.len(),
        has_account(store_after(s, account, b), account),
        bindings_of(store_after(s, account, b), account).len() == bindings_of(s, account).len(),
        forall|i: int|
            0 <= i < s.len() && #[trigger] s[i].0 != account ==> store_after(s, account, b)[i] == s[i],
{
    let r = crate::bindings::account_row(s, account);
    let t = store_after(s, account, b);
    lemma_rebind_keeps_length(bindings_of(s, account), b);
    assert(t[r].0 == account);
    assert(store_wf(t)) by {
        assert forall|i: int, j: int| 0 <= i < j < t.len() implies #[trigger] t[i].0 != #[trigger] t[j].0 by {
            assert(t[i].0 == s[i].0 && t[j].0 == s[j].0);
        }
    }
    let c = crate::bindings::account_row(t, account);
    assert(has_account(t, account));
    assert(c == r) by {
        if c != r {
            if c < r {
                assert(t[c].0 != t[r].0);
            } else {
                assert(t[r].0 != t[c].0);
            }
        }
    }
}

/// Once an account holds a session id, binding that session id to any other
/// account is an ownership conflict (and `update_usage_bindings` then fails
/// and leaves the store as it was).
pub proof fn lemma_bound_session_blocks_others(
    s: StoreView,
    owner: Seq<char>,
    other: Seq<char>,
    b: BindingView,
)
    requires
        has_account(s, owner),
        owner != other,
        session_index(bindings_of(s, owner), b.0) < bindings_of(s, owner).len(),
    ensures
        bound_elsewhere(s, other, b),
{
    let r = crate::bindings::account_row(s, owner);
    let e = bindings_of(s, owner);
    lemma_session_index(e, b.0);
    let k = session_index(e, b.0);
    assert(e[k].0 == b.0);
    assert(claims(s[r].1, b));
    assert(s[r].0 != other);
}

/// An account holding one binding over the retention bound keeps exactly
/// the bound after any new binding is recorded: the most recent ones by
/// (created at, bound at); every dropped binding sorts no later than every
/// kept one.
pub proof fn lemma_retention(entries: Seq<BindingView>, b: BindingView)
    requires
        entries.len() == MAX_BINDINGS_PER_ACCOUNT + 1,
    ensures
        recorded(entries, b).len() == MAX_BINDINGS_PER_ACCOUNT,
        ({
            let sorted = sort_bindings(upsert(entries, b));
            let cut = sorted.len() - MAX_BINDINGS_PER_ACCOUNT;
            &&& recorded(entries, b) == sorted.skip(cut)
            &&& forall|i: int, j: int|
                0 <= i < cut <= j < sorted.len() ==> !sorts_after(#[trigger] sorted[i], #[trigger] sorted[j])
        }),
{
    let u = upsert(entries, b);
    lemma_session_index(entries, b.0);
    assert(u.len() == entries.len() || u.len() == entries.len() + 1);
    lemma_sort_bindings(u);
    let sorted = sort_bindings(u);
    assert(sorted.len() > MAX_BINDINGS_PER_ACCOUNT);
    assert(recorded(entries, b) == sorted.skip(sorted.len() - MAX_BINDINGS_PER_ACCOUNT));
}

} // verus!
