use vstd::prelude::*;

use crate::error::UsageError;
use crate::order::{compare_text, text_cmp};
use crate::text::str_eq;

verus! {

/// Retention bound: an account keeps at most this many bindings.
pub const MAX_BINDINGS_PER_ACCOUNT: usize = 200;

/// One session log owned by an account.
#[derive(Debug)]
pub struct SessionBinding {
    pub session_id: String,
    pub created_at: String,
    pub file_path: String,
    pub bound_at: String,
}

/// A binding as (session id, created at, file path, bound at).
pub type BindingView = (Seq<char>, Seq<char>, Seq<char>, Seq<char>);

impl View for SessionBinding {
    type V = BindingView;

    open spec fn view(&self) -> BindingView {
        (self.session_id@, self.created_at@, self.file_path@, self.bound_at@)
    }
}

impl SessionBinding {
    /// A copy of this binding.
    pub fn duplicate(&self) -> (r: SessionBinding)
        ensures
            r@ == self@,
    {
        SessionBinding {
            session_id: self.session_id.clone(),
            created_at: self.created_at.clone(),
            file_path: self.file_path.clone(),
            bound_at: self.bound_at.clone(),
        }
    }
}

/// The bindings of one account, in their stored order.
#[derive(Debug)]
pub struct AccountBindings {
    pub account_id: String,
    pub entries: Vec<SessionBinding>,
}

/// The persisted table from accounts to the session logs they own.
#[derive(Debug)]
pub struct UsageBindingsStore {
    pub version: String,
    pub accounts: Vec<AccountBindings>,
}

pub open spec fn entries_view(v: Seq<SessionBinding>) -> Seq<BindingView> {
    v.map_values(|b: SessionBinding| b@)
}

/// The store as a sequence of (account id, bindings).
pub type StoreView = Seq<(Seq<char>, Seq<BindingView>)>;

impl View for UsageBindingsStore {
    type V = StoreView;

    open spec fn view(&self) -> StoreView {
        self.accounts@.map_values(|a: AccountBindings| (a.account_id@, entries_view(a.entries@)))
    }
}

/// The format version written into a new store.
pub const STORE_VERSION: &'static str = "1.0.0";

impl UsageBindingsStore {
    /// An empty store of the current format version.
    pub fn new() -> (r: UsageBindingsStore)
        ensures
            r@.len() == 0,
            r.wf(),
            r.version@ == STORE_VERSION@,
    {
        let r = UsageBindingsStore { version: String::from_str(STORE_VERSION), accounts: Vec::new() };
        assert(r@ =~= Seq::<(Seq<char>, Seq<BindingView>)>::empty());
        r
    }

    /// Each account appears once.
    pub open spec fn wf(&self) -> bool {
        store_wf(self@)
    }
}

pub open spec fn store_wf(s: StoreView) -> bool {
    forall|i: int, j: int| 0 <= i < j < s.len() ==> #[trigger] s[i].0 != #[trigger] s[j].0
}

/// `a` sorts strictly after `b` by (created at, bound at).
pub open spec fn sorts_after(a: BindingView, b: BindingView) -> bool {
    let c = text_cmp(a.1, b.1);
    c > 0 || (c == 0 && text_cmp(a.3, b.3) > 0)
}

/// Where `b` goes in a sorted list so that equal keys keep their order:
/// before the first entry that sorts after it.
pub open spec fn sorted_slot(list: Seq<BindingView>, b: BindingView) -> int
    decreases list.len(),
{
    if list.len() == 0 {
        0
    } else if sorts_after(list[0], b) {
        0
    } else {
        1 + sorted_slot(list.drop_first(), b)
    }
}

/// The bindings stably sorted by (created at, bound at).
pub open spec fn sort_bindings(s: Seq<BindingView>) -> Seq<BindingView>
    decreases s.len(),
{
    if s.len() == 0 {
        s
    } else {
        let prev = sort_bindings(s.drop_last());
        prev.insert(sorted_slot(prev, s.last()), s.last())
    }
}

/// The most recent `MAX_BINDINGS_PER_ACCOUNT` of a sorted list.
pub open spec fn keep_recent(s: Seq<BindingView>) -> Seq<BindingView> {
    if s.len() > MAX_BINDINGS_PER_ACCOUNT {
        s.skip(s.len() - MAX_BINDINGS_PER_ACCOUNT)
    } else {
        s
    }
}

/// The index of the first binding with session id `sid`, or the length.
pub open spec fn session_index(s: Seq<BindingView>, sid: Seq<char>) -> int
    decreases s.len(),
{
    if s.len() == 0 {
        0
    } else if s[0].0 == sid {
        0
    } else {
        1 + session_index(s.drop_first(), sid)
    }
}

/// `b` replaces the first binding with its session id, or is appended.
pub open spec fn upsert(s: Seq<BindingView>, b: BindingView) -> Seq<BindingView> {
    let i = session_index(s, b.0);
    if i < s.len() {
        s.update(i, b)
    } else {
        s.push(b)
    }
}

/// An account's bindings after `b` is recorded: inserted or replaced,
/// sorted, and trimmed to the most recent ones.
pub open spec fn recorded(s: Seq<BindingView>, b: BindingView) -> Seq<BindingView> {
    keep_recent(sort_bindings(upsert(s, b)))
}

/// Some binding of `s` has `b`'s session id or file path.
pub open spec fn claims(s: Seq<BindingView>, b: BindingView) -> bool {
    exists|j: int| #![trigger s[j]] 0 <= j < s.len() && (s[j].0 == b.0 || s[j].2 == b.2)
}

/// An account other than `account` already owns `b`'s session or file.
pub open spec fn bound_elsewhere(s: StoreView, account: Seq<char>, b: BindingView) -> bool {
    exists|i: int| 0 <= i < s.len() && #[trigger] s[i].0 != account && claims(s[i].1, b)
}

/// The account holds a row in the store.
pub open spec fn has_account(s: StoreView, account: Seq<char>) -> bool {
    exists|i: int| 0 <= i < s.len() && #[trigger] s[i].0 == account
}

/// The row of `account`.
pub open spec fn account_row(s: StoreView, account: Seq<char>) -> int {
    choose|i: int| 0 <= i < s.len() && #[trigger] s[i].0 == account
}

/// The bindings of `account` (none where it has no row).
pub open spec fn bindings_of(s: StoreView, account: Seq<char>) -> Seq<BindingView> {
    if has_account(s, account) {
        s[account_row(s, account)].1
    } else {
        seq![]
    }
}

/// The store after `b` is recorded for `account`.
pub open spec fn store_after(s: StoreView, account: Seq<char>, b: BindingView) -> StoreView {
    if has_account(s, account) {
        s.update(account_row(s, account), (account, recorded(s[account_row(s, account)].1, b)))
    } else {
        s.push((account, recorded(seq![], b)))
    }
}

/// Whether `a` sorts after `b`.
fn binding_sorts_after(a: &SessionBinding, b: &SessionBinding) -> (r: bool)
    ensures
        r == sorts_after(a@, b@),
{
    let c = compare_text(a.created_at.as_str(), b.created_at.as_str());
    c > 0 || (c == 0 && compare_text(a.bound_at.as_str(), b.bound_at.as_str()) > 0)
}

/// Stably sorts bindings by (created at, bound at).
pub fn sort_session_bindings(entries: Vec<SessionBinding>) -> (r: Vec<SessionBinding>)
    ensures
        entries_view(r@) == sort_bindings(entries_view(entries@)),
{
    let ghost src = entries_view(entries@);
    let mut rest = entries;
    let mut sorted: Vec<SessionBinding> = Vec::new();
    let ghost mut k: int = 0;
    assert(src.take(0) =~= Seq::<BindingView>::empty());
    assert(entries_view(rest@) =~= src.skip(0));
    while rest.len() > 0
        invariant
            0 <= k <= src.len(),
            entries_view(rest@) == src.skip(k),
            entries_view(sorted@) == sort_bindings(src.take(k)),
        decreases rest@.len(),
    {
        let ghost pre = entries_view(sorted@);
        let ghost old_rest = rest@;
        let b = rest.remove(0);
        assert(entries_view(old_rest).len() == old_rest.len());
        assert(k < src.len());
        assert(b@ == src[k]) by {
            assert(entries_view(old_rest).len() == old_rest.len());
            assert(k < src.len());
            assert(entries_view(old_rest)[0] == old_rest[0]@);
            assert(entries_view(old_rest)[0] == src.skip(k)[0]);
        }
        assert(entries_view(rest@) =~= src.skip(k + 1)) by {
            assert(rest@ =~= old_rest.remove(0));
            assert(rest@.len() == old_rest.len() - 1);
            assert(entries_view(old_rest).len() == src.len() - k);
            assert(entries_view(rest@).len() == src.skip(k + 1).len());
            assert forall|j: int| 0 <= j < rest@.len() implies #[trigger] entries_view(rest@)[j] == src.skip(k + 1)[j] by {
                assert(rest@[j] == old_rest[j + 1]);
                assert(entries_view(old_rest)[j + 1] == old_rest[j + 1]@);
                assert(entries_view(rest@)[j] == rest@[j]@);
                assert(entries_view(old_rest)[j + 1] == src.skip(k)[j + 1]);
                assert(src.skip(k)[j + 1] == src[k + j + 1]);
                assert(src.skip(k + 1)[j] == src[k + 1 + j]);
            }
        }
        let mut p: usize = 0;
        assert(pre.skip(0) =~= pre);
        while p < sorted.len() && !binding_sorts_after(&sorted[p], &b)
            invariant
                pre == entries_view(sorted@),
                0 <= k < src.len(),
                b@ == src[k],
                entries_view(rest@) == src.skip(k + 1),
                pre == sort_bindings(src.take(k)),
                p <= sorted@.len(),
                sorted_slot(pre, b@) == p + sorted_slot(pre.skip(p as int), b@),
            decreases sorted@.len() - p,
        {
            assert(pre.skip(p as int).drop_first() =~= pre.skip(p + 1));
            assert(pre.skip(p as int)[0] == pre[p as int]);
            p = p + 1;
        }
        proof {
            if p < sorted@.len() {
                assert(pre.skip(p as int)[0] == pre[p as int]);
            }
        }
        let ghost bv = b@;
        sorted.insert(p, b);
        proof {
            let next = src.take(k + 1);
            assert(next.drop_last() =~= src.take(k));
            assert(next.last() == src[k]);
            assert(entries_view(sorted@) =~= pre.insert(p as int, bv));
            k = k + 1;
        }
    }
    assert(src.take(k) =~= src);
    sorted
}

/// The index of the first binding with session id `sid`, or the length.
fn find_session(entries: &Vec<SessionBinding>, sid: &str) -> (r: usize)
    ensures
        r as int == session_index(entries_view(entries@), sid@),
        r <= entries@.len(),
{
    let ghost s = entries_view(entries@);
    let mut i: usize = 0;
    assert(s.skip(0) =~= s);
    while i < entries.len()
        invariant
            s == entries_view(entries@),
            i <= entries@.len(),
            session_index(s, sid@) == i + session_index(s.skip(i as int), sid@),
        decreases entries@.len() - i,
    {
        assert(s.skip(i as int)[0] == s[i as int]);
        if str_eq(entries[i].session_id.as_str(), sid) {
            return i;
        }
        assert(s.skip(i as int).drop_first() =~= s.skip(i + 1));
        i = i + 1;
    }
    i
}

/// An account's bindings after `binding` is recorded: it replaces the first
/// binding with its session id or is appended; the list is sorted by
/// (created at, bound at) and trimmed to the most recent
/// `MAX_BINDINGS_PER_ACCOUNT`.
pub fn record_binding(entries: Vec<SessionBinding>, binding: SessionBinding) -> (r: Vec<SessionBinding>)
    ensures
        entries_view(r@) == recorded(entries_view(entries@), binding@),
{
    let mut entries = entries;
    let ghost s = entries_view(entries@);
    let i = find_session(&entries, binding.session_id.as_str());
    let ghost bv = binding@;
    if i < entries.len() {
        entries[i] = binding;
        assert(entries_view(entries@) =~= s.update(i as int, bv));
    } else {
        entries.push(binding);
        assert(entries_view(entries@) =~= s.push(bv));
    }
    let mut sorted = sort_session_bindings(entries);
    let n = sorted.len();
    if n > MAX_BINDINGS_PER_ACCOUNT {
        let ghost whole = sorted@;
        let tail = sorted.split_off(n - MAX_BINDINGS_PER_ACCOUNT);
        assert(entries_view(tail@) =~= entries_view(whole).skip(n - MAX_BINDINGS_PER_ACCOUNT));
        tail
    } else {
        sorted
    }
}

/// Whether some binding of `entries` has `b`'s session id or file path.
fn claims_any(entries: &Vec<SessionBinding>, b: &SessionBinding) -> (r: bool)
    ensures
        r == claims(entries_view(entries@), b@),
{
    let ghost s = entries_view(entries@);
    let mut j: usize = 0;
    while j < entries.len()
        invariant
            s == entries_view(entries@),
            j <= entries@.len(),
            forall|q: int| #![trigger s[q]] 0 <= q < j ==> !(s[q].0 == b@.0 || s[q].2 == b@.2),
        decreases entries@.len() - j,
    {
        if str_eq(entries[j].session_id.as_str(), b.session_id.as_str()) || str_eq(
            entries[j].file_path.as_str(),
            b.file_path.as_str(),
        ) {
            assert(s[j as int].0 == b@.0 || s[j as int].2 == b@.2);
            return true;
        }
        j = j + 1;
    }
    false
}

/// Records that `account_id` owns the session log of `binding`. Fails with
/// `SessionAlreadyBoundElsewhere`, leaving the store as it was, where
/// another account already owns the same session id or file path;
/// otherwise the account's bindings become `recorded(..)` of the old ones.
pub fn update_usage_bindings(
    store: &mut UsageBindingsStore,
    account_id: &str,
    binding: SessionBinding,
) -> (r: Result<(), UsageError>)
    requires
        old(store).wf(),
    ensures
        final(store).wf(),
        final(store).version@ == old(store).version@,
        bound_elsewhere(old(store)@, account_id@, binding@) ==> r == Err::<(), UsageError>(
            UsageError::SessionAlreadyBoundElsewhere,
        ) && final(store)@ == old(store)@,
        !bound_elsewhere(old(store)@, account_id@, binding@) ==> r is Ok && final(store)@
            == store_after(old(store)@, account_id@, binding@),
{
    let ghost s = store@;
    let n = store.accounts.len();
    let mut i: usize = 0;
    while i < n
        invariant
            s == store@,
            store_wf(s),
            n == store.accounts@.len(),
            i <= n,
            forall|q: int|
                0 <= q < i ==> !(#[trigger] s[q].0 != account_id@ && claims(s[q].1, binding@)),
        decreases n - i,
    {
        let row = &store.accounts[i];
        assert(s[i as int] == (row.account_id@, entries_view(row.entries@)));
        if !str_eq(row.account_id.as_str(), account_id) && claims_any(&row.entries, &binding) {
            assert(s[i as int].0 != account_id@ && claims(s[i as int].1, binding@));
            return Err(UsageError::SessionAlreadyBoundElsewhere);
        }
        i = i + 1;
    }
    let mut a: usize = 0;
    while a < n && !str_eq(store.accounts[a].account_id.as_str(), account_id)
        invariant
            s == store@,
            store_wf(s),
            n == store.accounts@.len(),
            a <= n,
            forall|q: int| 0 <= q < a ==> #[trigger] s[q].0 != account_id@,
        decreases n - a,
    {
        a = a + 1;
    }
    let ghost b = binding@;
    if a < n {
        assert(s[a as int].0 == account_id@);
        assert(account_row(s, account_id@) == a) by {
            let c = account_row(s, account_id@);
            assert(has_account(s, account_id@));
            if c < a {
                assert(s[c].0 != account_id@);
            } else if c > a {
                assert(s[a as int].0 != s[c].0);
            }
        }
        let row = store.accounts.remove(a);
        let entries = record_binding(row.entries, binding);
        let ghost new_row = (account_id@, entries_view(entries@));
        store.accounts.insert(a, AccountBindings { account_id: row.account_id, entries });
        assert(store@ =~= s.update(a as int, new_row));
    } else {
        assert(!has_account(s, account_id@));
        let empty: Vec<SessionBinding> = Vec::new();
        assert(entries_view(empty@) =~= Seq::<BindingView>::empty());
        let entries = record_binding(empty, binding);
        let ghost new_row = (account_id@, entries_view(entries@));
        store.accounts.push(AccountBindings { account_id: String::from_str(account_id), entries });
        assert(store@ =~= s.push(new_row));
    }
    Ok(())
}

/// The probe of binding `i`: its file's modification time, or `None` where
/// the file is gone (or no probe was taken).
pub open spec fn probe(times: Seq<Option<u128>>, i: int) -> Option<u128> {
    if 0 <= i < times.len() {
        times[i]
    } else {
        None
    }
}

fn probe_at(times: &Vec<Option<u128>>, i: usize) -> (r: Option<u128>)
    ensures
        r == probe(times@, i as int),
{
    if i < times.len() {
        times[i]
    } else {
        None
    }
}

/// Binding `i` is the one to read: its file exists, none is newer, and
/// every binding bound later has an older file.
pub open spec fn is_latest_bound(times: Seq<Option<u128>>, n: int, i: int) -> bool {
    &&& 0 <= i < n
    &&& probe(times, i) is Some
    &&& forall|j: int|
        0 <= j < n && #[trigger] probe(times, j) is Some ==> probe(times, j)->0 <= probe(times, i)->0
    &&& forall|j: int|
        i < j < n && #[trigger] probe(times, j) is Some ==> probe(times, j)->0 < probe(times, i)->0
}

/// Picks the bound file to read for an account: among the bindings whose
/// file still exists (`file_times[i]` is its modification time, `None` where
/// it is gone), the newest file; between equally new ones, the most
/// recently bound. Fails with `NoBindingsForAccount` where the account has
/// no bindings and with `NoValidBoundFiles` where none of its files exists.
pub fn get_latest_bound_session_path(
    store: &UsageBindingsStore,
    account_id: &str,
    file_times: &Vec<Option<u128>>,
) -> (r: Result<String, UsageError>)
    requires
        store.wf(),
    ensures
        ({
            let entries = bindings_of(store@, account_id@);
            if entries.len() == 0 {
                r == Err::<String, UsageError>(UsageError::NoBindingsForAccount)
            } else if forall|j: int| 0 <= j < entries.len() ==> #[trigger] probe(file_times@, j) is None {
                r == Err::<String, UsageError>(UsageError::NoValidBoundFiles)
            } else {
                exists|i: int|
                    is_latest_bound(file_times@, entries.len() as int, i) && (r matches Ok(p) && p@
                        == entries[i].2)
            }
        }),
{
    let ghost s = store@;
    let n = store.accounts.len();
    let mut a: usize = 0;
    while a < n && !str_eq(store.accounts[a].account_id.as_str(), account_id)
        invariant
            s == store@,
            store_wf(s),
            n == store.accounts@.len(),
            a <= n,
            forall|q: int| 0 <= q < a ==> #[trigger] s[q].0 != account_id@,
        decreases n - a,
    {
        a = a + 1;
    }
    if a == n {
        assert(!has_account(s, account_id@));
        return Err(UsageError::NoBindingsForAccount);
    }
    assert(s[a as int].0 == account_id@);
    assert(account_row(s, account_id@) == a) by {
        let c = account_row(s, account_id@);
        assert(has_account(s, account_id@));
        if c < a {
            assert(s[c].0 != account_id@);
        } else if c > a {
            assert(s[a as int].0 != s[c].0);
        }
    }
    let entries = &store.accounts[a].entries;
    let ghost ev = entries_view(entries@);
    assert(ev == bindings_of(s, account_id@));
    let m = entries.len();
    if m == 0 {
        return Err(UsageError::NoBindingsForAccount);
    }
    let mut best: Option<usize> = None;
    let mut k: usize = m;
    while k > 0
        invariant
            k <= m == entries@.len(),
            match best {
                Some(b) => {
                    &&& k <= b < m
                    &&& probe(file_times@, b as int) is Some
                    &&& forall|j: int|
                        k <= j < m && #[trigger] probe(file_times@, j) is Some ==> probe(file_times@, j)->0
                            <= probe(file_times@, b as int)->0
                    &&& forall|j: int|
                        b < j < m && #[trigger] probe(file_times@, j) is Some ==> probe(file_times@, j)->0
                            < probe(file_times@, b as int)->0
                },
                None => forall|j: int| k <= j < m ==> #[trigger] probe(file_times@, j) is None,
            },
        decreases k,
    {
        k = k - 1;
        if let Some(t) = probe_at(file_times, k) {
            match best {
                Some(b) => {
                    if t > probe_at(file_times, b).unwrap() {
                        best = Some(k);
                    }
                },
                None => {
                    best = Some(k);
                },
            }
        }
    }
    match best {
        Some(b) => {
            assert(is_latest_bound(file_times@, m as int, b as int));
            assert(ev[b as int] == entries@[b as int]@);
            Ok(entries[b].file_path.clone())
        },
        None => Err(UsageError::NoValidBoundFiles),
    }
}

} // verus!
