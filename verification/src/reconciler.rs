//! Reconciliation: driving every DNS record that still holds a stale
//! address toward the new one, despite transient record-store failures.
//!
//! The decisions live in [`Reconciliation`], a state machine fed with the
//! outcomes of record-store calls; the caller performs the calls and the
//! waiting. [`reconcile_with_store`] runs the same machine to convergence
//! against an in-memory record store, which is how the algorithm's
//! convergence, idempotence and bookkeeping are proved and tested.

use vstd::prelude::*;

use crate::addr::Address;
use crate::addr::addr_chars;
use crate::models::DNSRecord;
use crate::models::DNSRecordV;
use crate::models::UpdateDNSRecordRequest;
use crate::models::UpdateRequestV;
use crate::models::record_projection;
use crate::models::clone_opt_string;
use crate::models::clone_opt_tags;
use crate::models::clone_opt_meta;

verus! {

/// How many seconds a reconciliation waits after a failed attempt before
/// fetching afresh and retrying.
pub const RETRY_BACKOFF_SECS: u64 = 120;

/// `r` with its content replaced by `newc`; every other field untouched.
pub open spec fn retargeted(r: DNSRecordV, newc: Seq<char>) -> DNSRecordV {
    DNSRecordV {
        content: newc,
        name: r.name,
        proxied: r.proxied,
        kind: r.kind,
        comment: r.comment,
        comment_modified_on: r.comment_modified_on,
        created_on: r.created_on,
        id: r.id,
        meta: r.meta,
        modified_on: r.modified_on,
        proxiable: r.proxiable,
        tags: r.tags,
        tags_modified_on: r.tags_modified_on,
        ttl: r.ttl,
    }
}

/// The record set after a converged reconciliation: every record whose
/// content was `oldc` now holds `newc`, every other record is untouched.
pub open spec fn converged(s: Seq<DNSRecordV>, oldc: Seq<char>, newc: Seq<char>) -> Seq<
    DNSRecordV,
> {
    Seq::new(
        s.len(),
        |i: int|
            if s[i].content == oldc {
                retargeted(s[i], newc)
            } else {
                s[i]
            },
    )
}

/// The records of `s` whose content is `c`, in store order.
pub open spec fn matching(s: Seq<DNSRecordV>, c: Seq<char>) -> Seq<DNSRecordV>
    decreases s.len(),
{
    if s.len() == 0 {
        Seq::<DNSRecordV>::empty()
    } else {
        let rest = matching(s.drop_last(), c);
        if s.last().content == c {
            rest.push(s.last())
        } else {
            rest
        }
    }
}

/// No two records of `s` share an identifier. The record store addresses
/// records by identifier, so a store snapshot always satisfies this.
pub open spec fn unique_ids(s: Seq<DNSRecordV>) -> bool {
    forall|i: int, j: int| 0 <= i < j < s.len() ==> s[i].id != s[j].id
}

/// Every matched record has the sought content and comes from the store.
proof fn lemma_matching_sound(s: Seq<DNSRecordV>, c: Seq<char>)
    ensures
        matching(s, c).len() <= s.len(),
        forall|j: int|
            0 <= j < matching(s, c).len() ==> (#[trigger] matching(s, c)[j]).content == c,
        forall|j: int|
            0 <= j < matching(s, c).len() ==> exists|i: int|
                0 <= i < s.len() && s[i] == #[trigger] matching(s, c)[j],
    decreases s.len(),
{
    if s.len() != 0 {
        lemma_matching_sound(s.drop_last(), c);
        let m = matching(s, c);
        let rest = matching(s.drop_last(), c);
        assert forall|j: int| 0 <= j < m.len() implies exists|i: int|
            0 <= i < s.len() && s[i] == #[trigger] m[j] by {
            if j < rest.len() {
                let i = choose|i: int| 0 <= i < s.drop_last().len() && s.drop_last()[i] == rest[j];
                assert(s[i] == m[j]);
            } else {
                assert(s[s.len() - 1] == m[j]);
            }
        }
    }
}

/// Every store record with the sought content is matched.
proof fn lemma_matching_complete(s: Seq<DNSRecordV>, c: Seq<char>)
    ensures
        forall|i: int|
            0 <= i < s.len() && (#[trigger] s[i]).content == c ==> exists|j: int|
                0 <= j < matching(s, c).len() && matching(s, c)[j] == s[i],
    decreases s.len(),
{
    if s.len() != 0 {
        lemma_matching_complete(s.drop_last(), c);
        let m = matching(s, c);
        let rest = matching(s.drop_last(), c);
        assert forall|i: int| 0 <= i < s.len() && (#[trigger] s[i]).content == c implies exists|
            j: int,
        | 0 <= j < m.len() && m[j] == s[i] by {
            if i < s.len() - 1 {
                assert(s.drop_last()[i] == s[i]);
                let j = choose|j: int| 0 <= j < rest.len() && rest[j] == s[i];
                assert(m[j] == s[i]);
            } else {
                assert(m[m.len() - 1] == s[i]);
            }
        }
    }
}

/// In a store with unique identifiers, the matched records also have
/// pairwise distinct identifiers.
proof fn lemma_matching_unique_ids(s: Seq<DNSRecordV>, c: Seq<char>)
    requires
        unique_ids(s),
    ensures
        forall|j1: int, j2: int|
            0 <= j1 < j2 < matching(s, c).len() ==> (#[trigger] matching(s, c)[j1]).id != (
            #[trigger] matching(s, c)[j2]).id,
    decreases s.len(),
{
    if s.len() != 0 {
        assert(unique_ids(s.drop_last())) by {
            assert(forall|i: int, j: int|
                0 <= i < j < s.drop_last().len() ==> s.drop_last()[i] == s[i] && s.drop_last()[j]
                    == s[j]);
        }
        lemma_matching_unique_ids(s.drop_last(), c);
        lemma_matching_sound(s.drop_last(), c);
        let m = matching(s, c);
        let rest = matching(s.drop_last(), c);
        assert forall|j1: int, j2: int| 0 <= j1 < j2 < m.len() implies (#[trigger] m[j1]).id != (
        #[trigger] m[j2]).id by {
            if j2 < rest.len() {
                assert(m[j1] == rest[j1] && m[j2] == rest[j2]);
            } else if s.last().content == c && j2 == rest.len() {
                assert(m[j1] == rest[j1]);
                let i = choose|i: int|
                    0 <= i < s.drop_last().len() && s.drop_last()[i] == rest[j1];
                assert(s[i] == rest[j1]);
                assert(s[i].id != s[s.len() - 1].id);
                assert(m[j2] == s.last());
            }
        }
    }
}

/// Reconciling a record set a second time with the same pair of addresses
/// changes nothing: the converged set is a fixed point. It also keeps the
/// identifiers unique.
pub proof fn lemma_reconcile_idempotent(s: Seq<DNSRecordV>, oldc: Seq<char>, newc: Seq<char>)
    ensures
        converged(converged(s, oldc, newc), oldc, newc) == converged(s, oldc, newc),
        unique_ids(s) ==> unique_ids(converged(s, oldc, newc)),
{
    let once = converged(s, oldc, newc);
    assert forall|i: int| 0 <= i < once.len() implies converged(once, oldc, newc)[i] == once[i] by {
        if s[i].content == oldc {
            if oldc == newc {
                assert(once[i] == retargeted(s[i], newc));
                assert(once[i].content == oldc);
                assert(retargeted(once[i], newc) == once[i]);
            } else {
                assert(once[i].content == newc);
            }
        } else {
            assert(once[i] == s[i]);
        }
    }
    assert(converged(once, oldc, newc) =~= once);
}

/// The update payload for one record: every preserved field copied from
/// the fetched record, only the content replaced.
pub open spec fn update_for(r: DNSRecordV, newc: Seq<char>) -> UpdateRequestV {
    UpdateRequestV {
        content: newc,
        name: r.name,
        proxied: r.proxied,
        kind: r.kind,
        comment: r.comment,
        id: r.id,
        tags: r.tags,
        ttl: r.ttl,
    }
}

/// Builds the update payload that retargets one fetched record to the new
/// address: a full projection of the record, content overwritten, every
/// other field preserved verbatim.
pub fn build_update(record: &DNSRecord, new_addr: &Address) -> (u: UpdateDNSRecordRequest)
    ensures
        u@ == update_for(record@, addr_chars(*new_addr)),
{
    let copy = record.clone();
    let mut u = UpdateDNSRecordRequest::from(copy);
    u.content = new_addr.to_ipv4_string();
    proof {
        assert(record_projection(record@).name == record@.name);
    }
    u
}

/// The records of the store whose content equals `content`, in store
/// order: what the record store's list-records-by-content call returns
/// for an in-memory store.
pub fn records_with_content(store: &Vec<DNSRecord>, content: &String) -> (out: Vec<DNSRecord>)
    ensures
        out.deep_view() == matching(store.deep_view(), content@),
{
    let mut out: Vec<DNSRecord> = Vec::new();
    let mut i: usize = 0;
    while i < store.len()
        invariant
            0 <= i <= store@.len(),
            out.deep_view() == matching(store.deep_view().take(i as int), content@),
        decreases store@.len() - i,
    {
        let ghost pre = out.deep_view();
        proof {
            assert(store.deep_view().take(i as int + 1).drop_last() =~= store.deep_view().take(
                i as int,
            ));
            assert(store.deep_view().take(i as int + 1).last() == store.deep_view()[i as int]);
        }
        if store[i].content == *content {
            out.push(store[i].clone());
            proof {
                assert(out.deep_view() =~= pre.push(store.deep_view()[i as int]));
            }
        }
        i += 1;
    }
    proof {
        assert(store.deep_view().take(i as int) =~= store.deep_view());
    }
    out
}

/// `r` overwritten by the payload `u`: content, name, proxy flag, kind,
/// comment, tags and time-to-live come from the payload, everything else
/// keeps the record's value. The identifier is unchanged (the payload
/// addresses the record by it).
pub open spec fn record_updated(r: DNSRecordV, u: UpdateRequestV) -> DNSRecordV {
    DNSRecordV {
        content: u.content,
        name: u.name,
        proxied: u.proxied,
        kind: u.kind,
        comment: u.comment,
        comment_modified_on: r.comment_modified_on,
        created_on: r.created_on,
        id: r.id,
        meta: r.meta,
        modified_on: r.modified_on,
        proxiable: r.proxiable,
        tags: u.tags,
        tags_modified_on: r.tags_modified_on,
        ttl: u.ttl,
    }
}

/// The store after one update call: every record whose identifier matches
/// the payload's is overwritten by it; every other record is untouched.
pub open spec fn store_updated(s: Seq<DNSRecordV>, u: UpdateRequestV) -> Seq<DNSRecordV> {
    Seq::new(
        s.len(),
        |i: int|
            if s[i].id == u.id {
                record_updated(s[i], u)
            } else {
                s[i]
            },
    )
}

/// Applies one update payload to an in-memory record store: what the
/// record store's update-record call does, idempotently, when it succeeds.
pub fn apply_update(store: &mut Vec<DNSRecord>, u: &UpdateDNSRecordRequest)
    ensures
        final(store).deep_view() == store_updated(old(store).deep_view(), u@),
{
    let mut out: Vec<DNSRecord> = Vec::new();
    let mut i: usize = 0;
    while i < store.len()
        invariant
            0 <= i <= store@.len(),
            out@.len() == i,
            store.deep_view() == old(store).deep_view(),
            out.deep_view() == store_updated(old(store).deep_view(), u@).take(i as int),
        decreases store@.len() - i,
    {
        let ghost pre = out.deep_view();
        let r = &store[i];
        if r.id == u.id {
            let updated = DNSRecord {
                content: u.content.clone(),
                name: u.name.clone(),
                proxied: u.proxied,
                kind: u.kind,
                comment: clone_opt_string(&u.comment),
                comment_modified_on: r.comment_modified_on,
                created_on: r.created_on,
                id: r.id.clone(),
                meta: clone_opt_meta(&r.meta),
                modified_on: r.modified_on,
                proxiable: r.proxiable,
                tags: clone_opt_tags(&u.tags),
                tags_modified_on: r.tags_modified_on,
                ttl: u.ttl,
            };
            proof {
                assert(updated@ == record_updated(old(store).deep_view()[i as int], u@));
            }
            out.push(updated);
        } else {
            out.push(r.clone());
        }
        proof {
            let target = store_updated(old(store).deep_view(), u@);
            assert forall|j: int| 0 <= j < i + 1 implies #[trigger] out.deep_view()[j]
                == target.take(i as int + 1)[j] by {
                assert(out.deep_view()[j] == out@[j].deep_view());
                if j < i as int {
                    assert(pre[j] == target.take(i as int)[j]);
                }
            }
            assert(out.deep_view() =~= target.take(i as int + 1));
        }
        i += 1;
    }
    *store = out;
    proof {
        assert(store_updated(old(store).deep_view(), u@).take(i as int) =~= store_updated(
            old(store).deep_view(),
            u@,
        ));
    }
}

/// What the reconciler asks its caller to do next.
#[derive(Debug, PartialEq)]
pub enum ReconcileStep {
    /// Fetch, fresh, the records whose content is the stale address.
    Fetch,
    /// Submit this update payload to the record store.
    Write(UpdateDNSRecordRequest),
    /// Wait one backoff interval, then report back.
    Backoff,
    /// This change event has converged; nothing is left to do.
    Done,
}

/// The reconciliation of one `AddressChanged` event: a state machine fed
/// with the outcomes of the record-store calls it asks for.
///
/// The caller loops: perform the returned step, feed the outcome back in.
/// Every attempt starts with a fresh fetch; a failed fetch or a failed
/// write aborts the attempt, and after a backoff the whole attempt
/// restarts from the fetch. An attempt whose every write succeeds — or
/// that fetches nothing at all — finishes the event. Retries are not
/// capped: only success (or a caller that stops driving the machine) ends
/// the loop.
pub struct Reconciliation {
    old_addr: Address,
    new_addr: Address,
    pending: Vec<DNSRecord>,
}

impl Reconciliation {
    /// The stale address this reconciliation moves records away from.
    pub closed spec fn old_address(&self) -> Address {
        self.old_addr
    }

    /// The fresh address this reconciliation moves records to.
    pub closed spec fn new_address(&self) -> Address {
        self.new_addr
    }

    /// The records fetched in the current attempt and not yet written, in
    /// fetch order.
    pub closed spec fn pending_records(&self) -> Seq<DNSRecordV> {
        self.pending.deep_view()
    }

    /// A reconciliation for one observed change. The first step is always
    /// a fetch.
    pub fn new(old_addr: Address, new_addr: Address) -> (m: Reconciliation)
        ensures
            m.old_address() == old_addr,
            m.new_address() == new_addr,
            m.pending_records() == Seq::<DNSRecordV>::empty(),
    {
        let m = Reconciliation { old_addr, new_addr, pending: Vec::new() };
        proof {
            assert(m.pending_records() =~= Seq::<DNSRecordV>::empty());
        }
        m
    }

    /// How many fetched records still wait for their write.
    pub fn pending_len(&self) -> (n: usize)
        ensures
            n == self.pending_records().len(),
    {
        self.pending.len()
    }

    /// The fetch came back with `records`. An empty set means nothing
    /// still holds the stale address: the event is done without a single
    /// write. Otherwise the records are written one by one, in fetch
    /// order, starting now.
    pub fn on_fetch_success(&mut self, records: Vec<DNSRecord>) -> (step: ReconcileStep)
        ensures
            final(self).old_address() == old(self).old_address(),
            final(self).new_address() == old(self).new_address(),
            records.deep_view().len() == 0 ==> step == ReconcileStep::Done
                && final(self).pending_records() == Seq::<DNSRecordV>::empty(),
            records.deep_view().len() > 0 ==> final(self).pending_records()
                == records.deep_view() && (step matches ReconcileStep::Write(u) && u@
                == update_for(
                records.deep_view()[0],
                addr_chars(old(self).new_address()),
            )),
    {
        if records.len() == 0 {
            self.pending = records;
            ReconcileStep::Done
        } else {
            self.pending = records;
            let u = build_update(&self.pending[0], &self.new_addr);
            ReconcileStep::Write(u)
        }
    }

    /// The fetch failed. The attempt is abandoned; wait one backoff
    /// interval and start over.
    pub fn on_fetch_failure(&mut self) -> (step: ReconcileStep)
        ensures
            final(self).old_address() == old(self).old_address(),
            final(self).new_address() == old(self).new_address(),
            final(self).pending_records() == Seq::<DNSRecordV>::empty(),
            step == ReconcileStep::Backoff,
    {
        self.pending = Vec::new();
        proof {
            assert(self.pending_records() =~= Seq::<DNSRecordV>::empty());
        }
        ReconcileStep::Backoff
    }

    /// The pending write succeeded. The next pending record is written,
    /// in fetch order; when none is left the event has converged.
    pub fn on_write_success(&mut self) -> (step: ReconcileStep)
        requires
            old(self).pending_records().len() > 0,
        ensures
            final(self).old_address() == old(self).old_address(),
            final(self).new_address() == old(self).new_address(),
            final(self).pending_records() == old(self).pending_records().drop_first(),
            old(self).pending_records().len() == 1 ==> step == ReconcileStep::Done,
            old(self).pending_records().len() > 1 ==> (step matches ReconcileStep::Write(u) && u@
                == update_for(
                old(self).pending_records()[1],
                addr_chars(old(self).new_address()),
            )),
    {
        self.pending.remove(0);
        proof {
            assert(self.pending.deep_view() =~= old(self).pending_records().drop_first());
        }
        if self.pending.len() == 0 {
            ReconcileStep::Done
        } else {
            let u = build_update(&self.pending[0], &self.new_addr);
            ReconcileStep::Write(u)
        }
    }

    /// The pending write failed. The attempt is abandoned — no further
    /// record of it is written — and after one backoff interval the whole
    /// attempt restarts with a fresh fetch; records already written keep
    /// their new content and re-updating them is harmless.
    pub fn on_write_failure(&mut self) -> (step: ReconcileStep)
        ensures
            final(self).old_address() == old(self).old_address(),
            final(self).new_address() == old(self).new_address(),
            final(self).pending_records() == Seq::<DNSRecordV>::empty(),
            step == ReconcileStep::Backoff,
    {
        self.pending = Vec::new();
        proof {
            assert(self.pending_records() =~= Seq::<DNSRecordV>::empty());
        }
        ReconcileStep::Backoff
    }

    /// The backoff interval has elapsed: start the next attempt with a
    /// fresh fetch.
    pub fn on_backoff_elapsed(&mut self) -> (step: ReconcileStep)
        ensures
            final(self).old_address() == old(self).old_address(),
            final(self).new_address() == old(self).new_address(),
            final(self).pending_records() == old(self).pending_records(),
            step == ReconcileStep::Fetch,
    {
        ReconcileStep::Fetch
    }
}

/// The store after the first `j` matched records of one successful
/// attempt have been written: those records are retargeted, everything
/// else is untouched.
spec fn partially_converged(
    store0: Seq<DNSRecordV>,
    oldcs: Seq<char>,
    newcs: Seq<char>,
    j: int,
) -> Seq<DNSRecordV> {
    Seq::new(
        store0.len(),
        |i: int|
            if store0[i].content == oldcs && (exists|jj: int|
                0 <= jj < j && (#[trigger] matching(store0, oldcs)[jj]).id == store0[i].id) {
                retargeted(store0[i], newcs)
            } else {
                store0[i]
            },
    )
}

/// Writing the `j`-th matched record's update advances the partially
/// converged store by one record.
proof fn lemma_write_step(store0: Seq<DNSRecordV>, oldcs: Seq<char>, newcs: Seq<char>, j: int)
    requires
        unique_ids(store0),
        0 <= j < matching(store0, oldcs).len(),
    ensures
        store_updated(
            partially_converged(store0, oldcs, newcs, j),
            update_for(matching(store0, oldcs)[j], newcs),
        ) == partially_converged(store0, oldcs, newcs, j + 1),
{
    lemma_matching_sound(store0, oldcs);
    lemma_matching_unique_ids(store0, oldcs);
    let pend = matching(store0, oldcs);
    let u = update_for(pend[j], newcs);
    let cur = partially_converged(store0, oldcs, newcs, j);
    let next = partially_converged(store0, oldcs, newcs, j + 1);
    let i0 = choose|i: int| 0 <= i < store0.len() && store0[i] == pend[j];
    assert(store0[i0] == pend[j]);
    assert forall|i: int| 0 <= i < store0.len() implies store_updated(cur, u)[i] == next[i] by {
        assert(cur[i].id == store0[i].id);
        if store0[i].id == pend[j].id {
            assert(i == i0);
            assert(store0[i] == pend[j]);
            assert(store0[i].content == oldcs);
            if exists|k: int| 0 <= k < j && (#[trigger] pend[k]).id == store0[i].id {
                let k = choose|k: int| 0 <= k < j && (#[trigger] pend[k]).id == store0[i].id;
                assert(pend[k].id == pend[j].id);
                assert(false);
            }
            assert(cur[i] == store0[i]);
            assert(store_updated(cur, u)[i] == record_updated(store0[i], u));
            assert(record_updated(store0[i], u) == retargeted(store0[i], newcs));
            assert(pend[j].id == store0[i].id);
            assert(next[i] == retargeted(store0[i], newcs));
        } else {
            assert(cur[i].id != u.id);
            assert(store_updated(cur, u)[i] == cur[i]);
            assert forall|k: int|
                0 <= k < j + 1 && (#[trigger] pend[k]).id == store0[i].id implies k < j by {}
            assert(next[i] == cur[i]);
        }
    }
    assert(store_updated(cur, u) =~= next);
}

/// Once every matched record of an attempt is written, the store is the
/// converged one.
proof fn lemma_fully_converged(store0: Seq<DNSRecordV>, oldcs: Seq<char>, newcs: Seq<char>)
    ensures
        partially_converged(store0, oldcs, newcs, matching(store0, oldcs).len() as int)
            == converged(store0, oldcs, newcs),
{
    lemma_matching_complete(store0, oldcs);
    let pend = matching(store0, oldcs);
    let j = pend.len() as int;
    assert forall|i: int| 0 <= i < store0.len() implies partially_converged(
        store0,
        oldcs,
        newcs,
        j,
    )[i] == converged(store0, oldcs, newcs)[i] by {
        if store0[i].content == oldcs {
            let k = choose|k: int| 0 <= k < pend.len() && pend[k] == store0[i];
            assert(pend[k].id == store0[i].id);
        }
    }
    assert(partially_converged(store0, oldcs, newcs, j) =~= converged(store0, oldcs, newcs));
}

/// What one in-memory reconciliation run amounted to: how many attempts
/// it took, and how many fetch and write calls it made in all.
#[derive(Clone, Copy, Debug, PartialEq, Eq, Structural)]
pub struct ReconcileStats {
    pub attempts: u64,
    pub fetches: u64,
    pub writes: u64,
}

/// Runs one `AddressChanged` reconciliation to convergence against an
/// in-memory record store whose write calls fail the first
/// `fail_first_writes` times and succeed from then on.
///
/// However many writes fail at first, the store converges: afterwards
/// every record that held the old address holds the new one and no other
/// record changed at all. With nothing to do the run makes one fetch and
/// no write; otherwise each failed write costs one whole attempt (one
/// fetch, one write) and the last attempt writes every matching record.
pub fn reconcile_with_store(
    store: &mut Vec<DNSRecord>,
    old_addr: Address,
    new_addr: Address,
    fail_first_writes: u64,
) -> (stats: ReconcileStats)
    requires
        unique_ids(old(store).deep_view()),
        fail_first_writes + old(store)@.len() < u64::MAX,
    ensures
        final(store).deep_view() == converged(
            old(store).deep_view(),
            addr_chars(old_addr),
            addr_chars(new_addr),
        ),
        matching(old(store).deep_view(), addr_chars(old_addr)).len() == 0 ==> stats == (
        ReconcileStats { attempts: 1, fetches: 1, writes: 0 }) && final(store).deep_view() == old(
            store,
        ).deep_view(),
        matching(old(store).deep_view(), addr_chars(old_addr)).len() > 0 ==> stats.attempts
            == fail_first_writes + 1 && stats.fetches == fail_first_writes + 1 && stats.writes
            == fail_first_writes + matching(old(store).deep_view(), addr_chars(old_addr)).len(),
{
    let ghost store0 = store.deep_view();
    let ghost oldcs = addr_chars(old_addr);
    let ghost newcs = addr_chars(new_addr);
    let oldc = old_addr.to_ipv4_string();
    let ghost pend = matching(store0, oldcs);
    proof {
        lemma_matching_sound(store0, oldcs);
        lemma_matching_complete(store0, oldcs);
        lemma_matching_unique_ids(store0, oldcs);
    }
    let mut machine = Reconciliation::new(old_addr, new_addr);
    let mut attempts: u64 = 1;
    let mut fetches: u64 = 1;
    let mut writes: u64 = 0;
    let fetched = records_with_content(store, &oldc);
    let mut step = machine.on_fetch_success(fetched);
    if machine.pending_len() == 0 {
        proof {
            assert forall|i: int| 0 <= i < store0.len() implies converged(store0, oldcs, newcs)[i]
                == store0[i] by {
                if store0[i].content == oldcs {
                    assert(pend.len() > 0);
                }
            }
            assert(converged(store0, oldcs, newcs) =~= store0);
        }
        return ReconcileStats { attempts, fetches, writes };
    }
    let mut budget = fail_first_writes;
    while budget > 0
        invariant
            store.deep_view() == store0,
            unique_ids(store0),
            oldc@ == oldcs,
            newcs == addr_chars(new_addr),
            pend == matching(store0, oldcs),
            pend.len() > 0,
            machine.old_address() == old_addr,
            machine.new_address() == new_addr,
            machine.pending_records() == pend,
            step matches ReconcileStep::Write(u) && u@ == update_for(pend[0], newcs),
            budget <= fail_first_writes,
            fail_first_writes + store0.len() < u64::MAX,
            attempts == fail_first_writes - budget + 1,
            fetches == attempts,
            writes == fail_first_writes - budget,
        decreases budget,
    {
        writes = writes + 1;
        budget = budget - 1;
        let _backoff_step = machine.on_write_failure();
        let _fetch_step = machine.on_backoff_elapsed();
        let refetched = records_with_content(store, &oldc);
        fetches = fetches + 1;
        attempts = attempts + 1;
        step = machine.on_fetch_success(refetched);
    }
    let mut j: usize = 0;
    proof {
        assert(store.deep_view() =~= partially_converged(store0, oldcs, newcs, 0));
        assert(pend.skip(0) =~= pend);
    }
    while machine.pending_len() > 0
        invariant
            0 <= j <= pend.len(),
            unique_ids(store0),
            oldcs == addr_chars(old_addr),
            newcs == addr_chars(new_addr),
            pend == matching(store0, oldcs),
            pend.len() <= store0.len(),
            machine.old_address() == old_addr,
            machine.new_address() == new_addr,
            machine.pending_records() == pend.skip(j as int),
            j < pend.len() ==> (step matches ReconcileStep::Write(u) && u@ == update_for(
                pend[j as int],
                newcs,
            )),
            store.deep_view() == partially_converged(store0, oldcs, newcs, j as int),
            writes == fail_first_writes + j,
            fail_first_writes + store0.len() < u64::MAX,
        decreases pend.len() - j,
    {
        let u = match step {
            ReconcileStep::Write(w) => w,
            _ => unreached(),
        };
        apply_update(store, &u);
        writes = writes + 1;
        step = machine.on_write_success();
        proof {
            let jj = j as int;
            assert(pend.skip(jj).drop_first() =~= pend.skip(jj + 1));
            lemma_write_step(store0, oldcs, newcs, jj);
            assert(store.deep_view().len() == store0.len());
            assert(vstd::std_specs::vec::spec_vec_len(store) == store@.len());
            assert(store@.len() == store.deep_view().len());
            assert(j < pend.len() <= store0.len());
        }
        j = j + 1;
    }
    proof {
        assert(j == pend.len());
        lemma_fully_converged(store0, oldcs, newcs);
    }
    ReconcileStats { attempts, fetches, writes }
}

} // verus!
