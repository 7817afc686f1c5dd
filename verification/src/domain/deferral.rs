//! Deferred promotion tickets and their status transitions.

use vstd::prelude::*;

use super::PromoteError;
use crate::text::{cat, cat3, owned};

verus! {

/// Status of a deferred promotion.
#[derive(Debug, Clone, Copy, PartialEq, Eq, Structural)]
pub enum DeferralStatus {
    Pending,
    Confirmed,
    Rejected,
}

/// What kind of promotion is being deferred.
#[derive(Debug, Clone, Copy, PartialEq, Eq, Structural)]
pub enum DeferralKind {
    /// Publish to a registry stage.
    Registry,
    /// Merge a branch forward in the branch pipeline.
    Branch,
}

impl Default for DeferralKind {
    fn default() -> (r: Self)
        ensures
            r == DeferralKind::Registry,
    {
        DeferralKind::Registry
    }
}

/// A deferred promotion ticket.
#[derive(Debug)]
pub struct Deferral {
    pub ticket: String,
    pub crate_name: String,
    pub version: String,
    pub from_stage: String,
    pub to_stage: String,
    pub status: DeferralStatus,
    pub kind: DeferralKind,
    pub deferred_at: String,
    pub source_hash: String,
    pub command: Vec<String>,
    pub reason: String,
    pub pr_number: Option<u64>,
}

/// How `{:?}` writes a status.
pub open spec fn status_name(s: DeferralStatus) -> Seq<char> {
    match s {
        DeferralStatus::Pending => "Pending"@,
        DeferralStatus::Confirmed => "Confirmed"@,
        DeferralStatus::Rejected => "Rejected"@,
    }
}

/// How `{:?}` writes a status.
pub fn status_name_exec(s: DeferralStatus) -> (r: &'static str)
    ensures
        r@ == status_name(s),
{
    match s {
        DeferralStatus::Pending => "Pending",
        DeferralStatus::Confirmed => "Confirmed",
        DeferralStatus::Rejected => "Rejected",
    }
}

/// The message refusing a transition out of a settled status.
pub open spec fn settled_message(ticket: Seq<char>, status: DeferralStatus) -> Seq<char> {
    "deferral '"@ + ticket + "' is already "@ + status_name(status)
}

/// The ticket identifier for a crate deferred at a given timestamp.
pub open spec fn spec_ticket_id(timestamp: Seq<char>, crate_name: Seq<char>) -> Seq<char> {
    "d-"@ + timestamp + "-"@ + crate_name
}

/// Local time formatted with a chrono format string
/// (`chrono::Local::now().format(fmt)`). Nothing is claimed of the text:
/// it depends on the clock and the machine's time zone. Only the
/// timestamp format of tickets is admitted: formatting with an invalid
/// format string panics when the text is written.
#[verifier::external_body]
pub(crate) fn local_now(fmt: &str) -> String
    requires
        fmt@ == "%Y%m%d.%H%M%S"@,
{
    chrono::Local::now().format(fmt).to_string()
}

impl Deferral {
    /// All fields but `status` and `reason` agree.
    pub open spec fn same_ticket(&self, other: &Deferral) -> bool {
        &&& self.ticket == other.ticket
        &&& self.crate_name == other.crate_name
        &&& self.version == other.version
        &&& self.from_stage == other.from_stage
        &&& self.to_stage == other.to_stage
        &&& self.kind == other.kind
        &&& self.deferred_at == other.deferred_at
        &&& self.source_hash == other.source_hash
        &&& self.command == other.command
        &&& self.pr_number == other.pr_number
    }

    /// Ticket identifier `d-<timestamp>-<crate>` for a given timestamp.
    pub fn ticket_id_at(timestamp: &str, crate_name: &str) -> (r: String)
        ensures
            r@ == spec_ticket_id(timestamp@, crate_name@),
    {
        let a = cat3("d-", timestamp, "-");
        cat(a.as_str(), crate_name)
    }

    /// Generate a ticket ID from the current local time
    /// (`%Y%m%d.%H%M%S`) and the crate name.
    pub fn ticket_id(crate_name: &str) -> (r: String)
        ensures
            exists|ts: Seq<char>| r@ == spec_ticket_id(ts, crate_name@),
    {
        let ts = local_now("%Y%m%d.%H%M%S");
        Self::ticket_id_at(ts.as_str(), crate_name)
    }

    /// Moves `self` to `target` with `reason`, provided it is pending.
    fn settle(self, target: DeferralStatus, reason: &str) -> (r: Result<Self, PromoteError>)
        ensures
            self.status == DeferralStatus::Pending ==> (r matches Ok(d) && d.status == target
                && d.reason@ == reason@ && d.same_ticket(&self)),
            self.status != DeferralStatus::Pending ==> (r matches Err(PromoteError::Other(m))
                && m@ == settled_message(self.ticket@, self.status)),
    {
        if self.status != DeferralStatus::Pending {
            let a = cat3("deferral '", self.ticket.as_str(), "' is already ");
            return Err(PromoteError::Other(cat(a.as_str(), status_name_exec(self.status))));
        }
        let mut d = self;
        d.status = target;
        d.reason = owned(reason);
        Ok(d)
    }

    /// Transition a pending deferral to confirmed. Returns an error
    /// if the deferral is not in `Pending` status.
    pub fn into_confirmed(self, reason: &str) -> (r: Result<Self, PromoteError>)
        ensures
            self.status == DeferralStatus::Pending ==> (r matches Ok(d) && d.status
                == DeferralStatus::Confirmed && d.reason@ == reason@ && d.same_ticket(&self)),
            self.status != DeferralStatus::Pending ==> (r matches Err(PromoteError::Other(m))
                && m@ == settled_message(self.ticket@, self.status)),
    {
        self.settle(DeferralStatus::Confirmed, reason)
    }

    /// Transition a pending deferral to rejected. Returns an error
    /// if the deferral is not in `Pending` status.
    pub fn into_rejected(self, reason: &str) -> (r: Result<Self, PromoteError>)
        ensures
            self.status == DeferralStatus::Pending ==> (r matches Ok(d) && d.status
                == DeferralStatus::Rejected && d.reason@ == reason@ && d.same_ticket(&self)),
            self.status != DeferralStatus::Pending ==> (r matches Err(PromoteError::Other(m))
                && m@ == settled_message(self.ticket@, self.status)),
    {
        self.settle(DeferralStatus::Rejected, reason)
    }
}

/// The result of settling a ticket: the outcome `into_confirmed` or
/// `into_rejected` guarantees.
pub open spec fn settles_to(
    before: Deferral,
    after: Deferral,
    target: DeferralStatus,
    reason: Seq<char>,
) -> bool {
    before.status == DeferralStatus::Pending && after.status == target && after.reason@ == reason
        && after.same_ticket(&before)
}

/// Settling is final: once a pending ticket has been confirmed or
/// rejected, neither transition applies to it again, and the ticket's
/// identity is never changed by a transition.
pub proof fn lemma_settled_is_final(
    before: Deferral,
    after: Deferral,
    target: DeferralStatus,
    reason: Seq<char>,
)
    requires
        target != DeferralStatus::Pending,
        settles_to(before, after, target, reason),
    ensures
        after.status != DeferralStatus::Pending,
        after.ticket == before.ticket,
        forall|later: Deferral, t: DeferralStatus, r: Seq<char>|
            !#[trigger] settles_to(after, later, t, r),
{
}

impl Clone for Deferral {
    fn clone(&self) -> (r: Self)
        ensures
            r.ticket == self.ticket,
            r.crate_name == self.crate_name,
            r.version == self.version,
            r.from_stage == self.from_stage,
            r.to_stage == self.to_stage,
            r.status == self.status,
            r.kind == self.kind,
            r.deferred_at == self.deferred_at,
            r.source_hash == self.source_hash,
            r.command@ == self.command@,
            r.reason == self.reason,
            r.pr_number == self.pr_number,
    {
        Deferral {
            ticket: self.ticket.clone(),
            crate_name: self.crate_name.clone(),
            version: self.version.clone(),
            from_stage: self.from_stage.clone(),
            to_stage: self.to_stage.clone(),
            status: self.status,
            kind: self.kind,
            deferred_at: self.deferred_at.clone(),
            source_hash: self.source_hash.clone(),
            command: crate::domain::depgraph::clone_strings(&self.command),
            reason: self.reason.clone(),
            pr_number: self.pr_number,
        }
    }
}

/// The pending tickets among `all`, in order.
pub open spec fn pending_of(all: Seq<Deferral>) -> Seq<Deferral>
    decreases all.len(),
{
    if all.len() == 0 {
        Seq::empty()
    } else if all.last().status == DeferralStatus::Pending {
        pending_of(all.drop_last()).push(all.last())
    } else {
        pending_of(all.drop_last())
    }
}

/// Keeps the tickets that are still pending, in order.
pub fn pending_only(all: Vec<Deferral>) -> (r: Vec<Deferral>)
    ensures
        r@ == pending_of(all@),
{
    let ghost v = all@;
    let mut rest = all;
    let mut r: Vec<Deferral> = Vec::new();
    let ghost mut i: int = 0;
    while rest.len() > 0
        invariant
            0 <= i <= v.len(),
            rest@ == v.subrange(i, v.len() as int),
            r@ == pending_of(v.subrange(0, i)),
        decreases rest@.len(),
    {
        let d = rest.remove(0);
        assert(v[i] == d);
        assert(v.subrange(0, i + 1).drop_last() =~= v.subrange(0, i));
        if d.status == DeferralStatus::Pending {
            r.push(d);
        }
        proof {
            i = i + 1;
            assert(rest@ =~= v.subrange(i, v.len() as int));
        }
    }
    assert(v.subrange(0, v.len() as int) =~= v);
    r
}

/// Whether text `a` sorts before `b` or with it, as `str` orders text:
/// character by character (by code point, which is also the order of
/// their UTF-8 bytes), a prefix first.
pub open spec fn text_le(a: Seq<char>, b: Seq<char>) -> bool
    decreases a.len(),
{
    if a.len() == 0 {
        true
    } else if b.len() == 0 {
        false
    } else if a[0] == b[0] {
        text_le(a.drop_first(), b.drop_first())
    } else {
        (a[0] as int) < (b[0] as int)
    }
}

/// Of two texts, one sorts before or with the other.
proof fn lemma_text_le_total(a: Seq<char>, b: Seq<char>)
    ensures
        text_le(a, b) || text_le(b, a),
    decreases a.len(),
{
    if a.len() > 0 && b.len() > 0 {
        if a[0] == b[0] {
            lemma_text_le_total(a.drop_first(), b.drop_first());
        } else {
            assert((a[0] as int) != (b[0] as int));
        }
    }
}

/// See [`text_le`].
pub fn text_le_exec(a: &str, b: &str) -> (r: bool)
    ensures
        r == text_le(a@, b@),
{
    let n = a.unicode_len();
    let m = b.unicode_len();
    let mut i: usize = 0;
    assert(a@.subrange(0, n as int) =~= a@);
    assert(b@.subrange(0, m as int) =~= b@);
    while i < n && i < m
        invariant
            n == a@.len(),
            m == b@.len(),
            i <= n,
            i <= m,
            text_le(a@, b@) == text_le(a@.subrange(i as int, n as int), b@.subrange(i as int, m as int)),
        decreases n - i,
    {
        let x = a.get_char(i);
        let y = b.get_char(i);
        let ghost sa = a@.subrange(i as int, n as int);
        let ghost sb = b@.subrange(i as int, m as int);
        assert(sa[0] == x && sb[0] == y);
        if x != y {
            return (x as u32) < (y as u32);
        }
        assert(sa.drop_first() =~= a@.subrange(i + 1, n as int));
        assert(sb.drop_first() =~= b@.subrange(i + 1, m as int));
        i = i + 1;
    }
    i == n
}

/// Whether tickets are in order of `deferred_at`.
pub open spec fn sorted_by_time(s: Seq<Deferral>) -> bool {
    forall|i: int, j: int|
        0 <= i && j == i + 1 && j < s.len() ==> text_le(
            #[trigger] s[i].deferred_at@,
            #[trigger] s[j].deferred_at@,
        )
}

/// Sorts tickets by `deferred_at`, earliest first (an insertion sort).
pub fn sort_by_deferred_at(v: Vec<Deferral>) -> (r: Vec<Deferral>)
    ensures
        r@.to_multiset() == v@.to_multiset(),
        sorted_by_time(r@),
{
    let ghost v0 = v@;
    let mut rest = v;
    let mut r: Vec<Deferral> = Vec::new();
    let ghost mut done: int = 0;
    assert(v0.subrange(0, 0).to_multiset() =~= r@.to_multiset()) by {
        assert(v0.subrange(0, 0) =~= r@);
    }
    while rest.len() > 0
        invariant
            0 <= done <= v0.len(),
            rest@ == v0.subrange(done, v0.len() as int),
            r@.to_multiset() == v0.subrange(0, done).to_multiset(),
            sorted_by_time(r@),
        decreases rest@.len(),
    {
        let x = rest.remove(0);
        assert(v0[done] == x);
        let mut p = r.len();
        loop
            invariant
                p <= r@.len(),
                forall|k: int| p <= k < r@.len() ==> !text_le(#[trigger] r@[k].deferred_at@, x.deferred_at@),
            ensures
                p <= r@.len(),
                forall|k: int| p <= k < r@.len() ==> !text_le(#[trigger] r@[k].deferred_at@, x.deferred_at@),
                p == 0 || text_le(r@[p - 1].deferred_at@, x.deferred_at@),
            decreases p,
        {
            if p == 0 {
                break;
            }
            if text_le_exec(r[p - 1].deferred_at.as_str(), x.deferred_at.as_str()) {
                break;
            }
            p = p - 1;
        }
        let ghost old_r = r@;
        let ghost xk = x.deferred_at@;
        let ghost xv = x;
        r.insert(p, x);
        proof {
            assert(r@ == old_r.insert(p as int, xv));
            vstd::seq_lib::to_multiset_insert(old_r, p as int, xv);
            vstd::seq_lib::to_multiset_build(v0.subrange(0, done), xv);
            assert forall|i: int, j: int|
                0 <= i && j == i + 1 && j < r@.len() implies text_le(
                #[trigger] r@[i].deferred_at@,
                #[trigger] r@[j].deferred_at@,
            ) by {
                if j < p {
                    assert(r@[i] == old_r[i] && r@[j] == old_r[j]);
                } else if j == p {
                    assert(r@[i] == old_r[i]);
                } else if i == p {
                    assert(r@[j] == old_r[p as int]);
                    lemma_text_le_total(old_r[p as int].deferred_at@, xk);
                } else {
                    assert(r@[i] == old_r[i - 1] && r@[j] == old_r[j - 1]);
                }
            }
            assert(v0.subrange(0, done + 1) =~= v0.subrange(0, done).push(v0[done]));
            done = done + 1;
            assert(rest@ =~= v0.subrange(done, v0.len() as int));
        }
    }
    assert(v0.subrange(0, v0.len() as int) =~= v0);
    r
}

} // verus!
