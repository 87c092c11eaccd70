//! The in-memory registry of running tunnels, keyed by domain.
use vstd::prelude::*;

use crate::protocol::{TunnelStatusResult, TunnelType};
use crate::text::str_eq;

verus! {

/// A running tunnel agent.
#[derive(Debug)]
pub struct TunnelProcess {
    pub domain: String,
    pub public_url: String,
    pub tunnel_type: TunnelType,
    pub pid: u32,
}

/// At most one record per domain.
pub struct TunnelRegistry {
    tunnels: Vec<TunnelProcess>,
}

/// How many records of `ts` are for `domain`.
pub open spec fn count_for(ts: Seq<TunnelProcess>, domain: Seq<char>) -> nat
    decreases ts.len(),
{
    if ts.len() == 0 {
        0
    } else {
        count_for(ts.drop_last(), domain) + if ts.last().domain@ == domain {
            1nat
        } else {
            0nat
        }
    }
}

pub open spec fn domains_unique(ts: Seq<TunnelProcess>) -> bool {
    forall|i: int, j: int|
        0 <= i < ts.len() && 0 <= j < ts.len() && i != j ==> (#[trigger] ts[i]).domain@ != (
        #[trigger] ts[j]).domain@
}

pub open spec fn has_domain(ts: Seq<TunnelProcess>, domain: Seq<char>) -> bool {
    exists|i: int| 0 <= i < ts.len() && (#[trigger] ts[i]).domain@ == domain
}

/// With unique domains, a domain has one record if present and none otherwise.
pub proof fn lemma_count_unique(ts: Seq<TunnelProcess>, domain: Seq<char>)
    requires
        domains_unique(ts),
    ensures
        count_for(ts, domain) == if has_domain(ts, domain) {
            1nat
        } else {
            0nat
        },
    decreases ts.len(),
{
    if ts.len() > 0 {
        let init = ts.drop_last();
        assert(domains_unique(init)) by {
            assert forall|i: int, j: int|
                0 <= i < init.len() && 0 <= j < init.len() && i != j implies (#[trigger] init[i]).domain@
                != (#[trigger] init[j]).domain@ by {
                assert(init[i] == ts[i] && init[j] == ts[j]);
            }
        }
        lemma_count_unique(init, domain);
        if has_domain(init, domain) {
            let i = choose|i: int| 0 <= i < init.len() && (#[trigger] init[i]).domain@ == domain;
            assert(ts[i] == init[i]);
            assert(ts.last() == ts[ts.len() - 1]);
            assert(has_domain(ts, domain));
        } else if ts.last().domain@ == domain {
            assert(ts[ts.len() - 1].domain@ == domain);
        } else {
            assert forall|i: int| 0 <= i < ts.len() implies (#[trigger] ts[i]).domain@ != domain by {
                if i < ts.len() - 1 {
                    assert(ts[i] == init[i]);
                }
            }
        }
    }
}

impl TunnelRegistry {
    pub closed spec fn records(&self) -> Seq<TunnelProcess> {
        self.tunnels@
    }

    pub open spec fn wf(&self) -> bool {
        domains_unique(self.records())
    }

    pub fn new() -> (r: Self)
        ensures
            r.wf(),
            r.records().len() == 0,
    {
        TunnelRegistry { tunnels: Vec::new() }
    }

    pub fn len(&self) -> (r: usize)
        ensures
            r == self.records().len(),
    {
        self.tunnels.len()
    }

    fn index_of(&self, domain: &str) -> (r: Option<usize>)
        ensures
            match r {
                Some(i) => i < self.records().len() && self.records()[i as int].domain@ == domain@,
                None => !has_domain(self.records(), domain@),
            },
    {
        let mut i: usize = 0;
        while i < self.tunnels.len()
            invariant
                i <= self.tunnels.len(),
                forall|k: int| 0 <= k < i ==> (#[trigger] self.tunnels@[k]).domain@ != domain@,
            decreases self.tunnels.len() - i,
        {
            if str_eq(self.tunnels[i].domain.as_str(), domain) {
                return Some(i);
            }
            i = i + 1;
        }
        None
    }

    /// The record of `domain`, if any.
    pub fn get(&self, domain: &str) -> (r: Option<&TunnelProcess>)
        ensures
            match r {
                Some(p) => p.domain@ == domain@ && self.records().contains(*p),
                None => !has_domain(self.records(), domain@),
            },
    {
        match self.index_of(domain) {
            Some(i) => Some(&self.tunnels[i]),
            None => None,
        }
    }

    /// Takes out the record of `domain`; the others stay, in order.
    pub fn remove(&mut self, domain: &str) -> (r: Option<TunnelProcess>)
        requires
            old(self).wf(),
        ensures
            final(self).wf(),
            !has_domain(final(self).records(), domain@),
            match r {
                Some(p) => p.domain@ == domain@ && old(self).records().contains(p)
                    && final(self).records().len() + 1 == old(self).records().len(),
                None => !has_domain(old(self).records(), domain@) && final(self).records()
                    == old(self).records(),
            },
            forall|p: TunnelProcess|
                p.domain@ != domain@ ==> (old(self).records().contains(p)
                    <==> #[trigger] final(self).records().contains(p)),
    {
        match self.index_of(domain) {
            Some(i) => {
                let ghost before = self.tunnels@;
                let p = self.tunnels.remove(i);
                assert(self.tunnels@ =~= before.remove(i as int));
                assert forall|a: int, b: int|
                    0 <= a < self.tunnels@.len() && 0 <= b < self.tunnels@.len() && a != b implies (
                    #[trigger] self.tunnels@[a]).domain@ != (#[trigger] self.tunnels@[b]).domain@ by {
                    let a2 = if a < i { a } else { a + 1 };
                    let b2 = if b < i { b } else { b + 1 };
                    assert(self.tunnels@[a] == before[a2]);
                    assert(self.tunnels@[b] == before[b2]);
                }
                assert forall|k: int| 0 <= k < self.tunnels@.len() implies (
                #[trigger] self.tunnels@[k]).domain@ != domain@ by {
                    let k2 = if k < i { k } else { k + 1 };
                    assert(self.tunnels@[k] == before[k2]);
                    assert(k2 != i);
                }
                assert(before[i as int] == p);
                assert forall|q: TunnelProcess| q.domain@ != domain@ implies (before.contains(q)
                    <==> #[trigger] self.tunnels@.contains(q)) by {
                    if before.contains(q) {
                        let k = choose|k: int| 0 <= k < before.len() && before[k] == q;
                        assert(k != i);
                        let k2 = if k < i { k } else { k - 1 };
                        assert(self.tunnels@[k2] == q);
                    }
                    if self.tunnels@.contains(q) {
                        let k = choose|k: int| 0 <= k < self.tunnels@.len() && self.tunnels@[k] == q;
                        let k2 = if k < i { k } else { k + 1 };
                        assert(before[k2] == q);
                    }
                }
                Some(p)
            },
            None => None,
        }
    }

    /// Records `p`, replacing the record of the same domain; the replaced
    /// record is handed back so that its agent can be stopped.
    pub fn insert(&mut self, p: TunnelProcess) -> (r: Option<TunnelProcess>)
        requires
            old(self).wf(),
        ensures
            final(self).wf(),
            final(self).records().contains(p),
            count_for(final(self).records(), p.domain@) == 1,
            r matches Some(q) ==> q.domain@ == p.domain@ && old(self).records().contains(q),
            r is None ==> !has_domain(old(self).records(), p.domain@),
            forall|q: TunnelProcess|
                q.domain@ != p.domain@ ==> (old(self).records().contains(q)
                    <==> #[trigger] final(self).records().contains(q)),
    {
        let old_record = self.remove(p.domain.as_str());
        let ghost mid = self.tunnels@;
        self.tunnels.push(p);
        assert(self.tunnels@ =~= mid.push(p));
        assert(self.tunnels@[mid.len() as int] == p);
        assert forall|a: int, b: int|
            0 <= a < self.tunnels@.len() && 0 <= b < self.tunnels@.len() && a != b implies (
            #[trigger] self.tunnels@[a]).domain@ != (#[trigger] self.tunnels@[b]).domain@ by {
            if a < mid.len() && b < mid.len() {
                assert(self.tunnels@[a] == mid[a] && self.tunnels@[b] == mid[b]);
            } else if a < mid.len() {
                assert(self.tunnels@[a] == mid[a]);
            } else {
                assert(self.tunnels@[b] == mid[b]);
            }
        }
        assert forall|q: TunnelProcess| q.domain@ != p.domain@ implies (mid.contains(q)
            <==> #[trigger] self.tunnels@.contains(q)) by {
            if self.tunnels@.contains(q) {
                let k = choose|k: int| 0 <= k < self.tunnels@.len() && self.tunnels@[k] == q;
                assert(k < mid.len());
                assert(mid[k] == q);
            }
            if mid.contains(q) {
                let k = choose|k: int| 0 <= k < mid.len() && mid[k] == q;
                assert(self.tunnels@[k] == q);
            }
        }
        proof {
            lemma_count_unique(self.tunnels@, p.domain@);
        }
        old_record
    }

    /// Empties the registry, handing back every record.
    pub fn drain(&mut self) -> (r: Vec<TunnelProcess>)
        ensures
            r@ == old(self).records(),
            final(self).wf(),
            final(self).records().len() == 0,
    {
        let mut out: Vec<TunnelProcess> = Vec::new();
        std::mem::swap(&mut out, &mut self.tunnels);
        out
    }

    /// Keeps only the records whose agent is alive; `alive[k]` is the
    /// liveness of the k-th record. Returns the records dropped.
    pub fn retain_alive(&mut self, alive: &Vec<bool>) -> (r: Vec<TunnelProcess>)
        requires
            old(self).wf(),
            alive@.len() == old(self).records().len(),
        ensures
            final(self).wf(),
            forall|p: TunnelProcess|
                #[trigger] final(self).records().contains(p) ==> old(self).records().contains(p),
            forall|k: int|
                0 <= k < alive@.len() && alive@[k] ==> final(self).records().contains(
                    #[trigger] old(self).records()[k],
                ),
            forall|k: int|
                0 <= k < alive@.len() && !alive@[k] ==> r@.contains(
                    #[trigger] old(self).records()[k],
                ),
            forall|k: int|
                0 <= k < alive@.len() && !alive@[k] ==> !final(self).records().contains(
                    #[trigger] old(self).records()[k],
                ),
    {
        let ghost before = self.tunnels@;
        let mut all: Vec<TunnelProcess> = Vec::new();
        std::mem::swap(&mut all, &mut self.tunnels);
        let mut kept: Vec<TunnelProcess> = Vec::new();
        let mut dead: Vec<TunnelProcess> = Vec::new();
        let ghost mut kept_idx: Seq<int> = seq![];
        let mut k: usize = 0;
        let n = all.len();
        while all.len() > 0
            invariant
                all@.len() + k == n,
                n == before.len(),
                alive@.len() == n,
                domains_unique(before),
                all@ == before.subrange(0, all@.len() as int),
                forall|p: TunnelProcess| #[trigger] kept@.contains(p) ==> before.contains(p),
                forall|m: int| all@.len() <= m < n && alive@[m] ==> kept@.contains(#[trigger] before[m]),
                forall|m: int| all@.len() <= m < n && !alive@[m] ==> dead@.contains(#[trigger] before[m]),
                kept_idx.len() == kept@.len(),
                forall|a: int| 0 <= a < kept_idx.len() ==> all@.len() <= #[trigger] kept_idx[a] < n
                    && kept@[a] == before[kept_idx[a]],
                forall|a: int, b: int| 0 <= a < b < kept_idx.len() ==> #[trigger] kept_idx[a] > #[trigger] kept_idx[b],
                forall|a: int| 0 <= a < kept_idx.len() ==> alive@[#[trigger] kept_idx[a]],
            decreases all@.len(),
        {
            let i = all.len() - 1;
            let ghost idx = i as int;
            let p = all.pop().unwrap();
            assert(p == before[idx]);
            assert(all@ =~= before.subrange(0, all@.len() as int));
            let ghost old_kept = kept@;
            let ghost old_dead = dead@;
            if alive[i] {
                kept.push(p);
                proof {
                    kept_idx = kept_idx.push(idx);
                }
                assert(kept@[kept@.len() - 1] == p);
                assert forall|q: TunnelProcess| #[trigger] kept@.contains(q) implies before.contains(q) by {
                    let a = choose|a: int| 0 <= a < kept@.len() && kept@[a] == q;
                    if a < old_kept.len() {
                        assert(old_kept[a] == q);
                        assert(old_kept.contains(q));
                    } else {
                        assert(before[idx] == q);
                    }
                }
                assert forall|m: int| all@.len() <= m < n && alive@[m] implies kept@.contains(#[trigger] before[m]) by {
                    if m != idx {
                        assert(old_kept.contains(before[m]));
                        let a = choose|a: int| 0 <= a < old_kept.len() && old_kept[a] == before[m];
                        assert(kept@[a] == before[m]);
                    }
                }
                assert forall|m: int| all@.len() <= m < n && !alive@[m] implies dead@.contains(#[trigger] before[m]) by {
                    assert(m != idx);
                }
            } else {
                dead.push(p);
                assert(dead@[dead@.len() - 1] == p);
                assert forall|m: int| all@.len() <= m < n && !alive@[m] implies dead@.contains(#[trigger] before[m]) by {
                    if m != idx {
                        assert(old_dead.contains(before[m]));
                        let a = choose|a: int| 0 <= a < old_dead.len() && old_dead[a] == before[m];
                        assert(dead@[a] == before[m]);
                    }
                }
                assert forall|m: int| all@.len() <= m < n && alive@[m] implies kept@.contains(#[trigger] before[m]) by {
                    assert(m != idx);
                }
            }
            k = k + 1;
        }
        assert forall|a: int, b: int|
            0 <= a < kept@.len() && 0 <= b < kept@.len() && a != b implies (#[trigger] kept@[a]).domain@
            != (#[trigger] kept@[b]).domain@ by {
            assert(kept_idx[a] != kept_idx[b]) by {
                if a < b {
                    assert(kept_idx[a] > kept_idx[b]);
                } else {
                    assert(kept_idx[b] > kept_idx[a]);
                }
            }
        }
        assert forall|k: int| 0 <= k < alive@.len() && !alive@[k] implies !kept@.contains(
            #[trigger] before[k],
        ) by {
            if kept@.contains(before[k]) {
                let a = choose|a: int| 0 <= a < kept@.len() && kept@[a] == before[k];
                assert(before[kept_idx[a]] == before[k]);
                assert(alive@[kept_idx[a]]);
            }
        }
        self.tunnels = kept;
        dead
    }
}

/// What `tunnel_status` reports for the record of a domain (if any) and
/// the liveness of its agent.
pub fn tunnel_status_of(record: Option<&TunnelProcess>, alive: bool) -> (r: TunnelStatusResult)
    ensures
        record is None ==> !r.active && r.public_url is None && r.tunnel_type is None
            && r.error is None,
        record matches Some(p) ==> {
            &&& r.active == alive
            &&& (alive ==> (r.public_url matches Some(u) && u@ == p.public_url@))
            &&& (alive ==> r.tunnel_type == Some(p.tunnel_type))
            &&& (!alive ==> r.tunnel_type is None)
            &&& (!alive ==> r.public_url is None)
            &&& (alive ==> r.error is None)
            &&& (!alive ==> (r.error matches Some(e) && e@ == "Tunnel process is no longer running"@))
        },
{
    match record {
        Some(p) => {
            if alive {
                TunnelStatusResult {
                    active: true,
                    public_url: Some(p.public_url.clone()),
                    tunnel_type: Some(p.tunnel_type.duplicate()),
                    error: None,
                }
            } else {
                TunnelStatusResult {
                    active: false,
                    public_url: None,
                    tunnel_type: None,
                    error: Some(String::from_str("Tunnel process is no longer running")),
                }
            }
        },
        None => TunnelStatusResult { active: false, public_url: None, tunnel_type: None, error: None },
    }
}

/// In a well-formed registry a recorded tunnel is the only one of its
/// domain; with `insert`, which keeps the registry well formed and records
/// the new tunnel, starting a tunnel for a domain that already has one
/// leaves exactly one record, hence one agent, for that domain.
pub proof fn lemma_one_tunnel_per_domain(after: TunnelRegistry, p: TunnelProcess)
    requires
        after.wf(),
        after.records().contains(p),
    ensures
        count_for(after.records(), p.domain@) == 1,
{
    lemma_count_unique(after.records(), p.domain@);
    let k = choose|k: int| 0 <= k < after.records().len() && after.records()[k] == p;
    assert(has_domain(after.records(), p.domain@));
}


/// Relies on `uuid::Uuid::new_v4` for a random identifier, written through
/// the crate's `Display` in the hyphenated form of 36 characters.
#[verifier::external_body]
fn random_uuid() -> (r: String)
    ensures
        r@.len() == 36,
{
    uuid::Uuid::new_v4().to_string()
}

/// A fresh identifier for a started tunnel: `tunnel-` and a random UUID.
pub fn new_tunnel_id() -> (r: String)
    ensures
        r@.len() == 43,
        r@.take(7) == "tunnel-"@,
{
    let mut id = String::from_str("tunnel-");
    let u = random_uuid();
    id.append(u.as_str());
    proof {
        reveal_strlit("tunnel-");
    }
    assert(id@.take(7) =~= "tunnel-"@);
    id
}

impl TunnelRegistry {
    /// The agents' process ids, in record order.
    pub fn pids(&self) -> (r: Vec<u32>)
        ensures
            r@.len() == self.records().len(),
            forall|k: int| 0 <= k < r@.len() ==> r@[k] == (#[trigger] self.records()[k]).pid,
    {
        let mut r: Vec<u32> = Vec::new();
        let mut i: usize = 0;
        while i < self.tunnels.len()
            invariant
                i <= self.tunnels.len(),
                r@.len() == i,
                forall|k: int| 0 <= k < i ==> r@[k] == (#[trigger] self.tunnels@[k]).pid,
            decreases self.tunnels.len() - i,
        {
            r.push(self.tunnels[i].pid);
            i = i + 1;
        }
        r
    }

    /// The records, in order, for listing.
    pub fn records_ref(&self) -> (r: &Vec<TunnelProcess>)
        ensures
            r@ == self.records(),
    {
        &self.tunnels
    }
}

} // verus!
