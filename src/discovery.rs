use vstd::prelude::*;

verus! {

/// The longest round trip, in milliseconds, for which a probed host counts as
/// reachable.
pub const PROBE_TIMEOUT_MS: u32 = 3000;

/// The candidate that is looked up first.
pub const PRIMARY_CANDIDATE: &'static str = "elrs_rx.local";

/// The candidate that is looked up second.
pub const FALLBACK_CANDIDATE: &'static str = "elrs-rx.fritz.box";

/// What name resolution gave for one candidate hostname: its addresses in
/// text form, in the order the resolver returned them. A failed lookup gives
/// no address.
pub struct Resolution {
    pub hostname: String,
    pub addresses: Vec<String>,
}

/// One address to probe, with the candidate that first resolved to it.
pub struct ProbeTarget {
    pub hostname: String,
    pub address: String,
}

/// How one reachability probe ended.
pub enum ProbeOutcome {
    /// An echo reply came back after `rtt_ms` milliseconds.
    Reply { rtt_ms: u32 },
    /// The system's probe command ran to its end, successfully or not.
    Exited { success: bool },
    /// The probe could not be sent or its reply never came.
    Failed,
}

/// A (hostname, address) pair.
pub type HostAddress = (Seq<char>, Seq<char>);

/// The pairs that one resolution contributes, in resolver order.
pub open spec fn resolution_pairs(r: Resolution) -> Seq<HostAddress> {
    r.addresses@.map_values(|a: String| (r.hostname@, a@))
}

/// Every resolved pair, candidate by candidate.
pub open spec fn resolved_pairs(rs: Seq<Resolution>) -> Seq<HostAddress>
    decreases rs.len(),
{
    if rs.len() == 0 {
        seq![]
    } else {
        resolved_pairs(rs.drop_last()) + resolution_pairs(rs.last())
    }
}

/// Whether some pair of `ps` has address `a`.
pub open spec fn has_address(ps: Seq<HostAddress>, a: Seq<char>) -> bool {
    exists|i: int| 0 <= i < ps.len() && #[trigger] ps[i].1 == a
}

/// The pairs of `ps` whose address does not occur earlier in `ps`: one pair
/// per address, attributed to the hostname that resolved it first.
pub open spec fn first_by_address(ps: Seq<HostAddress>) -> Seq<HostAddress>
    decreases ps.len(),
{
    if ps.len() == 0 {
        seq![]
    } else {
        let prev = first_by_address(ps.drop_last());
        if has_address(prev, ps.last().1) {
            prev
        } else {
            prev.push(ps.last())
        }
    }
}

/// The pairs that a list of probe targets stands for.
pub open spec fn target_pairs(ts: Seq<ProbeTarget>) -> Seq<HostAddress> {
    ts.map_values(|t: ProbeTarget| (t.hostname@, t.address@))
}

/// Whether a probe that ended with `o` confirms that its host is reachable.
pub open spec fn probe_ok(o: ProbeOutcome) -> bool {
    match o {
        ProbeOutcome::Reply { rtt_ms } => rtt_ms <= PROBE_TIMEOUT_MS,
        ProbeOutcome::Exited { success } => success,
        ProbeOutcome::Failed => false,
    }
}

/// The pairs of `ps` whose probe, at the same position of `os`, confirmed them.
pub open spec fn confirmed(ps: Seq<HostAddress>, os: Seq<ProbeOutcome>) -> Seq<HostAddress>
    decreases ps.len(),
{
    if ps.len() == 0 || os.len() == 0 {
        seq![]
    } else {
        let prev = confirmed(ps.drop_last(), os.drop_last());
        if probe_ok(os.last()) {
            prev.push(ps.last())
        } else {
            prev
        }
    }
}

/// The reported line for a pair: hostname, a comma, address.
pub open spec fn entry_text(p: HostAddress) -> Seq<char> {
    p.0 + seq![','] + p.1
}

/// The discovery result for the resolutions `rs` when the probes of the
/// deduplicated targets ended with `os`.
pub open spec fn discovered(rs: Seq<Resolution>, os: Seq<ProbeOutcome>) -> Seq<HostAddress> {
    confirmed(first_by_address(resolved_pairs(rs)), os)
}

/// No two pairs of `ps` share an address.
pub open spec fn distinct_addresses(ps: Seq<HostAddress>) -> bool {
    forall|i: int, j: int| 0 <= i < j < ps.len() ==> ps[i].1 != ps[j].1
}

/// The candidate hostnames, in the order they are looked up.
pub fn candidate_hostnames() -> (r: Vec<String>)
    ensures
        r@.map_values(|s: String| s@) == seq![PRIMARY_CANDIDATE@, FALLBACK_CANDIDATE@],
{
    let mut r: Vec<String> = Vec::new();
    r.push(String::from_str(PRIMARY_CANDIDATE));
    r.push(String::from_str(FALLBACK_CANDIDATE));
    assert(r@.map_values(|s: String| s@) =~= seq![PRIMARY_CANDIDATE@, FALLBACK_CANDIDATE@]);
    r
}

/// Whether a probe that ended with `outcome` confirms its host: an echo reply
/// within the probe timeout, or a probe command that succeeded.
pub fn probe_reachable(outcome: &ProbeOutcome) -> (r: bool)
    ensures
        r == probe_ok(*outcome),
{
    match outcome {
        ProbeOutcome::Reply { rtt_ms } => *rtt_ms <= PROBE_TIMEOUT_MS,
        ProbeOutcome::Exited { success } => *success,
        ProbeOutcome::Failed => false,
    }
}

fn holds_address(ts: &Vec<ProbeTarget>, a: &String) -> (r: bool)
    ensures
        r == has_address(target_pairs(ts@), a@),
{
    let mut i: usize = 0;
    while i < ts.len()
        invariant
            i <= ts.len(),
            forall|j: int| 0 <= j < i ==> ts@[j].address@ != a@,
        decreases ts.len() - i,
    {
        if ts[i].address == *a {
            assert(target_pairs(ts@)[i as int].1 == a@);
            return true;
        }
        i = i + 1;
    }
    false
}

proof fn lemma_first_by_address_push(ps: Seq<HostAddress>, p: HostAddress)
    ensures
        first_by_address(ps.push(p)) == if has_address(first_by_address(ps), p.1) {
            first_by_address(ps)
        } else {
            first_by_address(ps).push(p)
        },
{
    assert(ps.push(p).drop_last() =~= ps);
}

/// The targets to probe: each resolved address once, in the order of its
/// first appearance, with the hostname that resolved it first. Candidates
/// whose lookup failed contribute nothing.
pub fn probe_targets(resolutions: &Vec<Resolution>) -> (r: Vec<ProbeTarget>)
    ensures
        target_pairs(r@) == first_by_address(resolved_pairs(resolutions@)),
{
    let mut out: Vec<ProbeTarget> = Vec::new();
    let ghost rs = resolutions@;
    let mut i: usize = 0;
    while i < resolutions.len()
        invariant
            i <= rs.len(),
            rs == resolutions@,
            target_pairs(out@) == first_by_address(resolved_pairs(rs.subrange(0, i as int))),
        decreases rs.len() - i,
    {
        let res = &resolutions[i];
        let ghost before = resolved_pairs(rs.subrange(0, i as int));
        let mut j: usize = 0;
        while j < res.addresses.len()
            invariant
                j <= res.addresses@.len(),
                res == rs[i as int],
                target_pairs(out@) == first_by_address(
                    before + resolution_pairs(*res).subrange(0, j as int),
                ),
            decreases res.addresses@.len() - j,
        {
            let a = &res.addresses[j];
            let ghost ps = before + resolution_pairs(*res).subrange(0, j as int);
            let ghost p = (res.hostname@, a@);
            assert(before + resolution_pairs(*res).subrange(0, j + 1) =~= ps.push(p));
            proof {
                lemma_first_by_address_push(ps, p);
            }
            if !holds_address(&out, a) {
                let t = ProbeTarget { hostname: res.hostname.clone(), address: a.clone() };
                out.push(t);
                assert(target_pairs(out@) =~= first_by_address(ps).push(p));
            }
            j = j + 1;
        }
        assert(rs.subrange(0, i + 1).drop_last() =~= rs.subrange(0, i as int));
        assert(resolution_pairs(*res).subrange(0, j as int) =~= resolution_pairs(*res));
        i = i + 1;
    }
    assert(rs.subrange(0, rs.len() as int) =~= rs);
    out
}

proof fn lemma_confirmed_push(ps: Seq<HostAddress>, os: Seq<ProbeOutcome>, p: HostAddress, o: ProbeOutcome)
    requires
        ps.len() == os.len(),
    ensures
        confirmed(ps.push(p), os.push(o)) == if probe_ok(o) {
            confirmed(ps, os).push(p)
        } else {
            confirmed(ps, os)
        },
{
    assert(ps.push(p).drop_last() =~= ps);
    assert(os.push(o).drop_last() =~= os);
}

/// The reported lines, `hostname,address`, for the targets whose probe, at
/// the same position of `outcomes`, confirmed them, in target order.
pub fn report_reachable(targets: &Vec<ProbeTarget>, outcomes: &Vec<ProbeOutcome>) -> (r: Vec<
    String,
>)
    requires
        targets.len() == outcomes.len(),
    ensures
        r@.map_values(|s: String| s@) == confirmed(target_pairs(targets@), outcomes@).map_values(
            |p: HostAddress| entry_text(p),
        ),
{
    let mut out: Vec<String> = Vec::new();
    let mut i: usize = 0;
    while i < targets.len()
        invariant
            i <= targets.len(),
            targets.len() == outcomes.len(),
            out@.map_values(|s: String| s@) == confirmed(
                target_pairs(targets@).subrange(0, i as int),
                outcomes@.subrange(0, i as int),
            ).map_values(|p: HostAddress| entry_text(p)),
        decreases targets.len() - i,
    {
        let t = &targets[i];
        let ghost ps = target_pairs(targets@).subrange(0, i as int);
        let ghost os = outcomes@.subrange(0, i as int);
        let ghost p = (t.hostname@, t.address@);
        assert(target_pairs(targets@).subrange(0, i + 1) =~= ps.push(p));
        assert(outcomes@.subrange(0, i + 1) =~= os.push(outcomes@[i as int]));
        proof {
            lemma_confirmed_push(ps, os, p, outcomes@[i as int]);
        }
        if probe_reachable(&outcomes[i]) {
            let line = t.hostname.clone().concat(",").concat(t.address.as_str());
            proof {
                reveal_strlit(",");
            }
            assert(line@ =~= entry_text(p));
            out.push(line);
            assert(out@.map_values(|s: String| s@) =~= confirmed(ps, os).map_values(
                |q: HostAddress| entry_text(q),
            ).push(entry_text(p)));
        }
        i = i + 1;
    }
    assert(target_pairs(targets@).subrange(0, i as int) =~= target_pairs(targets@));
    assert(outcomes@.subrange(0, i as int) =~= outcomes@);
    out
}

proof fn lemma_first_by_address_distinct(ps: Seq<HostAddress>)
    ensures
        distinct_addresses(first_by_address(ps)),
    decreases ps.len(),
{
    if ps.len() > 0 {
        lemma_first_by_address_distinct(ps.drop_last());
        let prev = first_by_address(ps.drop_last());
        if !has_address(prev, ps.last().1) {
            let next = prev.push(ps.last());
            assert forall|i: int, j: int| 0 <= i < j < next.len() implies next[i].1 != next[j].1 by {
                if j == prev.len() {
                    if next[i].1 == next[j].1 {
                        assert(prev[i].1 == ps.last().1);
                    }
                }
            }
        }
    }
}

proof fn lemma_first_by_address_from(ps: Seq<HostAddress>)
    ensures
        forall|i: int| 0 <= i < first_by_address(ps).len() ==> ps.contains(
            #[trigger] first_by_address(ps)[i],
        ),
    decreases ps.len(),
{
    if ps.len() > 0 {
        lemma_first_by_address_from(ps.drop_last());
        let prev = first_by_address(ps.drop_last());
        assert forall|i: int| 0 <= i < first_by_address(ps).len() implies ps.contains(
            #[trigger] first_by_address(ps)[i],
        ) by {
            if i < prev.len() {
                assert(ps.drop_last().contains(prev[i]));
                let k = choose|k: int| 0 <= k < ps.drop_last().len() && ps.drop_last()[k] == prev[i];
                assert(ps[k] == prev[i]);
            } else {
                assert(ps[ps.len() - 1] == ps.last());
            }
        }
    }
}

proof fn lemma_confirmed_from(ps: Seq<HostAddress>, os: Seq<ProbeOutcome>)
    ensures
        forall|i: int| 0 <= i < confirmed(ps, os).len() ==> ps.contains(
            #[trigger] confirmed(ps, os)[i],
        ),
    decreases ps.len(),
{
    if ps.len() > 0 && os.len() > 0 {
        lemma_confirmed_from(ps.drop_last(), os.drop_last());
        let prev = confirmed(ps.drop_last(), os.drop_last());
        assert forall|i: int| 0 <= i < confirmed(ps, os).len() implies ps.contains(
            #[trigger] confirmed(ps, os)[i],
        ) by {
            if i < prev.len() {
                assert(ps.drop_last().contains(prev[i]));
                let k = choose|k: int| 0 <= k < ps.drop_last().len() && ps.drop_last()[k] == prev[i];
                assert(ps[k] == prev[i]);
            } else {
                assert(ps[ps.len() - 1] == ps.last());
            }
        }
    }
}

proof fn lemma_confirmed_distinct(ps: Seq<HostAddress>, os: Seq<ProbeOutcome>)
    requires
        distinct_addresses(ps),
    ensures
        distinct_addresses(confirmed(ps, os)),
    decreases ps.len(),
{
    if ps.len() > 0 && os.len() > 0 {
        let rest = ps.drop_last();
        assert(distinct_addresses(rest));
        lemma_confirmed_distinct(rest, os.drop_last());
        lemma_confirmed_from(rest, os.drop_last());
        let prev = confirmed(rest, os.drop_last());
        if probe_ok(os.last()) {
            let next = prev.push(ps.last());
            assert forall|i: int, j: int| 0 <= i < j < next.len() implies next[i].1 != next[j].1 by {
                if j == prev.len() {
                    assert(rest.contains(prev[i]));
                    let k = choose|k: int| 0 <= k < rest.len() && rest[k] == prev[i];
                    assert(ps[k] == prev[i]);
                    assert(next[j] == ps[ps.len() - 1]);
                }
            }
        }
    }
}

/// No address appears twice in a discovery result: candidates that resolve
/// to the same address give at most one entry for it.
pub proof fn lemma_one_entry_per_address(rs: Seq<Resolution>, os: Seq<ProbeOutcome>)
    ensures
        distinct_addresses(discovered(rs, os)),
{
    lemma_first_by_address_distinct(resolved_pairs(rs));
    lemma_confirmed_distinct(first_by_address(resolved_pairs(rs)), os);
}

/// Whether some lookup of hostname `h` among `rs` gave at least one address.
pub open spec fn resolved_some(rs: Seq<Resolution>, h: Seq<char>) -> bool {
    exists|k: int| 0 <= k < rs.len() && #[trigger] rs[k].hostname@ == h && rs[k].addresses@.len() > 0
}

proof fn lemma_resolved_from(rs: Seq<Resolution>)
    ensures
        forall|i: int| 0 <= i < resolved_pairs(rs).len() ==> resolved_some(
            rs,
            #[trigger] resolved_pairs(rs)[i].0,
        ),
    decreases rs.len(),
{
    if rs.len() > 0 {
        let rest = rs.drop_last();
        lemma_resolved_from(rest);
        let prev = resolved_pairs(rest);
        let last = resolution_pairs(rs.last());
        assert forall|i: int| 0 <= i < resolved_pairs(rs).len() implies resolved_some(
            rs,
            #[trigger] resolved_pairs(rs)[i].0,
        ) by {
            if i < prev.len() {
                assert(resolved_pairs(rs)[i] == prev[i]);
                assert(resolved_some(rest, prev[i].0));
                let k = choose|k: int|
                    0 <= k < rest.len() && #[trigger] rest[k].hostname@ == prev[i].0
                        && rest[k].addresses@.len() > 0;
                assert(rs[k] == rest[k]);
            } else {
                assert(resolved_pairs(rs)[i] == last[i - prev.len()]);
                assert(rs[rs.len() - 1] == rs.last());
            }
        }
    }
}

/// A candidate hostname for which no lookup gave an address appears in no
/// entry of the discovery result; its failure costs the others nothing.
pub proof fn lemma_unresolved_excluded(rs: Seq<Resolution>, os: Seq<ProbeOutcome>, h: Seq<char>)
    requires
        forall|k: int| 0 <= k < rs.len() && #[trigger] rs[k].hostname@ == h ==> rs[k].addresses@.len()
            == 0,
    ensures
        forall|i: int| 0 <= i < discovered(rs, os).len() ==> (#[trigger] discovered(rs, os)[i]).0 != h,
{
    let ps = resolved_pairs(rs);
    let firsts = first_by_address(ps);
    lemma_resolved_from(rs);
    lemma_first_by_address_from(ps);
    lemma_confirmed_from(firsts, os);
    assert forall|i: int| 0 <= i < discovered(rs, os).len() implies (#[trigger] discovered(
        rs,
        os,
    )[i]).0 != h by {
        let d = discovered(rs, os);
        assert(firsts.contains(d[i]));
        let k = choose|k: int| 0 <= k < firsts.len() && firsts[k] == d[i];
        assert(ps.contains(firsts[k]));
        let l = choose|l: int| 0 <= l < ps.len() && ps[l] == firsts[k];
        assert(resolved_some(rs, ps[l].0));
    }
}

proof fn lemma_first_by_address_covers(ps: Seq<HostAddress>)
    ensures
        forall|j: int| 0 <= j < ps.len() ==> has_address(first_by_address(ps), #[trigger] ps[j].1),
    decreases ps.len(),
{
    if ps.len() > 0 {
        let rest = ps.drop_last();
        lemma_first_by_address_covers(rest);
        let prev = first_by_address(rest);
        assert forall|j: int| 0 <= j < ps.len() implies has_address(
            first_by_address(ps),
            #[trigger] ps[j].1,
        ) by {
            if j < rest.len() {
                assert(rest[j] == ps[j]);
                assert(has_address(prev, rest[j].1));
                let k = choose|k: int| 0 <= k < prev.len() && #[trigger] prev[k].1 == rest[j].1;
                assert(first_by_address(ps)[k] == prev[k]);
            } else if !has_address(prev, ps.last().1) {
                assert(first_by_address(ps)[prev.len() as int] == ps.last());
            }
        }
    }
}

/// Each entry of the deduplicated targets comes from the hostname that
/// resolved its address first: the earliest resolved pair with that address
/// is the entry itself.
pub proof fn lemma_first_resolver_kept(ps: Seq<HostAddress>)
    ensures
        forall|i: int| 0 <= i < first_by_address(ps).len() ==> exists|k: int|
            0 <= k < ps.len() && ps[k] == #[trigger] first_by_address(ps)[i] && forall|j: int|
                0 <= j < k ==> ps[j].1 != first_by_address(ps)[i].1,
    decreases ps.len(),
{
    if ps.len() > 0 {
        let rest = ps.drop_last();
        lemma_first_resolver_kept(rest);
        lemma_first_by_address_covers(rest);
        let prev = first_by_address(rest);
        assert forall|i: int| 0 <= i < first_by_address(ps).len() implies exists|k: int|
            0 <= k < ps.len() && ps[k] == #[trigger] first_by_address(ps)[i] && forall|j: int|
                0 <= j < k ==> ps[j].1 != first_by_address(ps)[i].1 by {
            if i < prev.len() {
                let e = prev[i];
                assert(first_by_address(ps)[i] == e);
                let k = choose|k: int|
                    0 <= k < rest.len() && rest[k] == e && forall|j: int|
                        0 <= j < k ==> rest[j].1 != e.1;
                assert(ps[k] == rest[k]);
                assert forall|j: int| 0 <= j < k implies ps[j].1 != e.1 by {
                    assert(ps[j] == rest[j]);
                }
            } else {
                let k = ps.len() - 1;
                assert(first_by_address(ps)[i] == ps[k]);
                assert forall|j: int| 0 <= j < k implies ps[j].1 != ps[k].1 by {
                    assert(ps[j] == rest[j]);
                    assert(has_address(prev, rest[j].1));
                }
            }
        }
    }
}

} // verus!
