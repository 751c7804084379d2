//! The decisions of the periodic account monitor: how a probe is sent, what
//! its outcome records, which probed accounts are grouped together, and
//! which account is promoted.

use std::cmp::Ordering;

use vstd::prelude::*;

use crate::dao::ranking::{compare_rank, duration_key, first_best, is_first_best, ranks_view, tie_break, Rank, RankKey};
use crate::model::account::{multiplier_key, total_order_key, Account};
use crate::service::account_probe_service::{endpoint, endpoint_for, is_probe_body, probe_body, AccountProbe};
use crate::service::account_service::{mapping, mapping_spec};
use crate::text::opt_string_view;
use crate::text::{compare_int, str_eq, strings_contain, strings_view, to_chars, to_lowercase, unicode_lower};

verus! {

/// The `Ordering` that a -1/0/1 comparison stands for.
pub open spec fn ordering_of(c: int) -> Ordering {
    if c < 0 {
        Ordering::Less
    } else if c > 0 {
        Ordering::Greater
    } else {
        Ordering::Equal
    }
}

/// Candidates by multiplier (in `f64::total_cmp` order of their bits), then
/// by average duration (a missing one counts as the longest).
pub open spec fn candidate_compare(
    left_multiplier: u64,
    left_average_duration_ms: Option<i64>,
    right_multiplier: u64,
    right_average_duration_ms: Option<i64>,
) -> int {
    tie_break(
        compare_int(total_order_key(left_multiplier), total_order_key(right_multiplier)),
        compare_int(duration_key(left_average_duration_ms), duration_key(right_average_duration_ms)),
    )
}

/// The order of two promotion candidates; multipliers are `f64` bits.
pub fn candidate_order(
    left_multiplier: u64,
    left_average_duration_ms: Option<i64>,
    right_multiplier: u64,
    right_average_duration_ms: Option<i64>,
) -> (r: Ordering)
    ensures
        r == ordering_of(
            candidate_compare(
                left_multiplier,
                left_average_duration_ms,
                right_multiplier,
                right_average_duration_ms,
            ),
        ),
{
    let l = multiplier_key(left_multiplier);
    let r = multiplier_key(right_multiplier);
    if l < r {
        return Ordering::Less;
    }
    if l > r {
        return Ordering::Greater;
    }
    let ld = match left_average_duration_ms {
        Some(v) => v,
        None => i64::MAX,
    };
    let rd = match right_average_duration_ms {
        Some(v) => v,
        None => i64::MAX,
    };
    if ld < rd {
        Ordering::Less
    } else if ld > rd {
        Ordering::Greater
    } else {
        Ordering::Equal
    }
}

/// A candidate is promoted over the current account when its multiplier is
/// lower, or equal with a shorter known average duration.
pub open spec fn should_promote_spec(
    candidate_multiplier: u64,
    candidate_average_duration_ms: Option<i64>,
    current_multiplier: u64,
    current_average_duration_ms: Option<i64>,
) -> bool {
    let by_multiplier = compare_int(
        total_order_key(candidate_multiplier),
        total_order_key(current_multiplier),
    );
    by_multiplier < 0 || (by_multiplier == 0 && duration_key(candidate_average_duration_ms)
        < duration_key(current_average_duration_ms))
}

/// Whether the candidate should replace the current account; multipliers
/// are `f64` bits.
pub fn should_promote(
    candidate_multiplier: u64,
    candidate_average_duration_ms: Option<i64>,
    current_multiplier: u64,
    current_average_duration_ms: Option<i64>,
) -> (r: bool)
    ensures
        r == should_promote_spec(
            candidate_multiplier,
            candidate_average_duration_ms,
            current_multiplier,
            current_average_duration_ms,
        ),
{
    let c = multiplier_key(candidate_multiplier);
    let u = multiplier_key(current_multiplier);
    if c < u {
        true
    } else if c > u {
        false
    } else {
        let cd = match candidate_average_duration_ms {
            Some(v) => v,
            None => i64::MAX,
        };
        let ud = match current_average_duration_ms {
            Some(v) => v,
            None => i64::MAX,
        };
        cd < ud
    }
}

/// A promotion candidate ranks by multiplier, average duration, lower-cased
/// name and id.
pub open spec fn candidate_rank(a: Account) -> Rank {
    Rank {
        explicit: false,
        priority: 0,
        multiplier: a.multiplier,
        duration: a.monitor_average_duration_ms,
        name: unicode_lower(a.name@),
        id: a.id@,
    }
}

/// The accounts whose ids are among `ids`, in their order.
pub open spec fn among(accounts: Seq<Account>, ids: Seq<Seq<char>>) -> Seq<Account>
    decreases accounts.len(),
{
    if accounts.len() == 0 {
        seq![]
    } else {
        let prev = among(accounts.drop_last(), ids);
        if ids.contains(accounts.last().id@) {
            prev.push(accounts.last())
        } else {
            prev
        }
    }
}

/// The candidate ranks of a list of accounts.
pub open spec fn candidate_ranks(accounts: Seq<Account>) -> Seq<Rank> {
    accounts.map_values(|a: Account| candidate_rank(a))
}

/// Swapping the two candidates reverses their order.
pub proof fn lemma_candidate_order_antisymmetric(
    left_multiplier: u64,
    left_average_duration_ms: Option<i64>,
    right_multiplier: u64,
    right_average_duration_ms: Option<i64>,
)
    ensures
        candidate_compare(left_multiplier, left_average_duration_ms, right_multiplier, right_average_duration_ms)
            == -candidate_compare(right_multiplier, right_average_duration_ms, left_multiplier, left_average_duration_ms),
{
}

/// A candidate should be promoted over the current account exactly when it
/// is ordered before it.
pub proof fn lemma_promote_iff_ordered_before(
    candidate_multiplier: u64,
    candidate_average_duration_ms: Option<i64>,
    current_multiplier: u64,
    current_average_duration_ms: Option<i64>,
)
    ensures
        should_promote_spec(
            candidate_multiplier,
            candidate_average_duration_ms,
            current_multiplier,
            current_average_duration_ms,
        ) <==> ordering_of(
            candidate_compare(
                candidate_multiplier,
                candidate_average_duration_ms,
                current_multiplier,
                current_average_duration_ms,
            ),
        ) == Ordering::Less,
{
}

/// The promotion candidate among the accounts that probed successfully:
/// the first with the lowest multiplier, then shortest average duration,
/// then lower-cased name and id (what `min_by` picks).
pub fn choose_candidate(accounts: &Vec<Account>, successful_ids: &Vec<String>) -> (r: Option<
    Account,
>)
    ensures
        r is None <==> among(accounts@, strings_view(successful_ids@)).len() == 0,
        r matches Some(a) ==> exists|i: int|
            is_first_best(candidate_ranks(among(accounts@, strings_view(successful_ids@))), i)
                && among(accounts@, strings_view(successful_ids@))[i] == a,
{
    let ghost ids = strings_view(successful_ids@);
    let mut chosen: Vec<Account> = Vec::new();
    let mut keys: Vec<RankKey> = Vec::new();
    let mut i: usize = 0;
    while i < accounts.len()
        invariant
            i <= accounts@.len(),
            ids == strings_view(successful_ids@),
            chosen@ == among(accounts@.take(i as int), ids),
            ranks_view(keys@) == candidate_ranks(chosen@),
        decreases accounts@.len() - i,
    {
        proof {
            assert(accounts@.take(i + 1).drop_last() =~= accounts@.take(i as int));
            assert(accounts@.take(i + 1).last() == accounts@[i as int]);
        }
        let a = &accounts[i];
        if strings_contain(successful_ids, a.id.as_str()) {
            let lower = to_lowercase(a.name.as_str());
            let key = RankKey {
                explicit: false,
                priority: 0,
                multiplier: a.multiplier,
                duration: a.monitor_average_duration_ms,
                name: to_chars(lower.as_str()),
                id: to_chars(a.id.as_str()),
            };
            let ghost old_chosen = chosen@;
            let ghost old_keys = keys@;
            chosen.push(a.duplicate());
            keys.push(key);
            proof {
                assert(ranks_view(keys@) =~= ranks_view(old_keys).push(key@));
                assert(candidate_ranks(chosen@) =~= candidate_ranks(old_chosen).push(
                    candidate_rank(accounts@[i as int]),
                ));
            }
        }
        i = i + 1;
    }
    assert(accounts@.take(accounts@.len() as int) =~= accounts@);
    match first_best(&keys) {
        None => None,
        Some(k) => {
            let best = chosen.remove(k);
            Some(best)
        },
    }
}

/// Whether the candidate takes the top priority: there is a current account
/// for the model, it is another account, and the candidate should replace it.
pub fn promotes(candidate: &Account, current: Option<&Account>) -> (r: bool)
    ensures
        r == (current matches Some(c) && c.id@ != candidate.id@ && should_promote_spec(
            candidate.multiplier,
            candidate.monitor_average_duration_ms,
            c.multiplier,
            c.monitor_average_duration_ms,
        )),
{
    match current {
        None => false,
        Some(c) => !str_eq(c.id.as_str(), candidate.id.as_str()) && should_promote(
            candidate.multiplier,
            candidate.monitor_average_duration_ms,
            c.multiplier,
            c.monitor_average_duration_ms,
        ),
    }
}

/// The probe that the monitor sends: the model as the account maps it, the
/// protocol's endpoint, one token, and low reasoning effort for OpenAI.
pub fn monitor_request(account: &Account, model: &str) -> (r: AccountProbe)
    ensures
        r.model@ == model@,
        r.endpoint@ == endpoint_for(account.account_type@),
        is_probe_body(
            r.body,
            match mapping_spec(opt_string_view(account.model_mappings), Some(model@)) {
                Some(m) => m,
                None => model@,
            },
            account.account_type@ != "anthropic"@,
        ),
{
    let upstream_model = match mapping(account, Some(model)) {
        Some(m) => m,
        None => model.to_string(),
    };
    let anthropic = str_eq(account.account_type.as_str(), "anthropic");
    AccountProbe {
        model: model.to_string(),
        endpoint: endpoint(account.account_type.as_str()),
        body: probe_body(upstream_model, !anthropic),
    }
}

/// What a probe records: whether it succeeded, the HTTP status (502 when the
/// upstream could not be reached), and the failure's message.
#[derive(Debug)]
pub struct MonitorOutcome {
    pub success: bool,
    pub status_code: Option<i64>,
    pub message: Option<String>,
}

impl MonitorOutcome {
    /// The error code that a failed probe records.
    pub fn error_code(&self) -> (r: Option<&'static str>)
        ensures
            self.success ==> r is None,
            !self.success ==> (r matches Some(c) && c@ == "monitor_failed"@),
    {
        if self.success {
            None
        } else {
            Some("monitor_failed")
        }
    }
}

/// The outcome of a probe that was answered: success for a 2xx status; a
/// failure records the head of the body.
pub fn answered(status: u16, body: &[u8]) -> (r: MonitorOutcome)
    ensures
        r.success == (200 <= status < 300),
        r.status_code == Some(status as i64),
        r.success ==> r.message is None,
        !r.success ==> (r.message matches Some(m) && m@ == crate::upstream::error::head_text(body@)),
{
    let success = 200 <= status && status < 300;
    MonitorOutcome {
        success,
        status_code: Some(status as i64),
        message: if success {
            None
        } else {
            Some(crate::upstream::error::response_body(body))
        },
    }
}

/// The outcome of a probe that could not reach the upstream: a failure with
/// status 502 and the connection error's text.
pub fn unreachable_outcome(error: String) -> (r: MonitorOutcome)
    ensures
        !r.success,
        r.status_code == Some(502i64),
        r.message == Some(error),
{
    MonitorOutcome { success: false, status_code: Some(502), message: Some(error) }
}

/// A probe's result: the account id, its protocol, whether it succeeded,
/// and the model it probed.
pub type ProbeResult = (String, String, bool, String);

/// The successful accounts by (protocol, probed model): for each pair, the
/// ids of the accounts whose probe of that model succeeded.
pub open spec fn grouped(results: Seq<ProbeResult>) -> Map<(Seq<char>, Seq<char>), Set<Seq<char>>>
    decreases results.len(),
{
    if results.len() == 0 {
        Map::empty()
    } else {
        let prev = grouped(results.drop_last());
        let r = results.last();
        let k = (r.1@, r.3@);
        if r.2 {
            prev.insert(
                k,
                if prev.contains_key(k) {
                    prev[k].insert(r.0@)
                } else {
                    Set::empty().insert(r.0@)
                },
            )
        } else {
            prev
        }
    }
}

/// The successful accounts of one protocol and probed model.
#[derive(Debug)]
pub struct ProbeGroup {
    pub account_type: String,
    pub model: String,
    pub account_ids: Vec<String>,
}

/// The (protocol, model) of a group.
pub open spec fn group_key(g: ProbeGroup) -> (Seq<char>, Seq<char>) {
    (g.account_type@, g.model@)
}

/// The groups as a map from (protocol, model) to the set of ids.
pub open spec fn groups_view(gs: Seq<ProbeGroup>) -> Map<(Seq<char>, Seq<char>), Set<Seq<char>>>
    decreases gs.len(),
{
    if gs.len() == 0 {
        Map::empty()
    } else {
        groups_view(gs.drop_last()).insert(
            group_key(gs.last()),
            strings_view(gs.last().account_ids@).to_set(),
        )
    }
}

/// No two groups share a (protocol, model).
pub open spec fn keys_distinct(gs: Seq<ProbeGroup>) -> bool {
    forall|i: int, j: int| 0 <= i < j < gs.len() ==> group_key(gs[i]) != group_key(gs[j])
}

proof fn lemma_groups_lookup(gs: Seq<ProbeGroup>, k: (Seq<char>, Seq<char>))
    requires
        keys_distinct(gs),
    ensures
        groups_view(gs).dom().finite(),
        groups_view(gs).dom().len() == gs.len(),
        groups_view(gs).contains_key(k) <==> exists|i: int| 0 <= i < gs.len() && group_key(gs[i]) == k,
        forall|i: int| 0 <= i < gs.len() && group_key(gs[i]) == k ==> groups_view(gs)[k] == strings_view(
            gs[i].account_ids@,
        ).to_set(),
    decreases gs.len(),
{
    if gs.len() > 0 {
        let d = gs.drop_last();
        assert(keys_distinct(d)) by {
            assert forall|i: int, j: int| 0 <= i < j < d.len() implies group_key(d[i]) != group_key(d[j]) by {
                assert(d[i] == gs[i] && d[j] == gs[j]);
            }
        }
        lemma_groups_lookup(d, k);
        lemma_groups_lookup(d, group_key(gs.last()));
        if groups_view(d).contains_key(group_key(gs.last())) {
            let i = choose|i: int| 0 <= i < d.len() && group_key(d[i]) == group_key(gs.last());
            assert(d[i] == gs[i]);
            assert(false);
        }
        assert forall|i: int| 0 <= i < gs.len() && group_key(gs[i]) == k implies groups_view(gs)[k]
            == strings_view(gs[i].account_ids@).to_set() by {
            if i < gs.len() - 1 {
                assert(d[i] == gs[i]);
            }
        }
        if groups_view(gs).contains_key(k) && k != group_key(gs.last()) {
            let i = choose|i: int| 0 <= i < d.len() && group_key(d[i]) == k;
            assert(d[i] == gs[i]);
        }
        if exists|i: int| 0 <= i < gs.len() && group_key(gs[i]) == k {
            let i = choose|i: int| 0 <= i < gs.len() && group_key(gs[i]) == k;
            if i < gs.len() - 1 {
                assert(d[i] == gs[i]);
            }
        }
    }
}

proof fn lemma_groups_update(gs: Seq<ProbeGroup>, i: int, g: ProbeGroup)
    requires
        keys_distinct(gs),
        0 <= i < gs.len(),
        group_key(g) == group_key(gs[i]),
    ensures
        keys_distinct(gs.update(i, g)),
        groups_view(gs.update(i, g)) == groups_view(gs).insert(
            group_key(g),
            strings_view(g.account_ids@).to_set(),
        ),
    decreases gs.len(),
{
    let u = gs.update(i, g);
    assert forall|a: int, b: int| 0 <= a < b < u.len() implies group_key(u[a]) != group_key(u[b]) by {
        assert(group_key(u[a]) == group_key(gs[a]));
        assert(group_key(u[b]) == group_key(gs[b]));
    }
    let d = gs.drop_last();
    assert(keys_distinct(d)) by {
        assert forall|a: int, b: int| 0 <= a < b < d.len() implies group_key(d[a]) != group_key(d[b]) by {
            assert(d[a] == gs[a] && d[b] == gs[b]);
        }
    }
    if i == gs.len() - 1 {
        assert(u.drop_last() =~= d);
        assert(groups_view(u) =~= groups_view(gs).insert(group_key(g), strings_view(g.account_ids@).to_set()));
    } else {
        lemma_groups_update(d, i, g);
        assert(u.drop_last() =~= d.update(i, g));
        assert(group_key(gs.last()) != group_key(g)) by {
            assert(group_key(gs[i]) != group_key(gs[gs.len() - 1]));
        }
        assert(groups_view(u) =~= groups_view(gs).insert(group_key(g), strings_view(g.account_ids@).to_set()));
    }
}

/// The successful probes grouped by protocol and probed model.
#[derive(Debug)]
pub struct ProbeGroups {
    groups: Vec<ProbeGroup>,
}

impl View for ProbeGroups {
    type V = Map<(Seq<char>, Seq<char>), Set<Seq<char>>>;

    closed spec fn view(&self) -> Self::V {
        groups_view(self.groups@)
    }
}

impl ProbeGroups {
    /// No two groups share a (protocol, model).
    #[verifier::type_invariant]
    closed spec fn wf(&self) -> bool {
        keys_distinct(self.groups@)
    }

    /// The number of (protocol, model) pairs.
    pub fn len(&self) -> (r: usize)
        ensures
            self@.dom().finite(),
            r == self@.dom().len(),
    {
        proof {
            use_type_invariant(self);
            lemma_groups_lookup(self.groups@, (Seq::empty(), Seq::empty()));
        }
        self.groups.len()
    }

    /// The ids of the accounts that probed `model` of `account_type`
    /// successfully, when there are any.
    pub fn get(&self, account_type: &str, model: &str) -> (r: Option<&Vec<String>>)
        ensures
            match r {
                Some(ids) => self@.contains_key((account_type@, model@)) && strings_view(ids@).to_set()
                    == self@[(account_type@, model@)],
                None => !self@.contains_key((account_type@, model@)),
            },
    {
        proof {
            use_type_invariant(self);
            lemma_groups_lookup(self.groups@, (account_type@, model@));
        }
        match find_group(&self.groups, account_type, model) {
            Some(i) => Some(&self.groups[i].account_ids),
            None => None,
        }
    }

    /// The groups, in no promised order.
    pub fn groups(&self) -> (r: &Vec<ProbeGroup>)
        ensures
            groups_view(r@) == self@,
            keys_distinct(r@),
    {
        proof {
            use_type_invariant(self);
        }
        &self.groups
    }
}

fn find_group(gs: &Vec<ProbeGroup>, account_type: &str, model: &str) -> (r: Option<usize>)
    ensures
        match r {
            Some(i) => i < gs@.len() && group_key(gs@[i as int]) == (account_type@, model@),
            None => forall|i: int| 0 <= i < gs@.len() ==> group_key(#[trigger] gs@[i]) != (account_type@, model@),
        },
{
    let mut i: usize = 0;
    while i < gs.len()
        invariant
            i <= gs@.len(),
            forall|j: int| 0 <= j < i ==> group_key(#[trigger] gs@[j]) != (account_type@, model@),
        decreases gs@.len() - i,
    {
        if str_eq(gs[i].account_type.as_str(), account_type) && str_eq(gs[i].model.as_str(), model) {
            return Some(i);
        }
        i = i + 1;
    }
    None
}

fn copy_strings(v: &Vec<String>) -> (r: Vec<String>)
    ensures
        r@ == v@,
{
    let mut out: Vec<String> = Vec::new();
    let mut i: usize = 0;
    while i < v.len()
        invariant
            i <= v@.len(),
            out@ == v@.take(i as int),
        decreases v@.len() - i,
    {
        out.push(v[i].clone());
        assert(out@ =~= v@.take(i + 1));
        i = i + 1;
    }
    assert(v@.take(v@.len() as int) =~= v@);
    out
}

/// The accounts whose probes succeeded, grouped by protocol and probed
/// model.
pub fn successful_accounts_by_probe_model(results: &[ProbeResult]) -> (r: ProbeGroups)
    ensures
        r@ == grouped(results@),
{
    let mut groups: Vec<ProbeGroup> = Vec::new();
    let mut i: usize = 0;
    assert(results@.take(0) =~= seq![]);
    while i < results.len()
        invariant
            i <= results@.len(),
            keys_distinct(groups@),
            groups_view(groups@) == grouped(results@.take(i as int)),
        decreases results@.len() - i,
    {
        proof {
            assert(results@.take(i + 1).drop_last() =~= results@.take(i as int));
            assert(results@.take(i + 1).last() == results@[i as int]);
        }
        let r = &results[i];
        if r.2 {
            let ghost k = (r.1@, r.3@);
            proof {
                lemma_groups_lookup(groups@, k);
            }
            match find_group(&groups, r.1.as_str(), r.3.as_str()) {
                Some(j) => {
                    if !strings_contain(&groups[j].account_ids, r.0.as_str()) {
                        let mut ids = copy_strings(&groups[j].account_ids);
                        let ghost old_ids = ids@;
                        ids.push(r.0.clone());
                        let g = ProbeGroup {
                            account_type: groups[j].account_type.clone(),
                            model: groups[j].model.clone(),
                            account_ids: ids,
                        };
                        proof {
                            lemma_groups_update(groups@, j as int, g);
                            assert(strings_view(g.account_ids@) =~= strings_view(old_ids).push(r.0@));
                            strings_view(old_ids).lemma_push_to_set_commute(r.0@);
                        }
                        groups.set(j, g);
                    } else {
                        proof {
                            let s = strings_view(groups@[j as int].account_ids@).to_set();
                            assert(s.insert(r.0@) =~= s);
                            assert(groups_view(groups@).insert(k, s) =~= groups_view(groups@));
                        }
                    }
                },
                None => {
                    let mut ids: Vec<String> = Vec::new();
                    ids.push(r.0.clone());
                    let g = ProbeGroup { account_type: r.1.clone(), model: r.3.clone(), account_ids: ids };
                    let ghost old = groups@;
                    groups.push(g);
                    proof {
                        assert(groups@.drop_last() =~= old);
                        let e = Seq::<Seq<char>>::empty();
                        assert(strings_view(g.account_ids@) =~= e.push(r.0@));
                        e.lemma_push_to_set_commute(r.0@);
                        assert(e.to_set() =~= Set::empty());
                        assert forall|a: int, b: int| 0 <= a < b < groups@.len() implies group_key(groups@[a])
                            != group_key(groups@[b]) by {
                            if b == groups@.len() - 1 {
                                assert(group_key(old[a]) != k);
                            } else {
                                assert(groups@[a] == old[a] && groups@[b] == old[b]);
                            }
                        }
                    }
                },
            }
        }
        i = i + 1;
    }
    assert(results@.take(results@.len() as int) =~= results@);
    ProbeGroups { groups }
}

} // verus!
