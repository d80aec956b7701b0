//! Health checks, the algebra of their verdicts, and the registry that runs
//! them and rolls the verdicts up.

use vstd::prelude::*;

use crate::keyed::{
    distinct_names, keyed, lemma_distinct_same_names, lemma_keyed_dom, lemma_keyed_index,
    lemma_keyed_len, lemma_keyed_map_values, lemma_keyed_push, lemma_keyed_update,
};
use crate::report::{encode_text_object, text_object_json, text_view, ApiResponse};

verus! {

/// The verdict of one check, or of a whole pass over the checks.
#[derive(Clone, Copy, Debug, PartialEq, Eq, Structural)]
pub enum HealthCheckStatus {
    Healthy,
    Unhealthy,
}

/// `Healthy` where both sides are healthy, `Unhealthy` otherwise.
pub open spec fn combined(a: HealthCheckStatus, b: HealthCheckStatus) -> HealthCheckStatus {
    if a == HealthCheckStatus::Healthy && b == HealthCheckStatus::Healthy {
        HealthCheckStatus::Healthy
    } else {
        HealthCheckStatus::Unhealthy
    }
}

/// `combined` folded over a sequence, starting from `Healthy`.
pub open spec fn fold_status(s: Seq<HealthCheckStatus>) -> HealthCheckStatus
    decreases s.len(),
{
    if s.len() == 0 {
        HealthCheckStatus::Healthy
    } else {
        combined(fold_status(s.drop_last()), s.last())
    }
}

/// The verdict of a whole pass: healthy exactly when every recorded check is.
pub open spec fn aggregate_of(m: Map<Seq<char>, HealthCheckStatus>) -> HealthCheckStatus {
    if forall|k: Seq<char>| #[trigger] m.contains_key(k) ==> m[k] == HealthCheckStatus::Healthy {
        HealthCheckStatus::Healthy
    } else {
        HealthCheckStatus::Unhealthy
    }
}

/// The HTTP status code that reports a verdict.
pub open spec fn status_code_of(s: HealthCheckStatus) -> u16 {
    match s {
        HealthCheckStatus::Healthy => 200,
        HealthCheckStatus::Unhealthy => 500,
    }
}

/// The word that stands for a verdict in a report.
pub open spec fn token_of(s: HealthCheckStatus) -> Seq<char> {
    match s {
        HealthCheckStatus::Healthy => seq!['O', 'k'],
        HealthCheckStatus::Unhealthy => seq!['F', 'a', 'i', 'l', 'e', 'd'],
    }
}

impl HealthCheckStatus {
    /// Combines two verdicts: healthy only where both are.
    pub fn combine(self, other: HealthCheckStatus) -> (r: HealthCheckStatus)
        ensures
            r == combined(self, other),
    {
        match (self, other) {
            (HealthCheckStatus::Healthy, HealthCheckStatus::Healthy) => HealthCheckStatus::Healthy,
            _ => HealthCheckStatus::Unhealthy,
        }
    }

    /// 200 for `Healthy`, 500 for `Unhealthy`.
    pub fn status_code(&self) -> (r: u16)
        ensures
            r == status_code_of(*self),
    {
        match self {
            HealthCheckStatus::Healthy => 200,
            HealthCheckStatus::Unhealthy => 500,
        }
    }

    /// `"Ok"` for `Healthy`, `"Failed"` for `Unhealthy`.
    pub fn token(&self) -> (r: String)
        ensures
            r@ == token_of(*self),
    {
        match self {
            HealthCheckStatus::Healthy => {
                proof {
                    reveal_strlit("Ok");
                }
                String::from_str("Ok")
            },
            HealthCheckStatus::Unhealthy => {
                proof {
                    reveal_strlit("Failed");
                }
                String::from_str("Failed")
            },
        }
    }
}

impl std::ops::BitAnd for HealthCheckStatus {
    type Output = HealthCheckStatus;

    fn bitand(self, other: HealthCheckStatus) -> (r: HealthCheckStatus) {
        self.combine(other)
    }
}

impl vstd::std_specs::ops::BitAndSpecImpl for HealthCheckStatus {
    open spec fn obeys_bitand_spec() -> bool {
        true
    }

    open spec fn bitand_req(self, rhs: HealthCheckStatus) -> bool {
        true
    }

    open spec fn bitand_spec(self, rhs: HealthCheckStatus) -> HealthCheckStatus {
        combined(self, rhs)
    }
}

/// A unit of work that reports the health of one part of a service.
pub trait HealthCheck: Send {
    /// The name under which the verdict is reported.
    fn name(&self) -> String;

    /// Evaluates the check now. A check that cannot decide reports `Unhealthy`.
    fn check_health(&mut self) -> HealthCheckStatus;
}

/// The verdicts of one pass, by check name.
#[derive(Debug)]
pub struct CheckResults {
    entries: Vec<(String, HealthCheckStatus)>,
}

impl CheckResults {
    /// Each name is recorded once.
    pub closed spec fn wf(&self) -> bool {
        distinct_names(self.entries@)
    }

    pub closed spec fn view(&self) -> Map<Seq<char>, HealthCheckStatus> {
        keyed(self.entries@)
    }

    /// No verdicts yet.
    pub fn new() -> (r: CheckResults)
        ensures
            r.wf(),
            r.view() == Map::<Seq<char>, HealthCheckStatus>::empty(),
    {
        CheckResults { entries: Vec::new() }
    }

    /// Records `status` under `name`, replacing an earlier verdict of that name.
    pub fn insert(&mut self, name: String, status: HealthCheckStatus)
        requires
            old(self).wf(),
        ensures
            final(self).wf(),
            final(self).view() == old(self).view().insert(name@, status),
    {
        let n = self.entries.len();
        let mut i: usize = 0;
        while i < n
            invariant
                n == self.entries@.len(),
                i <= n,
                self.entries@ == old(self).entries@,
                distinct_names(self.entries@),
                forall|j: int| 0 <= j < i ==> self.entries@[j].0@ != name@,
            decreases n - i,
        {
            if self.entries[i].0 == name {
                proof {
                    lemma_keyed_update(self.entries@, i as int, (name, status));
                }
                self.entries.set(i, (name, status));
                return;
            }
            i = i + 1;
        }
        proof {
            lemma_keyed_push(self.entries@, (name, status));
        }
        self.entries.push((name, status));
        assert(distinct_names(self.entries@));
    }

    /// The number of distinct names recorded.
    pub fn len(&self) -> (r: usize)
        requires
            self.wf(),
        ensures
            r == self.view().len(),
    {
        proof {
            lemma_keyed_len(self.entries@);
        }
        self.entries.len()
    }

    /// Whether nothing is recorded.
    pub fn is_empty(&self) -> (r: bool)
        requires
            self.wf(),
        ensures
            r == (self.view().len() == 0),
    {
        self.len() == 0
    }

    /// The verdict recorded under `name`, if any.
    pub fn get(&self, name: &String) -> (r: Option<&HealthCheckStatus>)
        requires
            self.wf(),
        ensures
            match r {
                Some(v) => self.view().contains_key(name@) && *v == self.view()[name@],
                None => !self.view().contains_key(name@),
            },
    {
        proof {
            lemma_keyed_dom(self.entries@);
        }
        let n = self.entries.len();
        let mut i: usize = 0;
        while i < n
            invariant
                n == self.entries@.len(),
                i <= n,
                distinct_names(self.entries@),
                forall|j: int| 0 <= j < i ==> self.entries@[j].0@ != name@,
            decreases n - i,
        {
            if self.entries[i].0 == *name {
                proof {
                    lemma_keyed_index(self.entries@, i as int);
                }
                return Some(&self.entries[i].1);
            }
            i = i + 1;
        }
        None
    }

    /// The verdict of the pass: healthy exactly when every recorded verdict is.
    pub fn aggregate(&self) -> (r: HealthCheckStatus)
        requires
            self.wf(),
        ensures
            r == aggregate_of(self.view()),
    {
        let n = self.entries.len();
        let mut acc = HealthCheckStatus::Healthy;
        let mut i: usize = 0;
        while i < n
            invariant
                n == self.entries@.len(),
                i <= n,
                acc == HealthCheckStatus::Healthy <==> forall|j: int|
                    0 <= j < i ==> #[trigger] self.entries@[j].1 == HealthCheckStatus::Healthy,
            decreases n - i,
        {
            acc = acc & self.entries[i].1;
            i = i + 1;
        }
        proof {
            let s = self.entries@;
            lemma_keyed_dom(s);
            if acc == HealthCheckStatus::Healthy {
                assert forall|k: Seq<char>| #[trigger] keyed(s).contains_key(k) implies keyed(s)[k]
                    == HealthCheckStatus::Healthy by {
                    let j = choose|j: int| 0 <= j < s.len() && s[j].0@ == k;
                    lemma_keyed_index(s, j);
                }
            } else {
                let j = choose|j: int| 0 <= j < n && s[j].1 != HealthCheckStatus::Healthy;
                lemma_keyed_index(s, j);
            }
        }
        acc
    }

    /// The verdicts as report words (`"Ok"` / `"Failed"`) under the same names.
    pub fn tokens(&self) -> (r: Vec<(String, String)>)
        requires
            self.wf(),
        ensures
            distinct_names(r@),
            text_view(keyed(r@)) == self.view().map_values(|v: HealthCheckStatus| token_of(v)),
    {
        let n = self.entries.len();
        let mut out: Vec<(String, String)> = Vec::new();
        let mut i: usize = 0;
        while i < n
            invariant
                n == self.entries@.len(),
                i <= n,
                out@.len() == i,
                forall|j: int| 0 <= j < i ==> #[trigger] out@[j].0@ == self.entries@[j].0@ && out@[j].1@ == token_of(self.entries@[j].1),
            decreases n - i,
        {
            let name = self.entries[i].0.clone();
            let word = self.entries[i].1.token();
            out.push((name, word));
            i = i + 1;
        }
        proof {
            lemma_distinct_same_names(self.entries@, out@);
            lemma_keyed_map_values(self.entries@, out@, |v: HealthCheckStatus| token_of(v), |w: String| w@);
        }
        out
    }
}


/// A registered check, held behind a box so that checks of any type can
/// stand side by side.
pub struct RegisteredCheck {
    check: Box<dyn HealthCheck>,
}

impl RegisteredCheck {
    fn wrap<H: HealthCheck + 'static>(check: H) -> RegisteredCheck {
        RegisteredCheck { check: Box::new(check) }
    }
}

/// What one pass reports, given the `(name, verdict)` pairs that the checks
/// gave in registration order: the aggregate verdict and the verdicts by
/// name, a later pair replacing an earlier one of the same name.
pub open spec fn summary_of(outcomes: Seq<(String, HealthCheckStatus)>) -> (HealthCheckStatus, Map<Seq<char>, HealthCheckStatus>) {
    (aggregate_of(keyed(outcomes)), keyed(outcomes))
}

/// The body of a health report: each name with its report word.
pub open spec fn health_body(m: Map<Seq<char>, HealthCheckStatus>) -> Seq<char> {
    text_object_json(m.map_values(|v: HealthCheckStatus| token_of(v)))
}

/// Whether `r` reports the verdicts `m`: the aggregate's status code and the
/// JSON object of report words.
pub open spec fn reports_health(r: ApiResponse, m: Map<Seq<char>, HealthCheckStatus>) -> bool {
    &&& r.status == status_code_of(aggregate_of(m))
    &&& r.body@ == health_body(m)
}

/// Builds the results of a pass from the `(name, verdict)` pairs that the
/// checks gave, in order.
pub fn summarize(outcomes: &Vec<(String, HealthCheckStatus)>) -> (r: (HealthCheckStatus, CheckResults))
    ensures
        r.1.wf(),
        (r.0, r.1.view()) == summary_of(outcomes@),
{
    let mut results = CheckResults::new();
    let n = outcomes.len();
    let mut i: usize = 0;
    while i < n
        invariant
            n == outcomes@.len(),
            i <= n,
            results.wf(),
            results.view() == keyed(outcomes@.take(i as int)),
        decreases n - i,
    {
        let name = outcomes[i].0.clone();
        results.insert(name, outcomes[i].1);
        assert(outcomes@.take(i + 1).drop_last() =~= outcomes@.take(i as int));
        i = i + 1;
    }
    assert(outcomes@.take(n as int) =~= outcomes@);
    let status = results.aggregate();
    (status, results)
}

/// Encodes the verdicts of a pass as a reply: the aggregate's status code and
/// a JSON object from each name to `"Ok"` or `"Failed"`.
pub fn health_response(results: &CheckResults) -> (r: ApiResponse)
    requires
        results.wf(),
    ensures
        reports_health(r, results.view()),
{
    let status = results.aggregate();
    let words = results.tokens();
    let encoded = encode_text_object(&words);
    ApiResponse::from_encoded(encoded, status.status_code())
}

/// The registered health checks of a service.
pub struct HealthCheckService {
    checks: Vec<RegisteredCheck>,
}

impl HealthCheckService {
    /// The number of registered checks.
    pub closed spec fn count(&self) -> nat {
        self.checks@.len()
    }

    /// The registered checks, in registration order.
    pub closed spec fn checks(&self) -> Seq<RegisteredCheck> {
        self.checks@
    }

    /// A service with no checks.
    pub fn new() -> (r: HealthCheckService)
        ensures
            r.count() == 0,
    {
        HealthCheckService { checks: Vec::new() }
    }

    /// Appends a check; names are not required to be unique.
    pub fn register_check<H: HealthCheck + 'static>(&mut self, check: H)
        ensures
            final(self).count() == old(self).count() + 1,
            final(self).checks().drop_last() == old(self).checks(),
    {
        self.checks.push(RegisteredCheck::wrap(check));
    }

    /// Runs every check once, in registration order, and reports the
    /// aggregate verdict with the verdicts by name; a later check replaces
    /// an earlier one of the same name.
    pub fn execute(&mut self) -> (r: (HealthCheckStatus, CheckResults))
        ensures
            final(self).count() == old(self).count(),
            r.1.wf(),
            exists|outcomes: Seq<(String, HealthCheckStatus)>|
                outcomes.len() == old(self).count() && #[trigger] summary_of(outcomes) == (r.0, r.1.view())
                && (distinct_names(outcomes) ==> r.1.view().len() == old(self).count()),
    {
        let n = self.checks.len();
        let mut outcomes: Vec<(String, HealthCheckStatus)> = Vec::new();
        let mut i: usize = 0;
        while i < n
            invariant
                n == self.checks@.len(),
                n == old(self).count(),
                i <= n,
                outcomes@.len() == i,
            decreases n - i,
        {
            let status = self.checks[i].check.check_health();
            let name = self.checks[i].check.name();
            outcomes.push((name, status));
            i = i + 1;
        }
        let r = summarize(&outcomes);
        proof {
            if distinct_names(outcomes@) {
                lemma_keyed_len(outcomes@);
            }
        }
        assert(summary_of(outcomes@) == (r.0, r.1.view()));
        r
    }

    /// Runs every check and encodes the outcome as a reply: status 200 where
    /// all are healthy, 500 otherwise, with a JSON object from each name to
    /// `"Ok"` or `"Failed"`.
    pub fn check_service_health(&mut self) -> (r: ApiResponse)
        ensures
            final(self).count() == old(self).count(),
            exists|outcomes: Seq<(String, HealthCheckStatus)>|
                outcomes.len() == old(self).count() && #[trigger] reports_health(r, keyed(outcomes)),
    {
        let (aggregate, results) = self.execute();
        let r = health_response(&results);
        proof {
            let outcomes = choose|outcomes: Seq<(String, HealthCheckStatus)>|
                outcomes.len() == old(self).count() && #[trigger] summary_of(outcomes) == (
                aggregate, results.view());
            assert(keyed(outcomes) == results.view());
            assert(reports_health(r, keyed(outcomes)));
        }
        r
    }
}

impl Default for HealthCheckService {
    fn default() -> (r: HealthCheckService)
        ensures
            r.count() == 0,
    {
        HealthCheckService::new()
    }
}


/// `combine` is commutative and associative, `Healthy` is its identity and
/// `Unhealthy` absorbs everything.
pub proof fn lemma_combine_laws(a: HealthCheckStatus, b: HealthCheckStatus, c: HealthCheckStatus)
    ensures
        combined(a, b) == combined(b, a),
        combined(combined(a, b), c) == combined(a, combined(b, c)),
        combined(HealthCheckStatus::Healthy, a) == a,
        combined(a, HealthCheckStatus::Healthy) == a,
        combined(HealthCheckStatus::Unhealthy, a) == HealthCheckStatus::Unhealthy,
        combined(a, HealthCheckStatus::Unhealthy) == HealthCheckStatus::Unhealthy,
{
}

/// Folding `combine` from `Healthy` over any arrangement of a multiset of
/// verdicts gives `Healthy` exactly when every verdict is healthy, and
/// `Unhealthy` as soon as one is not; so the result depends on the multiset
/// alone.
pub proof fn lemma_fold_status(s: Seq<HealthCheckStatus>, t: Seq<HealthCheckStatus>)
    requires
        s.to_multiset() == t.to_multiset(),
    ensures
        fold_status(s) == HealthCheckStatus::Healthy <==> (forall|i: int| 0 <= i < s.len() ==> #[trigger] s[i] == HealthCheckStatus::Healthy),
        fold_status(s) == HealthCheckStatus::Healthy <==> s.to_multiset().count(HealthCheckStatus::Unhealthy) == 0,
        (exists|i: int| 0 <= i < s.len() && #[trigger] s[i] == HealthCheckStatus::Unhealthy) ==> fold_status(s) == HealthCheckStatus::Unhealthy,
        fold_status(s) == fold_status(t),
{
    lemma_fold_all_healthy(s);
    lemma_fold_all_healthy(t);
    broadcast use vstd::seq_lib::group_to_multiset_ensures;
    assert(s.contains(HealthCheckStatus::Unhealthy) <==> s.to_multiset().count(HealthCheckStatus::Unhealthy) > 0);
    assert(t.contains(HealthCheckStatus::Unhealthy) <==> t.to_multiset().count(HealthCheckStatus::Unhealthy) > 0);
}

proof fn lemma_fold_all_healthy(s: Seq<HealthCheckStatus>)
    ensures
        fold_status(s) == HealthCheckStatus::Healthy <==> (forall|i: int| 0 <= i < s.len() ==> #[trigger] s[i] == HealthCheckStatus::Healthy),
    decreases s.len(),
{
    if s.len() > 0 {
        let t = s.drop_last();
        lemma_fold_all_healthy(t);
        if fold_status(s) == HealthCheckStatus::Healthy {
            assert forall|i: int| 0 <= i < s.len() implies #[trigger] s[i] == HealthCheckStatus::Healthy by {
                if i < t.len() {
                    assert(t[i] == s[i]);
                }
            }
        } else if forall|i: int| 0 <= i < s.len() ==> #[trigger] s[i] == HealthCheckStatus::Healthy {
            assert forall|i: int| 0 <= i < t.len() implies #[trigger] t[i] == HealthCheckStatus::Healthy by {
                assert(t[i] == s[i]);
            }
            assert(s[s.len() - 1] == HealthCheckStatus::Healthy);
        }
    }
}

} // verus!
