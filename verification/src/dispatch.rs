//! Where the OSS engine sends a rule's results: the check that every
//! destination a rule names has a sink, and the route of each result.
//!
//! The sinks themselves (Kafka producers, the IPC socket, the log) are
//! built and driven by the program; it builds them in the order that
//! `DispatchPlan::built` lists and sends each result where `route` says.
use vstd::prelude::*;
use crate::metrics::{update, MetricChange, MetricUpdate, OssMetric, OssMetrics};
use crate::text::{concat, join_strings, joined, str_eq};

verus! {

/// A rule's index and the destinations its results go to.
#[derive(Debug, Clone, PartialEq, Eq)]
pub struct RuleMetadata {
    pub rule_index: usize,
    pub destinations: Vec<String>,
}

pub open spec fn names(v: Seq<String>) -> Seq<Seq<char>> {
    v.map_values(|s: String| s@)
}

/// `d` is a destination of some rule.
pub open spec fn is_used(md: Seq<RuleMetadata>, d: Seq<char>) -> bool {
    exists|i: int, j: int| 0 <= i < md.len() && 0 <= j < md[i].destinations@.len()
        && #[trigger] md[i].destinations@[j]@ == d
}

/// Each destination that the rules name, once.
pub open spec fn lists_used(r: Seq<Seq<char>>, md: Seq<RuleMetadata>) -> bool {
    &&& r.no_duplicates()
    &&& forall|d: Seq<char>| r.contains(d) <==> is_used(md, d)
}

fn contains_str(v: &Vec<String>, d: &str) -> (r: bool)
    ensures
        r == names(v@).contains(d@),
{
    let mut i: usize = 0;
    while i < v.len()
        invariant
            i <= v@.len(),
            forall|k: int| 0 <= k < i ==> v@[k]@ != d@,
        decreases v@.len() - i,
    {
        if str_eq(v[i].as_str(), d) {
            assert(names(v@)[i as int] == d@);
            return true;
        }
        i = i + 1;
    }
    proof {
        if names(v@).contains(d@) {
            let k = choose|k: int| 0 <= k < names(v@).len() && names(v@)[k] == d@;
            assert(v@[k]@ == d@);
        }
    }
    false
}

/// The destinations that the rules name, each once, in the order they
/// first appear.
pub fn used_destinations(rule_metadata: &[RuleMetadata]) -> (r: Vec<String>)
    ensures
        lists_used(names(r@), rule_metadata@),
{
    let ghost md = rule_metadata@;
    let mut out: Vec<String> = Vec::new();
    let mut i: usize = 0;
    while i < rule_metadata.len()
        invariant
            md == rule_metadata@,
            i <= md.len(),
            names(out@).no_duplicates(),
            forall|d: Seq<char>| names(out@).contains(d) <==> is_used(md.take(i as int), d),
        decreases md.len() - i,
    {
        let dests = &rule_metadata[i].destinations;
        let mut j: usize = 0;
        while j < dests.len()
            invariant
                md == rule_metadata@,
                i < md.len(),
                dests@ == md[i as int].destinations@,
                j <= dests@.len(),
                names(out@).no_duplicates(),
                forall|d: Seq<char>| names(out@).contains(d) <==> (is_used(md.take(i as int), d)
                    || exists|k: int| 0 <= k < j && #[trigger] dests@[k]@ == d),
            decreases dests@.len() - j,
        {
            let ghost before = names(out@);
            if !contains_str(&out, dests[j].as_str()) {
                out.push(dests[j].clone());
                proof {
                    assert(names(out@) =~= before.push(dests@[j as int]@));
                    assert forall|a: int, b: int| 0 <= a < b < names(out@).len() implies names(out@)[a] != names(out@)[b] by {
                        if b == names(out@).len() - 1 {
                            assert(before[a] == names(out@)[a]);
                        }
                    }
                }
            }
            proof {
                assert forall|d: Seq<char>| names(out@).contains(d) <==> (is_used(md.take(i as int), d)
                    || exists|k: int| 0 <= k < j + 1 && #[trigger] dests@[k]@ == d) by {
                    if d == dests@[j as int]@ {
                        assert(names(out@).contains(d) ==> true);
                        if !before.contains(d) {
                            assert(names(out@)[names(out@).len() - 1] == d);
                        }
                    } else {
                        if names(out@).contains(d) && !before.contains(d) {
                            let p = choose|p: int| 0 <= p < names(out@).len() && names(out@)[p] == d;
                            assert(p < before.len());
                            assert(before[p] == d);
                        }
                        if before.contains(d) {
                            let p = choose|p: int| 0 <= p < before.len() && before[p] == d;
                            assert(names(out@)[p] == d);
                        }
                    }
                }
            }
            j = j + 1;
        }
        proof {
            assert forall|d: Seq<char>| is_used(md.take(i + 1), d) <==> (is_used(md.take(i as int), d)
                || exists|k: int| 0 <= k < dests@.len() && #[trigger] dests@[k]@ == d) by {
                let t = md.take(i + 1);
                if is_used(t, d) {
                    let (a, b) = choose|a: int, b: int| 0 <= a < t.len() && 0 <= b < t[a].destinations@.len()
                        && #[trigger] t[a].destinations@[b]@ == d;
                    if a < i {
                        assert(md.take(i as int)[a] == t[a]);
                        assert(is_used(md.take(i as int), d));
                    } else {
                        assert(dests@[b]@ == d);
                    }
                }
                if is_used(md.take(i as int), d) {
                    let (a, b) = choose|a: int, b: int| 0 <= a < md.take(i as int).len() && 0 <= b < md.take(i as int)[a].destinations@.len()
                        && #[trigger] md.take(i as int)[a].destinations@[b]@ == d;
                    assert(t[a] == md.take(i as int)[a]);
                    assert(t[a].destinations@[b]@ == d);
                }
                if exists|k: int| 0 <= k < dests@.len() && #[trigger] dests@[k]@ == d {
                    let k = choose|k: int| 0 <= k < dests@.len() && #[trigger] dests@[k]@ == d;
                    assert(t[i as int].destinations@[k]@ == d);
                }
            }
        }
        i = i + 1;
    }
    assert(md.take(i as int) =~= md);
    out
}

/// The used destinations that no sink is configured for, in order.
pub open spec fn unconfigured(used: Seq<Seq<char>>, configured: Seq<Seq<char>>) -> Seq<Seq<char>> {
    used.filter(|d: Seq<char>| !configured.contains(d))
}

/// The destinations of `used` that `configured` does not name.
pub fn missing_destinations(used: &Vec<String>, configured: &Vec<String>) -> (r: Vec<String>)
    ensures
        names(r@) == unconfigured(names(used@), names(configured@)),
{
    let ghost u = names(used@);
    let ghost c = names(configured@);
    let mut out: Vec<String> = Vec::new();
    let mut i: usize = 0;
    while i < used.len()
        invariant
            u == names(used@),
            c == names(configured@),
            i <= used@.len(),
            names(out@) == unconfigured(u.take(i as int), c),
        decreases used@.len() - i,
    {
        let ghost t = u.take(i + 1);
        assert(t.drop_last() =~= u.take(i as int));
        assert(t.last() == used@[i as int]@);
        if !contains_str(configured, used[i].as_str()) {
            out.push(used[i].clone());
            assert(names(out@) =~= unconfigured(u.take(i as int), c).push(used@[i as int]@));
        } else {
            assert(names(out@) =~= unconfigured(u.take(i as int), c));
        }
        proof {
            u.take(i as int).lemma_filter_push(used@[i as int]@, |d: Seq<char>| !c.contains(d));
            assert(u.take(i as int).push(used@[i as int]@) =~= t);
        }
        i = i + 1;
    }
    assert(u.take(i as int) =~= u);
    out
}

pub open spec fn missing_message(missing: Seq<Seq<char>>) -> Seq<char> {
    "rule destinations are not configured as sinks: "@ + joined(missing, ","@)
}

/// What a result of a rule goes to: the sink of its destination, by its
/// place in `DispatchPlan::built`, or none where no sink serves it.
#[derive(Debug, Clone, PartialEq, Eq)]
pub struct SinkRoute {
    pub destination: String,
    pub sink: Option<usize>,
}

/// The sinks to build and the rules whose results they take.
#[derive(Debug, Clone, PartialEq, Eq)]
pub struct DispatchPlan {
    /// The configured sinks that some rule uses, in configured order.
    pub built: Vec<String>,
    pub rule_metadata: Vec<RuleMetadata>,
}

/// The configured sinks that some rule uses, in configured order.
pub open spec fn kept_sinks(configured: Seq<Seq<char>>, md: Seq<RuleMetadata>) -> Seq<Seq<char>> {
    configured.filter(|d: Seq<char>| is_used(md, d))
}

/// The last rule with index `idx`, as a map keyed by rule index keeps it.
pub open spec fn rule_for(md: Seq<RuleMetadata>, idx: usize) -> Option<int>
    decreases md.len(),
{
    if md.len() == 0 {
        None
    } else if md.last().rule_index == idx {
        Some(md.len() - 1)
    } else {
        rule_for(md.drop_last(), idx)
    }
}

/// The first sink named `d`.
pub open spec fn sink_for(built: Seq<Seq<char>>, d: Seq<char>) -> Option<int>
    decreases built.len(),
{
    if built.len() == 0 {
        None
    } else if built[0] == d {
        Some(0)
    } else {
        match sink_for(built.drop_first(), d) {
            Some(k) => Some(k + 1),
            None => None,
        }
    }
}

pub open spec fn routes_of(built: Seq<Seq<char>>, dests: Seq<String>) -> Seq<(Seq<char>, Option<int>)> {
    Seq::new(dests.len(), |k: int| (dests[k]@, sink_for(built, dests[k]@)))
}

pub open spec fn route_view(r: Seq<SinkRoute>) -> Seq<(Seq<char>, Option<int>)> {
    Seq::new(r.len(), |k: int| (r[k].destination@, match r[k].sink { Some(s) => Some(s as int), None => None }))
}

fn find_sink(built: &Vec<String>, d: &str) -> (r: Option<usize>)
    ensures
        match r {
            Some(k) => sink_for(names(built@), d@) == Some(k as int),
            None => sink_for(names(built@), d@) is None,
        },
{
    let ghost b = names(built@);
    let mut i: usize = 0;
    assert(b.skip(0) =~= b);
    while i < built.len()
        invariant
            b == names(built@),
            i <= built@.len(),
            sink_for(b, d@) == (match sink_for(b.skip(i as int), d@) {
                Some(k) => Some(k + i),
                None => None::<int>,
            }),
        decreases built@.len() - i,
    {
        assert(b.skip(i as int)[0] == built@[i as int]@);
        assert(b.skip(i as int).drop_first() =~= b.skip(i + 1));
        if str_eq(built[i].as_str(), d) {
            return Some(i);
        }
        i = i + 1;
    }
    assert(b.skip(i as int).len() == 0);
    None
}

impl DispatchPlan {
    /// Checks that every destination that a rule names has a sink among
    /// `configured`, and keeps the configured sinks that some rule uses.
    pub fn new(configured: Vec<String>, rule_metadata: Vec<RuleMetadata>) -> (r: Result<Self, String>)
        ensures
            match r {
                Ok(p) => {
                    &&& forall|d: Seq<char>| is_used(rule_metadata@, d) ==> names(configured@).contains(d)
                    &&& names(p.built@) == kept_sinks(names(configured@), rule_metadata@)
                    &&& p.rule_metadata@ == rule_metadata@
                },
                Err(e) => exists|used: Seq<Seq<char>>| {
                    &&& lists_used(used, rule_metadata@)
                    &&& unconfigured(used, names(configured@)).len() > 0
                    &&& e@ == missing_message(unconfigured(used, names(configured@)))
                },
            },
    {
        let used = used_destinations(rule_metadata.as_slice());
        let missing = missing_destinations(&used, &configured);
        let ghost u = names(used@);
        let ghost c = names(configured@);
        if missing.len() > 0 {
            let list = join_strings(missing.as_slice(), ",");
            let e = concat("rule destinations are not configured as sinks: ", list.as_str());
            assert(names(missing@) =~= missing@.map_values(|s: String| s@));
            assert(lists_used(u, rule_metadata@));
            return Err(e);
        }
        proof {
            assert forall|d: Seq<char>| is_used(rule_metadata@, d) implies c.contains(d) by {
                assert(u.contains(d));
                if !c.contains(d) {
                    let k = choose|k: int| 0 <= k < u.len() && u[k] == d;
                    u.lemma_filter_contains(|x: Seq<char>| !c.contains(x), k);
                    assert(unconfigured(u, c).len() > 0);
                }
            }
        }
        let mut built: Vec<String> = Vec::new();
        let mut i: usize = 0;
        while i < configured.len()
            invariant
                c == names(configured@),
                u == names(used@),
                lists_used(u, rule_metadata@),
                i <= configured@.len(),
                names(built@) == kept_sinks(c.take(i as int), rule_metadata@),
            decreases configured@.len() - i,
        {
            let ghost t = c.take(i + 1);
            assert(t.drop_last() =~= c.take(i as int));
            assert(t.last() == configured@[i as int]@);
            if contains_str(&used, configured[i].as_str()) {
                built.push(configured[i].clone());
                assert(names(built@) =~= kept_sinks(c.take(i as int), rule_metadata@).push(configured@[i as int]@));
            } else {
                assert(names(built@) =~= kept_sinks(c.take(i as int), rule_metadata@));
            }
            proof {
                c.take(i as int).lemma_filter_push(configured@[i as int]@, |d: Seq<char>| is_used(rule_metadata@, d));
                assert(c.take(i as int).push(configured@[i as int]@) =~= t);
            }
            i = i + 1;
        }
        assert(c.take(i as int) =~= c);
        Ok(DispatchPlan { built, rule_metadata })
    }

    /// The place of the last rule with index `rule_index`.
    fn find_rule(&self, rule_index: usize) -> (r: Option<usize>)
        ensures
            match r {
                Some(i) => rule_for(self.rule_metadata@, rule_index) == Some(i as int) && i < self.rule_metadata@.len(),
                None => rule_for(self.rule_metadata@, rule_index) is None,
            },
    {
        let ghost md = self.rule_metadata@;
        let mut k: usize = self.rule_metadata.len();
        assert(md.take(k as int) =~= md);
        while k > 0
            invariant
                md == self.rule_metadata@,
                k <= md.len(),
                rule_for(md, rule_index) == rule_for(md.take(k as int), rule_index),
            decreases k,
        {
            let ghost t = md.take(k as int);
            assert(t.drop_last() =~= md.take(k - 1));
            if self.rule_metadata[k - 1].rule_index == rule_index {
                return Some(k - 1);
            }
            k = k - 1;
        }
        None
    }

    /// Where the results of rule `rule_index` go: for each of its
    /// destinations, the sink that serves it if any; none for an unknown
    /// rule.
    pub fn route(&self, rule_index: usize) -> (r: Option<Vec<SinkRoute>>)
        ensures
            match r {
                None => rule_for(self.rule_metadata@, rule_index) is None,
                Some(routes) => rule_for(self.rule_metadata@, rule_index) matches Some(i)
                    && route_view(routes@) == routes_of(names(self.built@), self.rule_metadata@[i].destinations@),
            },
    {
        let ghost md = self.rule_metadata@;
        let i = match self.find_rule(rule_index) {
            Some(i) => i,
            None => {
                return None;
            },
        };
        let dests = &self.rule_metadata[i].destinations;
        let mut routes: Vec<SinkRoute> = Vec::new();
        let mut j: usize = 0;
        while j < dests.len()
            invariant
                i < md.len(),
                md == self.rule_metadata@,
                dests@ == md[i as int].destinations@,
                j <= dests@.len(),
                route_view(routes@) == routes_of(names(self.built@), dests@).take(j as int),
            decreases dests@.len() - j,
        {
            let sink = find_sink(&self.built, dests[j].as_str());
            let ghost before = routes@;
            let route = SinkRoute { destination: dests[j].clone(), sink };
            let ghost rv: (Seq<char>, Option<int>) = (dests@[j as int]@, match sink { Some(s) => Some(s as int), None => None });
            assert(rv == routes_of(names(self.built@), dests@)[j as int]);
            routes.push(route);
            assert(route_view(routes@) =~= route_view(before).push(rv));
            assert(routes_of(names(self.built@), dests@).take(j + 1) =~= routes_of(names(self.built@), dests@).take(j as int).push(rv));
            j = j + 1;
        }
        assert(routes_of(names(self.built@), dests@).take(j as int) =~= routes_of(names(self.built@), dests@));
        Some(routes)
    }
}

pub open spec fn kafka_problem(destination: Seq<char>, servers: nat, topic: Seq<char>) -> Option<Seq<char>> {
    if servers == 0 {
        Some("sinks."@ + destination + ".bootstrap_servers must not be empty"@)
    } else if topic.len() == 0 {
        Some("sinks."@ + destination + ".topic must not be empty"@)
    } else {
        None
    }
}

/// Checks a Kafka sink's settings before its producer is made.
pub fn check_kafka_sink(destination: &str, bootstrap_servers: &Vec<String>, topic: &str) -> (r: Result<(), String>)
    ensures
        match r {
            Ok(()) => kafka_problem(destination@, bootstrap_servers@.len(), topic@) is None,
            Err(e) => kafka_problem(destination@, bootstrap_servers@.len(), topic@) == Some(e@),
        },
{
    if bootstrap_servers.len() == 0 {
        let a = concat("sinks.", destination);
        let e = concat(a.as_str(), ".bootstrap_servers must not be empty");
        assert(e@ =~= "sinks."@ + destination@ + ".bootstrap_servers must not be empty"@);
        return Err(e);
    }
    if topic.is_empty() {
        let a = concat("sinks.", destination);
        let e = concat(a.as_str(), ".topic must not be empty");
        assert(e@ =~= "sinks."@ + destination@ + ".topic must not be empty"@);
        return Err(e);
    }
    Ok(())
}

/// The producer's `bootstrap.servers` setting.
pub fn bootstrap_setting(bootstrap_servers: &Vec<String>) -> (r: String)
    ensures
        r@ == joined(names(bootstrap_servers@), ","@),
{
    let r = join_strings(bootstrap_servers.as_slice(), ",");
    assert(names(bootstrap_servers@) =~= bootstrap_servers@.map_values(|s: String| s@));
    r
}

/// Where a result of the metre engine goes: it knows only the `log` and
/// `kafka` destinations.
#[derive(Debug, Clone, Copy, PartialEq, Eq, Structural)]
pub enum MetreRoute {
    /// To the log sink, where one is configured.
    Log,
    /// To the Kafka sink, where one is configured.
    Kafka,
    /// Configured nowhere: the result is not sent.
    Skipped,
    /// Not a destination the engine knows.
    Unsupported,
}

pub open spec fn metre_route_of(destination: Seq<char>, has_log: bool, has_kafka: bool) -> MetreRoute {
    if destination == "log"@ {
        if has_log { MetreRoute::Log } else { MetreRoute::Skipped }
    } else if destination == "kafka"@ {
        if has_kafka { MetreRoute::Kafka } else { MetreRoute::Skipped }
    } else {
        MetreRoute::Unsupported
    }
}

/// The metre engine's route for a destination, given which of its two
/// sinks are configured.
pub fn metre_route(destination: &str, has_log: bool, has_kafka: bool) -> (r: MetreRoute)
    ensures
        r == metre_route_of(destination@, has_log, has_kafka),
{
    if str_eq(destination, "log") {
        if has_log { MetreRoute::Log } else { MetreRoute::Skipped }
    } else if str_eq(destination, "kafka") {
        if has_kafka { MetreRoute::Kafka } else { MetreRoute::Skipped }
    } else {
        MetreRoute::Unsupported
    }
}

/// Checks the metre engine's Kafka sink settings.
pub fn check_metre_kafka_sink(bootstrap_servers: &Vec<String>, topic: &str) -> (r: Result<(), String>)
    ensures
        match r {
            Ok(()) => kafka_problem("kafka"@, bootstrap_servers@.len(), topic@) is None,
            Err(e) => kafka_problem("kafka"@, bootstrap_servers@.len(), topic@) == Some(e@),
        },
{
    check_kafka_sink("kafka", bootstrap_servers, topic)
}


proof fn lemma_contained_sink_found(built: Seq<Seq<char>>, d: Seq<char>)
    requires
        built.contains(d),
    ensures
        sink_for(built, d) matches Some(k) && 0 <= k < built.len() && built[k] == d,
    decreases built.len(),
{
    if built[0] != d {
        let k = choose|k: int| 0 <= k < built.len() && built[k] == d;
        assert(built.drop_first()[k - 1] == d);
        lemma_contained_sink_found(built.drop_first(), d);
    }
}

/// Once a dispatch plan is accepted, every destination that a rule names
/// reaches a sink: no result of a known rule is routed nowhere.
pub proof fn law_used_destinations_have_sinks(configured: Seq<Seq<char>>, md: Seq<RuleMetadata>, d: Seq<char>)
    requires
        forall|x: Seq<char>| is_used(md, x) ==> configured.contains(x),
        is_used(md, d),
    ensures
        sink_for(kept_sinks(configured, md), d) matches Some(k) && kept_sinks(configured, md)[k] == d,
{
    assert(configured.contains(d));
    let k = choose|k: int| 0 <= k < configured.len() && configured[k] == d;
    configured.lemma_filter_contains(|x: Seq<char>| is_used(md, x), k);
    lemma_contained_sink_found(kept_sinks(configured, md), d);
}


/// What the Kafka producer did with a record.
#[derive(Debug, Clone, Copy, PartialEq, Eq, Structural)]
pub enum KafkaSendOutcome {
    Enqueued,
    /// The producer's queue was full.
    QueueFull,
    /// Any other refusal.
    Failed,
}

/// The metric that a Kafka send moves.
pub fn kafka_send_update(metrics: &OssMetrics, outcome: KafkaSendOutcome) -> (r: MetricUpdate)
    ensures
        r == update(
            match outcome {
                KafkaSendOutcome::Enqueued => OssMetric::KafkaEnqueue,
                KafkaSendOutcome::QueueFull => OssMetric::KafkaQueueFull,
                KafkaSendOutcome::Failed => OssMetric::KafkaEnqueueErrors,
            },
            MetricChange::CounterIncrement(1),
        ),
{
    match outcome {
        KafkaSendOutcome::Enqueued => metrics.record_kafka_enqueue(),
        KafkaSendOutcome::QueueFull => metrics.record_kafka_queue_full(),
        KafkaSendOutcome::Failed => metrics.record_kafka_enqueue_error(),
    }
}

/// The metric that a result moves when a destination of its rule has no
/// sink.
pub fn unsupported_destination_update(metrics: &OssMetrics, route: &SinkRoute) -> (r: Option<MetricUpdate>)
    ensures
        route.sink is None ==> r == Some(update(OssMetric::SinkUnsupportedDestinations, MetricChange::CounterIncrement(1))),
        route.sink is Some ==> r is None,
{
    match route.sink {
        None => Some(metrics.record_sink_unsupported_destination()),
        Some(_) => None,
    }
}

} // verus!
