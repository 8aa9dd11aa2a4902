use vstd::prelude::*;
use crate::cloudwatch::{
    CloudWatchError, MetricRequest, SeriesResult, query_id, query_id_spec, results_view,
};
use crate::instance::{
    Instance, InstanceView, instance_kind, instance_kind_spec, metric_set_spec,
    metrics_for, names_view,
};
use crate::tags::opt_view;

verus! {

/// One sample of one metric of one instance, with its labels. The value is an IEEE-754
/// bit pattern, handed on unchanged.
#[derive(Debug, Clone)]
pub struct MetricPoint {
    pub value: u64,
    pub metric_name: String,
    pub additional_tags: Vec<(String, String)>,
}

pub open spec fn labels_view(v: Seq<(String, String)>) -> Seq<(Seq<char>, Seq<char>)> {
    v.map_values(|p: (String, String)| (p.0@, p.1@))
}

pub struct PointView {
    pub value: u64,
    pub metric_name: Seq<char>,
    pub tags: Seq<(Seq<char>, Seq<char>)>,
}

impl View for MetricPoint {
    type V = PointView;

    open spec fn view(&self) -> PointView {
        PointView {
            value: self.value,
            metric_name: self.metric_name@,
            tags: labels_view(self.additional_tags@),
        }
    }
}

impl MetricPoint {
    /// The labels of a point form a mapping: their names are distinct.
    pub open spec fn wf(&self) -> bool {
        crate::publisher::distinct_keys(labels_view(self.additional_tags@))
    }

    /// Whether the label names of the point are distinct.
    pub fn has_distinct_labels(&self) -> (r: bool)
        ensures
            r == self.wf(),
    {
        let tags = &self.additional_tags;
        let ghost lv = labels_view(tags@);
        let mut i: usize = 0;
        while i < tags.len()
            invariant
                0 <= i <= tags@.len(),
                lv == labels_view(tags@),
                lv == labels_view(self.additional_tags@),
                forall|a: int, b: int| 0 <= a < i && a < b < tags@.len() ==> lv[a].0 != lv[b].0,
            decreases tags@.len() - i,
        {
            let mut j: usize = i + 1;
            while j < tags.len()
                invariant
                    i < tags@.len(),
                    i + 1 <= j <= tags@.len(),
                    lv == labels_view(tags@),
                    lv == labels_view(self.additional_tags@),
                    forall|a: int, b: int|
                        0 <= a < i && a < b < tags@.len() ==> lv[a].0 != lv[b].0,
                    forall|b: int| i < b < j ==> lv[i as int].0 != lv[b].0,
                decreases tags@.len() - j,
            {
                assert(lv[i as int] == (tags@[i as int].0@, tags@[i as int].1@));
                assert(lv[j as int] == (tags@[j as int].0@, tags@[j as int].1@));
                if tags[i].0 == tags[j].0 {
                    assert(lv[i as int] == (tags@[i as int].0@, tags@[i as int].1@));
                    assert(lv[j as int] == (tags@[j as int].0@, tags@[j as int].1@));
                    assert(lv[i as int].0 == lv[j as int].0);
                    assert(!crate::publisher::distinct_keys(lv));
                    return false;
                }
                j = j + 1;
            }
            i = i + 1;
        }
        true
    }
}

pub open spec fn points_view(v: Seq<MetricPoint>) -> Seq<PointView> {
    v.map_values(|p: MetricPoint| p@)
}

/// A label for an optional attribute: present only when the attribute is.
pub open spec fn opt_label(key: Seq<char>, v: Option<Seq<char>>) -> Seq<(Seq<char>, Seq<char>)> {
    match v {
        Some(x) => seq![(key, x)],
        None => Seq::empty(),
    }
}

/// The identifier of an instance, empty when it has none.
pub open spec fn instance_id_spec(i: InstanceView) -> Seq<char> {
    match i.identifier {
        Some(x) => x,
        None => Seq::empty(),
    }
}

/// The labels attached to every point of an instance.
pub open spec fn instance_labels_spec(i: InstanceView) -> Seq<(Seq<char>, Seq<char>)> {
    attribute_labels_spec(i) + seq![("instance_id"@, instance_id_spec(i))]
}

/// The labels of an instance's known attributes: identifier, engine, engine version,
/// class and availability zone.
pub open spec fn attribute_labels_spec(i: InstanceView) -> Seq<(Seq<char>, Seq<char>)> {
    opt_label("db_instance_identifier"@, i.identifier) + opt_label("engine"@, i.engine)
        + opt_label("engine_version"@, i.engine_version) + opt_label(
        "class"@,
        i.instance_class,
    ) + opt_label("availability_zone"@, i.availability_zone)
}

fn copy_opt_string(s: &Option<String>) -> (r: Option<String>)
    ensures
        opt_view(r) == opt_view(*s),
{
    match s {
        Some(x) => Some(x.clone()),
        None => None,
    }
}

fn push_opt_label(v: &mut Vec<(String, String)>, key: &str, value: &Option<String>)
    ensures
        labels_view(final(v)@) == labels_view(old(v)@) + opt_label(key@, opt_view(*value)),
{
    let ghost before = v@;
    match value {
        Some(x) => {
            v.push((String::from_str(key), x.clone()));
            assert(labels_view(v@) =~= labels_view(before) + opt_label(key@, opt_view(*value)));
        },
        None => {
            assert(labels_view(v@) =~= labels_view(before) + opt_label(key@, opt_view(*value)));
        },
    }
}

/// The labels of an instance have distinct names: they form a mapping.
pub proof fn lemma_instance_labels_distinct(i: InstanceView)
    ensures
        crate::publisher::distinct_keys(instance_labels_spec(i)),
{
    reveal_strlit("db_instance_identifier");
    reveal_strlit("engine");
    reveal_strlit("engine_version");
    reveal_strlit("class");
    reveal_strlit("availability_zone");
    reveal_strlit("instance_id");
    let l = instance_labels_spec(i);
    assert forall|a: int, b: int| 0 <= a < b < l.len() implies l[a].0 != l[b].0 by {
        assert(l[a].0.len() != l[b].0.len());
    }
}

/// The identifier of an instance, empty when it has none.
pub fn instance_id(inst: &Instance) -> (r: String)
    ensures
        r@ == instance_id_spec(inst@),
{
    match &inst.identifier {
        Some(x) => x.clone(),
        None => String::new(),
    }
}

/// The labels of an instance's attributes: its identifier, engine, engine version, class
/// and availability zone, each where known.
pub fn get_instance_tags(inst: &Instance) -> (r: Vec<(String, String)>)
    ensures
        labels_view(r@) == attribute_labels_spec(inst@),
{
    let mut v: Vec<(String, String)> = Vec::new();
    assert(labels_view(v@) =~= Seq::<(Seq<char>, Seq<char>)>::empty());
    push_opt_label(&mut v, "db_instance_identifier", &inst.identifier);
    push_opt_label(&mut v, "engine", &inst.engine);
    push_opt_label(&mut v, "engine_version", &inst.engine_version);
    push_opt_label(&mut v, "class", &inst.instance_class);
    push_opt_label(&mut v, "availability_zone", &inst.availability_zone);
    assert(labels_view(v@) =~= attribute_labels_spec(inst@));
    v
}

/// The labels attached to every point of an instance: its attribute labels, then
/// `instance_id` with its identifier.
pub fn instance_labels(inst: &Instance) -> (r: Vec<(String, String)>)
    ensures
        labels_view(r@) == instance_labels_spec(inst@),
{
    let mut v = get_instance_tags(inst);
    let ghost before = v@;
    v.push((String::from_str("instance_id"), instance_id(inst)));
    assert(labels_view(v@) =~= labels_view(before) + seq![("instance_id"@, instance_id_spec(inst@))]);
    v
}

/// The namespace of database metrics.
pub open spec fn rds_namespace() -> Seq<char> {
    "AWS/RDS"@
}

/// The dimension that names the instance of a series.
pub open spec fn instance_dimension() -> Seq<char> {
    "DBInstanceIdentifier"@
}

pub open spec fn request_view(r: MetricRequest) -> (Seq<char>, Seq<char>, Seq<char>, Seq<char>) {
    (r.namespace@, r.metric_name@, r.dimension_name@, r.dimension_value@)
}

/// One request per metric name, in order, on the instance's dimension.
pub open spec fn requests_spec(names: Seq<Seq<char>>, id: Seq<char>) -> Seq<
    (Seq<char>, Seq<char>, Seq<char>, Seq<char>),
> {
    names.map_values(|n: Seq<char>| (rds_namespace(), n, instance_dimension(), id))
}

/// The requests for the metric names of an instance.
pub fn metric_requests(names: &Vec<String>, inst: &Instance) -> (r: Vec<MetricRequest>)
    ensures
        r@.map_values(|q: MetricRequest| request_view(q)) == requests_spec(
            names_view(names@),
            instance_id_spec(inst@),
        ),
{
    let id = instance_id(inst);
    let mut out: Vec<MetricRequest> = Vec::new();
    let mut i: usize = 0;
    while i < names.len()
        invariant
            0 <= i <= names@.len(),
            id@ == instance_id_spec(inst@),
            out@.len() == i,
            forall|k: int|
                0 <= k < i ==> request_view(#[trigger] out@[k]) == (
                    rds_namespace(),
                    names@[k]@,
                    instance_dimension(),
                    id@,
                ),
        decreases names@.len() - i,
    {
        out.push(
            MetricRequest {
                namespace: String::from_str("AWS/RDS"),
                metric_name: names[i].clone(),
                dimension_name: String::from_str("DBInstanceIdentifier"),
                dimension_value: id.clone(),
            },
        );
        i = i + 1;
    }
    assert(out@.map_values(|q: MetricRequest| request_view(q)) =~= requests_spec(
        names_view(names@),
        instance_id_spec(inst@),
    ));
    out
}

/// The metric name whose query id is `id`, searching positions from `k` on.
pub open spec fn name_for_id(names: Seq<Seq<char>>, id: Seq<char>, k: nat) -> Option<Seq<char>>
    decreases names.len() - k,
{
    if k >= names.len() {
        None
    } else if query_id_spec(k) == id {
        Some(names[k as int])
    } else {
        name_for_id(names, id, k + 1)
    }
}

/// The points of one series: each sample with the metric name and labels.
pub open spec fn series_points(
    name: Seq<char>,
    values: Seq<u64>,
    labels: Seq<(Seq<char>, Seq<char>)>,
) -> Seq<PointView> {
    values.map_values(|v: u64| PointView { value: v, metric_name: name, tags: labels })
}

/// The points of a response, in result order; a result is correlated with its metric name
/// by query id, and a result whose id names no query is dropped.
pub open spec fn points_spec(
    names: Seq<Seq<char>>,
    results: Seq<(Seq<char>, Seq<u64>)>,
    labels: Seq<(Seq<char>, Seq<char>)>,
) -> Seq<PointView>
    decreases results.len(),
{
    if results.len() == 0 {
        Seq::empty()
    } else {
        points_spec(names, results.drop_last(), labels) + match name_for_id(
            names,
            results.last().0,
            0,
        ) {
            Some(n) => series_points(n, results.last().1, labels),
            None => Seq::empty(),
        }
    }
}

proof fn lemma_points_tags(
    names: Seq<Seq<char>>,
    results: Seq<(Seq<char>, Seq<u64>)>,
    labels: Seq<(Seq<char>, Seq<char>)>,
)
    ensures
        forall|k: int|
            0 <= k < points_spec(names, results, labels).len() ==> (#[trigger] points_spec(
                names,
                results,
                labels,
            )[k]).tags == labels,
    decreases results.len(),
{
    if results.len() > 0 {
        lemma_points_tags(names, results.drop_last(), labels);
        let prev = points_spec(names, results.drop_last(), labels);
        let extra = match name_for_id(names, results.last().0, 0) {
            Some(n) => series_points(n, results.last().1, labels),
            None => Seq::empty(),
        };
        assert(points_spec(names, results, labels) == prev + extra);
        assert forall|k: int| 0 <= k < (prev + extra).len() implies (#[trigger] (prev
            + extra)[k]).tags == labels by {
            if k >= prev.len() {
                assert((prev + extra)[k] == extra[k - prev.len()]);
            } else {
                assert((prev + extra)[k] == prev[k]);
            }
        }
    }
}

proof fn lemma_name_for_id_member(names: Seq<Seq<char>>, id: Seq<char>, k: nat)
    ensures
        name_for_id(names, id, k) is Some ==> names.contains(name_for_id(names, id, k)->0),
    decreases names.len() - k,
{
    if k < names.len() {
        if query_id_spec(k) == id {
            assert(names[k as int] == name_for_id(names, id, k)->0);
        } else {
            lemma_name_for_id_member(names, id, k + 1);
        }
    }
}

proof fn lemma_points_names(
    names: Seq<Seq<char>>,
    results: Seq<(Seq<char>, Seq<u64>)>,
    labels: Seq<(Seq<char>, Seq<char>)>,
)
    ensures
        forall|k: int|
            0 <= k < points_spec(names, results, labels).len() ==> names.contains(
                (#[trigger] points_spec(names, results, labels)[k]).metric_name,
            ),
    decreases results.len(),
{
    if results.len() > 0 {
        lemma_points_names(names, results.drop_last(), labels);
        lemma_name_for_id_member(names, results.last().0, 0);
        let prev = points_spec(names, results.drop_last(), labels);
        let extra = match name_for_id(names, results.last().0, 0) {
            Some(n) => series_points(n, results.last().1, labels),
            None => Seq::empty(),
        };
        assert(points_spec(names, results, labels) == prev + extra);
        assert forall|k: int| 0 <= k < (prev + extra).len() implies names.contains(
            (#[trigger] (prev + extra)[k]).metric_name,
        ) by {
            if k >= prev.len() {
                assert((prev + extra)[k] == extra[k - prev.len()]);
            } else {
                assert((prev + extra)[k] == prev[k]);
            }
        }
    }
}

/// Every point that an instance contributes names a metric of its engine's set and
/// carries that instance's labels, `instance_id` included.
pub proof fn lemma_instance_points_belong(inst: InstanceView, results: Seq<(Seq<char>, Seq<u64>)>)
    ensures
        forall|k: int|
            0 <= k < instance_points(inst, results).len() ==> {
                &&& metric_set_spec(instance_kind_spec(inst)).contains(
                    (#[trigger] instance_points(inst, results)[k]).metric_name,
                )
                &&& instance_points(inst, results)[k].tags == instance_labels_spec(inst)
                &&& instance_points(inst, results)[k].tags.last() == (
                    "instance_id"@,
                    instance_id_spec(inst),
                )
            },
{
    let names = metric_set_spec(instance_kind_spec(inst));
    let labels = instance_labels_spec(inst);
    lemma_points_names(names, results, labels);
    lemma_points_tags(names, results, labels);
}

fn find_name(names: &Vec<String>, id: &String) -> (r: Option<String>)
    ensures
        opt_view(r) == name_for_id(names_view(names@), id@, 0),
{
    let mut k: usize = 0;
    while k < names.len()
        invariant
            0 <= k <= names@.len(),
            name_for_id(names_view(names@), id@, 0) == name_for_id(
                names_view(names@),
                id@,
                k as nat,
            ),
        decreases names@.len() - k,
    {
        if query_id(k) == *id {
            return Some(names[k].clone());
        }
        k = k + 1;
    }
    None
}

fn copy_labels(v: &Vec<(String, String)>) -> (r: Vec<(String, String)>)
    ensures
        labels_view(r@) == labels_view(v@),
{
    let mut out: Vec<(String, String)> = Vec::new();
    let mut i: usize = 0;
    while i < v.len()
        invariant
            0 <= i <= v@.len(),
            out@.len() == i,
            forall|k: int|
                0 <= k < i ==> (#[trigger] out@[k]).0@ == v@[k].0@ && out@[k].1@ == v@[k].1@,
        decreases v@.len() - i,
    {
        out.push((v[i].0.clone(), v[i].1.clone()));
        i = i + 1;
    }
    assert(labels_view(out@) =~= labels_view(v@));
    out
}

/// Appends the points of a response to `batch`.
pub fn append_points(
    batch: &mut Vec<MetricPoint>,
    names: &Vec<String>,
    results: &Vec<SeriesResult>,
    labels: &Vec<(String, String)>,
)
    ensures
        points_view(final(batch)@) == points_view(old(batch)@) + points_spec(
            names_view(names@),
            results_view(results@),
            labels_view(labels@),
        ),
{
    let ghost start = points_view(batch@);
    let ghost nv = names_view(names@);
    let ghost lv = labels_view(labels@);
    let mut i: usize = 0;
    assert(results_view(results@.take(0)) =~= Seq::<(Seq<char>, Seq<u64>)>::empty());
    assert(points_view(batch@) =~= start + points_spec(nv, results_view(results@.take(0)), lv));
    while i < results.len()
        invariant
            0 <= i <= results@.len(),
            nv == names_view(names@),
            lv == labels_view(labels@),
            points_view(batch@) == start + points_spec(nv, results_view(results@.take(i as int)), lv),
        decreases results@.len() - i,
    {
        let ghost rv = results_view(results@.take(i + 1));
        assert(rv.drop_last() =~= results_view(results@.take(i as int)));
        assert(rv.last() == results@[i as int]@);
        let r = &results[i];
        match find_name(names, &r.id) {
            Some(n) => {
                let ghost mid = points_view(batch@);
                let mut j: usize = 0;
                while j < r.values.len()
                    invariant
                        0 <= j <= r.values@.len(),
                        points_view(batch@) == mid + series_points(n@, r.values@.take(j as int), lv),
                        lv == labels_view(labels@),
                    decreases r.values@.len() - j,
                {
                    let ghost b = points_view(batch@);
                    batch.push(
                        MetricPoint {
                            value: r.values[j],
                            metric_name: n.clone(),
                            additional_tags: copy_labels(labels),
                        },
                    );
                    assert(points_view(batch@) =~= b.push(points_view(batch@).last()));
                    assert(series_points(n@, r.values@.take(j + 1), lv) =~= series_points(
                        n@,
                        r.values@.take(j as int),
                        lv,
                    ).push(PointView { value: r.values@[j as int], metric_name: n@, tags: lv }));
                    j = j + 1;
                }
                assert(r.values@.take(j as int) =~= r.values@);
                assert(points_view(batch@) =~= start + points_spec(nv, rv, lv));
            },
            None => {
                assert(points_view(batch@) =~= start + points_spec(nv, rv, lv));
            },
        }
        i = i + 1;
    }
    assert(results@.take(i as int) =~= results@);
}

/// The points that one instance contributes for a response to its requests.
pub open spec fn instance_points(inst: InstanceView, results: Seq<(Seq<char>, Seq<u64>)>) -> Seq<
    PointView,
> {
    points_spec(
        metric_set_spec(instance_kind_spec(inst)),
        results,
        instance_labels_spec(inst),
    )
}

/// One poll cycle over a fleet: instances are queried one after another, a failed query
/// skips its instance, and the points of the others accumulate in order.
pub struct CollectionCycle {
    pub instances: Vec<Instance>,
    pub next: usize,
    pub batch: Vec<MetricPoint>,
    /// Start of the time window that every query of the cycle covers, in seconds.
    pub start_secs: i64,
    /// End of that window: the moment the cycle started, in seconds.
    pub end_secs: i64,
}

/// Length of the trailing time window of a cycle's queries, in seconds.
pub const WINDOW_SECS: i64 = 300;

impl CollectionCycle {
    /// Every point gathered so far has distinct label names.
    pub open spec fn wf(&self) -> bool {
        &&& self.next <= self.instances@.len()
        &&& forall|k: int| 0 <= k < self.batch@.len() ==> (#[trigger] self.batch@[k]).wf()
    }

    /// A cycle over `instances` whose queries cover the window that ends at `now_secs`.
    pub fn new(instances: Vec<Instance>, now_secs: i64) -> (r: CollectionCycle)
        requires
            now_secs >= i64::MIN + WINDOW_SECS,
        ensures
            r.wf(),
            r.instances == instances,
            r.next == 0,
            r.batch@.len() == 0,
            r.end_secs == now_secs,
            r.start_secs == now_secs - WINDOW_SECS,
    {
        CollectionCycle {
            instances,
            next: 0,
            batch: Vec::new(),
            start_secs: now_secs - WINDOW_SECS,
            end_secs: now_secs,
        }
    }

    /// Whether every instance has been queried.
    pub fn is_done(&self) -> (r: bool)
        ensures
            r == (self.next >= self.instances@.len()),
    {
        self.next >= self.instances.len()
    }

    /// The metric names and requests of the next instance, if one is left.
    pub fn next_requests(&self) -> (r: Option<(Vec<String>, Vec<MetricRequest>)>)
        requires
            self.wf(),
        ensures
            r is None <==> self.next >= self.instances@.len(),
            r is Some ==> {
                let inst = self.instances@[self.next as int]@;
                let (names, reqs) = r->0;
                &&& names_view(names@) == metric_set_spec(instance_kind_spec(inst))
                &&& reqs@.map_values(|q: MetricRequest| request_view(q)) == requests_spec(
                    metric_set_spec(instance_kind_spec(inst)),
                    instance_id_spec(inst),
                )
            },
    {
        if self.next >= self.instances.len() {
            return None;
        }
        let inst = &self.instances[self.next];
        let names = metrics_for(instance_kind(inst));
        let reqs = metric_requests(&names, inst);
        Some((names, reqs))
    }

    /// Takes the outcome of the next instance's query: its points join the batch on
    /// success; on failure the instance is skipped.
    pub fn record(&mut self, outcome: Result<Vec<SeriesResult>, CloudWatchError>)
        requires
            old(self).wf(),
            old(self).next < old(self).instances@.len(),
        ensures
            final(self).wf(),
            final(self).instances == old(self).instances,
            final(self).next == old(self).next + 1,
            final(self).start_secs == old(self).start_secs,
            final(self).end_secs == old(self).end_secs,
            match outcome {
                Ok(rs) => points_view(final(self).batch@) == points_view(old(self).batch@)
                    + instance_points(
                    old(self).instances@[old(self).next as int]@,
                    results_view(rs@),
                ),
                Err(_) => points_view(final(self).batch@) == points_view(old(self).batch@),
            },
    {
        match outcome {
            Ok(rs) => {
                let inst = &self.instances[self.next];
                let names = metrics_for(instance_kind(inst));
                let labels = instance_labels(inst);
                let ghost old_batch = self.batch@;
                append_points(&mut self.batch, &names, &rs, &labels);
                proof {
                    let added = points_spec(names_view(names@), results_view(rs@), labels_view(labels@));
                    lemma_points_tags(names_view(names@), results_view(rs@), labels_view(labels@));
                    lemma_instance_labels_distinct(inst@);
                    assert forall|k: int| 0 <= k < self.batch@.len() implies (
                    #[trigger] self.batch@[k]).wf() by {
                        assert(points_view(self.batch@)[k] == self.batch@[k]@);
                        if k < old_batch.len() {
                            assert(points_view(old_batch)[k] == old_batch[k]@);
                            assert(points_view(self.batch@)[k] == points_view(old_batch)[k]);
                        } else {
                            assert(points_view(self.batch@) == points_view(old_batch) + added);
                            assert(points_view(old_batch).len() == old_batch.len());
                            assert(points_view(self.batch@).len() == self.batch@.len());
                            assert(k - old_batch.len() < added.len());
                            assert((points_view(old_batch) + added)[k] == added[k
                                - old_batch.len()]);
                        }
                    }
                }
            },
            Err(_) => {},
        }
        if self.next < self.instances.len() {
            self.next = self.next + 1;
        }
    }

    /// The points gathered by the cycle.
    pub fn finish(self) -> (r: Vec<MetricPoint>)
        requires
            self.wf(),
        ensures
            r == self.batch,
            forall|k: int| 0 <= k < r@.len() ==> (#[trigger] r@[k]).wf(),
    {
        self.batch
    }
}

/// Whether the collection loop waits for its timer or runs a cycle.
#[derive(Debug, Clone, Copy, PartialEq, Eq, Structural)]
pub enum CollectorState {
    Idle,
    Collecting,
}

/// The state after a timer tick, and whether a cycle starts.
pub open spec fn tick_next(s: CollectorState) -> (CollectorState, bool) {
    match s {
        CollectorState::Idle => (CollectorState::Collecting, true),
        CollectorState::Collecting => (CollectorState::Collecting, false),
    }
}

/// The state after a cycle ended, whatever its outcome, and the wait before the next tick.
pub open spec fn cycle_end_next(s: CollectorState, interval: u64) -> (CollectorState, u64) {
    (CollectorState::Idle, interval)
}

/// The collection loop's schedule: a cycle starts at each tick of a fixed-interval timer
/// and the loop returns to waiting after every cycle, however it ended.
pub struct RdsMetricCollector {
    pub collection_interval_secs: u64,
    pub state: CollectorState,
}

impl RdsMetricCollector {
    pub fn new(collection_interval_secs: u64) -> (r: RdsMetricCollector)
        ensures
            r.collection_interval_secs == collection_interval_secs,
            r.state == CollectorState::Idle,
    {
        RdsMetricCollector { collection_interval_secs, state: CollectorState::Idle }
    }

    /// A timer tick: starts a cycle unless one is running.
    pub fn on_tick(&mut self) -> (r: bool)
        ensures
            (final(self).state, r) == tick_next(old(self).state),
            final(self).collection_interval_secs == old(self).collection_interval_secs,
    {
        match self.state {
            CollectorState::Idle => {
                self.state = CollectorState::Collecting;
                true
            },
            CollectorState::Collecting => false,
        }
    }

    /// The end of a cycle, successful or not: back to waiting, for the interval.
    pub fn on_cycle_end<E>(&mut self, outcome: Result<(), E>) -> (r: u64)
        ensures
            (final(self).state, r) == cycle_end_next(
                old(self).state,
                old(self).collection_interval_secs,
            ),
            final(self).collection_interval_secs == old(self).collection_interval_secs,
    {
        self.state = CollectorState::Idle;
        self.collection_interval_secs
    }
}

/// A cycle whose directory listing failed ends like any other: the loop waits for the
/// interval, and the next tick starts a new cycle.
pub proof fn lemma_failed_cycle_does_not_stop_loop(interval: u64)
    ensures
        cycle_end_next(CollectorState::Collecting, interval) == (CollectorState::Idle, interval),
        tick_next(cycle_end_next(CollectorState::Collecting, interval).0) == (
            CollectorState::Collecting,
            true,
        ),
{
}

} // verus!
