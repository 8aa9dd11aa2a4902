use vstd::prelude::*;
use crate::collector::{MetricPoint, PointView, labels_view, points_view};

verus! {

/// What `str::to_lowercase` returns for a string.
pub uninterp spec fn lower_of(s: Seq<char>) -> Seq<char>;

/// Relies on str::to_lowercase: the Unicode lower case of a string, which depends on its
/// characters alone.
#[verifier::external_body]
fn lowercase(s: &str) -> (r: String)
    ensures
        r@ == lower_of(s@),
{
    s.to_lowercase()
}

/// The series name of a metric: `rds_` followed by the lower-cased metric name.
pub open spec fn series_name_spec(metric_name: Seq<char>) -> Seq<char> {
    "rds_"@ + lower_of(metric_name)
}

/// A failure to record a point.
#[derive(Debug, Clone)]
pub enum RegistryError {
    /// The series of this name exists with another set of label names.
    RegistrationConflict(String),
}

/// One numeric cell of a series: the label values that address it and its value.
#[derive(Debug, Clone)]
pub struct Cell {
    pub label_values: Vec<String>,
    pub value: u64,
}

/// A gauge series: its name, its label names fixed at creation, and its cells.
#[derive(Debug, Clone)]
pub struct Series {
    pub name: String,
    pub label_names: Vec<String>,
    pub cells: Vec<Cell>,
}

pub open spec fn strs_view(v: Seq<String>) -> Seq<Seq<char>> {
    v.map_values(|s: String| s@)
}

pub struct SeriesView {
    pub name: Seq<char>,
    pub labels: Seq<Seq<char>>,
    pub cells: Seq<(Seq<Seq<char>>, u64)>,
}

pub open spec fn cells_view(v: Seq<Cell>) -> Seq<(Seq<Seq<char>>, u64)> {
    v.map_values(|c: Cell| (strs_view(c.label_values@), c.value))
}

impl View for Series {
    type V = SeriesView;

    open spec fn view(&self) -> SeriesView {
        SeriesView {
            name: self.name@,
            labels: strs_view(self.label_names@),
            cells: cells_view(self.cells@),
        }
    }
}

pub open spec fn registry_view(v: Seq<Series>) -> Seq<SeriesView> {
    v.map_values(|s: Series| s@)
}

/// The first series named `name`, from position `k` on.
pub open spec fn series_index(ss: Seq<SeriesView>, name: Seq<char>, k: nat) -> Option<nat>
    decreases ss.len() - k,
{
    if k >= ss.len() {
        None
    } else if ss[k as int].name == name {
        Some(k)
    } else {
        series_index(ss, name, k + 1)
    }
}

/// The first cell addressed by `vals`, from position `k` on.
pub open spec fn cell_index(cs: Seq<(Seq<Seq<char>>, u64)>, vals: Seq<Seq<char>>, k: nat) -> Option<
    nat,
>
    decreases cs.len() - k,
{
    if k >= cs.len() {
        None
    } else if cs[k as int].0 == vals {
        Some(k)
    } else {
        cell_index(cs, vals, k + 1)
    }
}

/// The first label of `tags` with key `key`, from position `k` on.
pub open spec fn key_index(tags: Seq<(Seq<char>, Seq<char>)>, key: Seq<char>, k: nat) -> Option<nat>
    decreases tags.len() - k,
{
    if k >= tags.len() {
        None
    } else if tags[k as int].0 == key {
        Some(k)
    } else {
        key_index(tags, key, k + 1)
    }
}

/// The value of a label name in `tags`, empty when absent.
pub open spec fn value_of_key(tags: Seq<(Seq<char>, Seq<char>)>, key: Seq<char>) -> Seq<char> {
    match key_index(tags, key, 0) {
        Some(j) => tags[j as int].1,
        None => Seq::empty(),
    }
}

/// The values of `tags` for the label names `names`, in that order.
pub open spec fn label_values(names: Seq<Seq<char>>, tags: Seq<(Seq<char>, Seq<char>)>) -> Seq<
    Seq<char>,
> {
    names.map_values(|n: Seq<char>| value_of_key(tags, n))
}

/// The label names of a point, in order.
pub open spec fn label_keys(tags: Seq<(Seq<char>, Seq<char>)>) -> Seq<Seq<char>> {
    tags.map_values(|t: (Seq<char>, Seq<char>)| t.0)
}

/// A point with distinct label names fits a series when it has as many labels and each
/// of the series' label names among them: its label-name set is the series'.
pub open spec fn compatible(names: Seq<Seq<char>>, tags: Seq<(Seq<char>, Seq<char>)>) -> bool {
    &&& names.len() == tags.len()
    &&& forall|i: int| 0 <= i < names.len() ==> #[trigger] key_index(tags, names[i], 0) is Some
}

/// Sets the cell addressed by `vals`, adding it when absent.
pub open spec fn set_cell(cs: Seq<(Seq<Seq<char>>, u64)>, vals: Seq<Seq<char>>, v: u64) -> Seq<
    (Seq<Seq<char>>, u64),
> {
    match cell_index(cs, vals, 0) {
        Some(k) => cs.update(k as int, (vals, v)),
        None => cs.push((vals, v)),
    }
}

/// Records one value: the first observation of a series name creates it with the point's
/// label names; a later point of that name with the same label names sets its cell (the
/// latest value wins); one with other label names is refused and changes nothing.
pub open spec fn observe_spec(
    reg: Seq<SeriesView>,
    name: Seq<char>,
    tags: Seq<(Seq<char>, Seq<char>)>,
    v: u64,
) -> (Seq<SeriesView>, bool) {
    match series_index(reg, name, 0) {
        Some(i) => if compatible(reg[i as int].labels, tags) {
            let s = reg[i as int];
            (
                reg.update(
                    i as int,
                    SeriesView {
                        cells: set_cell(s.cells, label_values(s.labels, tags), v),
                        ..s
                    },
                ),
                true,
            )
        } else {
            (reg, false)
        },
        None => (
            reg.push(
                SeriesView {
                    name,
                    labels: label_keys(tags),
                    cells: seq![(label_values(label_keys(tags), tags), v)],
                },
            ),
            true,
        ),
    }
}

/// The value of the cell of series `name` that the labels `tags` address, if any.
pub open spec fn cell_value(
    reg: Seq<SeriesView>,
    name: Seq<char>,
    tags: Seq<(Seq<char>, Seq<char>)>,
) -> Option<u64> {
    match series_index(reg, name, 0) {
        Some(i) => {
            let s = reg[i as int];
            match cell_index(s.cells, label_values(s.labels, tags), 0) {
                Some(k) => Some(s.cells[k as int].1),
                None => None,
            }
        },
        None => None,
    }
}

/// The label names of a point are distinct: its labels are a mapping.
pub open spec fn distinct_keys(tags: Seq<(Seq<char>, Seq<char>)>) -> bool {
    forall|i: int, j: int| 0 <= i < j < tags.len() ==> tags[i].0 != tags[j].0
}

/// Publishes points one after another.
pub open spec fn publish_spec(reg: Seq<SeriesView>, points: Seq<PointView>) -> Seq<SeriesView>
    decreases points.len(),
{
    if points.len() == 0 {
        reg
    } else {
        let p = points.last();
        observe_spec(
            publish_spec(reg, points.drop_last()),
            series_name_spec(p.metric_name),
            p.tags,
            p.value,
        ).0
    }
}

proof fn lemma_series_index_push(ss: Seq<SeriesView>, x: SeriesView, name: Seq<char>, k: nat)
    requires
        k <= ss.len(),
        series_index(ss, name, k) is None,
        x.name == name,
    ensures
        series_index(ss.push(x), name, k) == Some(ss.len()),
    decreases ss.len() - k,
{
    if k < ss.len() {
        assert(ss.push(x)[k as int] == ss[k as int]);
        lemma_series_index_push(ss, x, name, k + 1);
    }
}

proof fn lemma_series_index_same_names(
    s1: Seq<SeriesView>,
    s2: Seq<SeriesView>,
    name: Seq<char>,
    k: nat,
)
    requires
        s1.len() == s2.len(),
        forall|j: int| 0 <= j < s1.len() ==> (#[trigger] s1[j]).name == s2[j].name,
    ensures
        series_index(s1, name, k) == series_index(s2, name, k),
    decreases s1.len() - k,
{
    if k < s1.len() {
        lemma_series_index_same_names(s1, s2, name, k + 1);
    }
}

proof fn lemma_key_index_found(tags: Seq<(Seq<char>, Seq<char>)>, i: int, k: nat)
    requires
        k <= i < tags.len(),
    ensures
        key_index(tags, tags[i].0, k) is Some,
    decreases i - k,
{
    if tags[k as int].0 != tags[i].0 {
        lemma_key_index_found(tags, i, k + 1);
    }
}

/// Two points of a new series with the same label names and different label values set two
/// independent cells; a third point of that name with another label-name set is refused,
/// changes nothing, and both cells keep their values.
pub proof fn lemma_cells_independent_conflict_dropped(
    reg: Seq<SeriesView>,
    name: Seq<char>,
    ta: Seq<(Seq<char>, Seq<char>)>,
    tb: Seq<(Seq<char>, Seq<char>)>,
    tc: Seq<(Seq<char>, Seq<char>)>,
    va: u64,
    vb: u64,
    vc: u64,
)
    requires
        series_index(reg, name, 0) is None,
        label_keys(tb) == label_keys(ta),
        label_values(label_keys(ta), ta) != label_values(label_keys(ta), tb),
        !compatible(label_keys(ta), tc),
    ensures
        ({
            let r1 = observe_spec(reg, name, ta, va);
            let r2 = observe_spec(r1.0, name, tb, vb);
            let r3 = observe_spec(r2.0, name, tc, vc);
            &&& r1.1
            &&& r2.1
            &&& !r3.1
            &&& r3.0 == r2.0
            &&& cell_value(r3.0, name, ta) == Some(va)
            &&& cell_value(r3.0, name, tb) == Some(vb)
        }),
{
    let keys = label_keys(ta);
    let la = label_values(keys, ta);
    let lb = label_values(keys, tb);
    let x = SeriesView { name, labels: keys, cells: seq![(la, va)] };
    let r1 = observe_spec(reg, name, ta, va);
    assert(r1.0 == reg.push(x));
    lemma_series_index_push(reg, x, name, 0);
    let n = reg.len();
    assert(series_index(r1.0, name, 0) == Some(n));
    assert forall|i: int| 0 <= i < keys.len() implies #[trigger] key_index(tb, keys[i], 0) is Some by {
        assert(keys[i] == label_keys(tb)[i]);
        assert(label_keys(tb)[i] == tb[i].0);
        lemma_key_index_found(tb, i, 0);
    }
    assert(compatible(keys, tb));
    assert(r1.0[n as int] == x);
    let cs2 = set_cell(x.cells, lb, vb);
    assert(cell_index(x.cells, lb, 1) is None);
    assert(cell_index(x.cells, lb, 0) is None);
    assert(cs2 == seq![(la, va), (lb, vb)]);
    let y = SeriesView { cells: cs2, ..x };
    let r2 = observe_spec(r1.0, name, tb, vb);
    assert(r2.0 == r1.0.update(n as int, y));
    lemma_series_index_same_names(r1.0, r2.0, name, 0);
    assert(series_index(r2.0, name, 0) == Some(n));
    assert(r2.0[n as int] == y);
    assert(cell_index(cs2, la, 0) == Some(0nat));
    assert(cs2[1].0 == lb);
    assert(cs2[0].0 == la);
    assert(cell_index(cs2, lb, 1) == Some(1nat));
    assert(cell_index(cs2, lb, 0) == Some(1nat));
}

/// The series names of the points of a batch that are refused, in order.
pub open spec fn publish_conflicts(reg: Seq<SeriesView>, points: Seq<PointView>) -> Seq<Seq<char>>
    decreases points.len(),
{
    if points.len() == 0 {
        Seq::empty()
    } else {
        let p = points.last();
        let name = series_name_spec(p.metric_name);
        let earlier = publish_conflicts(reg, points.drop_last());
        if observe_spec(publish_spec(reg, points.drop_last()), name, p.tags, p.value).1 {
            earlier
        } else {
            earlier.push(name)
        }
    }
}

/// The series that a conflict names.
pub open spec fn conflict_name(e: RegistryError) -> Seq<char> {
    match e {
        RegistryError::RegistrationConflict(n) => n@,
    }
}

/// A series name: `rds_` followed by an already lower-cased metric name.
pub fn prefixed_series_name(lower: &str) -> (r: String)
    ensures
        r@ == "rds_"@ + lower@,
{
    let mut name = String::from_str("rds_");
    name.append(lower);
    name
}

fn copy_strs(v: &Vec<String>) -> (r: Vec<String>)
    ensures
        strs_view(r@) == strs_view(v@),
{
    let mut out: Vec<String> = Vec::new();
    let mut i: usize = 0;
    while i < v.len()
        invariant
            0 <= i <= v@.len(),
            out@.len() == i,
            forall|k: int| 0 <= k < i ==> (#[trigger] out@[k])@ == v@[k]@,
        decreases v@.len() - i,
    {
        out.push(v[i].clone());
        i = i + 1;
    }
    assert(strs_view(out@) =~= strs_view(v@));
    out
}

fn find_key(tags: &Vec<(String, String)>, key: &String) -> (r: Option<usize>)
    ensures
        match r {
            Some(j) => key_index(labels_view(tags@), key@, 0) == Some(j as nat) && j < tags@.len(),
            None => key_index(labels_view(tags@), key@, 0) is None,
        },
{
    let mut k: usize = 0;
    while k < tags.len()
        invariant
            0 <= k <= tags@.len(),
            key_index(labels_view(tags@), key@, 0) == key_index(labels_view(tags@), key@, k as nat),
        decreases tags@.len() - k,
    {
        if tags[k].0 == *key {
            return Some(k);
        }
        k = k + 1;
    }
    None
}

fn values_for(names: &Vec<String>, tags: &Vec<(String, String)>) -> (r: Vec<String>)
    ensures
        strs_view(r@) == label_values(strs_view(names@), labels_view(tags@)),
{
    let mut out: Vec<String> = Vec::new();
    let mut i: usize = 0;
    while i < names.len()
        invariant
            0 <= i <= names@.len(),
            out@.len() == i,
            forall|k: int|
                0 <= k < i ==> (#[trigger] out@[k])@ == value_of_key(labels_view(tags@), names@[k]@),
        decreases names@.len() - i,
    {
        let v = match find_key(tags, &names[i]) {
            Some(j) => tags[j].1.clone(),
            None => String::new(),
        };
        out.push(v);
        i = i + 1;
    }
    assert(strs_view(out@) =~= label_values(strs_view(names@), labels_view(tags@)));
    out
}

fn is_compatible(names: &Vec<String>, tags: &Vec<(String, String)>) -> (r: bool)
    ensures
        r == compatible(strs_view(names@), labels_view(tags@)),
{
    if names.len() != tags.len() {
        return false;
    }
    let mut i: usize = 0;
    while i < names.len()
        invariant
            0 <= i <= names@.len(),
            names@.len() == tags@.len(),
            forall|k: int|
                0 <= k < i ==> #[trigger] key_index(
                    labels_view(tags@),
                    strs_view(names@)[k],
                    0,
                ) is Some,
        decreases names@.len() - i,
    {
        if find_key(tags, &names[i]).is_none() {
            assert(strs_view(names@)[i as int] == names@[i as int]@);
            return false;
        }
        assert(strs_view(names@)[i as int] == names@[i as int]@);
        i = i + 1;
    }
    true
}

fn keys_of(tags: &Vec<(String, String)>) -> (r: Vec<String>)
    ensures
        strs_view(r@) == label_keys(labels_view(tags@)),
{
    let mut out: Vec<String> = Vec::new();
    let mut i: usize = 0;
    while i < tags.len()
        invariant
            0 <= i <= tags@.len(),
            out@.len() == i,
            forall|k: int| 0 <= k < i ==> (#[trigger] out@[k])@ == tags@[k].0@,
        decreases tags@.len() - i,
    {
        out.push(tags[i].0.clone());
        i = i + 1;
    }
    assert(strs_view(out@) =~= label_keys(labels_view(tags@)));
    out
}

fn find_cell(cells: &Vec<Cell>, vals: &Vec<String>) -> (r: Option<usize>)
    ensures
        match r {
            Some(j) => cell_index(cells_view(cells@), strs_view(vals@), 0) == Some(j as nat) && j
                < cells@.len(),
            None => cell_index(cells_view(cells@), strs_view(vals@), 0) is None,
        },
{
    let mut k: usize = 0;
    while k < cells.len()
        invariant
            0 <= k <= cells@.len(),
            cell_index(cells_view(cells@), strs_view(vals@), 0) == cell_index(
                cells_view(cells@),
                strs_view(vals@),
                k as nat,
            ),
        decreases cells@.len() - k,
    {
        if same_strs(&cells[k].label_values, vals) {
            return Some(k);
        }
        k = k + 1;
    }
    None
}

fn same_strs(a: &Vec<String>, b: &Vec<String>) -> (r: bool)
    ensures
        r == (strs_view(a@) == strs_view(b@)),
{
    if a.len() != b.len() {
        assert(strs_view(a@).len() != strs_view(b@).len());
        return false;
    }
    let mut i: usize = 0;
    while i < a.len()
        invariant
            0 <= i <= a@.len(),
            a@.len() == b@.len(),
            forall|k: int| 0 <= k < i ==> strs_view(a@)[k] == strs_view(b@)[k],
        decreases a@.len() - i,
    {
        if a[i] != b[i] {
            assert(strs_view(a@)[i as int] != strs_view(b@)[i as int]);
            return false;
        }
        i = i + 1;
    }
    assert(strs_view(a@) =~= strs_view(b@));
    true
}

fn copy_cells(v: &Vec<Cell>) -> (r: Vec<Cell>)
    ensures
        cells_view(r@) == cells_view(v@),
{
    let mut out: Vec<Cell> = Vec::new();
    let mut i: usize = 0;
    while i < v.len()
        invariant
            0 <= i <= v@.len(),
            out@.len() == i,
            forall|k: int|
                0 <= k < i ==> strs_view((#[trigger] out@[k]).label_values@) == strs_view(
                    v@[k].label_values@,
                ) && out@[k].value == v@[k].value,
        decreases v@.len() - i,
    {
        out.push(Cell { label_values: copy_strs(&v[i].label_values), value: v[i].value });
        i = i + 1;
    }
    assert(cells_view(out@) =~= cells_view(v@));
    out
}

/// The gauge registry fed by the collection loop and read by the scrape endpoint.
pub struct PrometheusPublisher {
    pub series: Vec<Series>,
}

impl PrometheusPublisher {
    pub open spec fn view_reg(&self) -> Seq<SeriesView> {
        registry_view(self.series@)
    }

    pub fn new() -> (r: PrometheusPublisher)
        ensures
            r.view_reg().len() == 0,
    {
        PrometheusPublisher { series: Vec::new() }
    }

    /// The series name of a point: `rds_` followed by its lower-cased metric name.
    pub fn create_metric_name(&self, metric: &MetricPoint) -> (r: String)
        ensures
            r@ == series_name_spec(metric.metric_name@),
    {
        let lower = lowercase(metric.metric_name.as_str());
        prefixed_series_name(lower.as_str())
    }

    fn find_series(&self, name: &String) -> (r: Option<usize>)
        ensures
            match r {
                Some(j) => series_index(self.view_reg(), name@, 0) == Some(j as nat) && j
                    < self.series@.len(),
                None => series_index(self.view_reg(), name@, 0) is None,
            },
    {
        let mut k: usize = 0;
        while k < self.series.len()
            invariant
                0 <= k <= self.series@.len(),
                series_index(self.view_reg(), name@, 0) == series_index(
                    self.view_reg(),
                    name@,
                    k as nat,
                ),
            decreases self.series@.len() - k,
        {
            if self.series[k].name == *name {
                return Some(k);
            }
            k = k + 1;
        }
        None
    }

    /// Records one point under its series name; a point whose label names differ from its
    /// series' is refused.
    pub fn observe(&mut self, metric: &MetricPoint) -> (r: Result<(), RegistryError>)
        requires
            distinct_keys(labels_view(metric.additional_tags@)),
        ensures
            (registry_view(final(self).series@), r is Ok) == observe_spec(
                registry_view(old(self).series@),
                series_name_spec(metric.metric_name@),
                labels_view(metric.additional_tags@),
                metric.value,
            ),
            r is Err ==> conflict_name(r->Err_0) == series_name_spec(metric.metric_name@),
    {
        let name = self.create_metric_name(metric);
        self.observe_as(name, metric)
    }

    /// Records one point in the series `name`; a point whose label names differ from the
    /// series' is refused with a conflict naming the series.
    pub fn observe_as(&mut self, name: String, metric: &MetricPoint) -> (r: Result<
        (),
        RegistryError,
    >)
        requires
            distinct_keys(labels_view(metric.additional_tags@)),
        ensures
            (registry_view(final(self).series@), r is Ok) == observe_spec(
                registry_view(old(self).series@),
                name@,
                labels_view(metric.additional_tags@),
                metric.value,
            ),
            r is Err ==> conflict_name(r->Err_0) == name@,
    {
        let tags = &metric.additional_tags;
        let ghost reg = self.view_reg();
        match self.find_series(&name) {
            Some(i) => {
                if !is_compatible(&self.series[i].label_names, tags) {
                    return Err(RegistryError::RegistrationConflict(name));
                }
                let vals = values_for(&self.series[i].label_names, tags);
                let mut cells = copy_cells(&self.series[i].cells);
                let ghost cv = cells_view(cells@);
                match find_cell(&cells, &vals) {
                    Some(k) => {
                        cells.set(k, Cell { label_values: vals, value: metric.value });
                        assert(cells_view(cells@) =~= cv.update(
                            k as int,
                            (label_values(reg[i as int].labels, labels_view(tags@)), metric.value),
                        ));
                    },
                    None => {
                        cells.push(Cell { label_values: vals, value: metric.value });
                        assert(cells_view(cells@) =~= cv.push(
                            (label_values(reg[i as int].labels, labels_view(tags@)), metric.value),
                        ));
                    },
                }
                let s = Series {
                    name: self.series[i].name.clone(),
                    label_names: copy_strs(&self.series[i].label_names),
                    cells,
                };
                self.series.set(i, s);
                assert(registry_view(self.series@) =~= observe_spec(
                    reg,
                    name@,
                    labels_view(metric.additional_tags@),
                    metric.value,
                ).0);
                Ok(())
            },
            None => {
                let keys = keys_of(tags);
                let vals = values_for(&keys, tags);
                let mut cells: Vec<Cell> = Vec::new();
                cells.push(Cell { label_values: vals, value: metric.value });
                assert(cells_view(cells@) =~= seq![
                    (label_values(label_keys(labels_view(tags@)), labels_view(tags@)), metric.value),
                ]);
                self.series.push(Series { name, label_names: keys, cells });
                assert(registry_view(self.series@) =~= observe_spec(
                    reg,
                    name@,
                    labels_view(metric.additional_tags@),
                    metric.value,
                ).0);
                Ok(())
            },
        }
    }

    /// Records a batch in order; returns one conflict for each point that was refused and
    /// dropped, in order.
    pub fn publish(&mut self, metrics: &Vec<MetricPoint>) -> (r: Vec<RegistryError>)
        requires
            forall|i: int|
                0 <= i < metrics@.len() ==> distinct_keys(
                    labels_view((#[trigger] metrics@[i]).additional_tags@),
                ),
        ensures
            registry_view(final(self).series@) == publish_spec(
                registry_view(old(self).series@),
                points_view(metrics@),
            ),
            r@.map_values(|e: RegistryError| conflict_name(e)) == publish_conflicts(
                registry_view(old(self).series@),
                points_view(metrics@),
            ),
    {
        let ghost start = registry_view(self.series@);
        let mut errors: Vec<RegistryError> = Vec::new();
        let mut i: usize = 0;
        assert(points_view(metrics@.take(0)) =~= Seq::<PointView>::empty());
        assert(errors@.map_values(|e: RegistryError| conflict_name(e)) =~= Seq::<Seq<char>>::empty());
        while i < metrics.len()
            invariant
                0 <= i <= metrics@.len(),
                registry_view(self.series@) == publish_spec(
                    start,
                    points_view(metrics@.take(i as int)),
                ),
                errors@.map_values(|e: RegistryError| conflict_name(e)) == publish_conflicts(
                    start,
                    points_view(metrics@.take(i as int)),
                ),
                forall|k: int|
                    0 <= k < metrics@.len() ==> distinct_keys(
                        labels_view((#[trigger] metrics@[k]).additional_tags@),
                    ),
            decreases metrics@.len() - i,
        {
            let ghost pv = points_view(metrics@.take(i + 1));
            assert(pv.drop_last() =~= points_view(metrics@.take(i as int)));
            assert(pv.last() == metrics@[i as int]@);
            let ghost before = errors@;
            match self.observe(&metrics[i]) {
                Ok(()) => {
                    assert(errors@.map_values(|e: RegistryError| conflict_name(e)) =~= publish_conflicts(start, pv));
                },
                Err(e) => {
                    errors.push(e);
                    assert(errors@.map_values(|e: RegistryError| conflict_name(e)) =~= before.map_values(
                        |e: RegistryError| conflict_name(e),
                    ).push(conflict_name(e)));
                },
            }
            i = i + 1;
        }
        assert(metrics@.take(i as int) =~= metrics@);
        errors
    }

    /// The value of the cell of series `name` addressed by `tags`, if any.
    pub fn get(&self, name: &String, tags: &Vec<(String, String)>) -> (r: Option<u64>)
        ensures
            r == cell_value(self.view_reg(), name@, labels_view(tags@)),
    {
        match self.find_series(name) {
            Some(i) => {
                let vals = values_for(&self.series[i].label_names, tags);
                match find_cell(&self.series[i].cells, &vals) {
                    Some(k) => Some(self.series[i].cells[k].value),
                    None => None,
                }
            },
            None => None,
        }
    }
}

} // verus!
