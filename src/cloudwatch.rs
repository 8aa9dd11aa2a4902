use vstd::prelude::*;

verus! {

/// Failures of a time-series retrieval.
#[derive(Debug, Clone)]
pub enum CloudWatchError {
    /// A namespace or metric name was empty; raised before any call.
    InvalidParameter(String),
    /// One call exceeded its deadline; never retried.
    Timeout(String),
    /// Every attempt failed; carries the last failure's description.
    RetryExhausted(String),
}

pub enum ErrorView {
    InvalidParameter(Seq<char>),
    Timeout(Seq<char>),
    RetryExhausted(Seq<char>),
}

impl View for CloudWatchError {
    type V = ErrorView;

    open spec fn view(&self) -> ErrorView {
        match self {
            CloudWatchError::InvalidParameter(s) => ErrorView::InvalidParameter(s@),
            CloudWatchError::Timeout(s) => ErrorView::Timeout(s@),
            CloudWatchError::RetryExhausted(s) => ErrorView::RetryExhausted(s@),
        }
    }
}

/// Settings of the time-series client.
#[derive(Debug, Clone)]
pub struct MetricConfig {
    /// Aggregation period of each series, in seconds.
    pub period: i32,
    /// Statistic requested for each series.
    pub stat: String,
    /// Maximum number of attempts of one batched call.
    pub retry_attempts: u32,
    /// Fixed wait between two attempts, in milliseconds.
    pub retry_delay_ms: u64,
}

impl Default for MetricConfig {
    fn default() -> (r: MetricConfig)
        ensures
            r.period == 60,
            r.stat@ == "Average"@,
            r.retry_attempts == 3,
            r.retry_delay_ms == 1000,
    {
        MetricConfig {
            period: 60,
            stat: String::from_str("Average"),
            retry_attempts: 3,
            retry_delay_ms: 1000,
        }
    }
}

/// One series to fetch: (namespace, metric name, dimension name, dimension value).
#[derive(Debug, Clone)]
pub struct MetricRequest {
    pub namespace: String,
    pub metric_name: String,
    pub dimension_name: String,
    pub dimension_value: String,
}

/// What a single series of a batched call is built from.
#[derive(Debug, Clone)]
pub struct MetricStat {
    pub namespace: String,
    pub metric_name: String,
    pub dimension_name: String,
    pub dimension_value: String,
    pub period: i32,
    pub stat: String,
}

/// One query of a batched call, with the id that correlates its result.
#[derive(Debug, Clone)]
pub struct MetricQuery {
    pub id: String,
    pub metric_stat: MetricStat,
}

/// The decimal digit for `d` in `0..10`.
pub open spec fn digit_char(d: int) -> char {
    if d == 0 {
        '0'
    } else if d == 1 {
        '1'
    } else if d == 2 {
        '2'
    } else if d == 3 {
        '3'
    } else if d == 4 {
        '4'
    } else if d == 5 {
        '5'
    } else if d == 6 {
        '6'
    } else if d == 7 {
        '7'
    } else if d == 8 {
        '8'
    } else {
        '9'
    }
}

/// The decimal digits of `n`, most significant first.
pub open spec fn decimal(n: nat) -> Seq<char>
    decreases n,
{
    if n < 10 {
        seq![digit_char(n as int)]
    } else {
        decimal(n / 10).push(digit_char((n % 10) as int))
    }
}

proof fn lemma_decimal_len(n: nat)
    ensures
        decimal(n).len() >= 1,
        n >= 10 ==> decimal(n).len() >= 2,
    decreases n,
{
    if n >= 10 {
        lemma_decimal_len(n / 10);
    }
}

proof fn lemma_decimal_injective(a: nat, b: nat)
    requires
        decimal(a) == decimal(b),
    ensures
        a == b,
    decreases a,
{
    lemma_decimal_len(a);
    lemma_decimal_len(b);
    let da = decimal(a);
    assert(da.last() == digit_char((a % 10) as int));
    assert(decimal(b).last() == digit_char((b % 10) as int));
    assert(a % 10 == b % 10);
    if a >= 10 && b >= 10 {
        assert(decimal(a / 10) == da.drop_last());
        assert(decimal(b / 10) == decimal(b).drop_last());
        lemma_decimal_len(a / 10);
        lemma_decimal_injective(a / 10, b / 10);
    } else if a >= 10 || b >= 10 {
        lemma_decimal_len(a / 10);
        lemma_decimal_len(b / 10);
    }
}

/// Distinct positions of a batch get distinct query ids.
pub proof fn lemma_query_ids_distinct(i: nat, j: nat)
    requires
        i != j,
    ensures
        query_id_spec(i) != query_id_spec(j),
{
    if query_id_spec(i) == query_id_spec(j) {
        assert(decimal(i) =~= query_id_spec(i).subrange(1, query_id_spec(i).len() as int));
        assert(decimal(j) =~= query_id_spec(j).subrange(1, query_id_spec(j).len() as int));
        lemma_decimal_injective(i, j);
    }
}

/// The id of the query at position `idx` of a batch.
pub open spec fn query_id_spec(idx: nat) -> Seq<char> {
    seq!['m'] + decimal(idx)
}

fn digit_str(d: usize) -> (r: &'static str)
    requires
        d < 10,
    ensures
        r@ == seq![digit_char(d as int)],
{
    proof {
        reveal_strlit("0");
        reveal_strlit("1");
        reveal_strlit("2");
        reveal_strlit("3");
        reveal_strlit("4");
        reveal_strlit("5");
        reveal_strlit("6");
        reveal_strlit("7");
        reveal_strlit("8");
        reveal_strlit("9");
    }
    if d == 0 {
        "0"
    } else if d == 1 {
        "1"
    } else if d == 2 {
        "2"
    } else if d == 3 {
        "3"
    } else if d == 4 {
        "4"
    } else if d == 5 {
        "5"
    } else if d == 6 {
        "6"
    } else if d == 7 {
        "7"
    } else if d == 8 {
        "8"
    } else {
        "9"
    }
}

/// The decimal digits of `n`.
pub fn decimal_string(n: usize) -> (r: String)
    ensures
        r@ == decimal(n as nat),
    decreases n,
{
    if n < 10 {
        String::from_str(digit_str(n))
    } else {
        let mut s = decimal_string(n / 10);
        let ghost prefix = s@;
        s.append(digit_str(n % 10));
        assert(s@ =~= prefix.push(digit_char((n % 10) as int)));
        s
    }
}

/// The id of the query at position `idx` of a batch.
pub(crate) fn query_id(idx: usize) -> (r: String)
    ensures
        r@ == query_id_spec(idx as nat),
{
    proof {
        reveal_strlit("m");
    }
    let mut s = String::from_str("m");
    let digits = decimal_string(idx);
    s.append(digits.as_str());
    s
}

/// A series stat is valid when its namespace and metric name are non-empty.
pub open spec fn request_valid(namespace: Seq<char>, metric_name: Seq<char>) -> bool {
    namespace.len() > 0 && metric_name.len() > 0
}

pub open spec fn invalid_message() -> Seq<char> {
    "namespace and metric_name must not be empty"@
}

pub open spec fn timeout_message() -> Seq<char> {
    "API call timed out"@
}

/// The time-series client: query construction and the retry policy of one batched call.
pub struct CloudWatchCollector {
    pub config: MetricConfig,
}

impl CloudWatchCollector {
    pub fn new(config: MetricConfig) -> (r: CloudWatchCollector)
        ensures
            r.config == config,
    {
        CloudWatchCollector { config }
    }

    /// Builds the stat of one series, rejecting an empty namespace or metric name.
    pub fn build_metric_stat(&self, req: &MetricRequest) -> (r: Result<MetricStat, CloudWatchError>)
        ensures
            request_valid(req.namespace@, req.metric_name@) <==> r is Ok,
            r is Err ==> r->Err_0@ == ErrorView::InvalidParameter(invalid_message()),
            r is Ok ==> {
                let s = r->Ok_0;
                &&& s.namespace@ == req.namespace@
                &&& s.metric_name@ == req.metric_name@
                &&& s.dimension_name@ == req.dimension_name@
                &&& s.dimension_value@ == req.dimension_value@
                &&& s.period == self.config.period
                &&& s.stat@ == self.config.stat@
            },
    {
        if req.namespace.as_str().is_empty() || req.metric_name.as_str().is_empty() {
            return Err(
                CloudWatchError::InvalidParameter(
                    String::from_str("namespace and metric_name must not be empty"),
                ),
            );
        }
        Ok(
            MetricStat {
                namespace: req.namespace.clone(),
                metric_name: req.metric_name.clone(),
                dimension_name: req.dimension_name.clone(),
                dimension_value: req.dimension_value.clone(),
                period: self.config.period,
                stat: self.config.stat.clone(),
            },
        )
    }

    /// Prepares the batched call: one query per request, with ids `m0`, `m1`, ... by position.
    /// Fails, before any call, when some request has an empty namespace or metric name.
    pub fn collect_all_metrics(&self, metrics: &Vec<MetricRequest>) -> (r: Result<
        Vec<MetricQuery>,
        CloudWatchError,
    >)
        ensures
            r is Ok <==> forall|i: int|
                0 <= i < metrics@.len() ==> request_valid(
                    (#[trigger] metrics@[i]).namespace@,
                    metrics@[i].metric_name@,
                ),
            r is Err ==> r->Err_0@ == ErrorView::InvalidParameter(invalid_message()),
            r is Ok ==> {
                let q = r->Ok_0@;
                &&& q.len() == metrics@.len()
                &&& forall|i: int|
                    0 <= i < q.len() ==> {
                        &&& (#[trigger] q[i]).id@ == query_id_spec(i as nat)
                        &&& q[i].metric_stat.namespace@ == metrics@[i].namespace@
                        &&& q[i].metric_stat.metric_name@ == metrics@[i].metric_name@
                        &&& q[i].metric_stat.dimension_name@ == metrics@[i].dimension_name@
                        &&& q[i].metric_stat.dimension_value@ == metrics@[i].dimension_value@
                        &&& q[i].metric_stat.period == self.config.period
                        &&& q[i].metric_stat.stat@ == self.config.stat@
                    }
                &&& forall|i: int, j: int|
                    0 <= i < j < q.len() ==> (#[trigger] q[i]).id@ != (#[trigger] q[j]).id@
            },
    {
        let mut queries: Vec<MetricQuery> = Vec::new();
        let mut idx: usize = 0;
        while idx < metrics.len()
            invariant
                0 <= idx <= metrics@.len(),
                queries@.len() == idx,
                forall|i: int|
                    0 <= i < idx ==> request_valid(
                        (#[trigger] metrics@[i]).namespace@,
                        metrics@[i].metric_name@,
                    ),
                forall|i: int|
                    0 <= i < idx ==> {
                        &&& (#[trigger] queries@[i]).id@ == query_id_spec(i as nat)
                        &&& queries@[i].metric_stat.namespace@ == metrics@[i].namespace@
                        &&& queries@[i].metric_stat.metric_name@ == metrics@[i].metric_name@
                        &&& queries@[i].metric_stat.dimension_name@ == metrics@[i].dimension_name@
                        &&& queries@[i].metric_stat.dimension_value@
                            == metrics@[i].dimension_value@
                        &&& queries@[i].metric_stat.period == self.config.period
                        &&& queries@[i].metric_stat.stat@ == self.config.stat@
                    },
            decreases metrics@.len() - idx,
        {
            let metric_stat = match self.build_metric_stat(&metrics[idx]) {
                Ok(s) => s,
                Err(e) => {
                    return Err(e);
                },
            };
            queries.push(MetricQuery { id: query_id(idx), metric_stat });
            idx = idx + 1;
        }
        assert forall|i: int, j: int|
            0 <= i < j < queries@.len() implies (#[trigger] queries@[i]).id@
                != (#[trigger] queries@[j]).id@ by {
            lemma_query_ids_distinct(i as nat, j as nat);
        }
        Ok(queries)
    }
}

/// The samples of one series, keyed by its query id. Samples are IEEE-754 bit patterns,
/// handed on unchanged.
#[derive(Debug, Clone)]
pub struct SeriesResult {
    pub id: String,
    pub values: Vec<u64>,
}

impl View for SeriesResult {
    type V = (Seq<char>, Seq<u64>);

    open spec fn view(&self) -> (Seq<char>, Seq<u64>) {
        (self.id@, self.values@)
    }
}

pub open spec fn results_view(v: Seq<SeriesResult>) -> Seq<(Seq<char>, Seq<u64>)> {
    v.map_values(|r: SeriesResult| r@)
}

/// What one attempt of the batched call came back with.
#[derive(Debug)]
pub enum AttemptOutcome {
    Success(Vec<SeriesResult>),
    ServiceError(String),
    TimedOut,
}

pub enum OutcomeView {
    Success(Seq<(Seq<char>, Seq<u64>)>),
    ServiceError(Seq<char>),
    TimedOut,
}

impl View for AttemptOutcome {
    type V = OutcomeView;

    open spec fn view(&self) -> OutcomeView {
        match self {
            AttemptOutcome::Success(v) => OutcomeView::Success(results_view(v@)),
            AttemptOutcome::ServiceError(s) => OutcomeView::ServiceError(s@),
            AttemptOutcome::TimedOut => OutcomeView::TimedOut,
        }
    }
}

/// What the caller of the batched call does next.
#[derive(Debug)]
pub enum CallStep {
    /// Make an attempt now.
    Attempt,
    /// Wait this many milliseconds, then make an attempt.
    WaitThenAttempt(u64),
    /// The call is over.
    Finished(Result<Vec<SeriesResult>, CloudWatchError>),
}

pub enum StepView {
    Attempt,
    Wait(u64),
    Done(Result<Seq<(Seq<char>, Seq<u64>)>, ErrorView>),
}

impl View for CallStep {
    type V = StepView;

    open spec fn view(&self) -> StepView {
        match self {
            CallStep::Attempt => StepView::Attempt,
            CallStep::WaitThenAttempt(d) => StepView::Wait(*d),
            CallStep::Finished(Ok(v)) => StepView::Done(Ok(results_view(v@))),
            CallStep::Finished(Err(e)) => StepView::Done(Err(e@)),
        }
    }
}

/// The state of one batched call: attempts that failed so far, and the last failure.
pub struct MetricCall {
    pub attempts: u32,
    pub last_error: String,
}

impl View for MetricCall {
    type V = (nat, Seq<char>);

    open spec fn view(&self) -> (nat, Seq<char>) {
        (self.attempts as nat, self.last_error@)
    }
}

/// The first step of a call: no attempt at all is allowed when the budget is zero.
pub open spec fn call_start(max: u32) -> StepView {
    if max == 0 {
        StepView::Done(Err(ErrorView::RetryExhausted(Seq::empty())))
    } else {
        StepView::Attempt
    }
}

/// The step that follows one attempt's outcome. A success is returned verbatim, a timeout
/// ends the call at once, a service error is retried after a fixed delay while the budget
/// allows, and otherwise ends the call carrying its description.
pub open spec fn call_next(max: u32, delay: u64, st: (nat, Seq<char>), o: OutcomeView) -> (
    (nat, Seq<char>),
    StepView,
) {
    match o {
        OutcomeView::Success(d) => (st, StepView::Done(Ok(d))),
        OutcomeView::TimedOut => (st, StepView::Done(Err(ErrorView::Timeout(timeout_message())))),
        OutcomeView::ServiceError(e) => {
            let n = st.0 + 1;
            if n < max {
                ((n, e), StepView::Wait(delay))
            } else {
                ((n, e), StepView::Done(Err(ErrorView::RetryExhausted(e))))
            }
        },
    }
}

/// Feeds outcomes to a call in order until it is finished; gives the last step and the
/// number of attempts made.
pub open spec fn run_call(max: u32, delay: u64, st: (nat, Seq<char>), outcomes: Seq<OutcomeView>) -> (
    StepView,
    nat,
)
    decreases outcomes.len(),
{
    if outcomes.len() == 0 {
        (StepView::Attempt, 0)
    } else {
        let (st2, step) = call_next(max, delay, st, outcomes[0]);
        match step {
            StepView::Done(_) => (step, 1),
            _ => {
                let (last, n) = run_call(max, delay, st2, outcomes.drop_first());
                (last, n + 1)
            },
        }
    }
}

/// A whole call, from its start, against a sequence of attempt outcomes.
pub open spec fn run_call_from_start(max: u32, delay: u64, outcomes: Seq<OutcomeView>) -> (
    StepView,
    nat,
) {
    if max == 0 {
        (call_start(max), 0)
    } else {
        run_call(max, delay, (0, Seq::empty()), outcomes)
    }
}

impl MetricCall {
    pub fn new() -> (r: MetricCall)
        ensures
            r@ == (0nat, Seq::<char>::empty()),
    {
        MetricCall { attempts: 0, last_error: String::new() }
    }

    /// The first step of a call.
    pub fn start(&self, config: &MetricConfig) -> (r: CallStep)
        requires
            self@ == (0nat, Seq::<char>::empty()),
        ensures
            r@ == call_start(config.retry_attempts),
    {
        if config.retry_attempts == 0 {
            CallStep::Finished(Err(CloudWatchError::RetryExhausted(self.last_error.clone())))
        } else {
            CallStep::Attempt
        }
    }

    /// Takes the outcome of the attempt just made and says what comes next.
    pub fn on_outcome(&mut self, config: &MetricConfig, outcome: AttemptOutcome) -> (r: CallStep)
        requires
            old(self).attempts < config.retry_attempts,
        ensures
            (final(self)@, r@) == call_next(
                config.retry_attempts,
                config.retry_delay_ms,
                old(self)@,
                outcome@,
            ),
            final(self).attempts <= config.retry_attempts,
            r is Attempt || r is WaitThenAttempt ==> final(self).attempts < config.retry_attempts,
    {
        match outcome {
            AttemptOutcome::Success(d) => CallStep::Finished(Ok(d)),
            AttemptOutcome::TimedOut => CallStep::Finished(
                Err(CloudWatchError::Timeout(String::from_str("API call timed out"))),
            ),
            AttemptOutcome::ServiceError(e) => {
                self.attempts = self.attempts + 1;
                self.last_error = e.clone();
                if self.attempts < config.retry_attempts {
                    CallStep::WaitThenAttempt(config.retry_delay_ms)
                } else {
                    CallStep::Finished(Err(CloudWatchError::RetryExhausted(e)))
                }
            },
        }
    }
}

/// A call whose first attempt times out ends with a timeout after exactly that attempt.
pub proof fn lemma_timeout_not_retried(max: u32, delay: u64, outcomes: Seq<OutcomeView>)
    requires
        max >= 1,
        outcomes.len() >= 1,
        outcomes[0] == OutcomeView::TimedOut,
    ensures
        run_call_from_start(max, delay, outcomes) == (
            StepView::Done(Err(ErrorView::Timeout(timeout_message()))),
            1nat,
        ),
{
}

/// All outcomes from `k` on are service errors.
pub open spec fn all_service_errors(outcomes: Seq<OutcomeView>, from: int, to: int) -> bool {
    forall|i: int| from <= i < to ==> #[trigger] outcomes[i] is ServiceError
}

proof fn lemma_errors_then(
    max: u32,
    delay: u64,
    st: (nat, Seq<char>),
    outcomes: Seq<OutcomeView>,
    n: nat,
)
    requires
        st.0 + n < max,
        n < outcomes.len(),
        all_service_errors(outcomes, 0, n as int),
    ensures
        run_call(max, delay, st, outcomes) == {
            let (last, k) = run_call(
                max,
                delay,
                (st.0 + n, if n == 0 { st.1 } else { outcomes[n - 1]->ServiceError_0 }),
                outcomes.subrange(n as int, outcomes.len() as int),
            );
            (last, k + n)
        },
    decreases n,
{
    if n == 0 {
        assert(outcomes.subrange(0, outcomes.len() as int) =~= outcomes);
    } else {
        assert(outcomes[0] is ServiceError);
        let e = outcomes[0]->ServiceError_0;
        let rest = outcomes.drop_first();
        assert forall|i: int| 0 <= i < (n - 1) as int implies #[trigger] rest[i] is ServiceError by {
            assert(outcomes[i + 1] is ServiceError);
        }
        lemma_errors_then(max, delay, (st.0 + 1, e), rest, (n - 1) as nat);
        assert(rest.subrange((n - 1) as int, rest.len() as int) =~= outcomes.subrange(
            n as int,
            outcomes.len() as int,
        ));
        if n > 1 {
            assert(rest[n - 2] == outcomes[n - 1]);
        }
    }
}

/// Service errors on fewer attempts than the budget, then a success: the call returns that
/// success, after exactly those attempts.
pub proof fn lemma_success_after_retries(
    max: u32,
    delay: u64,
    outcomes: Seq<OutcomeView>,
    n: nat,
)
    requires
        n < max,
        n < outcomes.len(),
        all_service_errors(outcomes, 0, n as int),
        outcomes[n as int] is Success,
    ensures
        run_call_from_start(max, delay, outcomes) == (
            StepView::Done(Ok(outcomes[n as int]->Success_0)),
            n + 1,
        ),
{
    lemma_errors_then(max, delay, (0, Seq::empty()), outcomes, n);
}

/// Service errors on every attempt of the budget: the call reports exhaustion carrying the
/// last failure, after exactly the budgeted attempts.
pub proof fn lemma_exhaustion_reports_last(max: u32, delay: u64, outcomes: Seq<OutcomeView>)
    requires
        max >= 1,
        outcomes.len() == max,
        all_service_errors(outcomes, 0, max as int),
    ensures
        run_call_from_start(max, delay, outcomes) == (
            StepView::Done(
                Err(ErrorView::RetryExhausted(outcomes[max - 1]->ServiceError_0)),
            ),
            max as nat,
        ),
{
    let n = (max - 1) as nat;
    lemma_errors_then(max, delay, (0, Seq::empty()), outcomes, n);
    let rest = outcomes.subrange(n as int, outcomes.len() as int);
    assert(rest[0] == outcomes[n as int]);
    assert(outcomes[n as int] is ServiceError);
}

} // verus!
