use vstd::prelude::*;
use crate::tags::{Tag, TagFilter, TagView, filters_view, satisfies_all, matches_all, tags_view};
use crate::instance::{Instance, InstanceView};

verus! {

/// Failures of the instance directory.
#[derive(Debug, Clone)]
pub enum RdsError {
    /// A listing call failed.
    DescribeInstancesError(String),
    /// A tag lookup failed.
    TagLookupError(String),
    /// Every attempt allowed by the retry budget failed, or the budget was zero.
    RetryExhausted(String),
}

/// Settings of the instance directory client.
#[derive(Debug, Clone)]
pub struct RdsConfig {
    /// Maximum number of attempts of each directory call.
    pub max_retries: u32,
    /// Wait before the first retry, in milliseconds; it doubles at each retry.
    pub retry_delay_ms: u64,
    /// How long a cached listing stays valid, in milliseconds.
    pub cache_ttl_ms: u64,
    /// Number of instances asked for per page.
    pub page_size: i32,
    pub target_tag_key: String,
    pub target_tag_value: String,
}

impl Default for RdsConfig {
    fn default() -> (r: RdsConfig)
        ensures
            r.max_retries == 3,
            r.retry_delay_ms == 1000,
            r.cache_ttl_ms == 300_000,
            r.page_size == 100,
            r.target_tag_key@ == "env"@,
            r.target_tag_value@ == "prd"@,
    {
        RdsConfig {
            max_retries: 3,
            retry_delay_ms: 1000,
            cache_ttl_ms: 300_000,
            page_size: 100,
            target_tag_key: String::from_str("env"),
            target_tag_value: String::from_str("prd"),
        }
    }
}

/// Doubles a delay, capped at the largest `u64`.
pub open spec fn double_capped(d: nat) -> nat {
    if 2 * d <= u64::MAX {
        2 * d
    } else {
        u64::MAX as nat
    }
}

/// The wait before retry number `k + 1`: the base delay doubled `k` times.
pub open spec fn backoff_delay(base: u64, k: nat) -> nat
    decreases k,
{
    if k == 0 {
        base as nat
    } else {
        double_capped(backoff_delay(base, (k - 1) as nat))
    }
}

/// What to do after a directory call failed.
#[derive(Debug)]
pub enum RetryDecision {
    /// Wait this many milliseconds, then try again.
    RetryAfter(u64),
    /// The budget is spent: report this exhaustion error.
    GiveUp(RdsError),
}

/// The description that an error carries.
pub open spec fn rds_error_message(e: RdsError) -> Seq<char> {
    match e {
        RdsError::DescribeInstancesError(s) => s@,
        RdsError::TagLookupError(s) => s@,
        RdsError::RetryExhausted(s) => s@,
    }
}

/// Exponential backoff over the attempts of one directory call.
pub struct Backoff {
    pub attempts: u32,
    pub next_delay_ms: u64,
}

impl Backoff {
    pub open spec fn wf(&self, base: u64) -> bool {
        self.next_delay_ms == backoff_delay(base, self.attempts as nat)
    }

    pub fn new(config: &RdsConfig) -> (r: Backoff)
        ensures
            r.attempts == 0,
            r.wf(config.retry_delay_ms),
    {
        Backoff { attempts: 0, next_delay_ms: config.retry_delay_ms }
    }

    /// Whether the budget allows another attempt.
    pub fn may_attempt(&self, config: &RdsConfig) -> (r: bool)
        ensures
            r == (self.attempts < config.max_retries),
    {
        self.attempts < config.max_retries
    }

    /// The error reported when the budget allowed no attempt at all.
    pub fn exhausted_error() -> (r: RdsError)
        ensures
            r is RetryExhausted,
    {
        RdsError::RetryExhausted(String::from_str("maximum retry attempts exceeded"))
    }

    /// Records a failed attempt: retry after the current backoff while the budget
    /// allows, otherwise give up with an exhaustion error carrying the failure's
    /// description.
    pub fn on_failure(&mut self, config: &RdsConfig, err: RdsError) -> (r: RetryDecision)
        requires
            old(self).attempts < config.max_retries,
            old(self).wf(config.retry_delay_ms),
        ensures
            final(self).attempts == old(self).attempts + 1,
            final(self).wf(config.retry_delay_ms),
            final(self).attempts < config.max_retries ==> r == RetryDecision::RetryAfter(
                backoff_delay(config.retry_delay_ms, old(self).attempts as nat) as u64,
            ),
            final(self).attempts >= config.max_retries ==> {
                &&& r is GiveUp
                &&& r->GiveUp_0 is RetryExhausted
                &&& rds_error_message(r->GiveUp_0) == rds_error_message(err)
            },
    {
        self.attempts = self.attempts + 1;
        let d = self.next_delay_ms;
        self.next_delay_ms = match d.checked_mul(2) {
            Some(x) => x,
            None => u64::MAX,
        };
        if self.attempts < config.max_retries {
            RetryDecision::RetryAfter(d)
        } else {
            let description = match err {
                RdsError::DescribeInstancesError(m) => m,
                RdsError::TagLookupError(m) => m,
                RdsError::RetryExhausted(m) => m,
            };
            RetryDecision::GiveUp(RdsError::RetryExhausted(description))
        }
    }
}

pub open spec fn instances_view(v: Seq<Instance>) -> Seq<InstanceView> {
    v.map_values(|i: Instance| i@)
}

/// Every instance's tags satisfy every filter of the set.
pub open spec fn all_satisfy(filters: Seq<(Seq<char>, Seq<char>)>, v: Seq<InstanceView>) -> bool {
    forall|i: int| 0 <= i < v.len() ==> satisfies_all(filters, (#[trigger] v[i]).tags)
}

fn copy_string(s: &String) -> (r: String)
    ensures
        r@ == s@,
{
    s.clone()
}

fn copy_opt(s: &Option<String>) -> (r: Option<String>)
    ensures
        crate::tags::opt_view(r) == crate::tags::opt_view(*s),
{
    match s {
        Some(x) => Some(copy_string(x)),
        None => None,
    }
}

/// A copy of a tag list with the same view.
pub fn copy_tags(tags: &Vec<Tag>) -> (r: Vec<Tag>)
    ensures
        tags_view(r@) == tags_view(tags@),
{
    let mut out: Vec<Tag> = Vec::new();
    let mut i: usize = 0;
    while i < tags.len()
        invariant
            0 <= i <= tags@.len(),
            out@.len() == i,
            forall|k: int| 0 <= k < i ==> (#[trigger] out@[k])@ == tags@[k]@,
        decreases tags@.len() - i,
    {
        let t = Tag { key: copy_opt(&tags[i].key), value: copy_opt(&tags[i].value) };
        out.push(t);
        i = i + 1;
    }
    assert(tags_view(out@) =~= tags_view(tags@));
    out
}

impl Instance {
    /// A copy with the same view.
    pub fn copy(&self) -> (r: Instance)
        ensures
            r@ == self@,
    {
        Instance {
            identifier: copy_opt(&self.identifier),
            arn: copy_opt(&self.arn),
            engine: copy_opt(&self.engine),
            engine_version: copy_opt(&self.engine_version),
            instance_class: copy_opt(&self.instance_class),
            availability_zone: copy_opt(&self.availability_zone),
            tags: copy_tags(&self.tags),
        }
    }
}

/// A copy of a sequence of instances with the same view.
pub fn copy_instances(v: &Vec<Instance>) -> (r: Vec<Instance>)
    ensures
        instances_view(r@) == instances_view(v@),
{
    let mut out: Vec<Instance> = Vec::new();
    let mut i: usize = 0;
    while i < v.len()
        invariant
            0 <= i <= v@.len(),
            out@.len() == i,
            forall|k: int| 0 <= k < i ==> (#[trigger] out@[k])@ == v@[k]@,
        decreases v@.len() - i,
    {
        out.push(v[i].copy());
        i = i + 1;
    }
    assert(instances_view(out@) =~= instances_view(v@));
    out
}

fn copy_filters(f: &Vec<TagFilter>) -> (r: Vec<TagFilter>)
    ensures
        filters_view(r@) == filters_view(f@),
{
    let mut out: Vec<TagFilter> = Vec::new();
    let mut i: usize = 0;
    while i < f.len()
        invariant
            0 <= i <= f@.len(),
            out@.len() == i,
            forall|k: int| 0 <= k < i ==> filters_view(out@)[k] == filters_view(f@)[k],
        decreases f@.len() - i,
    {
        out.push(TagFilter { key: copy_string(&f[i].key), value: copy_string(&f[i].value) });
        i = i + 1;
    }
    assert(filters_view(out@) =~= filters_view(f@));
    out
}

/// Whether two filter sets are the same sequence of (key, value) pairs.
fn same_filters(a: &Vec<TagFilter>, b: &Vec<TagFilter>) -> (r: bool)
    ensures
        r == (filters_view(a@) == filters_view(b@)),
{
    if a.len() != b.len() {
        assert(filters_view(a@).len() != filters_view(b@).len());
        return false;
    }
    let mut i: usize = 0;
    while i < a.len()
        invariant
            0 <= i <= a@.len(),
            a@.len() == b@.len(),
            forall|k: int| 0 <= k < i ==> filters_view(a@)[k] == filters_view(b@)[k],
        decreases a@.len() - i,
    {
        if !(a[i].key == b[i].key && a[i].value == b[i].value) {
            assert(filters_view(a@)[i as int] != filters_view(b@)[i as int]);
            return false;
        }
        i = i + 1;
    }
    assert(filters_view(a@) =~= filters_view(b@));
    true
}

/// A cached listing: the instances found for a filter set and when they were fetched.
#[derive(Debug)]
pub struct CacheEntry {
    pub filters: Vec<TagFilter>,
    pub instances: Vec<Instance>,
    pub fetched_at_ms: u64,
}

/// No two entries of a cache have the same filter set.
pub open spec fn keys_distinct(entries: Seq<CacheEntry>) -> bool {
    forall|i: int, j: int|
        0 <= i < j < entries.len() ==> filters_view((#[trigger] entries[i]).filters@)
            != filters_view((#[trigger] entries[j]).filters@)
}

/// The latest entry of a cache for a filter set, as (instances, fetch time).
pub open spec fn cache_lookup(entries: Seq<CacheEntry>, key: Seq<(Seq<char>, Seq<char>)>) -> Option<
    (Seq<InstanceView>, u64),
>
    decreases entries.len(),
{
    if entries.len() == 0 {
        None
    } else {
        let e = entries.last();
        if filters_view(e.filters@) == key {
            Some((instances_view(e.instances@), e.fetched_at_ms))
        } else {
            cache_lookup(entries.drop_last(), key)
        }
    }
}

/// `post` is `pre` with the listing for `key` replaced by `v`, fetched at `at`.
pub open spec fn stored(
    pre: Seq<CacheEntry>,
    post: Seq<CacheEntry>,
    key: Seq<(Seq<char>, Seq<char>)>,
    v: Seq<InstanceView>,
    at: u64,
) -> bool {
    &&& cache_lookup(post, key) == Some((v, at))
    &&& forall|k| k != key ==> cache_lookup(post, k) == cache_lookup(pre, k)
}

/// An entry fetched at `at` is still valid at `now`.
pub open spec fn is_fresh(at: u64, now: u64, ttl: u64) -> bool {
    at <= now && now - at < ttl
}

/// The instance directory's client state: its settings and its cache of listings.
pub struct RdsInstanceManager {
    pub config: RdsConfig,
    pub cache: Vec<CacheEntry>,
}

impl RdsInstanceManager {
    /// Every cached listing holds only instances that satisfy its filter set, and no
    /// filter set has two entries.
    pub open spec fn wf(&self) -> bool {
        &&& forall|i: int|
            0 <= i < self.cache@.len() ==> all_satisfy(
                filters_view((#[trigger] self.cache@[i]).filters@),
                instances_view(self.cache@[i].instances@),
            )
        &&& keys_distinct(self.cache@)
    }

    /// The listing for a filter set that the cache serves at `now`, if any.
    pub open spec fn cached_listing(&self, key: Seq<(Seq<char>, Seq<char>)>, now: u64) -> Option<
        Seq<InstanceView>,
    > {
        match cache_lookup(self.cache@, key) {
            Some((v, at)) => if is_fresh(at, now, self.config.cache_ttl_ms) {
                Some(v)
            } else {
                None
            },
            None => None,
        }
    }

    pub fn new(config: RdsConfig) -> (r: RdsInstanceManager)
        ensures
            r.wf(),
            r.config == config,
            forall|k| cache_lookup(r.cache@, k) is None,
    {
        RdsInstanceManager { config, cache: Vec::new() }
    }

    /// The fleet-wide filter set: the configured target tag alone.
    pub fn get_prd_instances(&self) -> (r: Vec<TagFilter>)
        ensures
            filters_view(r@) == seq![(self.config.target_tag_key@, self.config.target_tag_value@)],
    {
        let mut v: Vec<TagFilter> = Vec::new();
        v.push(
            TagFilter {
                key: copy_string(&self.config.target_tag_key),
                value: copy_string(&self.config.target_tag_value),
            },
        );
        assert(filters_view(v@) =~= seq![
            (self.config.target_tag_key@, self.config.target_tag_value@),
        ]);
        v
    }

    /// The cached listing for a filter set when it is still valid at `now`; `None` means
    /// that the directory must be listed afresh.
    pub fn get_instances_by_tags(&self, filters: &Vec<TagFilter>, now_ms: u64) -> (r: Option<
        Vec<Instance>,
    >)
        requires
            self.wf(),
        ensures
            r is Some <==> self.cached_listing(filters_view(filters@), now_ms) is Some,
            r is Some ==> instances_view(r->0@) == self.cached_listing(
                filters_view(filters@),
                now_ms,
            )->0,
            r is Some ==> all_satisfy(filters_view(filters@), instances_view(r->0@)),
    {
        let ghost key = filters_view(filters@);
        let mut i: usize = self.cache.len();
        assert(self.cache@.take(i as int) =~= self.cache@);
        while i > 0
            invariant
                0 <= i <= self.cache@.len(),
                cache_lookup(self.cache@, key) == cache_lookup(self.cache@.take(i as int), key),
                self.wf(),
                key == filters_view(filters@),
            decreases i,
        {
            assert(self.cache@.take(i as int).drop_last() =~= self.cache@.take(i - 1));
            assert(self.cache@.take(i as int).last() == self.cache@[i - 1]);
            let e = &self.cache[i - 1];
            if same_filters(&e.filters, filters) {
                assert(all_satisfy(
                    filters_view(self.cache@[i - 1].filters@),
                    instances_view(self.cache@[i - 1].instances@),
                ));
                assert(filters_view(self.cache@[i - 1].filters@) == key);
                assert(cache_lookup(self.cache@.take(i as int), key) == Some(
                    (instances_view(self.cache@[i - 1].instances@), self.cache@[i - 1].fetched_at_ms),
                ));
                if e.fetched_at_ms <= now_ms && now_ms - e.fetched_at_ms < self.config.cache_ttl_ms {
                    return Some(copy_instances(&e.instances));
                } else {
                    return None;
                }
            }
            i = i - 1;
        }
        None
    }

    /// Replaces the listing cached for a filter set by `instances`, fetched at `now_ms`.
    pub fn store(&mut self, filters: &Vec<TagFilter>, instances: &Vec<Instance>, now_ms: u64)
        requires
            old(self).wf(),
            all_satisfy(filters_view(filters@), instances_view(instances@)),
        ensures
            final(self).wf(),
            final(self).config == old(self).config,
            stored(
                old(self).cache@,
                final(self).cache@,
                filters_view(filters@),
                instances_view(instances@),
                now_ms,
            ),
    {
        let ghost key = filters_view(filters@);
        let mut kept: Vec<CacheEntry> = Vec::new();
        let ghost mut origin: Seq<int> = Seq::empty();
        let mut i: usize = 0;
        while i < self.cache.len()
            invariant
                0 <= i <= self.cache@.len(),
                forall|k|
                    k != key ==> cache_lookup(kept@, k) == cache_lookup(
                        self.cache@.take(i as int),
                        k,
                    ),
                forall|j: int|
                    0 <= j < kept@.len() ==> all_satisfy(
                        filters_view((#[trigger] kept@[j]).filters@),
                        instances_view(kept@[j].instances@),
                    ),
                self.wf(),
                key == filters_view(filters@),
                keys_distinct(kept@),
                origin.len() == kept@.len(),
                forall|a: int|
                    0 <= a < kept@.len() ==> 0 <= #[trigger] origin[a] < i && filters_view(
                        kept@[a].filters@,
                    ) == filters_view(self.cache@[origin[a]].filters@) && filters_view(
                        kept@[a].filters@,
                    ) != key,
            decreases self.cache@.len() - i,
        {
            let ghost before = kept@;
            assert(self.cache@.take(i + 1).drop_last() =~= self.cache@.take(i as int));
            assert(self.cache@.take(i + 1).last() == self.cache@[i as int]);
            let e = &self.cache[i];
            if !same_filters(&e.filters, filters) {
                kept.push(
                    CacheEntry {
                        filters: copy_filters(&e.filters),
                        instances: copy_instances(&e.instances),
                        fetched_at_ms: e.fetched_at_ms,
                    },
                );
                proof {
                    assert forall|a: int| 0 <= a < before.len() implies filters_view(
                        before[a].filters@,
                    ) != filters_view(self.cache@[i as int].filters@) by {
                        assert(origin[a] < i);
                        assert(filters_view(self.cache@[origin[a]].filters@) != filters_view(
                            self.cache@[i as int].filters@,
                        ));
                    }
                    origin = origin.push(i as int);
                    assert(kept@[before.len() as int] == kept@.last());
                }
                assert(kept@.drop_last() =~= before);
                assert(all_satisfy(
                    filters_view(self.cache@[i as int].filters@),
                    instances_view(self.cache@[i as int].instances@),
                ));
            }
            assert forall|k| k != key implies cache_lookup(kept@, k) == cache_lookup(
                self.cache@.take(i + 1),
                k,
            ) by {
                let t = self.cache@.take(i + 1);
                assert(t.last() == self.cache@[i as int]);
                assert(t.drop_last() =~= self.cache@.take(i as int));
                assert(cache_lookup(before, k) == cache_lookup(self.cache@.take(i as int), k));
                if filters_view(self.cache@[i as int].filters@) == key {
                    assert(kept@ == before);
                    assert(cache_lookup(t, k) == cache_lookup(self.cache@.take(i as int), k));
                } else {
                    assert(kept@.drop_last() == before);
                    assert(filters_view(kept@.last().filters@) == filters_view(self.cache@[i as int].filters@));
                }
            }
            i = i + 1;
        }
        assert(self.cache@.take(i as int) =~= self.cache@);
        let ghost before = kept@;
        kept.push(
            CacheEntry {
                filters: copy_filters(filters),
                instances: copy_instances(instances),
                fetched_at_ms: now_ms,
            },
        );
        assert(kept@.drop_last() =~= before);
        assert forall|a: int, b: int| 0 <= a < b < kept@.len() implies filters_view(
            (#[trigger] kept@[a]).filters@,
        ) != filters_view((#[trigger] kept@[b]).filters@) by {
            if b == kept@.len() - 1 {
                assert(kept@[a] == before[a]);
                assert(0 <= origin[a] < i);
                assert(filters_view(kept@[b].filters@) == key);
            } else {
                assert(kept@[a] == before[a]);
                assert(kept@[b] == before[b]);
            }
        }
        assert forall|k| k != key implies cache_lookup(kept@, k) == cache_lookup(self.cache@, k) by {
            assert(cache_lookup(before, k) == cache_lookup(self.cache@.take(i as int), k));
        }
        self.cache = kept;
    }
}

/// A listing stored for a filter set is served again, unchanged and without a fetch, by
/// every lookup for that set while it is younger than the cache lifetime.
pub proof fn lemma_fresh_listing_served(
    m1: RdsInstanceManager,
    m2: RdsInstanceManager,
    key: Seq<(Seq<char>, Seq<char>)>,
    v: Seq<InstanceView>,
    at: u64,
    now: u64,
)
    requires
        stored(m1.cache@, m2.cache@, key, v, at),
        at <= now,
        now - at < m2.config.cache_ttl_ms,
    ensures
        m2.cached_listing(key, now) == Some(v),
{
}

/// A listing at least as old as the cache lifetime is not served: the directory is listed
/// afresh, and storing the new listing replaces the old entry.
pub proof fn lemma_expired_listing_refetched(
    m1: RdsInstanceManager,
    m2: RdsInstanceManager,
    key: Seq<(Seq<char>, Seq<char>)>,
    old_v: Seq<InstanceView>,
    at: u64,
    new_v: Seq<InstanceView>,
    now: u64,
)
    requires
        cache_lookup(m1.cache@, key) == Some((old_v, at)),
        at <= now,
        now - at >= m1.config.cache_ttl_ms,
        stored(m1.cache@, m2.cache@, key, new_v, now),
        m2.config == m1.config,
    ensures
        m1.cached_listing(key, now) is None,
        cache_lookup(m2.cache@, key) == Some((new_v, now)),
        m1.config.cache_ttl_ms > 0 ==> m2.cached_listing(key, now) == Some(new_v),
{
}

/// What a listing is waiting for.
#[derive(Debug, Clone, Copy, PartialEq, Eq, Structural)]
pub enum Awaiting {
    Page,
    Tags,
    Nothing,
}

/// The answer of the directory to the last action of a listing.
#[derive(Debug)]
pub enum ListingEvent {
    /// One page of instances and the token of the next page, if any.
    Page { instances: Vec<Instance>, next_token: Option<String> },
    /// Listing a page failed once its retries were spent.
    PageFailed(RdsError),
    /// The tags of the instance asked for.
    Tags(Vec<Tag>),
    /// Looking up the tags failed once its retries were spent.
    TagsFailed(RdsError),
}

/// What a listing asks of the directory next.
#[derive(Debug)]
pub enum ListingAction {
    /// List the page with this token (the first page when `None`), of at most
    /// `max_records` instances.
    FetchPage { token: Option<String>, max_records: i32 },
    /// Look up the tags of the instance with this resource name.
    FetchTags(String),
    /// The listing is over: these are the matching instances, in listing order.
    Complete(Vec<Instance>),
    /// A page could not be listed: the whole listing fails with this error.
    Abort(RdsError),
}

/// One fresh listing of the directory for a filter set: pages are read until no token
/// is returned, the tags of each instance with a resource name are looked up, an instance
/// whose lookup fails is skipped, and only instances whose tags satisfy every filter are
/// kept.
pub struct ListingSession {
    pub filters: Vec<TagFilter>,
    pub found: Vec<Instance>,
    pub page: Vec<Instance>,
    pub pos: usize,
    pub next_token: Option<String>,
    pub awaiting: Awaiting,
    /// Number of instances asked for per page.
    pub page_size: i32,
}

/// The instance at `inst`, with `tags` as its tag list.
pub open spec fn with_tags(inst: InstanceView, tags: Seq<TagView>) -> InstanceView {
    InstanceView { tags: tags, ..inst }
}

/// `post` and `r` follow from `pre` by skipping instances without a resource name and
/// asking for what comes next.
pub open spec fn advanced(pre: ListingSession, post: ListingSession, r: ListingAction) -> bool {
    &&& filters_view(post.filters@) == filters_view(pre.filters@)
    &&& instances_view(post.found@) == instances_view(pre.found@)
    &&& post.page@ == pre.page@
    &&& post.page_size == pre.page_size
    &&& crate::tags::opt_view(post.next_token) == crate::tags::opt_view(pre.next_token)
    &&& pre.pos <= post.pos <= post.page@.len()
    &&& forall|k: int| pre.pos <= k < post.pos ==> (#[trigger] pre.page@[k]).arn is None
    &&& match r {
        ListingAction::FetchTags(a) => {
            &&& post.pos < post.page@.len()
            &&& crate::tags::opt_view(post.page@[post.pos as int].arn) == Some(a@)
            &&& post.awaiting == Awaiting::Tags
        },
        ListingAction::FetchPage { token, max_records } => {
            &&& post.pos == post.page@.len()
            &&& pre.next_token is Some
            &&& crate::tags::opt_view(token) == crate::tags::opt_view(pre.next_token)
            &&& max_records == pre.page_size
            &&& post.awaiting == Awaiting::Page
        },
        ListingAction::Complete(v) => {
            &&& post.pos == post.page@.len()
            &&& pre.next_token is None
            &&& instances_view(v@) == instances_view(pre.found@)
            &&& post.awaiting == Awaiting::Nothing
        },
        ListingAction::Abort(_) => false,
    }
}

impl ListingSession {
    pub open spec fn wf(&self) -> bool {
        &&& self.pos <= self.page@.len()
        &&& all_satisfy(filters_view(self.filters@), instances_view(self.found@))
        &&& self.awaiting == Awaiting::Tags ==> self.pos < self.page@.len()
            && self.page@[self.pos as int].arn is Some
    }

    /// Whether `e` answers what the listing is waiting for.
    pub open spec fn expects(&self, e: ListingEvent) -> bool {
        match e {
            ListingEvent::Page { .. } | ListingEvent::PageFailed(_) => self.awaiting
                == Awaiting::Page,
            ListingEvent::Tags(_) | ListingEvent::TagsFailed(_) => self.awaiting == Awaiting::Tags,
        }
    }

    /// Starts a listing for a filter set, asking for pages of `page_size` instances; its
    /// first action lists the first page.
    pub fn start(filters: &Vec<TagFilter>, page_size: i32) -> (r: (ListingSession, ListingAction))
        ensures
            r.0.page_size == page_size,
            r.0.wf(),
            filters_view(r.0.filters@) == filters_view(filters@),
            r.0.found@.len() == 0,
            r.0.awaiting == Awaiting::Page,
            r.1 == (ListingAction::FetchPage { token: None, max_records: page_size }),
    {
        let s = ListingSession {
            filters: copy_filters(filters),
            found: Vec::new(),
            page: Vec::new(),
            pos: 0,
            next_token: None,
            awaiting: Awaiting::Page,
            page_size,
        };
        assert(instances_view(s.found@) =~= Seq::<InstanceView>::empty());
        (s, ListingAction::FetchPage { token: None, max_records: page_size })
    }

    fn advance(&mut self) -> (r: ListingAction)
        requires
            old(self).wf(),
        ensures
            final(self).wf(),
            advanced(*old(self), *final(self), r),
    {
        while self.pos < self.page.len() && self.page[self.pos].arn.is_none()
            invariant
                old(self).pos <= self.pos <= self.page@.len(),
                self.page@ == old(self).page@,
                self.filters@ == old(self).filters@,
                self.found@ == old(self).found@,
                self.next_token == old(self).next_token,
                self.page_size == old(self).page_size,
                forall|k: int| old(self).pos <= k < self.pos ==> (#[trigger] old(self).page@[k]).arn is None,
            decreases self.page@.len() - self.pos,
        {
            self.pos = self.pos + 1;
        }
        if self.pos < self.page.len() {
            let a = match &self.page[self.pos].arn {
                Some(a) => copy_string(a),
                None => String::new(),
            };
            self.awaiting = Awaiting::Tags;
            ListingAction::FetchTags(a)
        } else {
            match &self.next_token {
                Some(t) => {
                    let t2 = copy_string(t);
                    self.awaiting = Awaiting::Page;
                    ListingAction::FetchPage { token: Some(t2), max_records: self.page_size }
                },
                None => {
                    self.awaiting = Awaiting::Nothing;
                    ListingAction::Complete(copy_instances(&self.found))
                },
            }
        }
    }

    /// Takes the directory's answer and says what to ask next.
    pub fn step(&mut self, event: ListingEvent) -> (r: ListingAction)
        requires
            old(self).wf(),
            old(self).expects(event),
        ensures
            final(self).wf(),
            filters_view(final(self).filters@) == filters_view(old(self).filters@),
            final(self).page_size == old(self).page_size,
            r is Complete ==> all_satisfy(
                filters_view(old(self).filters@),
                instances_view(r->Complete_0@),
            ),
            match event {
                ListingEvent::Page { instances, next_token } => exists|mid: ListingSession|
                    {
                        &&& mid.page@ == instances@
                        &&& mid.pos == 0
                        &&& mid.page_size == old(self).page_size
                        &&& crate::tags::opt_view(mid.next_token) == crate::tags::opt_view(next_token)
                        &&& filters_view(mid.filters@) == filters_view(old(self).filters@)
                        &&& instances_view(mid.found@) == instances_view(old(self).found@)
                        &&& advanced(mid, *final(self), r)
                    },
                ListingEvent::PageFailed(e) => r == ListingAction::Abort(e)
                    && final(self).awaiting == Awaiting::Nothing
                    && instances_view(final(self).found@) == instances_view(old(self).found@),
                ListingEvent::Tags(tags) => exists|mid: ListingSession|
                    {
                        &&& mid.page@ == old(self).page@
                        &&& mid.pos == old(self).pos + 1
                        &&& mid.page_size == old(self).page_size
                        &&& crate::tags::opt_view(mid.next_token) == crate::tags::opt_view(old(self).next_token)
                        &&& filters_view(mid.filters@) == filters_view(old(self).filters@)
                        &&& instances_view(mid.found@) == if satisfies_all(
                            filters_view(old(self).filters@),
                            tags_view(tags@),
                        ) {
                            instances_view(old(self).found@).push(
                                with_tags(old(self).page@[old(self).pos as int]@, tags_view(tags@)),
                            )
                        } else {
                            instances_view(old(self).found@)
                        }
                        &&& advanced(mid, *final(self), r)
                    },
                ListingEvent::TagsFailed(_) => exists|mid: ListingSession|
                    {
                        &&& mid.page@ == old(self).page@
                        &&& mid.pos == old(self).pos + 1
                        &&& mid.page_size == old(self).page_size
                        &&& crate::tags::opt_view(mid.next_token) == crate::tags::opt_view(old(self).next_token)
                        &&& filters_view(mid.filters@) == filters_view(old(self).filters@)
                        &&& instances_view(mid.found@) == instances_view(old(self).found@)
                        &&& advanced(mid, *final(self), r)
                    },
            },
    {
        match event {
            ListingEvent::Page { instances, next_token } => {
                self.page = instances;
                self.pos = 0;
                self.next_token = next_token;
                let ghost mid = *self;
                let r = self.advance();
                assert(advanced(mid, *self, r));
                r
            },
            ListingEvent::PageFailed(e) => {
                self.awaiting = Awaiting::Nothing;
                ListingAction::Abort(e)
            },
            ListingEvent::Tags(tags) => {
                let ok = matches_all(&self.filters, tags.as_slice());
                let base = self.page[self.pos].copy();
                let ghost tv = tags_view(tags@);
                let inst = Instance { tags, ..base };
                assert(inst@ == with_tags(old(self).page@[old(self).pos as int]@, tv));
                if ok {
                    let ghost before = self.found@;
                    self.found.push(inst);
                    assert(instances_view(self.found@) =~= instances_view(before).push(inst@));
                }
                if self.pos < self.page.len() {
                    self.pos = self.pos + 1;
                }
                self.awaiting = Awaiting::Nothing;
                let ghost mid = *self;
                let r = self.advance();
                assert(advanced(mid, *self, r));
                r
            },
            ListingEvent::TagsFailed(e) => {
                assert(old(self).expects(ListingEvent::TagsFailed(e)));
                if self.pos < self.page.len() {
                    self.pos = self.pos + 1;
                }
                self.awaiting = Awaiting::Nothing;
                let ghost mid = *self;
                let r = self.advance();
                assert(advanced(mid, *self, r));
                r
            },
        }
    }
}

} // verus!
