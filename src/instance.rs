use vstd::prelude::*;
use crate::tags::{Tag, TagView, opt_view, tags_view};

verus! {

/// A managed-database instance as discovered in the directory.
#[derive(Debug, Clone)]
pub struct Instance {
    pub identifier: Option<String>,
    pub arn: Option<String>,
    pub engine: Option<String>,
    pub engine_version: Option<String>,
    pub instance_class: Option<String>,
    pub availability_zone: Option<String>,
    pub tags: Vec<Tag>,
}

pub struct InstanceView {
    pub identifier: Option<Seq<char>>,
    pub arn: Option<Seq<char>>,
    pub engine: Option<Seq<char>>,
    pub engine_version: Option<Seq<char>>,
    pub instance_class: Option<Seq<char>>,
    pub availability_zone: Option<Seq<char>>,
    pub tags: Seq<TagView>,
}

impl View for Instance {
    type V = InstanceView;

    open spec fn view(&self) -> InstanceView {
        InstanceView {
            identifier: opt_view(self.identifier),
            arn: opt_view(self.arn),
            engine: opt_view(self.engine),
            engine_version: opt_view(self.engine_version),
            instance_class: opt_view(self.instance_class),
            availability_zone: opt_view(self.availability_zone),
            tags: tags_view(self.tags@),
        }
    }
}

/// The family of a database engine, which decides the metric set.
#[derive(Debug, Clone, Copy, PartialEq, Eq, Structural)]
pub enum EngineKind {
    Common,
    MySqlFamily,
    PostgresFamily,
}

pub open spec fn engine_kind_spec(engine: Seq<char>) -> EngineKind {
    if engine == "aurora-mysql"@ || engine == "mysql"@ {
        EngineKind::MySqlFamily
    } else if engine == "aurora-postgresql"@ || engine == "postgres"@ {
        EngineKind::PostgresFamily
    } else {
        EngineKind::Common
    }
}

/// The engine family of a raw engine identifier.
pub fn engine_kind(engine: &str) -> (r: EngineKind)
    ensures
        r == engine_kind_spec(engine@),
{
    let e = String::from_str(engine);
    if e == String::from_str("aurora-mysql") || e == String::from_str("mysql") {
        EngineKind::MySqlFamily
    } else if e == String::from_str("aurora-postgresql") || e == String::from_str("postgres") {
        EngineKind::PostgresFamily
    } else {
        EngineKind::Common
    }
}

pub open spec fn names_view(v: Seq<String>) -> Seq<Seq<char>> {
    v.map_values(|s: String| s@)
}

pub open spec fn common_metrics_spec() -> Seq<Seq<char>> {
    seq![
        "CPUUtilization"@,
        "FreeableMemory"@,
        "FreeStorageSpace"@,
        "DatabaseConnections"@,
        "ReadIOPS"@,
        "WriteIOPS"@,
        "ReadLatency"@,
        "WriteLatency"@,
        "DiskQueueDepth"@,
        "ReadThroughput"@,
        "WriteThroughput"@,
        "NetworkReceiveThroughput"@,
        "NetworkTransmitThroughput"@,
        "LockWaitTime"@,
        "LockContention"@,
        "QueryExecutionTime"@,
        "QueryCount"@,
        "SlowQueries"@,
        "BackupStatus"@,
        "SnapshotAge"@,
    ]
}

pub open spec fn mysql_extra_spec() -> Seq<Seq<char>> {
    seq![
        "Queries"@,
        "ThreadsRunning"@,
        "InnodbBufferPoolHits"@,
        "InnodbBufferPoolReadRequests"@,
        "InnodbBufferPoolReads"@,
        "DeadlocksCount"@,
    ]
}

pub open spec fn postgresql_extra_spec() -> Seq<Seq<char>> {
    seq![
        "ActiveTransactions"@,
        "BufferCacheHitRatio"@,
        "IndexHitRatio"@,
        "Deadlocks"@,
        "TemporaryTables"@,
        "ReplicationLag"@,
        "CheckpointDuration"@,
        "WALWriteLatency"@,
    ]
}

/// The ordered metric names requested for an engine family.
pub open spec fn metric_set_spec(kind: EngineKind) -> Seq<Seq<char>> {
    match kind {
        EngineKind::Common => common_metrics_spec(),
        EngineKind::MySqlFamily => common_metrics_spec() + mysql_extra_spec(),
        EngineKind::PostgresFamily => common_metrics_spec() + postgresql_extra_spec(),
    }
}

fn push_name(v: &mut Vec<String>, name: &str)
    ensures
        names_view(final(v)@) == names_view(old(v)@).push(name@),
{
    v.push(String::from_str(name));
    assert(names_view(v@) =~= names_view(old(v)@).push(name@));
}

/// The metrics every engine reports.
pub fn get_common_metrics() -> (r: Vec<String>)
    ensures
        names_view(r@) == common_metrics_spec(),
{
    let mut v: Vec<String> = Vec::new();
    assert(names_view(v@) =~= Seq::<Seq<char>>::empty());
    push_name(&mut v, "CPUUtilization");
    push_name(&mut v, "FreeableMemory");
    push_name(&mut v, "FreeStorageSpace");
    push_name(&mut v, "DatabaseConnections");
    push_name(&mut v, "ReadIOPS");
    push_name(&mut v, "WriteIOPS");
    push_name(&mut v, "ReadLatency");
    push_name(&mut v, "WriteLatency");
    push_name(&mut v, "DiskQueueDepth");
    push_name(&mut v, "ReadThroughput");
    push_name(&mut v, "WriteThroughput");
    push_name(&mut v, "NetworkReceiveThroughput");
    push_name(&mut v, "NetworkTransmitThroughput");
    push_name(&mut v, "LockWaitTime");
    push_name(&mut v, "LockContention");
    push_name(&mut v, "QueryExecutionTime");
    push_name(&mut v, "QueryCount");
    push_name(&mut v, "SlowQueries");
    push_name(&mut v, "BackupStatus");
    push_name(&mut v, "SnapshotAge");
    assert(names_view(v@) =~= common_metrics_spec());
    v
}

/// The common metrics followed by the MySQL-family counters.
pub fn get_mysql_metrics() -> (r: Vec<String>)
    ensures
        names_view(r@) == common_metrics_spec() + mysql_extra_spec(),
{
    let mut v = get_common_metrics();
    push_name(&mut v, "Queries");
    push_name(&mut v, "ThreadsRunning");
    push_name(&mut v, "InnodbBufferPoolHits");
    push_name(&mut v, "InnodbBufferPoolReadRequests");
    push_name(&mut v, "InnodbBufferPoolReads");
    push_name(&mut v, "DeadlocksCount");
    assert(names_view(v@) =~= common_metrics_spec() + mysql_extra_spec());
    v
}

/// The common metrics followed by the Postgres-family counters.
pub fn get_postgresql_metrics() -> (r: Vec<String>)
    ensures
        names_view(r@) == common_metrics_spec() + postgresql_extra_spec(),
{
    let mut v = get_common_metrics();
    push_name(&mut v, "ActiveTransactions");
    push_name(&mut v, "BufferCacheHitRatio");
    push_name(&mut v, "IndexHitRatio");
    push_name(&mut v, "Deadlocks");
    push_name(&mut v, "TemporaryTables");
    push_name(&mut v, "ReplicationLag");
    push_name(&mut v, "CheckpointDuration");
    push_name(&mut v, "WALWriteLatency");
    assert(names_view(v@) =~= common_metrics_spec() + postgresql_extra_spec());
    v
}

/// The ordered metric names for an engine family.
pub fn metrics_for(kind: EngineKind) -> (r: Vec<String>)
    ensures
        names_view(r@) == metric_set_spec(kind),
{
    match kind {
        EngineKind::Common => get_common_metrics(),
        EngineKind::MySqlFamily => get_mysql_metrics(),
        EngineKind::PostgresFamily => get_postgresql_metrics(),
    }
}

/// The engine family of an instance; an instance without an engine is `Common`.
pub open spec fn instance_kind_spec(i: InstanceView) -> EngineKind {
    match i.engine {
        Some(e) => engine_kind_spec(e),
        None => EngineKind::Common,
    }
}

pub fn instance_kind(inst: &Instance) -> (r: EngineKind)
    ensures
        r == instance_kind_spec(inst@),
{
    match &inst.engine {
        Some(e) => engine_kind(e.as_str()),
        None => EngineKind::Common,
    }
}

} // verus!
