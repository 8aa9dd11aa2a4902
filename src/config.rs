use vstd::prelude::*;
use crate::cloudwatch::MetricConfig;
use crate::rds::RdsConfig;

verus! {

/// The whole configuration of the exporter.
#[derive(Debug, Clone)]
pub struct Settings {
    pub aws: AwsSettings,
    pub exporter: ExporterSettings,
    pub target: TargetSettings,
    pub cloudwatch: CloudWatchSettings,
}

/// Region and optional credentials profile of the cloud account.
#[derive(Debug, Clone)]
pub struct AwsSettings {
    pub region: String,
    pub credentials: Option<AwsCredentials>,
}

#[derive(Debug, Clone)]
pub struct AwsCredentials {
    pub profile: String,
}

/// Where the scrape endpoint listens and how often the fleet is polled, in seconds.
#[derive(Debug, Clone)]
pub struct ExporterSettings {
    pub host: String,
    pub port: u16,
    pub collection_interval: u64,
}

/// The fleet-wide tag filter.
#[derive(Debug, Clone)]
pub struct TargetSettings {
    pub tag_key: String,
    pub tag_value: String,
}

/// Period, statistic and retry policy of the time-series calls; the delay is in seconds.
#[derive(Debug, Clone)]
pub struct CloudWatchSettings {
    pub period: i32,
    pub stat: String,
    pub retry_attempts: u32,
    pub retry_delay: u64,
}

impl Default for Settings {
    fn default() -> (r: Settings)
        ensures
            r.aws.region@ == "ap-northeast-2"@,
            r.aws.credentials is None,
            r.exporter.host@ == "0.0.0.0"@,
            r.exporter.port == 9043,
            r.exporter.collection_interval == 60,
            r.target.tag_key@ == "env"@,
            r.target.tag_value@ == "prd"@,
            r.cloudwatch.period == 60,
            r.cloudwatch.stat@ == "Average"@,
            r.cloudwatch.retry_attempts == 3,
            r.cloudwatch.retry_delay == 1,
    {
        Settings {
            aws: AwsSettings { region: String::from_str("ap-northeast-2"), credentials: None },
            exporter: ExporterSettings {
                host: String::from_str("0.0.0.0"),
                port: 9043,
                collection_interval: 60,
            },
            target: TargetSettings {
                tag_key: String::from_str("env"),
                tag_value: String::from_str("prd"),
            },
            cloudwatch: CloudWatchSettings {
                period: 60,
                stat: String::from_str("Average"),
                retry_attempts: 3,
                retry_delay: 1,
            },
        }
    }
}

/// Seconds as milliseconds, capped at the largest `u64`.
pub open spec fn secs_to_ms(s: u64) -> u64 {
    if s * 1000 <= u64::MAX {
        (s * 1000) as u64
    } else {
        u64::MAX
    }
}

impl Settings {
    /// The time-series client's settings.
    pub fn metric_config(&self) -> (r: MetricConfig)
        ensures
            r.period == self.cloudwatch.period,
            r.stat@ == self.cloudwatch.stat@,
            r.retry_attempts == self.cloudwatch.retry_attempts,
            r.retry_delay_ms == secs_to_ms(self.cloudwatch.retry_delay),
    {
        MetricConfig {
            period: self.cloudwatch.period,
            stat: self.cloudwatch.stat.clone(),
            retry_attempts: self.cloudwatch.retry_attempts,
            retry_delay_ms: match self.cloudwatch.retry_delay.checked_mul(1000) {
                Some(ms) => ms,
                None => u64::MAX,
            },
        }
    }

    /// The directory client's settings: the configured target tag, defaults otherwise.
    pub fn rds_config(&self) -> (r: RdsConfig)
        ensures
            r.target_tag_key@ == self.target.tag_key@,
            r.target_tag_value@ == self.target.tag_value@,
            r.max_retries == 3,
            r.retry_delay_ms == 1000,
            r.cache_ttl_ms == 300_000,
            r.page_size == 100,
    {
        let d = RdsConfig::default();
        RdsConfig {
            target_tag_key: self.target.tag_key.clone(),
            target_tag_value: self.target.tag_value.clone(),
            ..d
        }
    }
}

} // verus!
