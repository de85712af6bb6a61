//! What a run is told: the arguments with their defaults, and the settings
//! of the connection to the source.

use vstd::prelude::*;
use vstd::string::StringExecFns;

verus! {

/// The arguments of a run.
#[derive(Debug, Clone, PartialEq, Eq)]
pub struct Args {
    /// The addresses of the brokers; never empty.
    pub brokers: Vec<String>,
    /// The topic to read.
    pub topic: String,
    /// The path of the output file.
    pub output: String,
    /// Whether only the last record of each key is kept.
    pub compact: bool,
}

/// Why the arguments are refused.
#[derive(Clone, Copy, Debug, PartialEq, Eq, Structural)]
pub enum ArgsError {
    /// No topic was named.
    MissingTopic,
}

/// The broker that is used where none is named.
pub open spec fn default_broker() -> Seq<char> {
    "localhost:9092"@
}

/// The output file that is used where none is named.
pub open spec fn default_output() -> Seq<char> {
    "dump.sqlite"@
}

/// Fills in the defaults. The topic is required. Where no broker is named,
/// the one local broker is used; where no output file is named, the default
/// one.
pub fn resolve_args(
    brokers: Option<Vec<String>>,
    topic: Option<String>,
    output: Option<String>,
    compact: bool,
) -> (result: Result<Args, ArgsError>)
    ensures
        topic is None ==> result == Err::<Args, ArgsError>(ArgsError::MissingTopic),
        topic is Some ==> result is Ok,
        result matches Ok(args) ==> {
            &&& args.topic == topic->0
            &&& args.compact == compact
            &&& output is Some ==> args.output == output->0
            &&& output is None ==> args.output@ == default_output()
            &&& brokers is Some && brokers->0@.len() > 0 ==> args.brokers == brokers->0
            &&& brokers is None || brokers->0@.len() == 0 ==> args.brokers@.len() == 1
                && args.brokers@[0]@ == default_broker()
        },
{
    let topic = match topic {
        Some(topic) => topic,
        None => {
            return Err(ArgsError::MissingTopic);
        },
    };
    let brokers = match brokers {
        Some(named) => {
            if named.len() > 0 {
                named
            } else {
                local_broker()
            }
        },
        None => local_broker(),
    };
    let output = match output {
        Some(path) => path,
        None => String::from_str("dump.sqlite"),
    };
    Ok(Args { brokers, topic, output, compact })
}

fn local_broker() -> (brokers: Vec<String>)
    ensures
        brokers@.len() == 1,
        brokers@[0]@ == default_broker(),
{
    let mut brokers: Vec<String> = Vec::new();
    brokers.push(String::from_str("localhost:9092"));
    brokers
}

/// Where the source starts in a partition for which no offset was committed.
#[derive(Clone, Copy, Debug, PartialEq, Eq, Structural)]
pub enum StartOffset {
    Earliest,
    Latest,
}

/// The settings of the connection to the source.
#[derive(Debug, Clone, PartialEq, Eq)]
pub struct FetchConfig {
    pub brokers: Vec<String>,
    /// The consumer group on whose behalf offsets are committed.
    pub group: String,
    pub topic: String,
    /// How long a poll waits at most before it returns without records, in milliseconds.
    pub max_wait_ms: u64,
    /// How many bytes a poll gathers at least before it returns.
    pub min_bytes: i32,
    /// How many bytes a poll takes at most from one partition.
    pub max_bytes_per_partition: i32,
    /// How many bytes a fetch that is tried again may take at most.
    pub retry_max_bytes: i32,
    /// Where to start where no offset was committed.
    pub fallback: StartOffset,
}

/// The consumer group of every run.
pub open spec fn group_name() -> Seq<char> {
    "dump-kafka-to-sql"@
}

/// The settings for reading `topic` from `brokers`: the fixed group and
/// limits, and the earliest offset where none was committed.
pub fn fetch_config(brokers: Vec<String>, topic: String) -> (config: FetchConfig)
    ensures
        config.brokers == brokers,
        config.topic == topic,
        config.group@ == group_name(),
        config.max_wait_ms == 100,
        config.min_bytes == 1_000,
        config.max_bytes_per_partition == 100_000,
        config.retry_max_bytes == 1_000_000,
        config.fallback == StartOffset::Earliest,
{
    FetchConfig {
        brokers,
        group: String::from_str("dump-kafka-to-sql"),
        topic,
        max_wait_ms: 100,
        min_bytes: 1_000,
        max_bytes_per_partition: 100_000,
        retry_max_bytes: 1_000_000,
        fallback: StartOffset::Earliest,
    }
}

} // verus!
