//! What the ingestion task is started with.
//!
//! The configuration is assembled once, when the process starts, and handed to
//! the parts that need it. The location of the credentials and the name of the
//! topic come from the environment; the name of the subscription is made anew
//! for each process, so that two processes never share one.

use crate::identifier::{format_uuid, hyphenated, is_random_uuid, random_uuid};
use vstd::prelude::*;
use vstd::string::StringExecFns;

verus! {

/// What is missing from the configuration.
#[derive(Clone, Copy, Debug, PartialEq, Eq, Structural)]
pub enum ConfigError {
    /// The location of the credentials is not set.
    MissingCredentials,
    /// The name of the topic is not set.
    MissingTopic,
}

/// The settings of the ingestion task.
#[derive(Debug)]
pub struct Config {
    /// Where the credentials for the backend are found.
    pub credentials: String,
    /// The topic of the backend that the task listens to.
    pub topic: String,
    /// The subscription through which it listens.
    pub subscription: String,
}

/// The name of the subscription made from `id`: the letter `a`, since a name
/// must start with a letter, and then the identifier in hyphenated form.
pub open spec fn subscription_text(id: u128) -> Seq<char> {
    seq!['a'] + hyphenated(id)
}

/// Whether `outcome` is what the two settings from the environment and the
/// subscription's name give: the configuration that holds all three, or what
/// is missing, the credentials before the topic.
pub open spec fn assembled(
    outcome: Result<Config, ConfigError>,
    credentials: Option<String>,
    topic: Option<String>,
    subscription: String,
) -> bool {
    match (credentials, topic) {
        (None, _) => outcome == Err::<Config, ConfigError>(ConfigError::MissingCredentials),
        (Some(_), None) => outcome == Err::<Config, ConfigError>(ConfigError::MissingTopic),
        (Some(credentials), Some(topic)) => outcome matches Ok(config) && config.credentials@
            == credentials@ && config.topic@ == topic@ && config.subscription@ == subscription@,
    }
}

/// The name of the subscription made from `id`.
pub fn subscription_name(id: u128) -> (name: String)
    ensures
        name@ == subscription_text(id),
{
    let mut name = String::from_str("a");
    proof {
        reveal_strlit("a");
        assert(name@ =~= seq!['a']);
    }
    let text = format_uuid(id);
    name.append(text.as_str());
    name
}

/// A subscription name that no other process has: made from a freshly drawn
/// random identifier.
pub fn fresh_subscription_name() -> (name: String)
    ensures
        exists|id: u128| is_random_uuid(id) && name@ == #[trigger] subscription_text(id),
{
    let id = random_uuid();
    subscription_name(id)
}

impl ConfigError {
    /// What to tell the operator.
    pub fn message(&self) -> (text: &'static str)
        ensures
            *self == ConfigError::MissingCredentials ==> text@
                == "GOOGLE_APPLICATION_CREDENTIALS must be set"@,
            *self == ConfigError::MissingTopic ==> text@ == "OW2_TOPIC must be set"@,
    {
        match self {
            ConfigError::MissingCredentials => "GOOGLE_APPLICATION_CREDENTIALS must be set",
            ConfigError::MissingTopic => "OW2_TOPIC must be set",
        }
    }
}

impl Config {
    /// Assembles the configuration from the two settings of the environment and
    /// the subscription's name. Both settings are required.
    pub fn new(credentials: Option<String>, topic: Option<String>, subscription: String) -> (outcome:
        Result<Config, ConfigError>)
        ensures
            assembled(outcome, credentials, topic, subscription),
    {
        match credentials {
            None => Err(ConfigError::MissingCredentials),
            Some(credentials) => match topic {
                None => Err(ConfigError::MissingTopic),
                Some(topic) => Ok(Config { credentials, topic, subscription }),
            },
        }
    }
}

} // verus!
