//! Tracking the latest releases of software products.
//!
//! Each product has a collector that reads what its source published. A run dispatches the
//! collectors of the enabled targets, normalizes the versions that they report, merges the
//! tables of those that succeeded and lists those that failed. Nothing here touches the
//! network: the caller fetches, and hands the answers in.

pub mod aggregate;
pub mod assoc;
pub mod collect;
pub mod config;
pub mod date;
pub mod domain;
pub mod error;
pub mod fallback;
pub mod frame;
pub mod html;
pub mod metrics;
pub mod normalize;
pub mod orchestrate;
pub mod ordered;
pub mod paginate;
pub mod pattern;
pub mod record;
pub mod semver;
pub mod seqs;
pub mod source;
pub mod store;
pub mod text;

pub use collect::apache::ApacheCollector;
pub use collect::docker::DockerCollector;
pub use collect::eclipse_temurin::EclipseTemurinCollector;
pub use collect::github::{GitHubCollector, GitHubSource};
pub use collect::go::GoCollector;
pub use collect::kong::KongCollector;
pub use collect::mongodb::MongoDbCollector;
pub use collect::mysql::MySqlCollector;
pub use collect::nginx::NginxCollector;
pub use collect::node::NodeCollector;
pub use collect::perl::PerlCollector;
pub use collect::php::PhpCollector;
pub use collect::postgresql::PostgresqlCollector;
pub use collect::python::PythonCollector;
pub use collect::releases::{GitHubRelease, GitHubTag};
pub use collect::ruby::RubyCollector;
pub use collect::rust::RustCollector;
pub use collect::scala::ScalaCollector;
pub use collect::swift::SwiftCollector;
pub use config::{Settings, Target, VersionCleaning};
pub use domain::{ProductCycle, SoftwareVersion};
pub use error::Error;
pub use frame::{dataframe_to_product_cycles, product_cycles_to_dataframe};
