pub mod applied;
pub mod error;
pub mod laws;
pub mod migration;
pub mod resolver;
pub mod runner;

pub use applied::AppliedMigration;
pub use error::Error;
pub use migration::{Migration, MigrationPrefix, Target};
pub use runner::Runner;
