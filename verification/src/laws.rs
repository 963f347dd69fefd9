//! What the commands are for, stated of their inputs and results.
pub mod answers;
pub mod bases;
pub mod claims;
pub mod diffs;
pub mod documents;
pub mod drift;
pub mod findings;
pub mod gates;
pub mod git;
pub mod github;
pub mod listing;
pub mod numbers;
pub mod overlap;
pub mod paths;
pub mod places;
pub mod recommendations;
pub mod records;
pub mod recovery;
pub mod redaction;
pub mod releases;
pub mod repository_report;
pub mod rollback;
pub mod runs;
pub mod scope;
pub mod settings;
pub mod sight;
pub mod stack_report;
pub mod stacks;
pub mod status;
pub mod summaries;
pub mod waiting;
pub mod wording;
