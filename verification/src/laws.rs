//! What holds of the cache as a whole.
pub mod answers;
pub mod checks;
pub mod dependencies;
pub mod explanation;
pub mod lists;
pub mod lookup;
pub mod models;
pub mod normal_form;
pub mod orders;
pub mod paths;
pub mod reasons;
pub mod runs;
pub mod states;
pub mod texts;
