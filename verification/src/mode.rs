//! The two orchestration strategies: a one-shot bounded drain of the target
//! pool, and indefinite rate-limited monitoring rounds.

use vstd::prelude::*;

pub mod monitor;
pub mod scanner;

verus! {

/// Which orchestration strategy a run uses, with its settings.
pub enum Mode {
    Scanner { workers: usize, output: String, progress_bar: bool },
    Monitor { workers: usize, webhook_url: Option<String>, exit_on_success: bool },
}

} // verus!
