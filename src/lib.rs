//! An embeddable HTTP load generator: the record of a run, its merge algebra,
//! the split of concurrency over execution contexts, and URI composition.
use vstd::prelude::*;

pub mod driver;
pub mod result;
pub mod uri;

pub use driver::{finish_run, is_success_status, BenchmarkConfig};
pub use result::{BenchmarkResult, Outcome, ResultModel};
pub use uri::{join_path, parse_with_path, UriExt};

verus! {

} // verus!
