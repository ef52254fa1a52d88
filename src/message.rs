use vstd::prelude::*;

verus! {

/// What travels on a worker's queue: a work item to fetch, or the terminal
/// signal after which nothing more is sent on that queue.
#[derive(Debug)]
pub enum WorkOrShutdown {
    /// One work item: the target (a URL) to fetch.
    Work(String),
    /// No further work items will arrive on this queue.
    Shutdown,
}

impl View for WorkOrShutdown {
    /// A work item is seen as the characters of its target, the shutdown
    /// signal as `None`.
    type V = Option<Seq<char>>;

    open spec fn view(&self) -> Option<Seq<char>> {
        match self {
            WorkOrShutdown::Work(t) => Some(t@),
            WorkOrShutdown::Shutdown => None,
        }
    }
}

} // verus!
