//! The views and panes of the dashboard.
use vstd::prelude::*;

verus! {

/// The views the dashboard can show.
#[derive(Clone, Copy, PartialEq, Eq, Structural, Debug)]
pub enum View {
    Topics,
    Sessions,
    Logs,
}

/// The panes of the sessions view.
#[derive(Clone, Copy, PartialEq, Eq, Structural, Debug)]
pub enum SessionsPane {
    List,
    SessionMd,
}

/// The statistics by which topics can be filtered.
#[derive(Clone, Copy, PartialEq, Eq, Structural, Debug)]
pub enum StatsFilter {
    Total,
    Overdue,
    Last7Days,
    Mastered,
    Struggling,
}

/// The panes of the topics view.
#[derive(Clone, Copy, PartialEq, Eq, Structural, Debug)]
pub enum TopicsPane {
    List,
    Stats,
    Categories,
}


} // verus!
