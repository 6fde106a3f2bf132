//! Alerts the scheduler raises when a report or a dispatch goes astray.
use vstd::prelude::*;

verus! {

/// A classified alert.
#[derive(PartialEq, Eq, Structural, Debug, Clone, Copy)]
pub enum Topic {
    /// A report named a region that the table does not hold.
    UnknownRegion { region_id: u64 },
    /// The feedback source was lost for good.
    SqsConnDropped,
    /// A region could not enqueue its next dispatch, so its schedule halts.
    DispatchSinkClosed { region_id: u64 },
}

impl Topic {
    /// The human-readable text of the alert's class.
    pub fn message(&self) -> (r: &'static str)
        ensures
            self is UnknownRegion ==> r@ == "Unknown region."@,
            self is SqsConnDropped ==> r@ == "Connection to SQS dropped."@,
            self is DispatchSinkClosed ==> r@ == "Dispatch channel closed."@,
    {
        match self {
            Topic::UnknownRegion { .. } => "Unknown region.",
            Topic::SqsConnDropped => "Connection to SQS dropped.",
            Topic::DispatchSinkClosed { .. } => "Dispatch channel closed.",
        }
    }
}

} // verus!
