//! What the server knows of a chart, and whether a local copy is up to date.
use vstd::prelude::*;

verus! {

/// An instant in universal time: whole seconds, and nanoseconds within the second.
#[derive(Clone, Copy, PartialEq, Eq, Debug, Structural)]
pub struct Timestamp {
    pub seconds: i64,
    pub nanos: u32,
}

/// A chart on the server.
#[derive(Debug)]
pub struct ChartEntity {
    pub id: i32,
    pub name: String,
    pub file: String,
    pub chart_updated: Timestamp,
    pub updated: Timestamp,
    pub created: Timestamp,
    pub uploader: i32,
}

/// A local copy of a chart, as far as its description tells.
#[derive(Clone, Copy, PartialEq, Eq, Debug, Structural)]
pub struct LocalInfo {
    /// When the copied chart was last updated, if the description says so.
    pub updated: Option<Timestamp>,
}

impl ChartEntity {
    /// Whether the local copy, if there is one, has to be replaced. A copy that does not say how
    /// old it is counts as current only while the chart has never been updated.
    pub open spec fn is_stale(self, local: Option<LocalInfo>) -> bool {
        match local {
            None => true,
            Some(info) => match info.updated {
                None => self.updated != self.created,
                Some(updated) => updated != self.updated,
            },
        }
    }

    /// Whether the chart has to be downloaded.
    pub fn should_download(&self, local: Option<LocalInfo>) -> (r: bool)
        ensures
            r == self.is_stale(local),
    {
        match local {
            None => true,
            Some(info) => match info.updated {
                None => self.updated != self.created,
                Some(updated) => updated != self.updated,
            },
        }
    }

    /// A second copy.
    pub fn duplicate(&self) -> (r: Self)
        ensures
            r == *self,
    {
        ChartEntity {
            id: self.id,
            name: self.name.clone(),
            file: self.file.clone(),
            chart_updated: self.chart_updated,
            updated: self.updated,
            created: self.created,
            uploader: self.uploader,
        }
    }
}

} // verus!
