//! The sealed, read-only view through which projections are read: only the
//! state layer can build one, and nothing can change its data.

use vstd::prelude::*;
use crate::text::same_text;

verus! {

/// The sealing token: only this crate can make one, so only this crate can
/// build a [`ProjectionView`].
#[derive(Debug, Clone, Copy)]
pub(crate) struct ProjectionSeal(());

impl ProjectionSeal {
    pub(crate) fn new() -> Self {
        ProjectionSeal(())
    }
}

/// A sealed, read-only view of a materialized projection.
#[derive(Debug, Clone)]
pub struct ProjectionView<T> {
    pub projection_id: String,
    /// The realm the projection belongs to.
    pub realm_id: String,
    /// The state version it was built from.
    pub state_version: u64,
    /// The checksum of the state it was built from.
    pub state_checksum: String,
    /// Private: read through `data` only.
    data: T,
}

impl<T: Clone> ProjectionView<T> {
    /// The data the view holds.
    pub closed spec fn spec_data(&self) -> T {
        self.data
    }

    pub closed spec fn spec_projection_id(&self) -> Seq<char> {
        self.projection_id@
    }

    pub closed spec fn spec_realm_id(&self) -> Seq<char> {
        self.realm_id@
    }

    pub closed spec fn spec_state_version(&self) -> u64 {
        self.state_version
    }

    pub closed spec fn spec_state_checksum(&self) -> Seq<char> {
        self.state_checksum@
    }

    /// Seal a view; only this crate holds a seal.
    pub(crate) fn seal(
        _proof: ProjectionSeal,
        projection_id: &str,
        realm_id: &str,
        state_version: u64,
        state_checksum: &str,
        data: T,
    ) -> (r: Self)
        ensures
            r.spec_projection_id() == projection_id@,
            r.spec_realm_id() == realm_id@,
            r.spec_state_version() == state_version,
            r.spec_state_checksum() == state_checksum@,
            r.spec_data() == data,
    {
        ProjectionView {
            projection_id: projection_id.to_owned(),
            realm_id: realm_id.to_owned(),
            state_version,
            state_checksum: state_checksum.to_owned(),
            data,
        }
    }

    /// Read-only access to the data.
    pub fn data(&self) -> (r: &T)
        ensures
            *r == self.spec_data(),
    {
        &self.data
    }

    /// Is the view stale, given the state's current checksum?
    pub fn is_stale(&self, current_checksum: &str) -> (r: bool)
        ensures
            r == (self.spec_state_checksum() != current_checksum@),
    {
        !same_text(self.state_checksum.as_str(), current_checksum)
    }

    /// A copy of the data, for consumers that need to own it.
    pub fn cloned_data(&self) -> (r: T)
        ensures
            cloned::<T>(self.spec_data(), r),
    {
        self.data.clone()
    }
}

/// Builds the sealed views.
pub struct ProjectionFactory;

impl ProjectionFactory {
    /// A sealed view of `data`.
    pub fn create<T: Clone>(projection_id: &str, realm_id: &str, state_version: u64, state_checksum: &str, data: T) -> (r: ProjectionView<T>)
        ensures
            r.spec_projection_id() == projection_id@,
            r.spec_realm_id() == realm_id@,
            r.spec_state_version() == state_version,
            r.spec_state_checksum() == state_checksum@,
            r.spec_data() == data,
    {
        ProjectionView::seal(ProjectionSeal::new(), projection_id, realm_id, state_version, state_checksum, data)
    }
}

/// The kanban board: task ids by column.
#[derive(Debug, Clone)]
pub struct KanbanProjection {
    pub planning: Vec<String>,
    pub todo: Vec<String>,
    pub in_progress: Vec<String>,
    pub in_review: Vec<String>,
    pub done: Vec<String>,
    pub total_tasks: usize,
}

impl Default for KanbanProjection {
    fn default() -> (r: Self)
        ensures
            r.planning@.len() == 0,
            r.todo@.len() == 0,
            r.in_progress@.len() == 0,
            r.in_review@.len() == 0,
            r.done@.len() == 0,
            r.total_tasks == 0,
    {
        KanbanProjection {
            planning: Vec::new(),
            todo: Vec::new(),
            in_progress: Vec::new(),
            in_review: Vec::new(),
            done: Vec::new(),
            total_tasks: 0,
        }
    }
}

/// The task list.
#[derive(Debug, Clone)]
pub struct TaskListProjection {
    pub tasks: Vec<TaskSummary>,
    pub total_count: usize,
    pub blocked_count: usize,
}

/// One task of the list.
#[derive(Debug, Clone)]
pub struct TaskSummary {
    pub id: String,
    pub title: String,
    pub status: String,
    pub priority: String,
    pub assignee: Option<String>,
}

} // verus!
