use delphos::projection_view::{KanbanProjection, ProjectionFactory, ProjectionView, TaskListProjection, TaskSummary};

fn make_kanban_view() -> ProjectionView<KanbanProjection> {
    ProjectionFactory::create("kanban", "telum", 5, "checksum-abc", KanbanProjection { todo: vec!["T-1".into(), "T-2".into()], total_tasks: 2, ..Default::default() })
}

#[test]
fn read_only_access() {
    let view = make_kanban_view();
    assert_eq!(view.data().total_tasks, 2);
    assert_eq!(view.data().todo.len(), 2);
}

#[test]
fn staleness_detection() {
    let view = make_kanban_view();
    assert!(!view.is_stale("checksum-abc"));
    assert!(view.is_stale("checksum-xyz"));
}

#[test]
fn cloned_data_independent() {
    let view = make_kanban_view();
    let mut cloned = view.cloned_data();
    cloned.total_tasks = 999;
    assert_eq!(view.data().total_tasks, 2);
}

#[test]
fn metadata_readable() {
    let view = make_kanban_view();
    assert_eq!(view.projection_id, "kanban");
    assert_eq!(view.realm_id, "telum");
    assert_eq!(view.state_version, 5);
}

#[test]
fn task_projection() {
    let view = ProjectionFactory::create(
        "task-list",
        "telum",
        1,
        "ck",
        TaskListProjection {
            tasks: vec![TaskSummary {
                id: "T-1".into(),
                title: "impl pipeline".into(),
                status: "in_progress".into(),
                priority: "high".into(),
                assignee: Some("agent-1".into()),
            }],
            total_count: 1,
            blocked_count: 0,
        },
    );
    assert_eq!(view.data().tasks[0].id, "T-1");
    assert_eq!(view.data().blocked_count, 0);
}

#[test]
fn default_kanban_is_empty() {
    let k = KanbanProjection::default();
    assert!(k.planning.is_empty() && k.todo.is_empty() && k.in_progress.is_empty() && k.in_review.is_empty() && k.done.is_empty());
    assert_eq!(k.total_tasks, 0);
}
