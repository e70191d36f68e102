use spool::context::FabricContext;

const ROOT: &str = "/work/project/.spool";

#[test]
fn test_spool_context_new() {
    let ctx = FabricContext::new(ROOT);
    assert_eq!(ctx.root, ROOT);
    assert_eq!(ctx.events_dir, format!("{}/events", ROOT));
    assert_eq!(ctx.archive_dir, format!("{}/archive", ROOT));
}

#[test]
fn test_spool_context_index_path() {
    let ctx = FabricContext::new(ROOT);
    assert_eq!(ctx.index_path(), format!("{}/.index.json", ROOT));
}

#[test]
fn test_spool_context_state_path() {
    let ctx = FabricContext::new(ROOT);
    assert_eq!(ctx.state_path(), format!("{}/.state.json", ROOT));
}
