use spool::shell::{parse_add_args, parse_list_args, parse_resolution_arg, parse_show_args, parse_update_args, shell_split};
use spool::cli::OutputFormat;

#[test]
fn test_shell_split_simple() {
    let result = shell_split("add Task title -p 1");
    assert_eq!(result, vec!["add", "Task", "title", "-p", "1"]);
}

#[test]
fn test_shell_split_double_quotes() {
    let result = shell_split(r#"add Task -d "This is a description""#);
    assert_eq!(result, vec!["add", "Task", "-d", "This is a description"]);
}

#[test]
fn test_shell_split_single_quotes() {
    let result = shell_split("add Task -d 'Single quoted description'");
    assert_eq!(
        result,
        vec!["add", "Task", "-d", "Single quoted description"]
    );
}

#[test]
fn test_shell_split_mixed() {
    let result = shell_split(r#"add "Quoted title" -p 1 -d "Quoted description""#);
    assert_eq!(
        result,
        vec!["add", "Quoted title", "-p", "1", "-d", "Quoted description"]
    );
}

#[test]
fn test_shell_split_empty() {
    let result = shell_split("");
    assert!(result.is_empty());
}

#[test]
fn test_shell_split_only_whitespace() {
    let result = shell_split("   \t  ");
    assert!(result.is_empty());
}

#[test]
fn test_parse_add_args_basic() {
    let args: &[&str] = &["Task", "title", "-p", "1"];
    let (title, desc, priority, assignee, tags) = parse_add_args(args).unwrap();
    assert_eq!(title, "Task title");
    assert_eq!(priority, Some("1".to_string()));
    assert!(desc.is_none());
    assert!(assignee.is_none());
    assert!(tags.is_empty());
}

#[test]
fn test_parse_add_args_with_description() {
    let args: &[&str] = &["Task", "-d", "A description", "-p", "2"];
    let (title, desc, priority, _, _) = parse_add_args(args).unwrap();
    assert_eq!(title, "Task");
    assert_eq!(desc, Some("A description".to_string()));
    assert_eq!(priority, Some("2".to_string()));
}

#[test]
fn parse_add_args_requires_a_title() {
    let empty: &[&str] = &[];
    assert!(parse_add_args(empty).is_err());
    let only_opts: &[&str] = &["-p", "1", "-x"];
    assert!(parse_add_args(only_opts).is_err());
}

#[test]
fn parse_add_args_collects_tags_and_assignee() {
    let args: &[&str] = &["Fix", "bug", "-t", "a", "--tag", "b", "-a", "@bob"];
    let (title, _, _, assignee, tags) = parse_add_args(args).unwrap();
    assert_eq!(title, "Fix bug");
    assert_eq!(assignee, Some("@bob".to_string()));
    assert_eq!(tags, vec!["a".to_string(), "b".to_string()]);
}

#[test]
fn parse_list_args_defaults_and_overrides() {
    let none: &[&str] = &[];
    let (status, assignee, tag, priority, format) = parse_list_args(none);
    assert_eq!(status, Some("open".to_string()));
    assert!(assignee.is_none() && tag.is_none() && priority.is_none());
    assert_eq!(format, OutputFormat::Table);
    let args: &[&str] = &["--status", "all", "-f", "json", "-p", "p1"];
    let (status, _, _, priority, format) = parse_list_args(args);
    assert_eq!(status, Some("all".to_string()));
    assert_eq!(priority, Some("p1".to_string()));
    assert_eq!(format, OutputFormat::Json);
}

#[test]
fn parse_show_args_reads_events_flag() {
    let args: &[&str] = &["t1", "-e"];
    assert_eq!(parse_show_args(args).unwrap(), ("t1".to_string(), true));
    let args: &[&str] = &["t1"];
    assert_eq!(parse_show_args(args).unwrap(), ("t1".to_string(), false));
    let empty: &[&str] = &[];
    assert!(parse_show_args(empty).is_err());
}

#[test]
fn parse_resolution_and_update_args() {
    let args: &[&str] = &["t1", "-r", "wontfix"];
    assert_eq!(parse_resolution_arg(args), Some("wontfix".to_string()));
    let args: &[&str] = &["t1", "-r"];
    assert_eq!(parse_resolution_arg(args), None);
    let args: &[&str] = &["t1", "-t", "New", "--priority", "p0"];
    assert_eq!(parse_update_args(args), (Some("New".to_string()), None, Some("p0".to_string())));
}

#[test]
fn shell_split_keeps_unterminated_quote() {
    assert_eq!(shell_split("a 'b c"), vec!["a", "b c"]);
}
