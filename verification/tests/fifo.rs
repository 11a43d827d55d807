use bartender::error::ConfigError;
use bartender::fifo::parse_path;
use bartender::fifo::Fifo;
use bartender::fifo::FifoSet;
use bartender::mkfifo::open_fifo;
use bartender::mkfifo::OpenEvent;
use bartender::mkfifo::OpenStep;
use bartender::value::Node;

fn table(entries: Vec<(&str, Node)>) -> Node {
    Node::Table(entries.into_iter().map(|(key, node)| (key.to_string(), node)).collect())
}

fn text(s: &str) -> Node {
    Node::String(s.to_string())
}

#[test]
fn plain_path_stands_for_itself() {
    assert_eq!(parse_path("/run/bar/mail", Some("/home/u")).unwrap(), "/run/bar/mail");
    assert_eq!(parse_path("relative/fifo", None).unwrap(), "relative/fifo");
    assert_eq!(parse_path("~", None).unwrap(), "~");
    assert_eq!(parse_path("~user/fifo", None).unwrap(), "~user/fifo");
    assert_eq!(parse_path("", None).unwrap(), "");
}

#[test]
fn home_path_is_taken_from_the_home_directory() {
    assert_eq!(parse_path("~/mail.fifo", Some("/home/u")).unwrap(), "/home/u/mail.fifo");
    assert_eq!(parse_path("~/mail.fifo", Some("/home/u/")).unwrap(), "/home/u/mail.fifo");
    assert_eq!(parse_path("~/a/b", Some("/")).unwrap(), "/a/b");
    assert_eq!(parse_path("~/", Some("/home/u")).unwrap(), "/home/u/");
    assert_eq!(parse_path("~/x", Some("")).unwrap(), "x");
    assert_eq!(parse_path("~/gr\u{fc}n", Some("/h\u{f6}me")).unwrap(), "/h\u{f6}me/gr\u{fc}n");
}

#[test]
fn home_path_that_starts_at_the_root_replaces_the_home_directory() {
    assert_eq!(parse_path("~//etc/fifo", Some("/home/u")).unwrap(), "/etc/fifo");
}

#[test]
fn home_path_without_home_directory_fails() {
    assert!(matches!(parse_path("~/mail.fifo", None), Err(ConfigError::NoHome)));
}

#[test]
fn fifo_from_its_table() {
    let config = table(vec![("default", text("--")), ("fifo_path", text("~/mail"))]);
    let fifo = Fifo::from_config("mail".to_string(), 7, &config, Some("/home/u")).unwrap();
    assert_eq!(fifo.id, 7);
    assert_eq!(fifo.path, "/home/u/mail");
    assert_eq!(fifo.default, Some("--".to_string()));
}

#[test]
fn fifo_without_default() {
    let config = table(vec![("default", Node::Integer(3)), ("fifo_path", text("/tmp/f"))]);
    let fifo = Fifo::from_config("f".to_string(), 0, &config, None).unwrap();
    assert_eq!(fifo.path, "/tmp/f");
    assert_eq!(fifo.default, None);
}

#[test]
fn fifo_that_is_no_table_is_missing() {
    let error = Fifo::from_config("mail".to_string(), 0, &text("/tmp/f"), None).unwrap_err();
    assert!(matches!(error, ConfigError::Missing(ref name, None) if name == "mail"));
}

#[test]
fn fifo_without_path_misses_its_child() {
    let config = table(vec![("default", text("--")), ("fifo_path", Node::Boolean(true))]);
    let error = Fifo::from_config("mail".to_string(), 0, &config, None).unwrap_err();
    assert!(
        matches!(error, ConfigError::Missing(ref name, Some("fifo_path")) if name == "mail")
    );
}

#[test]
fn fifo_in_home_without_home_fails() {
    let config = table(vec![("fifo_path", text("~/mail"))]);
    let error = Fifo::from_config("mail".to_string(), 0, &config, None).unwrap_err();
    assert!(matches!(error, ConfigError::NoHome));
}

#[test]
fn pipe_that_did_not_open_changes_nothing() {
    let mut fds = Vec::new();
    let mut buffers = Vec::new();
    let good = Fifo { path: "/tmp/a".to_string(), id: 1, default: None };
    assert_eq!(good.attach(Some(4), &mut fds, &mut buffers), None);
    let bad = Fifo { path: "/tmp/b".to_string(), id: 2, default: Some("x".to_string()) };
    assert_eq!(bad.attach(None, &mut fds, &mut buffers), None);
    let other = Fifo { path: "/tmp/c".to_string(), id: 3, default: Some("y".to_string()) };
    assert_eq!(other.attach(Some(6), &mut fds, &mut buffers), Some(vec![(3, "y".to_string())]));
    assert_eq!(fds.iter().map(|p| p.fd).collect::<Vec<i32>>(), vec![4, 6]);
    assert_eq!(buffers.iter().map(|b| (b.fd, b.id)).collect::<Vec<(i32, usize)>>(), vec![
        (4, 1),
        (6, 3)
    ]);
}

#[test]
fn fifo_set_keeps_the_order() {
    let set = FifoSet::new(vec![
        Fifo { path: "a".to_string(), id: 0, default: None },
        Fifo { path: "b".to_string(), id: 1, default: None },
    ]);
    assert_eq!(set.len(), 2);
    let paths: Vec<String> = set.into_fifos().into_iter().map(|f| f.path).collect();
    assert_eq!(paths, vec!["a".to_string(), "b".to_string()]);
}

#[test]
fn existing_pipe_is_opened_and_checked() {
    let step = open_fifo(OpenStep::Open, OpenEvent::Done);
    assert_eq!(step, OpenStep::Check);
    assert_eq!(open_fifo(step, OpenEvent::Done), OpenStep::Ready);
}

#[test]
fn existing_file_that_is_no_pipe_is_rejected() {
    let step = open_fifo(OpenStep::Open, OpenEvent::Done);
    assert_eq!(open_fifo(step, OpenEvent::Failed), OpenStep::Rejected);
}

#[test]
fn missing_pipe_is_created_and_opened() {
    let step = open_fifo(OpenStep::Open, OpenEvent::Failed);
    assert_eq!(step, OpenStep::Create);
    let step = open_fifo(step, OpenEvent::Done);
    assert_eq!(step, OpenStep::Reopen);
    assert_eq!(open_fifo(step, OpenEvent::Done), OpenStep::Ready);
    assert_eq!(open_fifo(step, OpenEvent::Failed), OpenStep::Rejected);
}

#[test]
fn pipe_that_cannot_be_created_is_rejected() {
    assert_eq!(open_fifo(OpenStep::Create, OpenEvent::Failed), OpenStep::Rejected);
}

#[test]
fn opening_that_has_ended_stays_ended() {
    assert_eq!(open_fifo(OpenStep::Ready, OpenEvent::Failed), OpenStep::Ready);
    assert_eq!(open_fifo(OpenStep::Ready, OpenEvent::Done), OpenStep::Ready);
    assert_eq!(open_fifo(OpenStep::Rejected, OpenEvent::Done), OpenStep::Rejected);
    assert_eq!(open_fifo(OpenStep::Rejected, OpenEvent::Failed), OpenStep::Rejected);
}

#[test]
fn pipes_that_opened_are_polled_in_order() {
    let set = FifoSet::new(vec![
        Fifo { path: "/tmp/a".to_string(), id: 4, default: Some("--".to_string()) },
        Fifo { path: "/tmp/b".to_string(), id: 5, default: Some("lost".to_string()) },
        Fifo { path: "/tmp/c".to_string(), id: 6, default: None },
        Fifo { path: "/tmp/d".to_string(), id: 7, default: Some("..".to_string()) },
    ]);
    let polled = set.run(&vec![Some(10), None, Some(12), Some(13)]);
    assert_eq!(polled.fds.iter().map(|p| p.fd).collect::<Vec<i32>>(), vec![10, 12, 13]);
    assert!(polled.fds.iter().all(|p| p.revents == 0 && p.events != 0));
    assert_eq!(
        polled.buffers.iter().map(|b| (b.fd, b.id)).collect::<Vec<(i32, usize)>>(),
        vec![(10, 4), (12, 6), (13, 7)]
    );
    assert!(polled.buffers.iter().all(|b| b.pending.is_empty()));
    assert_eq!(polled.defaults, vec![vec![(4, "--".to_string())], vec![(7, "..".to_string())]]);
    assert_eq!(set.get(1).path, "/tmp/b");
}

#[test]
fn polling_without_the_unopened_pipe_is_the_same() {
    let with = FifoSet::new(vec![
        Fifo { path: "/tmp/a".to_string(), id: 0, default: Some("a".to_string()) },
        Fifo { path: "/tmp/b".to_string(), id: 1, default: Some("b".to_string()) },
        Fifo { path: "/tmp/c".to_string(), id: 2, default: Some("c".to_string()) },
    ])
    .run(&vec![Some(3), None, Some(5)]);
    let without = FifoSet::new(vec![
        Fifo { path: "/tmp/a".to_string(), id: 0, default: Some("a".to_string()) },
        Fifo { path: "/tmp/c".to_string(), id: 2, default: Some("c".to_string()) },
    ])
    .run(&vec![Some(3), Some(5)]);
    assert_eq!(with.defaults, without.defaults);
    assert_eq!(
        with.buffers.iter().map(|b| (b.fd, b.id)).collect::<Vec<(i32, usize)>>(),
        without.buffers.iter().map(|b| (b.fd, b.id)).collect::<Vec<(i32, usize)>>()
    );
}

#[test]
fn pipes_without_an_outcome_count_as_unopened() {
    let set = FifoSet::new(vec![
        Fifo { path: "/tmp/a".to_string(), id: 0, default: Some("a".to_string()) },
        Fifo { path: "/tmp/b".to_string(), id: 1, default: Some("b".to_string()) },
    ]);
    let polled = set.run(&vec![Some(3)]);
    assert_eq!(polled.fds.len(), 1);
    assert_eq!(polled.defaults, vec![vec![(0, "a".to_string())]]);
    let none = set.run(&Vec::new());
    assert!(none.fds.is_empty() && none.buffers.is_empty() && none.defaults.is_empty());
}
