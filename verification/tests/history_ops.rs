use repl_block::cmd::Cmd;
use repl_block::history::{indices_of, HistIdx, History, UPPER_LIMIT};
use repl_block::line::{Line, LineKind};

fn one_line(text: &str) -> Cmd {
    Cmd::from_lines(vec![Line::from_parts(text.to_string(), LineKind::Start)])
}

fn history_of(texts: &[&str]) -> History {
    History::from_cmds(texts.iter().map(|text| one_line(text)).collect())
}

fn sources(history: &History) -> Vec<String> {
    history.iter().into_iter().map(|(_, cmd)| cmd.to_source_code()).collect()
}

#[test]
fn add_cmd_returns_the_new_index() {
    let mut history = History::default();
    assert_eq!(history.len(), 0);
    assert_eq!(history.max_idx(), None);
    assert_eq!(history.add_cmd(one_line("a")), HistIdx(0));
    assert_eq!(history.add_cmd(one_line("b")), HistIdx(1));
    assert_eq!(history.len(), 2);
    assert_eq!(history.max_idx(), Some(HistIdx(1)));
    assert_eq!(history.get(HistIdx(0)), &one_line("a"));
    assert_eq!(HistIdx::from(7), HistIdx(7));
    assert_eq!(HistIdx::default(), HistIdx(0));
}

#[test]
fn from_cmds_keeps_the_order() {
    let history = history_of(&["x", "y", "z"]);
    assert_eq!(sources(&history), vec!["x", "y", "z"]);
    let items = history.iter();
    assert_eq!(items[2].0, HistIdx(2));
    assert_eq!(sources(&history.clone()), vec!["x", "y", "z"]);
}

#[test]
fn trimmed_keeps_the_most_recent_occurrence() {
    let history = history_of(&["a", "b", "c", "a"]);
    assert_eq!(sources(&history.trimmed()), vec!["b", "c", "a"]);
    let history = history_of(&["x", "a", "b", "a", "y", "b"]);
    assert_eq!(sources(&history.trimmed()), vec!["x", "a", "y", "b"]);
    assert_eq!(sources(&History::default().trimmed()), Vec::<String>::new());
}

#[test]
fn trimmed_tells_kinds_apart() {
    let start = one_line("a");
    let overflow = Cmd::from_lines(vec![Line::from_parts("a".to_string(), LineKind::Overflow)]);
    let history = History::from_cmds(vec![start.clone(), overflow, start]);
    assert_eq!(history.trimmed().len(), 2);
}

#[test]
fn trimmed_caps_at_the_upper_limit() {
    assert_eq!(UPPER_LIMIT, 1000);
    let texts: Vec<String> = (0..UPPER_LIMIT + 5).map(|i| format!("cmd {i}")).collect();
    let mut history = History::default();
    for text in &texts {
        history.add_cmd(one_line(text));
    }
    let trimmed = history.trimmed();
    assert_eq!(trimmed.len(), UPPER_LIMIT);
    assert_eq!(sources(&trimmed), texts[5..].to_vec());
}

#[test]
fn trimmed_counts_distinct_commands_for_the_cap() {
    let mut history = History::default();
    for i in 0..UPPER_LIMIT {
        history.add_cmd(one_line(&format!("cmd {i}")));
        history.add_cmd(one_line("again"));
    }
    let trimmed = history.trimmed();
    assert_eq!(trimmed.len(), UPPER_LIMIT);
    let kept = sources(&trimmed);
    assert_eq!(kept[0], "cmd 1");
    assert_eq!(kept[UPPER_LIMIT - 2], format!("cmd {}", UPPER_LIMIT - 1));
    assert_eq!(kept[UPPER_LIMIT - 1], "again");
}

#[test]
fn reverse_search_lists_matches_newest_first() {
    let history = history_of(&["print 1", "print 2", "draw 3"]);
    assert_eq!(history.reverse_search("pri"), vec![HistIdx(1), HistIdx(0)]);
    assert_eq!(history.reverse_search("^d.*3$"), vec![HistIdx(2)]);
    assert_eq!(history.reverse_search(""), vec![HistIdx(2), HistIdx(1), HistIdx(0)]);
    assert_eq!(history.reverse_search("nothing"), vec![]);
}

#[test]
fn reverse_search_with_a_bad_pattern_finds_nothing() {
    let history = history_of(&["foo(bar", "x"]);
    assert_eq!(history.reverse_search("foo(bar"), vec![]);
    assert_eq!(history.reverse_search(r"foo\(bar"), vec![HistIdx(0)]);
}

#[test]
fn reverse_search_matches_the_source_text() {
    let two_lines = Cmd::from_lines(vec![
        Line::from_parts("let x".to_string(), LineKind::Start),
        Line::from_parts("".to_string(), LineKind::Start),
        Line::from_parts("= 1".to_string(), LineKind::Start),
    ]);
    let history = History::from_cmds(vec![two_lines]);
    assert_eq!(history.reverse_search("x\n="), vec![HistIdx(0)]);
}

#[test]
fn search_with_a_compiled_regex() {
    let history = history_of(&["alpha", "beta", "gamma"]);
    let regex = regex::Regex::new("a$").unwrap();
    assert_eq!(history.search_with(&regex), vec![HistIdx(2), HistIdx(1), HistIdx(0)]);
    let regex = regex::Regex::new("^b").unwrap();
    assert_eq!(history.search_with(&regex), vec![HistIdx(1)]);
}

#[test]
fn indices_of_flags_come_highest_first() {
    assert_eq!(indices_of(&vec![true, false, true, true]), vec![HistIdx(3), HistIdx(2), HistIdx(0)]);
    assert_eq!(indices_of(&vec![false, false]), vec![]);
    assert_eq!(indices_of(&vec![]), vec![]);
}

#[test]
fn listing_of_a_history() {
    let two = Cmd::from_lines(vec![
        Line::from_parts("a".to_string(), LineKind::Start),
        Line::from_parts("b".to_string(), LineKind::Start),
    ]);
    let history = History::from_cmds(vec![one_line("x"), two]);
    assert_eq!(history.listing(), "History:\n  x\n  a\n  b\n");
    assert_eq!(History::default().listing(), "History:\n");
}

#[test]
fn search_compiled_for_each_outcome_of_compiling() {
    let history = history_of(&["print 1", "print 2", "draw 3"]);
    assert_eq!(
        history.search_compiled(regex::Regex::new("pri")),
        vec![HistIdx(1), HistIdx(0)]
    );
    assert_eq!(history.search_compiled(regex::Regex::new("^draw")), vec![HistIdx(2)]);
    assert_eq!(history.search_compiled(regex::Regex::new("foo(bar")), vec![]);
    assert_eq!(History::default().search_compiled(regex::Regex::new("")), vec![]);
}

#[test]
fn search_with_goes_by_the_compiled_regex_and_not_by_its_text() {
    let history = history_of(&["print 1", "Print 2", "draw 3"]);
    let plain = regex::Regex::new("PRINT").unwrap();
    let relaxed = regex::RegexBuilder::new("PRINT").case_insensitive(true).build().unwrap();
    assert_eq!(plain.as_str(), relaxed.as_str());
    assert_eq!(history.search_with(&plain), vec![]);
    assert_eq!(history.search_with(&relaxed), vec![HistIdx(1), HistIdx(0)]);
    assert_eq!(history.search_compiled(Ok(relaxed)), vec![HistIdx(1), HistIdx(0)]);
    assert_eq!(history.reverse_search("PRINT"), vec![]);
}
