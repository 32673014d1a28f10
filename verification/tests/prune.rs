use orgtools::config::Config;
use orgtools::prune::{modify_content, prune_done_from_input, walk_tree};

fn test_config() -> Config {
    Config {
        keywords_unfinished: vec![b"TODO".to_vec()],
        keywords_finished: vec![b"DONE".to_vec(), b"CANCELLED".to_vec()],
    }
}

fn prune(input: &str) -> String {
    let config = test_config();
    let out = prune_done_from_input(&config, input.as_bytes()).unwrap();
    String::from_utf8(out).unwrap()
}

#[test]
fn prune_done_test_prune_done() {
    let input = "* TODO Task 1\n** DONE Subtask 1\n** Subtask 2\n* CANCELLED Task 2\n* Task 3";
    let expected_output = "* TODO Task 1\n** Subtask 2\n* Task 3";
    assert_eq!(prune(input), expected_output);
}

#[test]
fn prune_done_test_prune_done_sub_tasks() {
    let input = "* TODO Task 1\n** DONE Subtask 1\n*** Subtask 2\n* CANCELLED Task 2\n* Task 3";
    let expected_output = "* TODO Task 1\n* Task 3";
    assert_eq!(prune(input), expected_output);
}

#[test]
fn prune_done_test_prune_done_with_properties() {
    let input = "
* TODO Task 1
:PROPERTIES:
:CREATED: 2021-01-01
:END:

** DONE Subtask 1
:PROPERTIES:
:CREATED: 2021-01-01
:END:

* Task 2
";
    let expected_output = "
* TODO Task 1
:PROPERTIES:
:CREATED: 2021-01-01
:END:

* Task 2
";
    assert_eq!(prune(input), expected_output);
}

#[test]
fn prune_done_test_prune_done_with_preamble() {
    let input = "
#+TITLE: My org file

* TODO Task 1
* DONE Task 2
* Task 3
";
    let expected_output = "
#+TITLE: My org file

* TODO Task 1
* Task 3
";
    assert_eq!(prune(input), expected_output);
}

#[test]
fn test_modify_content() {
    let config = test_config();
    let input = "* TODO Task 1\n** DONE Subtask 1\n** Subtask 2\n* CANCELLED Task 2\n* Task 3";
    let expected_output = "* TODO Task 1\n** Subtask 2\n* Task 3";
    let result = modify_content(&config, input.as_bytes()).unwrap();
    assert_eq!(String::from_utf8(result).unwrap(), expected_output);
}

#[test]
fn test_remove_subtasks() {
    let config = test_config();
    let input = "* TODO Task 1\n** DONE Subtask 1\n*** Subtask 2\n* CANCELLED Task 2\n* Task 3";
    let expected_output = "* TODO Task 1\n* Task 3";
    let result = modify_content(&config, input.as_bytes()).unwrap();
    assert_eq!(String::from_utf8(result).unwrap(), expected_output);
}

#[test]
fn test_walk_tree_1() {
    let config = test_config();
    let input = "* TODO Task 1\n** DONE Subtask 1\n** Subtask 2\n* CANCELLED Task 2\n* Task 3";
    let expected_output = "* TODO Task 1\n** Subtask 2\n* Task 3";
    let result = walk_tree(&config, input.as_bytes()).unwrap();
    assert_eq!(String::from_utf8(result).unwrap(), expected_output);
}

#[test]
fn test_walk_tree_2() {
    let config = test_config();
    let input = "* TODO Task 1\n** DONE Subtask 1\n*** Subtask 2\n* CANCELLED Task 2\n* Task 3";
    let expected_output = "* TODO Task 1\n* Task 3";
    let result = walk_tree(&config, input.as_bytes()).unwrap();
    assert_eq!(String::from_utf8(result).unwrap(), expected_output);
}

#[test]
fn test_prune_is_identity_without_finished_sections() {
    let input = "* TODO Task 1\n** Subtask 1\n* Task 2\nsome body text\n* TODO Task 3\n";
    assert_eq!(prune(input), input);
}

#[test]
fn test_prune_empty_input() {
    assert_eq!(prune(""), "");
}

#[test]
fn test_prune_with_empty_keyword_lists() {
    // Without a vocabulary every section classifies as having no
    // keyword, so nothing is removed.
    let config = Config { keywords_unfinished: vec![], keywords_finished: vec![] };
    let input = "* DONE Task 1\n* TODO Task 2\n";
    let result = prune_done_from_input(&config, input.as_bytes()).unwrap();
    assert_eq!(String::from_utf8(result).unwrap(), input);
}

#[test]
fn test_prune_keyword_is_a_literal_prefix() {
    // The keyword test is a literal prefix match: a headline starting
    // with DONEX still matches the keyword DONE.
    let input = "* DONEX Task 1\n* Task 2\n";
    let expected_output = "* Task 2\n";
    assert_eq!(prune(input), expected_output);
}

#[test]
fn test_prune_finished_before_unfinished() {
    // A keyword configured in both lists resolves to finished.
    let config = Config {
        keywords_unfinished: vec![b"DONE".to_vec()],
        keywords_finished: vec![b"DONE".to_vec()],
    };
    let input = "* DONE Task 1\n* Task 2\n";
    let result = prune_done_from_input(&config, input.as_bytes()).unwrap();
    assert_eq!(String::from_utf8(result).unwrap(), "* Task 2\n");
}
