use orgtools::builder::SectionBuilder;
use orgtools::config::Config;
use orgtools::insert::{add_headline, add_headline_to_input};
use orgtools::org::{Org, OrgError, Position};

fn test_config() -> Config {
    Config {
        keywords_unfinished: vec![b"TODO".to_vec()],
        keywords_finished: vec![b"DONE".to_vec(), b"CANCELLED".to_vec()],
    }
}

const STAMP: &str = "2021-08-15 Sun 14:00";

fn rendered(depth: usize, headline: &str) -> String {
    format!(
        "{} {}\n:PROPERTIES:\n:CREATED: [{}]\n:END:\n",
        "*".repeat(depth),
        headline,
        STAMP
    )
}

fn insert(input: &str, search: &str, headline: &str, position: Position) -> String {
    let config = test_config();
    let out = add_headline_to_input(
        &config,
        input.as_bytes(),
        headline.as_bytes(),
        position,
        search.as_bytes(),
        STAMP.as_bytes(),
    )
    .unwrap();
    String::from_utf8(out).unwrap()
}

#[test]
fn add_headline_test_add_headline_after() {
    let input = "* TODO Task 1\n** DONE Subtask 1\n** Subtask 2\n* CANCELLED Task 2\n* Task 3";
    let expected_headline = rendered(1, "New Task");
    let expected_output = format!(
        "* TODO Task 1\n** DONE Subtask 1\n** Subtask 2\n{expected_headline}* CANCELLED Task 2\n* Task 3"
    );
    assert_eq!(insert(input, "Task 1", "New Task", Position::After), expected_output);
}

#[test]
fn add_headline_test_add_headline_under() {
    // A section inserted under a target becomes its first child: one
    // level deeper, right after the target's own headline line and
    // before any pre-existing children.
    let input = "* TODO Task 1\n** DONE Subtask 1\n** Subtask 2\n* CANCELLED Task 2\n* Task 3";
    let expected_headline = rendered(2, "New Task");
    let expected_output = format!(
        "* TODO Task 1\n{expected_headline}** DONE Subtask 1\n** Subtask 2\n* CANCELLED Task 2\n* Task 3"
    );
    assert_eq!(insert(input, "Task 1", "New Task", Position::Under), expected_output);
}

#[test]
fn test_add_headline_search_failure_leaves_no_output() {
    let config = test_config();
    let input = "* TODO Task 1\n** DONE Subtask 1\n** Subtask 2\n* CANCELLED Task 2\n* Task 3";
    let result = add_headline_to_input(
        &config,
        input.as_bytes(),
        b"New Task",
        Position::After,
        b"Nonexistent",
        STAMP.as_bytes(),
    );
    assert!(matches!(result, Err(OrgError::SectionNotFound)));
}

#[test]
fn test_add_headline_with_wall_clock() {
    let config = test_config();
    let input = "* TODO Task 1\n* Task 2";
    let out =
        add_headline(&config, input.as_bytes(), b"New Task", Position::After, b"Task 1").unwrap();
    let out = String::from_utf8(out).unwrap();
    assert!(out.starts_with("* TODO Task 1\n* New Task\n:PROPERTIES:\n:CREATED: ["));
    assert!(out.ends_with(":END:\n* Task 2"));
}

#[test]
fn test_render_section() {
    let config = test_config();
    let text = SectionBuilder::new(&config)
        .stars(2)
        .headline(b"A headline")
        .created(STAMP.as_bytes())
        .render();
    assert_eq!(String::from_utf8(text).unwrap(), rendered(2, "A headline"));
}

#[test]
fn test_render_with_recognized_keyword_and_body() {
    let config = test_config();
    let text = SectionBuilder::new(&config)
        .stars(1)
        .keyword(b"todo")
        .headline(b"Task")
        .body(b"the body\n")
        .created(STAMP.as_bytes())
        .render();
    let expected = format!("* TODO Task\n:PROPERTIES:\n:CREATED: [{STAMP}]\n:END:\nthe body\n");
    assert_eq!(String::from_utf8(text).unwrap(), expected);
}

#[test]
fn test_render_drops_unknown_keyword() {
    let config = test_config();
    let text = SectionBuilder::new(&config)
        .stars(1)
        .keyword(b"WONTFIX")
        .headline(b"Task")
        .created(STAMP.as_bytes())
        .render();
    assert_eq!(String::from_utf8(text).unwrap(), rendered(1, "Task"));
}

#[test]
fn test_render_round_trips_through_the_parser() {
    // Rendering with no keyword and no body, then parsing the result as
    // a document, yields one section with the same clean headline text
    // and the same depth.
    let config = test_config();
    let text = SectionBuilder::new(&config)
        .stars(3)
        .headline(b"Round trip")
        .created(STAMP.as_bytes())
        .render();
    let org = Org::from_config(test_config());
    let file = org.load(&text).unwrap();
    assert_eq!(file.subsections().len(), 1);
    let section = &file.subsections()[0];
    assert_eq!(section.stars(), 3);
    let clean = section.headline_text(&file.config, &file.input).unwrap();
    assert_eq!(String::from_utf8(clean).unwrap(), "Round trip");
}

#[test]
fn test_output_builder_splicing() {
    let org = Org::from_config(test_config());
    let file = org.load(b"* One\n* Two\n* Three\n").unwrap();
    let mut builder = file.output_builder();
    let second = &file.subsections()[1];
    builder.append_up_to_section(second);
    builder.insert_text(b"inserted\n");
    builder.skip_to(second.end_byte());
    let out = builder.append_to_end_of_input();
    assert_eq!(String::from_utf8(out).unwrap(), "* One\ninserted\n* Three\n");
}
