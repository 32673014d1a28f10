use orgtools::config::{parse_keyword, Config};
use orgtools::org::{list_headlines, Keyword, Org};

#[test]
fn org_test_iterate_flat_sections() {
    let input = "* Hedline 1\n* Hedline 2";
    let org = Org::new();
    let file = org.load(input.as_bytes()).unwrap();
    let headlines: Vec<String> = file
        .subsections()
        .iter()
        .filter_map(|section| section.headline_text_full(&file.input))
        .map(|text| String::from_utf8(text.to_vec()).unwrap())
        .collect();
    assert_eq!(headlines, vec![String::from("Hedline 1"), String::from("Hedline 2")]);
}

#[test]
fn org_test_iterate_nested_sections() {
    let input = "* Hedline 1\n** Hedline 1.1";
    let org = Org::new();
    let file = org.load(input.as_bytes()).unwrap();
    let headlines: Vec<String> = file
        .subsections()
        .iter()
        .filter_map(|section| section.headline_text_full(&file.input))
        .map(|text| String::from_utf8(text.to_vec()).unwrap())
        .collect();
    assert_eq!(headlines, vec![String::from("Hedline 1")]);
}

#[test]
fn org_test_get_section_headline_keyword() {
    let input = "* DONE Headline 1\n* TODO Headline 2\n* Headline 3\n* \n";
    let org = Org::new()
        .keywords_finished(vec![b"DONE".to_vec()])
        .keywords_unfinished(vec![b"TODO".to_vec()]);
    let file = org.load(input.as_bytes()).unwrap();
    let keywords: Vec<Keyword> = file
        .subsections()
        .iter()
        .map(|section| section.keyword(&file.config, &file.input))
        .collect();
    assert_eq!(
        keywords,
        vec![
            Keyword::Finished(b"DONE".to_vec()),
            Keyword::Unfinished(b"TODO".to_vec()),
            Keyword::Missing,
            Keyword::Missing,
        ],
    );
}

#[test]
fn org_test_get_section_stars() {
    let input = "* Headline 1\n** Headline 1.1\n* Headline 2\n";
    let org = Org::new();
    let file = org.load(input.as_bytes()).unwrap();
    let sections = file.subsections();
    assert_eq!(sections[0].stars(), 1);
    let subsections = sections[0].subsections();
    assert_eq!(subsections[0].stars(), 2);
}

#[test]
fn org_test_find_section() {
    let input = "* Headline 1\n** Headline 1.1\n* Headline 2\n";
    let org = Org::new();
    let file = org.load(input.as_bytes()).unwrap();
    let section = file.find_section(b"Headline 1").unwrap();
    assert_eq!(section.headline_text_full(&file.input).unwrap(), b"Headline 1".as_slice());
}

#[test]
fn test_find_section_missing() {
    let input = "* Headline 1\n** Headline 1.1\n* Headline 2\n";
    let org = Org::new();
    let file = org.load(input.as_bytes()).unwrap();
    assert!(file.find_section(b"Nonexistent").is_none());
}

#[test]
fn test_find_section_is_depth_first_pre_order() {
    // The nested match comes before the later top-level one.
    let input = "* Outer\n** Twin\nnested body\n* Twin\ntop body\n";
    let org = Org::new();
    let file = org.load(input.as_bytes()).unwrap();
    let section = file.find_section(b"Twin").unwrap();
    assert_eq!(section.stars(), 2);
}

#[test]
fn test_headline_text_strips_keyword_and_whitespace() {
    let input = "* TODO   Task with spaces   \n";
    let org = Org::new();
    let file = org.load(input.as_bytes()).unwrap();
    let section = &file.subsections()[0];
    let clean = section.headline_text(&file.config, &file.input).unwrap();
    assert_eq!(String::from_utf8(clean).unwrap(), "Task with spaces");
}

#[test]
fn test_section_spans_nest() {
    let input = "* Headline 1\n** Headline 1.1\n* Headline 2\n";
    let org = Org::new();
    let file = org.load(input.as_bytes()).unwrap();
    let first = &file.subsections()[0];
    let child = &first.subsections()[0];
    assert!(first.start_byte() <= child.start_byte());
    assert!(child.end_byte() <= first.end_byte());
    let second = &file.subsections()[1];
    assert!(first.end_byte() <= second.start_byte());
}

#[test]
fn test_body_text() {
    let input = "* Headline 1\nbody line\n* Headline 2\n";
    let org = Org::new();
    let file = org.load(input.as_bytes()).unwrap();
    let first = &file.subsections()[0];
    let body = first.body_text(&file.input).unwrap();
    assert_eq!(body, b"body line\n".as_slice());
}

#[test]
fn test_default_config_keywords() {
    let config = Config::default();
    assert_eq!(
        config.keywords_unfinished,
        vec![b"TODO".to_vec(), b"DOING".to_vec(), b"BLOCKED".to_vec()]
    );
    assert_eq!(config.keywords_finished, vec![b"DONE".to_vec(), b"ABANDONED".to_vec()]);
}

#[test]
fn test_parse_keyword_normalizes() {
    assert_eq!(parse_keyword(b"  done \n"), b"DONE".to_vec());
    assert_eq!(parse_keyword(b"ToDo"), b"TODO".to_vec());
    assert_eq!(parse_keyword(b"   "), b"".to_vec());
}

#[test]
fn test_list_headlines_unfinished_only() {
    let input = "* TODO Task 1\n** DONE Subtask 1\n** TODO Subtask 2\n* Task 3\n* TODO Task 4\n";
    let config = Config {
        keywords_unfinished: vec![b"TODO".to_vec()],
        keywords_finished: vec![b"DONE".to_vec()],
    };
    let items = list_headlines(&config, input.as_bytes()).unwrap();
    let items: Vec<String> =
        items.into_iter().map(|b| String::from_utf8(b).unwrap()).collect();
    assert_eq!(items, vec!["TODO Task 1", "TODO Subtask 2", "TODO Task 4"]);
}

#[test]
fn test_trim_removes_unicode_whitespace() {
    // str::trim's whitespace set: a headline padded with no-break
    // spaces still matches an exact search for its clean text.
    let input = "* TODO Task\u{a0}\n* Other\n";
    let org = Org::new();
    let file = org.load(input.as_bytes()).unwrap();
    let section = file.find_section(b"Task").unwrap();
    assert_eq!(section.stars(), 1);
    let clean = section.headline_text(&file.config, &file.input).unwrap();
    assert_eq!(String::from_utf8(clean).unwrap(), "Task");
}

#[test]
fn test_parse_keyword_trims_unicode_whitespace() {
    assert_eq!(parse_keyword("\u{a0}done\u{2002}".as_bytes()), b"DONE".to_vec());
    assert_eq!(parse_keyword("\u{3000}\u{1680}".as_bytes()), b"".to_vec());
}

#[test]
fn test_keyword_equality_distinguishes_variants() {
    assert_ne!(Keyword::Finished(b"DONE".to_vec()), Keyword::Unfinished(b"DONE".to_vec()));
    assert_ne!(Keyword::Finished(b"DONE".to_vec()), Keyword::Finished(b"TODO".to_vec()));
    assert_eq!(Keyword::Missing, Keyword::Missing);
}

#[test]
fn test_error_messages() {
    assert_eq!(
        orgtools::org::OrgError::ParseFailure.message(),
        "could not parse the input as an org document"
    );
    assert_eq!(
        orgtools::org::OrgError::SectionNotFound.message(),
        "could not find a section with that headline"
    );
}
