use quizdown::{process_questions_str, Config, Error};

#[test]
fn test_simple_q() {
    let simple_q = r#"
## Who let the dogs out?

- [ ] I did it.
- [x] Who, who, who?
        "#;
    let qs = process_questions_str(simple_q, None).unwrap();
    assert_eq!(1, qs.len());
}

#[test]
fn test_broken_q() {
    let broken_q = r#"
## Who let the dogs out?

- I did it.
- Who, who, who?
        "#;
    let qs = process_questions_str(broken_q, None).unwrap_err();
    match qs {
        Error::NoOptionsFound => {}
        other => panic!("Expected NoOptionsFound error, got {:?}", other),
    }
}

#[test]
fn test_dogs_exact() {
    let src = "## Who let the dogs out?\n\n- [ ] I did it.\n- [x] Who, who, who?\n";
    let qs = process_questions_str(src, None).unwrap();
    assert_eq!(1, qs.len());
    let q = &qs[0];
    assert_eq!(q.prompt, "<h2>Who let the dogs out?</h2>");
    assert!(!q.ordered);
    assert_eq!(2, q.options.len());
    assert!(!q.options[0].correct);
    assert_eq!(q.options[0].content, "I did it.");
    assert!(q.options[1].correct);
    assert_eq!(q.options[1].content, "Who, who, who?");
}

#[test]
fn test_numbered_list_is_ordered() {
    let src = "## Who let the dogs out?\n\n1. [ ] I did it.\n2. [x] Who, who, who?\n";
    let qs = process_questions_str(src, None).unwrap();
    assert_eq!(1, qs.len());
    assert!(qs[0].ordered);
}

#[test]
fn test_two_chunks_in_order() {
    let src = "## First?\n\n- [x] a\n- [ ] b\n\n## Second?\n\n- [ ] c\n- [x] d\n";
    let qs = process_questions_str(src, None).unwrap();
    assert_eq!(2, qs.len());
    assert_eq!(qs[0].prompt, "<h2>First?</h2>");
    assert_eq!(qs[1].prompt, "<h2>Second?</h2>");
}

#[test]
fn test_headless_chunk() {
    let src = "Pick one.\n\n- [x] yes\n- [ ] no\n";
    let qs = process_questions_str(src, None).unwrap();
    assert_eq!(1, qs.len());
    assert!(qs[0].prompt.starts_with("<b><i>"));
}

#[test]
fn test_no_list_at_all() {
    let src = "## A question?\n\nJust a paragraph, no options.\n";
    match process_questions_str(src, None) {
        Err(Error::NoOptionsFound) => {}
        other => panic!("expected NoOptionsFound, got {:?}", other),
    }
}

#[test]
fn test_two_task_lists() {
    let src = "## Q?\n\n- [x] a\n\nbetween the lists\n\n- [x] b\n";
    match process_questions_str(src, None) {
        Err(Error::TooManyTaskLists) => {}
        other => panic!("expected TooManyTaskLists, got {:?}", other),
    }
}

#[test]
fn test_nested_task_list() {
    let src = "## Q?\n\n- outer\n    - [x] deep\n";
    match process_questions_str(src, None) {
        Err(Error::NestedTaskList) => {}
        other => panic!("expected NestedTaskList, got {:?}", other),
    }
}

#[test]
fn test_content_after_options() {
    let src = "## Q?\n\n- [x] a\n- [ ] b\n\nTrailing words.\n";
    match process_questions_str(src, None) {
        Err(Error::ContentIgnored) => {}
        other => panic!("expected ContentIgnored, got {:?}", other),
    }
}

#[test]
fn test_mixed_list_is_internal() {
    let src = "## Q?\n\n- [x] a\n- plain item\n";
    match process_questions_str(src, None) {
        Err(Error::Internal) => {}
        other => panic!("expected Internal, got {:?}", other),
    }
}

#[test]
fn test_missing_theme() {
    let mut config = Config::default();
    config.syntax.theme = "NoSuchThemeAnywhere".to_string();
    let src = "## Q?\n\n- [x] a\n";
    match process_questions_str(src, Some(config)) {
        Err(Error::MissingSyntaxTheme(t)) => assert_eq!(t, "NoSuchThemeAnywhere"),
        other => panic!("expected MissingSyntaxTheme, got {:?}", other),
    }
}
