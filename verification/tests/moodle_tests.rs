use quizdown::moodlexml::to_moodle_xml;
use quizdown::{process_questions_str, Error, OutputFormat, QOption, Question};

#[test]
fn encodes_correctly() {
    let mut expected = String::new();
    expected.push_str("<?xml version=\"1.0\" encoding=\"UTF-8\" standalone=\"no\"?>");
    expected.push_str(
        "<quiz><question type=\"category\"><category><text>cs101/ex</text></category></question>",
    );
    expected.push_str("<question type=\"multichoice\"><name><text>cs101/ex/0</text></name><questiontext format=\"html\"><text>&lt;h2>Do you want to build a snowman?&lt;/h2></text></questiontext>");
    expected.push_str("<defaultgrade>1.0</defaultgrade>");
    expected.push_str("<answer fraction=\"-100\" format=\"html\"><text>No</text><feedback><text>Sorry, that\'s not correct!</text></feedback></answer>");
    expected.push_str("<answer fraction=\"100.00000\" format=\"html\"><text>Yes</text><feedback><text>Correct!</text></feedback></answer>");
    expected.push_str("<shuffleanswers>1</shuffleanswers><single>false</single><answernumbering>abc</answernumbering></question></quiz>");
    let question_bank = "cs101/ex";

    let q_src = r#"
## Do you want to build a snowman?

- [ ] No
- [x] Yes
        "#;
    let qs = process_questions_str(q_src, None).unwrap();
    let qxml = to_moodle_xml(&qs, question_bank).unwrap();
    println!("{}", qxml);
    assert_eq!(qxml, expected);
}

fn question_with_flags(flags: &[bool]) -> Question {
    let options = flags
        .iter()
        .enumerate()
        .map(|(i, c)| QOption {
            correct: *c,
            content: format!("option {}", i),
        })
        .collect();
    Question {
        prompt: "A question".to_string(),
        options,
        ordered: false,
    }
}

#[test]
fn test_split_weights() {
    let q = question_with_flags(&[true, false, true]);
    let xml = to_moodle_xml(&[q], "bank").unwrap();
    assert_eq!(2, xml.matches("fraction=\"50.00000\"").count());
    assert_eq!(1, xml.matches("fraction=\"-100\"").count());
}

#[test]
fn test_third_weights() {
    let q = question_with_flags(&[true, true, true]);
    let xml = to_moodle_xml(&[q], "bank").unwrap();
    assert_eq!(3, xml.matches("fraction=\"33.33333\"").count());
}

#[test]
fn test_sixth_weights_round_up() {
    let q = question_with_flags(&[true, true, true, true, true, true]);
    let xml = to_moodle_xml(&[q], "bank").unwrap();
    assert_eq!(6, xml.matches("fraction=\"16.66667\"").count());
}

#[test]
fn test_no_options_refused() {
    let q = question_with_flags(&[]);
    match to_moodle_xml(&[q], "bank") {
        Err(Error::NoOptionsFound) => {}
        other => panic!("expected NoOptionsFound, got {:?}", other),
    }
}

#[test]
fn test_no_correct_refused() {
    let src = "## Q?\n\n- [ ] a\n- [ ] b\n";
    let qs = process_questions_str(src, None).unwrap();
    match to_moodle_xml(&qs, "bank") {
        Err(Error::MoodleNoCorrectAnswer) => {}
        other => panic!("expected MoodleNoCorrectAnswer, got {:?}", other),
    }
}

#[test]
fn test_ordered_list_disables_shuffle() {
    let src = "## Q?\n\n1. [ ] a\n2. [x] b\n";
    let qs = process_questions_str(src, None).unwrap();
    let xml = to_moodle_xml(&qs, "bank").unwrap();
    assert!(xml.contains("<shuffleanswers>0</shuffleanswers>"));
    let src2 = "## Q?\n\n- [ ] a\n- [x] b\n";
    let qs2 = process_questions_str(src2, None).unwrap();
    let xml2 = to_moodle_xml(&qs2, "bank").unwrap();
    assert!(xml2.contains("<shuffleanswers>1</shuffleanswers>"));
}

#[test]
fn test_render_is_idempotent() {
    let src = "## Q?\n\n- [ ] a\n- [x] b\n\n## R?\n\n1. [x] c\n2. [ ] d\n";
    let qs = process_questions_str(src, None).unwrap();
    for format in [
        OutputFormat::HtmlFull,
        OutputFormat::HtmlSnippet,
        OutputFormat::MoodleXml,
    ] {
        let first = format.render("same/name", &qs).unwrap();
        let second = format.render("same/name", &qs).unwrap();
        assert_eq!(first, second);
    }
}

#[test]
fn test_question_index_in_names() {
    let src = "## A?\n\n- [x] a\n\n## B?\n\n- [x] b\n";
    let qs = process_questions_str(src, None).unwrap();
    let xml = to_moodle_xml(&qs, "course/quiz").unwrap();
    assert!(xml.contains("<name><text>course/quiz/0</text></name>"));
    assert!(xml.contains("<name><text>course/quiz/1</text></name>"));
}
