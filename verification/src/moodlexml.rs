//! The Moodle XML renderer.
//!
//! One `<quiz>` document holds a leading category question named after the
//! target name, then one `multichoice` question per parsed question, in
//! document order.  Every correct answer carries the weight `100 / (number
//! of correct answers)`, written with exactly five decimal places; every
//! incorrect answer carries the fixed weight `-100`.  The element names and
//! their nesting are a compatibility contract with Moodle's importer.
//!
//! The XML is written through xmlwriter, whose buffer is modeled here as a
//! ghost string together with the stack of open elements: every wrapper
//! states exactly which characters its call appends, and the renderer's
//! contract pins the whole document, character by character.

use vstd::prelude::*;

use crate::text::{dec_str, esc_attr, esc_text, pad5, push_char, push_str, u64_to_dec, u64_to_pad5};
use crate::{Error, QOption, Question};

verus! {

#[verifier::external_type_specification]
#[verifier::external_body]
pub struct ExXmlWriter(xmlwriter::XmlWriter);

/// The piece a `start_element` call appends: `<` and the element name.
pub open spec fn st(n: Seq<char>) -> Seq<char> {
    seq!['<'] + n
}

/// The piece that closes an element with children: `</`, the name, `>`.
pub open spec fn en(n: Seq<char>) -> Seq<char> {
    seq!['<', '/'] + n + seq!['>']
}

/// The `>` that closes a start tag once its attributes are done.
pub open spec fn gt() -> Seq<char> {
    seq!['>']
}

/// The piece a `write_attribute` call appends: a space, the name, `="`, the
/// escaped value, `"`.
pub open spec fn attr_str(n: Seq<char>, v: Seq<char>) -> Seq<char> {
    seq![' '] + n + seq!['=', '"'] + esc_attr(v) + seq!['"']
}

/// The XML declaration.
pub open spec fn decl_str() -> Seq<char> {
    "<?xml version=\"1.0\" encoding=\"UTF-8\" standalone=\"no\"?>"@
}

/// The `>` that a call appends when it finds a start tag still open.
pub open spec fn close_mark(tag_open: bool) -> Seq<char> {
    if tag_open {
        gt()
    } else {
        Seq::empty()
    }
}

/// The open-element stack with its top marked as having children.
pub open spec fn mark_top(stack: Seq<(Seq<char>, bool)>) -> Seq<(Seq<char>, bool)> {
    if stack.len() == 0 {
        stack
    } else {
        stack.update(stack.len() - 1, (stack.last().0, true))
    }
}

/// The piece an `end_element` call appends: the closing tag of an element
/// with children, or `/>` for an empty one.
pub open spec fn end_piece(top: (Seq<char>, bool)) -> Seq<char> {
    if top.1 {
        en(top.0)
    } else {
        seq!['/', '>']
    }
}

/// An xmlwriter whose buffer and open elements are tracked in ghost state:
/// `buf` is the characters written so far, `open` the open elements
/// (innermost last, each with its has-children flag), and `tag_open` says
/// whether the innermost start tag still awaits its `>`.  The writer is
/// created with whitespace preserving on, so it writes no indentation and
/// no newlines; the wrappers state its behavior in that mode.
struct XmlOut {
    inner: xmlwriter::XmlWriter,
    buf: Ghost<Seq<char>>,
    open: Ghost<Seq<(Seq<char>, bool)>>,
    tag_open: Ghost<bool>,
}

/// Relies on XmlWriter::new with default options and
/// set_preserve_whitespaces(true): a fresh writer with an empty buffer,
/// writing neither indentation nor newlines.
#[verifier::external_body]
fn xmlwriter_new() -> xmlwriter::XmlWriter {
    let mut inner = xmlwriter::XmlWriter::new(xmlwriter::Options::default());
    inner.set_preserve_whitespaces(true);
    inner
}

/// A fresh writer with an empty buffer and no open element.
fn xml_new() -> (w: XmlOut)
    ensures
        w.buf@ == Seq::<char>::empty(),
        w.open@ == Seq::<(Seq<char>, bool)>::empty(),
        !w.tag_open@,
{
    XmlOut {
        inner: xmlwriter_new(),
        buf: Ghost(Seq::empty()),
        open: Ghost(Seq::empty()),
        tag_open: Ghost(false),
    }
}

/// Relies on XmlWriter::write_declaration: on a fresh writer it appends
/// exactly the declaration.
#[verifier::external_body]
fn xml_declaration(w: &mut XmlOut)
    requires
        old(w).buf@.len() == 0,
        old(w).open@.len() == 0,
        !old(w).tag_open@,
    ensures
        final(w).buf@ == decl_str(),
        final(w).open@ == old(w).open@,
        final(w).tag_open@ == old(w).tag_open@,
{
    w.inner.write_declaration();
}

/// Relies on XmlWriter::start_element: closes a pending start tag, marks
/// its element as having children, appends `<` and the name, and leaves the
/// new start tag open.
#[verifier::external_body]
fn xml_start(w: &mut XmlOut, name: &str)
    requires
        old(w).tag_open@ ==> old(w).open@.len() > 0,
    ensures
        final(w).buf@ == old(w).buf@ + close_mark(old(w).tag_open@) + st(name@),
        final(w).open@ == (if old(w).tag_open@ {
            mark_top(old(w).open@)
        } else {
            old(w).open@
        }).push((name@, false)),
        final(w).tag_open@,
{
    w.inner.start_element(name);
}

/// Relies on XmlWriter::write_attribute with a `&str` value: inside an open
/// start tag it appends a space, the name, `="`, the value with `"` escaped,
/// and `"`.
#[verifier::external_body]
fn xml_attr(w: &mut XmlOut, name: &str, value: &str)
    requires
        old(w).tag_open@,
    ensures
        final(w).buf@ == old(w).buf@ + attr_str(name@, value@),
        final(w).open@ == old(w).open@,
        final(w).tag_open@,
{
    w.inner.write_attribute(name, value);
}

/// Relies on XmlWriter::write_text: closes a pending start tag, marks its
/// element as having children, and appends the text with `<` escaped.
#[verifier::external_body]
fn xml_text(w: &mut XmlOut, text: &str)
    requires
        old(w).open@.len() > 0,
    ensures
        final(w).buf@ == old(w).buf@ + close_mark(old(w).tag_open@) + esc_text(text@),
        final(w).open@ == (if old(w).tag_open@ {
            mark_top(old(w).open@)
        } else {
            old(w).open@
        }),
        !final(w).tag_open@,
{
    w.inner.write_text(text);
}

/// Relies on XmlWriter::end_element: pops the innermost element and appends
/// its closing tag, or `/>` if nothing was written inside it.
#[verifier::external_body]
fn xml_end(w: &mut XmlOut)
    requires
        old(w).open@.len() > 0,
    ensures
        final(w).buf@ == old(w).buf@ + end_piece(old(w).open@.last()),
        final(w).open@ == old(w).open@.drop_last(),
        !final(w).tag_open@,
{
    w.inner.end_element();
}

/// Relies on XmlWriter::end_document with whitespace preserving on: with no
/// element left open it returns the buffer unchanged.
#[verifier::external_body]
fn xml_end_document(w: XmlOut) -> (r: String)
    requires
        w.open@.len() == 0,
    ensures
        r@ == w.buf@,
{
    w.inner.end_document()
}

/// Writes `<tag>`, the escaped contents, and `</tag>`; a pending start tag
/// is closed first.
fn write_tag_str(xml: &mut XmlOut, tag: &str, contents: &str)
    requires
        old(xml).tag_open@ ==> old(xml).open@.len() > 0,
    ensures
        final(xml).buf@ == old(xml).buf@ + close_mark(old(xml).tag_open@) + st(tag@) + gt()
            + esc_text(contents@) + en(tag@),
        final(xml).open@ == (if old(xml).tag_open@ {
            mark_top(old(xml).open@)
        } else {
            old(xml).open@
        }),
        !final(xml).tag_open@,
{
    let ghost buf0 = xml.buf@;
    let ghost open0 = (if xml.tag_open@ {
        mark_top(xml.open@)
    } else {
        xml.open@
    });
    xml_start(xml, tag);
    xml_text(xml, contents);
    proof {
        assert(xml.open@ =~~= open0.push((tag@, true)));
    }
    xml_end(xml);
    proof {
        assert(xml.open@ =~~= open0);
        assert(xml.buf@ =~= buf0 + close_mark(old(xml).tag_open@) + st(tag@) + gt() + esc_text(
            contents@,
        ) + en(tag@));
    }
}

/// The number of correct options from position `k` on.
pub open spec fn cnt_correct(opts: Seq<QOption>, k: int) -> nat
    decreases opts.len() - k,
{
    if k < 0 || k >= opts.len() {
        0
    } else {
        (if opts[k].correct {
            1nat
        } else {
            0nat
        }) + cnt_correct(opts, k + 1)
    }
}

/// The number of correct options of a question.
fn count_correct(opts: &Vec<QOption>) -> (c: u64)
    ensures
        c == cnt_correct(opts@, 0),
{
    let mut c: u64 = 0;
    let mut k: usize = 0;
    while k < opts.len()
        invariant
            0 <= k <= opts@.len(),
            c <= k,
            c + cnt_correct(opts@, k as int) == cnt_correct(opts@, 0),
        decreases opts@.len() - k,
    {
        if opts[k].correct {
            c = c + 1;
        }
        k = k + 1;
    }
    c
}

/// The weight of one correct answer, scaled by `100000`: `10^7 / nc`,
/// rounded to the nearest integer, ties to even.
pub open spec fn weight_scaled(nc: nat) -> nat
    recommends
        nc > 0,
{
    let q = (10000000 as nat) / nc;
    let r = (10000000 as nat) % nc;
    if 2 * r > nc {
        q + 1
    } else if 2 * r < nc {
        q
    } else if q % 2 == 0 {
        q
    } else {
        q + 1
    }
}

/// The weight of one correct answer among `nc` correct answers: `100 / nc`
/// with exactly five decimal places.
pub open spec fn weight_str(nc: nat) -> Seq<char>
    recommends
        nc > 0,
{
    dec_str(weight_scaled(nc) / 100000) + seq!['.'] + pad5(weight_scaled(nc) % 100000)
}

/// The weight of one correct answer among `nc`, as a string.
fn weight_string(nc: u64) -> (s: String)
    requires
        nc > 0,
    ensures
        s@ == weight_str(nc as nat),
{
    let q: u64 = 10000000 / nc;
    let r: u64 = 10000000 % nc;
    let rounded: u64 = if r > nc - r {
        q + 1
    } else if r < nc - r {
        q
    } else if q % 2 == 0 {
        q
    } else {
        q + 1
    };
    proof {
        assert(rounded == weight_scaled(nc as nat));
    }
    let mut s = u64_to_dec(rounded / 100000);
    push_char(&mut s, '.');
    let frac = u64_to_pad5(rounded % 100000);
    push_str(&mut s, frac.as_str());
    proof {
        assert(s@ =~= weight_str(nc as nat));
    }
    s
}

/// The feedback text of an answer.
pub open spec fn feedback_str(correct: bool) -> Seq<char> {
    if correct {
        "Correct!"@
    } else {
        "Sorry, that's not correct!"@
    }
}

/// The `<answer>` element of one option: its weight and format, its escaped
/// content, and its feedback.
pub open spec fn answer_xml(o: QOption, w: Seq<char>) -> Seq<char> {
    st("answer"@) + attr_str(
        "fraction"@,
        if o.correct {
            w
        } else {
            "-100"@
        },
    ) + attr_str("format"@, "html"@) + gt() + st("text"@) + gt() + esc_text(o.content@) + en(
        "text"@,
    ) + st("feedback"@) + gt() + st("text"@) + gt() + esc_text(feedback_str(o.correct)) + en(
        "text"@,
    ) + en("feedback"@) + en("answer"@)
}

/// The `<answer>` elements of the options from position `k` on.
pub open spec fn answers_xml(opts: Seq<QOption>, w: Seq<char>, k: int) -> Seq<char>
    decreases opts.len() - k,
{
    if k < 0 || k >= opts.len() {
        Seq::empty()
    } else {
        answer_xml(opts[k], w) + answers_xml(opts, w, k + 1)
    }
}

/// The head of one `multichoice` element, before its answers: its name
/// `{base}/{index}`, its escaped prompt, and the default grade.
#[verifier::opaque]
pub open spec fn multichoice_head(q: Question, base: Seq<char>, i: nat) -> Seq<char> {
    st("question"@) + attr_str("type"@, "multichoice"@) + gt() + st("name"@) + gt() + st("text"@)
        + gt() + esc_text(base + seq!['/'] + dec_str(i)) + en("text"@) + en("name"@) + st(
        "questiontext"@,
    ) + attr_str("format"@, "html"@) + gt() + st("text"@) + gt() + esc_text(q.prompt@) + en(
        "text"@,
    ) + en("questiontext"@) + st("defaultgrade"@) + gt() + esc_text("1.0"@) + en("defaultgrade"@)
}

/// The fixed trailer of one `multichoice` element: `shuffleanswers` is `0`
/// for an ordered source list and `1` otherwise, `single` is always
/// `false`.
#[verifier::opaque]
pub open spec fn multichoice_tail(q: Question) -> Seq<char> {
    st("shuffleanswers"@) + gt() + esc_text(
        if q.ordered {
            "0"@
        } else {
            "1"@
        },
    ) + en("shuffleanswers"@) + st("single"@) + gt() + esc_text("false"@) + en("single"@) + st(
        "answernumbering"@,
    ) + gt() + esc_text("abc"@) + en("answernumbering"@) + en("question"@)
}

/// The `multichoice` question element of one question: its head, its
/// answers, and its fixed trailer.
pub open spec fn multichoice_xml(q: Question, base: Seq<char>, i: nat) -> Seq<char> {
    multichoice_head(q, base, i) + answers_xml(
        q.options@,
        weight_str(cnt_correct(q.options@, 0)),
        0,
    ) + multichoice_tail(q)
}

/// The `multichoice` elements of the questions from position `k` on.
pub open spec fn multichoices_xml(qs: Seq<Question>, base: Seq<char>, k: int) -> Seq<char>
    decreases qs.len() - k,
{
    if k < 0 || k >= qs.len() {
        Seq::empty()
    } else {
        multichoice_xml(qs[k], base, k as nat) + multichoices_xml(qs, base, k + 1)
    }
}

/// The document's prolog: the declaration, the opened `<quiz>` element, and
/// the category question holding the escaped name.
#[verifier::opaque]
pub open spec fn quiz_prolog(name: Seq<char>) -> Seq<char> {
    decl_str() + st("quiz"@) + gt() + st("question"@) + attr_str("type"@, "category"@) + gt() + st(
        "category"@,
    ) + gt() + st("text"@) + gt() + esc_text(name) + en("text"@) + en("category"@) + en(
        "question"@,
    )
}

/// The whole document: the prolog, one `multichoice` element per question
/// in document order, and the closing of the `<quiz>` element.
pub open spec fn moodle_xml_str(name: Seq<char>, qs: Seq<Question>) -> Seq<char> {
    quiz_prolog(name) + multichoices_xml(qs, name, 0) + en("quiz"@)
}

/// The fault of the first question the Moodle renderer refuses, from
/// position `k` on: one without options, or one without a correct answer.
pub open spec fn first_moodle_fault(qs: Seq<Question>, k: int) -> Option<Error>
    decreases qs.len() - k,
{
    if k < 0 || k >= qs.len() {
        None
    } else if qs[k].options@.len() == 0 {
        Some(Error::NoOptionsFound)
    } else if cnt_correct(qs[k].options@, 0) == 0 {
        Some(Error::MoodleNoCorrectAnswer)
    } else {
        first_moodle_fault(qs, k + 1)
    }
}

/// Writes the head of one `multichoice` element: the opened `question`
/// element with its name and prompt, up to the default grade.
#[verifier::rlimit(100)]
fn write_mc_head(xml: &mut XmlOut, question: &Question, base_name: &str, index: usize)
    requires
        old(xml).open@.len() > 0,
        !old(xml).tag_open@,
    ensures
        final(xml).buf@ == old(xml).buf@ + multichoice_head(*question, base_name@, index as nat),
        final(xml).open@ == old(xml).open@.push(("question"@, true)),
        !final(xml).tag_open@,
{
    let ghost buf0 = xml.buf@;
    let ghost open0 = xml.open@;
    xml_start(xml, "question");
    xml_attr(xml, "type", "multichoice");
    let mut name = String::new();
    push_str(&mut name, base_name);
    push_char(&mut name, '/');
    let idx = u64_to_dec(index as u64);
    push_str(&mut name, idx.as_str());
    proof {
        assert(name@ =~= base_name@ + seq!['/'] + dec_str(index as nat));
    }
    xml_start(xml, "name");
    proof {
        assert(xml.open@ =~~= open0.push(("question"@, true)).push(("name"@, false)));
    }
    write_tag_str(xml, "text", name.as_str());
    proof {
        assert(xml.open@ =~~= open0.push(("question"@, true)).push(("name"@, true)));
    }
    xml_end(xml);
    proof {
        assert(xml.open@ =~~= open0.push(("question"@, true)));
    }
    xml_start(xml, "questiontext");
    xml_attr(xml, "format", "html");
    write_tag_str(xml, "text", question.prompt.as_str());
    xml_end(xml);
    proof {
        assert(xml.open@ =~~= open0.push(("question"@, true)));
    }
    write_tag_str(xml, "defaultgrade", "1.0");
    proof {
        assert(xml.buf@ =~= buf0 + multichoice_head(*question, base_name@, index as nat)) by {
            reveal(multichoice_head);
        }
    }
}

/// Writes the fixed trailer of one `multichoice` element and closes it.
#[verifier::rlimit(100)]
fn write_mc_tail(xml: &mut XmlOut, question: &Question)
    requires
        old(xml).open@.len() > 0,
        old(xml).open@.last() == ("question"@, true),
        !old(xml).tag_open@,
    ensures
        final(xml).buf@ == old(xml).buf@ + multichoice_tail(*question),
        final(xml).open@ == old(xml).open@.drop_last(),
        !final(xml).tag_open@,
{
    let ghost buf0 = xml.buf@;
    let ghost open0 = xml.open@;
    write_tag_str(xml, "shuffleanswers", if question.ordered { "0" } else { "1" });
    write_tag_str(xml, "single", "false");
    write_tag_str(xml, "answernumbering", "abc");
    proof {
        assert(xml.open@ =~~= open0);
    }
    xml_end(xml);
    proof {
        assert(xml.buf@ =~= buf0 + multichoice_tail(*question)) by {
            reveal(multichoice_tail);
        }
    }
}

/// Writes one `<answer>` element: its weight attribute, its escaped
/// content, and its feedback.
#[verifier::rlimit(100)]
fn write_answer(xml: &mut XmlOut, option: &QOption, correct_weight: &String)
    requires
        old(xml).open@.len() > 0,
        !old(xml).tag_open@,
    ensures
        final(xml).buf@ == old(xml).buf@ + answer_xml(*option, correct_weight@),
        final(xml).open@ == old(xml).open@,
        !final(xml).tag_open@,
{
    let ghost buf0 = xml.buf@;
    let ghost open0 = xml.open@;
    let correct = option.correct;
    xml_start(xml, "answer");
    if correct {
        xml_attr(xml, "fraction", correct_weight.as_str());
    } else {
        xml_attr(xml, "fraction", "-100");
    }
    xml_attr(xml, "format", "html");
    write_tag_str(xml, "text", option.content.as_str());
    proof {
        assert(xml.open@ =~~= open0.push(("answer"@, true)));
    }
    xml_start(xml, "feedback");
    xml_start(xml, "text");
    if correct {
        xml_text(xml, "Correct!");
    } else {
        xml_text(xml, "Sorry, that's not correct!");
    }
    proof {
        assert(xml.open@ =~~= open0.push(("answer"@, true)).push(("feedback"@, true)).push(
            ("text"@, true),
        ));
    }
    xml_end(xml);
    proof {
        assert(xml.open@ =~~= open0.push(("answer"@, true)).push(("feedback"@, true)));
    }
    xml_end(xml);
    proof {
        assert(xml.open@ =~~= open0.push(("answer"@, true)));
    }
    xml_end(xml);
    proof {
        assert(xml.open@ =~~= open0);
        assert(xml.buf@ =~= buf0 + answer_xml(*option, correct_weight@));
    }
}

/// Writes one question as a `multichoice` element; a question without
/// options, or without a correct answer, is refused before anything is
/// written.
#[verifier::rlimit(100)]
fn write_multichoice(xml: &mut XmlOut, question: &Question, base_name: &str, index: usize) -> (r:
    Result<(), Error>)
    requires
        old(xml).open@.len() > 0,
        !old(xml).tag_open@,
    ensures
        match r {
            Ok(_) => {
                &&& question.options@.len() > 0
                &&& cnt_correct(question.options@, 0) > 0
                &&& final(xml).buf@ == old(xml).buf@ + multichoice_xml(
                    *question,
                    base_name@,
                    index as nat,
                )
                &&& final(xml).open@ == old(xml).open@
                &&& !final(xml).tag_open@
            },
            Err(e) => {
                &&& final(xml).buf@ == old(xml).buf@
                &&& final(xml).open@ == old(xml).open@
                &&& final(xml).tag_open@ == old(xml).tag_open@
                &&& if question.options@.len() == 0 {
                    e is NoOptionsFound
                } else {
                    cnt_correct(question.options@, 0) == 0 && e is MoodleNoCorrectAnswer
                }
            },
        },
{
    let ghost buf0 = xml.buf@;
    let ghost open0 = xml.open@;
    let num_correct = count_correct(&question.options);
    if question.options.len() == 0 {
        return Err(Error::NoOptionsFound);
    }
    if num_correct == 0 {
        return Err(Error::MoodleNoCorrectAnswer);
    }
    let correct_weight = weight_string(num_correct);
    let ghost w = weight_str(cnt_correct(question.options@, 0));

    write_mc_head(xml, question, base_name, index);
    let ghost mid = xml.buf@;

    let mut k: usize = 0;
    while k < question.options.len()
        invariant
            0 <= k <= question.options@.len(),
            w == weight_str(cnt_correct(question.options@, 0)),
            correct_weight@ == w,
            xml.open@ == open0.push(("question"@, true)),
            !xml.tag_open@,
            open0.len() > 0,
            xml.buf@ + answers_xml(question.options@, w, k as int) == mid + answers_xml(
                question.options@,
                w,
                0,
            ),
        decreases question.options@.len() - k,
    {
        let ghost apre = xml.buf@;
        write_answer(xml, &question.options[k], &correct_weight);
        proof {
            assert(xml.buf@ + answers_xml(question.options@, w, k + 1) =~= apre + answers_xml(
                question.options@,
                w,
                k as int,
            ));
        }
        k = k + 1;
    }
    let ghost after_answers = xml.buf@;
    proof {
        assert(answers_xml(question.options@, w, question.options@.len() as int) =~= Seq::empty());
        assert(after_answers =~= mid + answers_xml(question.options@, w, 0));
    }

    write_mc_tail(xml, question);
    proof {
        assert(xml.buf@ =~= buf0 + multichoice_xml(*question, base_name@, index as nat));
    }
    Ok(())
}

/// Renders the questions to one Moodle XML document, named after `name`;
/// the first question without options or without a correct answer aborts
/// the whole rendering.
pub fn to_moodle_xml(qs: &[Question], name: &str) -> (r: Result<String, Error>)
    ensures
        match r {
            Ok(s) => first_moodle_fault(qs@, 0) is None && s@ == moodle_xml_str(name@, qs@),
            Err(e) => Some(e) == first_moodle_fault(qs@, 0),
        },
{
    let mut xml = xml_new();
    xml_declaration(&mut xml);
    xml_start(&mut xml, "quiz");
    xml_start(&mut xml, "question");
    xml_attr(&mut xml, "type", "category");
    xml_start(&mut xml, "category");
    proof {
        assert(xml.open@ =~~= seq![("quiz"@, true), ("question"@, true), ("category"@, false)]);
    }
    write_tag_str(&mut xml, "text", name);
    proof {
        assert(xml.open@ =~~= seq![("quiz"@, true), ("question"@, true), ("category"@, true)]);
    }
    xml_end(&mut xml);
    proof {
        assert(xml.open@ =~~= seq![("quiz"@, true), ("question"@, true)]);
    }
    xml_end(&mut xml);
    proof {
        assert(xml.open@ =~~= seq![("quiz"@, true)]);
    }
    let ghost prolog = xml.buf@;
    proof {
        assert(prolog =~= quiz_prolog(name@)) by {
            reveal(quiz_prolog);
        }
    }

    let mut i: usize = 0;
    while i < qs.len()
        invariant
            0 <= i <= qs@.len(),
            xml.open@ == seq![("quiz"@, true)],
            !xml.tag_open@,
            first_moodle_fault(qs@, 0) == first_moodle_fault(qs@, i as int),
            xml.buf@ + multichoices_xml(qs@, name@, i as int) == prolog + multichoices_xml(
                qs@,
                name@,
                0,
            ),
        decreases qs@.len() - i,
    {
        let ghost bpre = xml.buf@;
        match write_multichoice(&mut xml, &qs[i], name, i) {
            Ok(_) => {},
            Err(e) => {
                proof {
                    assert(first_moodle_fault(qs@, i as int) == Some(e));
                }
                return Err(e);
            },
        }
        proof {
            assert(first_moodle_fault(qs@, i as int) == first_moodle_fault(qs@, i + 1));
            assert(xml.buf@ + multichoices_xml(qs@, name@, i + 1) =~= bpre + multichoices_xml(
                qs@,
                name@,
                i as int,
            ));
        }
        i = i + 1;
    }
    proof {
        assert(multichoices_xml(qs@, name@, qs@.len() as int) =~= Seq::empty());
    }
    xml_end(&mut xml);
    proof {
        assert(xml.open@ =~~= Seq::<(Seq<char>, bool)>::empty());
        assert(xml.buf@ =~= moodle_xml_str(name@, qs@));
    }
    let out = xml_end_document(xml);
    Ok(out)
}

} // verus!
