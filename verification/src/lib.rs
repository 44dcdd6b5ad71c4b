//! Quizdown: a restricted markdown dialect for quiz questions.
//!
//! A document is split at headings into chunks; each chunk must carry exactly
//! one task list, whose checkboxes encode the answer options and their
//! correctness.  The parsed questions render to an HTML preview or to the
//! Moodle XML import format.

use vstd::prelude::*;

use crate::parsing::{parse_chunks, q_view, question_model, ChunkModel, ParseFault};
use crate::render::is_builtin_theme;
use crate::text::{dec_str, push_str, str_lt, u64_to_dec};
use crate::tokens::md_tokens;

pub mod html;
pub mod moodlexml;
pub mod parsing;
pub mod render;
pub mod text;
pub mod tokens;

pub use render::SyntaxHighlightingOptions;

verus! {

/// The output formats a question list can be rendered to.
#[derive(PartialEq, Eq, Clone, Copy, Debug, Structural)]
pub enum OutputFormat {
    /// Render HTML with title, body, etc. for file preview.
    HtmlFull,
    /// Render just the HTML for the questions themselves.
    HtmlSnippet,
    /// MoodleXML import format.
    MoodleXml,
}

/// Everything that can go wrong while parsing a document or rendering the
/// questions.
#[derive(Debug)]
pub enum Error {
    /// The input ended while a heading was still open; the message names the
    /// heading level.
    UnexpectedEOF(String),
    /// A task marker appeared inside a nested list.
    NestedTaskList,
    /// A task marker appeared outside any list.
    TaskListWithoutList,
    /// Two distinct lists in one chunk both carried task markers.
    TooManyTaskLists,
    /// A chunk, or a question handed to the Moodle renderer, has no options.
    NoOptionsFound,
    /// Moodle requires at least one correct answer per question.
    MoodleNoCorrectAnswer,
    /// Content followed the closed task list, before the next heading.
    ContentIgnored,
    /// The token stream broke an invariant the parser relies on.
    Internal,
    /// The configured syntax-highlighting theme is not a built-in theme.
    MissingSyntaxTheme(String),
    /// Reserved for a missing highlighting language; the renderer falls back
    /// to plain text instead of raising it.
    MissingSyntaxLang(String),
}

/// A parsed answer option: its correctness flag and its rendered HTML.
#[derive(Debug, Clone)]
pub struct QOption {
    pub correct: bool,
    pub content: String,
}

/// A parsed question: the rendered prompt, the answer options in document
/// order, and whether the source list was numbered.
#[derive(Debug, Clone)]
pub struct Question {
    pub prompt: String,
    pub options: Vec<QOption>,
    pub ordered: bool,
}

/// Configuration of a processing run: whether a none-of-the-above option is
/// requested, and the syntax-highlighting options.
#[derive(Debug, Clone)]
pub struct Config {
    pub insert_none_of_the_above: bool,
    pub syntax: SyntaxHighlightingOptions,
}

impl Default for Config {
    /// The default configuration: no extra option, default highlighting.
    fn default() -> (r: Self)
        ensures
            !r.insert_none_of_the_above,
            r.syntax.theme@ == "InspiredGitHub"@,
            r.syntax.default_lang@ == "text"@,
    {
        Config {
            insert_none_of_the_above: false,
            syntax: SyntaxHighlightingOptions::default(),
        }
    }
}

/// The theme a processing run uses: the configured one, or the default.
pub open spec fn eff_theme(config: Option<Config>) -> Seq<char> {
    match config {
        Some(c) => c.syntax.theme@,
        None => "InspiredGitHub"@,
    }
}

/// The default language a processing run uses: the configured one, or the
/// default.
pub open spec fn eff_lang(config: Option<Config>) -> Seq<char> {
    match config {
        Some(c) => c.syntax.default_lang@,
        None => "text"@,
    }
}

/// The message of the error raised when input ends inside a heading of
/// level `l`.
pub open spec fn eof_msg(l: u32) -> Seq<char> {
    "while looking for end of heading h"@ + dec_str(l as nat) + "!"@
}

/// Whether `e` is the user-facing error of the parse fault `f`.
pub open spec fn fault_error(f: ParseFault, e: Error) -> bool {
    match (f, e) {
        (ParseFault::Eof(l), Error::UnexpectedEOF(m)) => m@ == eof_msg(l),
        (ParseFault::Nested, Error::NestedTaskList) => true,
        (ParseFault::NoList, Error::TaskListWithoutList) => true,
        (ParseFault::TooMany, Error::TooManyTaskLists) => true,
        (ParseFault::NoOptions, Error::NoOptionsFound) => true,
        (ParseFault::Ignored, Error::ContentIgnored) => true,
        (ParseFault::Internal, Error::Internal) => true,
        _ => false,
    }
}

/// The user-facing error of a parse fault.
fn fault_to_error(f: ParseFault) -> (e: Error)
    ensures
        fault_error(f, e),
{
    match f {
        ParseFault::Eof(l) => {
            let mut m = String::new();
            push_str(&mut m, "while looking for end of heading h");
            let digits = u64_to_dec(l as u64);
            push_str(&mut m, digits.as_str());
            push_str(&mut m, "!");
            proof {
                assert(m@ =~= eof_msg(l));
            }
            Error::UnexpectedEOF(m)
        },
        ParseFault::Nested => Error::NestedTaskList,
        ParseFault::NoList => Error::TaskListWithoutList,
        ParseFault::TooMany => Error::TooManyTaskLists,
        ParseFault::NoOptions => Error::NoOptionsFound,
        ParseFault::Ignored => Error::ContentIgnored,
        ParseFault::Internal => Error::Internal,
    }
}

/// Parses the text into questions.  Exactly the well-formed chunks of the
/// tokenized text become questions, in document order; the first parse
/// fault, or a theme that is not built in, aborts the whole run with no
/// partial output.
pub fn process_questions_str(content: &str, config: Option<Config>) -> (r: Result<
    Vec<Question>,
    Error,
>)
    ensures
        match r {
            Ok(qs) => {
                &&& is_builtin_theme(eff_theme(config))
                &&& match parse_chunks(md_tokens(content@)) {
                    Ok(models) => {
                        &&& qs@.len() == models.len()
                        &&& forall|i: int|
                            0 <= i < models.len() ==> q_view(#[trigger] qs@[i]) == question_model(
                                content@,
                                models[i],
                                eff_theme(config),
                                eff_lang(config),
                            )
                    },
                    Err(_) => false,
                }
            },
            Err(e) => {
                ||| {
                    &&& !is_builtin_theme(eff_theme(config))
                    &&& (e matches Error::MissingSyntaxTheme(t) && t@ == eff_theme(config))
                }
                ||| {
                    &&& is_builtin_theme(eff_theme(config))
                    &&& match parse_chunks(md_tokens(content@)) {
                        Err(f) => fault_error(f, e),
                        Ok(_) => false,
                    }
                }
            },
        },
{
    let ghost th = eff_theme(config);
    let ghost dl = eff_lang(config);
    let cfg = match config {
        Some(c) => c,
        None => Config::default(),
    };
    let highlighter = match cfg.syntax.create() {
        Ok(h) => h,
        Err(e) => {
            return Err(e);
        },
    };
    let b = crate::tokens::tokenize(content);
    let ghost toks = md_tokens(content@);
    let len: usize = b.len();
    let mut output: Vec<Question> = Vec::new();
    let ghost mut done_models: Seq<ChunkModel> = Seq::empty();
    let mut pos: usize = 0;
    let mut done: bool = false;
    proof {
        assert(done_models + (match parse_chunks(toks) {
            Ok(rest) => rest,
            Err(_) => Seq::empty(),
        }) =~= (match parse_chunks(toks) {
            Ok(rest) => rest,
            Err(_) => Seq::empty(),
        }));
    }
    while !done
        invariant
            len == toks.len(),
            toks == md_tokens(content@),
            0 <= pos <= len,
            th == eff_theme(config),
            dl == eff_lang(config),
            th == highlighter.theme_view(),
            dl == highlighter.lang_view(),
            is_builtin_theme(th),
            content@ == b.src@,
            parse_chunks(toks) == (match crate::parsing::parse_chunks_at(toks, pos as int) {
                Ok(rest) => Ok::<Seq<ChunkModel>, ParseFault>(done_models + rest),
                Err(f) => Err::<Seq<ChunkModel>, ParseFault>(f),
            }),
            output@.len() == done_models.len(),
            forall|i: int|
                0 <= i < done_models.len() ==> q_view(#[trigger] output@[i]) == question_model(
                    content@,
                    done_models[i],
                    th,
                    dl,
                ),
            done ==> crate::parsing::parse_chunks_at(toks, pos as int)
                == Ok::<Seq<ChunkModel>, ParseFault>(Seq::empty()),
        decreases len - pos, (if done {
            0int
        } else {
            1int
        }),
    {
        match crate::parsing::parse_next_x(&b, pos) {
            Err(f) => {
                return Err(fault_to_error(f));
            },
            Ok(None) => {
                done = true;
            },
            Ok(Some((chunk, np))) => {
                let q = chunk.finish(&b, &highlighter);
                let ghost pre = done_models;
                proof {
                    done_models = done_models + seq![chunk.model()];
                }
                output.push(q);
                pos = np;
                proof {
                    match crate::parsing::parse_chunks_at(toks, pos as int) {
                        Ok(rest) => {
                            assert(pre + (seq![chunk.model()] + rest) =~= done_models + rest);
                        },
                        Err(_) => {},
                    }
                }
            },
        }
    }
    proof {
        assert(done_models + Seq::<ChunkModel>::empty() =~= done_models);
    }
    Ok(output)
}

/// What a render result must be: for the HTML formats, the preview string
/// (full or snippet); for Moodle XML, the document, or the first fault of a
/// question the Moodle renderer refuses.
pub open spec fn render_post(
    fmt: OutputFormat,
    name: Seq<char>,
    qs: Seq<Question>,
    r: Result<String, Error>,
) -> bool {
    match fmt {
        OutputFormat::HtmlFull => r matches Ok(s) && s@ == html::html_preview_str(name, qs, true),
        OutputFormat::HtmlSnippet => r matches Ok(s) && s@ == html::html_preview_str(
            name,
            qs,
            false,
        ),
        OutputFormat::MoodleXml => match r {
            Ok(s) => moodlexml::first_moodle_fault(qs, 0) is None && s@ == moodlexml::moodle_xml_str(
                name,
                qs,
            ),
            Err(e) => Some(e) == moodlexml::first_moodle_fault(qs, 0),
        },
    }
}

impl OutputFormat {
    /// Renders the questions in this format, labeled with `name`.
    pub fn render(&self, name: &str, questions: &[Question]) -> (r: Result<String, Error>)
        ensures
            render_post(*self, name@, questions@, r),
    {
        match self {
            OutputFormat::HtmlFull | OutputFormat::HtmlSnippet => html::render_html_preview(
                name,
                questions,
                *self == OutputFormat::HtmlFull,
            ),
            OutputFormat::MoodleXml => moodlexml::to_moodle_xml(questions, name),
        }
    }
}

/// Rendering is deterministic: two render results for the same format, name
/// and question list are byte-identical, and fail alike.
pub proof fn lemma_render_deterministic(
    fmt: OutputFormat,
    name: Seq<char>,
    qs: Seq<Question>,
    r1: Result<String, Error>,
    r2: Result<String, Error>,
)
    requires
        render_post(fmt, name, qs, r1),
        render_post(fmt, name, qs, r2),
    ensures
        r1 is Ok <==> r2 is Ok,
        match (r1, r2) {
            (Ok(s1), Ok(s2)) => s1@ == s2@,
            (Err(e1), Err(e2)) => e1 == e2,
            _ => true,
        },
{
}

/// The built-in theme names, in ascending order.
pub fn list_themes() -> (r: Vec<String>)
    ensures
        forall|k: int| 0 <= k < r@.len() ==> is_builtin_theme((#[trigger] r@[k])@),
        forall|s: Seq<char>|
            #[trigger] is_builtin_theme(s) ==> exists|k: int|
                0 <= k < r@.len() && (#[trigger] r@[k])@ == s,
        forall|k1: int, k2: int| 0 <= k1 < k2 < r@.len() ==> str_lt(r@[k1]@, r@[k2]@),
{
    render::builtin_theme_names()
}

} // verus!
