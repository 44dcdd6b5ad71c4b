//! The markdown tokenizer boundary.
//!
//! The tokenizer (pulldown-cmark, with strikethrough, tables and task lists
//! enabled) turns the input text into an ordered sequence of events, produced
//! once and then read by index.  `Token` is this library's view of one event:
//! it keeps exactly what the parser and the renderer read — heading levels,
//! list kinds, task markers, text, code — and collapses every other construct
//! into `Other`.  The events themselves stay in an `EventBuffer`, so that a
//! pass-through event can later be handed back to the HTML serializer
//! unchanged.

use pulldown_cmark::{CodeBlockKind as K, Event as E, Tag as T};
use vstd::prelude::*;

verus! {

/// This library's view of one markdown event.
#[derive(Debug)]
pub enum Token {
    /// Start of a heading; the field is the heading level.
    HeadingStart(u32),
    /// End of a heading.
    HeadingEnd(u32),
    /// Start of a list; `Some` carries the first number of an ordered list.
    ListStart(Option<u64>),
    /// End of a list.
    ListEnd,
    /// Start of a list item.
    ItemStart,
    /// End of a list item.
    ItemEnd,
    /// A task-list checkbox; the field says whether it is checked.
    TaskMarker(bool),
    /// A text node.
    Text(String),
    /// An inline code span.
    Code(String),
    /// Start of a code block; `None` for an indented block, `Some` carries a
    /// fence's language tag, which may be empty.
    CodeBlockStart(Option<String>),
    /// End of a code block.
    CodeBlockEnd,
    /// Any other construct, passed through to the HTML serializer unchanged.
    Other,
}

/// The tokens that the tokenizer produces for the given text, with
/// strikethrough, tables and task lists enabled.  The tokenizer is
/// deterministic: the token sequence is a function of the text alone.
pub uninterp spec fn md_tokens(text: Seq<char>) -> Seq<Token>;

#[verifier::external_type_specification]
#[verifier::external_body]
pub struct ExTag<'a>(pulldown_cmark::Tag<'a>);

/// The tokenizer's events, held for the HTML serializer; opaque to the
/// verifier.
#[verifier::external_body]
pub(crate) struct EventList<'a>(pub(crate) Vec<pulldown_cmark::Event<'a>>);

/// Part of `token_at`'s reading of one event: the `Token` of a start tag.
/// Relies on the pulldown_cmark tag variants: each arm moves one variant's
/// fields.
#[verifier::external_body]
fn start_token(t: &T<'_>) -> Token {
    match t {
        T::Heading(l) => Token::HeadingStart(*l),
        T::List(n) => Token::ListStart(*n),
        T::Item => Token::ItemStart,
        T::CodeBlock(K::Indented) => Token::CodeBlockStart(None),
        T::CodeBlock(K::Fenced(l)) => Token::CodeBlockStart(Some(l.to_string())),
        _ => Token::Other,
    }
}

/// Part of `token_at`'s reading of one event: the `Token` of an end tag.
/// Relies on the pulldown_cmark tag variants.
#[verifier::external_body]
fn end_token(t: &T<'_>) -> Token {
    match t {
        T::Heading(l) => Token::HeadingEnd(*l),
        T::List(_) => Token::ListEnd,
        T::Item => Token::ItemEnd,
        T::CodeBlock(_) => Token::CodeBlockEnd,
        _ => Token::Other,
    }
}

/// The tokenized document: the source text and the event sequence the
/// tokenizer produced for it.  Built only by `tokenize`, so the events are
/// always those of `src`.
pub(crate) struct EventBuffer<'a> {
    pub(crate) src: &'a str,
    pub(crate) events: EventList<'a>,
}

/// Relies on pulldown_cmark::Parser::new_ext: tokenizes the text with the
/// strikethrough, table and task-list extensions enabled.
#[verifier::external_body]
pub(crate) fn tokenize<'a>(text: &'a str) -> (b: EventBuffer<'a>)
    ensures
        b.src@ == text@,
{
    let mut opt = pulldown_cmark::Options::empty();
    opt.insert(pulldown_cmark::Options::ENABLE_STRIKETHROUGH);
    opt.insert(pulldown_cmark::Options::ENABLE_TABLES);
    opt.insert(pulldown_cmark::Options::ENABLE_TASKLISTS);
    let events: Vec<pulldown_cmark::Event<'a>> = pulldown_cmark::Parser::new_ext(text, opt).collect();
    EventBuffer { src: text, events: EventList(events) }
}

impl<'a> EventBuffer<'a> {
    /// Relies on Vec::len: the number of events the tokenizer produced.
    #[verifier::external_body]
    pub(crate) fn len(&self) -> (n: usize)
        ensures
            n == md_tokens(self.src@).len(),
    {
        self.events.0.len()
    }

    /// Reads one event, as this library's `Token`.  Relies on the
    /// pulldown_cmark event and tag variants: each arm moves one variant's
    /// fields, and every variant the parser does not read maps to `Other`.
    #[verifier::external_body]
    pub(crate) fn token_at(&self, i: usize) -> (t: Token)
        requires
            i < md_tokens(self.src@).len(),
        ensures
            t == md_tokens(self.src@)[i as int],
    {
        match &self.events.0[i] {
            E::Start(t) => start_token(t),
            E::End(t) => end_token(t),
            E::TaskListMarker(c) => Token::TaskMarker(*c),
            E::Text(s) => Token::Text(s.to_string()),
            E::Code(s) => Token::Code(s.to_string()),
            _ => Token::Other,
        }
    }
}

} // verus!
