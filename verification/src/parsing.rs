//! The question chunk parser.
//!
//! A single forward cursor walks the token sequence and cuts it into chunks:
//! an optional heading, body content, and exactly one task list.  A stack of
//! open-list positions enforces the one-task-list-per-chunk rule: a task
//! marker is only valid while exactly one list is open, and the task list
//! must close exactly where the chunk ends.
//!
//! The spec functions in this module define the parse outcome as a function
//! of the token sequence; the executable parser is proved to return exactly
//! that outcome.  Where the token stream breaks an invariant that a
//! conforming tokenizer guarantees (a list end without a list start, a task
//! list item without a marker), the parser reports `Internal` instead of
//! panicking.

use vstd::prelude::*;

use crate::render::{rendered_html, spec_plan, syntax_highlight_html, SyntaxHighlighter};
use crate::text::{dec_str, push_str, u64_to_dec};
use crate::tokens::{md_tokens, EventBuffer, Token};
use crate::{QOption, Question};

verus! {

/// A document-format fault, before it is given its user-facing message.
#[derive(Debug, Clone, Copy, PartialEq, Eq, Structural)]
pub enum ParseFault {
    /// Input ended inside a heading of the given level.
    Eof(u32),
    /// A task marker inside a nested list.
    Nested,
    /// A task marker outside any list.
    NoList,
    /// A second list with task markers.
    TooMany,
    /// No task list in the chunk.
    NoOptions,
    /// Content after the closed task list.
    Ignored,
    /// The token stream broke a parser invariant.
    Internal,
}

/// One answer option of a chunk: its checkbox state and the index range of
/// its content tokens.
pub struct OptModel {
    pub correct: bool,
    pub lo: int,
    pub hi: int,
}

/// One parsed chunk: heading level (absent for a headless chunk), the index
/// ranges of its header and body-content tokens, and its task list.
pub struct ChunkModel {
    pub level: Option<u32>,
    pub h_lo: int,
    pub h_hi: int,
    pub c_lo: int,
    pub c_hi: int,
    pub ordered: bool,
    pub opts: Seq<OptModel>,
}

/// Outcome of the body scan: a fault, or the chunk's end together with the
/// recorded task-list range.
pub enum ScanStep {
    Fault(ParseFault),
    Done { end: int, tl_lo: Option<int>, tl_hi: Option<int> },
}

/// Outcome of reading the task-list items: a fault, or the options together
/// with the cursor position after the list.
pub enum OptsStep {
    Fault(ParseFault),
    Done { opts: Seq<OptModel>, next: int },
}

/// Outcome of parsing one chunk: end of input, a fault, or a chunk together
/// with the cursor position behind it.
pub enum ParseStep {
    Finished,
    Fault(ParseFault),
    Chunk { c: ChunkModel, next: int },
}

/// The first index `j >= i` whose token ends a heading, if any.
pub open spec fn heading_end_at(toks: Seq<Token>, i: int) -> Option<int>
    decreases toks.len() - i,
{
    if i < 0 || i >= toks.len() {
        None
    } else if toks[i] is HeadingEnd {
        Some(i)
    } else {
        heading_end_at(toks, i + 1)
    }
}

/// The first index `j >= i` whose token ends a list item, if any.
pub open spec fn item_end_at(toks: Seq<Token>, i: int) -> Option<int>
    decreases toks.len() - i,
{
    if i < 0 || i >= toks.len() {
        None
    } else if toks[i] is ItemEnd {
        Some(i)
    } else {
        item_end_at(toks, i + 1)
    }
}

/// The body scan from position `i`, with the given stack of open-list
/// positions and the task-list range recorded so far.  It stops at the next
/// heading start or at the end of input; on a list end it pops the stack and,
/// if the closed list is the task list, records the position behind it; a
/// task marker is checked against the open-list stack.
pub open spec fn scan_body(
    toks: Seq<Token>,
    i: int,
    stack: Seq<int>,
    tl_lo: Option<int>,
    tl_hi: Option<int>,
) -> ScanStep
    decreases toks.len() - i,
{
    if i < 0 || i >= toks.len() {
        ScanStep::Done { end: toks.len() as int, tl_lo, tl_hi }
    } else {
        match toks[i] {
            Token::HeadingStart(_) => ScanStep::Done { end: i, tl_lo, tl_hi },
            Token::ListStart(_) => scan_body(toks, i + 1, stack.push(i), tl_lo, tl_hi),
            Token::ListEnd => {
                if stack.len() == 0 {
                    ScanStep::Fault(ParseFault::Internal)
                } else {
                    let closed = stack.last();
                    let tl_hi2 = if tl_lo == Some(closed) {
                        Some(i + 1)
                    } else {
                        tl_hi
                    };
                    scan_body(toks, i + 1, stack.drop_last(), tl_lo, tl_hi2)
                }
            },
            Token::TaskMarker(_) => {
                if stack.len() > 1 {
                    ScanStep::Fault(ParseFault::Nested)
                } else if stack.len() == 0 {
                    ScanStep::Fault(ParseFault::NoList)
                } else if tl_lo is Some && tl_lo != Some(stack[0]) {
                    ScanStep::Fault(ParseFault::TooMany)
                } else {
                    scan_body(toks, i + 1, stack, Some(stack[0]), tl_hi)
                }
            },
            _ => scan_body(toks, i + 1, stack, tl_lo, tl_hi),
        }
    }
}

/// Reads the task-list items from position `i` (just behind the list start):
/// each item must open with a task marker, its content runs to the item's
/// end, and the list's own end token closes the list.  End of input also
/// closes the list.
pub open spec fn scan_options(toks: Seq<Token>, i: int) -> OptsStep
    decreases toks.len() - i,
{
    if i < 0 || i >= toks.len() {
        OptsStep::Done { opts: Seq::empty(), next: i }
    } else {
        match toks[i] {
            Token::ListEnd => OptsStep::Done { opts: Seq::empty(), next: i + 1 },
            Token::ItemStart => {
                if i + 1 >= toks.len() || !(toks[i + 1] is TaskMarker) {
                    OptsStep::Fault(ParseFault::Internal)
                } else {
                    let correct = toks[i + 1]->TaskMarker_0;
                    match item_end_at(toks, i + 2) {
                        None => OptsStep::Fault(ParseFault::Internal),
                        Some(j) => {
                            if j < i + 2 || j >= toks.len() {
                                // never reached: item_end_at finds an index
                                // between its start and the end of input
                                OptsStep::Fault(ParseFault::Internal)
                            } else {
                                match scan_options(toks, j + 1) {
                                    OptsStep::Fault(f) => OptsStep::Fault(f),
                                    OptsStep::Done { opts, next } => OptsStep::Done {
                                        opts: seq![OptModel { correct, lo: i + 2, hi: j }] + opts,
                                        next,
                                    },
                                }
                            }
                        },
                    }
                }
            },
            _ => OptsStep::Fault(ParseFault::Internal),
        }
    }
}

/// The rest of one chunk, after its heading: the body is scanned, exactly one
/// task list must have been recorded and must close the chunk, and the task
/// list is read into options.  `h_lo..h_hi` is the header range and `b` the
/// first body position.
pub open spec fn chunk_after(
    toks: Seq<Token>,
    level: Option<u32>,
    h_lo: int,
    h_hi: int,
    b: int,
) -> ParseStep {
    match scan_body(toks, b, Seq::empty(), None, None) {
        ScanStep::Fault(f) => ParseStep::Fault(f),
        ScanStep::Done { end, tl_lo, tl_hi } => {
            if tl_lo is None || tl_hi is None {
                ParseStep::Fault(ParseFault::NoOptions)
            } else {
                let t0 = tl_lo->0;
                let t1 = tl_hi->0;
                if t1 != end {
                    ParseStep::Fault(ParseFault::Ignored)
                } else if t0 < 0 || t0 >= toks.len() || !(toks[t0] is ListStart) {
                    ParseStep::Fault(ParseFault::Internal)
                } else {
                    let ordered = toks[t0]->ListStart_0 is Some;
                    match scan_options(toks, t0 + 1) {
                        OptsStep::Fault(f) => ParseStep::Fault(f),
                        OptsStep::Done { opts, next } => ParseStep::Chunk {
                            c: ChunkModel {
                                level,
                                h_lo,
                                h_hi,
                                c_lo: b,
                                c_hi: t0,
                                ordered,
                                opts,
                            },
                            next,
                        },
                    }
                }
            }
        },
    }
}

/// Parses one chunk at position `p`.  A heading start opens a headed chunk,
/// whose header runs to the matching heading end; anything else opens a
/// headless chunk whose body starts at `p` itself.
pub open spec fn parse_next_at(toks: Seq<Token>, p: int) -> ParseStep {
    if p < 0 || p >= toks.len() {
        ParseStep::Finished
    } else {
        match toks[p] {
            Token::HeadingStart(lvl) => match heading_end_at(toks, p + 1) {
                None => ParseStep::Fault(ParseFault::Eof(lvl)),
                Some(j) => chunk_after(toks, Some(lvl), p + 1, j, j + 1),
            },
            _ => chunk_after(toks, None, p, p, p),
        }
    }
}

/// Parses every chunk from position `p` to the end of input; the first fault
/// aborts the whole parse.
pub open spec fn parse_chunks_at(toks: Seq<Token>, p: int) -> Result<Seq<ChunkModel>, ParseFault>
    decreases toks.len() - p,
{
    match parse_next_at(toks, p) {
        ParseStep::Finished => Ok(Seq::empty()),
        ParseStep::Fault(f) => Err(f),
        ParseStep::Chunk { c, next } => {
            if p < next <= toks.len() {
                match parse_chunks_at(toks, next) {
                    Ok(rest) => Ok(seq![c] + rest),
                    Err(f) => Err(f),
                }
            } else {
                // never reached: a parsed chunk always advances the cursor
                Ok(seq![c])
            }
        },
    }
}

/// The chunks of the whole document, or its first fault.
pub open spec fn parse_chunks(toks: Seq<Token>) -> Result<Seq<ChunkModel>, ParseFault> {
    parse_chunks_at(toks, 0)
}

/// The mathematical view of an executable open-list stack.
pub open spec fn stack_model(s: Seq<usize>) -> Seq<int> {
    s.map_values(|v: usize| v as int)
}

/// The mathematical view of an executable optional position.
pub open spec fn opt_int(o: Option<usize>) -> Option<int> {
    match o {
        Some(v) => Some(v as int),
        None => None,
    }
}

/// The first heading-end token at or behind `start`, if any.
fn find_heading_end(b: &EventBuffer, start: usize) -> (r: Option<usize>)
    requires
        start <= md_tokens(b.src@).len(),
    ensures
        match r {
            Some(j) => {
                &&& heading_end_at(md_tokens(b.src@), start as int) == Some(j as int)
                &&& start <= j < md_tokens(b.src@).len()
            },
            None => heading_end_at(md_tokens(b.src@), start as int) is None,
        },
{
    let ghost toks = md_tokens(b.src@);
    let len: usize = b.len();
    let mut i: usize = start;
    while i < len
        invariant
            start <= i <= len,
            len == toks.len(),
            toks == md_tokens(b.src@),
            heading_end_at(toks, start as int) == heading_end_at(toks, i as int),
        decreases len - i,
    {
        let t = b.token_at(i);
        if let Token::HeadingEnd(_) = t {
            return Some(i);
        }
        i = i + 1;
    }
    None
}

/// The first item-end token at or behind `start`, if any.
fn find_item_end(b: &EventBuffer, start: usize) -> (r: Option<usize>)
    requires
        start <= md_tokens(b.src@).len(),
    ensures
        match r {
            Some(j) => {
                &&& item_end_at(md_tokens(b.src@), start as int) == Some(j as int)
                &&& start <= j < md_tokens(b.src@).len()
            },
            None => item_end_at(md_tokens(b.src@), start as int) is None,
        },
{
    let ghost toks = md_tokens(b.src@);
    let len: usize = b.len();
    let mut i: usize = start;
    while i < len
        invariant
            start <= i <= len,
            len == toks.len(),
            toks == md_tokens(b.src@),
            item_end_at(toks, start as int) == item_end_at(toks, i as int),
        decreases len - i,
    {
        let t = b.token_at(i);
        if let Token::ItemEnd = t {
            return Some(i);
        }
        i = i + 1;
    }
    None
}

/// Executable outcome of the body scan.
enum ScanOut {
    Fault(ParseFault),
    Done { end: usize, tl_lo: Option<usize>, tl_hi: Option<usize> },
}

/// The body scan of one chunk, from `start`, with a fresh open-list stack.
fn scan_body_x(b: &EventBuffer, start: usize) -> (r: ScanOut)
    requires
        start <= md_tokens(b.src@).len(),
    ensures
        match r {
            ScanOut::Fault(f) => scan_body(md_tokens(b.src@), start as int, Seq::empty(), None, None)
                == ScanStep::Fault(f),
            ScanOut::Done { end, tl_lo, tl_hi } => {
                &&& scan_body(md_tokens(b.src@), start as int, Seq::empty(), None, None)
                    == (ScanStep::Done { end: end as int, tl_lo: opt_int(tl_lo), tl_hi: opt_int(tl_hi) })
                &&& start <= end <= md_tokens(b.src@).len()
                &&& (tl_lo matches Some(v) ==> start <= v < md_tokens(b.src@).len())
                &&& (tl_hi matches Some(v) ==> start <= v <= end)
            },
        },
{
    let ghost toks = md_tokens(b.src@);
    let len: usize = b.len();
    let mut i: usize = start;
    let mut stack: Vec<usize> = Vec::new();
    let mut tl_lo: Option<usize> = None;
    let mut tl_hi: Option<usize> = None;
    proof {
        assert(stack_model(stack@) =~= Seq::<int>::empty());
    }
    while i < len
        invariant
            start <= i <= len,
            len == toks.len(),
            toks == md_tokens(b.src@),
            scan_body(toks, start as int, Seq::empty(), None, None) == scan_body(
                toks,
                i as int,
                stack_model(stack@),
                opt_int(tl_lo),
                opt_int(tl_hi),
            ),
            forall|k: int| 0 <= k < stack@.len() ==> start <= #[trigger] stack@[k] < i,
            tl_lo matches Some(v) ==> start <= v < i,
            tl_hi matches Some(v) ==> start <= v <= i,
        decreases len - i,
    {
        let t = b.token_at(i);
        match t {
            Token::HeadingStart(_) => {
                return ScanOut::Done { end: i, tl_lo, tl_hi };
            },
            Token::ListStart(_) => {
                proof {
                    assert(stack_model(stack@.push(i)) =~= stack_model(stack@).push(i as int));
                }
                stack.push(i);
            },
            Token::ListEnd => {
                if stack.len() == 0 {
                    return ScanOut::Fault(ParseFault::Internal);
                }
                let ghost pre = stack@;
                let closed = stack.pop().unwrap();
                proof {
                    assert(closed as int == stack_model(pre).last());
                    assert(stack_model(stack@) =~= stack_model(pre).drop_last());
                }
                match tl_lo {
                    Some(v) if v == closed => {
                        tl_hi = Some(i + 1);
                    },
                    _ => {},
                }
            },
            Token::TaskMarker(_) => {
                if stack.len() > 1 {
                    return ScanOut::Fault(ParseFault::Nested);
                } else if stack.len() == 0 {
                    return ScanOut::Fault(ParseFault::NoList);
                }
                let first = stack[0];
                match tl_lo {
                    Some(prev) if prev != first => {
                        return ScanOut::Fault(ParseFault::TooMany);
                    },
                    _ => {},
                }
                tl_lo = Some(first);
            },
            _ => {},
        }
        i = i + 1;
    }
    ScanOut::Done { end: len, tl_lo, tl_hi }
}

/// One answer option, as the executable parser records it: the checkbox
/// state and the index range of the option's content tokens.
pub(crate) struct OptEntry {
    pub correct: bool,
    pub lo: usize,
    pub hi: usize,
}

impl OptEntry {
    /// The mathematical view of this option.
    pub(crate) open spec fn model(self) -> OptModel {
        OptModel { correct: self.correct, lo: self.lo as int, hi: self.hi as int }
    }
}

/// The mathematical view of an executable option list.
pub(crate) open spec fn opts_model(s: Seq<OptEntry>) -> Seq<OptModel> {
    s.map_values(|o: OptEntry| o.model())
}

/// Prepends already-collected options to the outcome of the remaining scan.
pub open spec fn opts_prepend(pre: Seq<OptModel>, s: OptsStep) -> OptsStep {
    match s {
        OptsStep::Fault(f) => OptsStep::Fault(f),
        OptsStep::Done { opts, next } => OptsStep::Done { opts: pre + opts, next },
    }
}

proof fn lemma_opts_prepend_assoc(a: Seq<OptModel>, b: Seq<OptModel>, s: OptsStep)
    ensures
        opts_prepend(a, opts_prepend(b, s)) == opts_prepend(a + b, s),
{
    match s {
        OptsStep::Fault(_) => {},
        OptsStep::Done { opts, next } => {
            assert(a + (b + opts) =~= (a + b) + opts);
        },
    }
}

/// Reads the task-list items from `start`, just behind the list start.
fn scan_options_x(b: &EventBuffer, start: usize) -> (r: Result<(Vec<OptEntry>, usize), ParseFault>)
    requires
        start <= md_tokens(b.src@).len(),
    ensures
        match r {
            Ok((opts, next)) => {
                &&& scan_options(md_tokens(b.src@), start as int) == (OptsStep::Done {
                    opts: opts_model(opts@),
                    next: next as int,
                })
                &&& start <= next <= md_tokens(b.src@).len()
                &&& forall|k: int|
                    0 <= k < opts@.len() ==> start <= (#[trigger] opts@[k]).lo <= opts@[k].hi
                        <= md_tokens(b.src@).len()
            },
            Err(f) => scan_options(md_tokens(b.src@), start as int) == OptsStep::Fault(f),
        },
{
    let ghost toks = md_tokens(b.src@);
    let len: usize = b.len();
    let mut i: usize = start;
    let mut acc: Vec<OptEntry> = Vec::new();
    proof {
        assert(opts_model(acc@) =~= Seq::<OptModel>::empty());
    }
    while i < len
        invariant
            start <= i <= len,
            len == toks.len(),
            toks == md_tokens(b.src@),
            opts_prepend(opts_model(acc@), scan_options(toks, i as int)) == scan_options(
                toks,
                start as int,
            ),
            forall|k: int|
                0 <= k < acc@.len() ==> start <= (#[trigger] acc@[k]).lo <= acc@[k].hi <= len,
        decreases len - i,
    {
        let t = b.token_at(i);
        match t {
            Token::ListEnd => {
                proof {
                    assert(opts_model(acc@) + Seq::<OptModel>::empty() =~= opts_model(acc@));
                }
                return Ok((acc, i + 1));
            },
            Token::ItemStart => {
                if i + 1 >= len {
                    return Err(ParseFault::Internal);
                }
                let marker = b.token_at(i + 1);
                let correct: bool = match marker {
                    Token::TaskMarker(c) => c,
                    _ => {
                        return Err(ParseFault::Internal);
                    },
                };
                let j = match find_item_end(b, i + 2) {
                    Some(j) => j,
                    None => {
                        return Err(ParseFault::Internal);
                    },
                };
                let ghost pre = opts_model(acc@);
                let ghost one = seq![OptModel { correct, lo: i + 2, hi: j as int }];
                proof {
                    assert(scan_options(toks, i as int) == opts_prepend(
                        one,
                        scan_options(toks, j + 1),
                    ));
                    lemma_opts_prepend_assoc(pre, one, scan_options(toks, j + 1));
                }
                acc.push(OptEntry { correct, lo: i + 2, hi: j });
                proof {
                    assert(opts_model(acc@) =~= pre + one);
                }
                i = j + 1;
            },
            _ => {
                return Err(ParseFault::Internal);
            },
        }
    }
    proof {
        assert(opts_model(acc@) + Seq::<OptModel>::empty() =~= opts_model(acc@));
    }
    Ok((acc, i))
}

/// One parsed chunk, as the executable parser returns it: the heading level,
/// the header and body-content index ranges, and the task list's options.
pub(crate) struct HeadingChunk {
    pub level: Option<u32>,
    pub h_lo: usize,
    pub h_hi: usize,
    pub c_lo: usize,
    pub c_hi: usize,
    pub ordered: bool,
    pub opts: Vec<OptEntry>,
}

impl HeadingChunk {
    /// The mathematical view of this chunk.
    pub(crate) open spec fn model(self) -> ChunkModel {
        ChunkModel {
            level: self.level,
            h_lo: self.h_lo as int,
            h_hi: self.h_hi as int,
            c_lo: self.c_lo as int,
            c_hi: self.c_hi as int,
            ordered: self.ordered,
            opts: opts_model(self.opts@),
        }
    }

    /// All of the chunk's index ranges lie within a token sequence of length
    /// `n`.
    pub(crate) open spec fn wf(self, n: nat) -> bool {
        &&& 0 <= self.h_lo <= self.h_hi <= n
        &&& 0 <= self.c_lo <= self.c_hi <= n
        &&& forall|k: int|
            0 <= k < self.opts@.len() ==> 0 <= (#[trigger] self.opts@[k]).lo <= self.opts@[k].hi
                <= n
    }
}

/// Parses one chunk at position `p`: `Ok(None)` at end of input, otherwise
/// the chunk and the cursor position behind it, or the first fault.
pub(crate) fn parse_next_x(b: &EventBuffer, p: usize) -> (r: Result<
    Option<(HeadingChunk, usize)>,
    ParseFault,
>)
    requires
        p <= md_tokens(b.src@).len(),
    ensures
        match r {
            Ok(None) => parse_next_at(md_tokens(b.src@), p as int) is Finished,
            Ok(Some((c, np))) => {
                &&& parse_next_at(md_tokens(b.src@), p as int) == (ParseStep::Chunk {
                    c: c.model(),
                    next: np as int,
                })
                &&& p < np <= md_tokens(b.src@).len()
                &&& c.wf(md_tokens(b.src@).len())
            },
            Err(f) => parse_next_at(md_tokens(b.src@), p as int) == ParseStep::Fault(f),
        },
{
    let ghost toks = md_tokens(b.src@);
    let len: usize = b.len();
    if p >= len {
        return Ok(None);
    }
    let level: Option<u32>;
    let h_lo: usize;
    let h_hi: usize;
    let body: usize;
    let t = b.token_at(p);
    if let Token::HeadingStart(lvl) = t {
        match find_heading_end(b, p + 1) {
            None => {
                return Err(ParseFault::Eof(lvl));
            },
            Some(j) => {
                level = Some(lvl);
                h_lo = p + 1;
                h_hi = j;
                body = j + 1;
            },
        }
    } else {
        level = None;
        h_lo = p;
        h_hi = p;
        body = p;
    }
    let (end, tl_lo, tl_hi) = match scan_body_x(b, body) {
        ScanOut::Fault(f) => {
            return Err(f);
        },
        ScanOut::Done { end, tl_lo, tl_hi } => (end, tl_lo, tl_hi),
    };
    let t0: usize = match tl_lo {
        Some(v) => v,
        None => {
            return Err(ParseFault::NoOptions);
        },
    };
    let t1: usize = match tl_hi {
        Some(v) => v,
        None => {
            return Err(ParseFault::NoOptions);
        },
    };
    if t1 != end {
        return Err(ParseFault::Ignored);
    }
    let list_tok = b.token_at(t0);
    let ordered: bool = match list_tok {
        Token::ListStart(n) => n.is_some(),
        _ => {
            return Err(ParseFault::Internal);
        },
    };
    match scan_options_x(b, t0 + 1) {
        Err(f) => Err(f),
        Ok((opts, next)) => {
            let c = HeadingChunk { level, h_lo, h_hi, c_lo: body, c_hi: t0, ordered, opts };
            Ok(Some((c, next)))
        },
    }
}

/// The mathematical view of a finished question: its rendered prompt, the
/// ordered flag, and each option's correctness flag and rendered content.
pub struct QModel {
    pub prompt: Seq<char>,
    pub ordered: bool,
    pub opts: Seq<(bool, Seq<char>)>,
}

/// The tag a chunk's rendered header is wrapped in: the heading tag of its
/// level, or an emphasized-text wrapper for a headless chunk.
pub open spec fn open_tag(level: Option<u32>) -> Seq<char> {
    match level {
        Some(l) => "<h"@ + dec_str(l as nat) + ">"@,
        None => "<b><i>"@,
    }
}

/// The closing counterpart of `open_tag`.
pub open spec fn close_tag(level: Option<u32>) -> Seq<char> {
    match level {
        Some(l) => "</h"@ + dec_str(l as nat) + ">"@,
        None => "</i></b>"@,
    }
}

/// The HTML of the token range `[lo, hi)` of the tokenized source, rendered
/// through the syntax-highlight pipeline.
pub open spec fn range_html(
    src: Seq<char>,
    lo: int,
    hi: int,
    theme: Seq<char>,
    dlang: Seq<char>,
) -> Seq<char> {
    rendered_html(src, spec_plan(md_tokens(src), lo, hi, theme, dlang))
}

/// The finished question a chunk turns into: the wrapped header followed by
/// the body content forms the prompt, and each option's content renders into
/// an option.
pub open spec fn question_model(
    src: Seq<char>,
    cm: ChunkModel,
    theme: Seq<char>,
    dlang: Seq<char>,
) -> QModel {
    QModel {
        prompt: open_tag(cm.level) + range_html(src, cm.h_lo, cm.h_hi, theme, dlang) + close_tag(
            cm.level,
        ) + range_html(src, cm.c_lo, cm.c_hi, theme, dlang),
        ordered: cm.ordered,
        opts: cm.opts.map_values(
            |o: OptModel| (o.correct, range_html(src, o.lo, o.hi, theme, dlang)),
        ),
    }
}

/// The mathematical view of an option list: each option's correctness flag
/// and the view of its rendered content.
pub open spec fn q_opts_view(s: Seq<QOption>) -> Seq<(bool, Seq<char>)> {
    s.map_values(|o: QOption| (o.correct, o.content@))
}

/// The mathematical view of a `Question` value.
pub open spec fn q_view(q: Question) -> QModel {
    QModel { prompt: q.prompt@, ordered: q.ordered, opts: q_opts_view(q.options@) }
}

proof fn lemma_q_opts_view_push(s: Seq<QOption>, o: QOption)
    ensures
        q_opts_view(s.push(o)) == q_opts_view(s).push((o.correct, o.content@)),
{
    assert(q_opts_view(s.push(o)) =~= q_opts_view(s).push((o.correct, o.content@)));
}

impl HeadingChunk {
    /// Builds the finished question of this chunk: the header rendered
    /// inside its wrapping tag, the body content right behind it, and each
    /// option's content rendered into an option.
    pub(crate) fn finish(&self, b: &EventBuffer, hl: &SyntaxHighlighter) -> (q: Question)
        requires
            self.wf(md_tokens(b.src@).len()),
        ensures
            q_view(q) == question_model(b.src@, self.model(), hl.theme_view(), hl.lang_view()),
    {
        let ghost src = b.src@;
        let ghost theme = hl.theme_view();
        let ghost dlang = hl.lang_view();
        let ghost qm = question_model(src, self.model(), theme, dlang);
        let mut prompt = String::new();
        if let Some(lvl) = self.level {
            push_str(&mut prompt, "<h");
            let digits = u64_to_dec(lvl as u64);
            push_str(&mut prompt, digits.as_str());
            push_str(&mut prompt, ">");
        } else {
            push_str(&mut prompt, "<b><i>");
        }
        proof {
            assert(prompt@ =~= open_tag(self.level));
        }
        syntax_highlight_html(&mut prompt, hl, b, self.h_lo, self.h_hi);
        if let Some(lvl) = self.level {
            push_str(&mut prompt, "</h");
            let digits = u64_to_dec(lvl as u64);
            push_str(&mut prompt, digits.as_str());
            push_str(&mut prompt, ">");
        } else {
            push_str(&mut prompt, "</i></b>");
        }
        proof {
            assert(prompt@ =~= open_tag(self.level) + range_html(
                src,
                self.h_lo as int,
                self.h_hi as int,
                theme,
                dlang,
            ) + close_tag(self.level));
        }
        syntax_highlight_html(&mut prompt, hl, b, self.c_lo, self.c_hi);
        proof {
            assert(prompt@ =~= qm.prompt);
        }
        let mut options: Vec<QOption> = Vec::new();
        let mut k: usize = 0;
        proof {
            assert(q_opts_view(options@) =~= qm.opts.take(0));
        }
        while k < self.opts.len()
            invariant
                0 <= k <= self.opts@.len(),
                self.wf(md_tokens(b.src@).len()),
                src == b.src@,
                theme == hl.theme_view(),
                dlang == hl.lang_view(),
                qm == question_model(src, self.model(), theme, dlang),
                qm.opts.len() == self.opts@.len(),
                q_opts_view(options@) == qm.opts.take(k as int),
            decreases self.opts@.len() - k,
        {
            let ghost opts_pre = options@;
            let correct = self.opts[k].correct;
            let lo = self.opts[k].lo;
            let hi = self.opts[k].hi;
            let mut content = String::new();
            syntax_highlight_html(&mut content, hl, b, lo, hi);
            let ghost cview = content@;
            proof {
                assert(cview =~= range_html(src, lo as int, hi as int, theme, dlang));
                assert(qm.opts[k as int] == (correct, cview));
            }
            let pushed = QOption { correct, content };
            proof {
                lemma_q_opts_view_push(opts_pre, pushed);
            }
            options.push(pushed);
            proof {
                assert(q_opts_view(options@) =~= qm.opts.take(k as int).push((correct, cview)));
                assert(qm.opts.take(k + 1) =~= qm.opts.take(k as int).push(qm.opts[k as int]));
            }
            k = k + 1;
        }
        proof {
            assert(qm.opts.take(self.opts@.len() as int) =~= qm.opts);
        }
        let q = Question { prompt, options, ordered: self.ordered };
        proof {
            assert(q_view(q) == qm);
        }
        q
    }
}

} // verus!
