//! The syntax-highlight render pipeline.
//!
//! A flat event range is rewritten into a render plan: code-block bodies are
//! accumulated verbatim and replaced, as one unit, by highlighted raw-HTML
//! markup; inline code spans are highlighted individually; every other event
//! passes through by its buffer index.  The plan is then handed, together
//! with the event buffer, to the generic markdown-to-HTML serializer.
//!
//! The highlighter itself is syntect, loaded eagerly from its built-in theme
//! and syntax tables; a theme that is not built in fails construction, while
//! an unknown language falls back silently to plain-text highlighting.

use vstd::prelude::*;

use crate::text::push_str;
use crate::tokens::{md_tokens, EventBuffer, Token};
use crate::Error;

verus! {

#[verifier::external_type_specification]
#[verifier::external_body]
pub struct ExSyntaxSet(syntect::parsing::SyntaxSet);

#[verifier::external_type_specification]
#[verifier::external_body]
pub struct ExThemeSet(syntect::highlighting::ThemeSet);

/// Whether the name is one of syntect's built-in themes (a key of
/// `ThemeSet::load_defaults()`); that table is fixed, so this is a function
/// of the name alone.
pub uninterp spec fn is_builtin_theme(name: Seq<char>) -> bool;

/// The HTML that syntect produces for a code block, as a function of the
/// built-in theme's name, the requested language token, and the code; an
/// unknown language falls back to plain text inside this function.
pub uninterp spec fn highlighted_block(theme: Seq<char>, lang: Seq<char>, code: Seq<char>) -> Seq<
    char,
>;

/// The HTML that syntect produces for an inline code span, wrapped for
/// inline display, as a function of the built-in theme's name, the default
/// language token, and the code.
pub uninterp spec fn highlighted_inline(theme: Seq<char>, lang: Seq<char>, code: Seq<char>) -> Seq<
    char,
>;

/// One step of a render plan: an event of the tokenized source passed
/// through by index, or a pre-highlighted piece of raw HTML.
pub enum PlanItem {
    Pass(int),
    Html(Seq<char>),
}

/// The HTML that the markdown serializer produces for a render plan over the
/// tokenized source text.  Tokenization and serialization are deterministic,
/// so this is a function of the source text and the plan alone.
pub uninterp spec fn rendered_html(source: Seq<char>, plan: Seq<PlanItem>) -> Seq<char>;

/// Options for syntax highlighting: the theme, and the language assumed for
/// inline code and for code blocks that do not name one.
#[derive(Debug, Clone)]
pub struct SyntaxHighlightingOptions {
    pub theme: String,
    pub default_lang: String,
}

impl Default for SyntaxHighlightingOptions {
    /// The default options: the `InspiredGitHub` theme and plain text.
    fn default() -> (r: Self)
        ensures
            r.theme@ == "InspiredGitHub"@,
            r.default_lang@ == "text"@,
    {
        SyntaxHighlightingOptions {
            default_lang: "text".to_owned(),
            theme: "InspiredGitHub".to_owned(),
        }
    }
}

/// A loaded highlighter: syntect's built-in syntax and theme tables, the
/// chosen theme's name, and the default language.  Built only by
/// `SyntaxHighlightingOptions::create`, which fails unless the theme is
/// built in; the tables are always the built-in defaults, so the highlighted
/// output is a function of the theme name, the language and the code.
pub struct SyntaxHighlighter {
    ss: syntect::parsing::SyntaxSet,
    ts: syntect::highlighting::ThemeSet,
    theme: String,
    default_lang: String,
}

impl SyntaxHighlighter {
    /// The chosen theme's name.
    pub closed spec fn theme_view(&self) -> Seq<char> {
        self.theme@
    }

    /// The configured default language.
    pub closed spec fn lang_view(&self) -> Seq<char> {
        self.default_lang@
    }

    #[verifier::type_invariant]
    spec fn inv(self) -> bool {
        is_builtin_theme(self.theme@)
    }

    /// Relies on syntect's `ThemeSet` index and
    /// `highlighted_html_for_string`: highlights the code with the requested
    /// language, falling back to plain text when no syntax matches the
    /// token.  The theme lookup cannot fail: `create` admits only built-in
    /// theme names, which the `requires` restates.
    #[verifier::external_body]
    fn highlight(&self, lang: &str, code: &str) -> (r: String)
        requires
            is_builtin_theme(self.theme_view()),
        ensures
            r@ == highlighted_block(self.theme_view(), lang@, code@),
    {
        let theme = &self.ts.themes[self.theme.as_str()];
        let syntax_ref = self
            .ss
            .find_syntax_by_token(lang)
            .unwrap_or_else(|| self.ss.find_syntax_plain_text());
        syntect::html::highlighted_html_for_string(code, &self.ss, syntax_ref, theme)
    }

    /// Relies on syntect's `HighlightLines`,
    /// `start_highlighted_html_snippet` and
    /// `append_highlighted_html_for_styled_line`: highlights an inline code
    /// span with the default language and rewraps the `<pre>` opening that
    /// the snippet helper produces into a `<code>` element.  The theme
    /// lookup cannot fail: `create` admits only built-in theme names.
    #[verifier::external_body]
    fn highlight_inline(&self, code: &str) -> (r: String)
        requires
            is_builtin_theme(self.theme_view()),
        ensures
            r@ == highlighted_inline(self.theme_view(), self.lang_view(), code@),
    {
        let theme = &self.ts.themes[self.theme.as_str()];
        let found = self.ss.find_syntax_by_token(&self.default_lang);
        let sr = found.unwrap_or_else(|| self.ss.find_syntax_plain_text());
        let mut highlighter = syntect::easy::HighlightLines::new(sr, theme);
        let (pre_start, bg) = syntect::html::start_highlighted_html_snippet(theme);
        let mut output = String::from("<code ");
        output.push_str(pre_start[4..].trim());
        let regions = highlighter.highlight(code, &self.ss);
        let ib = syntect::html::IncludeBackground::IfDifferent(bg);
        syntect::html::append_highlighted_html_for_styled_line(&regions[..], ib, &mut output);
        output.push_str("</code>\n");
        output
    }
}

impl SyntaxHighlightingOptions {
    /// Relies on `ThemeSet::load_defaults`, its `themes` map, and
    /// `SyntaxSet::load_defaults_newlines`: loads the built-in tables
    /// eagerly, and fails with `MissingSyntaxTheme` exactly when the
    /// requested theme is not a key of the built-in theme table.
    #[verifier::external_body]
    pub fn create(&self) -> (r: Result<SyntaxHighlighter, Error>)
        ensures
            match r {
                Ok(h) => {
                    &&& is_builtin_theme(self.theme@)
                    &&& h.theme_view() == self.theme@
                    &&& h.lang_view() == self.default_lang@
                },
                Err(e) => {
                    &&& !is_builtin_theme(self.theme@)
                    &&& (e matches Error::MissingSyntaxTheme(t) && t@ == self.theme@)
                },
            },
    {
        let ts = syntect::highlighting::ThemeSet::load_defaults();
        if ts.themes.get(&self.theme).is_none() {
            return Err(Error::MissingSyntaxTheme(self.theme.clone()));
        }
        Ok(SyntaxHighlighter {
            ss: syntect::parsing::SyntaxSet::load_defaults_newlines(),
            ts,
            theme: self.theme.clone(),
            default_lang: self.default_lang.clone(),
        })
    }
}

/// Relies on `ThemeSet::load_defaults` and `BTreeMap::keys`: the built-in
/// theme names, in the map's ascending key order.  The names are ASCII, so
/// the map's byte order coincides with the character order of `str_lt`.
#[verifier::external_body]
pub(crate) fn builtin_theme_names() -> (r: Vec<String>)
    ensures
        forall|k: int| 0 <= k < r@.len() ==> is_builtin_theme((#[trigger] r@[k])@),
        forall|s: Seq<char>|
            is_builtin_theme(s) ==> exists|k: int| 0 <= k < r@.len() && (#[trigger] r@[k])@ == s,
        forall|k1: int, k2: int|
            0 <= k1 < k2 < r@.len() ==> crate::text::str_lt(r@[k1]@, r@[k2]@),
{
    syntect::highlighting::ThemeSet::load_defaults().themes.keys().cloned().collect()
}

/// One step of an executable render plan.
pub(crate) enum RenderItem {
    Pass(usize),
    Html(String),
}

/// The mathematical view of one plan step.
pub(crate) open spec fn item_view(r: RenderItem) -> PlanItem {
    match r {
        RenderItem::Pass(i) => PlanItem::Pass(i as int),
        RenderItem::Html(s) => PlanItem::Html(s@),
    }
}

/// The mathematical view of an executable render plan.
pub(crate) open spec fn plan_view(p: Seq<RenderItem>) -> Seq<PlanItem> {
    p.map_values(|r: RenderItem| item_view(r))
}

/// The language a code block is highlighted with: the fence's tag, or the
/// default language for an indented block or an empty tag.
pub open spec fn lang_view(kind: Option<String>, dlang: Seq<char>) -> Seq<char> {
    match kind {
        None => dlang,
        Some(l) => if l@.len() == 0 {
            dlang
        } else {
            l@
        },
    }
}

/// The first index in `[i, hi)` whose token ends a code block, or `hi`.
pub open spec fn code_end_at(toks: Seq<Token>, i: int, hi: int) -> int
    decreases hi - i,
{
    if i < 0 || i >= hi {
        hi
    } else if toks[i] is CodeBlockEnd {
        i
    } else {
        code_end_at(toks, i + 1, hi)
    }
}

/// The text of a code block: the `Text` payloads in `[i, j)`, concatenated;
/// a conforming tokenizer emits nothing else between a code block's start
/// and end, and anything else contributes nothing.
pub open spec fn code_text(toks: Seq<Token>, i: int, j: int) -> Seq<char>
    decreases j - i,
{
    if i < 0 || i >= j {
        Seq::empty()
    } else {
        (match toks[i] {
            Token::Text(s) => s@,
            _ => Seq::empty(),
        }) + code_text(toks, i + 1, j)
    }
}

/// The render plan of the token range `[i, hi)`: a code-block start consumes
/// the block up to its end and becomes one highlighted HTML item, an inline
/// code span becomes one highlighted HTML item, and every other token passes
/// through by index.
pub open spec fn spec_plan(
    toks: Seq<Token>,
    i: int,
    hi: int,
    theme: Seq<char>,
    dlang: Seq<char>,
) -> Seq<PlanItem>
    decreases hi - i,
{
    if i < 0 || i >= hi {
        Seq::empty()
    } else {
        match toks[i] {
            Token::CodeBlockStart(k) => {
                let j = code_end_at(toks, i + 1, hi);
                let item = PlanItem::Html(
                    highlighted_block(theme, lang_view(k, dlang), code_text(toks, i + 1, j)),
                );
                if i < j && j + 1 <= hi {
                    seq![item] + spec_plan(toks, j + 1, hi, theme, dlang)
                } else {
                    seq![item]
                }
            },
            Token::Code(s) => seq![PlanItem::Html(highlighted_inline(theme, dlang, s@))]
                + spec_plan(toks, i + 1, hi, theme, dlang),
            _ => seq![PlanItem::Pass(i)] + spec_plan(toks, i + 1, hi, theme, dlang),
        }
    }
}

proof fn lemma_code_text_snoc(toks: Seq<Token>, i: int, j: int)
    requires
        0 <= i <= j,
    ensures
        code_text(toks, i, j + 1) == code_text(toks, i, j) + (match toks[j] {
            Token::Text(s) => s@,
            _ => Seq::empty(),
        }),
    decreases j - i,
{
    let tail = (match toks[j] {
        Token::Text(s) => s@,
        _ => Seq::empty(),
    });
    if i == j {
        assert(code_text(toks, i, j) + tail =~= tail);
        assert(code_text(toks, i, j + 1) =~= tail);
    } else {
        lemma_code_text_snoc(toks, i + 1, j);
        let head = (match toks[i] {
            Token::Text(s) => s@,
            _ => Seq::empty(),
        });
        assert(code_text(toks, i, j + 1) == head + code_text(toks, i + 1, j + 1));
        assert(head + (code_text(toks, i + 1, j) + tail) =~= (head + code_text(toks, i + 1, j))
            + tail);
    }
}

/// Builds the render plan of the token range `[lo, hi)`, highlighting code
/// blocks and inline code spans along the way.
fn build_plan(b: &EventBuffer, hl: &SyntaxHighlighter, lo: usize, hi: usize) -> (plan: Vec<
    RenderItem,
>)
    requires
        lo <= hi <= md_tokens(b.src@).len(),
        is_builtin_theme(hl.theme_view()),
    ensures
        plan_view(plan@) == spec_plan(
            md_tokens(b.src@),
            lo as int,
            hi as int,
            hl.theme_view(),
            hl.lang_view(),
        ),
        forall|k: int|
            0 <= k < plan@.len() ==> ((#[trigger] plan@[k]) matches RenderItem::Pass(i) ==> lo <= i
                < hi),
{
    let ghost toks = md_tokens(b.src@);
    let ghost theme = hl.theme_view();
    let ghost dlang = hl.lang_view();
    let mut plan: Vec<RenderItem> = Vec::new();
    let mut i: usize = lo;
    proof {
        assert(plan_view(plan@) =~= Seq::<PlanItem>::empty());
    }
    while i < hi
        invariant
            lo <= i <= hi <= toks.len(),
            toks == md_tokens(b.src@),
            theme == hl.theme_view(),
            dlang == hl.lang_view(),
            is_builtin_theme(theme),
            plan_view(plan@) + spec_plan(toks, i as int, hi as int, theme, dlang) == spec_plan(
                toks,
                lo as int,
                hi as int,
                theme,
                dlang,
            ),
            forall|k: int|
                0 <= k < plan@.len() ==> ((#[trigger] plan@[k]) matches RenderItem::Pass(p) ==> lo
                    <= p < hi),
        decreases hi - i,
    {
        let ghost plan_pre = plan@;
        let t = b.token_at(i);
        match t {
            Token::CodeBlockStart(kind) => {
                let lang: &str = match &kind {
                    None => hl.default_lang.as_str(),
                    Some(l) => if l.as_str().is_empty() {
                        hl.default_lang.as_str()
                    } else {
                        l.as_str()
                    },
                };
                assert(lang@ == lang_view(kind, dlang));
                let mut code = String::new();
                let mut j: usize = i + 1;
                let mut found_end: bool = false;
                while j < hi && !found_end
                    invariant
                        i + 1 <= j <= hi <= toks.len(),
                        toks == md_tokens(b.src@),
                        code@ == code_text(toks, i + 1 as int, j as int),
                        !found_end ==> code_end_at(toks, i + 1 as int, hi as int) == code_end_at(
                            toks,
                            j as int,
                            hi as int,
                        ),
                        found_end ==> code_end_at(toks, i + 1 as int, hi as int) == j as int,
                        found_end ==> j < hi,
                    decreases hi - j, (if found_end { 0int } else { 1int }),
                {
                    let u = b.token_at(j);
                    match u {
                        Token::CodeBlockEnd => {
                            found_end = true;
                        },
                        Token::Text(s) => {
                            proof {
                                lemma_code_text_snoc(toks, i + 1 as int, j as int);
                            }
                            push_str(&mut code, s.as_str());
                            j = j + 1;
                        },
                        _ => {
                            proof {
                                lemma_code_text_snoc(toks, i + 1 as int, j as int);
                            }
                            j = j + 1;
                        },
                    }
                }
                let ghost jj = code_end_at(toks, i + 1 as int, hi as int);
                proof {
                    assert(jj == j as int);
                }
                let html = hl.highlight(lang, code.as_str());
                plan.push(RenderItem::Html(html));
                proof {
                    assert(plan_view(plan@) =~= plan_view(plan_pre) + seq![
                        item_view(RenderItem::Html(html)),
                    ]);
                    assert((plan_view(plan_pre) + seq![item_view(RenderItem::Html(html))])
                        + spec_plan(toks, jj + 1, hi as int, theme, dlang) =~= plan_view(plan_pre)
                        + (seq![item_view(RenderItem::Html(html))] + spec_plan(
                        toks,
                        jj + 1,
                        hi as int,
                        theme,
                        dlang,
                    )));
                }
                if found_end {
                    i = j + 1;
                } else {
                    proof {
                        assert(spec_plan(toks, jj + 1, hi as int, theme, dlang)
                            =~= Seq::<PlanItem>::empty());
                        assert(plan_view(plan_pre) + (seq![item_view(RenderItem::Html(html))]
                            + Seq::<PlanItem>::empty()) =~= plan_view(plan_pre) + seq![
                            item_view(RenderItem::Html(html)),
                        ]);
                    }
                    i = hi;
                }
            },
            Token::Code(s) => {
                let html = hl.highlight_inline(s.as_str());
                plan.push(RenderItem::Html(html));
                proof {
                    assert(plan_view(plan@) =~= plan_view(plan_pre) + seq![
                        item_view(RenderItem::Html(html)),
                    ]);
                    assert((plan_view(plan_pre) + seq![item_view(RenderItem::Html(html))])
                        + spec_plan(toks, i + 1 as int, hi as int, theme, dlang) =~= plan_view(
                        plan_pre,
                    ) + (seq![item_view(RenderItem::Html(html))] + spec_plan(
                        toks,
                        i + 1 as int,
                        hi as int,
                        theme,
                        dlang,
                    )));
                }
                i = i + 1;
            },
            _ => {
                plan.push(RenderItem::Pass(i));
                proof {
                    assert(plan_view(plan@) =~= plan_view(plan_pre) + seq![
                        item_view(RenderItem::Pass(i)),
                    ]);
                    assert((plan_view(plan_pre) + seq![item_view(RenderItem::Pass(i))])
                        + spec_plan(toks, i + 1 as int, hi as int, theme, dlang) =~= plan_view(
                        plan_pre,
                    ) + (seq![item_view(RenderItem::Pass(i))] + spec_plan(
                        toks,
                        i + 1 as int,
                        hi as int,
                        theme,
                        dlang,
                    )));
                }
                i = i + 1;
            },
        }
    }
    proof {
        assert(plan_view(plan@) + Seq::<PlanItem>::empty() =~= plan_view(plan@));
    }
    plan
}

/// Relies on pulldown_cmark's `html::push_html`: serializes the plan —
/// pass-through events are taken from the buffer by index, highlighted
/// pieces become raw-HTML events — and appends the result to `out`.
#[verifier::external_body]
fn render_into(out: &mut String, b: &EventBuffer, plan: &Vec<RenderItem>)
    requires
        forall|k: int|
            0 <= k < plan@.len() ==> ((#[trigger] plan@[k]) matches RenderItem::Pass(i) ==> i
                < md_tokens(b.src@).len()),
    ensures
        final(out)@ == old(out)@ + rendered_html(b.src@, plan_view(plan@)),
{
    let events: Vec<pulldown_cmark::Event> = plan
        .iter()
        .map(|p| match p {
            RenderItem::Pass(i) => b.events.0[*i].clone(),
            RenderItem::Html(s) => pulldown_cmark::Event::Html(pulldown_cmark::CowStr::from(
                s.as_str().to_owned(),
            )),
        })
        .collect();
    pulldown_cmark::html::push_html(out, events.into_iter());
}

/// Rewrites the token range `[lo, hi)` — code blocks and inline code spans
/// replaced by highlighted HTML, everything else passed through — and
/// appends the serialized HTML to `output`.
pub(crate) fn syntax_highlight_html(
    output: &mut String,
    hl: &SyntaxHighlighter,
    b: &EventBuffer,
    lo: usize,
    hi: usize,
)
    requires
        lo <= hi <= md_tokens(b.src@).len(),
    ensures
        final(output)@ == old(output)@ + rendered_html(
            b.src@,
            spec_plan(md_tokens(b.src@), lo as int, hi as int, hl.theme_view(), hl.lang_view()),
        ),
{
    proof {
        use_type_invariant(hl);
    }
    let plan = build_plan(b, hl, lo, hi);
    render_into(output, b, &plan);
}

impl SyntaxHighlighter {
    /// Tokenizes the text and renders it whole: the highlighted rewrite of
    /// its events, serialized to HTML and appended to `output`.
    pub fn render(&self, output: &mut String, text: &str)
        ensures
            final(output)@ == old(output)@ + rendered_html(
                text@,
                spec_plan(
                    md_tokens(text@),
                    0,
                    md_tokens(text@).len() as int,
                    self.theme_view(),
                    self.lang_view(),
                ),
            ),
    {
        let b = crate::tokens::tokenize(text);
        let len: usize = b.len();
        syntax_highlight_html(output, self, &b, 0, len);
    }
}

} // verus!
