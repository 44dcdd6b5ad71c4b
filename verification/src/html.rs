//! The HTML preview renderer.
//!
//! Each question becomes one container block holding its prompt and a list
//! of its options, rendered as checkboxes with the correct ones pre-checked
//! — a preview, not a live quiz.  The full-page variant wraps the output in
//! document boilerplate; the snippet variant omits it.

use vstd::prelude::*;

use crate::text::{dec_str, push_str, quote_name, quoted, u64_to_dec};
use crate::{Error, Question};

verus! {

/// The list element one option renders to.  All options of one question
/// share the question's index in their element ids.
pub open spec fn option_html(correct: bool, content: Seq<char>, i: nat) -> Seq<char> {
    "<li class='quizdown-option'>\n                    <input id='opt"@ + dec_str(i)
        + "' type='checkbox' "@ + (if correct {
        "checked"@
    } else {
        Seq::empty()
    }) + " />\n                    <label class='quizdown-label' for='opt"@ + dec_str(i) + "'>"@
        + content + "</label>\n                </li>\n"@
}

/// The options of one question from position `k` on, each rendered as a
/// list element.
pub open spec fn options_html(opts: Seq<crate::QOption>, i: nat, k: int) -> Seq<char>
    decreases opts.len() - k,
{
    if k < 0 || k >= opts.len() {
        Seq::empty()
    } else {
        option_html(opts[k].correct, opts[k].content@, i) + options_html(opts, i, k + 1)
    }
}

/// The container block one question renders to: its prompt, then its
/// options as an ordered or unordered checkbox list.
pub open spec fn question_html(q: Question, i: nat) -> Seq<char> {
    "<div class='quizdown-question'>"@ + "<div class='quizdown-prompt'>"@ + q.prompt@ + "</div>\n"@
        + (if q.ordered {
        "<ol>"@
    } else {
        "<ul>"@
    }) + options_html(q.options@, i, 0) + (if q.ordered {
        "</ol>"@
    } else {
        "</ul>"@
    }) + "</div><hr />"@
}

/// The question blocks from position `k` on, in document order.
pub open spec fn questions_html(qs: Seq<Question>, k: int) -> Seq<char>
    decreases qs.len() - k,
{
    if k < 0 || k >= qs.len() {
        Seq::empty()
    } else {
        question_html(qs[k], k as nat) + questions_html(qs, k + 1)
    }
}

/// The whole preview: an optional document head, a loaded-from marker with
/// the quoted name, the question blocks, and an optional document tail.
pub open spec fn html_preview_str(name: Seq<char>, qs: Seq<Question>, full: bool) -> Seq<char> {
    (if full {
        "<html>\n            <head>\n                <title>Quizdown</title>\n                <meta charset=\"utf-8\" />\n            </head>\n            <body>"@
    } else {
        Seq::empty()
    }) + "<i class='quizdown-loaded'>Loaded from "@ + quoted(name) + "</i>\n"@ + questions_html(
        qs,
        0,
    ) + (if full {
        "</body></html>"@
    } else {
        Seq::empty()
    })
}

/// Renders the questions as an HTML preview, with document boilerplate when
/// `full_page` is set.
pub fn render_html_preview(name: &str, questions: &[Question], full_page: bool) -> (r: Result<
    String,
    Error,
>)
    ensures
        r matches Ok(s) && s@ == html_preview_str(name@, questions@, full_page),
{
    let mut output = String::new();
    if full_page {
        push_str(
            &mut output,
            "<html>\n            <head>\n                <title>Quizdown</title>\n                <meta charset=\"utf-8\" />\n            </head>\n            <body>",
        );
    }
    push_str(&mut output, "<i class='quizdown-loaded'>Loaded from ");
    let qname = quote_name(name);
    push_str(&mut output, qname.as_str());
    push_str(&mut output, "</i>\n");
    let ghost head = output@;
    let mut i: usize = 0;
    while i < questions.len()
        invariant
            0 <= i <= questions@.len(),
            output@ + questions_html(questions@, i as int) == head + questions_html(
                questions@,
                0,
            ),
        decreases questions@.len() - i,
    {
        let ghost out_pre = output@;
        let q = &questions[i];
        push_str(&mut output, "<div class='quizdown-question'>");
        push_str(&mut output, "<div class='quizdown-prompt'>");
        push_str(&mut output, q.prompt.as_str());
        push_str(&mut output, "</div>\n");
        if q.ordered {
            push_str(&mut output, "<ol>");
        } else {
            push_str(&mut output, "<ul>");
        }
        let ghost mid = output@;
        let mut k: usize = 0;
        while k < q.options.len()
            invariant
                0 <= k <= q.options@.len(),
                q == questions@[i as int],
                i < questions@.len(),
                output@ + options_html(q.options@, i as nat, k as int) == mid + options_html(
                    q.options@,
                    i as nat,
                    0,
                ),
            decreases q.options@.len() - k,
        {
            let ghost opt_pre = output@;
            let correct = q.options[k].correct;
            push_str(
                &mut output,
                "<li class='quizdown-option'>\n                    <input id='opt",
            );
            let idx = u64_to_dec(i as u64);
            push_str(&mut output, idx.as_str());
            push_str(&mut output, "' type='checkbox' ");
            if correct {
                push_str(&mut output, "checked");
            }
            push_str(&mut output, " />\n                    <label class='quizdown-label' for='opt");
            push_str(&mut output, idx.as_str());
            push_str(&mut output, "'>");
            push_str(&mut output, q.options[k].content.as_str());
            push_str(&mut output, "</label>\n                </li>\n");
            proof {
                assert(output@ =~= opt_pre + option_html(
                    q.options@[k as int].correct,
                    q.options@[k as int].content@,
                    i as nat,
                ));
                assert(output@ + options_html(q.options@, i as nat, k + 1) =~= opt_pre
                    + options_html(q.options@, i as nat, k as int));
            }
            k = k + 1;
        }
        if q.ordered {
            push_str(&mut output, "</ol>");
        } else {
            push_str(&mut output, "</ul>");
        }
        push_str(&mut output, "</div><hr />");
        proof {
            assert(options_html(q.options@, i as nat, q.options@.len() as int) =~= Seq::empty());
            assert(output@ =~= out_pre + question_html(questions@[i as int], i as nat));
            assert(output@ + questions_html(questions@, i + 1) =~= out_pre + questions_html(
                questions@,
                i as int,
            ));
        }
        i = i + 1;
    }
    proof {
        assert(questions_html(questions@, questions@.len() as int) =~= Seq::empty());
    }
    if full_page {
        push_str(&mut output, "</body></html>");
    }
    proof {
        assert(output@ =~= html_preview_str(name@, questions@, full_page));
    }
    Ok(output)
}

} // verus!
