//! The `markdown` action module: renders lines as HTML.

use crate::plugin::{FrontendType, PluginType};
use crate::record::{Action, ActionLine, ActionLineV};
use crate::script::sp_trim;
use vstd::prelude::*;

verus! {

/// The rendered HTML of a Markdown string; it depends on the string
/// alone.
pub uninterp spec fn html_of(s: Seq<char>) -> Seq<char>;

/// Relies on `pulldown_cmark::Parser::new` and
/// `pulldown_cmark::html::push_html`: the rendered HTML of a Markdown
/// string, a function of the string alone.
#[verifier::external_body]
fn markdown_to_html(s: &String) -> (r: String)
    ensures
        r@ == html_of(s@),
{
    let mut out = String::new();
    pulldown_cmark::html::push_html(&mut out, pulldown_cmark::Parser::new(s.as_str()));
    out
}

/// The kinds this module advertises: the action pipeline only.
pub fn plugin_type() -> (r: PluginType)
    ensures
        r.deep_view().action,
        !r.deep_view().game,
        r.deep_view().text.len() == 0,
        r.deep_view().line.len() == 0,
{
    let mut t = PluginType::script();
    t.action = true;
    t
}

/// The characters of a displayed line, pieces joined in order.
pub open spec fn sp_line_concat(ls: Seq<ActionLineV>) -> Seq<char>
    decreases ls.len(),
{
    if ls.len() == 0 {
        Seq::empty()
    } else {
        sp_line_concat(ls.drop_last()) + (match ls.last() {
            ActionLineV::Chars(s) => s,
            ActionLineV::Block(s) => s,
        })
    }
}

/// For an HTML front end, joins the line pieces, renders them as
/// Markdown, and replaces the line with one trimmed chunk of characters;
/// any other front end sees the action unchanged.
#[verifier::loop_isolation(false)]
pub fn process_action(frontend: FrontendType, action: Action) -> (r: Action)
    ensures
        frontend == FrontendType::Html ==> r.line.deep_view() == seq![
            ActionLineV::Chars(sp_trim(html_of(sp_line_concat(action.line.deep_view())))),
        ] && r.para_tag@ == action.para_tag@ && r.act_index == action.act_index
            && r.character.deep_view() == action.character.deep_view()
            && r.switches.deep_view() == action.switches.deep_view() && r.vars@ == action.vars@
            && r.residuals.deep_view() == action.residuals.deep_view(),
        frontend != FrontendType::Html ==> r == action,
{
    match frontend {
        FrontendType::Html => {
            let mut joined = String::new();
            let n = action.line.len();
            let ghost lv = action.line.deep_view();
            for i in 0..n
                invariant
                    n == lv.len(),
                    joined@ == sp_line_concat(lv.subrange(0, i as int)),
            {
                match &action.line[i] {
                    ActionLine::Chars(s) => {
                        joined.append(s.as_str());
                    },
                    ActionLine::Block(s) => {
                        joined.append(s.as_str());
                    },
                }
                proof {
                    assert(lv.subrange(0, i + 1).drop_last() =~= lv.subrange(0, i as int));
                    assert(lv.subrange(0, i + 1).last() == lv[i as int]);
                    assert(lv[i as int] == action.line@[i as int].deep_view());
                }
            }
            proof {
                assert(lv.subrange(0, n as int) =~= lv);
            }
            let html = markdown_to_html(&joined);
            let rendered = crate::script::trim_string(&html);
            let mut line: Vec<ActionLine> = Vec::new();
            line.push(ActionLine::Chars(rendered));
            let r = Action { line, ..action };
            proof {
                assert(r.line.deep_view() =~= seq![
                    ActionLineV::Chars(sp_trim(html_of(sp_line_concat(lv)))),
                ]);
            }
            r
        },
        _ => action,
    }
}

} // verus!
