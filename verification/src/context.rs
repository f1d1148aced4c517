//! The playback engine: the paragraph/action state machine.
//!
//! A step resolves the current paragraph with the locale fallback, plays
//! its next text, cooks an action through the plugin pipelines, and
//! appends it to the history; stepping back pops the history, which is
//! authoritative.

use crate::ast::{Command, CommandV, ExprV, Program, SubText, SubTextV, Text};
use crate::config::{Game, ParagraphV};
use crate::plugin::{FrontendType, RawModule, Runtime};
use crate::record::{
    Action, ActionLine, ActionLineV, ActionV, ContextV, GlobalRecord, RawContext, Settings, Switch,
    SwitchV,
};
use crate::script::{eval_program, eval_text, sp_text_eval};
use crate::value::{RawValue, ValueV};
use crate::varmap::VarMap;
use vstd::prelude::*;

verus! {

/// The name of the command that emits a styled block.
pub open spec fn block_name() -> Seq<char> {
    seq!['b', 'l', 'o', 'c', 'k']
}

/// The name of the command that offers a switch.
pub open spec fn switch_name() -> Seq<char> {
    seq!['s', 'w', 'i', 't', 'c', 'h']
}

/// The styled blocks a text carries, in order: one for each `block`
/// command, holding its first argument or the empty string.
pub open spec fn sp_blocks(tv: Seq<SubTextV>) -> Seq<ActionLineV>
    decreases tv.len(),
{
    if tv.len() == 0 {
        Seq::empty()
    } else {
        let rest = sp_blocks(tv.drop_last());
        match tv.last() {
            SubTextV::Cmd(CommandV::Other(name, args)) => if name == block_name() {
                rest.push(
                    ActionLineV::Block(
                        if args.len() > 0 {
                            args[0]
                        } else {
                            Seq::empty()
                        },
                    ),
                )
            } else {
                rest
            },
            _ => rest,
        }
    }
}

/// The speaking character of a text: the name of its first `Character`
/// command, if any.
pub open spec fn sp_character(tv: Seq<SubTextV>) -> Option<Seq<char>>
    decreases tv.len(),
{
    if tv.len() == 0 {
        None
    } else {
        match tv.first() {
            SubTextV::Cmd(CommandV::Character(name, _)) => Some(name),
            _ => sp_character(tv.drop_first()),
        }
    }
}

/// The switches a text offers, in order: one for each `switch` command,
/// labelled by its first argument, enabled, with an empty program until
/// a line module attaches one.
pub open spec fn sp_switches(tv: Seq<SubTextV>) -> Seq<SwitchV>
    decreases tv.len(),
{
    if tv.len() == 0 {
        Seq::empty()
    } else {
        let rest = sp_switches(tv.drop_last());
        match tv.last() {
            SubTextV::Cmd(CommandV::Other(name, args)) => if name == switch_name() {
                rest.push(
                    SwitchV {
                        text: if args.len() > 0 {
                            args[0]
                        } else {
                            Seq::empty()
                        },
                        enabled: true,
                        action: Seq::empty(),
                    },
                )
            } else {
                rest
            },
            _ => rest,
        }
    }
}

/// The commands a text preserves for the line pipeline: every resource
/// reference and every `Other` command that is neither a block nor a
/// switch, in order.
pub open spec fn sp_residuals(tv: Seq<SubTextV>) -> Seq<CommandV>
    decreases tv.len(),
{
    if tv.len() == 0 {
        Seq::empty()
    } else {
        let rest = sp_residuals(tv.drop_last());
        match tv.last() {
            SubTextV::Cmd(CommandV::Res(n)) => rest.push(CommandV::Res(n)),
            SubTextV::Cmd(CommandV::Other(name, args)) => if name != block_name() && name
                != switch_name() {
                rest.push(CommandV::Other(name, args))
            } else {
                rest
            },
            _ => rest,
        }
    }
}

/// The action a text cooks at a position, before any plugin rewrites it:
/// the trimmed evaluated text, then the styled blocks; the first
/// character command; the switches; a snapshot of the record locals; the
/// preserved commands.
pub open spec fn sp_build_action(
    tag: Seq<char>,
    idx: int,
    tv: Seq<SubTextV>,
    locals: Seq<(Seq<char>, ValueV)>,
) -> ActionV {
    ActionV {
        para_tag: tag,
        act_index: idx,
        line: seq![
            ActionLineV::Chars(sp_text_eval(tv, crate::varmap::map_of(locals))),
        ] + sp_blocks(tv),
        character: sp_character(tv),
        switches: sp_switches(tv),
        vars: locals,
        residuals: sp_residuals(tv),
    }
}

/// Whether a string equals the `block` command name.
fn is_block_name(s: &String) -> (r: bool)
    ensures
        r == (s@ == block_name()),
{
    proof {
        reveal_strlit("block");
        assert("block"@ =~= block_name());
    }
    s.eq(&"block".to_owned())
}

/// Whether a string equals the `switch` command name.
fn is_switch_name(s: &String) -> (r: bool)
    ensures
        r == (s@ == switch_name()),
{
    proof {
        reveal_strlit("switch");
        assert("switch"@ =~= switch_name());
    }
    s.eq(&"switch".to_owned())
}

/// Cooks the action of a text at a position, before the plugin pipeline.
#[verifier::loop_isolation(false)]
pub fn build_action(tag: &String, idx: usize, text: &Text, locals: &VarMap) -> (a: Action)
    requires
        locals.wf(),
    ensures
        a.deep_view() == sp_build_action(tag@, idx as int, text.deep_view(), locals@),
        a.act_index == idx,
        a.vars.wf(),
    {
    let ghost tv = text.deep_view();
    let evaluated = eval_text(locals, text);
    let chars = match evaluated {
        RawValue::Str(s) => s,
        _ => String::new(),
    };
    let mut line: Vec<ActionLine> = Vec::new();
    line.push(ActionLine::Chars(chars));
    let mut character: Option<String> = None;
    let mut switches: Vec<Switch> = Vec::new();
    let mut residuals: Vec<Command> = Vec::new();
    let n = text.0.len();
    for i in 0..n
        invariant
            n == tv.len(),
            line.deep_view() == seq![
                ActionLineV::Chars(sp_text_eval(tv, locals.map_view())),
            ] + sp_blocks(tv.subrange(0, i as int)),
            (match character {
                Some(c) => sp_character(tv.take(i as int)) == Some(c@),
                None => sp_character(tv.take(i as int)) is None,
            }),
            switches.deep_view() == sp_switches(tv.subrange(0, i as int)),
            residuals.deep_view() == sp_residuals(tv.subrange(0, i as int)),
    {
        let ghost pre_line = line.deep_view();
        let ghost pre_switches = switches.deep_view();
        let ghost pre_residuals = residuals.deep_view();
        proof {
            let sub1 = tv.subrange(0, i + 1);
            assert(sub1.drop_last() =~= tv.subrange(0, i as int));
            assert(sub1.last() == tv[i as int]);
            assert(tv[i as int] == text.0@[i as int].deep_view());
            if character is None {
                lemma_sp_character_step(tv, i as int);
            } else {
                lemma_sp_character_stable(tv, i as int);
            }
        }
        match &text.0[i] {
            SubText::Cmd(Command::Character(name, _)) => {
                if character.is_none() {
                    character = Some(name.clone());
                }
            },
            SubText::Cmd(Command::Res(name)) => {
                residuals.push(Command::Res(name.clone()));
                proof {
                    assert(residuals.deep_view() =~= pre_residuals.push(CommandV::Res(name@)));
                }
            },
            SubText::Cmd(Command::Other(name, args)) => {
                if is_block_name(name) {
                    let arg = if args.len() > 0 {
                        args[0].clone()
                    } else {
                        String::new()
                    };
                    line.push(ActionLine::Block(arg));
                    proof {
                        assert(line.deep_view() =~= pre_line.push(
                            ActionLineV::Block(
                                if args.deep_view().len() > 0 {
                                    args.deep_view()[0]
                                } else {
                                    Seq::empty()
                                },
                            ),
                        ));
                    }
                } else if is_switch_name(name) {
                    let label = if args.len() > 0 {
                        args[0].clone()
                    } else {
                        String::new()
                    };
                    switches.push(
                        Switch { text: label, enabled: true, action: Program(Vec::new()) },
                    );
                    proof {
                        assert(switches@.last().action.deep_view()
                            =~= Seq::<crate::ast::ExprV>::empty());
                        assert(switches.deep_view() =~= pre_switches.push(
                            SwitchV {
                                text: if args.deep_view().len() > 0 {
                                    args.deep_view()[0]
                                } else {
                                    Seq::empty()
                                },
                                enabled: true,
                                action: Seq::empty(),
                            },
                        ));
                    }
                } else {
                    residuals.push(
                        Command::Other(name.clone(), crate::codec::clone_strings(args)),
                    );
                    proof {
                        assert(residuals.deep_view() =~= pre_residuals.push(
                            CommandV::Other(name@, args.deep_view()),
                        ));
                    }
                }
            },
            _ => {
            },
        }
    }
    proof {
        assert(tv.subrange(0, n as int) =~= tv);
        assert(tv.take(n as int) =~= tv);
    }
    let a = Action {
        para_tag: tag.clone(),
        act_index: idx,
        line,
        character,
        switches,
        vars: locals.duplicate(),
        residuals,
    };
    proof {
        assert(a.deep_view() == sp_build_action(tag@, idx as int, tv, locals@));
    }
    a
}

/// The character scan keeps an already found character.
proof fn lemma_sp_character_stable(tv: Seq<SubTextV>, i: int)
    requires
        0 <= i < tv.len(),
        sp_character(tv.take(i)) is Some,
    ensures
        sp_character(tv.take(i + 1)) == sp_character(tv.take(i)),
    decreases i,
{
    assert(tv.take(i).first() == tv[0]);
    assert(tv.take(i + 1).first() == tv[0]);
    match tv[0] {
        SubTextV::Cmd(CommandV::Character(_, _)) => {},
        _ => {
            assert(tv.take(i + 1).drop_first() =~= tv.drop_first().take(i));
            assert(tv.take(i).drop_first() =~= tv.drop_first().take(i - 1));
            lemma_sp_character_stable(tv.drop_first(), i - 1);
            assert(tv.drop_first()[i - 1] == tv[i]);
        },
    }
}

/// One unfolding step of the character scan.
proof fn lemma_sp_character_step(tv: Seq<SubTextV>, i: int)
    requires
        0 <= i < tv.len(),
        sp_character(tv.take(i)) is None,
    ensures
        sp_character(tv.take(i + 1)) == (match tv[i] {
            SubTextV::Cmd(CommandV::Character(name, _)) => Some(name),
            _ => sp_character(tv.take(i)),
        }),
    decreases i,
{
    if i == 0 {
        assert(tv.take(1).first() == tv[0]);
        assert(tv.take(1).drop_first() =~= tv.take(0));
    } else {
        let head = tv.take(i + 1).first();
        assert(head == tv[0]);
        match tv[0] {
            SubTextV::Cmd(CommandV::Character(_, _)) => {
                assert(tv.take(i).first() == tv[0]);
                assert(false);
            },
            _ => {
                assert(tv.take(i).first() == tv[0]);
                assert(sp_character(tv.take(i)) == sp_character(tv.take(i).drop_first()));
                assert(tv.take(i + 1).drop_first() =~= tv.drop_first().take(i));
                assert(tv.take(i).drop_first() =~= tv.drop_first().take(i - 1));
                lemma_sp_character_step(tv.drop_first(), i - 1);
                assert(tv.drop_first()[i - 1] == tv[i]);
            },
        }
    }
}

/// Merges a plugin's rewritten action into the engine's: the plugin
/// supplies the presentation (line, character, switch labels, snapshot),
/// the engine keeps its position, its preserved commands and the switch
/// programs, by switch index; switches the plugin added carry an empty
/// program.
pub open spec fn sp_merge_action(orig: ActionV, new: ActionV) -> ActionV {
    ActionV {
        para_tag: orig.para_tag,
        act_index: orig.act_index,
        line: new.line,
        character: new.character,
        switches: Seq::new(
            new.switches.len(),
            |i: int|
                SwitchV {
                    text: new.switches[i].text,
                    enabled: new.switches[i].enabled,
                    action: if 0 <= i < orig.switches.len() {
                        orig.switches[i].action
                    } else {
                        Seq::empty()
                    },
                },
        ),
        vars: new.vars,
        residuals: orig.residuals,
    }
}

/// Merges a plugin's rewritten action into the engine's.
#[verifier::loop_isolation(false)]
pub fn merge_action(orig: Action, new: Action) -> (r: Action)
    requires
        new.vars.wf(),
    ensures
        r.deep_view() == sp_merge_action(orig.deep_view(), new.deep_view()),
        r.act_index == orig.act_index,
        r.vars.wf(),
{
    let mut switches: Vec<Switch> = Vec::new();
    let n = new.switches.len();
    let mut orig_switches = orig.switches;
    let total = orig_switches.len();
    let ghost orig_actions = orig_switches.deep_view();
    for i in 0..n
        invariant
            n == new.switches@.len(),
            switches@.len() == i,
            orig_switches@.len() == total,
            orig_switches.deep_view() == orig_actions,
            forall|j: int| 0 <= j < i ==> (#[trigger] switches@[j]).deep_view() == (SwitchV {
                text: new.switches@[j].deep_view().text,
                enabled: new.switches@[j].deep_view().enabled,
                action: if 0 <= j < orig_actions.len() {
                    orig_actions[j].action
                } else {
                    Seq::empty()
                },
            }),
    {
        let program = if i < total {
            orig_switches[i].action.clone()
        } else {
            Program(Vec::new())
        };
        proof {
            if i >= total {
                assert(program.deep_view() =~= Seq::<crate::ast::ExprV>::empty());
            }
        }
        switches.push(
            Switch {
                text: new.switches[i].text.clone(),
                enabled: new.switches[i].enabled,
                action: program,
            },
        );
    }
    let r = Action {
        para_tag: orig.para_tag,
        act_index: orig.act_index,
        line: new.line,
        character: new.character,
        switches,
        vars: new.vars,
        residuals: orig.residuals,
    };
    proof {
        assert(r.deep_view().switches =~= sp_merge_action(
            orig.deep_view(),
            new.deep_view(),
        ).switches);
    }
    r
}


/// The playback engine: the game, the plugin host, the active record,
/// the settings and the cross-run state.
pub struct Context<M: RawModule> {
    /// The game config.
    pub game: Game,
    /// The plugin host.
    pub runtime: Runtime<M>,
    /// The active record.
    pub record: RawContext,
    /// The front-end settings.
    pub settings: Settings,
    /// The kind of front end driving playback.
    pub frontend: FrontendType,
    /// Cross-run state.
    pub global_record: GlobalRecord,
}

/// The tag playback starts at: the first paragraph of the base language.
pub open spec fn sp_start_tag(g: &Game) -> Seq<char> {
    match crate::config::sp_paras_of(g.paras_view(), g.base_lang@) {
        Some(ps) => if ps.len() > 0 {
            ps[0].tag
        } else {
            Seq::empty()
        },
        None => Seq::empty(),
    }
}

/// What a forward step guarantees: the cooked action went to the end of
/// the history, was produced in the final paragraph, and the position
/// stands right after it.
pub open spec fn next_run_post(o: ContextV, n: ContextV, a: ActionV) -> bool {
    &&& n.history == o.history.push(a)
    &&& a.para_tag == n.cur_para
    &&& n.cur_act == a.act_index + 1
}

/// What a backward step guarantees: the last action left the history and
/// was returned unchanged, and the position stands where it was produced;
/// the record locals do not move.
pub open spec fn back_run_post(o: ContextV, n: ContextV, a: ActionV) -> bool {
    &&& o.history.len() > 0
    &&& a == o.history.last()
    &&& n.history == o.history.drop_last()
    &&& n.cur_para == a.para_tag
    &&& n.cur_act == a.act_index
    &&& n.locals == o.locals
}

/// The text the engine plays at a position, under the locale fallback:
/// the chosen locale's text, with the base language filling a missing
/// one in; nothing when both lack a text there.
pub open spec fn sp_text_at(g: &Game, lang: Seq<char>, tag: Seq<char>, idx: int) -> Option<
    Seq<SubTextV>,
> {
    let key = g.sp_chosen_key(lang);
    let base_key = g.sp_chosen_key(g.base_lang@);
    let primary = if key == base_key {
        None
    } else {
        g.sp_find_para(key, tag)
    };
    let fallback = g.sp_find_para(base_key, tag);
    if primary matches Some(p) && 0 <= idx < p.texts.len() {
        Some(primary->Some_0.texts[idx])
    } else if fallback matches Some(p) && 0 <= idx < p.texts.len() {
        Some(fallback->Some_0.texts[idx])
    } else {
        None
    }
}

/// Whether the paragraph the record stands in offers a text at the
/// current index, under the locale fallback.
pub open spec fn sp_has_text_at(g: &Game, lang: Seq<char>, tag: Seq<char>, idx: int) -> bool {
    sp_text_at(g, lang, tag, idx) is Some
}

/// The program naming the next paragraph, under the locale fallback: the
/// chosen locale's `next` when its paragraph has one, else the base
/// language's; nothing when neither has one.
pub open spec fn sp_next_at(g: &Game, lang: Seq<char>, tag: Seq<char>) -> Option<Seq<ExprV>> {
    let key = g.sp_chosen_key(lang);
    let base_key = g.sp_chosen_key(g.base_lang@);
    let primary = if key == base_key {
        None
    } else {
        g.sp_find_para(key, tag)
    };
    let fallback = g.sp_find_para(base_key, tag);
    if primary matches Some(p) && p.next is Some {
        primary->Some_0.next
    } else if fallback matches Some(p) && p.next is Some {
        fallback->Some_0.next
    } else {
        None
    }
}

impl<M: RawModule> Context<M> {
    /// The engine is sound while its record and plugin host are.
    pub open spec fn wf(&self) -> bool {
        &&& self.record.wf()
        &&& self.runtime.wf()
        &&& self.record.cur_act <= i64::MAX
        &&& forall|i: int| 0 <= i < self.record.history@.len() ==> (
        #[trigger] self.record.history@[i]).act_index <= i64::MAX
    }

    /// Builds an engine over a loaded game, with a fresh record.
    pub fn new(
        game: Game,
        runtime: Runtime<M>,
        settings: Settings,
        frontend: FrontendType,
    ) -> (r: Context<M>)
        requires
            runtime.wf(),
        ensures
            r.wf(),
            r.record.deep_view().cur_para == sp_start_tag(&r.game),
            r.record.deep_view().cur_act == 0,
            r.record.deep_view().locals.len() == 0,
            r.record.deep_view().history.len() == 0,
    {
        let mut ctx = Context {
            game,
            runtime,
            record: RawContext {
                cur_para: String::new(),
                cur_act: 0,
                locals: VarMap::new(),
                history: Vec::new(),
            },
            settings,
            frontend,
            global_record: GlobalRecord { vars: VarMap::new() },
        };
        ctx.init_new();
        ctx
    }

    /// Resets the record to the start of the game: the first paragraph of
    /// the base language, index zero, no locals, no history.
    pub fn init_new(&mut self)
        requires
            old(self).runtime.wf(),
        ensures
            final(self).wf(),
            final(self).game == old(self).game,
            final(self).runtime == old(self).runtime,
            final(self).settings == old(self).settings,
            final(self).frontend == old(self).frontend,
            final(self).global_record == old(self).global_record,
            final(self).record.deep_view().cur_para == sp_start_tag(&final(self).game),
            final(self).record.deep_view().cur_act == 0,
            final(self).record.deep_view().locals.len() == 0,
            final(self).record.deep_view().history.len() == 0,
    {
        let start = first_tag_of(&self.game);
        self.record = RawContext {
            cur_para: start,
            cur_act: 0,
            locals: VarMap::new(),
            history: Vec::new(),
        };
    }

    /// Restores a saved record; the engine replays nothing and trusts
    /// its history.
    pub fn init_context(&mut self, rc: RawContext)
        requires
            old(self).runtime.wf(),
            rc.wf(),
            rc.cur_act <= i64::MAX,
            forall|i: int| 0 <= i < rc.history@.len() ==> (#[trigger] rc.history@[i]).act_index
                <= i64::MAX,
        ensures
            final(self).wf(),
            final(self).game == old(self).game,
            final(self).runtime == old(self).runtime,
            final(self).settings == old(self).settings,
            final(self).frontend == old(self).frontend,
            final(self).global_record == old(self).global_record,
            final(self).record == rc,
    {
        self.record = rc;
    }

    /// Replaces the settings; the locale they choose takes effect on the
    /// next step.
    pub fn set_settings(&mut self, settings: Settings)
        ensures
            *final(self) == (Context { settings, ..*old(self) }),
    {
        self.settings = settings;
    }

    /// The current settings.
    pub fn settings(&self) -> (r: &Settings)
        ensures
            r == &self.settings,
    {
        &self.settings
    }

    /// Replaces the cross-run state.
    pub fn set_global_record(&mut self, g: GlobalRecord)
        ensures
            *final(self) == (Context { global_record: g, ..*old(self) }),
    {
        self.global_record = g;
    }

    /// The cross-run state.
    pub fn global_record(&self) -> (r: &GlobalRecord)
        ensures
            r == &self.global_record,
    {
        &self.global_record
    }

    /// Evaluates a switch program against the record locals; its side
    /// effects persist there.
    pub fn call(&mut self, p: &Program) -> (r: RawValue)
        requires
            old(self).wf(),
        ensures
            final(self).wf(),
            final(self).game == old(self).game,
            final(self).runtime == old(self).runtime,
            final(self).record.history == old(self).record.history,
            final(self).record.cur_para == old(self).record.cur_para,
            final(self).record.cur_act == old(self).record.cur_act,
            (crate::script::sp_program(p.deep_view(), old(self).record.locals.map_view())
                matches Some((l2, val)) ==> final(self).record.locals.map_view() == l2 && r@
                == val),
            crate::script::agree_off(
                old(self).record.locals.map_view(),
                final(self).record.locals.map_view(),
                crate::script::ctx_writes_seq(p.deep_view()),
            ),
    {
        eval_program(&self.runtime, &mut self.record.locals, p)
    }

    /// Whether the history holds an action produced at the same position
    /// as the given one.
    #[verifier::loop_isolation(false)]
    pub fn visited(&self, a: &Action) -> (r: bool)
        ensures
            r == exists|k: int|
                0 <= k < self.record.history@.len() && (#[trigger] self.record.history@[
                k]).para_tag@ == a.para_tag@ && self.record.history@[k].act_index == a.act_index,
    {
        let n = self.record.history.len();
        for k in 0..n
            invariant
                n == self.record.history@.len(),
                forall|j: int| 0 <= j < k ==> !((#[trigger] self.record.history@[j]).para_tag@
                    == a.para_tag@ && self.record.history@[j].act_index == a.act_index),
        {
            if self.record.history[k].para_tag.eq(&a.para_tag) && self.record.history[k].act_index
                == a.act_index {
                return true;
            }
        }
        false
    }

    /// Steps backward: pops the last action of the history and returns
    /// it, without re-running any plugin; the position moves to where
    /// that action was produced. `None` on an empty history.
    pub fn next_back_run(&mut self) -> (r: Option<Action>)
        requires
            old(self).wf(),
        ensures
            final(self).wf(),
            final(self).game == old(self).game,
            final(self).runtime == old(self).runtime,
            match r {
                Some(a) => back_run_post(
                    old(self).record.deep_view(),
                    final(self).record.deep_view(),
                    a.deep_view(),
                ),
                None => old(self).record.history@.len() == 0 && final(self).record.deep_view()
                    == old(self).record.deep_view(),
            },
    {
        match self.record.history.pop() {
            None => None,
            Some(a) => {
                self.record.cur_para = a.para_tag.clone();
                self.record.cur_act = a.act_index;
                proof {
                    assert(forall|j: int| 0 <= j < self.record.history@.len()
                        ==> self.record.history@[j] == old(self).record.history@[j]);
                    assert(self.record.history.deep_view() =~= old(
                        self,
                    ).record.history.deep_view().drop_last());
                    assert(a.deep_view() == old(self).record.history.deep_view().last());
                    assert(a == old(self).record.history@[old(self).record.history@.len() - 1]);
                }
                Some(a)
            },
        }
    }
}

/// The first paragraph tag of the base language.
#[verifier::loop_isolation(false)]
fn first_tag_of(g: &Game) -> (r: String)
    ensures
        r@ == sp_start_tag(g),
{
    let ghost pv = g.paras_view();
    let n = g.paras.len();
    proof {
        assert(pv.skip(0) =~= pv);
    }
    for i in 0..n
        invariant
            n == pv.len(),
            crate::config::sp_paras_of(pv, g.base_lang@) == crate::config::sp_paras_of(
                pv.skip(i as int),
                g.base_lang@,
            ),
        decreases n - i,
    {
        proof {
            assert(pv.skip(i as int).first() == pv[i as int]);
            assert(pv.skip(i as int).drop_first() =~= pv.skip(i + 1));
        }
        if g.paras[i].0.eq(&g.base_lang) {
            if g.paras[i].1.len() > 0 {
                return g.paras[i].1[0].tag.clone();
            } else {
                return String::new();
            }
        }
    }
    proof {
        assert(pv.skip(n as int) =~= Seq::<(Seq<char>, Seq<ParagraphV>)>::empty());
    }
    String::new()
}

/// Stepping forward and then backward restores the position and hands
/// the same cooked action back, whenever the forward step played a text
/// of the paragraph it started in.
pub proof fn lemma_forward_back(o: ContextV, m: ContextV, n: ContextV, a: ActionV, b: ActionV)
    requires
        next_run_post(o, m, a),
        a.para_tag == o.cur_para,
        a.act_index == o.cur_act,
        back_run_post(m, n, b),
    ensures
        b == a,
        n.cur_para == o.cur_para,
        n.cur_act == o.cur_act,
        n.history == o.history,
{
    assert(m.history.last() == a);
    assert(m.history.drop_last() =~= o.history);
}

/// Appending to the history moves no earlier entry: after a forward
/// step, every action keeps its index and the new action stands last.
pub proof fn lemma_history_append(o: ContextV, n: ContextV, a: ActionV)
    requires
        next_run_post(o, n, a),
    ensures
        n.history.len() == o.history.len() + 1,
        n.history.last() == a,
        forall|k: int| 0 <= k < o.history.len() ==> n.history[k] == o.history[k],
        n.cur_act == a.act_index + 1,
{
}


/// The most text-less paragraphs one step hops through before treating
/// the chain as an end of the game: a guard against cyclic configs.
pub const HOP_LIMIT: u64 = 1000000;

/// The props a preserved command hands to its line module: each argument
/// under its decimal index.
#[verifier::loop_isolation(false)]
fn args_props(args: &Vec<String>) -> (m: VarMap)
    ensures
        m.wf(),
{
    let mut m = VarMap::new();
    let n = args.len();
    for k in 0..n
        invariant
            n == args@.len(),
            m.wf(),
    {
        let key = RawValue::Num(#[verifier::truncate] (k as i64)).get_str();
        m.insert(key, RawValue::Str(args[k].clone()));
    }
    m
}

/// Clones an optional next-paragraph program.
fn clone_next(p: &Option<Program>) -> (r: Option<Program>)
    ensures
        match r {
            Some(q) => p matches Some(orig) && q.deep_view() == orig.deep_view(),
            None => p is None,
        },
{
    match p {
        Some(q) => Some(q.clone()),
        None => None,
    }
}

impl<M: RawModule> Context<M> {
    /// Steps forward: resolves the current paragraph under the locale
    /// fallback, plays the text at the current index (the base language
    /// fills in a missing text), cooks an action through the action and
    /// line pipelines, appends it to the history and advances. When the
    /// paragraph has no text left, its `next` program names the next
    /// paragraph and the step restarts there; without one the game ends
    /// and the step returns `None` with the history untouched. A chain of
    /// more than [`HOP_LIMIT`] text-less paragraphs counts as an end.
    ///
    /// A produced action always lands at the end of the history, carries
    /// the paragraph and index it was produced at, and leaves the
    /// position right after itself; when the starting position offered a
    /// text, the step produces an action at exactly that position.
    #[verifier::loop_isolation(false)]
    pub fn next_run(&mut self) -> (r: Option<Action>)
        requires
            old(self).wf(),
        ensures
            final(self).wf(),
            final(self).game == old(self).game,
            final(self).runtime == old(self).runtime,
            match r {
                Some(a) => next_run_post(
                    old(self).record.deep_view(),
                    final(self).record.deep_view(),
                    a.deep_view(),
                ) && (sp_has_text_at(
                    &old(self).game,
                    old(self).settings.lang@,
                    old(self).record.cur_para@,
                    old(self).record.cur_act as int,
                ) ==> a.para_tag@ == old(self).record.cur_para@ && a.act_index == old(
                    self,
                ).record.cur_act),
                None => final(self).record.history.deep_view() == old(
                    self,
                ).record.history.deep_view(),
            },
            sp_has_text_at(
                &old(self).game,
                old(self).settings.lang@,
                old(self).record.cur_para@,
                old(self).record.cur_act as int,
            ) && old(self).record.cur_act < i64::MAX ==> r is Some,
            !sp_has_text_at(
                &old(self).game,
                old(self).settings.lang@,
                old(self).record.cur_para@,
                old(self).record.cur_act as int,
            ) && sp_next_at(
                &old(self).game,
                old(self).settings.lang@,
                old(self).record.cur_para@,
            ) is None ==> r is None,
            (match r {
                Some(a) => (a.deep_view().act_index == old(self).record.cur_act as int
                    && a.deep_view().para_tag == old(self).record.cur_para@) || a.deep_view().act_index == 0,
                None => true,
            }),
            (match r {
                Some(a) => sp_has_text_at(
                    &old(self).game,
                    old(self).settings.lang@,
                    old(self).record.cur_para@,
                    old(self).record.cur_act as int,
                ) && old(self).runtime.action_order().len() == 0 ==> a.deep_view()
                    == sp_build_action(
                    old(self).record.cur_para@,
                    old(self).record.cur_act as int,
                    sp_text_at(
                        &old(self).game,
                        old(self).settings.lang@,
                        old(self).record.cur_para@,
                        old(self).record.cur_act as int,
                    )->Some_0,
                    old(self).record.locals@,
                ),
                None => true,
            }),
    {
        let ghost old_game = old(self).game;
        let ghost old_lang = old(self).settings.lang@;
        let ghost old_para = old(self).record.cur_para@;
        let ghost old_act = old(self).record.cur_act as int;
        let ghost old_has = sp_has_text_at(&old(self).game, old_lang, old_para, old_act);
        let ghost old_end = !old_has && sp_next_at(&old(self).game, old_lang, old_para) is None;
        let mut hops_left: u64 = HOP_LIMIT;
        loop
            invariant
                self.wf(),
                self.game == old(self).game,
                self.runtime == old(self).runtime,
                self.settings == old(self).settings,
                self.frontend == old(self).frontend,
                self.record.history.deep_view() == old(self).record.history.deep_view(),
                self.record.history@.len() <= old(self).record.history@.len(),
                old(self).record.history@.len() <= self.record.history@.len(),
                old_has ==> (self.record.cur_para@ == old_para && self.record.cur_act as int
                    == old_act && self.record.locals@ == old(self).record.locals@),
                old_end ==> (self.record.cur_para@ == old_para && self.record.cur_act as int
                    == old_act),
                (self.record.cur_para@ == old_para && self.record.cur_act as int == old_act)
                    || self.record.cur_act == 0,
            decreases hops_left,
        {
            let i = self.record.cur_act;
            if (i as u64) >= (i64::MAX as u64) {
                proof {
                    if old_has {
                        assert(old_act < i64::MAX ==> false);
                    }
                }
                return None;
            }
            let ghost cur_para = self.record.cur_para@;
            let ghost cur_has = sp_has_text_at(&self.game, self.settings.lang@, cur_para, i as int);
            let fb = self.game.find_para_fallback(&self.settings.lang, &self.record.cur_para);
            let mut text_opt: Option<Text> = None;
            match &fb.primary {
                Some(p) => {
                    if i < p.texts.len() {
                        text_opt = Some(p.texts[i].clone());
                    }
                },
                None => {},
            }
            if text_opt.is_none() {
                match &fb.fallback {
                    Some(p) => {
                        if i < p.texts.len() {
                            text_opt = Some(p.texts[i].clone());
                        }
                    },
                    None => {},
                }
            }
            let next_prog: Option<Program> = {
                let from_primary = match &fb.primary {
                    Some(p) => clone_next(&p.next),
                    None => None,
                };
                match from_primary {
                    Some(p) => Some(p),
                    None => match &fb.fallback {
                        Some(p) => clone_next(&p.next),
                        None => None,
                    },
                }
            };
            proof {
                assert(text_opt is Some <==> cur_has);
                assert(next_prog is Some ==> sp_next_at(
                    &self.game,
                    self.settings.lang@,
                    cur_para,
                ) is Some);
                if text_opt is Some {
                    assert(text_opt->Some_0.deep_view() == sp_text_at(
                        &self.game,
                        self.settings.lang@,
                        cur_para,
                        i as int,
                    )->Some_0);
                }
            }
            match text_opt {
                Some(text) => {
                    proof {
                        if old_end {
                            assert(cur_para == old_para && i as int == old_act);
                            assert(!cur_has);
                            assert(false);
                        }
                    }
                    let tag = self.record.cur_para.clone();
                    let mut action = build_action(&tag, i, &text, &self.record.locals);
                    let ghost built = action.deep_view();
                    let pipeline_len = self.runtime.action_modules().len();
                    for k in 0..pipeline_len
                        invariant
                            pipeline_len == self.runtime.action_order().len(),
                            action.act_index == i,
                            action.para_tag@ == tag@,
                            action.vars.wf(),
                            pipeline_len == 0 ==> action.deep_view() == built,
                    {
                        let name = self.runtime.action_modules()[k].clone();
                        match self.runtime.module(&name) {
                            Some(host) => {
                                match host.process_action(self.frontend, &action) {
                                    Ok(reply) => {
                                        action = merge_action(action, reply);
                                    },
                                    Err(_) => {
                                        // the module is skipped for this action
                                    },
                                }
                            },
                            None => {},
                        }
                    }
                    let rn = action.residuals.len();
                    for k in 0..rn
                        invariant
                            rn == action.residuals@.len(),
                            self.wf(),
                            self.game == old(self).game,
                            self.runtime == old(self).runtime,
                            self.settings == old(self).settings,
                            self.frontend == old(self).frontend,
                            self.record.history.deep_view() == old(
                                self,
                            ).record.history.deep_view(),
                            self.record.history@.len() == old(self).record.history@.len(),
                            self.record.cur_para@ == cur_para,
                            self.record.cur_act == i,
                    {
                        match &action.residuals[k] {
                            Command::Other(name, args) => {
                                let has_route = self.runtime.line_module_of(name).is_some();
                                if has_route {
                                    let props = args_props(args);
                                    match self.runtime.dispatch_line(
                                        name,
                                        &self.game.props,
                                        self.frontend,
                                        &self.record,
                                        &props,
                                    ) {
                                        Ok(res) => {
                                            let extra = res.locals;
                                            let en = extra.len();
                                            for j in 0..en
                                                invariant
                                                    en == extra@.len(),
                                                    extra.wf(),
                                                    self.wf(),
                                                    self.game == old(self).game,
                                                    self.runtime == old(self).runtime,
                                                    self.settings == old(self).settings,
                                                    self.frontend == old(self).frontend,
                                                    self.record.history.deep_view() == old(
                                                        self,
                                                    ).record.history.deep_view(),
                                                    self.record.history@.len() == old(
                                                        self,
                                                    ).record.history@.len(),
                                                    self.record.cur_para@ == cur_para,
                                                    self.record.cur_act == i,
                                            {
                                                self.record.locals.insert(
                                                    extra.key_at(j).clone(),
                                                    extra.val_at(j).clone(),
                                                );
                                            }
                                        },
                                        Err(_) => {
                                            // the module is skipped for this line
                                        },
                                    }
                                }
                            },
                            _ => {},
                        }
                    }
                    let returned = action.clone();
                    self.record.history.push(action);
                    self.record.cur_act = i + 1;
                    proof {
                        assert(self.record.history.deep_view() =~= old(
                            self,
                        ).record.history.deep_view().push(returned.deep_view()));
                        assert(returned.deep_view().para_tag == self.record.cur_para@);
                        if old_has && old(self).runtime.action_order().len() == 0 {
                            assert(returned.deep_view() == built);
                        }
                    }
                    return Some(returned);
                },
                None => {
                    if hops_left == 0 {
                        return None;
                    }
                    hops_left = hops_left - 1;
                    match next_prog {
                        Some(p) => {
                            let v = eval_program(&self.runtime, &mut self.record.locals, &p);
                            let target = v.get_str();
                            self.record.cur_para = target;
                            self.record.cur_act = 0;
                            proof {
                                if old_has {
                                    assert(cur_para == old_para && i as int == old_act);
                                    assert(!cur_has);
                                    assert(false);
                                }
                                if old_end {
                                    assert(cur_para == old_para);
                                    assert(sp_next_at(
                                        &self.game,
                                        self.settings.lang@,
                                        cur_para,
                                    ) is Some);
                                    assert(false);
                                }
                            }
                        },
                        None => {
                            return None;
                        },
                    }
                },
            }
        }
    }
}


/// The position counts the current paragraph's actions: the last
/// `cur_act` history entries were produced in the current paragraph, at
/// consecutive indices ending right below the position.
pub open spec fn para_alignment(c: ContextV) -> bool {
    &&& 0 <= c.cur_act <= c.history.len()
    &&& forall|k: int|
        c.history.len() - c.cur_act <= k < c.history.len() ==> (#[trigger] c.history[k]).para_tag
            == c.cur_para && c.history[k].act_index == c.cur_act - (c.history.len() - k)
}

/// A fresh record is aligned.
pub proof fn lemma_alignment_initial(c: ContextV)
    requires
        c.cur_act == 0,
    ensures
        para_alignment(c),
{
}

/// A forward step keeps the alignment: the produced action lands at the
/// position, whether the step stayed in the paragraph or entered a new
/// one at its start.
pub proof fn lemma_alignment_forward(o: ContextV, n: ContextV, a: ActionV)
    requires
        para_alignment(o),
        next_run_post(o, n, a),
        (a.act_index == o.cur_act && a.para_tag == o.cur_para) || a.act_index == 0,
    ensures
        para_alignment(n),
{
    assert(n.history.len() == o.history.len() + 1);
    assert forall|k: int|
        n.history.len() - n.cur_act <= k < n.history.len() implies (
    #[trigger] n.history[k]).para_tag == n.cur_para && n.history[k].act_index == n.cur_act - (
    n.history.len() - k) by {
        if k == n.history.len() - 1 {
            assert(n.history[k] == a);
        } else {
            assert(n.history[k] == o.history[k]);
            assert(a.act_index == o.cur_act && a.para_tag == o.cur_para);
            assert(o.history.len() - o.cur_act <= k < o.history.len());
        }
    }
}

/// A backward step keeps the alignment.
pub proof fn lemma_alignment_backward(o: ContextV, n: ContextV, a: ActionV)
    requires
        para_alignment(o),
        o.cur_act > 0,
        back_run_post(o, n, a),
    ensures
        para_alignment(n),
{
    assert(a == o.history[o.history.len() - 1]);
    assert(a.para_tag == o.cur_para && a.act_index == o.cur_act - 1);
    assert(n.history.len() == o.history.len() - 1);
    assert forall|k: int|
        n.history.len() - n.cur_act <= k < n.history.len() implies (
    #[trigger] n.history[k]).para_tag == n.cur_para && n.history[k].act_index == n.cur_act - (
    n.history.len() - k) by {
        assert(n.history[k] == o.history[k]);
        assert(o.history.len() - o.cur_act <= k < o.history.len());
    }
}

} // verus!
