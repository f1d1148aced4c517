//! The playback record: actions, the serializable run state, settings.
//!
//! A record is the whole state of one playthrough: the current position,
//! the record locals, and the history of cooked actions.

use crate::ast::{Command, CommandV, ExprV, Program};
use crate::value::ValueV;
use crate::varmap::VarMap;
use vstd::prelude::*;

verus! {

/// One piece of a displayed line: plain characters or a styled block.
#[derive(Debug)]
pub enum ActionLine {
    /// Plain characters.
    Chars(String),
    /// A control-styled block.
    Block(String),
}

/// The mathematical model of an [`ActionLine`].
pub enum ActionLineV {
    /// Plain characters.
    Chars(Seq<char>),
    /// A control-styled block.
    Block(Seq<char>),
}

impl DeepView for ActionLine {
    type V = ActionLineV;

    open spec fn deep_view(&self) -> ActionLineV {
        match self {
            ActionLine::Chars(s) => ActionLineV::Chars(s@),
            ActionLine::Block(s) => ActionLineV::Block(s@),
        }
    }
}

impl Clone for ActionLine {
    fn clone(&self) -> (r: ActionLine)
        ensures
            r.deep_view() == self.deep_view(),
    {
        match self {
            ActionLine::Chars(s) => ActionLine::Chars(s.clone()),
            ActionLine::Block(s) => ActionLine::Block(s.clone()),
        }
    }
}

/// A selectable switch: its label, whether it can be chosen, and the
/// program to run when it is chosen.
#[derive(Debug)]
pub struct Switch {
    /// The label shown to the player.
    pub text: String,
    /// Whether the switch can be chosen.
    pub enabled: bool,
    /// The program run on selection.
    pub action: Program,
}

/// The mathematical model of a [`Switch`].
pub struct SwitchV {
    /// The label shown to the player.
    pub text: Seq<char>,
    /// Whether the switch can be chosen.
    pub enabled: bool,
    /// The program run on selection.
    pub action: Seq<ExprV>,
}

impl DeepView for Switch {
    type V = SwitchV;

    open spec fn deep_view(&self) -> SwitchV {
        SwitchV { text: self.text@, enabled: self.enabled, action: self.action.deep_view() }
    }
}

impl Clone for Switch {
    fn clone(&self) -> (r: Switch)
        ensures
            r.deep_view() == self.deep_view(),
    {
        Switch { text: self.text.clone(), enabled: self.enabled, action: self.action.clone() }
    }
}

/// The cooked unit of playback handed to the front end: the position it
/// was produced at, the displayed line, the switches, the speaking
/// character, and a snapshot of the record locals.
#[derive(Debug)]
pub struct Action {
    /// The tag of the paragraph this action was produced in.
    pub para_tag: String,
    /// The index of the text within that paragraph.
    pub act_index: usize,
    /// The displayed line, in order.
    pub line: Vec<ActionLine>,
    /// The speaking character, if any.
    pub character: Option<String>,
    /// The switches offered to the player.
    pub switches: Vec<Switch>,
    /// A snapshot of the record locals.
    pub vars: VarMap,
    /// Commands preserved for the line pipeline.
    pub residuals: Vec<Command>,
}

/// The mathematical model of an [`Action`].
pub struct ActionV {
    /// The tag of the paragraph this action was produced in.
    pub para_tag: Seq<char>,
    /// The index of the text within that paragraph.
    pub act_index: int,
    /// The displayed line, in order.
    pub line: Seq<ActionLineV>,
    /// The speaking character, if any.
    pub character: Option<Seq<char>>,
    /// The switches offered to the player.
    pub switches: Seq<SwitchV>,
    /// A snapshot of the record locals.
    pub vars: Seq<(Seq<char>, ValueV)>,
    /// Commands preserved for the line pipeline.
    pub residuals: Seq<CommandV>,
}

impl DeepView for Action {
    type V = ActionV;

    open spec fn deep_view(&self) -> ActionV {
        ActionV {
            para_tag: self.para_tag@,
            act_index: self.act_index as int,
            line: self.line.deep_view(),
            character: self.character.deep_view(),
            switches: self.switches.deep_view(),
            vars: self.vars@,
            residuals: self.residuals.deep_view(),
        }
    }
}

impl Clone for Action {
    fn clone(&self) -> (r: Action)
        ensures
            r.deep_view() == self.deep_view(),
    {
        let r = Action {
            para_tag: self.para_tag.clone(),
            act_index: self.act_index,
            line: clone_lines(&self.line),
            character: match &self.character {
                Some(c) => Some(c.clone()),
                None => None,
            },
            switches: clone_switches(&self.switches),
            vars: self.vars.duplicate(),
            residuals: clone_commands(&self.residuals),
        };
        proof {
            assert(r.deep_view().character == self.deep_view().character);
        }
        r
    }
}

/// Clones a displayed line.
#[verifier::loop_isolation(false)]
pub fn clone_lines(lines: &Vec<ActionLine>) -> (r: Vec<ActionLine>)
    ensures
        r.deep_view() == lines.deep_view(),
{
    let mut r: Vec<ActionLine> = Vec::new();
    let n = lines.len();
    for i in 0..n
        invariant
            n == lines@.len(),
            r@.len() == i,
            forall|j: int| 0 <= j < i ==> (#[trigger] r@[j]).deep_view() == lines@[j].deep_view(),
    {
        r.push(lines[i].clone());
    }
    proof {
        assert(r.deep_view() =~= lines.deep_view());
    }
    r
}

/// Clones a switch list.
#[verifier::loop_isolation(false)]
pub fn clone_switches(switches: &Vec<Switch>) -> (r: Vec<Switch>)
    ensures
        r.deep_view() == switches.deep_view(),
{
    let mut r: Vec<Switch> = Vec::new();
    let n = switches.len();
    for i in 0..n
        invariant
            n == switches@.len(),
            r@.len() == i,
            forall|j: int| 0 <= j < i ==> (#[trigger] r@[j]).deep_view()
                == switches@[j].deep_view(),
    {
        r.push(switches[i].clone());
    }
    proof {
        assert(r.deep_view() =~= switches.deep_view());
    }
    r
}

/// Clones a command list.
#[verifier::loop_isolation(false)]
pub fn clone_commands(cmds: &Vec<Command>) -> (r: Vec<Command>)
    ensures
        r.deep_view() == cmds.deep_view(),
{
    let mut r: Vec<Command> = Vec::new();
    let n = cmds.len();
    for i in 0..n
        invariant
            n == cmds@.len(),
            r@.len() == i,
            forall|j: int| 0 <= j < i ==> (#[trigger] r@[j]).deep_view() == cmds@[j].deep_view(),
    {
        r.push(cmds[i].clone());
    }
    proof {
        assert(r.deep_view() =~= cmds.deep_view());
    }
    r
}

/// Clones an action list.
#[verifier::loop_isolation(false)]
pub fn clone_actions(actions: &Vec<Action>) -> (r: Vec<Action>)
    ensures
        r.deep_view() == actions.deep_view(),
{
    let mut r: Vec<Action> = Vec::new();
    let n = actions.len();
    for i in 0..n
        invariant
            n == actions@.len(),
            r@.len() == i,
            forall|j: int| 0 <= j < i ==> (#[trigger] r@[j]).deep_view()
                == actions@[j].deep_view(),
    {
        r.push(actions[i].clone());
    }
    proof {
        assert(r.deep_view() =~= actions.deep_view());
    }
    r
}

/// The serializable state of one playthrough.
#[derive(Debug)]
pub struct RawContext {
    /// The tag of the current paragraph.
    pub cur_para: String,
    /// The index of the next text within the current paragraph.
    pub cur_act: usize,
    /// The record locals.
    pub locals: VarMap,
    /// The cooked actions produced so far, oldest first.
    pub history: Vec<Action>,
}

/// The mathematical model of a [`RawContext`].
pub struct ContextV {
    /// The tag of the current paragraph.
    pub cur_para: Seq<char>,
    /// The index of the next text within the current paragraph.
    pub cur_act: int,
    /// The record locals.
    pub locals: Seq<(Seq<char>, ValueV)>,
    /// The cooked actions produced so far, oldest first.
    pub history: Seq<ActionV>,
}

impl DeepView for RawContext {
    type V = ContextV;

    open spec fn deep_view(&self) -> ContextV {
        ContextV {
            cur_para: self.cur_para@,
            cur_act: self.cur_act as int,
            locals: self.locals@,
            history: self.history.deep_view(),
        }
    }
}

impl Clone for RawContext {
    fn clone(&self) -> (r: RawContext)
        ensures
            r.deep_view() == self.deep_view(),
            r.cur_act == self.cur_act,
            r.locals@ == self.locals@,
            r.history@.len() == self.history@.len(),
            forall|i: int| 0 <= i < r.history@.len() ==> (#[trigger] r.history@[i]).act_index
                == self.history@[i].act_index && r.history@[i].vars@ == self.history@[i].vars@,
            self.wf() ==> r.wf(),
    {
        let r = RawContext {
            cur_para: self.cur_para.clone(),
            cur_act: self.cur_act,
            locals: self.locals.duplicate(),
            history: clone_actions(&self.history),
        };
        proof {
            assert(r.history.deep_view() == self.history.deep_view());
            assert(r.history.deep_view().len() == r.history@.len());
            assert(self.history.deep_view().len() == self.history@.len());
            assert forall|i: int| 0 <= i < r.history@.len() implies (
            #[trigger] r.history@[i]).act_index == self.history@[i].act_index && r.history@[
            i].vars@ == self.history@[i].vars@ by {
                assert(r.history.deep_view()[i] == r.history@[i].deep_view());
                assert(self.history.deep_view()[i] == self.history@[i].deep_view());
                assert(r.history@[i].deep_view() == self.history@[i].deep_view());
            }
        }
        r
    }
}

impl RawContext {
    /// A record is well formed when its variable tables are.
    pub open spec fn wf(&self) -> bool {
        crate::varmap::unique_keys(self.locals@) && (forall|i: int|
            0 <= i < self.history@.len() ==> crate::varmap::unique_keys(
                (#[trigger] self.history@[i]).vars@,
            ))
    }
}

/// The front-end settings the engine reads: the chosen locale.
#[derive(Debug)]
pub struct Settings {
    /// The chosen locale tag.
    pub lang: String,
}

impl Clone for Settings {
    fn clone(&self) -> (r: Settings)
        ensures
            r.lang@ == self.lang@,
    {
        Settings { lang: self.lang.clone() }
    }
}

/// Cross-run state kept per game.
#[derive(Debug)]
pub struct GlobalRecord {
    /// Persistent values.
    pub vars: VarMap,
}

impl Clone for GlobalRecord {
    fn clone(&self) -> (r: GlobalRecord)
        ensures
            r.vars@ == self.vars@,
    {
        GlobalRecord { vars: self.vars.duplicate() }
    }
}

} // verus!
