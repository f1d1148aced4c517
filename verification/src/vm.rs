//! The view-model facade: the command surface a front end drives.
//!
//! It owns the engine, the save slots and the action currently shown,
//! and turns front-end commands into engine steps. All file loading and
//! saving stays with the caller, which hands plain values in and out.

use crate::ast::Program;
use crate::config::Game;
use crate::context::{Context, sp_has_text_at, next_run_post, back_run_post, sp_start_tag};
use crate::plugin::{FrontendType, PluginError, RawModule, Runtime};
use crate::record::{Action, GlobalRecord, RawContext, Settings};
use crate::value::RawValue;
use vstd::prelude::*;

verus! {

/// A front-end error: a human-readable message in a structured envelope.
#[derive(Debug)]
pub struct CommandError {
    /// The message.
    pub msg: String,
}

impl CommandError {
    /// The message shown to the user.
    pub fn message(&self) -> (r: &String)
        ensures
            r == &self.msg,
    {
        &self.msg
    }
}

impl From<PluginError> for CommandError {
    fn from(e: PluginError) -> (r: CommandError) {
        CommandError { msg: e.msg }
    }
}

impl vstd::std_specs::convert::FromSpecImpl<PluginError> for CommandError {
    open spec fn obeys_from_spec() -> bool {
        true
    }

    open spec fn from_spec(e: PluginError) -> CommandError {
        CommandError { msg: e.msg }
    }
}

/// One stage of opening a game, published to the front end in order.
#[derive(Debug)]
pub enum OpenGameStatus {
    /// The settings are being loaded.
    LoadSettings,
    /// The named config is being read.
    LoadProfile(String),
    /// The engine is being created.
    CreateRuntime,
    /// The named module is being loaded: its name, its index, the total.
    LoadPlugin(String, usize, usize),
    /// The cross-run state is being loaded.
    LoadGlobalRecords,
    /// The save slots are being loaded.
    LoadRecords,
    /// The game is open.
    Loaded,
}

/// The summary of an open game.
#[derive(Debug)]
pub struct GameInfo {
    /// The title.
    pub title: String,
    /// The author.
    pub author: String,
    /// The global game properties.
    pub props: Vec<(String, String)>,
}

impl GameInfo {
    /// Summarizes a game config.
    pub fn new(game: &Game) -> (r: GameInfo)
        ensures
            r.title@ == game.title@,
            r.author@ == game.author@,
            r.props.deep_view() == game.props.deep_view(),
    {
        GameInfo {
            title: game.title.clone(),
            author: game.author.clone(),
            props: crate::codec::clone_props(&game.props),
        }
    }
}

/// The view model: the engine, the save slots, and the action shown.
pub struct GameViewModel<M: RawModule> {
    /// The front-end settings.
    pub settings: Settings,
    /// The save slots.
    records: Vec<RawContext>,
    /// The live engine, once a game is open.
    context: Option<Context<M>>,
    /// The action currently shown.
    action: Option<Action>,
}

impl<M: RawModule> GameViewModel<M> {
    /// The view model is sound while its engine and its save slots are.
    pub closed spec fn wf(&self) -> bool {
        &&& (self.context matches Some(c) ==> c.wf())
        &&& forall|i: int|
            0 <= i < self.records@.len() ==> {
                &&& (#[trigger] self.records@[i]).wf()
                &&& self.records@[i].cur_act <= i64::MAX
                &&& forall|j: int|
                    0 <= j < self.records@[i].history@.len() ==> (#[trigger] self.records@[
                    i].history@[j]).act_index <= i64::MAX
            }
    }

    /// The save slots, as views.
    pub closed spec fn records_view(&self) -> Seq<crate::record::ContextV> {
        self.records.deep_view()
    }

    /// The live engine, in spec.
    pub closed spec fn engine(&self) -> Option<Context<M>> {
        self.context
    }

    /// The shown action, in spec.
    pub closed spec fn shown(&self) -> Option<Action> {
        self.action
    }

    /// The settings, in spec.
    pub closed spec fn current_settings(&self) -> Settings {
        self.settings
    }

    /// Creates a view model with no game open.
    pub fn new(settings: Settings) -> (r: GameViewModel<M>)
        ensures
            r.wf(),
            r.engine() is None,
            r.shown() is None,
            r.records_view().len() == 0,
    {
        GameViewModel { settings, records: Vec::new(), context: None, action: None }
    }

    /// Installs an opened game: each game module rewrites the game
    /// properties once, in load order, then the engine starts on a fresh
    /// record. A module whose rewrite fails is skipped.
    #[verifier::loop_isolation(false)]
    pub fn open_game(&mut self, game: Game, runtime: Runtime<M>, frontend: FrontendType)
        requires
            old(self).wf(),
            runtime.wf(),
        ensures
            final(self).wf(),
            final(self).engine() matches Some(c) && c.record.deep_view().cur_para == sp_start_tag(
                &c.game,
            ) && c.record.deep_view().history.len() == 0,
            final(self).records_view() == old(self).records_view(),
    {
        let mut game = game;
        let n = runtime.game_modules().len();
        for k in 0..n
            invariant
                n == runtime.game_order().len(),
                runtime.wf(),
        {
            let name = runtime.game_modules()[k].clone();
            match runtime.process_game(&name, &game.title, &game.author, &game.props) {
                Some(Ok(props)) => {
                    game.props = props;
                },
                Some(Err(_)) => {
                    // the module is skipped for the rewrite
                },
                None => {},
            }
        }
        let ctx = Context::new(game, runtime, self.settings.clone(), frontend);
        self.context = Some(ctx);
    }

    /// Replaces the settings, on the view model and on the open engine.
    pub fn set_settings(&mut self, settings: Settings)
        requires
            old(self).wf(),
        ensures
            final(self).wf(),
            final(self).current_settings().lang@ == settings.lang@,
            final(self).records_view() == old(self).records_view(),
            final(self).shown() == old(self).shown(),
            old(self).engine() is Some <==> final(self).engine() is Some,
            (match (old(self).engine(), final(self).engine()) {
                (Some(c0), Some(c1)) => {
                    &&& c1.settings.lang@ == settings.lang@
                    &&& c1.game == c0.game
                    &&& c1.runtime == c0.runtime
                    &&& c1.record == c0.record
                    &&& c1.global_record == c0.global_record
                    &&& c1.frontend == c0.frontend
                },
                _ => true,
            }),
    {
        match &mut self.context {
            Some(c) => {
                c.set_settings(settings.clone());
            },
            None => {},
        }
        self.settings = settings;
    }

    /// The current settings.
    pub fn get_settings(&self) -> (r: &Settings)
        ensures
            r.lang@ == self.current_settings().lang@,
    {
        &self.settings
    }

    /// Replaces the cross-run state of the open engine; without one
    /// nothing changes.
    pub fn set_global_record(&mut self, g: GlobalRecord)
        requires
            old(self).wf(),
        ensures
            final(self).wf(),
            final(self).records_view() == old(self).records_view(),
            final(self).shown() == old(self).shown(),
            old(self).engine() is Some <==> final(self).engine() is Some,
            (match (old(self).engine(), final(self).engine()) {
                (Some(c0), Some(c1)) => c1 == (Context { global_record: g, ..c0 }),
                _ => true,
            }),
            old(self).engine() is None ==> *final(self) == *old(self),
    {
        match &mut self.context {
            Some(c) => {
                c.set_global_record(g);
            },
            None => {},
        }
    }

    /// The cross-run state of the open engine.
    pub fn get_global_record(&self) -> (r: Option<&GlobalRecord>)
        ensures
            r is Some <==> self.engine() is Some,
            (match (r, self.engine()) {
                (Some(g), Some(c)) => g == &c.global_record,
                _ => true,
            }),
    {
        match &self.context {
            Some(c) => Some(c.global_record()),
            None => None,
        }
    }

    /// Replaces the save slots.
    pub fn set_records(&mut self, records: Vec<RawContext>)
        requires
            old(self).wf(),
            forall|i: int|
                0 <= i < records@.len() ==> {
                    &&& (#[trigger] records@[i]).wf()
                    &&& records@[i].cur_act <= i64::MAX
                    &&& forall|j: int|
                        0 <= j < records@[i].history@.len() ==> (#[trigger] records@[i].history@[
                        j]).act_index <= i64::MAX
                },
        ensures
            final(self).wf(),
            final(self).records_view() == records.deep_view(),
    {
        self.records = records;
    }

    /// The save slots.
    pub fn get_records(&self) -> (r: &Vec<RawContext>)
        ensures
            r.deep_view() == self.records_view(),
    {
        &self.records
    }

    /// Saves the current record into a slot: an index past the end
    /// appends a new slot, any other index replaces its slot. Without an
    /// open engine nothing changes.
    pub fn save_record_to(&mut self, index: usize)
        requires
            old(self).wf(),
        ensures
            final(self).wf(),
            match old(self).engine() {
                Some(c) => {
                    &&& (index < old(self).records_view().len() ==> final(self).records_view()
                        == old(self).records_view().update(
                        index as int,
                        c.record.deep_view(),
                    ))
                    &&& (index >= old(self).records_view().len() ==> final(self).records_view()
                        == old(self).records_view().push(c.record.deep_view()))
                },
                None => final(self).records_view() == old(self).records_view(),
            },
    {
        let rc = match &self.context {
            Some(c) => c.record.clone(),
            None => {
                return ;
            },
        };
        if index >= self.records.len() {
            self.records.push(rc);
            proof {
                assert(self.records.deep_view() =~= old(self).records.deep_view().push(
                    old(self).context->Some_0.record.deep_view(),
                ));
            }
        } else {
            self.records.set(index, rc);
            proof {
                assert(self.records.deep_view() =~= old(self).records.deep_view().update(
                    index as int,
                    old(self).context->Some_0.record.deep_view(),
                ));
            }
        }
    }

    /// Starts a new run from the beginning of the game: the engine's
    /// record resets to the first paragraph of the base language, index
    /// zero, with no locals and no history; the game, the settings and
    /// the save slots stay as they are. Fails without an open engine,
    /// changing nothing.
    pub fn start_new(&mut self) -> (r: Result<(), CommandError>)
        requires
            old(self).wf(),
        ensures
            final(self).wf(),
            r is Ok <==> old(self).engine() is Some,
            final(self).records_view() == old(self).records_view(),
            final(self).shown() == old(self).shown(),
            r is Err ==> *final(self) == *old(self),
            r is Ok ==> (match (old(self).engine(), final(self).engine()) {
                (Some(c0), Some(c1)) => {
                    &&& c1.game == c0.game
                    &&& c1.runtime == c0.runtime
                    &&& c1.settings == c0.settings
                    &&& c1.global_record == c0.global_record
                    &&& c1.record.deep_view().cur_para == sp_start_tag(&c1.game)
                    &&& c1.record.deep_view().cur_act == 0
                    &&& c1.record.deep_view().locals.len() == 0
                    &&& c1.record.deep_view().history.len() == 0
                },
                _ => false,
            }),
    {
        match &mut self.context {
            Some(c) => {
                c.init_new();
                Ok(())
            },
            None => Err(CommandError { msg: "no game is open".to_owned() }),
        }
    }

    /// Resumes a saved slot: the engine takes the slot's record verbatim,
    /// replaying nothing, and the slot's last action is shown; the slots
    /// themselves stay as they are. Fails without an open engine, on an
    /// index past the slots, and on a slot with no history, changing
    /// nothing.
    pub fn start_record(&mut self, index: usize) -> (r: Result<(), CommandError>)
        requires
            old(self).wf(),
        ensures
            final(self).wf(),
            r is Ok <==> (old(self).engine() is Some && index < old(self).records_view().len()
                && old(self).records_view()[index as int].history.len() > 0),
            final(self).records_view() == old(self).records_view(),
            r is Err ==> *final(self) == *old(self),
            r is Ok ==> (match (old(self).engine(), final(self).engine()) {
                (Some(c0), Some(c1)) => {
                    &&& c1.game == c0.game
                    &&& c1.runtime == c0.runtime
                    &&& c1.settings == c0.settings
                    &&& c1.global_record == c0.global_record
                    &&& c1.record.deep_view() == old(self).records_view()[index as int]
                    &&& (match final(self).shown() {
                        Some(a) => a.deep_view() == old(self).records_view()[
                            index as int].history.last(),
                        None => false,
                    })
                },
                _ => false,
            }),
    {
        if index >= self.records.len() {
            return Err(CommandError { msg: "no such save slot".to_owned() });
        }
        if self.records[index].history.len() == 0 {
            proof {
                assert(self.records.deep_view()[index as int].history.len() == 0);
            }
            return Err(CommandError { msg: "the save slot is empty".to_owned() });
        }
        proof {
            assert(self.records.deep_view()[index as int].history.len() > 0);
        }
        match &mut self.context {
            Some(c) => {
                let rc = self.records[index].clone();
                let n = rc.history.len();
                let last = rc.history[n - 1].clone();
                proof {
                    assert(rc.deep_view() == self.records@[index as int].deep_view());
                    assert(self.records.deep_view()[index as int] == self.records@[
                        index as int].deep_view());
                    assert(last.deep_view() == rc.history@[n - 1].deep_view());
                    assert(rc.history.deep_view()[n - 1] == rc.history@[n - 1].deep_view());
                    assert(last.deep_view() == rc.deep_view().history.last());
                }
                c.init_context(rc);
                self.action = Some(last);
                Ok(())
            },
            None => Err(CommandError { msg: "no game is open".to_owned() }),
        }
    }

    /// Steps forward and shows the produced action; at the end of the
    /// game nothing is shown and the step reports `false`.
    pub fn next_run(&mut self) -> (r: bool)
        requires
            old(self).wf(),
        ensures
            final(self).wf(),
            old(self).engine() is None ==> r == false,
            match (old(self).engine(), final(self).engine()) {
                (Some(c0), Some(c1)) => {
                    &&& (r ==> match final(self).shown() {
                        Some(a) => next_run_post(
                            c0.record.deep_view(),
                            c1.record.deep_view(),
                            a.deep_view(),
                        ),
                        None => false,
                    })
                    &&& (!r ==> final(self).shown() is None)
                    &&& (sp_has_text_at(
                        &c0.game,
                        c0.settings.lang@,
                        c0.record.cur_para@,
                        c0.record.cur_act as int,
                    ) && c0.record.cur_act < i64::MAX ==> r)
                    &&& (!sp_has_text_at(
                        &c0.game,
                        c0.settings.lang@,
                        c0.record.cur_para@,
                        c0.record.cur_act as int,
                    ) && crate::context::sp_next_at(
                        &c0.game,
                        c0.settings.lang@,
                        c0.record.cur_para@,
                    ) is None ==> !r)
                },
                _ => true,
            },
    {
        match &mut self.context {
            Some(c) => match c.next_run() {
                Some(a) => {
                    self.action = Some(a);
                    true
                },
                None => {
                    self.action = None;
                    false
                },
            },
            None => false,
        }
    }

    /// Steps backward and shows the popped action; with no history the
    /// step reports `false` and the shown action stays.
    pub fn next_back_run(&mut self) -> (r: bool)
        requires
            old(self).wf(),
        ensures
            final(self).wf(),
            old(self).engine() is None ==> r == false,
            match (old(self).engine(), final(self).engine()) {
                (Some(c0), Some(c1)) => {
                    &&& (r ==> match final(self).shown() {
                        Some(a) => back_run_post(
                            c0.record.deep_view(),
                            c1.record.deep_view(),
                            a.deep_view(),
                        ),
                        None => false,
                    })
                    &&& (!r ==> c0.record.history@.len() == 0)
                },
                _ => true,
            },
    {
        match &mut self.context {
            Some(c) => match c.next_back_run() {
                Some(a) => {
                    self.action = Some(a);
                    true
                },
                None => false,
            },
            None => false,
        }
    }

    /// The action currently shown.
    pub fn current_run(&self) -> (r: &Option<Action>)
        ensures
            r == &self.shown(),
    {
        &self.action
    }

    /// Whether the shown action's position was visited before: the
    /// history holds an entry produced at the same paragraph and index.
    pub fn current_visited(&self) -> (r: bool)
        ensures
            match (self.engine(), self.shown()) {
                (Some(c), Some(a)) => r == exists|k: int|
                    0 <= k < c.record.history@.len() && (#[trigger] c.record.history@[
                    k]).para_tag@ == a.para_tag@ && c.record.history@[k].act_index == a.act_index,
                _ => r == false,
            },
    {
        match (&self.context, &self.action) {
            (Some(c), Some(a)) => c.visited(a),
            _ => false,
        }
    }

    /// Runs the program guarding a switch of the shown action; its side
    /// effects persist in the record locals. Fails without an open
    /// engine, without a shown action, and on an index past the switches.
    pub fn switch(&mut self, index: usize) -> (r: Result<RawValue, CommandError>)
        requires
            old(self).wf(),
        ensures
            final(self).wf(),
            r is Ok <==> (old(self).engine() is Some && (match old(self).shown() {
                Some(a) => index < a.switches@.len(),
                None => false,
            })),
            r is Err ==> *final(self) == *old(self),
            (match (old(self).engine(), old(self).shown()) {
                (Some(c), Some(a)) => index < a.switches@.len()
                    ==> (crate::script::sp_program(
                    a.switches@[index as int].action.deep_view(),
                    c.record.locals.map_view(),
                ) matches Some((l2, val)) ==> (match r {
                    Ok(v) => v@ == val && (match final(self).engine() {
                        Some(c2) => c2.record.locals.map_view() == l2,
                        None => false,
                    }),
                    Err(_) => false,
                })),
                _ => true,
            }),
    {
        let action = match &self.action {
            Some(a) => a,
            None => {
                return Err(CommandError { msg: "no action is shown".to_owned() });
            },
        };
        if index >= action.switches.len() {
            return Err(CommandError { msg: "no such switch".to_owned() });
        }
        match &mut self.context {
            Some(c) => {
                let program = action.switches[index].action.clone();
                Ok(c.call(&program))
            },
            None => Err(CommandError { msg: "no game is open".to_owned() }),
        }
    }

    /// The history, most recent first.
    #[verifier::loop_isolation(false)]
    pub fn history(&self) -> (r: Vec<Action>)
        ensures
            match self.engine() {
                Some(c) => r.deep_view().len() == c.record.history.deep_view().len() && forall|
                    k: int,
                |
                    0 <= k < r.deep_view().len() ==> r.deep_view()[k]
                        == c.record.history.deep_view()[r.deep_view().len() - 1 - k],
                None => r.deep_view().len() == 0,
            },
    {
        let mut r: Vec<Action> = Vec::new();
        match &self.context {
            Some(c) => {
                let n = c.record.history.len();
                let mut i: usize = n;
                while i > 0
                    invariant
                        n == c.record.history@.len(),
                        i <= n,
                        r.deep_view().len() == n - i,
                        forall|k: int| 0 <= k < n - i ==> r.deep_view()[k]
                            == c.record.history.deep_view()[n - 1 - k],
                    decreases i,
                {
                    i = i - 1;
                    let entry = c.record.history[i].clone();
                    let ghost ev = entry.deep_view();
                    let ghost prev = r.deep_view();
                    r.push(entry);
                    proof {
                        assert(r.deep_view().len() == prev.len() + 1);
                        assert(forall|m: int| 0 <= m < prev.len() ==> r.deep_view()[m] == prev[m]);
                        assert(r.deep_view()[(n - i - 1) as int] == ev);
                        assert(c.record.history.deep_view()[i as int] == c.record.history@[
                            i as int].deep_view());
                        assert(ev == c.record.history@[i as int].deep_view());
                        assert forall|k: int| 0 <= k < n - i implies r.deep_view()[k]
                            == c.record.history.deep_view()[n - 1 - k] by {
                            if k < n - i - 1 {
                                assert(r.deep_view()[k] == prev[k]);
                            }
                        }
                    }
                }
                r
            },
            None => r,
        }
    }

    /// The summary of the open game: its title, author and properties.
    pub fn info(&self) -> (r: Option<GameInfo>)
        ensures
            r is Some <==> self.engine() is Some,
            (match (r, self.engine()) {
                (Some(gi), Some(c)) => gi.title@ == c.game.title@ && gi.author@ == c.game.author@
                    && gi.props.deep_view() == c.game.props.deep_view(),
                _ => true,
            }),
    {
        match &self.context {
            Some(c) => Some(GameInfo::new(&c.game)),
            None => None,
        }
    }
}

/// The staged progress of opening a game, in order: the profile read,
/// the engine created, each module loaded, then the settings, the
/// cross-run state and the save slots, and finally the open game.
#[verifier::loop_isolation(false)]
pub fn open_status_sequence(config: &String, names: &Vec<String>) -> (r: Vec<OpenGameStatus>)
    ensures
        r@.len() == names@.len() + 6,
        r@[0] matches OpenGameStatus::LoadProfile(p) && p@ == config@,
        r@[1] is CreateRuntime,
        forall|k: int|
            0 <= k < names@.len() ==> ((#[trigger] r@[2 + k]) is LoadPlugin && r@[2
                + k]->LoadPlugin_0@ == names@[k]@ && r@[2 + k]->LoadPlugin_1 == k && r@[2
                + k]->LoadPlugin_2 == names@.len()),
        r@[names@.len() as int + 2] is LoadSettings,
        r@[names@.len() as int + 3] is LoadGlobalRecords,
        r@[names@.len() as int + 4] is LoadRecords,
        r@[names@.len() as int + 5] is Loaded,
{
    let mut r: Vec<OpenGameStatus> = Vec::new();
    r.push(OpenGameStatus::LoadProfile(config.clone()));
    r.push(OpenGameStatus::CreateRuntime);
    let n = names.len();
    for k in 0..n
        invariant
            n == names@.len(),
            r@.len() == 2 + k,
            r@[0] matches OpenGameStatus::LoadProfile(p) && p@ == config@,
            r@[1] is CreateRuntime,
            forall|j: int|
                0 <= j < k ==> ((#[trigger] r@[2 + j]) is LoadPlugin && r@[2 + j]->LoadPlugin_0@
                    == names@[j]@ && r@[2 + j]->LoadPlugin_1 == j && r@[2 + j]->LoadPlugin_2
                    == n),
    {
        let entry = OpenGameStatus::LoadPlugin(names[k].clone(), k, n);
        let ghost ev = entry;
        let ghost prev = r@;
        r.push(entry);
        proof {
            assert(forall|m: int| 0 <= m < prev.len() ==> r@[m] == prev[m]);
            assert(r@[2 + k as int] == ev);
            assert(ev is LoadPlugin);
            assert(ev->LoadPlugin_0@ == names@[k as int]@);
            assert(ev->LoadPlugin_1 == k);
            assert(ev->LoadPlugin_2 == n);
        }
    }
    r.push(OpenGameStatus::LoadSettings);
    r.push(OpenGameStatus::LoadGlobalRecords);
    r.push(OpenGameStatus::LoadRecords);
    r.push(OpenGameStatus::Loaded);
    r
}

} // verus!
