//! The plugin host: loaded modules, their kinds, and typed dispatch.
//!
//! A module is loaded by an engine backend that implements [`RawModule`]:
//! one raw call of a named export over encoded bytes. The host classifies
//! each module by the kinds it advertises and routes typed calls to it.

use crate::codec::{
    sp_plugin_type_wire, sp_wire_plugin_type, plugin_type_from_wire, value_to_wire, values_to_wire,
    wire_to_value,
};
use crate::value::RawValue;
use crate::varmap::{lemma_map_of_has_key, lemma_map_of_value, map_of, seq_has_key, unique_keys};
use crate::wire::{decode_wire, encode_wire, Wire};
use vstd::prelude::*;

verus! {

/// An error from loading or calling a plugin: a human-readable message.
#[derive(Debug)]
pub struct PluginError {
    /// The message.
    pub msg: String,
}

impl Clone for PluginError {
    fn clone(&self) -> (r: PluginError)
        ensures
            r.msg@ == self.msg@,
    {
        PluginError { msg: self.msg.clone() }
    }
}

/// A loaded module of some engine backend: calling a named export with an
/// encoded argument buffer gives an encoded reply, or fails.
///
/// Engine backends implement this over their stores and instances; the
/// host states nothing about what a module computes.
pub trait RawModule: Sized {
    /// Calls the named export on the encoded arguments.
    fn call_raw(&self, name: &str, data: &Vec<u8>) -> Result<Vec<u8>, PluginError>;
}

/// The kinds a module advertises: whether it rewrites actions, which text
/// commands it handles, which line commands, and whether it rewrites the
/// game config at load.
#[derive(Debug)]
pub struct PluginType {
    /// The module takes part in the action pipeline.
    pub action: bool,
    /// The text commands the module handles.
    pub text: Vec<String>,
    /// The line commands the module handles.
    pub line: Vec<String>,
    /// The module rewrites the game config at load.
    pub game: bool,
}

/// The mathematical model of a [`PluginType`].
pub struct PluginTypeV {
    /// The module takes part in the action pipeline.
    pub action: bool,
    /// The text commands the module handles.
    pub text: Seq<Seq<char>>,
    /// The line commands the module handles.
    pub line: Seq<Seq<char>>,
    /// The module rewrites the game config at load.
    pub game: bool,
}

impl DeepView for PluginType {
    type V = PluginTypeV;

    open spec fn deep_view(&self) -> PluginTypeV {
        PluginTypeV {
            action: self.action,
            text: self.text.deep_view(),
            line: self.line.deep_view(),
            game: self.game,
        }
    }
}

impl PluginType {
    /// A module that advertises nothing but script functions.
    pub fn script() -> (r: PluginType)
        ensures
            r.deep_view() == (PluginTypeV {
                action: false,
                text: Seq::<Seq<char>>::empty(),
                line: Seq::<Seq<char>>::empty(),
                game: false,
            }),
    {
        let r = PluginType { action: false, text: Vec::new(), line: Vec::new(), game: false };
        proof {
            assert(r.text.deep_view() =~= Seq::<Seq<char>>::empty());
            assert(r.line.deep_view() =~= Seq::<Seq<char>>::empty());
        }
        r
    }
}

/// One loaded module with the means to call it.
pub struct Host<M: RawModule> {
    module: M,
}

impl<M: RawModule> Host<M> {
    /// Wraps a loaded module.
    pub fn new(module: M) -> Host<M> {
        Host { module }
    }

    /// Calls a named export: encodes the argument node, performs the raw
    /// call, and decodes the reply, which is whatever the module sent.
    pub fn call(&self, name: &str, args: &Wire) -> Result<Wire, PluginError> {
        let mut buf: Vec<u8> = Vec::new();
        encode_wire(args, &mut buf);
        match self.module.call_raw(name, &buf) {
            Ok(reply) => match decode_wire(&reply, 0) {
                Some((w, end)) => if end == reply.len() {
                    Ok(w)
                } else {
                    Err(PluginError { msg: "trailing bytes in plugin reply".to_owned() })
                },
                None => Err(PluginError { msg: "malformed plugin reply".to_owned() }),
            },
            Err(e) => Err(e),
        }
    }

    /// Calls a script function of the module; the value is whatever the
    /// module computed, so nothing more is promised of it.
    pub fn dispatch_method(&self, name: &str, args: &Vec<RawValue>) -> Result<
        RawValue,
        PluginError,
    > {
        let w = values_to_wire(args);
        match self.call(name, &w) {
            Ok(reply) => match wire_to_value(&reply) {
                Some(v) => Ok(v),
                None => Err(PluginError { msg: "plugin reply is no value".to_owned() }),
            },
            Err(e) => Err(e),
        }
    }

    /// Asks the module which kinds it advertises.
    pub fn plugin_type(&self) -> Result<PluginType, PluginError> {
        let args = Wire::Arr(Vec::new());
        match self.call("plugin_type", &args) {
            Ok(reply) => match plugin_type_from_wire(&reply) {
                Some(t) => Ok(t),
                None => Err(PluginError { msg: "malformed plugin type".to_owned() }),
            },
            Err(e) => Err(e),
        }
    }
}

/// One step of load progress.
#[derive(Debug)]
pub enum LoadStatus {
    /// The engine is being created.
    CreateEngine,
    /// The named module is being loaded: its name, its index, the total.
    LoadPlugin(String, usize, usize),
}

/// The name-to-module-name routing table built from the advertised kinds
/// of the modules in load order: a later module advertising the same
/// command wins.
pub open spec fn route_table(
    mods: Seq<(Seq<char>, PluginTypeV)>,
    take_line: bool,
) -> Map<Seq<char>, Seq<char>>
    decreases mods.len(),
{
    if mods.len() == 0 {
        Map::empty()
    } else {
        register_cmds(
            route_table(mods.drop_last(), take_line),
            if take_line {
                mods.last().1.line
            } else {
                mods.last().1.text
            },
            mods.last().0,
        )
    }
}

/// Registers the commands of one module into a routing table.
pub open spec fn register_cmds(
    m: Map<Seq<char>, Seq<char>>,
    cmds: Seq<Seq<char>>,
    name: Seq<char>,
) -> Map<Seq<char>, Seq<char>>
    decreases cmds.len(),
{
    if cmds.len() == 0 {
        m
    } else {
        register_cmds(m, cmds.drop_last(), name).insert(cmds.last(), name)
    }
}

/// The names of the modules with a set flag, in load order.
pub open spec fn flagged_names(mods: Seq<(Seq<char>, PluginTypeV)>, game: bool) -> Seq<Seq<char>>
    decreases mods.len(),
{
    if mods.len() == 0 {
        Seq::empty()
    } else {
        let rest = flagged_names(mods.drop_last(), game);
        let flag = if game {
            mods.last().1.game
        } else {
            mods.last().1.action
        };
        if flag {
            rest.push(mods.last().0)
        } else {
            rest
        }
    }
}

/// The loaded plugin host: the modules by name and the four registration
/// tables, fixed at load.
pub struct Runtime<M: RawModule> {
    modules: Vec<(String, Host<M>)>,
    action_modules: Vec<String>,
    text_modules: Vec<(String, String)>,
    line_modules: Vec<(String, String)>,
    game_modules: Vec<String>,
}

impl<M: RawModule> Runtime<M> {
    /// The names of the loaded modules, in load order.
    pub closed spec fn module_names(&self) -> Seq<Seq<char>> {
        Seq::new(self.modules@.len(), |i: int| self.modules@[i].0@)
    }

    /// Whether a module of that name is loaded.
    pub closed spec fn has_module(&self, ns: Seq<char>) -> bool {
        exists|i: int| 0 <= i < self.modules@.len() && (#[trigger] self.modules@[i].0@) == ns
    }

    /// The text command routing table.
    pub closed spec fn text_route(&self) -> Map<Seq<char>, Seq<char>> {
        map_of(self.text_modules.deep_view())
    }

    /// The line command routing table.
    pub closed spec fn line_route(&self) -> Map<Seq<char>, Seq<char>> {
        map_of(self.line_modules.deep_view())
    }

    /// The action pipeline, in load order.
    pub closed spec fn action_order(&self) -> Seq<Seq<char>> {
        self.action_modules.deep_view()
    }

    /// The game module list, in load order.
    pub closed spec fn game_order(&self) -> Seq<Seq<char>> {
        self.game_modules.deep_view()
    }

    /// The loaded modules with their names, in load order.
    pub closed spec fn module_pairs(&self) -> Seq<(Seq<char>, Host<M>)> {
        Seq::new(self.modules@.len(), |i: int| (self.modules@[i].0@, self.modules@[i].1))
    }

    /// Internal consistency of the tables.
    pub closed spec fn wf(&self) -> bool {
        unique_keys(self.text_modules.deep_view()) && unique_keys(self.line_modules.deep_view())
            && unique_keys(
            Seq::new(self.modules@.len(), |i: int| (self.modules@[i].0@, 0int)),
        )
    }

    /// Looks up the module a namespace names: the host loaded under that
    /// very name.
    pub fn module(&self, ns: &String) -> (r: Option<&Host<M>>)
        ensures
            r is Some <==> self.has_module(ns@),
            (match r {
                Some(h) => exists|i: int|
                    0 <= i < self.module_pairs().len() && (#[trigger] self.module_pairs()[i]).0
                        == ns@ && *h == self.module_pairs()[i].1,
                None => true,
            }),
    {
        let n = self.modules.len();
        #[verifier::loop_isolation(false)]
        for i in 0..n
            invariant
                n == self.modules@.len(),
                forall|j: int| 0 <= j < i ==> (#[trigger] self.modules@[j].0@) != ns@,
        {
            if self.modules[i].0.eq(ns) {
                proof {
                    assert((self.module_pairs()[i as int]).0 == ns@ && self.modules@[i as int].1
                        == self.module_pairs()[i as int].1);
                }
                return Some(&self.modules[i].1);
            }
        }
        None
    }

    /// The number of loaded modules.
    pub fn module_count(&self) -> (n: usize)
        ensures
            n == self.module_names().len(),
    {
        self.modules.len()
    }

    /// The names of the action pipeline, in load order.
    pub fn action_modules(&self) -> (r: &Vec<String>)
        ensures
            r.deep_view() == self.action_order(),
    {
        &self.action_modules
    }

    /// The names of the game modules, in load order.
    pub fn game_modules(&self) -> (r: &Vec<String>)
        ensures
            r.deep_view() == self.game_order(),
    {
        &self.game_modules
    }

    /// The module name a text command routes to.
    pub fn text_module_of(&self, cmd: &String) -> (r: Option<&String>)
        requires
            self.wf(),
        ensures
            match r {
                Some(name) => self.text_route().contains_key(cmd@) && name@ == self.text_route()[
                    cmd@],
                None => !self.text_route().contains_key(cmd@),
            },
    {
        proof {
            lemma_map_of_has_key(self.text_modules.deep_view(), cmd@);
        }
        let n = self.text_modules.len();
        #[verifier::loop_isolation(false)]
        for i in 0..n
            invariant
                n == self.text_modules@.len(),
                forall|j: int| 0 <= j < i ==> (#[trigger] self.text_modules.deep_view()[j]).0
                    != cmd@,
        {
            if self.text_modules[i].0.eq(cmd) {
                proof {
                    lemma_map_of_value(self.text_modules.deep_view(), i as int);
                }
                return Some(&self.text_modules[i].1);
            }
        }
        None
    }

    /// The module name a line command routes to.
    pub fn line_module_of(&self, cmd: &String) -> (r: Option<&String>)
        requires
            self.wf(),
        ensures
            match r {
                Some(name) => self.line_route().contains_key(cmd@) && name@ == self.line_route()[
                    cmd@],
                None => !self.line_route().contains_key(cmd@),
            },
    {
        proof {
            lemma_map_of_has_key(self.line_modules.deep_view(), cmd@);
        }
        let n = self.line_modules.len();
        #[verifier::loop_isolation(false)]
        for i in 0..n
            invariant
                n == self.line_modules@.len(),
                forall|j: int| 0 <= j < i ==> (#[trigger] self.line_modules.deep_view()[j]).0
                    != cmd@,
        {
            if self.line_modules[i].0.eq(cmd) {
                proof {
                    lemma_map_of_value(self.line_modules.deep_view(), i as int);
                }
                return Some(&self.line_modules[i].1);
            }
        }
        None
    }

    /// Calls a script function `ns.name`; `None` when no module is named
    /// `ns`. The value is whatever the module computed.
    pub fn dispatch_method(&self, ns: &String, name: &str, args: &Vec<RawValue>) -> (r: Option<
        Result<RawValue, PluginError>,
    >)
        ensures
            r is Some <==> self.has_module(ns@),
    {
        match self.module(ns) {
            Some(host) => Some(host.dispatch_method(name, args)),
            None => None,
        }
    }
}


/// Pairs load-ordered module names with advertised types.
pub open spec fn paired(names: Seq<Seq<char>>, tys: Seq<PluginTypeV>) -> Seq<
    (Seq<char>, PluginTypeV),
>
    recommends
        names.len() == tys.len(),
{
    Seq::new(names.len(), |i: int| (names[i], tys[i]))
}

/// Inserts a route, replacing any previous module for the command.
#[verifier::loop_isolation(false)]
fn route_insert(routes: &mut Vec<(String, String)>, cmd: String, name: String)
    requires
        unique_keys(old(routes).deep_view()),
    ensures
        unique_keys(final(routes).deep_view()),
        map_of(final(routes).deep_view()) == map_of(old(routes).deep_view()).insert(cmd@, name@),
{
    let ghost orig = routes.deep_view();
    let n = routes.len();
    for i in 0..n
        invariant
            n == routes@.len(),
            routes.deep_view() == orig,
            forall|j: int| 0 <= j < i ==> (#[trigger] orig[j]).0 != cmd@,
    {
        if routes[i].0.eq(&cmd) {
            routes[i] = (cmd, name);
            proof {
                assert(routes.deep_view() =~= orig.update(i as int, (cmd@, name@)));
                crate::varmap::lemma_insert_update(orig, i as int, name@);
                assert(unique_keys(routes.deep_view()));
            }
            return ;
        }
    }
    routes.push((cmd, name));
    proof {
        assert(routes.deep_view() =~= orig.push((cmd@, name@)));
        assert(routes.deep_view().drop_last() =~= orig);
        assert(unique_keys(routes.deep_view()));
    }
}

impl<M: RawModule> Runtime<M> {
    /// Builds the host from loaded modules and the kinds each advertised:
    /// the four registration tables follow load order, and for text and
    /// line commands a later module advertising the same command wins.
    #[verifier::loop_isolation(false)]
    pub fn register(mods: Vec<(String, Host<M>)>, tys: &Vec<PluginType>) -> (r: Runtime<M>)
        requires
            mods@.len() == tys@.len(),
            forall|i: int, j: int|
                0 <= i < j < mods@.len() ==> (#[trigger] mods@[i].0@) != (#[trigger] mods@[j].0@),
        ensures
            r.wf(),
            r.module_names() == Seq::new(mods@.len(), |i: int| mods@[i].0@),
            r.text_route() == route_table(
                paired(Seq::new(mods@.len(), |i: int| mods@[i].0@), tys.deep_view()),
                false,
            ),
            r.line_route() == route_table(
                paired(Seq::new(mods@.len(), |i: int| mods@[i].0@), tys.deep_view()),
                true,
            ),
            r.action_order() == flagged_names(
                paired(Seq::new(mods@.len(), |i: int| mods@[i].0@), tys.deep_view()),
                false,
            ),
            r.game_order() == flagged_names(
                paired(Seq::new(mods@.len(), |i: int| mods@[i].0@), tys.deep_view()),
                true,
            ),
    {
        let ghost names = Seq::new(mods@.len(), |i: int| mods@[i].0@);
        let ghost pairs = paired(names, tys.deep_view());
        let mut action_modules: Vec<String> = Vec::new();
        let mut text_modules: Vec<(String, String)> = Vec::new();
        let mut line_modules: Vec<(String, String)> = Vec::new();
        let mut game_modules: Vec<String> = Vec::new();
        let n = mods.len();
        for i in 0..n
            invariant
                n == mods@.len(),
                n == tys@.len(),
                unique_keys(text_modules.deep_view()),
                unique_keys(line_modules.deep_view()),
                map_of(text_modules.deep_view()) == route_table(pairs.subrange(0, i as int), false),
                map_of(line_modules.deep_view()) == route_table(pairs.subrange(0, i as int), true),
                action_modules.deep_view() == flagged_names(pairs.subrange(0, i as int), false),
                game_modules.deep_view() == flagged_names(pairs.subrange(0, i as int), true),
        {
            let name = &mods[i].0;
            let ty = &tys[i];
            if ty.action {
                action_modules.push(name.clone());
            }
            let ghost text_before = map_of(text_modules.deep_view());
            let m = ty.text.len();
            for j in 0..m
                invariant
                    m == ty.text@.len(),
                    unique_keys(text_modules.deep_view()),
                    map_of(text_modules.deep_view()) == register_cmds(
                        text_before,
                        ty.text.deep_view().subrange(0, j as int),
                        name@,
                    ),
            {
                route_insert(&mut text_modules, ty.text[j].clone(), name.clone());
                proof {
                    let cmds = ty.text.deep_view();
                    assert(cmds.subrange(0, j + 1).drop_last() =~= cmds.subrange(0, j as int));
                    assert(cmds.subrange(0, j + 1).last() == cmds[j as int]);
                }
            }
            let ghost line_before = map_of(line_modules.deep_view());
            let lm = ty.line.len();
            for j in 0..lm
                invariant
                    lm == ty.line@.len(),
                    unique_keys(line_modules.deep_view()),
                    map_of(line_modules.deep_view()) == register_cmds(
                        line_before,
                        ty.line.deep_view().subrange(0, j as int),
                        name@,
                    ),
            {
                route_insert(&mut line_modules, ty.line[j].clone(), name.clone());
                proof {
                    let cmds = ty.line.deep_view();
                    assert(cmds.subrange(0, j + 1).drop_last() =~= cmds.subrange(0, j as int));
                    assert(cmds.subrange(0, j + 1).last() == cmds[j as int]);
                }
            }
            if ty.game {
                game_modules.push(name.clone());
            }
            proof {
                let sub1 = pairs.subrange(0, i + 1);
                assert(sub1.drop_last() =~= pairs.subrange(0, i as int));
                assert(sub1.last() == pairs[i as int]);
                assert(ty.text.deep_view().subrange(0, m as int) =~= ty.text.deep_view());
                assert(ty.line.deep_view().subrange(0, lm as int) =~= ty.line.deep_view());
                if ty.action {
                    assert(action_modules.deep_view() =~= flagged_names(sub1, false));
                }
                if ty.game {
                    assert(game_modules.deep_view() =~= flagged_names(sub1, true));
                }
            }
        }
        let r = Runtime { modules: mods, action_modules, text_modules, line_modules, game_modules };
        proof {
            assert(pairs.subrange(0, n as int) =~= pairs);
            assert(r.module_names() =~= names);
            assert(unique_keys(Seq::new(r.modules@.len(), |i: int| (r.modules@[i].0@, 0int))));
        }
        r
    }

    /// Loads modules in order: asks each for its advertised kinds, then
    /// registers all of them; the kinds are returned with the runtime.
    /// Fails when a module cannot say its kind.
    #[verifier::loop_isolation(false)]
    pub fn load_modules(mods: Vec<(String, M)>) -> (r: Result<
        (Runtime<M>, Vec<PluginType>),
        PluginError,
    >)
        requires
            forall|i: int, j: int|
                0 <= i < j < mods@.len() ==> (#[trigger] mods@[i].0@) != (#[trigger] mods@[j].0@),
        ensures
            match r {
                Ok((rt, tys)) => {
                    let pairs = paired(rt.module_names(), tys.deep_view());
                    &&& rt.wf()
                    &&& rt.module_names() == Seq::new(mods@.len(), |i: int| mods@[i].0@)
                    &&& tys@.len() == mods@.len()
                    &&& rt.text_route() == route_table(pairs, false)
                    &&& rt.line_route() == route_table(pairs, true)
                    &&& rt.action_order() == flagged_names(pairs, false)
                    &&& rt.game_order() == flagged_names(pairs, true)
                },
                Err(_) => true,
            },
    {
        let mut hosts: Vec<(String, Host<M>)> = Vec::new();
        let mut tys: Vec<PluginType> = Vec::new();
        let n = mods.len();
        let ghost in_names = Seq::new(mods@.len(), |i: int| mods@[i].0@);
        let mut mods = mods;
        let mut i: usize = 0;
        while i < n
            invariant
                n == in_names.len(),
                mods@.len() + i == n,
                hosts@.len() == i,
                tys@.len() == i,
                forall|j: int| 0 <= j < i ==> (#[trigger] hosts@[j].0@) == in_names[j],
                forall|j: int| 0 <= j < mods@.len() ==> (#[trigger] mods@[j].0@) == in_names[
                    i + j],
            decreases n - i,
        {
            let (name, m) = mods.remove(0);
            let host = Host::new(m);
            let ty = match host.plugin_type() {
                Ok(t) => t,
                Err(e) => {
                    return Err(e);
                },
            };
            hosts.push((name, host));
            tys.push(ty);
            i = i + 1;
        }
        proof {
            assert(forall|a: int, b: int|
                0 <= a < b < hosts@.len() ==> (#[trigger] hosts@[a].0@) != (
                #[trigger] hosts@[b].0@));
        }
        proof {
            assert(Seq::new(hosts@.len(), |j: int| hosts@[j].0@) =~= in_names);
        }
        let rt = Runtime::register(hosts, &tys);
        Ok((rt, tys))
    }
}

/// Registering commands routes a contained command to the registering
/// module and leaves other commands alone.
pub proof fn lemma_register_cmds(
    m: Map<Seq<char>, Seq<char>>,
    cmds: Seq<Seq<char>>,
    name: Seq<char>,
    c: Seq<char>,
)
    ensures
        cmds.contains(c) ==> register_cmds(m, cmds, name).contains_key(c) && register_cmds(
            m,
            cmds,
            name,
        )[c] == name,
        !cmds.contains(c) ==> (register_cmds(m, cmds, name).contains_key(c) <==> m.contains_key(c))
            && (m.contains_key(c) ==> register_cmds(m, cmds, name)[c] == m[c]),
    decreases cmds.len(),
{
    if cmds.len() > 0 {
        lemma_register_cmds(m, cmds.drop_last(), name, c);
        if cmds.contains(c) && cmds.last() != c {
            let i = choose|i: int| 0 <= i < cmds.len() && cmds[i] == c;
            assert(cmds.drop_last()[i] == c);
            assert(cmds.drop_last().contains(c));
        }
        if !cmds.contains(c) {
            assert(forall|i: int|
                0 <= i < cmds.drop_last().len() ==> cmds.drop_last()[i] == cmds[i]);
            if cmds.drop_last().contains(c) {
                let i = choose|i: int|
                    0 <= i < cmds.drop_last().len() && cmds.drop_last()[i] == c;
                assert(cmds[i] == c);
            }
        }
    }
}

/// A module advertising a command routes the command to itself, unless a
/// later module also advertises it: the last advertiser wins.
pub proof fn lemma_route_last_wins(
    mods: Seq<(Seq<char>, PluginTypeV)>,
    take_line: bool,
    c: Seq<char>,
    i: int,
)
    requires
        0 <= i < mods.len(),
        (if take_line {
            mods[i].1.line
        } else {
            mods[i].1.text
        }).contains(c),
        forall|j: int|
            i < j < mods.len() ==> !(if take_line {
                (#[trigger] mods[j]).1.line
            } else {
                mods[j].1.text
            }).contains(c),
    ensures
        route_table(mods, take_line).contains_key(c),
        route_table(mods, take_line)[c] == mods[i].0,
    decreases mods.len(),
{
    let last = mods.last();
    let last_cmds = if take_line {
        last.1.line
    } else {
        last.1.text
    };
    lemma_register_cmds(route_table(mods.drop_last(), take_line), last_cmds, last.0, c);
    if i == mods.len() - 1 {
    } else {
        assert(!last_cmds.contains(c));
        assert(mods.drop_last()[i] == mods[i]);
        lemma_route_last_wins(mods.drop_last(), take_line, c, i);
    }
}

/// A command no module advertises has no route.
pub proof fn lemma_route_absent(mods: Seq<(Seq<char>, PluginTypeV)>, take_line: bool, c: Seq<char>)
    requires
        forall|j: int|
            0 <= j < mods.len() ==> !(if take_line {
                (#[trigger] mods[j]).1.line
            } else {
                mods[j].1.text
            }).contains(c),
    ensures
        !route_table(mods, take_line).contains_key(c),
    decreases mods.len(),
{
    if mods.len() > 0 {
        let last = mods.last();
        let last_cmds = if take_line {
            last.1.line
        } else {
            last.1.text
        };
        lemma_register_cmds(route_table(mods.drop_last(), take_line), last_cmds, last.0, c);
        assert(forall|j: int| 0 <= j < mods.drop_last().len() ==> mods.drop_last()[j] == mods[j]);
        lemma_route_absent(mods.drop_last(), take_line, c);
    }
}


/// The kind of front end driving playback.
#[derive(Clone, Copy, Debug, PartialEq, Eq, Structural)]
pub enum FrontendType {
    /// A plain-text front end.
    Text,
    /// An HTML front end.
    Html,
    /// A LaTeX front end.
    Latex,
}

/// The code of a front end kind on the wire.
pub open spec fn sp_frontend_code(f: FrontendType) -> i64 {
    match f {
        FrontendType::Text => 0,
        FrontendType::Html => 1,
        FrontendType::Latex => 2,
    }
}

/// Encodes a front end kind.
pub fn frontend_code(f: FrontendType) -> (c: i64)
    ensures
        c == sp_frontend_code(f),
{
    match f {
        FrontendType::Text => 0,
        FrontendType::Html => 1,
        FrontendType::Latex => 2,
    }
}

/// What a line command hands back: values merged into the record locals.
#[derive(Debug)]
pub struct LineProcessResult {
    /// The values to merge into the record locals.
    pub locals: crate::varmap::VarMap,
}

/// What a text command hands back: the replacement text.
#[derive(Debug)]
pub struct TextProcessResult {
    /// The replacement text.
    pub text: String,
}

impl<M: RawModule> Host<M> {
    /// Asks an action module to rewrite a cooked action: sends the front
    /// end kind and the action, reads an action back. What comes back is
    /// whatever the module computed.
    pub fn process_action(&self, frontend: FrontendType, action: &crate::record::Action) -> (r:
        Result<crate::record::Action, PluginError>)
        requires
            action.act_index <= i64::MAX,
        ensures
            r matches Ok(a) ==> a.vars.wf(),
    {
        let mut ws: Vec<Wire> = Vec::new();
        ws.push(Wire::Int(frontend_code(frontend)));
        ws.push(crate::serial::action_to_wire(action));
        let args = Wire::Arr(ws);
        match self.call("process_action", &args) {
            Ok(reply) => match crate::serial::wire_to_action(&reply) {
                Some(a) => Ok(a),
                None => Err(PluginError { msg: "malformed action reply".to_owned() }),
            },
            Err(e) => Err(e),
        }
    }
}

impl<M: RawModule> Runtime<M> {
    /// Routes a text command to the advertising module (a later
    /// advertiser wins) and calls it with the arguments and the game
    /// props. Fails exactly on commands without a route, and on whatever
    /// the module fails.
    pub fn dispatch_text(
        &self,
        cmd: &String,
        args: &Vec<String>,
        game_props: &Vec<(String, String)>,
        frontend: FrontendType,
    ) -> (r: Result<TextProcessResult, PluginError>)
        requires
            self.wf(),
        ensures
            !self.text_route().contains_key(cmd@) ==> r is Err,
    {
        let name = match self.text_module_of(cmd) {
            Some(name) => name.clone(),
            None => {
                return Err(PluginError { msg: "no module for text command".to_owned() });
            },
        };
        let host = match self.module(&name) {
            Some(host) => host,
            None => {
                return Err(PluginError { msg: "routed module is not loaded".to_owned() });
            },
        };
        let mut ctx_ws: Vec<Wire> = Vec::new();
        ctx_ws.push(crate::codec::props_to_wire(game_props));
        ctx_ws.push(Wire::Int(frontend_code(frontend)));
        let mut ws: Vec<Wire> = Vec::new();
        ws.push(crate::codec::strings_to_wire(args));
        ws.push(Wire::Arr(ctx_ws));
        let wire_args = Wire::Arr(ws);
        match host.call(cmd.as_str(), &wire_args) {
            Ok(reply) => match reply {
                Wire::Str(text) => Ok(TextProcessResult { text }),
                _ => Err(PluginError { msg: "malformed text reply".to_owned() }),
            },
            Err(e) => Err(e),
        }
    }

    /// Routes a line command to the advertising module (a later
    /// advertiser wins) and calls it with the run state and the command
    /// props; the reply holds values to merge into the record locals.
    /// Fails exactly on commands without a route, and on whatever the
    /// module fails.
    pub fn dispatch_line(
        &self,
        cmd: &String,
        game_props: &Vec<(String, String)>,
        frontend: FrontendType,
        ctx: &crate::record::RawContext,
        props: &crate::varmap::VarMap,
    ) -> (r: Result<LineProcessResult, PluginError>)
        requires
            self.wf(),
            ctx.cur_act <= i64::MAX,
            forall|i: int| 0 <= i < ctx.history@.len() ==> (#[trigger] ctx.history@[i]).act_index
                <= i64::MAX,
        ensures
            !self.line_route().contains_key(cmd@) ==> r is Err,
            r matches Ok(res) ==> res.locals.wf(),
    {
        let name = match self.line_module_of(cmd) {
            Some(name) => name.clone(),
            None => {
                return Err(PluginError { msg: "no module for line command".to_owned() });
            },
        };
        let host = match self.module(&name) {
            Some(host) => host,
            None => {
                return Err(PluginError { msg: "routed module is not loaded".to_owned() });
            },
        };
        let mut ws: Vec<Wire> = Vec::new();
        ws.push(crate::codec::props_to_wire(game_props));
        ws.push(Wire::Int(frontend_code(frontend)));
        ws.push(crate::serial::context_to_wire(ctx));
        ws.push(crate::codec::varmap_to_wire(props));
        let wire_args = Wire::Arr(ws);
        match host.call(cmd.as_str(), &wire_args) {
            Ok(reply) => match crate::codec::wire_to_varmap(&reply) {
                Some(locals) => Ok(LineProcessResult { locals }),
                None => Err(PluginError { msg: "malformed line reply".to_owned() }),
            },
            Err(e) => Err(e),
        }
    }

    /// Asks a game module to rewrite the game properties at load: sends
    /// the title, the author and the properties; reads properties back.
    pub fn process_game(
        &self,
        name: &String,
        title: &String,
        author: &String,
        props: &Vec<(String, String)>,
    ) -> (r: Option<Result<Vec<(String, String)>, PluginError>>)
        ensures
            r is Some <==> self.has_module(name@),
    {
        let host = match self.module(name) {
            Some(host) => host,
            None => {
                return None;
            },
        };
        let mut ws: Vec<Wire> = Vec::new();
        ws.push(Wire::Str(title.clone()));
        ws.push(Wire::Str(author.clone()));
        ws.push(crate::codec::props_to_wire(props));
        let wire_args = Wire::Arr(ws);
        match host.call("process_game", &wire_args) {
            Ok(reply) => match crate::codec::wire_to_props(&reply) {
                Some(ps) => Some(Ok(ps)),
                None => Some(
                    Err(PluginError { msg: "malformed game reply".to_owned() }),
                ),
            },
            Err(e) => Some(Err(e)),
        }
    }
}

} // verus!
