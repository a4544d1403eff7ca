//! The controller's side of a session, as a simulator of the controller keeps
//! it: the registered actions, the names that can be picked, and the force
//! request that awaits its result.
use crate::json::text_eq;
use crate::schema::{
    actions_view, opt_text, texts_view, Action, ActionModel, ClientCommand, ClientCommandContents,
    ContentsModel, ServerCommand, ServerCommandModel,
};
use vstd::prelude::*;

verus! {

/// A force request that awaits its result.
#[derive(Debug, PartialEq)]
pub struct PendingForce {
    /// The id of the action sent in answer, once one was sent.
    pub correlation_id: Option<String>,
    pub query: String,
    pub candidate_names: Vec<String>,
    pub state_snapshot: Option<String>,
}

pub struct PendingModel {
    pub correlation_id: Option<Seq<char>>,
    pub query: Seq<char>,
    pub candidate_names: Seq<Seq<char>>,
    pub state_snapshot: Option<Seq<char>>,
}

impl View for PendingForce {
    type V = PendingModel;

    open spec fn view(&self) -> PendingModel {
        PendingModel {
            correlation_id: opt_text(self.correlation_id),
            query: self.query@,
            candidate_names: texts_view(self.candidate_names@),
            state_snapshot: opt_text(self.state_snapshot),
        }
    }
}

/// What the controller knows of a session.
#[derive(Debug, PartialEq)]
pub struct ControllerState {
    /// The registered actions, one per name.
    pub actions: Vec<Action>,
    /// The names that can be picked now.
    pub selectable: Vec<String>,
    pub selected_action: Option<String>,
    /// The force request that awaits its result: none when idle.
    pub force_query: Option<PendingForce>,
    pub context: String,
    pub silent: bool,
    /// The last state of the game that is to be remembered.
    pub state: String,
    pub last_message: String,
    /// The number that the next action sent takes as its id.
    pub id_counter: u32,
}

pub struct ControllerModel {
    pub registry: Seq<ActionModel>,
    pub selectable: Seq<Seq<char>>,
    pub selected: Option<Seq<char>>,
    pub pending: Option<PendingModel>,
    pub context: Seq<char>,
    pub silent: bool,
    pub state: Seq<char>,
    pub last_message: Seq<char>,
    pub counter: u32,
}

impl View for ControllerState {
    type V = ControllerModel;

    open spec fn view(&self) -> ControllerModel {
        ControllerModel {
            registry: actions_view(self.actions@),
            selectable: texts_view(self.selectable@),
            selected: opt_text(self.selected_action),
            pending: match self.force_query {
                Some(p) => Some(p@),
                None => None,
            },
            context: self.context@,
            silent: self.silent,
            state: self.state@,
            last_message: self.last_message@,
            counter: self.id_counter,
        }
    }
}

/// The names of the registered actions, in order.
pub open spec fn names_of(reg: Seq<ActionModel>) -> Seq<Seq<char>> {
    reg.map_values(|a: ActionModel| a.name)
}

/// The position of the first registered action named `n`.
pub open spec fn index_of(reg: Seq<ActionModel>, n: Seq<char>) -> Option<int>
    decreases reg.len(),
{
    if reg.len() == 0 {
        None
    } else if reg.last().name == n && index_of(reg.drop_last(), n) is None {
        Some(reg.len() - 1)
    } else {
        index_of(reg.drop_last(), n)
    }
}

/// Registering one action: it replaces the action of the same name, or
/// comes last.
pub open spec fn upsert(reg: Seq<ActionModel>, a: ActionModel) -> Seq<ActionModel> {
    match index_of(reg, a.name) {
        Some(i) => reg.update(i, a),
        None => reg.push(a),
    }
}

/// Registering actions in turn.
pub open spec fn register_all(reg: Seq<ActionModel>, s: Seq<ActionModel>) -> Seq<ActionModel>
    decreases s.len(),
{
    if s.len() == 0 {
        reg
    } else {
        upsert(register_all(reg, s.drop_last()), s.last())
    }
}

/// The registered actions that `names` does not list.
pub open spec fn unregister_all(reg: Seq<ActionModel>, names: Seq<Seq<char>>) -> Seq<ActionModel>
    decreases reg.len(),
{
    if reg.len() == 0 {
        reg
    } else if names.contains(reg.last().name) {
        unregister_all(reg.drop_last(), names)
    } else {
        unregister_all(reg.drop_last(), names).push(reg.last())
    }
}

/// The selection, kept only if `names` offers it.
pub open spec fn keep_selected(sel: Option<Seq<char>>, names: Seq<Seq<char>>) -> Option<Seq<char>> {
    match sel {
        Some(s) => if names.contains(s) {
            Some(s)
        } else {
            None
        },
        None => None,
    }
}

/// The text shown for the last result received.
pub open spec fn result_line(success: bool, message: Option<Seq<char>>) -> Seq<char> {
    (if success {
        "success: "@
    } else {
        "failure: "@
    }) + match message {
        Some(m) => m,
        None => Seq::empty(),
    }
}

/// Whether a result closes the pending force request: it succeeded, and its id
/// is the one the answering action was sent with.
pub open spec fn closes(pending: Option<PendingModel>, id: Seq<char>, success: bool) -> bool {
    success && match pending {
        Some(p) => p.correlation_id == Some(id),
        None => false,
    }
}

/// The controller's state after host-to-controller command `c`.
pub open spec fn update_spec(m: ControllerModel, c: ContentsModel) -> ControllerModel {
    match c {
        ContentsModel::RegisterActions { actions } => {
            let reg = register_all(m.registry, actions);
            ControllerModel { registry: reg, selectable: names_of(reg), ..m }
        },
        ContentsModel::UnregisterActions { action_names } => {
            let reg = unregister_all(m.registry, action_names);
            ControllerModel {
                registry: reg,
                selectable: names_of(reg),
                selected: match m.selected {
                    Some(s) => if action_names.contains(s) {
                        None
                    } else {
                        Some(s)
                    },
                    None => None,
                },
                ..m
            }
        },
        ContentsModel::ForceActions { state, query, ephemeral_context, action_names } => {
            ControllerModel {
                selectable: action_names,
                selected: keep_selected(m.selected, action_names),
                state: if ephemeral_context == Some(true) {
                    m.state
                } else {
                    match state {
                        Some(s) => s,
                        None => Seq::empty(),
                    }
                },
                pending: Some(
                    PendingModel {
                        correlation_id: None,
                        query,
                        candidate_names: action_names,
                        state_snapshot: state,
                    },
                ),
                ..m
            }
        },
        ContentsModel::Context { message, silent } => ControllerModel {
            context: message,
            silent,
            ..m
        },
        ContentsModel::ActionResult { id, success, message } => {
            let m1 = ControllerModel { last_message: result_line(success, message), ..m };
            if closes(m.pending, id, success) {
                ControllerModel {
                    pending: None,
                    selectable: names_of(m.registry),
                    selected: keep_selected(m.selected, names_of(m.registry)),
                    ..m1
                }
            } else {
                m1
            }
        },
        _ => m,
    }
}

pub open spec fn digit(d: nat) -> char {
    if d == 0 {
        '0'
    } else if d == 1 {
        '1'
    } else if d == 2 {
        '2'
    } else if d == 3 {
        '3'
    } else if d == 4 {
        '4'
    } else if d == 5 {
        '5'
    } else if d == 6 {
        '6'
    } else if d == 7 {
        '7'
    } else if d == 8 {
        '8'
    } else {
        '9'
    }
}

/// The decimal text of a number.
pub open spec fn decimal(n: nat) -> Seq<char>
    decreases n,
{
    if n < 10 {
        seq![digit(n)]
    } else {
        decimal(n / 10).push(digit(n % 10))
    }
}

/// The counter after one more id was handed out; it wraps around.
pub open spec fn next_counter(c: u32) -> u32 {
    if c == u32::MAX {
        0
    } else {
        (c + 1) as u32
    }
}

/// The state after the controller sends the selected action with parameter
/// text `data` (none when empty): the action takes the counter as its id,
/// which a pending force request records.
pub open spec fn send_state(m: ControllerModel) -> ControllerModel {
    ControllerModel {
        counter: next_counter(m.counter),
        pending: match m.pending {
            Some(p) => Some(PendingModel { correlation_id: Some(decimal(m.counter as nat)), ..p }),
            None => None,
        },
        ..m
    }
}

/// The action that the controller sends.
pub open spec fn sent_command(m: ControllerModel, data: Seq<char>) -> ServerCommandModel {
    ServerCommandModel::Action {
        id: decimal(m.counter as nat),
        name: match m.selected {
            Some(s) => s,
            None => Seq::empty(),
        },
        data: if data.len() == 0 {
            None
        } else {
            Some(data)
        },
    }
}

/// After a force request, the controller awaits its result, with only the
/// candidates to pick from. Once the answering action is sent, a successful
/// result with another id, or a failed one with its id, leaves the request
/// pending, as does a change of the registered actions; a successful result
/// with its id ends it and makes every registered name selectable again.
pub proof fn lemma_force_request_cycle(
    m: ControllerModel,
    state: Option<Seq<char>>,
    query: Seq<char>,
    ephemeral_context: Option<bool>,
    action_names: Seq<Seq<char>>,
    other_id: Seq<char>,
    message: Option<Seq<char>>,
    more: Seq<ActionModel>,
)
    ensures
        ({
            let m1 = update_spec(
                m,
                ContentsModel::ForceActions { state, query, ephemeral_context, action_names },
            );
            let m2 = send_state(m1);
            let id = decimal(m1.counter as nat);
            let done = update_spec(m2, ContentsModel::ActionResult { id, success: true, message });
            &&& m1.pending is Some
            &&& m1.selectable == action_names
            &&& update_spec(m1, ContentsModel::RegisterActions { actions: more }).pending
                == m1.pending
            &&& sent_command(m1, Seq::empty())->Action_id == id
            &&& other_id != id ==> update_spec(
                m2,
                ContentsModel::ActionResult { id: other_id, success: true, message },
            ).pending is Some
            &&& update_spec(
                m2,
                ContentsModel::ActionResult { id, success: false, message },
            ).pending is Some
            &&& done.pending is None
            &&& done.registry == m.registry
            &&& done.selectable == names_of(m.registry)
        }),
{
}

proof fn lemma_index_of(reg: Seq<ActionModel>, n: Seq<char>)
    ensures
        match index_of(reg, n) {
            None => forall|j: int| 0 <= j < reg.len() ==> (#[trigger] reg[j]).name != n,
            Some(i) => 0 <= i < reg.len() && reg[i].name == n && forall|j: int|
                0 <= j < i ==> (#[trigger] reg[j]).name != n,
        },
    decreases reg.len(),
{
    if reg.len() > 0 {
        lemma_index_of(reg.drop_last(), n);
        assert(forall|j: int| 0 <= j < reg.len() - 1 ==> reg.drop_last()[j] == reg[j]);
    }
}

fn find_action(reg: &Vec<Action>, n: &str) -> (r: Option<usize>)
    ensures
        match r {
            Some(i) => index_of(actions_view(reg@), n@) == Some(i as int),
            None => index_of(actions_view(reg@), n@) is None,
        },
{
    let ghost rv = actions_view(reg@);
    let mut i: usize = 0;
    while i < reg.len()
        invariant
            i <= reg@.len() == rv.len(),
            rv == actions_view(reg@),
            forall|j: int| 0 <= j < i ==> (#[trigger] rv[j]).name != n@,
        decreases reg@.len() - i,
    {
        if text_eq(reg[i].name.as_str(), n) {
            assert(rv[i as int].name == n@);
            proof {
                lemma_index_of(rv, n@);
            }
            return Some(i);
        }
        i = i + 1;
    }
    proof {
        lemma_index_of(rv, n@);
    }
    None
}

fn upsert_action(reg: &mut Vec<Action>, a: Action)
    ensures
        actions_view(final(reg)@) == upsert(actions_view(old(reg)@), a@),
{
    match find_action(reg, a.name.as_str()) {
        Some(i) => {
            proof {
                lemma_index_of(actions_view(reg@), a@.name);
            }
            reg.remove(i);
            reg.insert(i, a);
            assert(actions_view(reg@) =~= actions_view(old(reg)@).update(i as int, a@));
        },
        None => {
            reg.push(a);
            assert(actions_view(reg@) =~= actions_view(old(reg)@).push(a@));
        },
    }
}

fn contains_text(v: &Vec<String>, s: &str) -> (r: bool)
    ensures
        r == texts_view(v@).contains(s@),
{
    let mut i: usize = 0;
    while i < v.len()
        invariant
            i <= v@.len(),
            forall|j: int| 0 <= j < i ==> (#[trigger] v@[j])@ != s@,
        decreases v@.len() - i,
    {
        if text_eq(v[i].as_str(), s) {
            assert(texts_view(v@)[i as int] == s@);
            return true;
        }
        i = i + 1;
    }
    assert(forall|j: int| 0 <= j < v@.len() ==> texts_view(v@)[j] != s@);
    false
}

fn copy_texts(v: &Vec<String>) -> (r: Vec<String>)
    ensures
        r@ == v@,
{
    let mut out: Vec<String> = Vec::new();
    let mut i: usize = 0;
    while i < v.len()
        invariant
            i <= v@.len(),
            out@ == v@.subrange(0, i as int),
        decreases v@.len() - i,
    {
        out.push(v[i].clone());
        i = i + 1;
    }
    assert(v@.subrange(0, v@.len() as int) == v@);
    out
}

fn registry_names(reg: &Vec<Action>) -> (r: Vec<String>)
    ensures
        texts_view(r@) == names_of(actions_view(reg@)),
{
    let mut out: Vec<String> = Vec::new();
    let mut i: usize = 0;
    while i < reg.len()
        invariant
            i <= reg@.len(),
            out@.len() == i,
            forall|j: int| 0 <= j < i ==> (#[trigger] out@[j])@ == reg@[j].name@,
        decreases reg@.len() - i,
    {
        out.push(reg[i].name.clone());
        i = i + 1;
    }
    assert(texts_view(out@) =~= names_of(actions_view(reg@)));
    out
}

fn keep_selected_exec(sel: Option<String>, names: &Vec<String>) -> (r: Option<String>)
    ensures
        opt_text(r) == keep_selected(opt_text(sel), texts_view(names@)),
{
    match sel {
        Some(s) => if contains_text(names, s.as_str()) {
            Some(s)
        } else {
            None
        },
        None => None,
    }
}

fn digit_text(d: u32) -> (r: &'static str)
    requires
        d < 10,
    ensures
        r@ == seq![digit(d as nat)],
{
    proof {
        reveal_strlit("0");
        reveal_strlit("1");
        reveal_strlit("2");
        reveal_strlit("3");
        reveal_strlit("4");
        reveal_strlit("5");
        reveal_strlit("6");
        reveal_strlit("7");
        reveal_strlit("8");
        reveal_strlit("9");
    }
    if d == 0 {
        "0"
    } else if d == 1 {
        "1"
    } else if d == 2 {
        "2"
    } else if d == 3 {
        "3"
    } else if d == 4 {
        "4"
    } else if d == 5 {
        "5"
    } else if d == 6 {
        "6"
    } else if d == 7 {
        "7"
    } else if d == 8 {
        "8"
    } else {
        "9"
    }
}

fn write_decimal(n: u32, out: &mut String)
    ensures
        final(out)@ == old(out)@ + decimal(n as nat),
    decreases n,
{
    if n >= 10 {
        write_decimal(n / 10, out);
    }
    out.append(digit_text(n % 10));
    assert(final(out)@ =~= old(out)@ + decimal(n as nat));
}

/// The decimal text of a number.
pub fn decimal_text(n: u32) -> (r: String)
    ensures
        r@ == decimal(n as nat),
{
    let mut out = String::new();
    write_decimal(n, &mut out);
    assert(out@ =~= decimal(n as nat));
    out
}

impl ControllerState {
    /// A controller that knows no action and awaits no result.
    pub fn new() -> (r: ControllerState)
        ensures
            r@.registry.len() == 0,
            r@.selectable.len() == 0,
            r@.selected is None,
            r@.pending is None,
            r@.context.len() == 0,
            !r@.silent,
            r@.state.len() == 0,
            r@.last_message.len() == 0,
            r@.counter == 0,
    {
        ControllerState {
            actions: Vec::new(),
            selectable: Vec::new(),
            selected_action: None,
            force_query: None,
            context: String::new(),
            silent: false,
            state: String::new(),
            last_message: String::new(),
            id_counter: 0,
        }
    }

    /// Picks the action to send next.
    pub fn select(&mut self, name: String)
        ensures
            final(self)@ == (ControllerModel { selected: Some(name@), ..old(self)@ }),
    {
        self.selected_action = Some(name);
    }

    fn register(&mut self, actions: Vec<Action>)
        ensures
            final(self)@ == ({
                let reg = register_all(old(self)@.registry, actions_view(actions@));
                ControllerModel { registry: reg, selectable: names_of(reg), ..old(self)@ }
            }),
    {
        let ghost orig = actions@;
        let ghost reg0 = actions_view(self.actions@);
        let mut rest = actions;
        let mut i: usize = 0;
        let n = rest.len();
        while rest.len() > 0
            invariant
                n == orig.len(),
                i <= n,
                rest@ == orig.subrange(i as int, n as int),
                actions_view(self.actions@) == register_all(
                    reg0,
                    actions_view(orig.subrange(0, i as int)),
                ),
                self.selectable == old(self).selectable,
                self.selected_action == old(self).selected_action,
                self.force_query == old(self).force_query,
                self.context == old(self).context,
                self.silent == old(self).silent,
                self.state == old(self).state,
                self.last_message == old(self).last_message,
                self.id_counter == old(self).id_counter,
            decreases rest.len(),
        {
            let a = rest.remove(0);
            proof {
                let pre = actions_view(orig.subrange(0, i as int));
                let post = actions_view(orig.subrange(0, i + 1));
                assert(post.drop_last() =~= pre);
                assert(post.last() == a@);
            }
            upsert_action(&mut self.actions, a);
            i = i + 1;
        }
        assert(orig.subrange(0, n as int) == orig);
        self.selectable = registry_names(&self.actions);
    }

    fn unregister(&mut self, action_names: Vec<String>)
        ensures
            final(self)@ == ({
                let reg = unregister_all(old(self)@.registry, texts_view(action_names@));
                ControllerModel {
                    registry: reg,
                    selectable: names_of(reg),
                    selected: match old(self)@.selected {
                        Some(s) => if texts_view(action_names@).contains(s) {
                            None
                        } else {
                            Some(s)
                        },
                        None => None,
                    },
                    ..old(self)@
                }
            }),
    {
        let ghost names = texts_view(action_names@);
        let mut old_actions: Vec<Action> = Vec::new();
        std::mem::swap(&mut self.actions, &mut old_actions);
        let ghost orig = old_actions@;
        let mut rest = old_actions;
        assert(actions_view(self.actions@) =~= unregister_all(
            actions_view(orig.subrange(0, 0)),
            names,
        ));
        let mut i: usize = 0;
        let n = rest.len();
        while rest.len() > 0
            invariant
                n == orig.len(),
                i <= n,
                names == texts_view(action_names@),
                rest@ == orig.subrange(i as int, n as int),
                actions_view(self.actions@) == unregister_all(
                    actions_view(orig.subrange(0, i as int)),
                    names,
                ),
                orig == old(self).actions@,
                self.selectable == old(self).selectable,
                self.selected_action == old(self).selected_action,
                self.force_query == old(self).force_query,
                self.context == old(self).context,
                self.silent == old(self).silent,
                self.state == old(self).state,
                self.last_message == old(self).last_message,
                self.id_counter == old(self).id_counter,
            decreases rest.len(),
        {
            let a = rest.remove(0);
            proof {
                let pre = actions_view(orig.subrange(0, i as int));
                let post = actions_view(orig.subrange(0, i + 1));
                assert(post.drop_last() =~= pre);
                assert(post.last() == a@);
            }
            if !contains_text(&action_names, a.name.as_str()) {
                let ghost before = self.actions@;
                self.actions.push(a);
                assert(actions_view(self.actions@) =~= actions_view(before).push(a@));
            }
            i = i + 1;
        }
        assert(orig.subrange(0, n as int) == orig);
        self.selectable = registry_names(&self.actions);
        let sel = self.selected_action.take();
        self.selected_action = match sel {
            Some(s) => if contains_text(&action_names, s.as_str()) {
                None
            } else {
                Some(s)
            },
            None => None,
        };
    }

    /// Takes in a host-to-controller command.
    pub fn update(&mut self, cmd: ClientCommand)
        ensures
            final(self)@ == update_spec(old(self)@, cmd@.command),
    {
        match cmd.command {
            ClientCommandContents::RegisterActions { actions } => self.register(actions),
            ClientCommandContents::UnregisterActions { action_names } => self.unregister(
                action_names,
            ),
            ClientCommandContents::ForceActions { state, query, ephemeral_context, action_names } => {
                let sel = self.selected_action.take();
                self.selected_action = keep_selected_exec(sel, &action_names);
                let remember = match ephemeral_context {
                    Some(e) => !e,
                    None => true,
                };
                if remember {
                    self.state = match &state {
                        Some(s) => s.clone(),
                        None => String::new(),
                    };
                }
                let candidate_names = copy_texts(&action_names);
                self.selectable = action_names;
                self.force_query = Some(
                    PendingForce {
                        correlation_id: None,
                        query,
                        candidate_names,
                        state_snapshot: state,
                    },
                );
            },
            ClientCommandContents::Context { message, silent } => {
                self.context = message;
                self.silent = silent;
            },
            ClientCommandContents::ActionResult { id, success, message } => {
                let mut line = if success {
                    String::from_str("success: ")
                } else {
                    String::from_str("failure: ")
                };
                match &message {
                    Some(m) => line.append(m.as_str()),
                    None => {},
                }
                assert(line@ =~= result_line(success, opt_text(message)));
                self.last_message = line;
                let close = success && match &self.force_query {
                    Some(p) => match &p.correlation_id {
                        Some(c) => text_eq(c.as_str(), id.as_str()),
                        None => false,
                    },
                    None => false,
                };
                if close {
                    self.force_query = None;
                    let names = registry_names(&self.actions);
                    let sel = self.selected_action.take();
                    self.selected_action = keep_selected_exec(sel, &names);
                    self.selectable = names;
                }
            },
            _ => {},
        }
    }

    /// Sends the selected action with parameter text `data` (none when
    /// empty); the id it takes is recorded by a pending force request.
    pub fn send(&mut self, data: String) -> (r: ServerCommand)
        ensures
            r@ == sent_command(old(self)@, data@),
            final(self)@ == send_state(old(self)@),
    {
        let id = decimal_text(self.id_counter);
        self.id_counter = if self.id_counter == u32::MAX {
            0
        } else {
            self.id_counter + 1
        };
        match &mut self.force_query {
            Some(p) => {
                p.correlation_id = Some(id.clone());
            },
            None => {},
        }
        let name = match &self.selected_action {
            Some(s) => s.clone(),
            None => String::new(),
        };
        let data = if data.unicode_len() == 0 {
            None
        } else {
            Some(data)
        };
        ServerCommand::Action { id, name, data }
    }
}

} // verus!
