//! Sound for the television alone, on Linux: while the stream runs, a silent sink
//! is the default output. What plays there is captured through its monitor, and
//! the machine is silent. Afterwards the old default comes back and the sink goes.
//!
//! The sound server is spoken to with `pactl`. Two step machines decide what it is
//! asked next; the caller asks, and hands the reply back. A record on disk tells a
//! later run how to undo what a run that did not end in order has left behind.

use crate::text::{
    contains, first_word, law_first_word, lemma_first_index, lines, lines_of, occurs, optional,
    push_text, same, tagged, texts, white, word,
};
use vstd::prelude::*;
use vstd::string::StringExecFns;

verus! {

/// The name of the silent sink.
pub open spec fn sink_name() -> Seq<char> {
    "mirror_tv"@
}

/// The name of the silent sink.
pub fn target_name() -> (r: &'static str)
    ensures
        r@ == sink_name(),
{
    "mirror_tv"
}

/// Whether a silent sink can be made: wherever there is a sound server. `info`
/// says whether `pactl info` succeeded, where it could be run.
pub fn virtual_sink_available(info: Option<bool>) -> (r: bool)
    ensures
        r == (info == Some(true)),
{
    match info {
        Some(ok) => ok,
        None => false,
    }
}

/// What to do next.
pub enum Action {
    /// Run `pactl` with these arguments. The reply is what it printed, without
    /// white space around it, or nothing where it failed.
    Pactl(Vec<String>),
    /// Undo what an earlier run has left behind.
    Restore,
    /// Write the record.
    Record(String),
    /// Remove the record.
    Forget,
    /// Nothing is left to do.
    Finish,
}

/// An action over characters.
pub enum ActionView {
    Pactl(Seq<Seq<char>>),
    Restore,
    Record(Seq<char>),
    Forget,
    Finish,
}

impl View for Action {
    type V = ActionView;

    open spec fn view(&self) -> ActionView {
        match self {
            Action::Pactl(args) => ActionView::Pactl(texts(args@)),
            Action::Restore => ActionView::Restore,
            Action::Record(text) => ActionView::Record(text@),
            Action::Forget => ActionView::Forget,
            Action::Finish => ActionView::Finish,
        }
    }
}

/// The first words of the lines of a listing, without the empty lines: the ids of
/// what is listed.
pub open spec fn ids_below(list: Seq<Seq<char>>, n: int) -> Seq<Seq<char>>
    decreases n,
{
    if n <= 0 {
        Seq::empty()
    } else {
        let before = ids_below(list, n - 1);
        match first_word(list[n - 1]) {
            Some(w) => before.push(w),
            None => before,
        }
    }
}

/// The ids of what is listed.
pub open spec fn ids(listing: Seq<char>) -> Seq<Seq<char>> {
    ids_below(lines_of(listing), lines_of(listing).len() as int)
}

/// A line of the modules' listing that speaks of the silent sink.
pub open spec fn our_module(line: Seq<char>) -> bool {
    occurs(line, "module-null-sink"@) && occurs(line, sink_name())
}

/// The ids of the modules that make the silent sink, in the first `n` lines.
pub open spec fn our_modules_below(list: Seq<Seq<char>>, n: int) -> Seq<Seq<char>>
    decreases n,
{
    if n <= 0 {
        Seq::empty()
    } else {
        let before = our_modules_below(list, n - 1);
        match first_word(list[n - 1]) {
            Some(w) => if our_module(list[n - 1]) {
                before.push(w)
            } else {
                before
            },
            None => before,
        }
    }
}

/// The ids of the modules that make the silent sink.
pub open spec fn our_modules(listing: Seq<char>) -> Seq<Seq<char>> {
    our_modules_below(lines_of(listing), lines_of(listing).len() as int)
}

/// The ids of what is listed.
pub fn sink_inputs(listing: &str) -> (r: Vec<String>)
    ensures
        texts(r@) == ids(listing@),
{
    let list = lines(listing);
    let mut r: Vec<String> = Vec::new();
    let mut i: usize = 0;
    assert(texts(r@) =~= ids_below(lines_of(listing@), 0));
    assert(lines_of(listing@).len() == list@.len());
    while i < list.len()
        invariant
            i <= list@.len(),
            texts(list@) == lines_of(listing@),
            texts(r@) == ids_below(lines_of(listing@), i as int),
        decreases list@.len() - i,
    {
        assert(lines_of(listing@)[i as int] == list@[i as int]@);
        if let Some(id) = word(list[i].as_str()) {
            push_text(&mut r, id.as_str());
        }
        i += 1;
    }
    r
}

/// The ids of the modules that make the silent sink.
pub fn stuck_modules(listing: &str) -> (r: Vec<String>)
    ensures
        texts(r@) == our_modules(listing@),
{
    let list = lines(listing);
    let mut r: Vec<String> = Vec::new();
    let mut i: usize = 0;
    assert(texts(r@) =~= our_modules_below(lines_of(listing@), 0));
    assert(lines_of(listing@).len() == list@.len());
    while i < list.len()
        invariant
            i <= list@.len(),
            texts(list@) == lines_of(listing@),
            texts(r@) == our_modules_below(lines_of(listing@), i as int),
        decreases list@.len() - i,
    {
        assert(lines_of(listing@)[i as int] == list@[i as int]@);
        let line = list[i].as_str();
        if contains(line, "module-null-sink") && contains(line, target_name()) {
            if let Some(id) = word(line) {
                push_text(&mut r, id.as_str());
            }
        }
        i += 1;
    }
    r
}

/// The record: the module that makes the silent sink, and the old default.
pub open spec fn record_text(module: Seq<char>, previous: Seq<char>) -> Seq<char> {
    module + "\n"@ + previous + "\n"@
}

/// A line of a text, or nothing where there are fewer.
pub open spec fn line_or_empty(text: Seq<char>, n: int) -> Seq<char> {
    if 0 <= n < lines_of(text).len() {
        lines_of(text)[n]
    } else {
        Seq::empty()
    }
}

/// One argument for `pactl`.
fn args1(a: &str) -> (r: Vec<String>)
    ensures
        texts(r@) == seq![a@],
{
    let mut v: Vec<String> = Vec::new();
    push_text(&mut v, a);
    assert(texts(v@) =~= seq![a@]);
    v
}

/// Two arguments for `pactl`.
fn args2(a: &str, b: &str) -> (r: Vec<String>)
    ensures
        texts(r@) == seq![a@, b@],
{
    let mut v: Vec<String> = Vec::new();
    push_text(&mut v, a);
    push_text(&mut v, b);
    assert(texts(v@) =~= seq![a@, b@]);
    v
}

/// Three arguments for `pactl`.
fn args3(a: &str, b: &str, c: &str) -> (r: Vec<String>)
    ensures
        texts(r@) == seq![a@, b@, c@],
{
    let mut v: Vec<String> = Vec::new();
    push_text(&mut v, a);
    push_text(&mut v, b);
    push_text(&mut v, c);
    assert(texts(v@) =~= seq![a@, b@, c@]);
    v
}

/// An empty text.
fn nothing() -> (r: String)
    ensures
        r@ == Seq::<char>::empty(),
{
    let r = String::new();
    assert(r@ =~= Seq::<char>::empty());
    r
}

/// Why the sound stays where it was.
#[derive(Clone, Copy, Debug, PartialEq, Eq, Structural)]
pub enum RouteError {
    /// There is no sound server.
    NoServer,
    /// The server does not tell its default output.
    NoDefault,
    /// The silent sink could not be made.
    NoSink,
    /// The silent sink could not be made the default.
    NotSwitched,
}

/// How far the way to the television is prepared.
#[derive(Clone, Copy, Debug, PartialEq, Eq, Structural)]
pub enum EngagePhase {
    /// Ask for the default output.
    Ask,
    /// Undo what an earlier run has left behind.
    Clean,
    /// Ask for the default output again.
    AskAgain,
    /// Make the silent sink.
    Load,
    /// Make it the default.
    Switch,
    /// Remove it again.
    Undo,
    /// Ask for what plays already.
    List,
    /// Move what plays already.
    Move,
    /// Write the record.
    Write,
    Done,
    Failed,
}

/// Sends the sound to the television.
pub struct Engage {
    pub phase: EngagePhase,
    pub error: Option<RouteError>,
    /// The old default by the record that an earlier run has left behind, or
    /// nothing.
    pub recorded: String,
    /// The old default.
    pub previous: String,
    /// The module that makes the silent sink.
    pub module: String,
    /// What played already.
    pub inputs: Vec<String>,
    /// How much of it has been moved.
    pub at: usize,
}

/// `Engage` over characters.
pub struct EngageView {
    pub phase: EngagePhase,
    pub error: Option<RouteError>,
    pub recorded: Seq<char>,
    pub previous: Seq<char>,
    pub module: Seq<char>,
    pub inputs: Seq<Seq<char>>,
    pub at: int,
}

impl View for Engage {
    type V = EngageView;

    open spec fn view(&self) -> EngageView {
        EngageView {
            phase: self.phase,
            error: self.error,
            recorded: self.recorded@,
            previous: self.previous@,
            module: self.module@,
            inputs: texts(self.inputs@),
            at: self.at as int,
        }
    }
}

/// The old default by a record, or nothing.
pub open spec fn recorded_sink(record: Option<Seq<char>>) -> Seq<char> {
    match record {
        Some(text) => line_or_empty(text, 1),
        None => Seq::empty(),
    }
}

/// A name of an output other than the silent sink.
pub open spec fn real_sink(name: Seq<char>) -> bool {
    name.len() > 0 && name != sink_name()
}

/// Whether a name is that of an output other than the silent sink.
fn is_real(name: &str) -> (r: bool)
    ensures
        r == real_sink(name@),
{
    name.unicode_len() > 0 && !same(name, target_name())
}

/// The old default after a clean-up: what the server tells. Where it tells the silent
/// sink still, or nothing, the record is asked. Where that knows no other output, the
/// silent sink is the default as before.
pub open spec fn old_default(told: Option<Seq<char>>, recorded: Seq<char>) -> Seq<char> {
    if told is Some && real_sink(told->Some_0) {
        told->Some_0
    } else if real_sink(recorded) {
        recorded
    } else {
        sink_name()
    }
}

/// The beginning, on a machine with a sound server or without one.
pub open spec fn engage_start(available: bool, record: Option<Seq<char>>) -> EngageView {
    EngageView {
        phase: if available {
            EngagePhase::Ask
        } else {
            EngagePhase::Failed
        },
        error: if available {
            None
        } else {
            Some(RouteError::NoServer)
        },
        recorded: recorded_sink(record),
        previous: Seq::empty(),
        module: Seq::empty(),
        inputs: Seq::empty(),
        at: 0,
    }
}

/// The ids in the reply to a question for a listing; none where there is no reply.
pub open spec fn listed(reply: Option<Seq<char>>) -> Seq<Seq<char>> {
    match reply {
        Some(listing) => ids(listing),
        None => Seq::empty(),
    }
}

/// What is done in a phase.
pub open spec fn engage_action(v: EngageView) -> ActionView {
    match v.phase {
        EngagePhase::Ask => ActionView::Pactl(seq!["get-default-sink"@]),
        EngagePhase::Clean => ActionView::Restore,
        EngagePhase::AskAgain => ActionView::Pactl(seq!["get-default-sink"@]),
        EngagePhase::Load => ActionView::Pactl(
            seq![
                "load-module"@,
                "module-null-sink"@,
                "sink_name="@ + sink_name(),
                "sink_properties=device.description='PC_Mirror_(TV)'"@,
            ],
        ),
        EngagePhase::Switch => ActionView::Pactl(seq!["set-default-sink"@, sink_name()]),
        EngagePhase::Undo => ActionView::Pactl(seq!["unload-module"@, v.module]),
        EngagePhase::List => ActionView::Pactl(seq!["list"@, "short"@, "sink-inputs"@]),
        EngagePhase::Move => ActionView::Pactl(
            seq!["move-sink-input"@, v.inputs[v.at], sink_name()],
        ),
        EngagePhase::Write => ActionView::Record(record_text(v.module, v.previous)),
        EngagePhase::Done => ActionView::Finish,
        EngagePhase::Failed => ActionView::Finish,
    }
}

/// What follows on the reply to a phase.
pub open spec fn engage_next(v: EngageView, reply: Option<Seq<char>>) -> EngageView {
    match v.phase {
        EngagePhase::Ask => match reply {
            Some(sink) => EngageView {
                phase: if sink == sink_name() {
                    EngagePhase::Clean
                } else {
                    EngagePhase::Load
                },
                previous: sink,
                ..v
            },
            None => EngageView {
                phase: EngagePhase::Failed,
                error: Some(RouteError::NoDefault),
                ..v
            },
        },
        EngagePhase::Clean => EngageView { phase: EngagePhase::AskAgain, ..v },
        EngagePhase::AskAgain => EngageView {
            phase: EngagePhase::Load,
            previous: old_default(reply, v.recorded),
            ..v
        },
        EngagePhase::Load => match reply {
            Some(id) => EngageView { phase: EngagePhase::Switch, module: id, ..v },
            None => EngageView {
                phase: EngagePhase::Failed,
                error: Some(RouteError::NoSink),
                ..v
            },
        },
        EngagePhase::Switch => EngageView {
            phase: if reply is Some {
                EngagePhase::List
            } else {
                EngagePhase::Undo
            },
            ..v
        },
        EngagePhase::Undo => EngageView {
            phase: EngagePhase::Failed,
            error: Some(RouteError::NotSwitched),
            ..v
        },
        EngagePhase::List => {
            let inputs = listed(reply);
            EngageView {
                phase: if inputs.len() > 0 {
                    EngagePhase::Move
                } else {
                    EngagePhase::Write
                },
                inputs,
                at: 0,
                ..v
            }
        },
        EngagePhase::Move => EngageView {
            phase: if v.at + 1 < v.inputs.len() {
                EngagePhase::Move
            } else {
                EngagePhase::Write
            },
            at: v.at + 1,
            ..v
        },
        EngagePhase::Write => EngageView { phase: EngagePhase::Done, ..v },
        EngagePhase::Done => v,
        EngagePhase::Failed => v,
    }
}

impl Engage {
    /// There is something to move while something is moved.
    pub open spec fn wf(self) -> bool {
        self.phase == EngagePhase::Move ==> self.at < self.inputs@.len()
    }

    /// The beginning, on a machine with a sound server or without one. The record is
    /// that of an earlier run, where it has left one behind.
    pub fn new(available: bool, record: &Option<String>) -> (r: Engage)
        ensures
            r.wf(),
            r@ == engage_start(available, optional(*record)),
    {
        let recorded = match record {
            Some(text) => {
                let list = lines(text.as_str());
                assert(lines_of(text@).len() == list@.len());
                take_line(&list, 1)
            },
            None => nothing(),
        };
        let inputs: Vec<String> = Vec::new();
        assert(texts(inputs@) =~= Seq::<Seq<char>>::empty());
        Engage {
            phase: if available {
                EngagePhase::Ask
            } else {
                EngagePhase::Failed
            },
            error: if available {
                None
            } else {
                Some(RouteError::NoServer)
            },
            recorded,
            previous: nothing(),
            module: nothing(),
            inputs,
            at: 0,
        }
    }

    /// What is to be done now.
    pub fn action(&self) -> (r: Action)
        requires
            self.wf(),
        ensures
            r@ == engage_action(self@),
    {
        match self.phase {
            EngagePhase::Ask => Action::Pactl(args1("get-default-sink")),
            EngagePhase::Clean => Action::Restore,
            EngagePhase::AskAgain => Action::Pactl(args1("get-default-sink")),
            EngagePhase::Load => {
                let name = tagged("sink_name=", target_name());
                let mut v = args3("load-module", "module-null-sink", name.as_str());
                push_text(&mut v, "sink_properties=device.description='PC_Mirror_(TV)'");
                assert(texts(v@) =~= seq![
                    "load-module"@,
                    "module-null-sink"@,
                    "sink_name="@ + sink_name(),
                    "sink_properties=device.description='PC_Mirror_(TV)'"@,
                ]);
                Action::Pactl(v)
            },
            EngagePhase::Switch => Action::Pactl(args2("set-default-sink", target_name())),
            EngagePhase::Undo => Action::Pactl(args2("unload-module", self.module.as_str())),
            EngagePhase::List => Action::Pactl(args3("list", "short", "sink-inputs")),
            EngagePhase::Move => {
                assert(texts(self.inputs@)[self.at as int] == self.inputs@[self.at as int]@);
                Action::Pactl(
                    args3("move-sink-input", self.inputs[self.at].as_str(), target_name()),
                )
            },
            EngagePhase::Write => {
                let mut text = self.module.clone();
                text.append("\n");
                text.append(self.previous.as_str());
                text.append("\n");
                Action::Record(text)
            },
            EngagePhase::Done => Action::Finish,
            EngagePhase::Failed => Action::Finish,
        }
    }

    /// The old default after a clean-up.
    fn default_after_clean(&self, told: Option<String>) -> (r: String)
        ensures
            r@ == old_default(optional(told), self.recorded@),
    {
        if let Some(sink) = told {
            if is_real(sink.as_str()) {
                return sink;
            }
        }
        if is_real(self.recorded.as_str()) {
            self.recorded.clone()
        } else {
            target_name().to_owned()
        }
    }

    /// Goes on with the reply to the action.
    pub fn reply(&mut self, reply: Option<String>)
        requires
            old(self).wf(),
        ensures
            final(self).wf(),
            final(self)@ == engage_next(old(self)@, optional(reply)),
    {
        match self.phase {
            EngagePhase::Ask => match reply {
                Some(sink) => {
                    self.phase = if same(sink.as_str(), target_name()) {
                        EngagePhase::Clean
                    } else {
                        EngagePhase::Load
                    };
                    self.previous = sink;
                },
                None => {
                    self.phase = EngagePhase::Failed;
                    self.error = Some(RouteError::NoDefault);
                },
            },
            EngagePhase::Clean => {
                self.phase = EngagePhase::AskAgain;
            },
            EngagePhase::AskAgain => {
                self.previous = self.default_after_clean(reply);
                self.phase = EngagePhase::Load;
            },
            EngagePhase::Load => match reply {
                Some(id) => {
                    self.phase = EngagePhase::Switch;
                    self.module = id;
                },
                None => {
                    self.phase = EngagePhase::Failed;
                    self.error = Some(RouteError::NoSink);
                },
            },
            EngagePhase::Switch => {
                self.phase = if reply.is_some() {
                    EngagePhase::List
                } else {
                    EngagePhase::Undo
                };
            },
            EngagePhase::Undo => {
                self.phase = EngagePhase::Failed;
                self.error = Some(RouteError::NotSwitched);
            },
            EngagePhase::List => {
                let inputs: Vec<String> = match reply {
                    Some(listing) => sink_inputs(listing.as_str()),
                    None => {
                        let v: Vec<String> = Vec::new();
                        assert(texts(v@) =~= Seq::<Seq<char>>::empty());
                        v
                    },
                };
                self.phase = if inputs.len() > 0 {
                    EngagePhase::Move
                } else {
                    EngagePhase::Write
                };
                assert(texts(inputs@).len() == inputs@.len());
                self.inputs = inputs;
                self.at = 0;
            },
            EngagePhase::Move => {
                assert(texts(self.inputs@).len() == self.inputs@.len());
                let n: usize = self.inputs.len();
                self.at = self.at + 1;
                self.phase = if self.at < n {
                    EngagePhase::Move
                } else {
                    EngagePhase::Write
                };
            },
            EngagePhase::Write => {
                self.phase = EngagePhase::Done;
            },
            EngagePhase::Done => {},
            EngagePhase::Failed => {},
        }
    }
}

/// How far the way back is.
#[derive(Clone, Copy, Debug, PartialEq, Eq, Structural)]
pub enum RestorePhase {
    /// Make the old default the default again.
    Reset,
    /// Ask for what plays.
    List,
    /// Move what plays.
    Move,
    /// Remove the silent sink.
    Unload,
    /// Remove the record.
    Forget,
    /// Without a record: ask for the modules.
    Search,
    /// Remove the silent sinks that were found.
    Clean,
    Done,
}

/// Brings the sound back from the television.
pub struct Restore {
    pub phase: RestorePhase,
    pub previous: String,
    pub module: String,
    /// What is moved, or removed.
    pub items: Vec<String>,
    pub at: usize,
    /// The sink is removed although its module has no name.
    pub always: bool,
}

/// `Restore` over characters.
pub struct RestoreView {
    pub phase: RestorePhase,
    pub previous: Seq<char>,
    pub module: Seq<char>,
    pub items: Seq<Seq<char>>,
    pub at: int,
    pub always: bool,
}

impl View for Restore {
    type V = RestoreView;

    open spec fn view(&self) -> RestoreView {
        RestoreView {
            phase: self.phase,
            previous: self.previous@,
            module: self.module@,
            items: texts(self.items@),
            at: self.at as int,
            always: self.always,
        }
    }
}

/// The ids of the modules that make the silent sink, in the reply to a question for
/// the modules; none where there is no reply.
pub open spec fn listed_modules(reply: Option<Seq<char>>) -> Seq<Seq<char>> {
    match reply {
        Some(listing) => our_modules(listing),
        None => Seq::empty(),
    }
}

/// What comes after the default is back.
pub open spec fn after_reset(module: Seq<char>, always: bool) -> RestorePhase {
    if always || module.len() > 0 {
        RestorePhase::Unload
    } else {
        RestorePhase::Forget
    }
}

/// What is done in a phase.
pub open spec fn restore_action(v: RestoreView) -> ActionView {
    match v.phase {
        RestorePhase::Reset => ActionView::Pactl(seq!["set-default-sink"@, v.previous]),
        RestorePhase::List => ActionView::Pactl(seq!["list"@, "short"@, "sink-inputs"@]),
        RestorePhase::Move => ActionView::Pactl(
            seq!["move-sink-input"@, v.items[v.at], v.previous],
        ),
        RestorePhase::Unload => ActionView::Pactl(seq!["unload-module"@, v.module]),
        RestorePhase::Forget => ActionView::Forget,
        RestorePhase::Search => ActionView::Pactl(seq!["list"@, "short"@, "modules"@]),
        RestorePhase::Clean => ActionView::Pactl(seq!["unload-module"@, v.items[v.at]]),
        RestorePhase::Done => ActionView::Finish,
    }
}

/// What follows on the reply to a phase. A step that fails does not keep the next
/// ones from being tried.
pub open spec fn restore_next(v: RestoreView, reply: Option<Seq<char>>) -> RestoreView {
    match v.phase {
        RestorePhase::Reset => RestoreView { phase: RestorePhase::List, ..v },
        RestorePhase::List => {
            let items = listed(reply);
            RestoreView {
                phase: if items.len() > 0 {
                    RestorePhase::Move
                } else {
                    after_reset(v.module, v.always)
                },
                items,
                at: 0,
                ..v
            }
        },
        RestorePhase::Move => RestoreView {
            phase: if v.at + 1 < v.items.len() {
                RestorePhase::Move
            } else {
                after_reset(v.module, v.always)
            },
            at: v.at + 1,
            ..v
        },
        RestorePhase::Unload => RestoreView { phase: RestorePhase::Forget, ..v },
        RestorePhase::Forget => RestoreView { phase: RestorePhase::Done, ..v },
        RestorePhase::Search => {
            let items = listed_modules(reply);
            RestoreView {
                phase: if items.len() > 0 {
                    RestorePhase::Clean
                } else {
                    RestorePhase::Done
                },
                items,
                at: 0,
                ..v
            }
        },
        RestorePhase::Clean => RestoreView {
            phase: if v.at + 1 < v.items.len() {
                RestorePhase::Clean
            } else {
                RestorePhase::Done
            },
            at: v.at + 1,
            ..v
        },
        RestorePhase::Done => v,
    }
}

/// The way back that a record describes.
pub open spec fn restore_from(record: Option<Seq<char>>) -> RestoreView {
    match record {
        Some(text) => {
            let module = line_or_empty(text, 0);
            let previous = line_or_empty(text, 1);
            RestoreView {
                phase: if previous.len() > 0 {
                    RestorePhase::Reset
                } else {
                    after_reset(module, false)
                },
                previous,
                module,
                items: Seq::empty(),
                at: 0,
                always: false,
            }
        },
        None => RestoreView {
            phase: RestorePhase::Search,
            previous: Seq::empty(),
            module: Seq::empty(),
            items: Seq::empty(),
            at: 0,
            always: false,
        },
    }
}

/// A line of a list, or nothing where there are fewer.
fn take_line(list: &Vec<String>, n: usize) -> (r: String)
    ensures
        r@ == (if n < list@.len() {
            texts(list@)[n as int]
        } else {
            Seq::empty()
        }),
{
    if n < list.len() {
        list[n].clone()
    } else {
        nothing()
    }
}

impl Restore {
    /// There is something to move or to remove while that is done.
    pub open spec fn wf(self) -> bool {
        self.phase == RestorePhase::Move || self.phase == RestorePhase::Clean ==> self.at
            < self.items@.len()
    }

    /// The way back from a route that was taken in this run.
    pub fn from_route(previous: String, module: String) -> (r: Restore)
        ensures
            r.wf(),
            r@ == (RestoreView {
                phase: RestorePhase::Reset,
                previous: previous@,
                module: module@,
                items: Seq::empty(),
                at: 0,
                always: true,
            }),
    {
        let items: Vec<String> = Vec::new();
        assert(texts(items@) =~= Seq::<Seq<char>>::empty());
        Restore { phase: RestorePhase::Reset, previous, module, items, at: 0, always: true }
    }

    /// The way back from what an earlier run has left behind, by its record where
    /// there is one.
    pub fn from_record(record: &Option<String>) -> (r: Restore)
        ensures
            r.wf(),
            r@ == restore_from(optional(*record)),
    {
        let items: Vec<String> = Vec::new();
        assert(texts(items@) =~= Seq::<Seq<char>>::empty());
        match record {
            Some(text) => {
                let list = lines(text.as_str());
                assert(lines_of(text@).len() == list@.len());
                let module = take_line(&list, 0);
                let previous = take_line(&list, 1);
                let phase = if previous.as_str().unicode_len() > 0 {
                    RestorePhase::Reset
                } else if module.as_str().unicode_len() > 0 {
                    RestorePhase::Unload
                } else {
                    RestorePhase::Forget
                };
                Restore { phase, previous, module, items, at: 0, always: false }
            },
            None => Restore {
                phase: RestorePhase::Search,
                previous: nothing(),
                module: nothing(),
                items,
                at: 0,
                always: false,
            },
        }
    }

    /// What is to be done now.
    pub fn action(&self) -> (r: Action)
        requires
            self.wf(),
        ensures
            r@ == restore_action(self@),
    {
        match self.phase {
            RestorePhase::Reset => Action::Pactl(
                args2("set-default-sink", self.previous.as_str()),
            ),
            RestorePhase::List => Action::Pactl(args3("list", "short", "sink-inputs")),
            RestorePhase::Move => {
                assert(texts(self.items@)[self.at as int] == self.items@[self.at as int]@);
                Action::Pactl(
                    args3(
                        "move-sink-input",
                        self.items[self.at].as_str(),
                        self.previous.as_str(),
                    ),
                )
            },
            RestorePhase::Unload => Action::Pactl(args2("unload-module", self.module.as_str())),
            RestorePhase::Forget => Action::Forget,
            RestorePhase::Search => Action::Pactl(args3("list", "short", "modules")),
            RestorePhase::Clean => {
                assert(texts(self.items@)[self.at as int] == self.items@[self.at as int]@);
                Action::Pactl(args2("unload-module", self.items[self.at].as_str()))
            },
            RestorePhase::Done => Action::Finish,
        }
    }

    /// What comes after the default is back.
    fn next_after_reset(&self) -> (r: RestorePhase)
        ensures
            r == after_reset(self.module@, self.always),
    {
        if self.always || self.module.as_str().unicode_len() > 0 {
            RestorePhase::Unload
        } else {
            RestorePhase::Forget
        }
    }

    /// Goes on with the reply to the action.
    pub fn reply(&mut self, reply: Option<String>)
        requires
            old(self).wf(),
        ensures
            final(self).wf(),
            final(self)@ == restore_next(old(self)@, optional(reply)),
    {
        assert(texts(self.items@).len() == self.items@.len());
        match self.phase {
            RestorePhase::Reset => {
                self.phase = RestorePhase::List;
            },
            RestorePhase::List => {
                let items: Vec<String> = match reply {
                    Some(listing) => sink_inputs(listing.as_str()),
                    None => {
                        let v: Vec<String> = Vec::new();
                        assert(texts(v@) =~= Seq::<Seq<char>>::empty());
                        v
                    },
                };
                assert(texts(items@).len() == items@.len());
                self.phase = if items.len() > 0 {
                    RestorePhase::Move
                } else {
                    self.next_after_reset()
                };
                self.items = items;
                self.at = 0;
            },
            RestorePhase::Move => {
                let n: usize = self.items.len();
                self.at = self.at + 1;
                self.phase = if self.at < n {
                    RestorePhase::Move
                } else {
                    self.next_after_reset()
                };
            },
            RestorePhase::Unload => {
                self.phase = RestorePhase::Forget;
            },
            RestorePhase::Forget => {
                self.phase = RestorePhase::Done;
            },
            RestorePhase::Search => {
                let items: Vec<String> = match reply {
                    Some(listing) => stuck_modules(listing.as_str()),
                    None => {
                        let v: Vec<String> = Vec::new();
                        assert(texts(v@) =~= Seq::<Seq<char>>::empty());
                        v
                    },
                };
                assert(texts(items@).len() == items@.len());
                self.phase = if items.len() > 0 {
                    RestorePhase::Clean
                } else {
                    RestorePhase::Done
                };
                self.items = items;
                self.at = 0;
            },
            RestorePhase::Clean => {
                let n: usize = self.items.len();
                self.at = self.at + 1;
                self.phase = if self.at < n {
                    RestorePhase::Clean
                } else {
                    RestorePhase::Done
                };
            },
            RestorePhase::Done => {},
        }
    }
}

/// A text that stands on one line.
pub open spec fn one_line(s: Seq<char>) -> bool {
    &&& forall|i: int| 0 <= i < s.len() ==> s[i] != '\n'
    &&& s.len() > 0 ==> s.last() != '\r'
}

/// A text on one line, with a line feed and more behind it, has it as its first
/// line.
proof fn lemma_first_line(a: Seq<char>, b: Seq<char>)
    requires
        one_line(a),
    ensures
        lines_of(a + "\n"@ + b) == seq![a] + lines_of(b),
{
    reveal_strlit("\n");
    let s = a + "\n"@ + b;
    assert(s[a.len() as int] == '\n');
    lemma_first_index(s, '\n', a.len() as int);
    assert(s.take(a.len() as int) =~= a);
    assert(s.skip((a.len() + 1) as int) =~= b);
}

/// A later run reads out of the record what this one wrote: it sets the old
/// default and removes the sink's module.
pub proof fn law_record_restores(module: Seq<char>, previous: Seq<char>)
    requires
        one_line(module),
        one_line(previous),
    ensures
        restore_from(Some(record_text(module, previous))).module == module,
        restore_from(Some(record_text(module, previous))).previous == previous,
        previous.len() > 0 ==> restore_from(Some(record_text(module, previous))).phase
            == RestorePhase::Reset,
{
    let text = record_text(module, previous);
    let tail = previous + "\n"@ + Seq::<char>::empty();
    assert(text =~= module + "\n"@ + tail);
    lemma_first_line(module, tail);
    lemma_first_line(previous, Seq::empty());
    assert(lines_of(text) =~= seq![module, previous]);
}

/// The silent sink exists in a phase.
pub open spec fn sink_exists(phase: EngagePhase) -> bool {
    match phase {
        EngagePhase::Switch => true,
        EngagePhase::Undo => true,
        EngagePhase::List => true,
        EngagePhase::Move => true,
        EngagePhase::Write => true,
        EngagePhase::Done => true,
        _ => false,
    }
}

/// A failure leaves no silent sink behind: where one was made, the last thing that
/// is asked before the failure is to remove it.
pub proof fn law_failure_removes_sink(v: EngageView, reply: Option<Seq<char>>)
    requires
        v.phase != EngagePhase::Failed,
        engage_next(v, reply).phase == EngagePhase::Failed,
        sink_exists(v.phase),
    ensures
        engage_action(v) == ActionView::Pactl(seq!["unload-module"@, v.module]),
{
}

/// Where the machine stands after the first `n` replies.
pub open spec fn engage_run(v: EngageView, replies: Seq<Option<Seq<char>>>, n: int) -> EngageView
    decreases n,
{
    if n <= 0 {
        v
    } else {
        engage_next(engage_run(v, replies, n - 1), replies[n - 1])
    }
}

/// The old default: what the server tells. Where that is the silent sink of an
/// earlier run, it is what is left after the clean-up.
pub open spec fn engage_previous(
    record: Option<Seq<char>>,
    replies: Seq<Option<Seq<char>>>,
) -> Option<Seq<char>> {
    if replies[0] == Some(sink_name()) {
        Some(old_default(replies[2], recorded_sink(record)))
    } else {
        replies[0]
    }
}

/// The step that makes the silent sink.
pub open spec fn load_step(replies: Seq<Option<Seq<char>>>) -> int {
    if replies[0] == Some(sink_name()) {
        3
    } else {
        1
    }
}

/// Why the sound stays where it was, or nothing where it goes to the television.
pub open spec fn engage_error(
    record: Option<Seq<char>>,
    replies: Seq<Option<Seq<char>>>,
) -> Option<RouteError> {
    let d = load_step(replies);
    if engage_previous(record, replies) is None {
        Some(RouteError::NoDefault)
    } else if replies[d] is None {
        Some(RouteError::NoSink)
    } else if replies[d + 1] is None {
        Some(RouteError::NotSwitched)
    } else {
        None
    }
}

/// How many steps there are.
pub open spec fn engage_steps(
    record: Option<Seq<char>>,
    replies: Seq<Option<Seq<char>>>,
) -> int {
    let d = load_step(replies);
    match engage_error(record, replies) {
        Some(RouteError::NoDefault) => d,
        Some(RouteError::NoSink) => d + 1,
        Some(_) => d + 3,
        None => d + 4 + listed(replies[d + 2]).len(),
    }
}

/// Nothing happens after the end.
proof fn lemma_engage_over(v: EngageView, replies: Seq<Option<Seq<char>>>, i: int, j: int)
    requires
        0 <= i <= j,
        engage_run(v, replies, i).phase == EngagePhase::Done || engage_run(v, replies, i).phase
            == EngagePhase::Failed,
    ensures
        engage_run(v, replies, j) == engage_run(v, replies, i),
    decreases j,
{
    if i < j {
        lemma_engage_over(v, replies, i, j - 1);
    }
}

/// The steps up to the one that makes the silent sink.
proof fn lemma_engage_begins(record: Option<Seq<char>>, replies: Seq<Option<Seq<char>>>)
    ensures
        ({
            let d = load_step(replies);
            let s = engage_run(engage_start(true, record), replies, d);
            match engage_previous(record, replies) {
                Some(sink) => s == (EngageView {
                    phase: EngagePhase::Load,
                    previous: sink,
                    ..engage_start(true, record)
                }),
                None => s.phase == EngagePhase::Failed && s.error == Some(
                    RouteError::NoDefault,
                ),
            }
        }),
{
    reveal_with_fuel(engage_run, 4);
}

/// What plays already is moved, one after the other, and nothing else is changed.
proof fn lemma_engage_moves(
    v: EngageView,
    replies: Seq<Option<Seq<char>>>,
    p: int,
    j: int,
)
    requires
        0 <= p,
        engage_run(v, replies, p).phase == EngagePhase::List,
        0 <= j <= listed(replies[p]).len(),
    ensures
        engage_run(v, replies, p + 1 + j) == (EngageView {
            phase: if j < listed(replies[p]).len() {
                EngagePhase::Move
            } else {
                EngagePhase::Write
            },
            inputs: listed(replies[p]),
            at: j,
            ..engage_run(v, replies, p)
        }),
    decreases j,
{
    if j > 0 {
        lemma_engage_moves(v, replies, p, j - 1);
    }
}

/// Where nothing fails, the sound goes to the television: the silent sink is made and
/// becomes the default, all that plays already is moved to it, and the record of the
/// sink and of the old default is written.
pub proof fn law_engage_routes(record: Option<Seq<char>>, replies: Seq<Option<Seq<char>>>)
    requires
        engage_error(record, replies) is None,
    ensures
        ({
            let v = engage_start(true, record);
            let d = load_step(replies);
            let inputs = listed(replies[d + 2]);
            let m = inputs.len() as int;
            let module = replies[d]->Some_0;
            let previous = engage_previous(record, replies)->Some_0;
            let end = engage_run(v, replies, d + 4 + m);
            &&& engage_action(engage_run(v, replies, d)) == ActionView::Pactl(
                seq![
                    "load-module"@,
                    "module-null-sink"@,
                    "sink_name="@ + sink_name(),
                    "sink_properties=device.description='PC_Mirror_(TV)'"@,
                ],
            )
            &&& engage_action(engage_run(v, replies, d + 1)) == ActionView::Pactl(
                seq!["set-default-sink"@, sink_name()],
            )
            &&& engage_action(engage_run(v, replies, d + 2)) == ActionView::Pactl(
                seq!["list"@, "short"@, "sink-inputs"@],
            )
            &&& forall|j: int|
                0 <= j < m ==> #[trigger] engage_action(engage_run(v, replies, d + 3 + j))
                    == ActionView::Pactl(seq!["move-sink-input"@, inputs[j], sink_name()])
            &&& engage_action(engage_run(v, replies, d + 3 + m)) == ActionView::Record(
                record_text(module, previous),
            )
            &&& end.phase == EngagePhase::Done
            &&& end.error is None
            &&& end.module == module
            &&& end.previous == previous
        }),
{
    let v = engage_start(true, record);
    let d = load_step(replies);
    lemma_engage_begins(record, replies);
    let s1 = engage_run(v, replies, d + 1);
    assert(s1.phase == EngagePhase::Switch);
    let s2 = engage_run(v, replies, d + 2);
    assert(s2 == engage_next(s1, replies[d + 1]));
    assert(s2.phase == EngagePhase::List);
    let inputs = listed(replies[d + 2]);
    assert forall|j: int| 0 <= j < inputs.len() implies #[trigger] engage_action(
        engage_run(v, replies, d + 3 + j),
    ) == ActionView::Pactl(seq!["move-sink-input"@, inputs[j], sink_name()]) by {
        lemma_engage_moves(v, replies, d + 2, j);
    }
    lemma_engage_moves(v, replies, d + 2, inputs.len() as int);
}

/// The way to the television comes to an end, whatever the replies are: it is done
/// where nothing fails, and otherwise it has failed, with the reason.
pub proof fn law_engage_ends(record: Option<Seq<char>>, replies: Seq<Option<Seq<char>>>)
    ensures
        ({
            let end = engage_run(
                engage_start(true, record),
                replies,
                engage_steps(record, replies),
            );
            &&& end.error == engage_error(record, replies)
            &&& end.phase == (if engage_error(record, replies) is None {
                EngagePhase::Done
            } else {
                EngagePhase::Failed
            })
        }),
{
    lemma_engage_begins(record, replies);
    if engage_error(record, replies) is None {
        law_engage_routes(record, replies);
    } else {
        reveal_with_fuel(engage_run, 4);
    }
}

/// The way to the television is done only where nothing has failed, and not before
/// every step to it has been taken.
pub proof fn law_engage_done(
    record: Option<Seq<char>>,
    replies: Seq<Option<Seq<char>>>,
    n: int,
)
    requires
        0 <= n,
        engage_run(engage_start(true, record), replies, n).phase == EngagePhase::Done,
    ensures
        engage_error(record, replies) is None,
        n >= engage_steps(record, replies),
{
    let v = engage_start(true, record);
    let end = engage_steps(record, replies);
    law_engage_ends(record, replies);
    if n < end {
        lemma_engage_over(v, replies, n, end);
        law_engage_routes(record, replies);
        lemma_engage_over(v, replies, n, end - 1);
    } else {
        lemma_engage_over(v, replies, end, n);
    }
}

/// The silent sink is taken for the old default only where nothing else is known:
/// the server tells it before the clean-up and no other after it, and no record names
/// another.
pub proof fn law_previous_real(record: Option<Seq<char>>, replies: Seq<Option<Seq<char>>>)
    requires
        engage_previous(record, replies) == Some(sink_name()),
    ensures
        replies[0] == Some(sink_name()),
        replies[2] is Some ==> !real_sink(replies[2]->Some_0),
        !real_sink(recorded_sink(record)),
{
}

/// After a run that did not end in order the next one still knows the old default of
/// the first: it is what the server tells after the clean-up, and where it does not
/// tell it, what the first run has written down.
pub proof fn law_crash_recovers(
    module: Seq<char>,
    previous: Seq<char>,
    replies: Seq<Option<Seq<char>>>,
)
    requires
        one_line(module),
        one_line(previous),
        real_sink(previous),
        replies[0] == Some(sink_name()),
    ensures
        engage_previous(Some(record_text(module, previous)), replies) == (if replies[2] is Some
            && real_sink(replies[2]->Some_0) {
            replies[2]
        } else {
            Some(previous)
        }),
{
    law_record_restores(module, previous);
}

/// The order of the phases of the way back.
pub open spec fn restore_rank(phase: RestorePhase) -> int {
    match phase {
        RestorePhase::Reset => 5,
        RestorePhase::List => 4,
        RestorePhase::Move => 3,
        RestorePhase::Unload => 2,
        RestorePhase::Forget => 1,
        RestorePhase::Search => 2,
        RestorePhase::Clean => 1,
        RestorePhase::Done => 0,
    }
}

/// The way back ends, whatever the replies: each step leads to a later phase, or
/// to the next item of the same one.
pub proof fn law_restore_ends(v: RestoreView, reply: Option<Seq<char>>)
    requires
        v.phase != RestorePhase::Done,
    ensures
        ({
            let w = restore_next(v, reply);
            ||| restore_rank(w.phase) < restore_rank(v.phase)
            ||| w.phase == v.phase && w.items == v.items && v.at < w.at < w.items.len()
        }),
{
}

/// Where the way back stands after the first `n` replies.
pub open spec fn restore_run(v: RestoreView, replies: Seq<Option<Seq<char>>>, n: int) -> RestoreView
    decreases n,
{
    if n <= 0 {
        v
    } else {
        restore_next(restore_run(v, replies, n - 1), replies[n - 1])
    }
}

/// What plays is moved to the old default, one after the other, and nothing
/// else is changed.
proof fn lemma_restore_moves(
    v: RestoreView,
    replies: Seq<Option<Seq<char>>>,
    j: int,
)
    requires
        v.phase == RestorePhase::Reset,
        0 <= j <= listed(replies[1]).len(),
    ensures
        restore_run(v, replies, 2 + j) == (RestoreView {
            phase: if j < listed(replies[1]).len() {
                RestorePhase::Move
            } else {
                after_reset(v.module, v.always)
            },
            items: listed(replies[1]),
            at: j,
            ..v
        }),
    decreases j,
{
    reveal_with_fuel(restore_run, 3);
    if j > 0 {
        lemma_restore_moves(v, replies, j - 1);
    }
}

/// The way back, whatever the replies are: the old default is the default again, all
/// that plays is moved to it, the silent sink is removed where its module is known,
/// and then the record.
pub proof fn law_restore_undoes(v: RestoreView, replies: Seq<Option<Seq<char>>>)
    requires
        v.phase == RestorePhase::Reset,
    ensures
        ({
            let items = listed(replies[1]);
            let m = items.len() as int;
            let u: int = if v.always || v.module.len() > 0 {
                1
            } else {
                0
            };
            &&& restore_action(restore_run(v, replies, 0)) == ActionView::Pactl(
                seq!["set-default-sink"@, v.previous],
            )
            &&& restore_action(restore_run(v, replies, 1)) == ActionView::Pactl(
                seq!["list"@, "short"@, "sink-inputs"@],
            )
            &&& forall|j: int|
                0 <= j < m ==> #[trigger] restore_action(restore_run(v, replies, 2 + j))
                    == ActionView::Pactl(seq!["move-sink-input"@, items[j], v.previous])
            &&& u == 1 ==> restore_action(restore_run(v, replies, 2 + m)) == ActionView::Pactl(
                seq!["unload-module"@, v.module],
            )
            &&& restore_action(restore_run(v, replies, 2 + m + u)) == ActionView::Forget
            &&& restore_run(v, replies, 3 + m + u).phase == RestorePhase::Done
        }),
{
    let items = listed(replies[1]);
    let m = items.len() as int;
    reveal_with_fuel(restore_run, 3);
    assert forall|j: int| 0 <= j < m implies #[trigger] restore_action(
        restore_run(v, replies, 2 + j),
    ) == ActionView::Pactl(seq!["move-sink-input"@, items[j], v.previous]) by {
        lemma_restore_moves(v, replies, j);
    }
    lemma_restore_moves(v, replies, m);
}

/// The silent sinks that were found are removed, one after the other.
proof fn lemma_restore_cleans(
    v: RestoreView,
    replies: Seq<Option<Seq<char>>>,
    j: int,
)
    requires
        v.phase == RestorePhase::Search,
        0 <= j <= listed_modules(replies[0]).len(),
    ensures
        restore_run(v, replies, 1 + j) == (RestoreView {
            phase: if j < listed_modules(replies[0]).len() {
                RestorePhase::Clean
            } else {
                RestorePhase::Done
            },
            items: listed_modules(replies[0]),
            at: j,
            ..v
        }),
    decreases j,
{
    reveal_with_fuel(restore_run, 2);
    if j > 0 {
        lemma_restore_cleans(v, replies, j - 1);
    }
}

/// Without a record the modules are asked for, and every one that makes a silent sink
/// is removed, whatever the replies are.
pub proof fn law_restore_searches(replies: Seq<Option<Seq<char>>>)
    ensures
        ({
            let v = restore_from(None);
            let items = listed_modules(replies[0]);
            let m = items.len() as int;
            &&& restore_action(restore_run(v, replies, 0)) == ActionView::Pactl(
                seq!["list"@, "short"@, "modules"@],
            )
            &&& forall|j: int|
                0 <= j < m ==> #[trigger] restore_action(restore_run(v, replies, 1 + j))
                    == ActionView::Pactl(seq!["unload-module"@, items[j]])
            &&& restore_run(v, replies, 1 + m).phase == RestorePhase::Done
        }),
{
    let v = restore_from(None);
    let items = listed_modules(replies[0]);
    let m = items.len() as int;
    assert forall|j: int| 0 <= j < m implies #[trigger] restore_action(
        restore_run(v, replies, 1 + j),
    ) == ActionView::Pactl(seq!["unload-module"@, items[j]]) by {
        lemma_restore_cleans(v, replies, j);
    }
    lemma_restore_cleans(v, replies, m);
}

/// The ids of a listing are the first words of its lines, in order; a line of white
/// space alone has none.
pub proof fn law_ids(list: Seq<Seq<char>>, gap: Seq<char>, id: Seq<char>, tail: Seq<char>)
    requires
        forall|i: int| 0 <= i < gap.len() ==> white(#[trigger] gap[i]),
        forall|i: int| 0 <= i < id.len() ==> !white(#[trigger] id[i]),
        id.len() > 0,
        tail.len() > 0 ==> white(tail[0]),
    ensures
        ({
            let n = list.len() as int;
            &&& ids_below(list.push(gap + id + tail), n + 1) == ids_below(list, n).push(id)
            &&& ids_below(list.push(gap), n + 1) == ids_below(list, n)
            &&& ids_below(list, 0) == Seq::<Seq<char>>::empty()
        }),
{
    let n = list.len() as int;
    law_first_word(gap, id, tail);
    lemma_ids_front(list, gap + id + tail, n);
    lemma_ids_front(list, gap, n);
    assert(list.push(gap + id + tail)[n] == gap + id + tail);
    assert(list.push(gap)[n] == gap);
}

/// A line at the end does not change the ids before it.
proof fn lemma_ids_front(list: Seq<Seq<char>>, line: Seq<char>, n: int)
    requires
        0 <= n <= list.len(),
    ensures
        ids_below(list.push(line), n) == ids_below(list, n),
        our_modules_below(list.push(line), n) == our_modules_below(list, n),
    decreases n,
{
    if n > 0 {
        lemma_ids_front(list, line, n - 1);
        assert(list.push(line)[n - 1] == list[n - 1]);
    }
}

/// A module is removed exactly where its line speaks of a null sink and of the silent
/// sink; the modules of others stay.
pub proof fn law_only_our_modules(
    list: Seq<Seq<char>>,
    gap: Seq<char>,
    id: Seq<char>,
    tail: Seq<char>,
)
    requires
        forall|i: int| 0 <= i < gap.len() ==> white(#[trigger] gap[i]),
        forall|i: int| 0 <= i < id.len() ==> !white(#[trigger] id[i]),
        id.len() > 0,
        tail.len() > 0 ==> white(tail[0]),
    ensures
        ({
            let n = list.len() as int;
            let line = gap + id + tail;
            let ours = occurs(line, "module-null-sink"@) && occurs(line, "mirror_tv"@);
            &&& ours ==> our_modules_below(list.push(line), n + 1) == our_modules_below(
                list,
                n,
            ).push(id)
            &&& !ours ==> our_modules_below(list.push(line), n + 1) == our_modules_below(list, n)
            &&& our_modules_below(list, 0) == Seq::<Seq<char>>::empty()
        }),
{
    let n = list.len() as int;
    let line = gap + id + tail;
    law_first_word(gap, id, tail);
    lemma_ids_front(list, line, n);
    assert(list.push(line)[n] == line);
}

/// The silent sink has its name, and a name of another output that is not empty is
/// that of a real one.
pub proof fn law_real_sinks(name: Seq<char>)
    ensures
        sink_name() == "mirror_tv"@,
        real_sink(name) <==> name.len() > 0 && name != "mirror_tv"@,
        old_default(Some(name), "mirror_tv"@) == (if name.len() > 0 {
            name
        } else {
            "mirror_tv"@
        }),
{
}

/// The record has two lines: the module of the silent sink, and the old default.
pub proof fn law_record_lines(module: Seq<char>, previous: Seq<char>)
    requires
        one_line(module),
        one_line(previous),
    ensures
        record_text(module, previous) == module + "\n"@ + previous + "\n"@,
        lines_of(record_text(module, previous)) == seq![module, previous],
        recorded_sink(Some(record_text(module, previous))) == previous,
        recorded_sink(None) == Seq::<char>::empty(),
{
    let text = record_text(module, previous);
    let tail = previous + "\n"@ + Seq::<char>::empty();
    assert(text =~= module + "\n"@ + tail);
    lemma_first_line(module, tail);
    lemma_first_line(previous, Seq::empty());
    assert(lines_of(text) =~= seq![module, previous]);
}

/// The way to the television begins with the question for the default. Where that is
/// the silent sink of an earlier run, what that run has left is cleaned up, and the
/// question is asked once more.
pub proof fn law_engage_asks(record: Option<Seq<char>>, replies: Seq<Option<Seq<char>>>)
    ensures
        ({
            let v = engage_start(true, record);
            let ask = ActionView::Pactl(seq!["get-default-sink"@]);
            &&& engage_action(engage_run(v, replies, 0)) == ask
            &&& replies[0] == Some("mirror_tv"@) ==> engage_action(engage_run(v, replies, 1))
                == ActionView::Restore && engage_action(engage_run(v, replies, 2)) == ask
            &&& engage_start(false, record).phase == EngagePhase::Failed
            &&& engage_start(false, record).error == Some(RouteError::NoServer)
            &&& engage_action(engage_start(false, record)) == ActionView::Finish
        }),
{
    reveal_with_fuel(engage_run, 3);
}

/// A record without an old default is undone as far as it goes: the module that it
/// names is removed, and then the record.
pub proof fn law_half_a_record(text: Seq<char>, replies: Seq<Option<Seq<char>>>)
    requires
        lines_of(text).len() < 2 || lines_of(text)[1].len() == 0,
    ensures
        ({
            let v = restore_from(Some(text));
            let named = lines_of(text).len() > 0 && lines_of(text)[0].len() > 0;
            &&& named ==> restore_action(restore_run(v, replies, 0)) == ActionView::Pactl(
                seq!["unload-module"@, lines_of(text)[0]],
            ) && restore_action(restore_run(v, replies, 1)) == ActionView::Forget && restore_run(
                v,
                replies,
                2,
            ).phase == RestorePhase::Done
            &&& !named ==> restore_action(restore_run(v, replies, 0)) == ActionView::Forget
                && restore_run(v, replies, 1).phase == RestorePhase::Done
        }),
{
    reveal_with_fuel(restore_run, 3);
}

/// Without a reply nothing is moved and nothing is removed; with one, what its lines
/// name.
pub proof fn law_listings(listing: Seq<char>)
    ensures
        listed(None) == Seq::<Seq<char>>::empty(),
        listed_modules(None) == Seq::<Seq<char>>::empty(),
        listed(Some(listing)) == ids_below(lines_of(listing), lines_of(listing).len() as int),
        listed_modules(Some(listing)) == our_modules_below(
            lines_of(listing),
            lines_of(listing).len() as int,
        ),
{
}

} // verus!
