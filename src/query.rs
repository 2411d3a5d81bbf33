use vstd::prelude::*;
use std::collections::HashMap;
use crate::screens::{Mode, Output, OutputView, Position, Resolution, SCALE_ONE};

verus! {

broadcast use vstd::std_specs::hash::group_hash_axioms;

/// The global interface that the query binds to.
pub const MANAGER_INTERFACE: &'static str = "zwlr_output_manager_v1";

/// The version of `MANAGER_INTERFACE` that the query binds.
pub const MANAGER_VERSION: u32 = 1;

/// Name given to a head until the compositor reports one.
pub const UNNAMED_HEAD: &'static str = "unknown";

/// An attribute that the compositor reports for a head.
#[derive(Debug)]
pub enum HeadAttribute {
    Name(String),
    Description(String),
    Enabled(bool),
    /// Scale in the protocol's 24.8 fixed-point encoding.
    Scale(i32),
    Position(Position),
}

/// An attribute that the compositor reports for a mode.
#[derive(Debug, Clone, Copy, PartialEq, Eq, Structural)]
pub enum ModeAttribute {
    Size(Resolution),
    /// Refresh rate in mHz.
    Refresh(i32),
    Preferred,
}

/// One protocol event, with protocol objects named by their identifiers.
#[derive(Debug)]
pub enum Event {
    /// The compositor advertises a global interface.
    Global { name: u32, interface: String },
    /// The compositor has advertised all of its globals.
    GlobalsDone,
    /// The manager reports a new head.
    HeadCreated { head: u32 },
    /// A head reports one of its attributes.
    HeadAttribute { head: u32, attribute: HeadAttribute },
    /// A head reports a new mode.
    ModeCreated { head: u32, mode: u32 },
    /// A mode reports one of its attributes.
    ModeAttribute { mode: u32, attribute: ModeAttribute },
    /// A head reports which of its modes is current.
    CurrentModeSet { head: u32, mode: u32 },
    /// The manager signals that a batch of events is complete.
    BatchComplete,
}

/// A protocol inconsistency that was recovered from.
#[derive(Debug, Clone, Copy, PartialEq, Eq, Structural)]
pub enum Anomaly {
    /// An event names a head that was never created.
    UnknownHead(u32),
    /// An event names a mode that was never created.
    UnknownMode(u32),
    /// An event arrived after the batch was complete; it was not applied.
    AfterBatchComplete,
}

/// Why a query cannot complete.
#[derive(Debug, Clone, Copy, PartialEq, Eq, Structural)]
pub enum QueryError {
    /// The compositor does not offer `MANAGER_INTERFACE`.
    CapabilityNotFound,
}

/// What the caller has to do after handing an event to the state machine.
#[derive(Debug, Clone, Copy, PartialEq, Eq, Structural)]
pub enum Action {
    /// Nothing: keep dispatching.
    Continue,
    /// Bind the global `name` at `version`.
    Bind { name: u32, version: u32 },
    /// Report the anomaly; the event changed nothing.
    Warn(Anomaly),
    /// The snapshot is ready.
    Finished,
    /// Give up the query with this error.
    Fail(QueryError),
}

/// Mathematical view of a head before finalisation.
pub struct HeadModel {
    pub name: Seq<char>,
    pub description: Seq<char>,
    pub enabled: bool,
    pub scale: i32,
    pub position: Option<Position>,
    pub mode_ids: Seq<u32>,
    pub current_mode: Option<u32>,
}

/// Mathematical view of the whole query state.
pub struct QueryModel {
    pub running: bool,
    pub bound: bool,
    pub heads: Map<u32, HeadModel>,
    /// Head identifiers in the order the heads were first reported.
    pub order: Seq<u32>,
    pub modes: Map<u32, Mode>,
    pub capabilities: Seq<Seq<char>>,
    pub finalised: Seq<OutputView>,
}

pub open spec fn unset_head() -> HeadModel {
    HeadModel {
        name: UNNAMED_HEAD@,
        description: Seq::empty(),
        enabled: false,
        scale: SCALE_ONE,
        position: None,
        mode_ids: Seq::empty(),
        current_mode: None,
    }
}

/// `h` with attribute `a` overwritten.
pub open spec fn apply_head_attribute(h: HeadModel, a: HeadAttribute) -> HeadModel {
    match a {
        HeadAttribute::Name(n) => HeadModel { name: n@, ..h },
        HeadAttribute::Description(d) => HeadModel { description: d@, ..h },
        HeadAttribute::Enabled(e) => HeadModel { enabled: e, ..h },
        HeadAttribute::Scale(s) => HeadModel { scale: s, ..h },
        HeadAttribute::Position(p) => HeadModel { position: Some(p), ..h },
    }
}

/// `m` with attribute `a` overwritten.
pub open spec fn apply_mode_attribute(m: Mode, a: ModeAttribute) -> Mode {
    match a {
        ModeAttribute::Size(r) => Mode { resolution: r, ..m },
        ModeAttribute::Refresh(f) => Mode { refresh: f, ..m },
        ModeAttribute::Preferred => Mode { preferred: true, ..m },
    }
}

/// The modes named by `ids`, in order, leaving out identifiers that name
/// no mode.
pub open spec fn resolve_modes(ids: Seq<u32>, modes: Map<u32, Mode>) -> Seq<Mode>
    decreases ids.len(),
{
    if ids.len() == 0 {
        Seq::empty()
    } else {
        let rest = resolve_modes(ids.drop_last(), modes);
        if modes.contains_key(ids.last()) {
            rest.push(modes[ids.last()])
        } else {
            rest
        }
    }
}

/// The first mode of `modes` flagged as preferred.
pub open spec fn first_preferred(modes: Seq<Mode>) -> Option<Mode>
    decreases modes.len(),
{
    if modes.len() == 0 {
        None
    } else if modes[0].preferred {
        Some(modes[0])
    } else {
        first_preferred(modes.drop_first())
    }
}

/// The mode named by `id`, if there is one.
pub open spec fn resolve_mode(id: Option<u32>, modes: Map<u32, Mode>) -> Option<Mode> {
    match id {
        Some(i) => if modes.contains_key(i) {
            Some(modes[i])
        } else {
            None
        },
        None => None,
    }
}

/// The snapshot of head `h`, with its mode identifiers resolved in `modes`.
pub open spec fn finalise_head(h: HeadModel, modes: Map<u32, Mode>) -> OutputView {
    let ms = resolve_modes(h.mode_ids, modes);
    OutputView {
        name: h.name,
        enabled: h.enabled,
        description: h.description,
        current_mode: resolve_mode(h.current_mode, modes),
        preferred_mode: first_preferred(ms),
        modes: ms,
        position: h.position,
        scale: h.scale,
    }
}

/// The snapshots of all heads, in the order the heads were first reported.
pub open spec fn finalise(m: QueryModel) -> Seq<OutputView> {
    m.order.map_values(|id: u32| finalise_head(m.heads[id], m.modes))
}

impl QueryModel {
    /// Every head is listed exactly once in `order`.
    pub open spec fn wf(self) -> bool {
        &&& self.order.no_duplicates()
        &&& forall|k: u32| self.heads.contains_key(k) <==> self.order.contains(k)
    }

    pub open spec fn initial() -> QueryModel {
        QueryModel {
            running: true,
            bound: false,
            heads: Map::empty(),
            order: Seq::empty(),
            modes: Map::empty(),
            capabilities: Seq::empty(),
            finalised: Seq::empty(),
        }
    }

    /// The state after event `e`, and what the caller is asked to do.
    pub open spec fn step(self, e: Event) -> (QueryModel, Action) {
        if !self.running {
            (self, Action::Warn(Anomaly::AfterBatchComplete))
        } else {
            match e {
                Event::Global { name, interface } => {
                    let m = QueryModel {
                        capabilities: self.capabilities.push(interface@),
                        ..self
                    };
                    if interface@ == MANAGER_INTERFACE@ && !self.bound {
                        (
                            QueryModel { bound: true, ..m },
                            Action::Bind { name, version: MANAGER_VERSION },
                        )
                    } else {
                        (m, Action::Continue)
                    }
                },
                Event::GlobalsDone => {
                    if self.bound {
                        (self, Action::Continue)
                    } else {
                        (self, Action::Fail(QueryError::CapabilityNotFound))
                    }
                },
                Event::HeadCreated { head } => {
                    let order = if self.order.contains(head) {
                        self.order
                    } else {
                        self.order.push(head)
                    };
                    (
                        QueryModel { heads: self.heads.insert(head, unset_head()), order, ..self },
                        Action::Continue,
                    )
                },
                Event::HeadAttribute { head, attribute } => {
                    if self.heads.contains_key(head) {
                        let h = apply_head_attribute(self.heads[head], attribute);
                        (QueryModel { heads: self.heads.insert(head, h), ..self }, Action::Continue)
                    } else {
                        (self, Action::Warn(Anomaly::UnknownHead(head)))
                    }
                },
                Event::ModeCreated { head, mode } => {
                    let m = QueryModel { modes: self.modes.insert(mode, Mode::spec_unset()), ..self };
                    if self.heads.contains_key(head) {
                        let old_h = self.heads[head];
                        let h = HeadModel { mode_ids: old_h.mode_ids.push(mode), ..old_h };
                        (QueryModel { heads: self.heads.insert(head, h), ..m }, Action::Continue)
                    } else {
                        (m, Action::Warn(Anomaly::UnknownHead(head)))
                    }
                },
                Event::ModeAttribute { mode, attribute } => {
                    if self.modes.contains_key(mode) {
                        let md = apply_mode_attribute(self.modes[mode], attribute);
                        (QueryModel { modes: self.modes.insert(mode, md), ..self }, Action::Continue)
                    } else {
                        (self, Action::Warn(Anomaly::UnknownMode(mode)))
                    }
                },
                Event::CurrentModeSet { head, mode } => {
                    if self.heads.contains_key(head) {
                        let h = HeadModel { current_mode: Some(mode), ..self.heads[head] };
                        (QueryModel { heads: self.heads.insert(head, h), ..self }, Action::Continue)
                    } else {
                        (self, Action::Warn(Anomaly::UnknownHead(head)))
                    }
                },
                Event::BatchComplete => {
                    (
                        QueryModel { running: false, finalised: finalise(self), ..self },
                        Action::Finished,
                    )
                },
            }
        }
    }
}

/// A head as reported so far, with its modes still named by identifier.
struct PartialOutput {
    name: String,
    description: String,
    enabled: bool,
    scale: i32,
    position: Option<Position>,
    mode_ids: Vec<u32>,
    current_mode: Option<u32>,
}

impl View for PartialOutput {
    type V = HeadModel;

    closed spec fn view(&self) -> HeadModel {
        HeadModel {
            name: self.name@,
            description: self.description@,
            enabled: self.enabled,
            scale: self.scale,
            position: self.position,
            mode_ids: self.mode_ids@,
            current_mode: self.current_mode,
        }
    }
}

impl PartialOutput {
    fn unset() -> (r: PartialOutput)
        ensures
            r@ == unset_head(),
    {
        PartialOutput {
            name: UNNAMED_HEAD.to_owned(),
            description: String::new(),
            enabled: false,
            scale: SCALE_ONE,
            position: None,
            mode_ids: Vec::new(),
            current_mode: None,
        }
    }
}

/// The state of one query: the head and mode registries, the advertised
/// capabilities, and, once the batch is complete, the snapshot.
pub struct OutputQueryState {
    running: bool,
    bound: bool,
    heads: HashMap<u32, PartialOutput>,
    order: Vec<u32>,
    modes: HashMap<u32, Mode>,
    capabilities: Vec<String>,
    finalised: Vec<Output>,
}

impl View for OutputQueryState {
    type V = QueryModel;

    closed spec fn view(&self) -> QueryModel {
        QueryModel {
            running: self.running,
            bound: self.bound,
            heads: self.heads@.map_values(|h: PartialOutput| h@),
            order: self.order@,
            modes: self.modes@,
            capabilities: self.capabilities@.map_values(|s: String| s@),
            finalised: self.finalised@.map_values(|o: Output| o@),
        }
    }
}

impl OutputQueryState {
    /// A query that has seen no event yet.
    pub fn new() -> (r: OutputQueryState)
        ensures
            r@ == QueryModel::initial(),
            r@.wf(),
    {
        let r = OutputQueryState {
            running: true,
            bound: false,
            heads: HashMap::new(),
            order: Vec::new(),
            modes: HashMap::new(),
            capabilities: Vec::new(),
            finalised: Vec::new(),
        };
        assert(r@.heads =~= Map::empty());
        assert(r@.capabilities =~= Seq::empty());
        assert(r@.finalised =~= Seq::empty());
        r
    }

    /// Whether the batch is complete and the snapshot taken.
    pub fn is_finished(&self) -> (r: bool)
        ensures
            r == !self@.running,
    {
        !self.running
    }

    /// Whether the query has asked to bind `MANAGER_INTERFACE`.
    pub fn is_bound(&self) -> (r: bool)
        ensures
            r == self@.bound,
    {
        self.bound
    }

    /// The snapshot: empty until the batch is complete.
    pub fn outputs(&self) -> (r: &Vec<Output>)
        ensures
            r@.map_values(|o: Output| o@) == self@.finalised,
    {
        &self.finalised
    }

    /// Every global interface the compositor advertised, in order.
    pub fn capabilities(&self) -> (r: &Vec<String>)
        ensures
            r@.map_values(|s: String| s@) == self@.capabilities,
    {
        &self.capabilities
    }

    fn global(&mut self, name: u32, interface: String) -> (r: Action)
        requires
            old(self)@.running,
        ensures
            (final(self)@, r) == old(self)@.step(Event::Global { name, interface }),
    {
        let manager = MANAGER_INTERFACE.to_owned();
        let is_manager = interface == manager;
        let ghost iv = interface@;
        self.capabilities.push(interface);
        assert(self@.capabilities =~= old(self)@.capabilities.push(iv));
        if is_manager && !self.bound {
            self.bound = true;
            Action::Bind { name, version: MANAGER_VERSION }
        } else {
            Action::Continue
        }
    }

    fn head_created(&mut self, head: u32) -> (r: Action)
        requires
            old(self)@.running,
            old(self)@.wf(),
        ensures
            (final(self)@, r) == old(self)@.step(Event::HeadCreated { head }),
    {
        let known = self.heads.contains_key(&head);
        let h = PartialOutput::unset();
        self.heads.insert(head, h);
        if !known {
            self.order.push(head);
        }
        assert(self@.heads =~= old(self)@.heads.insert(head, unset_head()));
        Action::Continue
    }

    fn head_attribute(&mut self, head: u32, attribute: HeadAttribute) -> (r: Action)
        requires
            old(self)@.running,
        ensures
            (final(self)@, r) == old(self)@.step(Event::HeadAttribute { head, attribute }),
    {
        let ghost a = attribute;
        match self.heads.remove(&head) {
            Some(mut h) => {
                let ghost before = h@;
                match attribute {
                    HeadAttribute::Name(n) => h.name = n,
                    HeadAttribute::Description(d) => h.description = d,
                    HeadAttribute::Enabled(e) => h.enabled = e,
                    HeadAttribute::Scale(sc) => h.scale = sc,
                    HeadAttribute::Position(p) => h.position = Some(p),
                }
                assert(h@ == apply_head_attribute(before, a));
                self.heads.insert(head, h);
                assert(self@.heads =~= old(self)@.heads.insert(
                    head,
                    apply_head_attribute(old(self)@.heads[head], a),
                ));
                Action::Continue
            },
            None => {
                assert(self.heads@ =~= old(self).heads@);
                Action::Warn(Anomaly::UnknownHead(head))
            },
        }
    }

    fn mode_created(&mut self, head: u32, mode: u32) -> (r: Action)
        requires
            old(self)@.running,
        ensures
            (final(self)@, r) == old(self)@.step(Event::ModeCreated { head, mode }),
    {
        self.modes.insert(mode, Mode::unset());
        match self.heads.remove(&head) {
            Some(mut h) => {
                h.mode_ids.push(mode);
                self.heads.insert(head, h);
                let ghost old_h = old(self)@.heads[head];
                assert(self@.heads =~= old(self)@.heads.insert(
                    head,
                    HeadModel { mode_ids: old_h.mode_ids.push(mode), ..old_h },
                ));
                Action::Continue
            },
            None => {
                assert(self.heads@ =~= old(self).heads@);
                Action::Warn(Anomaly::UnknownHead(head))
            },
        }
    }

    fn current_mode_set(&mut self, head: u32, mode: u32) -> (r: Action)
        requires
            old(self)@.running,
        ensures
            (final(self)@, r) == old(self)@.step(Event::CurrentModeSet { head, mode }),
    {
        match self.heads.remove(&head) {
            Some(mut h) => {
                h.current_mode = Some(mode);
                self.heads.insert(head, h);
                let ghost old_h = old(self)@.heads[head];
                assert(self@.heads =~= old(self)@.heads.insert(
                    head,
                    HeadModel { current_mode: Some(mode), ..old_h },
                ));
                Action::Continue
            },
            None => {
                assert(self.heads@ =~= old(self).heads@);
                Action::Warn(Anomaly::UnknownHead(head))
            },
        }
    }

    fn mode_attribute(&mut self, mode: u32, attribute: ModeAttribute) -> (r: Action)
        requires
            old(self)@.running,
        ensures
            (final(self)@, r) == old(self)@.step(Event::ModeAttribute { mode, attribute }),
    {
        let found = match self.modes.get(&mode) {
            Some(m) => Some(*m),
            None => None,
        };
        match found {
            Some(mut m) => {
                match attribute {
                    ModeAttribute::Size(res) => m.resolution = res,
                    ModeAttribute::Refresh(f) => m.refresh = f,
                    ModeAttribute::Preferred => m.preferred = true,
                }
                self.modes.insert(mode, m);
                Action::Continue
            },
            None => Action::Warn(Anomaly::UnknownMode(mode)),
        }
    }

    fn find_modes_for_output(&self, h: &PartialOutput) -> (r: Vec<Mode>)
        ensures
            r@ == resolve_modes(h@.mode_ids, self@.modes),
    {
        let ids = &h.mode_ids;
        let mut out: Vec<Mode> = Vec::new();
        let mut i: usize = 0;
        while i < ids.len()
            invariant
                ids@ == h@.mode_ids,
                0 <= i <= ids.len(),
                out@ == resolve_modes(ids@.subrange(0, i as int), self@.modes),
            decreases ids.len() - i,
        {
            let id = ids[i];
            assert(ids@.subrange(0, i + 1).drop_last() == ids@.subrange(0, i as int));
            match self.modes.get(&id) {
                Some(m) => out.push(*m),
                None => {},
            }
            i = i + 1;
        }
        assert(ids@.subrange(0, ids.len() as int) == ids@);
        out
    }

    fn find_current_mode(&self, h: &PartialOutput) -> (r: Option<Mode>)
        ensures
            r == resolve_mode(h@.current_mode, self@.modes),
    {
        match h.current_mode {
            Some(id) => match self.modes.get(&id) {
                Some(m) => Some(*m),
                None => None,
            },
            None => None,
        }
    }

    fn finalise_output(&self, h: &PartialOutput) -> (r: Output)
        ensures
            r@ == finalise_head(h@, self@.modes),
    {
        let modes = self.find_modes_for_output(h);
        let preferred_mode = find_preferred(&modes);
        Output {
            name: h.name.clone(),
            enabled: h.enabled,
            description: h.description.clone(),
            current_mode: self.find_current_mode(h),
            preferred_mode,
            modes,
            position: h.position,
            scale: h.scale,
        }
    }

    fn finalise(&self) -> (r: Vec<Output>)
        requires
            self@.wf(),
        ensures
            r@.map_values(|o: Output| o@) == finalise(self@),
    {
        let mut out: Vec<Output> = Vec::new();
        let mut i: usize = 0;
        while i < self.order.len()
            invariant
                self@.wf(),
                0 <= i <= self.order.len(),
                out@.map_values(|o: Output| o@) == finalise(self@).subrange(0, i as int),
            decreases self.order.len() - i,
        {
            let id = self.order[i];
            assert(self@.order.contains(id));
            let h = self.heads.get(&id).unwrap();
            let o = self.finalise_output(h);
            let ghost prev = out@;
            out.push(o);
            assert(out@.map_values(|o: Output| o@) =~= prev.map_values(|o: Output| o@).push(o@));
            assert(finalise(self@).subrange(0, i + 1) =~= finalise(self@).subrange(0, i as int).push(
                finalise(self@)[i as int],
            ));
            i = i + 1;
        }
        assert(finalise(self@).subrange(0, self.order.len() as int) =~= finalise(self@));
        out
    }

    /// Hands one event to the state machine: updates the registries as
    /// `QueryModel::step` says and returns what the caller has to do.
    pub fn event(&mut self, e: Event) -> (r: Action)
        requires
            old(self)@.wf(),
        ensures
            (final(self)@, r) == old(self)@.step(e),
            final(self)@.wf(),
    {
        proof {
            lemma_step_wf(self@, e);
        }
        if !self.running {
            return Action::Warn(Anomaly::AfterBatchComplete);
        }
        match e {
            Event::Global { name, interface } => self.global(name, interface),
            Event::GlobalsDone => {
                if self.bound {
                    Action::Continue
                } else {
                    Action::Fail(QueryError::CapabilityNotFound)
                }
            },
            Event::HeadCreated { head } => self.head_created(head),
            Event::HeadAttribute { head, attribute } => self.head_attribute(head, attribute),
            Event::ModeCreated { head, mode } => self.mode_created(head, mode),
            Event::ModeAttribute { mode, attribute } => self.mode_attribute(mode, attribute),
            Event::CurrentModeSet { head, mode } => self.current_mode_set(head, mode),
            Event::BatchComplete => {
                self.finalised = self.finalise();
                self.running = false;
                Action::Finished
            },
        }
    }
}

/// The first mode of `modes` flagged as preferred.
fn find_preferred(modes: &Vec<Mode>) -> (r: Option<Mode>)
    ensures
        r == first_preferred(modes@),
{
    let mut i: usize = 0;
    assert(modes@.subrange(0, modes.len() as int) == modes@);
    while i < modes.len()
        invariant
            0 <= i <= modes.len(),
            first_preferred(modes@) == first_preferred(modes@.subrange(i as int, modes.len() as int)),
        decreases modes.len() - i,
    {
        let ghost rest = modes@.subrange(i as int, modes.len() as int);
        assert(rest[0] == modes@[i as int]);
        if modes[i].preferred {
            return Some(modes[i]);
        }
        assert(rest.drop_first() =~= modes@.subrange(i + 1, modes.len() as int));
        i = i + 1;
    }
    None
}

/// Every step keeps each head listed exactly once in `order`.
pub proof fn lemma_step_wf(m: QueryModel, e: Event)
    requires
        m.wf(),
    ensures
        m.step(e).0.wf(),
{
    if m.running {
        match e {
            Event::HeadCreated { head } => {
                let m2 = m.step(e).0;
                if !m.order.contains(head) {
                    assert forall|i: int, j: int|
                        0 <= i < j < m2.order.len() implies m2.order[i] != m2.order[j] by {
                        if j == m.order.len() {
                            assert(m.order.contains(m.order[i]));
                        }
                    }
                    assert forall|k: u32| m2.heads.contains_key(k) <==> m2.order.contains(k) by {
                        if k == head {
                            assert(m2.order[m.order.len() as int] == head);
                        } else {
                            if m2.order.contains(k) {
                                let i = choose|i: int| 0 <= i < m2.order.len() && m2.order[i] == k;
                                assert(i < m.order.len());
                                assert(m.order[i] == k);
                                assert(m.order.contains(k));
                            }
                            if m.order.contains(k) {
                                let i = choose|i: int| 0 <= i < m.order.len() && m.order[i] == k;
                                assert(m2.order[i] == k);
                            }
                            assert(m2.heads.contains_key(k) == m.heads.contains_key(k));
                        }
                    }
                }
            },
            _ => {},
        }
    }
}

} // verus!
