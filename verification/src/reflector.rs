//! The list-then-watch state machine that keeps one kind's [`Store`]
//! synchronized: it decides, for every outcome the transport reports,
//! how the cache changes, which phase comes next, and what the driving
//! loop must do (list, watch, wait, or stop).
//!
//! The driving loop itself lives outside this crate: it performs the
//! network calls and feeds every outcome back in as a
//! [`ReflectorInput`].

use vstd::prelude::*;
use crate::obj::{ObjectRecord, WatchEvent, RecordView, EventView, WatchErrorView};
use crate::store::{Store, StoreView, rec_views, keys_unique, map_of};

verus! {

/// First wait after a failure, in milliseconds.
pub const BACKOFF_BASE_MS: u64 = 1000;

/// Ceiling for the doubling wait, in milliseconds.
pub const BACKOFF_CAP_MS: u64 = 30000;

/// The phase of one reflector.
#[derive(Clone, Copy, PartialEq, Eq, Structural, Debug)]
pub enum Phase {
    /// Waiting for the initial enumeration of all objects.
    Listing,
    /// Consuming a watch stream of incremental changes.
    Watching,
    /// The server compacted the cursor away; waiting for a fresh full
    /// enumeration.
    Relisting,
    /// Cancelled; the cache stays readable but is no longer updated.
    Stopped,
}

/// Mathematical view of a [`ReflectorInput`].
#[verifier::ext_equal]
pub enum InputView {
    ListOk(Seq<RecordView>, Seq<char>),
    ListErr,
    Watch(EventView),
    StreamEnd,
    Cancel,
}

/// One outcome of the outside work, fed back into the state machine.
pub enum ReflectorInput {
    /// A full enumeration succeeded: all objects and the cursor to
    /// watch from.
    ListOk(Vec<ObjectRecord>, String),
    /// The enumeration failed (transport or decoding); nothing was
    /// applied.
    ListErr,
    /// The watch stream delivered one event.
    Watch(WatchEvent),
    /// The watch stream ended gracefully.
    StreamEnd,
    /// The owner asked the reflector to stop.
    Cancel,
}

impl View for ReflectorInput {
    type V = InputView;

    open spec fn view(&self) -> InputView {
        match self {
            ReflectorInput::ListOk(records, rv) => InputView::ListOk(rec_views(records@), rv@),
            ReflectorInput::ListErr => InputView::ListErr,
            ReflectorInput::Watch(e) => InputView::Watch(e@),
            ReflectorInput::StreamEnd => InputView::StreamEnd,
            ReflectorInput::Cancel => InputView::Cancel,
        }
    }
}

/// Mathematical view of a [`ReflectorAction`].
#[verifier::ext_equal]
pub enum ActionView {
    List,
    StartWatch(Seq<char>),
    WaitThenList(u64),
    WaitThenWatch(u64, Seq<char>),
    Continue,
    Stop,
}

/// What the driving loop must do next.
pub enum ReflectorAction {
    /// Enumerate all objects now.
    List,
    /// Open a watch stream starting at the given cursor.
    StartWatch(String),
    /// Wait the given number of milliseconds, then enumerate.
    WaitThenList(u64),
    /// Wait the given number of milliseconds, then watch again from
    /// the given cursor.
    WaitThenWatch(u64, String),
    /// Keep consuming the current watch stream.
    Continue,
    /// Release the transport; no further input will be accepted.
    Stop,
}

impl View for ReflectorAction {
    type V = ActionView;

    open spec fn view(&self) -> ActionView {
        match self {
            ReflectorAction::List => ActionView::List,
            ReflectorAction::StartWatch(rv) => ActionView::StartWatch(rv@),
            ReflectorAction::WaitThenList(ms) => ActionView::WaitThenList(*ms),
            ReflectorAction::WaitThenWatch(ms, rv) => ActionView::WaitThenWatch(*ms, rv@),
            ReflectorAction::Continue => ActionView::Continue,
            ReflectorAction::Stop => ActionView::Stop,
        }
    }
}

/// Mathematical view of a [`Reflector`].
#[verifier::ext_equal]
pub struct ReflectorView {
    pub phase: Phase,
    pub backoff_ms: u64,
}

impl ReflectorView {
    /// Which inputs the protocol can deliver in the current phase:
    /// list outcomes while a list is pending, watch outcomes while a
    /// stream is open, cancellation always. A successful list carries
    /// pairwise-distinct keys, as the server enumerates each object
    /// once.
    pub open spec fn accepts(self, input: InputView) -> bool {
        match self.phase {
            Phase::Listing | Phase::Relisting => match input {
                InputView::ListOk(records, _) => keys_unique(records),
                InputView::ListErr => true,
                InputView::Cancel => true,
                _ => false,
            },
            Phase::Watching => match input {
                InputView::Watch(_) => true,
                InputView::StreamEnd => true,
                InputView::Cancel => true,
                _ => false,
            },
            Phase::Stopped => true,
        }
    }
}

/// Twice the current wait, capped at [`BACKOFF_CAP_MS`].
pub open spec fn next_backoff(b: u64) -> u64 {
    if b > BACKOFF_CAP_MS / 2 {
        BACKOFF_CAP_MS
    } else {
        (2 * b) as u64
    }
}

/// The reflector after one input: a successful list enters Watching
/// and resets the backoff; a failure doubles it; a gone-cursor error
/// enters Relisting; any delivered event resets the backoff;
/// cancellation enters Stopped, which absorbs everything.
pub open spec fn step_reflector(r: ReflectorView, input: InputView) -> ReflectorView {
    if r.phase == Phase::Stopped {
        r
    } else {
        match input {
            InputView::Cancel => ReflectorView { phase: Phase::Stopped, ..r },
            InputView::ListOk(_, _) => ReflectorView {
                phase: Phase::Watching,
                backoff_ms: BACKOFF_BASE_MS,
            },
            InputView::ListErr => ReflectorView {
                phase: r.phase,
                backoff_ms: next_backoff(r.backoff_ms),
            },
            InputView::Watch(e) => match e {
                EventView::Error(we) => if we.is_gone {
                    ReflectorView { phase: Phase::Relisting, ..r }
                } else {
                    ReflectorView { backoff_ms: next_backoff(r.backoff_ms), ..r }
                },
                _ => ReflectorView { backoff_ms: BACKOFF_BASE_MS, ..r },
            },
            InputView::StreamEnd => ReflectorView {
                backoff_ms: next_backoff(r.backoff_ms),
                ..r
            },
        }
    }
}

/// The cache after one input: a successful list replaces it whole, a
/// watch event is applied incrementally, everything else leaves it
/// untouched.
pub open spec fn step_store(r: ReflectorView, s: StoreView, input: InputView) -> StoreView {
    if r.phase == Phase::Stopped {
        s
    } else {
        match input {
            InputView::ListOk(records, rv) => StoreView {
                objects: map_of(records),
                resource_version: rv,
            },
            InputView::Watch(e) => Store::apply_event_spec(s, e),
            _ => s,
        }
    }
}

/// What the driving loop must do after one input. A transient failure
/// waits the current backoff and retries the same phase from the last
/// applied cursor; a gone cursor lists again at once.
pub open spec fn step_action(r: ReflectorView, s: StoreView, input: InputView) -> ActionView {
    if r.phase == Phase::Stopped {
        ActionView::Stop
    } else {
        match input {
            InputView::Cancel => ActionView::Stop,
            InputView::ListOk(_, rv) => ActionView::StartWatch(rv),
            InputView::ListErr => ActionView::WaitThenList(r.backoff_ms),
            InputView::Watch(e) => match e {
                EventView::Error(we) => if we.is_gone {
                    ActionView::List
                } else {
                    ActionView::WaitThenWatch(r.backoff_ms, s.resource_version)
                },
                _ => ActionView::Continue,
            },
            InputView::StreamEnd => ActionView::WaitThenWatch(r.backoff_ms, s.resource_version),
        }
    }
}

/// The state machine of one kind's reflector: its phase and the wait
/// it would impose after one more failure.
pub struct Reflector {
    phase: Phase,
    backoff_ms: u64,
}

impl View for Reflector {
    type V = ReflectorView;

    closed spec fn view(&self) -> ReflectorView {
        ReflectorView { phase: self.phase, backoff_ms: self.backoff_ms }
    }
}

/// Twice the given wait, capped at [`BACKOFF_CAP_MS`].
fn double_backoff(b: u64) -> (r: u64)
    requires
        b <= BACKOFF_CAP_MS,
    ensures
        r == next_backoff(b),
{
    if b > BACKOFF_CAP_MS / 2 {
        BACKOFF_CAP_MS
    } else {
        2 * b
    }
}

impl Reflector {
    #[verifier::type_invariant]
    spec fn inv(self) -> bool {
        BACKOFF_BASE_MS <= self.backoff_ms <= BACKOFF_CAP_MS
    }

    /// A reflector at the start of its life: about to list, with the
    /// base backoff.
    pub fn new() -> (r: Reflector)
        ensures
            r@.phase == Phase::Listing,
            r@.backoff_ms == BACKOFF_BASE_MS,
    {
        Reflector { phase: Phase::Listing, backoff_ms: BACKOFF_BASE_MS }
    }

    /// The current phase.
    pub fn phase(&self) -> (p: Phase)
        ensures
            p == self@.phase,
    {
        self.phase
    }

    /// Feeds one outcome of the outside work into the state machine:
    /// updates the cache and the phase exactly as [`step_store`] and
    /// [`step_reflector`] say, and returns the action the driving loop
    /// must perform next, as [`step_action`] says.
    pub fn step(&mut self, store: &mut Store, input: ReflectorInput) -> (act: ReflectorAction)
        requires
            old(self)@.accepts(input@),
        ensures
            final(self)@ == step_reflector(old(self)@, input@),
            final(store)@ == step_store(old(self)@, old(store)@, input@),
            act@ == step_action(old(self)@, old(store)@, input@),
    {
        proof {
            use_type_invariant(&*self);
        }
        match self.phase {
            Phase::Stopped => ReflectorAction::Stop,
            _ => match input {
                ReflectorInput::Cancel => {
                    self.phase = Phase::Stopped;
                    ReflectorAction::Stop
                },
                ReflectorInput::ListOk(records, rv) => {
                    let watch_from = rv.clone();
                    store.replace_all(records, rv);
                    self.phase = Phase::Watching;
                    self.backoff_ms = BACKOFF_BASE_MS;
                    proof {
                        assert(store@ =~= step_store(old(self)@, old(store)@, input@));
                    }
                    ReflectorAction::StartWatch(watch_from)
                },
                ReflectorInput::ListErr => {
                    let wait = self.backoff_ms;
                    self.backoff_ms = double_backoff(wait);
                    ReflectorAction::WaitThenList(wait)
                },
                ReflectorInput::Watch(e) => match &e {
                    WatchEvent::Error(we) => {
                        if we.is_gone {
                            self.phase = Phase::Relisting;
                            ReflectorAction::List
                        } else {
                            let wait = self.backoff_ms;
                            self.backoff_ms = double_backoff(wait);
                            ReflectorAction::WaitThenWatch(wait, store.resource_version().clone())
                        }
                    },
                    _ => {
                        store.apply_event(&e);
                        self.backoff_ms = BACKOFF_BASE_MS;
                        ReflectorAction::Continue
                    },
                },
                ReflectorInput::StreamEnd => {
                    let wait = self.backoff_ms;
                    self.backoff_ms = double_backoff(wait);
                    ReflectorAction::WaitThenWatch(wait, store.resource_version().clone())
                },
            },
        }
    }
}

/// A cursor-gone error while watching forces a fresh list before any
/// further watch event: the cache is untouched, the demanded action is
/// a full list, the phase turns to Relisting, and Relisting accepts no
/// watch input until a list outcome has arrived.
pub proof fn lemma_gone_triggers_relist(r: ReflectorView, s: StoreView, we: WatchErrorView)
    requires
        r.phase == Phase::Watching,
        we.is_gone,
    ensures
        step_action(r, s, InputView::Watch(EventView::Error(we))) == ActionView::List,
        step_store(r, s, InputView::Watch(EventView::Error(we))) == s,
        step_reflector(r, InputView::Watch(EventView::Error(we))).phase == Phase::Relisting,
        forall|e: EventView|
            !step_reflector(r, InputView::Watch(EventView::Error(we))).accepts(
                InputView::Watch(e),
            ),
{
}

/// A full replacement is whole: the cache it leaves behind is the same
/// whatever the cache held before, so no state mixing old and new
/// objects can ever be observed. Readers hold owned copies (see
/// [`Store::snapshot`]), so a copy taken before the replacement shows
/// the entirely-old state and one taken after shows the entirely-new
/// one.
pub proof fn lemma_replace_is_whole(
    r: ReflectorView,
    s1: StoreView,
    s2: StoreView,
    records: Seq<RecordView>,
    rv: Seq<char>,
)
    requires
        r.phase != Phase::Stopped,
    ensures
        step_store(r, s1, InputView::ListOk(records, rv)) == step_store(
            r,
            s2,
            InputView::ListOk(records, rv),
        ),
        step_store(r, s1, InputView::ListOk(records, rv)).objects == map_of(records),
{
}

/// One kind's cache together with the reflector that keeps it fresh:
/// what a driving loop owns and what request handlers read through.
pub struct StoreHandle {
    store: Store,
    reflector: Reflector,
}

/// Mathematical view of a [`StoreHandle`].
#[verifier::ext_equal]
pub struct HandleView {
    pub store: StoreView,
    pub reflector: ReflectorView,
}

impl View for StoreHandle {
    type V = HandleView;

    closed spec fn view(&self) -> HandleView {
        HandleView { store: self.store@, reflector: self.reflector@ }
    }
}

impl StoreHandle {
    /// An empty cache with a reflector about to perform its first
    /// list.
    pub fn new() -> (h: StoreHandle)
        ensures
            h@.store.objects == Map::<crate::obj::KeyView, RecordView>::empty(),
            h@.store.resource_version == Seq::<char>::empty(),
            h@.reflector.phase == Phase::Listing,
            h@.reflector.backoff_ms == BACKOFF_BASE_MS,
    {
        StoreHandle { store: Store::new(), reflector: Reflector::new() }
    }

    /// Feeds one outcome into the reflector; see [`Reflector::step`].
    pub fn step(&mut self, input: ReflectorInput) -> (act: ReflectorAction)
        requires
            old(self)@.reflector.accepts(input@),
        ensures
            final(self)@.reflector == step_reflector(old(self)@.reflector, input@),
            final(self)@.store == step_store(old(self)@.reflector, old(self)@.store, input@),
            act@ == step_action(old(self)@.reflector, old(self)@.store, input@),
    {
        self.reflector.step(&mut self.store, input)
    }

    /// A point-in-time copy of the cache; see [`Store::snapshot`].
    pub fn snapshot(&self) -> (r: Vec<ObjectRecord>)
        ensures
            keys_unique(rec_views(r@)),
            map_of(rec_views(r@)) == self@.store.objects,
            r@.len() == self@.store.objects.len(),
    {
        self.store.snapshot()
    }

    /// The cache's last-applied resource version.
    pub fn resource_version(&self) -> (r: &String)
        ensures
            r@ == self@.store.resource_version,
    {
        self.store.resource_version()
    }

    /// The reflector's current phase.
    pub fn phase(&self) -> (p: Phase)
        ensures
            p == self@.reflector.phase,
    {
        self.reflector.phase()
    }
}

} // verus!
