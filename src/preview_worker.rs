//! The decisions of the background preview pipeline.
//!
//! `PreviewWorkerCore` is the state a single worker owns: the cache and the
//! in-flight marker. The worker feeds it the messages it receives (a load
//! starts, a generation ends, a cancel comes in) and performs what comes
//! back. `reply_to_state` classifies what a waiting client got, and
//! `PollingCore` is the per-frame state machine of a client that never blocks.
use vstd::prelude::*;
use crate::preview_cache::{lemma_insert_then_lookup, CacheModel, PreviewCache};
use crate::preview_content::{ContentView, PreviewContent};
use crate::text::owned;

verus! {

/// Number of previews the pipeline keeps.
pub const CACHE_SIZE: usize = 10;

/// What a client sees of a preview.
#[derive(Debug, Clone)]
pub enum PreviewState {
    Loading,
    Ready(PreviewContent),
    Error(String),
}

/// The mathematical form of a [`PreviewState`].
pub enum StateView {
    Loading,
    Ready(ContentView),
    Error(Seq<char>),
}

impl View for PreviewState {
    type V = StateView;

    open spec fn view(&self) -> StateView {
        match self {
            PreviewState::Loading => StateView::Loading,
            PreviewState::Ready(c) => StateView::Ready(c@),
            PreviewState::Error(m) => StateView::Error(m@),
        }
    }
}

/// The mathematical form of a generation result.
pub open spec fn result_view(r: Result<PreviewContent, String>) -> Result<ContentView, Seq<char>> {
    match r {
        Ok(c) => Ok(c@),
        Err(m) => Err(m@),
    }
}

/// The state of a worker: its cache and the path being generated, if any.
pub struct WorkerModel {
    pub cache: CacheModel,
    pub in_flight: Option<Seq<char>>,
}

impl WorkerModel {
    pub open spec fn wf(self) -> bool {
        self.cache.wf()
    }

    /// A load of `p` starts: on a hit the entry is refreshed and its content
    /// is the reply (second component); on a miss `p` becomes the path in flight.
    pub open spec fn start(self, p: Seq<char>) -> (WorkerModel, Option<ContentView>) {
        match self.cache.lookup(p) {
            Some(c) => (WorkerModel { cache: self.cache.touched(p), ..self }, Some(c)),
            None => (WorkerModel { in_flight: Some(p), ..self }, None),
        }
    }

    /// The generation of `p` ended with `res`. Unless `p` is still the path
    /// in flight the result is dropped: no cache write, no reply (`None`).
    /// Otherwise a success is cached, the reply is sent and the marker cleared.
    pub open spec fn finish(self, p: Seq<char>, res: Result<ContentView, Seq<char>>) -> (WorkerModel, Option<StateView>) {
        if self.in_flight != Some(p) {
            (self, None)
        } else {
            match res {
                Ok(c) => (WorkerModel { cache: self.cache.inserted(p, c), in_flight: None }, Some(StateView::Ready(c))),
                Err(m) => (WorkerModel { in_flight: None, ..self }, Some(StateView::Error(m))),
            }
        }
    }

    /// A cancel for `p` clears the marker if `p` is in flight.
    pub open spec fn cancel(self, p: Seq<char>) -> WorkerModel {
        if self.in_flight == Some(p) {
            WorkerModel { in_flight: None, ..self }
        } else {
            self
        }
    }
}

/// What the worker does with a load request.
#[derive(Debug)]
pub enum LoadStart {
    /// Reply at once with this cached content.
    Cached(PreviewContent),
    /// Run the generator, then report with `finish_load`.
    Generate,
}

/// The state owned by the preview worker.
#[derive(Debug)]
pub struct PreviewWorkerCore {
    cache: PreviewCache,
    in_flight: Option<String>,
}

pub open spec fn opt_view(o: Option<String>) -> Option<Seq<char>> {
    match o {
        Some(s) => Some(s@),
        None => None,
    }
}

impl View for PreviewWorkerCore {
    type V = WorkerModel;

    closed spec fn view(&self) -> WorkerModel {
        WorkerModel { cache: self.cache@, in_flight: opt_view(self.in_flight) }
    }
}

fn same_path(a: &Option<String>, p: &String) -> (r: bool)
    ensures
        r == (opt_view(*a) == Some(p@)),
{
    match a {
        Some(s) => *s == *p,
        None => false,
    }
}

impl PreviewWorkerCore {
    /// A worker with an empty cache of `capacity` entries and nothing in flight.
    pub fn with_capacity(capacity: usize) -> (r: PreviewWorkerCore)
        ensures
            r@.cache.entries.len() == 0,
            r@.cache.capacity == capacity,
            r@.in_flight is None,
            r@.wf(),
    {
        PreviewWorkerCore { cache: PreviewCache::new(capacity), in_flight: None }
    }

    /// A worker with the standard cache size.
    pub fn new() -> (r: PreviewWorkerCore)
        ensures
            r@.cache.entries.len() == 0,
            r@.cache.capacity == CACHE_SIZE,
            r@.in_flight is None,
            r@.wf(),
    {
        PreviewWorkerCore::with_capacity(CACHE_SIZE)
    }

    /// Handles the start of a load of `path`.
    pub fn start_load(&mut self, path: &String) -> (r: LoadStart)
        requires
            old(self)@.wf(),
        ensures
            final(self)@.wf(),
            final(self)@ == old(self)@.start(path@).0,
            match r {
                LoadStart::Cached(c) => old(self)@.start(path@).1 == Some(c@),
                LoadStart::Generate => old(self)@.start(path@).1 is None,
            },
    {
        match self.cache.get(path) {
            Some(c) => LoadStart::Cached(c),
            None => {
                self.in_flight = Some(path.clone());
                LoadStart::Generate
            },
        }
    }

    /// Handles the end of the generation of `path`; `None` means the result
    /// was superseded or cancelled and nothing is to be sent.
    pub fn finish_load(&mut self, path: &String, result: Result<PreviewContent, String>) -> (r: Option<PreviewState>)
        requires
            old(self)@.wf(),
        ensures
            final(self)@.wf(),
            final(self)@ == old(self)@.finish(path@, result_view(result)).0,
            match r {
                Some(s) => old(self)@.finish(path@, result_view(result)).1 == Some(s@),
                None => old(self)@.finish(path@, result_view(result)).1 is None,
            },
    {
        if !same_path(&self.in_flight, path) {
            return None;
        }
        self.in_flight = None;
        match result {
            Ok(c) => {
                let reply = c.duplicate();
                self.cache.insert(path.clone(), c);
                Some(PreviewState::Ready(reply))
            },
            Err(m) => Some(PreviewState::Error(m)),
        }
    }

    /// Handles a cancel of `path`.
    pub fn cancel(&mut self, path: &String)
        ensures
            final(self)@ == old(self)@.cancel(path@),
    {
        if same_path(&self.in_flight, path) {
            self.in_flight = None;
        }
    }

    /// The path being generated, if any.
    pub fn in_flight(&self) -> (r: Option<String>)
        ensures
            opt_view(r) == self@.in_flight,
    {
        match &self.in_flight {
            Some(p) => Some(p.clone()),
            None => None,
        }
    }

    /// The cached preview of `path`, which counts as a use.
    pub fn get_cached(&mut self, path: &String) -> (r: Option<PreviewContent>)
        requires
            old(self)@.wf(),
        ensures
            final(self)@.wf(),
            final(self)@ == (WorkerModel { cache: old(self)@.cache.touched(path@), ..old(self)@ }),
            match r {
                Some(c) => old(self)@.cache.lookup(path@) == Some(c@),
                None => old(self)@.cache.lookup(path@) is None,
            },
    {
        self.cache.get(path)
    }

    pub fn is_cached(&self, path: &String) -> (r: bool)
        requires
            self@.wf(),
        ensures
            r == self@.cache.contains(path@),
    {
        self.cache.contains(path)
    }

    pub fn cache_size(&self) -> (r: usize)
        ensures
            r == self@.cache.entries.len(),
    {
        self.cache.len()
    }

    /// Empties the cache; the marker stays.
    pub fn clear_cache(&mut self)
        ensures
            final(self)@.wf(),
            final(self)@.cache.entries.len() == 0,
            final(self)@.cache.capacity == old(self)@.cache.capacity,
            final(self)@.in_flight == old(self)@.in_flight,
    {
        self.cache.clear();
    }
}

/// What a client waiting for a reply ended up with.
#[derive(Debug)]
pub enum ReplyOutcome {
    /// The worker replied.
    Arrived(PreviewState),
    /// The reply channel closed without a value.
    Closed,
    /// No reply came within the client's time limit.
    TimedOut,
    /// The request could not be sent: the worker is gone.
    LoaderGone,
}

/// The state a waiting client reports for what it got.
pub fn reply_to_state(o: ReplyOutcome) -> (r: PreviewState)
    ensures
        match o {
            ReplyOutcome::Arrived(s) => r@ == s@,
            ReplyOutcome::Closed => r@ == StateView::Error("Response channel closed"@),
            ReplyOutcome::TimedOut => r@ == StateView::Error("Preview timed out"@),
            ReplyOutcome::LoaderGone => r@ == StateView::Error("Preview loader shut down"@),
        },
{
    match o {
        ReplyOutcome::Arrived(s) => s,
        ReplyOutcome::Closed => PreviewState::Error(owned("Response channel closed")),
        ReplyOutcome::TimedOut => PreviewState::Error(owned("Preview timed out")),
        ReplyOutcome::LoaderGone => PreviewState::Error(owned("Preview loader shut down")),
    }
}

/// A preview replied as ready is in the cache, and the next load of the
/// same path is answered from the cache, without running the generator.
pub proof fn lemma_ready_reply_is_cached(w: WorkerModel, p: Seq<char>, res: Result<ContentView, Seq<char>>)
    requires
        w.wf(),
    ensures
        ({
            let (w1, reply) = w.finish(p, res);
            &&& w1.wf()
            &&& (reply matches Some(StateView::Ready(c)) ==> w1.cache.contains(p) && w1.start(p).1 == Some(c))
        }),
{
    if w.in_flight == Some(p) {
        if let Ok(c) = res {
            lemma_insert_then_lookup(w.cache, p, c);
        }
    }
}

/// A load whose generation is cancelled before it ends has no effect: the
/// worker sends no reply for it and caches nothing under its path.
pub proof fn lemma_cancelled_load_is_dropped(w: WorkerModel, p: Seq<char>, res: Result<ContentView, Seq<char>>)
    requires
        w.wf(),
        !w.cache.contains(p),
    ensures
        ({
            let (w1, hit) = w.start(p);
            let w2 = w1.cancel(p);
            let (w3, reply) = w2.finish(p, res);
            &&& hit is None
            &&& reply is None
            &&& !w3.cache.contains(p)
            &&& w3.in_flight is None
        }),
{
}

/// What the polling client must do after switching files.
#[derive(Debug, Clone, Copy, PartialEq, Eq, Structural)]
pub enum SwitchAction {
    /// Same file as before: nothing to do.
    Unchanged,
    /// A new file: cancel the load in flight first if `cancel_previous`,
    /// then send a load request for the new file if `dispatch`.
    Switched { cancel_previous: bool, dispatch: bool },
}

/// What a non-blocking look at the pending reply found.
#[derive(Debug)]
pub enum ReplyPoll {
    Arrived(PreviewState),
    Pending,
    Closed,
}

/// The state of a polling client: the file shown, its preview state, and
/// whether a reply is awaited.
pub struct PollModel {
    pub current_path: Option<Seq<char>>,
    pub state: StateView,
    pub awaiting: bool,
}

/// Per-frame state machine of a client that shows one file at a time and
/// never blocks on the worker.
#[derive(Debug)]
pub struct PollingCore {
    current_path: Option<String>,
    state: PreviewState,
    awaiting: bool,
}

impl View for PollingCore {
    type V = PollModel;

    closed spec fn view(&self) -> PollModel {
        PollModel { current_path: opt_view(self.current_path), state: self.state@, awaiting: self.awaiting }
    }
}

impl PollingCore {
    /// No file shown yet.
    pub fn new() -> (r: PollingCore)
        ensures
            r@.current_path is None,
            r@.state == StateView::Loading,
            !r@.awaiting,
    {
        PollingCore { current_path: None, state: PreviewState::Loading, awaiting: false }
    }

    /// The preview state of the file shown.
    pub fn current_state(&self) -> (r: &PreviewState)
        ensures
            r@ == self@.state,
    {
        &self.state
    }

    /// Whether a reply for the file shown is still awaited.
    pub fn is_awaiting(&self) -> (r: bool)
        ensures
            r == self@.awaiting,
    {
        self.awaiting
    }

    /// Shows `path`. For a new file the state restarts: a cached preview is
    /// ready at once, else the state is loading and a request must go out.
    pub fn select_file(&mut self, path: &String, worker: &mut PreviewWorkerCore) -> (r: SwitchAction)
        requires
            old(worker)@.wf(),
        ensures
            final(worker)@.wf(),
            old(self)@.current_path == Some(path@) ==> r == SwitchAction::Unchanged && final(self)@ == old(self)@
                && final(worker)@ == old(worker)@,
            old(self)@.current_path != Some(path@) ==> {
                &&& final(self)@.current_path == Some(path@)
                &&& final(worker)@ == (WorkerModel { cache: old(worker)@.cache.touched(path@), ..old(worker)@ })
                &&& match old(worker)@.cache.lookup(path@) {
                    Some(c) => final(self)@.state == StateView::Ready(c) && !final(self)@.awaiting
                        && r == (SwitchAction::Switched { cancel_previous: old(self)@.current_path is Some, dispatch: false }),
                    None => final(self)@.state == StateView::Loading && final(self)@.awaiting
                        && r == (SwitchAction::Switched { cancel_previous: old(self)@.current_path is Some, dispatch: true }),
                }
            },
    {
        if same_path(&self.current_path, path) {
            return SwitchAction::Unchanged;
        }
        let cancel_previous = self.current_path.is_some();
        self.current_path = Some(path.clone());
        match worker.get_cached(path) {
            Some(c) => {
                self.state = PreviewState::Ready(c);
                self.awaiting = false;
                SwitchAction::Switched { cancel_previous, dispatch: false }
            },
            None => {
                self.state = PreviewState::Loading;
                self.awaiting = true;
                SwitchAction::Switched { cancel_previous, dispatch: true }
            },
        }
    }

    /// Takes in what a non-blocking look at the awaited reply found. Only a
    /// loading state that awaits a reply changes: an arrived reply is shown;
    /// while none has come, a preview cached meanwhile (by another request)
    /// is shown; a closed channel falls back on the cache, else on an error.
    pub fn observe_reply(&mut self, poll: ReplyPoll, worker: &mut PreviewWorkerCore)
        requires
            old(worker)@.wf(),
        ensures
            final(worker)@.wf(),
            final(self)@.current_path == old(self)@.current_path,
            !(old(self)@.awaiting && old(self)@.state is Loading && old(self)@.current_path is Some) ==> final(self)@ == old(self)@
                && final(worker)@ == old(worker)@,
            (old(self)@.awaiting && old(self)@.state is Loading && old(self)@.current_path is Some) ==> {
                let p = old(self)@.current_path->Some_0;
                let looked = (WorkerModel { cache: old(worker)@.cache.touched(p), ..old(worker)@ });
                match poll {
                    ReplyPoll::Arrived(s) => final(self)@.state == s@ && !final(self)@.awaiting && final(worker)@ == old(worker)@,
                    ReplyPoll::Pending => final(worker)@ == looked && match old(worker)@.cache.lookup(p) {
                        Some(c) => final(self)@.state == StateView::Ready(c) && !final(self)@.awaiting,
                        None => final(self)@.state == StateView::Loading && final(self)@.awaiting,
                    },
                    ReplyPoll::Closed => final(worker)@ == looked && !final(self)@.awaiting && match old(worker)@.cache.lookup(p) {
                        Some(c) => final(self)@.state == StateView::Ready(c),
                        None => final(self)@.state == StateView::Error("Preview channel closed"@),
                    },
                }
            },
    {
        if !self.awaiting {
            return;
        }
        match &self.state {
            PreviewState::Loading => {},
            _ => {
                return;
            },
        }
        let path = match &self.current_path {
            Some(p) => p.clone(),
            None => {
                return;
            },
        };
        match poll {
            ReplyPoll::Arrived(s) => {
                self.state = s;
                self.awaiting = false;
            },
            ReplyPoll::Pending => {
                if let Some(c) = worker.get_cached(&path) {
                    self.state = PreviewState::Ready(c);
                    self.awaiting = false;
                }
            },
            ReplyPoll::Closed => {
                match worker.get_cached(&path) {
                    Some(c) => {
                        self.state = PreviewState::Ready(c);
                    },
                    None => {
                        self.state = PreviewState::Error(owned("Preview channel closed"));
                    },
                }
                self.awaiting = false;
            },
        }
    }

    /// Forgets the file shown; returns whether there was one, in which case
    /// the load in flight is to be cancelled.
    pub fn reset(&mut self) -> (r: bool)
        ensures
            r == old(self)@.current_path is Some,
            final(self)@.current_path is None,
            final(self)@.state == StateView::Loading,
            !final(self)@.awaiting,
    {
        let had = self.current_path.is_some();
        self.current_path = None;
        self.state = PreviewState::Loading;
        self.awaiting = false;
        had
    }
}

} // verus!
