//! The asset-readiness gate: tracking a fixed set of folder load requests.
//!
//! At startup one load request is issued per configured folder path; the
//! request's folder id is its position in the path list, and that order is
//! what later fixes each folder's atlas range. An out-of-band loader
//! completes requests asynchronously; completions are observed only by
//! polling a queue of completion events (each event names the folder id it
//! completes). The tracker reports readiness exactly once, when every
//! registered folder has been observed complete at least once; afterwards
//! it stays terminal and never re-fires, so the one-shot atlas build it
//! gates runs exactly once.

use vstd::prelude::*;

verus! {

/// The loading phase the application is in: waiting for the folders, or
/// done and ready to build the atlas.
#[derive(Clone, Copy, Debug, PartialEq, Eq, Structural)]
pub enum ImageLoadingState {
    /// Still waiting for folder completions.
    Setup,
    /// Every folder finished loading; the atlas may be built.
    Finished,
}

impl Default for ImageLoadingState {
    /// Loading starts in the waiting phase.
    fn default() -> (s: Self)
        ensures
            s == ImageLoadingState::Setup,
    {
        ImageLoadingState::Setup
    }
}

/// One issued folder load request: the ticket for one configured path.
#[derive(Debug)]
pub struct FolderRequest {
    /// The folder's id: its position in the configured path list.
    pub folder_id: usize,
    /// The configured source path of the folder.
    pub path: String,
}

/// The issued folder load requests, in configuration order: request `i`
/// has folder id `i`.
#[derive(Debug)]
pub struct FolderOfImagesCollection(Vec<FolderRequest>);

impl FolderOfImagesCollection {
    /// The issued requests, in configuration order.
    pub closed spec fn requests(&self) -> Seq<FolderRequest> {
        self.0@
    }

    /// The issued requests, in configuration order.
    pub fn inner(&self) -> (r: &Vec<FolderRequest>)
        ensures
            r@ == self.requests(),
    {
        &self.0
    }
}

/// Issues one load request per configured path, in order: request `i`
/// carries path `i` and folder id `i`, so the path order fixes the folder
/// id assignment.
pub fn load_image_folders(paths: &Vec<String>) -> (c: FolderOfImagesCollection)
    ensures
        c.requests().len() == paths@.len(),
        forall|i: int|
            0 <= i < paths@.len() ==> (#[trigger] c.requests()[i]).folder_id == i
                && c.requests()[i].path@ == paths@[i]@,
{
    let mut requests: Vec<FolderRequest> = Vec::new();
    let mut i: usize = 0;
    while i < paths.len()
        invariant
            i <= paths@.len(),
            requests@.len() == i,
            forall|i2: int|
                0 <= i2 < i ==> (#[trigger] requests@[i2]).folder_id == i2
                    && requests@[i2].path@ == paths@[i2]@,
        decreases paths@.len() - i,
    {
        requests.push(FolderRequest { folder_id: i, path: paths[i].clone() });
        i = i + 1;
    }
    FolderOfImagesCollection(requests)
}

/// The readiness gate over one [`FolderOfImagesCollection`]: which folders
/// have been observed complete, and whether readiness was already
/// reported.
#[derive(Debug)]
pub struct FolderLoadTracker {
    loaded: Vec<bool>,
    fired: bool,
}

impl FolderLoadTracker {
    /// Which folders have been observed complete so far, by folder id.
    pub closed spec fn loaded_seq(&self) -> Seq<bool> {
        self.loaded@
    }

    /// Whether the tracker has already reported readiness once.
    pub closed spec fn has_fired(&self) -> bool {
        self.fired
    }

    /// Every registered folder has been observed complete.
    pub open spec fn all_loaded(&self) -> bool {
        forall|i: int| 0 <= i < self.loaded_seq().len() ==> self.loaded_seq()[i]
    }

    /// Whether folder `i` counts as complete once `events` are consumed:
    /// it either was already complete, or one of the events names it.
    pub open spec fn loaded_after(&self, events: Seq<usize>, i: int) -> bool {
        self.loaded_seq()[i] || events.contains(i as usize)
    }

    /// A fresh tracker for the collection: one pending entry per issued
    /// request, nothing observed, nothing reported.
    pub fn begin(collection: &FolderOfImagesCollection) -> (t: Self)
        ensures
            t.loaded_seq().len() == collection.requests().len(),
            forall|i: int| 0 <= i < t.loaded_seq().len() ==> !(#[trigger] t.loaded_seq()[i]),
            !t.has_fired(),
    {
        let n = collection.inner().len();
        let mut loaded: Vec<bool> = Vec::new();
        let mut i: usize = 0;
        while i < n
            invariant
                i <= n,
                loaded@.len() == i,
                forall|i2: int| 0 <= i2 < i ==> !(#[trigger] loaded@[i2]),
            decreases n - i,
        {
            loaded.push(false);
            i = i + 1;
        }
        FolderLoadTracker { loaded, fired: false }
    }

    /// Consumes newly arrived completion events (each event is the folder
    /// id it completes; ids of no registered folder are ignored) and
    /// reports whether everything just became ready. Returns `true`
    /// exactly once: on the first poll that finds every registered folder
    /// observed complete; before that it returns `false`, and after it the
    /// tracker is terminal and keeps returning `false`.
    pub fn poll(&mut self, events: &Vec<usize>) -> (ready: bool)
        ensures
            final(self).loaded_seq().len() == old(self).loaded_seq().len(),
            forall|i: int|
                0 <= i < old(self).loaded_seq().len() ==> #[trigger] final(self).loaded_seq()[i]
                    == old(self).loaded_after(events@, i),
            ready == (!old(self).has_fired() && final(self).all_loaded()),
            final(self).has_fired() == (old(self).has_fired() || ready),
    {
        let mut e: usize = 0;
        while e < events.len()
            invariant
                e <= events@.len(),
                self.loaded@.len() == old(self).loaded@.len(),
                self.fired == old(self).fired,
                forall|i: int|
                    0 <= i < self.loaded@.len() ==> #[trigger] self.loaded@[i] == (old(
                        self,
                    ).loaded@[i] || exists|w: int|
                        0 <= w < e && #[trigger] events@[w] == i as usize),
            decreases events@.len() - e,
        {
            let id = events[e];
            let ghost pre_loaded = self.loaded@;
            if id < self.loaded.len() {
                self.loaded.set(id, true);
            }
            proof {
                assert forall|i: int| 0 <= i < self.loaded@.len() implies #[trigger] self
                    .loaded@[i] == (old(self).loaded@[i] || exists|w: int|
                    0 <= w < e + 1 && #[trigger] events@[w] == i as usize) by {
                    if i == id as int && (id as int) < pre_loaded.len() {
                        assert(self.loaded@[i]);
                        assert(events@[e as int] == i as usize);
                    } else {
                        assert(self.loaded@[i] == pre_loaded[i]);
                        if exists|w: int| 0 <= w < e + 1 && #[trigger] events@[w] == i as usize {
                            let w = choose|w: int|
                                0 <= w < e + 1 && #[trigger] events@[w] == i as usize;
                            assert(w < e);
                        }
                    }
                }
            }
            e = e + 1;
        }
        proof {
            assert forall|i: int| 0 <= i < self.loaded@.len() implies #[trigger] self.loaded@[i]
                == old(self).loaded_after(events@, i) by {
                if events@.contains(i as usize) {
                    let w = choose|w: int|
                        0 <= w < events@.len() && #[trigger] events@[w] == i as usize;
                    assert(self.loaded@[i]);
                } else {
                    assert(!(exists|w: int| 0 <= w < e && #[trigger] events@[w] == i as usize))
                        by {
                        if exists|w: int| 0 <= w < e && #[trigger] events@[w] == i as usize {
                            let w = choose|w: int|
                                0 <= w < e && #[trigger] events@[w] == i as usize;
                            assert(events@.contains(i as usize));
                        }
                    }
                }
            }
        }
        let mut all = true;
        let mut i: usize = 0;
        while i < self.loaded.len()
            invariant
                i <= self.loaded@.len(),
                self.loaded@.len() == old(self).loaded@.len(),
                self.fired == old(self).fired,
                forall|i2: int|
                    0 <= i2 < self.loaded@.len() ==> #[trigger] self.loaded@[i2] == old(
                        self,
                    ).loaded_after(events@, i2),
                all == (forall|i2: int| 0 <= i2 < i ==> #[trigger] self.loaded@[i2]),
            decreases self.loaded@.len() - i,
        {
            if !self.loaded[i] {
                all = false;
            }
            i = i + 1;
        }
        let ready = all && !self.fired;
        if ready {
            self.fired = true;
        }
        ready
    }
}

/// Checks whether every image folder finished loading: consumes the newly
/// arrived completion events and, the first time everything is complete,
/// advances the loading state to `Finished`. On every other call the state
/// is left untouched, so the one-shot transition happens once.
pub fn check_whether_image_folders_are_loaded(
    tracker: &mut FolderLoadTracker,
    events: &Vec<usize>,
    next_state: &mut ImageLoadingState,
)
    ensures
        final(tracker).loaded_seq().len() == old(tracker).loaded_seq().len(),
        forall|i: int|
            0 <= i < old(tracker).loaded_seq().len() ==> #[trigger] final(tracker).loaded_seq()[i]
                == old(tracker).loaded_after(events@, i),
        final(tracker).has_fired() == (old(tracker).has_fired() || (!old(tracker).has_fired()
            && final(tracker).all_loaded())),
        *final(next_state) == if !old(tracker).has_fired() && final(tracker).all_loaded() {
            ImageLoadingState::Finished
        } else {
            *old(next_state)
        },
{
    if tracker.poll(events) {
        *next_state = ImageLoadingState::Finished;
    }
}

/// Law: readiness is reported at most once. For any two successive polls —
/// whatever events each consumed — the clauses of [`FolderLoadTracker::poll`]'s
/// contract rule out both reporting ready: the first report latches the
/// tracker, and a latched tracker never reports again.
pub proof fn lemma_poll_reports_ready_at_most_once(
    t0: FolderLoadTracker,
    t1: FolderLoadTracker,
    t2: FolderLoadTracker,
    ready1: bool,
    ready2: bool,
)
    requires
        ready1 == (!t0.has_fired() && t1.all_loaded()),
        t1.has_fired() == (t0.has_fired() || ready1),
        ready2 == (!t1.has_fired() && t2.all_loaded()),
        t2.has_fired() == (t1.has_fired() || ready2),
    ensures
        !(ready1 && ready2),
{
}

} // verus!
