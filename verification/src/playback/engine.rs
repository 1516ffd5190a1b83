//! Decisions of the output service: which device is opened, which item plays on
//! it, and who is told when an item ends.
use super::audio::OutputTarget;
use super::error::PlaybackError;
use super::job::PlaybackId;
use super::routes::{device_unavailable, OutputRoutes};
use crate::gain::Gain;
use crate::text::{join, join3, same_text};
use vstd::prelude::*;

verus! {

/// What the audio host says about a requested output.
#[derive(Debug)]
pub enum DeviceLookup {
    /// There is no default output device.
    NoDefault,
    /// The identity cannot be read.
    InvalidId,
    /// No such device is connected.
    Missing,
    /// The device plays nothing.
    NoOutput,
    /// The identity of the device cannot be told.
    Unidentified(String),
    /// The device with this identity.
    Found(String),
}

/// What a lookup comes to. A default output is not asked whether it plays: the
/// host names it as an output already.
pub open spec fn lookup_outcome(
    target: OutputTarget,
    lookup: DeviceLookup,
    result: Result<String, PlaybackError>,
) -> bool {
    match lookup {
        DeviceLookup::Found(device_id) => result == Ok::<String, PlaybackError>(device_id),
        DeviceLookup::NoDefault => result matches Err(error) && super::audio::output_unavailable(
            error,
            "no default output device is available"@,
        ),
        DeviceLookup::InvalidId => result matches Err(error) && super::audio::output_unavailable(
            error,
            "invalid output device id `"@ + requested_id(target) + "`"@,
        ),
        DeviceLookup::Missing => result matches Err(error) && super::audio::output_unavailable(
            error,
            "configured output device `"@ + requested_id(target) + "` is unavailable"@,
        ),
        DeviceLookup::NoOutput => result matches Err(error) && super::audio::output_unavailable(
            error,
            "selected device does not support audio output"@,
        ),
        DeviceLookup::Unidentified(detail) => result matches Err(error)
            && super::audio::output_unavailable(
            error,
            "selected output device identity is unavailable: "@ + detail@,
        ),
    }
}

/// The identity that a target asks for.
pub open spec fn requested_id(target: OutputTarget) -> Seq<char> {
    match target {
        OutputTarget::SystemDefault => ""@,
        OutputTarget::DeviceId(id) => id@,
    }
}

/// The identity of the device to play on.
pub fn resolve_output_device(target: &OutputTarget, lookup: DeviceLookup) -> (result: Result<
    String,
    PlaybackError,
>)
    ensures
        lookup_outcome(*target, lookup, result),
{
    let wanted = match target {
        OutputTarget::SystemDefault => "",
        OutputTarget::DeviceId(id) => id.as_str(),
    };
    let detail = match lookup {
        DeviceLookup::Found(device_id) => {
            return Ok(device_id);
        },
        DeviceLookup::NoDefault => "no default output device is available".to_string(),
        DeviceLookup::InvalidId => join3("invalid output device id `", wanted, "`"),
        DeviceLookup::Missing => join3("configured output device `", wanted, "` is unavailable"),
        DeviceLookup::NoOutput => "selected device does not support audio output".to_string(),
        DeviceLookup::Unidentified(detail) => join(
            "selected output device identity is unavailable: ",
            detail.as_str(),
        ),
    };
    Err(PlaybackError::OutputUnavailable(detail))
}

/// The items of a list other than one.
pub open spec fn ids_without(ids: Seq<PlaybackId>, id: PlaybackId) -> Seq<PlaybackId> {
    ids.filter(|held: PlaybackId| held != id)
}

/// With distinct items, leaving out one place leaves out one item.
proof fn lemma_id_removed(ids: Seq<PlaybackId>, at: int)
    requires
        0 <= at < ids.len(),
        ids.no_duplicates(),
    ensures
        ids.remove(at) == ids_without(ids, ids[at]),
    decreases ids.len(),
{
    reveal(Seq::filter);
    let id = ids[at];
    let fewer = ids.drop_last();
    if at == ids.len() - 1 {
        lemma_id_absent(fewer, id);
        assert(ids.remove(at) =~= fewer);
    } else {
        lemma_id_removed(fewer, at);
        assert(ids.remove(at) =~= fewer.remove(at).push(ids.last()));
    }
}

proof fn lemma_id_absent(ids: Seq<PlaybackId>, id: PlaybackId)
    requires
        !ids.contains(id),
    ensures
        ids_without(ids, id) == ids,
    decreases ids.len(),
{
    reveal(Seq::filter);
    if ids.len() > 0 {
        assert(ids.last() == ids[ids.len() - 1]);
        assert forall|i: int| 0 <= i < ids.drop_last().len() implies ids.drop_last()[i] != id by {
            assert(ids.drop_last()[i] == ids[i]);
        }
        lemma_id_absent(ids.drop_last(), id);
        assert(ids =~= ids.drop_last().push(ids.last()));
    }
}

/// A set of items, in the order in which they came.
#[derive(Debug)]
pub struct ItemSet {
    ids: Vec<PlaybackId>,
}

impl ItemSet {
    pub closed spec fn items(&self) -> Seq<PlaybackId> {
        self.ids@
    }

    /// No item stands twice.
    pub open spec fn distinct(&self) -> bool {
        self.items().no_duplicates()
    }

    pub fn new() -> (set: Self)
        ensures
            set.items().len() == 0,
            set.distinct(),
    {
        ItemSet { ids: Vec::new() }
    }

    fn position(&self, id: PlaybackId) -> (position: Option<usize>)
        ensures
            match position {
                Some(i) => i < self.items().len() && self.items()[i as int] == id,
                None => !self.items().contains(id),
            },
    {
        let mut i: usize = 0;
        while i < self.ids.len()
            invariant
                i <= self.ids@.len(),
                forall|j: int| 0 <= j < i ==> #[trigger] self.ids@[j] != id,
            decreases self.ids@.len() - i,
        {
            if self.ids[i] == id {
                return Some(i);
            }
            i += 1;
        }
        None
    }

    pub fn contains(&self, id: PlaybackId) -> (found: bool)
        ensures
            found == self.items().contains(id),
    {
        self.position(id).is_some()
    }

    /// Add an item, where it is not there yet; whether it was added.
    pub fn insert(&mut self, id: PlaybackId) -> (added: bool)
        requires
            old(self).distinct(),
        ensures
            final(self).distinct(),
            added == !old(self).items().contains(id),
            final(self).items() == if added {
                old(self).items().push(id)
            } else {
                old(self).items()
            },
    {
        if self.contains(id) {
            false
        } else {
            self.ids.push(id);
            true
        }
    }

    /// Take an item out; whether it was there.
    pub fn remove(&mut self, id: PlaybackId) -> (removed: bool)
        requires
            old(self).distinct(),
        ensures
            final(self).distinct(),
            removed == old(self).items().contains(id),
            final(self).items() == ids_without(old(self).items(), id),
            !final(self).items().contains(id),
    {
        match self.position(id) {
            Some(i) => {
                let ghost before = self.ids@;
                proof {
                    lemma_id_removed(before, i as int);
                    assert(before.contains(id));
                }
                self.ids.remove(i);
                true
            },
            None => {
                proof {
                    lemma_id_absent(self.ids@, id);
                }
                false
            },
        }
    }

    /// Take every item out.
    pub fn take_all(&mut self) -> (ids: Vec<PlaybackId>)
        ensures
            ids@ == old(self).items(),
            final(self).items().len() == 0,
            final(self).distinct(),
    {
        let mut ids: Vec<PlaybackId> = Vec::new();
        std::mem::swap(&mut ids, &mut self.ids);
        ids
    }

    /// Every item.
    pub fn list(&self) -> (ids: Vec<PlaybackId>)
        ensures
            ids@ == self.items(),
    {
        let ids = self.ids.clone();
        assert(ids@ =~= self.ids@);
        ids
    }
}

/// The items that wait for the end of their audio on one opened output.
#[derive(Debug)]
pub struct StreamState {
    failed: bool,
    waiting: ItemSet,
}

impl StreamState {
    /// The output can no longer play.
    pub closed spec fn failed_view(&self) -> bool {
        self.failed
    }

    pub closed spec fn waiting_view(&self) -> Seq<PlaybackId> {
        self.waiting.items()
    }

    /// No item waits twice, and none waits on a failed output.
    pub closed spec fn well_formed(&self) -> bool {
        self.waiting.distinct() && (self.failed ==> self.waiting.items().len() == 0)
    }

    pub fn new() -> (state: Self)
        ensures
            state.well_formed(),
            !state.failed_view(),
            state.waiting_view().len() == 0,
    {
        StreamState { failed: false, waiting: ItemSet::new() }
    }

    pub fn has_failed(&self) -> (failed: bool)
        ensures
            failed == self.failed_view(),
    {
        self.failed
    }

    /// Wait for the end of an item. A failed output takes none, nor one that it
    /// has already.
    pub fn install(&mut self, id: PlaybackId) -> (installed: bool)
        requires
            old(self).well_formed(),
        ensures
            final(self).well_formed(),
            final(self).failed_view() == old(self).failed_view(),
            installed == (!old(self).failed_view() && !old(self).waiting_view().contains(id)),
            final(self).waiting_view() == if installed {
                old(self).waiting_view().push(id)
            } else {
                old(self).waiting_view()
            },
    {
        if self.failed {
            return false;
        }
        self.waiting.insert(id)
    }

    /// An item's audio ran out; whether that is news, so that its token completes.
    pub fn complete(&mut self, id: PlaybackId) -> (was_waiting: bool)
        requires
            old(self).well_formed(),
        ensures
            final(self).well_formed(),
            final(self).failed_view() == old(self).failed_view(),
            was_waiting == old(self).waiting_view().contains(id),
            final(self).waiting_view() == ids_without(old(self).waiting_view(), id),
            !final(self).waiting_view().contains(id),
    {
        let ghost before = self.waiting.items();
        let removed = self.waiting.remove(id);
        assert(before.len() == 0 ==> self.waiting.items().len() == 0) by {
            reveal(Seq::filter);
        }
        removed
    }

    /// An item is no longer wanted; whether it was waiting, so that its token is
    /// discarded.
    pub fn cancel(&mut self, id: PlaybackId) -> (was_waiting: bool)
        requires
            old(self).well_formed(),
        ensures
            final(self).well_formed(),
            final(self).failed_view() == old(self).failed_view(),
            was_waiting == old(self).waiting_view().contains(id),
            final(self).waiting_view() == ids_without(old(self).waiting_view(), id),
            !final(self).waiting_view().contains(id),
    {
        self.complete(id)
    }

    /// The output failed; the items whose tokens fail with it.
    pub fn fail(&mut self) -> (failed: Vec<PlaybackId>)
        requires
            old(self).well_formed(),
        ensures
            final(self).well_formed(),
            final(self).failed_view(),
            final(self).waiting_view().len() == 0,
            failed@ == old(self).waiting_view(),
    {
        self.failed = true;
        self.waiting.take_all()
    }
}

/// How the opening of an output went.
#[derive(Debug)]
pub enum OpeningOutcome {
    NotConfigured(String),
    NotOpened(String),
    /// The output opened; whether it had failed by then.
    Opened { failed: bool },
}

/// The sentence about an opening that went wrong.
pub open spec fn opening_fault(device_id: Seq<char>, outcome: OpeningOutcome) -> Option<
    Seq<char>,
> {
    match outcome {
        OpeningOutcome::NotConfigured(detail) => Some(
            "selected output device `"@ + device_id + "` could not be configured: "@ + detail@,
        ),
        OpeningOutcome::NotOpened(detail) => Some(
            "selected output device `"@ + device_id + "` could not be opened: "@ + detail@,
        ),
        OpeningOutcome::Opened { failed } => if failed {
            Some("selected output device `"@ + device_id + "` failed while opening"@)
        } else {
            None
        },
    }
}

/// Opened outputs and the items that play on them.
pub struct OutputEngine {
    open: Vec<String>,
    routes: OutputRoutes,
}

/// Device identities other than one.
pub open spec fn devices_without(open: Seq<String>, device_id: Seq<char>) -> Seq<String> {
    open.filter(|device: String| device@ != device_id)
}

/// Some opened output is that device.
pub open spec fn is_open(open: Seq<String>, device_id: Seq<char>) -> bool {
    exists|i: int| 0 <= i < open.len() && (#[trigger] open[i])@ == device_id
}

proof fn lemma_closed_is_gone(open: Seq<String>, device_id: Seq<char>)
    ensures
        !is_open(devices_without(open, device_id), device_id),
    decreases open.len(),
{
    reveal(Seq::filter);
    if open.len() > 0 {
        lemma_closed_is_gone(open.drop_last(), device_id);
        let fewer = devices_without(open.drop_last(), device_id);
        let rest = devices_without(open, device_id);
        assert forall|i: int| 0 <= i < rest.len() implies (#[trigger] rest[i])@ != device_id by {
            if i < fewer.len() {
                assert(rest[i] == fewer[i]);
            }
        }
    }
}

impl OutputEngine {
    pub closed spec fn open_view(&self) -> Seq<String> {
        self.open@
    }

    pub closed spec fn routes_view(&self) -> OutputRoutes {
        self.routes
    }

    pub open spec fn well_formed(&self) -> bool {
        self.routes_view().distinct()
    }

    pub fn new() -> (engine: Self)
        ensures
            engine.well_formed(),
            engine.open_view().len() == 0,
            engine.routes_view().routes().len() == 0,
    {
        OutputEngine { open: Vec::new(), routes: OutputRoutes::new() }
    }

    pub fn routes(&self) -> (routes: &OutputRoutes)
        ensures
            *routes == self.routes_view(),
    {
        &self.routes
    }

    fn has_open(&self, device_id: &str) -> (found: bool)
        ensures
            found == is_open(self.open_view(), device_id@),
    {
        let mut i: usize = 0;
        while i < self.open.len()
            invariant
                i <= self.open@.len(),
                forall|j: int| 0 <= j < i ==> (#[trigger] self.open@[j])@ != device_id@,
            decreases self.open@.len() - i,
        {
            if same_text(self.open[i].as_str(), device_id) {
                assert(self.open@[i as int]@ == device_id@);
                return true;
            }
            i += 1;
        }
        false
    }

    /// Close an output.
    fn close(&mut self, device_id: &str)
        ensures
            final(self).open_view() == devices_without(old(self).open_view(), device_id@),
            final(self).routes_view() == old(self).routes_view(),
    {
        let ghost keep = |device: String| device@ != device_id@;
        let ghost all = self.open@;
        let mut rest: Vec<String> = Vec::new();
        let mut i: usize = 0;
        proof {
            reveal(Seq::filter);
            assert(all.take(0) =~= Seq::empty());
        }
        while i < self.open.len()
            invariant
                i <= self.open@.len(),
                all == self.open@,
                keep == (|device: String| device@ != device_id@),
                rest@ == all.take(i as int).filter(keep),
            decreases self.open@.len() - i,
        {
            proof {
                reveal(Seq::filter);
                assert(all.take(i + 1).drop_last() =~= all.take(i as int));
            }
            if !same_text(self.open[i].as_str(), device_id) {
                rest.push(self.open[i].clone());
            }
            i += 1;
        }
        assert(all.take(i as int) =~= all);
        self.open = rest;
    }

    /// Whether an output can be used as it is. One that failed is closed, so that
    /// it is opened anew.
    pub fn reuse_output(&mut self, device_id: &str, failed: bool) -> (reuse: bool)
        ensures
            reuse == (is_open(old(self).open_view(), device_id@) && !failed),
            final(self).open_view() == if reuse {
                old(self).open_view()
            } else {
                devices_without(old(self).open_view(), device_id@)
            },
            final(self).routes_view() == old(self).routes_view(),
    {
        if self.has_open(device_id) && !failed {
            return true;
        }
        self.close(device_id);
        false
    }

    /// Take note of how the opening of an output went.
    pub fn output_opened(&mut self, device_id: String, outcome: OpeningOutcome) -> (result: Result<
        (),
        PlaybackError,
    >)
        ensures
            final(self).routes_view() == old(self).routes_view(),
            match opening_fault(device_id@, outcome) {
                Some(fault) => {
                    &&& result matches Err(error)
                    &&& super::audio::output_unavailable(error, fault)
                    &&& final(self).open_view() == old(self).open_view()
                },
                None => result is Ok && final(self).open_view() == old(self).open_view().push(
                    device_id,
                ),
            },
    {
        let (rest, detail) = match outcome {
            OpeningOutcome::NotConfigured(detail) => ("` could not be configured: ", detail),
            OpeningOutcome::NotOpened(detail) => ("` could not be opened: ", detail),
            OpeningOutcome::Opened { failed } => {
                if !failed {
                    self.open.push(device_id);
                    return Ok(());
                }
                return Err(
                    PlaybackError::OutputUnavailable(
                        join3(
                            "selected output device `",
                            device_id.as_str(),
                            "` failed while opening",
                        ),
                    ),
                );
            },
        };
        let start = join3("selected output device `", device_id.as_str(), rest);
        Err(PlaybackError::OutputUnavailable(join(start.as_str(), detail.as_str())))
    }

    /// An item starts on an output, where the output took it. The result lists
    /// the items that share the output from then on.
    pub fn started(
        &mut self,
        playback_id: PlaybackId,
        device_id: String,
        requested_gain: Gain,
        installed: bool,
    ) -> (result: Result<Vec<(PlaybackId, Gain)>, PlaybackError>)
        requires
            old(self).well_formed(),
        ensures
            final(self).well_formed(),
            final(self).open_view() == old(self).open_view(),
            if installed {
                &&& final(self).routes_view().routes() == super::routes::routes_without(
                    old(self).routes_view().routes(),
                    playback_id,
                ).push(super::routes::Route { playback_id, device_id, requested_gain })
                &&& result matches Ok(sharing)
                &&& sharing@ == final(self).routes_view().shared_on(device_id@)
            } else {
                &&& final(self).routes_view() == old(self).routes_view()
                &&& result matches Err(error)
                &&& super::audio::output_unavailable(
                    error,
                    "selected output device `"@ + device_id@ + "` is unavailable"@,
                )
            },
    {
        if !installed {
            return Err(device_unavailable(device_id.as_str()));
        }
        let shared_id = device_id.clone();
        self.routes.insert(playback_id, device_id, requested_gain);
        Ok(self.routes.sharing(shared_id.as_str()))
    }

    /// An item was told to stop. Where the output confirmed that, the item is
    /// gone, and so is the output if it had failed. The result lists the items
    /// that still share the output.
    pub fn stopped(
        &mut self,
        playback_id: PlaybackId,
        device_id: &str,
        confirmed: bool,
        failed: bool,
    ) -> (result: Result<Vec<(PlaybackId, Gain)>, PlaybackError>)
        requires
            old(self).well_formed(),
        ensures
            final(self).well_formed(),
            if confirmed {
                &&& final(self).routes_view().routes() == super::routes::routes_without(
                    old(self).routes_view().routes(),
                    playback_id,
                )
                &&& final(self).open_view() == if failed {
                    devices_without(old(self).open_view(), device_id@)
                } else {
                    old(self).open_view()
                }
                &&& result matches Ok(sharing)
                &&& sharing@ == final(self).routes_view().shared_on(device_id@)
            } else {
                &&& final(self).routes_view() == old(self).routes_view()
                &&& final(self).open_view() == old(self).open_view()
                &&& result matches Err(error)
                &&& error.is_backend("audio backend did not confirm stop before timeout"@)
            },
    {
        if !confirmed {
            return Err(
                PlaybackError::Backend(
                    "audio backend did not confirm stop before timeout".to_string(),
                ),
            );
        }
        let _ = self.routes.remove(playback_id);
        let sharing = self.routes.sharing(device_id);
        if failed {
            self.close(device_id);
        }
        Ok(sharing)
    }

    /// An item ended by itself: the device that it played on.
    pub fn finished(&mut self, playback_id: PlaybackId) -> (device_id: Option<String>)
        requires
            old(self).well_formed(),
        ensures
            final(self).well_formed(),
            final(self).open_view() == old(self).open_view(),
            final(self).routes_view().routes() == super::routes::routes_without(
                old(self).routes_view().routes(),
                playback_id,
            ),
            match device_id {
                Some(device) => old(self).routes_view().plays_on(playback_id, device),
                None => !old(self).routes_view().plays(playback_id),
            },
    {
        self.routes.remove(playback_id)
    }
}

/// An output that was closed because it failed can be used again only after it
/// was opened anew.
pub proof fn law_failed_output_is_reopened(open: Seq<String>, device_id: String)
    ensures
        !is_open(devices_without(open, device_id@), device_id@),
        is_open(devices_without(open, device_id@).push(device_id), device_id@),
{
    lemma_closed_is_gone(open, device_id@);
    let reopened = devices_without(open, device_id@).push(device_id);
    assert(reopened[reopened.len() - 1]@ == device_id@);
}

/// An item whose end was told no longer waits for it, so that it is told once.
pub proof fn law_an_end_is_told_once(waiting: Seq<PlaybackId>, id: PlaybackId)
    ensures
        !ids_without(waiting, id).contains(id),
    decreases waiting.len(),
{
    reveal(Seq::filter);
    if waiting.len() > 0 {
        law_an_end_is_told_once(waiting.drop_last(), id);
        let fewer = ids_without(waiting.drop_last(), id);
        let rest = ids_without(waiting, id);
        assert forall|i: int| 0 <= i < rest.len() implies #[trigger] rest[i] != id by {
            if i < fewer.len() {
                assert(rest[i] == fewer[i]);
            }
        }
    }
}

} // verus!
