//! Which output device renders which playback item.
use super::error::PlaybackError;
use super::job::PlaybackId;
use crate::gain::Gain;
use crate::text::{join3, same_text};
use vstd::prelude::*;

verus! {

/// Slowest and fastest incremental stream, in samples a second.
pub const MINIMUM_SAMPLE_RATE_HZ: u32 = 8_000;

pub const MAXIMUM_SAMPLE_RATE_HZ: u32 = 96_000;

/// One playing item, the device it plays on and the gain it asked for.
#[derive(Debug)]
pub struct Route {
    pub playback_id: PlaybackId,
    pub device_id: String,
    pub requested_gain: Gain,
}

/// Every playing item of the output service.
pub struct OutputRoutes {
    active: Vec<Route>,
}

/// The routes other than those of one item.
pub open spec fn routes_without(routes: Seq<Route>, id: PlaybackId) -> Seq<Route> {
    routes.filter(|route: Route| route.playback_id != id)
}

/// The routes to one device.
pub open spec fn routes_on(routes: Seq<Route>, device_id: Seq<char>) -> Seq<Route> {
    routes.filter(|route: Route| route.device_id@ == device_id)
}

/// The value of a little-endian 16-bit sample.
pub open spec fn sample_value(low: u8, high: u8) -> int {
    let unsigned = low as int + 256 * high as int;
    if unsigned < 32768 {
        unsigned
    } else {
        unsigned - 65536
    }
}

/// A chunk of an incremental stream: whole frames, and at least one.
pub open spec fn whole_frames(byte_length: nat, channels: u16) -> bool {
    channels > 0 && byte_length > 0 && byte_length % (2 * channels as nat) == 0
}

/// A stream that the output service can take.
pub open spec fn stream_supported(sample_rate_hz: u32, channels: u16) -> bool {
    MINIMUM_SAMPLE_RATE_HZ <= sample_rate_hz <= MAXIMUM_SAMPLE_RATE_HZ && 1 <= channels <= 2
}

impl OutputRoutes {
    pub closed spec fn routes(&self) -> Seq<Route> {
        self.active@
    }

    /// The item plays.
    pub open spec fn plays(&self, id: PlaybackId) -> bool {
        exists|i: int| 0 <= i < self.routes().len() && #[trigger] self.routes()[i].playback_id == id
    }

    /// The item plays on that device.
    pub open spec fn plays_on(&self, id: PlaybackId, device_id: String) -> bool {
        exists|i: int|
            0 <= i < self.routes().len() && (#[trigger] self.routes()[i]).playback_id == id
                && self.routes()[i].device_id == device_id
    }

    /// The items that play on a device, and the gains that they asked for.
    pub open spec fn shared_on(&self, device_id: Seq<char>) -> Seq<(PlaybackId, Gain)> {
        routes_on(self.routes(), device_id).map_values(
            |route: Route| (route.playback_id, route.requested_gain),
        )
    }

    /// No item has two routes.
    pub open spec fn distinct(&self) -> bool {
        forall|i: int, j: int|
            0 <= i < j < self.routes().len() ==> (#[trigger] self.routes()[i]).playback_id != (
            #[trigger] self.routes()[j]).playback_id
    }

    pub fn new() -> (routes: Self)
        ensures
            routes.routes().len() == 0,
            routes.distinct(),
    {
        OutputRoutes { active: Vec::new() }
    }

    fn position(&self, playback_id: PlaybackId) -> (position: Option<usize>)
        ensures
            match position {
                Some(i) => i < self.routes().len() && self.routes()[i as int].playback_id
                    == playback_id,
                None => !self.plays(playback_id),
            },
    {
        let mut i: usize = 0;
        while i < self.active.len()
            invariant
                i <= self.active@.len(),
                forall|j: int| 0 <= j < i ==> (#[trigger] self.active@[j]).playback_id
                    != playback_id,
            decreases self.active@.len() - i,
        {
            if self.active[i].playback_id == playback_id {
                return Some(i);
            }
            i += 1;
        }
        None
    }

    /// Refuse an item that plays already.
    pub fn check_new(&self, playback_id: PlaybackId) -> (result: Result<(), PlaybackError>)
        ensures
            match result {
                Ok(()) => !self.plays(playback_id),
                Err(error) => self.plays(playback_id) && error.is_backend(
                    "audio backend already has this active playback ID"@,
                ),
            },
    {
        match self.position(playback_id) {
            Some(i) => {
                assert(self.routes()[i as int].playback_id == playback_id);
                Err(
                    PlaybackError::Backend(
                        "audio backend already has this active playback ID".to_string(),
                    ),
                )
            },
            None => Ok(()),
        }
    }

    /// Refuse an incremental stream that plays already or has a form that the
    /// output service does not take.
    pub fn check_new_incremental(
        &self,
        playback_id: PlaybackId,
        sample_rate_hz: u32,
        channels: u16,
    ) -> (result: Result<(), PlaybackError>)
        ensures
            if self.plays(playback_id) {
                result matches Err(error) && error.is_backend(
                    "audio backend already has this active playback ID"@,
                )
            } else if stream_supported(sample_rate_hz, channels) {
                result is Ok
            } else {
                result == Err::<(), PlaybackError>(PlaybackError::UnsupportedAudio)
            },
    {
        match self.check_new(playback_id) {
            Err(error) => Err(error),
            Ok(()) => if sample_rate_hz < MINIMUM_SAMPLE_RATE_HZ || sample_rate_hz
                > MAXIMUM_SAMPLE_RATE_HZ || channels < 1 || channels > 2 {
                Err(PlaybackError::UnsupportedAudio)
            } else {
                Ok(())
            },
        }
    }

    /// Note that an item plays on a device.
    pub fn insert(&mut self, playback_id: PlaybackId, device_id: String, requested_gain: Gain)
        requires
            old(self).distinct(),
        ensures
            final(self).distinct(),
            final(self).routes() == routes_without(old(self).routes(), playback_id).push(
                Route { playback_id, device_id, requested_gain },
            ),
    {
        let ghost before = *self;
        self.remove(playback_id);
        assert forall|i: int| 0 <= i < self.routes().len() implies (
        #[trigger] self.routes()[i]).playback_id != playback_id by {
            before.routes().lemma_filter_pred(
                |route: Route| route.playback_id != playback_id,
                i,
            );
        }
        self.active.push(Route { playback_id, device_id, requested_gain });
    }

    /// Forget an item; the device that it played on, if it played.
    pub fn remove(&mut self, playback_id: PlaybackId) -> (device_id: Option<String>)
        requires
            old(self).distinct(),
        ensures
            final(self).distinct(),
            final(self).routes() == routes_without(old(self).routes(), playback_id),
            match device_id {
                Some(device) => old(self).plays_on(playback_id, device),
                None => !old(self).plays(playback_id),
            },
    {
        match self.position(playback_id) {
            Some(i) => {
                let ghost before = self.active@;
                let route = self.active.remove(i);
                proof {
                    lemma_remove_is_filter(before, i as int);
                    assert(before[i as int] == route);
                }
                Some(route.device_id)
            },
            None => {
                proof {
                    assert forall|i: int| 0 <= i < self.active@.len() implies (
                    #[trigger] self.active@[i]).playback_id != playback_id by {
                        assert(self.routes()[i].playback_id == self.active@[i].playback_id);
                    }
                    lemma_filter_keeps_all(self.active@, playback_id);
                }
                None
            },
        }
    }

    /// The device that an incremental stream plays on.
    pub fn device_of(&self, playback_id: PlaybackId) -> (device_id: Result<String, PlaybackError>)
        ensures
            match device_id {
                Ok(device) => self.plays_on(playback_id, device),
                Err(error) => !self.plays(playback_id) && error.is_backend(
                    "incremental audio stream has not started"@,
                ),
            },
    {
        match self.position(playback_id) {
            Some(i) => {
                assert(self.routes()[i as int].playback_id == playback_id);
                Ok(self.active[i].device_id.clone())
            },
            None => Err(
                PlaybackError::Backend("incremental audio stream has not started".to_string()),
            ),
        }
    }

    /// Check a chunk of an incremental stream and read its samples.
    pub fn append_incremental(
        &self,
        playback_id: PlaybackId,
        sample_rate_hz: u32,
        channels: u16,
        pcm: &[u8],
    ) -> (samples: Result<Vec<i16>, PlaybackError>)
        ensures
            if !self.plays(playback_id) {
                samples matches Err(error) && error.is_backend(
                    "incremental audio stream has not started"@,
                )
            } else if !whole_frames(pcm@.len(), channels) || sample_rate_hz == 0 {
                samples == Err::<Vec<i16>, PlaybackError>(PlaybackError::UnsupportedAudio)
            } else {
                samples matches Ok(values) && values@.len() == pcm@.len() / 2 && forall|i: int|
                    0 <= i < values@.len() ==> #[trigger] values@[i] == sample_value(
                        pcm@[2 * i],
                        pcm@[2 * i + 1],
                    )
            },
    {
        match self.position(playback_id) {
            None => {
                return Err(
                    PlaybackError::Backend("incremental audio stream has not started".to_string()),
                );
            },
            Some(i) => {
                assert(self.routes()[i as int].playback_id == playback_id);
            },
        }
        let alignment: usize = channels as usize * 2;
        if alignment == 0 || pcm.len() == 0 || pcm.len() % alignment != 0 || sample_rate_hz == 0 {
            return Err(PlaybackError::UnsupportedAudio);
        }
        assert(pcm@.len() % 2 == 0) by (nonlinear_arith)
            requires
                pcm@.len() % (channels as nat * 2) == 0,
                channels > 0,
        {
            let length = pcm@.len() as int;
            let frame = channels as int * 2;
            vstd::arithmetic::div_mod::lemma_fundamental_div_mod(length, frame);
            assert(length == 2 * (channels as int * (length / frame)));
        }
        let mut values: Vec<i16> = Vec::new();
        let mut at: usize = 0;
        while at < pcm.len()
            invariant
                at <= pcm@.len(),
                at % 2 == 0,
                pcm@.len() % 2 == 0,
                values@.len() == at / 2,
                forall|i: int|
                    0 <= i < values@.len() ==> #[trigger] values@[i] == sample_value(
                        pcm@[2 * i],
                        pcm@[2 * i + 1],
                    ),
            decreases pcm@.len() - at,
        {
            let low: i32 = pcm[at] as i32;
            let high: i32 = pcm[at + 1] as i32;
            let unsigned: i32 = low + 256 * high;
            let value: i32 = if unsigned < 32768 {
                unsigned
            } else {
                unsigned - 65536
            };
            values.push(value as i16);
            at += 2;
        }
        Ok(values)
    }

    /// The items that play on a device, and the gains that they asked for.
    pub fn sharing(&self, device_id: &str) -> (shared: Vec<(PlaybackId, Gain)>)
        ensures
            shared@ == self.shared_on(device_id@),
    {
        let ghost part = |route: Route| (route.playback_id, route.requested_gain);
        let mut shared: Vec<(PlaybackId, Gain)> = Vec::new();
        let mut i: usize = 0;
        while i < self.active.len()
            invariant
                i <= self.active@.len(),
                part == (|route: Route| (route.playback_id, route.requested_gain)),
                shared@ == routes_on(self.active@.take(i as int), device_id@).map_values(part),
            decreases self.active@.len() - i,
        {
            let ghost earlier = routes_on(self.active@.take(i as int), device_id@);
            let ghost before = shared@;
            proof {
                reveal(Seq::filter);
                assert(self.active@.take(i + 1).drop_last() =~= self.active@.take(i as int));
                assert(self.active@.take(i + 1).last() == self.active@[i as int]);
            }
            if same_text(self.active[i].device_id.as_str(), device_id) {
                shared.push((self.active[i].playback_id, self.active[i].requested_gain));
                assert(shared@ =~= earlier.push(self.active@[i as int]).map_values(part));
            }
            i += 1;
            assert(shared@ =~= routes_on(self.active@.take(i as int), device_id@).map_values(part));
        }
        assert(self.active@.take(i as int) =~= self.active@);
        shared
    }

    /// Every playing item.
    pub fn playing(&self) -> (ids: Vec<PlaybackId>)
        ensures
            ids@ == self.routes().map_values(|route: Route| route.playback_id),
    {
        let mut ids: Vec<PlaybackId> = Vec::new();
        let mut i: usize = 0;
        while i < self.active.len()
            invariant
                i <= self.active@.len(),
                ids@.len() == i,
                forall|j: int| 0 <= j < i ==> ids@[j] == (#[trigger] self.active@[j]).playback_id,
            decreases self.active@.len() - i,
        {
            ids.push(self.active[i].playback_id);
            i += 1;
        }
        assert(ids@ =~= self.routes().map_values(|route: Route| route.playback_id));
        ids
    }
}

/// A device that stopped taking items.
pub fn device_unavailable(device_id: &str) -> (error: PlaybackError)
    ensures
        error matches PlaybackError::OutputUnavailable(text) && text@
            == "selected output device `"@ + device_id@ + "` is unavailable"@,
{
    PlaybackError::OutputUnavailable(
        join3("selected output device `", device_id, "` is unavailable"),
    )
}

/// With distinct items, leaving out one place leaves out one item.
proof fn lemma_remove_is_filter(routes: Seq<Route>, at: int)
    requires
        0 <= at < routes.len(),
        forall|i: int, j: int|
            0 <= i < j < routes.len() ==> (#[trigger] routes[i]).playback_id != (
            #[trigger] routes[j]).playback_id,
    ensures
        routes.remove(at) == routes_without(routes, routes[at].playback_id),
    decreases routes.len(),
{
    reveal(Seq::filter);
    let id = routes[at].playback_id;
    let fewer = routes.drop_last();
    if at == routes.len() - 1 {
        lemma_filter_keeps_all(fewer, id);
        assert(routes.remove(at) =~= fewer);
    } else {
        lemma_remove_is_filter(fewer, at);
        assert(routes.remove(at) =~= fewer.remove(at).push(routes.last()));
    }
}

proof fn lemma_filter_keeps_all(routes: Seq<Route>, id: PlaybackId)
    requires
        forall|i: int| 0 <= i < routes.len() ==> (#[trigger] routes[i]).playback_id != id,
    ensures
        routes_without(routes, id) == routes,
    decreases routes.len(),
{
    reveal(Seq::filter);
    if routes.len() > 0 {
        lemma_filter_keeps_all(routes.drop_last(), id);
        assert(routes =~= routes.drop_last().push(routes.last()));
    }
}

} // verus!
