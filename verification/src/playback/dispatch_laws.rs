//! Which adapter is asked for what.
use super::actor;
use super::actor::{BackendCall, PlaybackBackend};
use super::error::PlaybackError;
use super::job::{PlaybackId, PlaybackJob, PlaybackSource};
use super::tts;
use super::tts::{
    ActiveItem, ActiveKind, AudioAdapter, AudioCall, DispatchModel, SpeechCall, TtsAdapter,
};
use vstd::prelude::*;

verus! {

/// An item that is added last decides about its own kind alone.
proof fn lemma_added(items: Seq<ActiveItem>, item: ActiveItem, id: PlaybackId)
    ensures
        tts::kind_of(items.push(item), id) == if item.playback_id == id {
            Some(item.kind)
        } else {
            tts::kind_of(items, id)
        },
{
    assert(items.push(item).drop_last() =~= items);
}

/// An item that is left out has no kind; every other keeps its own.
pub proof fn law_forgotten_items_have_no_adapter(
    items: Seq<ActiveItem>,
    id: PlaybackId,
    other: PlaybackId,
)
    ensures
        tts::kind_of(tts::items_without(items, id), id) is None,
        other != id ==> tts::kind_of(tts::items_without(items, id), other) == tts::kind_of(
            items,
            other,
        ),
    decreases items.len(),
{
    reveal(Seq::filter);
    if items.len() > 0 {
        let rest = items.drop_last();
        law_forgotten_items_have_no_adapter(rest, id, other);
        let kept = tts::items_without(rest, id);
        if items.last().playback_id != id {
            lemma_added(kept, items.last(), id);
            lemma_added(kept, items.last(), other);
            assert(tts::items_without(items, id) == kept.push(items.last()));
        }
    }
}

/// An item is started by the adapter of its kind, with everything that the job
/// holds, and the other adapter is not asked. The reply is that of the adapter. It
/// is then rendered by that adapter exactly where the adapter took it, and what
/// other items are rendered by does not change. Without such an adapter nothing
/// happens, and the kind of playback is said to be disabled.
pub proof fn law_items_start_on_their_own_adapter<F>(
    before: DispatchModel<F>,
    job: PlaybackJob<F>,
    reply: Result<(), PlaybackError>,
    after: DispatchModel<F>,
    other: PlaybackId,
)
    requires
        before.started(job, reply, after),
    ensures
        job.source matches PlaybackSource::Audio(source) ==> {
            &&& after.speech == before.speech
            &&& before.audio is None ==> after == before && (reply matches Err(error)
                && error.is_backend("audio playback is disabled"@))
            &&& before.audio is Some ==> after.audio == Some(
                before.audio.unwrap().push(
                    AudioCall::Play {
                        id: job.id,
                        source,
                        gain: job.gain,
                        target: job.output_target,
                        reply,
                    },
                ),
            )
            &&& before.audio is Some && reply is Ok ==> tts::kind_of(after.items, job.id) == Some(
                ActiveKind::Audio,
            )
        },
        job.source matches PlaybackSource::Speech { text, utterance_options } ==> {
            &&& after.audio == before.audio
            &&& before.speech is None ==> after == before && (reply matches Err(error)
                && error.is_backend("system TTS is disabled"@))
            &&& before.speech is Some ==> after.speech == Some(
                before.speech.unwrap().push(
                    SpeechCall::Speak {
                        id: job.id,
                        text,
                        utterance_options,
                        gain: job.gain,
                        target: job.output_target,
                        reply,
                    },
                ),
            )
            &&& before.speech is Some && reply is Ok ==> tts::kind_of(after.items, job.id) == Some(
                ActiveKind::Speech,
            )
        },
        reply is Err ==> after.items == before.items,
        other != job.id ==> tts::kind_of(after.items, other) == tts::kind_of(before.items, other),
{
    let rest = tts::items_without(before.items, job.id);
    law_forgotten_items_have_no_adapter(before.items, job.id, other);
    let kind = match job.source {
        PlaybackSource::Audio(_) => ActiveKind::Audio,
        PlaybackSource::Speech { .. } => ActiveKind::Speech,
    };
    let item = ActiveItem { playback_id: job.id, kind };
    lemma_added(rest, item, job.id);
    lemma_added(rest, item, other);
}

/// A stop goes to the adapter that renders the item, once, and to no other. Its
/// reply is the answer; where it is confirmed the item is forgotten, and otherwise
/// it stays. An item that is not rendered needs no stop.
pub proof fn law_items_stop_on_their_own_adapter<F>(
    before: DispatchModel<F>,
    id: PlaybackId,
    reply: Result<(), PlaybackError>,
    after: DispatchModel<F>,
    other: PlaybackId,
)
    requires
        before.stopped(id, reply, after),
    ensures
        tts::kind_of(before.items, id) == Some(ActiveKind::Audio) && before.audio is Some
            ==> after.audio == Some(before.audio.unwrap().push(AudioCall::Stop { id, reply }))
            && after.speech == before.speech,
        tts::kind_of(before.items, id) == Some(ActiveKind::Speech) && before.speech is Some
            ==> after.speech == Some(before.speech.unwrap().push(SpeechCall::Stop { id, reply }))
            && after.audio == before.audio,
        tts::kind_of(before.items, id) is None ==> reply is Ok && after.audio == before.audio
            && after.speech == before.speech,
        reply is Ok ==> tts::kind_of(after.items, id) is None,
        reply is Err ==> tts::kind_of(after.items, id) == tts::kind_of(before.items, id),
        other != id ==> tts::kind_of(after.items, other) == tts::kind_of(before.items, other),
{
    law_forgotten_items_have_no_adapter(before.items, id, other);
}

/// The adapter that renders a finished item is told, and no other; the item is
/// forgotten.
pub proof fn law_finished_items_are_told_to_their_adapter<F>(
    before: DispatchModel<F>,
    id: PlaybackId,
    other: PlaybackId,
)
    ensures
        tts::kind_of(before.finished(id).items, id) is None,
        other != id ==> tts::kind_of(before.finished(id).items, other) == tts::kind_of(
            before.items,
            other,
        ),
        tts::kind_of(before.items, id) == Some(ActiveKind::Audio) && before.audio is Some
            ==> before.finished(id).audio == Some(
            before.audio.unwrap().push(AudioCall::Finished { id }),
        ) && before.finished(id).speech == before.speech,
        tts::kind_of(before.items, id) == Some(ActiveKind::Speech) && before.speech is Some
            ==> before.finished(id).speech == Some(
            before.speech.unwrap().push(SpeechCall::Finished { id }),
        ) && before.finished(id).audio == before.audio,
        tts::kind_of(before.items, id) is None ==> before.finished(id).audio == before.audio
            && before.finished(id).speech == before.speech,
{
    law_forgotten_items_have_no_adapter(before.items, id, other);
}

/// Where every stop of a shutdown was confirmed, none of the items is rendered any
/// more.
pub proof fn law_shutdown_leaves_no_item<F>(
    before: DispatchModel<F>,
    ids: Seq<PlaybackId>,
    replies: Seq<Result<(), PlaybackError>>,
    after: DispatchModel<F>,
    id: PlaybackId,
)
    requires
        before.each_stopped(ids, replies, after),
        forall|i: int| 0 <= i < replies.len() ==> (#[trigger] replies[i]) is Ok,
    ensures
        ids.contains(id) ==> tts::kind_of(after.items, id) is None,
        !ids.contains(id) ==> tts::kind_of(after.items, id) == tts::kind_of(before.items, id),
        tts::first_failure(replies) is None,
    decreases ids.len(),
{
    if ids.len() > 0 {
        let between = choose|between: DispatchModel<F>|
            {
                &&& before.each_stopped(ids.drop_last(), replies.drop_last(), between)
                &&& #[trigger] between.stopped(ids.last(), replies.last(), after)
            };
        let fewer = replies.drop_last();
        assert forall|i: int| 0 <= i < fewer.len() implies (#[trigger] fewer[i]) is Ok by {
            assert(replies[i] is Ok);
        }
        assert(replies[replies.len() - 1] is Ok);
        law_shutdown_leaves_no_item(before, ids.drop_last(), fewer, between, id);
        law_items_stop_on_their_own_adapter(between, ids.last(), replies.last(), after, id);
        assert(ids[ids.len() - 1] == ids.last());
        if ids.contains(id) && id != ids.last() {
            let i = choose|i: int| 0 <= i < ids.len() && ids[i] == id;
            assert(ids.drop_last()[i] == id);
        }
        if ids.drop_last().contains(id) {
            let i = choose|i: int| 0 <= i < ids.drop_last().len() && ids.drop_last()[i] == id;
            assert(ids[i] == id);
        }
    }
}

/// An item is rendered by the adapter that was noted for it last; one that was not
/// noted is rendered by none.
pub proof fn law_last_noted_adapter_renders(
    items: Seq<ActiveItem>,
    item: ActiveItem,
    id: PlaybackId,
)
    ensures
        tts::kind_of(Seq::empty(), id) is None,
        item.playback_id == id ==> tts::kind_of(items.push(item), id) == Some(item.kind),
        item.playback_id != id ==> tts::kind_of(items.push(item), id) == tts::kind_of(items, id),
        tts::items_without(Seq::empty(), id).len() == 0,
        item.playback_id == id ==> tts::items_without(items.push(item), id) == tts::items_without(
            items,
            id,
        ),
        item.playback_id != id ==> tts::items_without(items.push(item), id) == tts::items_without(
            items,
            id,
        ).push(item),
        tts::item_ids(items).len() == items.len(),
        forall|i: int|
            0 <= i < items.len() ==> tts::item_ids(items)[i] == (#[trigger] items[i]).playback_id,
{
    reveal(Seq::filter);
    lemma_added(items, item, id);
    assert(items.push(item).drop_last() =~= items);
}

/// Of several replies the first failure is the answer.
pub proof fn law_first_failure_is_answered(replies: Seq<Result<(), PlaybackError>>)
    ensures
        tts::first_failure(replies) is None <==> forall|i: int|
            0 <= i < replies.len() ==> (#[trigger] replies[i]) is Ok,
        tts::first_failure(replies) matches Some(error) ==> exists|i: int|
            {
                &&& 0 <= i < replies.len()
                &&& #[trigger] replies[i] == Err::<(), PlaybackError>(error)
                &&& forall|j: int| 0 <= j < i ==> (#[trigger] replies[j]) is Ok
            },
    decreases replies.len(),
{
    if replies.len() > 0 {
        let fewer = replies.drop_last();
        law_first_failure_is_answered(fewer);
        assert(forall|i: int| 0 <= i < fewer.len() ==> #[trigger] replies[i] == fewer[i]);
        if let Some(error) = tts::first_failure(fewer) {
            let i = choose|i: int|
                {
                    &&& 0 <= i < fewer.len()
                    &&& #[trigger] fewer[i] == Err::<(), PlaybackError>(error)
                    &&& forall|j: int| 0 <= j < i ==> (#[trigger] fewer[j]) is Ok
                };
            assert(replies[i] == fewer[i]);
            assert forall|j: int| 0 <= j < i implies (#[trigger] replies[j]) is Ok by {
                assert(fewer[j] is Ok);
            }
        } else {
            assert forall|i: int| 0 <= i < fewer.len() implies (#[trigger] replies[i]) is Ok by {
                assert(fewer[i] is Ok);
            }
            assert(replies[replies.len() - 1] == replies.last());
        }
    }
}

/// Items are stopped one after the other: the last of them after all others, and
/// with its own reply.
pub proof fn law_items_are_stopped_in_turn<F>(
    before: DispatchModel<F>,
    ids: Seq<PlaybackId>,
    id: PlaybackId,
    replies: Seq<Result<(), PlaybackError>>,
    reply: Result<(), PlaybackError>,
    after: DispatchModel<F>,
)
    requires
        before.each_stopped(ids.push(id), replies.push(reply), after),
    ensures
        replies.len() == ids.len(),
        ids.len() == 0 ==> before.stopped(id, reply, after),
        exists|between: DispatchModel<F>| #[trigger]
            between.stopped(id, reply, after) && before.each_stopped(ids, replies, between),
{
    assert(ids.push(id).drop_last() =~= ids);
    assert(replies.push(reply).drop_last() =~= replies);
    let between = choose|between: DispatchModel<F>|
        {
            &&& before.each_stopped(ids, replies, between)
            &&& #[trigger] between.stopped(id, reply, after)
        };
    assert(between.stopped(id, reply, after) && before.each_stopped(ids, replies, between));
    if ids.len() == 0 {
        assert(between == before);
    }
}

/// An item whose adapter is gone cannot be stopped, and its kind of playback is said
/// to be disabled.
pub proof fn law_disabled_playback_is_told<F>(
    before: DispatchModel<F>,
    id: PlaybackId,
    reply: Result<(), PlaybackError>,
    after: DispatchModel<F>,
)
    requires
        before.stopped(id, reply, after),
    ensures
        tts::kind_of(before.items, id) == Some(ActiveKind::Audio) && before.audio is None ==> {
            &&& after == before
            &&& reply matches Err(PlaybackError::Backend(reason)) && reason@
                == "audio playback is disabled"@
        },
        tts::kind_of(before.items, id) == Some(ActiveKind::Speech) && before.speech is None ==> {
            &&& after == before
            &&& reply matches Err(PlaybackError::Backend(reason)) && reason@
                == "system TTS is disabled"@
        },
{
}

/// A recorded call on the audio adapter is that call: with the item, the source, the
/// gain and the target that the record holds.
pub proof fn law_recorded_audio_calls_were_made<F, A: AudioAdapter<F>>(call: AudioCall<F>)
    ensures
        forall|adapter: &mut A| #[trigger]
            tts::heard_by(adapter, call) <==> match call {
                AudioCall::Play { id, source, gain, target, reply } => call_ensures(
                    A::play_to,
                    (adapter, id, source, gain, &target),
                    reply,
                ),
                AudioCall::Stop { id, reply } => call_ensures(A::stop, (adapter, id), reply),
                AudioCall::Finished { id } => call_ensures(A::finished, (adapter, id), ()),
            },
{
}

/// A recorded call on the speech adapter is that call.
pub proof fn law_recorded_speech_calls_were_made<T: TtsAdapter>(call: SpeechCall)
    ensures
        forall|adapter: &mut T| #[trigger]
            tts::spoken_by(adapter, call) <==> match call {
                SpeechCall::Speak { id, text, utterance_options, gain, target, reply } =>
                call_ensures(
                    T::speak_with_options_to,
                    (adapter, id, text, utterance_options, gain, &target),
                    reply,
                ),
                SpeechCall::Stop { id, reply } => call_ensures(T::stop, (adapter, id), reply),
                SpeechCall::Finished { id } => call_ensures(T::finished, (adapter, id), ()),
            },
{
}

/// A recorded call on a backend is that call.
pub proof fn law_recorded_backend_calls_were_made<S, B: PlaybackBackend<S>>(call: BackendCall<S>)
    ensures
        forall|backend: &mut B| #[trigger]
            actor::made_on(backend, call) <==> match call {
                BackendCall::Start(job, reply) => call_ensures(B::start, (backend, job), reply),
                BackendCall::Stop(id, reply) => call_ensures(B::stop, (backend, id), reply),
                BackendCall::Finished(id) => call_ensures(B::finished, (backend, id), ()),
                BackendCall::Shutdown(reply) => call_ensures(B::shutdown, (backend,), reply),
            },
{
}

} // verus!
