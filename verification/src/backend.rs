//! What an audio platform does for the app, and the record of what was asked of
//! it.

use vstd::prelude::*;
use crate::device::{Device, DeviceView};
use crate::volume::Volume;

verus! {

/// A call of the backend. `L` is the type of lists of texts.
#[derive(Debug)]
pub enum Call<T, L> {
    /// Bring a backend up.
    Create,
    StartMonitoring,
    List,
    Apply(L),
    SetVolume(T, Volume),
    SetMuted(T, bool),
    CleanUp,
}

impl DeepView for Call<String, Vec<String>> {
    type V = CallView;

    open spec fn deep_view(&self) -> CallView {
        match *self {
            Call::Create => Call::Create,
            Call::StartMonitoring => Call::StartMonitoring,
            Call::List => Call::List,
            Call::Apply(ids) => Call::Apply(ids.deep_view()),
            Call::SetVolume(id, volume) => Call::SetVolume(id@, volume),
            Call::SetMuted(id, muted) => Call::SetMuted(id@, muted),
            Call::CleanUp => Call::CleanUp,
        }
    }
}

/// What a call, or a whole command, came to. `D` is the type of device lists.
#[derive(Debug)]
pub enum Answer<T, D> {
    Done,
    Devices(D),
    Failed(T),
}

impl DeepView for Answer<String, Vec<Device>> {
    type V = AnswerView;

    open spec fn deep_view(&self) -> AnswerView {
        match *self {
            Answer::Done => Answer::Done,
            Answer::Devices(devices) => Answer::Devices(devices.deep_view()),
            Answer::Failed(why) => Answer::Failed(why@),
        }
    }
}

/// A call in terms of text.
pub type CallView = Call<Seq<char>, Seq<Seq<char>>>;

/// An answer in terms of text.
pub type AnswerView = Answer<Seq<char>, Seq<DeviceView>>;

/// A call of the backend, and what it came to.
pub struct Exchange {
    pub call: CallView,
    pub answer: AnswerView,
}

/// What a call without devices came to.
pub open spec fn outcome_of(result: Result<(), String>) -> AnswerView {
    match result {
        Ok(_) => Answer::Done,
        Err(why) => Answer::Failed(why@),
    }
}

/// What a listing came to.
pub open spec fn listing_of(result: Result<Vec<Device>, String>) -> AnswerView {
    match result {
        Ok(devices) => Answer::Devices(devices.deep_view()),
        Err(why) => Answer::Failed(why@),
    }
}

/// What an audio platform does for the app.
pub trait AudioBackend {
    /// The present output devices; `enabled` tells the applied set.
    fn list_devices(&mut self) -> Result<Vec<Device>, String>;

    /// Applies the whole enabled set. Ids that are no longer there are ignored,
    /// and to apply the same set again changes nothing.
    fn apply_enabled(&mut self, ids: &[String]) -> Result<(), String>;

    /// Sets the volume of a device, 0.0 to 1.0.
    fn set_volume(&mut self, id: &str, volume: Volume) -> Result<(), String>;

    /// Mutes a device or lifts its mute.
    fn set_muted(&mut self, id: &str, muted: bool) -> Result<(), String>;

    /// Starts to watch for changes. May be called again: each call replaces the
    /// watch before.
    fn start_monitoring(&mut self) -> Result<(), String>;

    /// Takes down all that the app set up, and leaves a sane default device.
    fn cleanup(&mut self) -> Result<(), String>;
}

/// A backend with the record of the calls that were made of it, and of the states
/// that they led it through. What a call comes to is the platform's. Only the
/// methods add to the record; each makes its call of the platform, with what it
/// was handed, and hands out what came back.
pub struct Recorded<B> {
    backend: B,
    calls: Ghost<Seq<Exchange>>,
    past: Ghost<Seq<B>>,
}

impl<B> Recorded<B> {
    /// The platform as it is.
    pub closed spec fn inner(self) -> B {
        self.backend
    }

    /// The calls so far, each with what it came to.
    pub closed spec fn history(self) -> Seq<Exchange> {
        self.calls@
    }

    /// The platform before the first call and after each one.
    pub closed spec fn states(self) -> Seq<B> {
        self.past@.push(self.backend)
    }

    /// A backend of which nothing was asked yet.
    pub fn new(backend: B) -> (r: Recorded<B>)
        ensures
            r.inner() == backend,
            r.history() == Seq::<Exchange>::empty(),
            r.states() == seq![backend],
    {
        let r = Recorded { backend, calls: Ghost(Seq::empty()), past: Ghost(Seq::empty()) };
        assert(r.states() =~= seq![backend]);
        r
    }
}

/// The last state on record is the platform as it is.
pub proof fn lemma_the_last_state_is_the_present<B>(r: Recorded<B>)
    ensures
        r.states().len() > 0,
        r.states().last() == r.inner(),
{
}

/// A call and its answer were put on record, with the state that it led to.
pub open spec fn recorded<B>(
    before: Recorded<B>,
    call: CallView,
    answer: AnswerView,
    after: Recorded<B>,
) -> bool {
    &&& after.history() == before.history().push(Exchange { call, answer })
    &&& after.states() == before.states().push(after.inner())
}

impl<B: AudioBackend> Recorded<B> {
    /// The present output devices.
    pub fn list_devices(&mut self) -> (r: Result<Vec<Device>, String>)
        ensures
            exists|b: &mut B|
                *b == old(self).inner() && *final(b) == final(self).inner()
                    && #[trigger] call_ensures(B::list_devices, (b,), r),
            recorded(*old(self), Call::List, listing_of(r), *final(self)),
    {
        self.past = Ghost(self.past@.push(self.backend));
        let r = self.backend.list_devices();
        self.calls = Ghost(self.calls@.push(Exchange { call: Call::List, answer: listing_of(r) }));
        r
    }

    /// Applies the whole enabled set.
    pub fn apply_enabled(&mut self, ids: &[String]) -> (r: Result<(), String>)
        ensures
            exists|b: &mut B|
                *b == old(self).inner() && *final(b) == final(self).inner()
                    && #[trigger] call_ensures(B::apply_enabled, (b, ids), r),
            recorded(*old(self), Call::Apply(ids.deep_view()), outcome_of(r), *final(self)),
    {
        self.past = Ghost(self.past@.push(self.backend));
        let r = self.backend.apply_enabled(ids);
        self.calls = Ghost(
            self.calls@.push(
                Exchange { call: Call::Apply(ids.deep_view()), answer: outcome_of(r) },
            ),
        );
        r
    }

    /// Sets the volume of a device.
    pub fn set_volume(&mut self, id: &str, volume: Volume) -> (r: Result<(), String>)
        ensures
            exists|b: &mut B|
                *b == old(self).inner() && *final(b) == final(self).inner()
                    && #[trigger] call_ensures(B::set_volume, (b, id, volume), r),
            recorded(*old(self), Call::SetVolume(id@, volume), outcome_of(r), *final(self)),
    {
        self.past = Ghost(self.past@.push(self.backend));
        let r = self.backend.set_volume(id, volume);
        self.calls = Ghost(
            self.calls@.push(
                Exchange { call: Call::SetVolume(id@, volume), answer: outcome_of(r) },
            ),
        );
        r
    }

    /// Mutes a device or lifts its mute.
    pub fn set_muted(&mut self, id: &str, muted: bool) -> (r: Result<(), String>)
        ensures
            exists|b: &mut B|
                *b == old(self).inner() && *final(b) == final(self).inner()
                    && #[trigger] call_ensures(B::set_muted, (b, id, muted), r),
            recorded(*old(self), Call::SetMuted(id@, muted), outcome_of(r), *final(self)),
    {
        self.past = Ghost(self.past@.push(self.backend));
        let r = self.backend.set_muted(id, muted);
        self.calls = Ghost(
            self.calls@.push(Exchange { call: Call::SetMuted(id@, muted), answer: outcome_of(r) }),
        );
        r
    }

    /// Starts to watch for changes.
    pub fn start_monitoring(&mut self) -> (r: Result<(), String>)
        ensures
            exists|b: &mut B|
                *b == old(self).inner() && *final(b) == final(self).inner()
                    && #[trigger] call_ensures(B::start_monitoring, (b,), r),
            recorded(*old(self), Call::StartMonitoring, outcome_of(r), *final(self)),
    {
        self.past = Ghost(self.past@.push(self.backend));
        let r = self.backend.start_monitoring();
        self.calls = Ghost(
            self.calls@.push(Exchange { call: Call::StartMonitoring, answer: outcome_of(r) }),
        );
        r
    }

    /// Takes down all that the app set up.
    pub fn cleanup(&mut self) -> (r: Result<(), String>)
        ensures
            exists|b: &mut B|
                *b == old(self).inner() && *final(b) == final(self).inner()
                    && #[trigger] call_ensures(B::cleanup, (b,), r),
            recorded(*old(self), Call::CleanUp, outcome_of(r), *final(self)),
    {
        self.past = Ghost(self.past@.push(self.backend));
        let r = self.backend.cleanup();
        self.calls = Ghost(
            self.calls@.push(Exchange { call: Call::CleanUp, answer: outcome_of(r) }),
        );
        r
    }
}

/// What a call came to is on record as it was handed out: that it is done, the
/// devices as they were listed, or the reason why not.
pub proof fn lemma_answers_are_recorded_as_given(
    done: Result<(), String>,
    listed: Result<Vec<Device>, String>,
)
    ensures
        done is Ok <==> outcome_of(done) is Done,
        done matches Err(why) ==> outcome_of(done) == AnswerView::Failed(why@),
        listed matches Ok(devices) ==> listing_of(listed) == AnswerView::Devices(
            devices.deep_view(),
        ),
        listed matches Err(why) ==> listing_of(listed) == AnswerView::Failed(why@),
{
}

} // verus!
