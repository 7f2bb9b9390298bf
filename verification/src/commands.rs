//! The commands of the user interface, and what reaches it of the events of a
//! backend.
//!
//! The state of the devices reaches the user interface on one path, the events
//! that the pump emits. Commands that change something return no state; they
//! have the pump look again, also when they fail, so that a slow answer never
//! overwrites a fresher event.

use vstd::prelude::*;
use crate::backend::{
    lemma_the_last_state_is_the_present, listing_of, outcome_of, recorded, Answer, AnswerView,
    AudioBackend, Call, CallView, Exchange, Recorded,
};
use crate::device::{
    all_device_ids, compute_enabled_ids, distinct, lemma_all_devices_are_routable,
    lemma_all_devices_go_by_the_rows, lemma_toggling, lemma_toggling_goes_by_the_rows,
    names_master, routable, toggled, BackendEvent, Device, DeviceType, DeviceView, EventView,
};
use crate::volume::Volume;

verus! {

// ---------------------------------------------------------------------------
// Commands
// ---------------------------------------------------------------------------

/// A command of the user interface. `T` is the type of text.
#[derive(Debug)]
pub enum Request<T> {
    /// List the devices.
    Get,
    /// Come up if the backend is not there, watch anew, and list the devices.
    Refresh,
    /// Enable a device or disable it.
    Enable(T, bool),
    /// Enable all devices or none.
    EnableAll(bool),
    /// Set the volume of a device.
    Volume(T, Volume),
    /// Mute a device or lift its mute.
    Mute(T, bool),
}

impl DeepView for Request<String> {
    type V = Request<Seq<char>>;

    open spec fn deep_view(&self) -> Request<Seq<char>> {
        match *self {
            Request::Get => Request::Get,
            Request::Refresh => Request::Refresh,
            Request::Enable(id, enabled) => Request::Enable(id@, enabled),
            Request::EnableAll(enabled) => Request::EnableAll(enabled),
            Request::Volume(id, volume) => Request::Volume(id@, volume),
            Request::Mute(id, muted) => Request::Mute(id@, muted),
        }
    }
}

/// `answer` is of the kind that `call` has.
pub open spec fn replies(
    call: CallView,
    answer: AnswerView,
) -> bool {
    answer is Failed || (answer is Devices <==> call is List)
}

/// A command under way in terms of text.
pub type ProgressView = Progress<Seq<char>, Seq<Seq<char>>, Seq<DeviceView>>;

/// A command under way: the next call, or what it came to.
#[derive(Debug)]
pub enum Progress<T, L, D> {
    Calling(Call<T, L>),
    Finished(Answer<T, D>),
}

impl DeepView for Progress<String, Vec<String>, Vec<Device>> {
    type V = ProgressView;

    open spec fn deep_view(&self) -> ProgressView {
        match *self {
            Progress::Calling(call) => Progress::Calling(call.deep_view()),
            Progress::Finished(answer) => Progress::Finished(answer.deep_view()),
        }
    }
}

/// How a command begins. Without a backend only a refresh has something to do.
pub open spec fn begun(request: Request<Seq<char>>, available: bool) -> ProgressView {
    if request is Refresh {
        Progress::Calling(
            if available {
                Call::StartMonitoring
            } else {
                Call::Create
            },
        )
    } else if !available {
        Progress::Finished(Answer::Failed("audio backend unavailable"@))
    } else {
        Progress::Calling(
            match request {
                Request::EnableAll(enabled) => if enabled {
                    Call::List
                } else {
                    Call::Apply(Seq::empty())
                },
                Request::Volume(id, volume) => Call::SetVolume(id, volume.in_unit()),
                Request::Mute(id, muted) => Call::SetMuted(id, muted),
                _ => Call::List,
            },
        )
    }
}

/// What the answer of a call leads to. A watch that could not be started is no
/// failure of a refresh.
pub open spec fn continued(
    request: Request<Seq<char>>,
    call: CallView,
    answer: AnswerView,
) -> ProgressView {
    match call {
        Call::StartMonitoring => Progress::Calling(Call::List),
        Call::Create => match answer {
            Answer::Failed(why) => Progress::Finished(Answer::Failed(why)),
            _ => Progress::Calling(Call::StartMonitoring),
        },
        Call::List => match answer {
            Answer::Devices(devices) => match request {
                Request::Enable(id, enabled) => Progress::Calling(
                    Call::Apply(toggled(devices, id, enabled)),
                ),
                Request::EnableAll(_) => Progress::Calling(Call::Apply(routable(devices))),
                _ => Progress::Finished(Answer::Devices(devices)),
            },
            _ => Progress::Finished(answer),
        },
        _ => Progress::Finished(answer),
    }
}

/// The pump is to look again after the command, whatever came of it. A volume
/// does not ask for it: it would at the rate at which a slider is dragged.
pub open spec fn nudges(request: Request<Seq<char>>) -> bool {
    request is Enable || request is EnableAll || request is Mute
}

impl Request<String> {
    /// How the command begins.
    pub fn begin(&self, available: bool) -> (r: Progress<String, Vec<String>, Vec<Device>>)
        ensures
            r.deep_view() == begun(self.deep_view(), available),
    {
        match self {
            Request::Refresh => if available {
                Progress::Calling(Call::StartMonitoring)
            } else {
                Progress::Calling(Call::Create)
            },
            _ => if !available {
                Progress::Finished(Answer::Failed("audio backend unavailable".to_owned()))
            } else {
                match self {
                    Request::EnableAll(enabled) => if *enabled {
                        Progress::Calling(Call::List)
                    } else {
                        let none: Vec<String> = Vec::new();
                        assert(none.deep_view() =~= Seq::empty());
                        Progress::Calling(Call::Apply(none))
                    },
                    Request::Volume(id, volume) => Progress::Calling(
                        Call::SetVolume(id.clone(), volume.clamp_unit()),
                    ),
                    Request::Mute(id, muted) => Progress::Calling(
                        Call::SetMuted(id.clone(), *muted),
                    ),
                    _ => Progress::Calling(Call::List),
                }
            },
        }
    }

    /// What the answer of a call leads to.
    pub fn resume(
        &self,
        call: Call<String, Vec<String>>,
        answer: Answer<String, Vec<Device>>,
    ) -> (r: Progress<String, Vec<String>, Vec<Device>>)
        requires
            replies(call.deep_view(), answer.deep_view()),
        ensures
            r.deep_view() == continued(self.deep_view(), call.deep_view(), answer.deep_view()),
    {
        match call {
            Call::StartMonitoring => Progress::Calling(Call::List),
            Call::Create => match answer {
                Answer::Failed(why) => Progress::Finished(Answer::Failed(why)),
                _ => Progress::Calling(Call::StartMonitoring),
            },
            Call::List => match answer {
                Answer::Devices(devices) => match self {
                    Request::Enable(id, enabled) => Progress::Calling(
                        Call::Apply(
                            compute_enabled_ids(devices.as_slice(), id.as_str(), *enabled),
                        ),
                    ),
                    Request::EnableAll(_) => Progress::Calling(
                        Call::Apply(all_device_ids(devices.as_slice())),
                    ),
                    _ => Progress::Finished(Answer::Devices(devices)),
                },
                other => Progress::Finished(other),
            },
            _ => Progress::Finished(answer),
        }
    }

    /// Whether the pump is to look again after the command.
    pub fn notifies(&self) -> (r: bool)
        ensures
            r == nudges(self.deep_view()),
    {
        match self {
            Request::Enable(_, _) | Request::EnableAll(_) | Request::Mute(_, _) => true,
            _ => false,
        }
    }
}

// ---------------------------------------------------------------------------
// Commands on a backend
// ---------------------------------------------------------------------------

/// Where a command is after some calls, of which only the last one matters.
pub open spec fn after_calls(request: Request<Seq<char>>, calls: Seq<Exchange>) -> ProgressView {
    if calls.len() == 0 {
        begun(request, true)
    } else {
        continued(request, calls.last().call, calls.last().answer)
    }
}

/// Each call is the one that the command has next, and has its kind of answer.
pub open spec fn in_step(request: Request<Seq<char>>, calls: Seq<Exchange>) -> bool {
    forall|i: int|
        0 <= i < calls.len() ==> after_calls(request, calls.take(i)) == ProgressView::Calling(
            (#[trigger] calls[i]).call,
        ) && replies(calls[i].call, calls[i].answer)
}

/// The calls are those of a whole run of a command, which came to `answer`.
pub open spec fn is_run(
    request: Request<Seq<char>>,
    calls: Seq<Exchange>,
    answer: AnswerView,
) -> bool {
    &&& in_step(request, calls)
    &&& after_calls(request, calls) == ProgressView::Finished(answer)
}

/// Between two moments of a backend lies a whole run of a command, and nothing
/// else: its calls were put on record, and led the platform from the one state
/// to the other.
pub open spec fn ran<B>(
    request: Request<Seq<char>>,
    before: Recorded<B>,
    after: Recorded<B>,
    answer: AnswerView,
) -> bool {
    let calls = after.history().skip(before.history().len() as int);
    &&& before.history().is_prefix_of(after.history())
    &&& is_run(request, calls, answer)
    &&& before.states().is_prefix_of(after.states())
    &&& after.states().len() == before.states().len() + calls.len()
    &&& before.states().last() == before.inner()
    &&& after.states().last() == after.inner()
}

/// The kind of answer that a command has.
pub open spec fn answers(request: Request<Seq<char>>, answer: AnswerView) -> bool {
    answer is Failed || (answer is Devices <==> request is Get || request is Refresh)
}

/// A command on its way has only calls that lead to its kind of answer.
pub open spec fn on_course(request: Request<Seq<char>>, progress: ProgressView) -> bool {
    match progress {
        Progress::Calling(call) => match call {
            Call::Create => false,
            Call::StartMonitoring => request is Refresh,
            Call::List => !(request is Volume) && !(request is Mute),
            _ => !(request is Get) && !(request is Refresh),
        },
        Progress::Finished(answer) => answers(request, answer),
    }
}

/// How many calls a command still makes at most.
pub open spec fn calls_left(progress: ProgressView) -> nat {
    match progress {
        Progress::Calling(call) => match call {
            Call::Create => 4,
            Call::StartMonitoring => 3,
            Call::List => 2,
            _ => 1,
        },
        Progress::Finished(_) => 0,
    }
}

fn plain(result: Result<(), String>) -> (r: Answer<String, Vec<Device>>)
    ensures
        r.deep_view() == outcome_of(result),
{
    match result {
        Ok(_) => Answer::Done,
        Err(why) => Answer::Failed(why),
    }
}

fn perform<B: AudioBackend>(
    backend: &mut Recorded<B>,
    call: &Call<String, Vec<String>>,
) -> (r: Answer<String, Vec<Device>>)
    requires
        !(call is Create),
    ensures
        replies(call.deep_view(), r.deep_view()),
        recorded(*old(backend), call.deep_view(), r.deep_view(), *final(backend)),
{
    match call {
        Call::Create => Answer::Done,
        Call::StartMonitoring => plain(backend.start_monitoring()),
        Call::List => match backend.list_devices() {
            Ok(devices) => Answer::Devices(devices),
            Err(why) => Answer::Failed(why),
        },
        Call::Apply(ids) => {
            let list = ids.as_slice();
            assert(list.deep_view() =~= ids.deep_view());
            plain(backend.apply_enabled(list))
        },
        Call::SetVolume(id, volume) => plain(backend.set_volume(id.as_str(), *volume)),
        Call::SetMuted(id, muted) => plain(backend.set_muted(id.as_str(), *muted)),
        Call::CleanUp => plain(backend.cleanup()),
    }
}

/// Runs a command on a backend: each call is the one that the command has next,
/// and its answer leads on to the next.
pub fn run_on<B: AudioBackend>(
    backend: &mut Recorded<B>,
    request: &Request<String>,
) -> (r: Answer<String, Vec<Device>>)
    ensures
        ran(request.deep_view(), *old(backend), *final(backend), r.deep_view()),
        answers(request.deep_view(), r.deep_view()),
{
    let ghost asked = request.deep_view();
    let ghost before = backend.history();
    let ghost mut calls: Seq<Exchange> = Seq::empty();
    let mut progress = request.begin(true);
    loop
        invariant
            asked == request.deep_view(),
            before == old(backend).history(),
            backend.history() == before + calls,
            old(backend).states().is_prefix_of(backend.states()),
            backend.states().len() == old(backend).states().len() + calls.len(),
            in_step(asked, calls),
            progress.deep_view() == after_calls(asked, calls),
            on_course(asked, progress.deep_view()),
        decreases calls_left(progress.deep_view()),
    {
        match progress {
            Progress::Finished(answer) => {
                proof {
                    assert((before + calls).skip(before.len() as int) =~= calls);
                    lemma_the_last_state_is_the_present(*old(backend));
                    lemma_the_last_state_is_the_present(*backend);
                }
                return answer;
            },
            Progress::Calling(call) => {
                let answer = perform(backend, &call);
                proof {
                    let exchange = Exchange {
                        call: call.deep_view(),
                        answer: answer.deep_view(),
                    };
                    let more = calls.push(exchange);
                    assert(before + more =~= (before + calls).push(exchange));
                    assert(more.take(calls.len() as int) =~= calls);
                    assert forall|i: int| 0 <= i < calls.len() implies #[trigger] more.take(i)
                        == calls.take(i) by {
                        assert(more.take(i) =~= calls.take(i));
                    }
                    calls = more;
                }
                progress = request.resume(call, answer);
            },
        }
    }
}

/// What is owed of a command: without a backend it fails and there is still
/// none; with one it ran there.
pub open spec fn commanded<B: AudioBackend>(
    request: Request<Seq<char>>,
    before: Option<Recorded<B>>,
    after: Option<Recorded<B>>,
    answer: AnswerView,
) -> bool {
    match before {
        None => after is None && answer == AnswerView::Failed("audio backend unavailable"@),
        Some(b) => after is Some && ran(request, b, after->0, answer),
    }
}

/// Runs a command; without a backend it fails.
fn with_backend<B: AudioBackend>(
    backend: &mut Option<Recorded<B>>,
    request: &Request<String>,
) -> (r: Answer<String, Vec<Device>>)
    requires
        !(request.deep_view() is Refresh),
    ensures
        commanded(request.deep_view(), *old(backend), *final(backend), r.deep_view()),
        answers(request.deep_view(), r.deep_view()),
{
    match backend {
        Some(b) => run_on(b, request),
        None => match request.begin(false) {
            Progress::Finished(answer) => answer,
            Progress::Calling(_) => Answer::Done,
        },
    }
}

/// What came of a command that changes something, and whether the pump is to
/// look again.
#[derive(Debug)]
pub struct Ending {
    pub result: Result<(), String>,
    pub notify: bool,
}

fn ending(answer: Answer<String, Vec<Device>>, notify: bool) -> (r: Ending)
    requires
        !(answer is Devices),
    ensures
        r.notify == notify,
        outcome_of(r.result) == answer.deep_view(),
{
    let result = match answer {
        Answer::Failed(why) => Err(why),
        _ => Ok(()),
    };
    Ending { result, notify }
}

fn listing(answer: Answer<String, Vec<Device>>) -> (r: Result<Vec<Device>, String>)
    requires
        !(answer is Done),
    ensures
        listing_of(r) == answer.deep_view(),
{
    match answer {
        Answer::Devices(devices) => Ok(devices),
        Answer::Failed(why) => Err(why),
        Answer::Done => Ok(Vec::new()),
    }
}

/// Lists the devices.
pub fn get_devices_inner<B: AudioBackend>(
    backend: &mut Option<Recorded<B>>,
) -> (r: Result<Vec<Device>, String>)
    ensures
        commanded(Request::Get, *old(backend), *final(backend), listing_of(r)),
{
    listing(with_backend(backend, &Request::Get))
}

/// Brings a backend up if there is none, starts to watch anew, and lists the
/// devices. So the user can mend the sound server and refresh.
pub fn refresh_devices_inner<B: AudioBackend, F: FnOnce() -> Result<B, String>>(
    backend: &mut Option<Recorded<B>>,
    create: F,
) -> (r: Result<Vec<Device>, String>)
    requires
        create.requires(()),
    ensures
        *old(backend) is Some ==> commanded(
            Request::Refresh,
            *old(backend),
            *final(backend),
            listing_of(r),
        ),
        *old(backend) is None && *final(backend) is Some ==> exists|start: Recorded<B>| #[trigger]
            ran(Request::Refresh, start, final(backend)->0, listing_of(r)) && start.history()
                == Seq::<Exchange>::empty() && create.ensures((), Ok::<B, String>(start.inner())),
        *old(backend) is None && *final(backend) is None ==> (r matches Err(why)
            && create.ensures((), Err::<B, String>(why))),
{
    if backend.is_none() {
        match create() {
            Ok(created) => {
                let mut b = Recorded::new(created);
                let ghost start = b;
                let answer = run_on(&mut b, &Request::Refresh);
                let r = listing(answer);
                *backend = Some(b);
                assert(ran(Request::Refresh, start, backend->0, listing_of(r)));
                return r;
            },
            Err(why) => {
                return Err(why);
            },
        }
    }
    match backend {
        Some(b) => listing(run_on(b, &Request::Refresh)),
        None => Ok(Vec::new()),
    }
}

/// Enables a device or disables it. The pump looks again, also after a failure.
pub fn set_device_enabled_inner<B: AudioBackend>(
    backend: &mut Option<Recorded<B>>,
    id: String,
    enabled: bool,
) -> (r: Ending)
    ensures
        r.notify,
        commanded(
            Request::Enable(id@, enabled),
            *old(backend),
            *final(backend),
            outcome_of(r.result),
        ),
{
    let request = Request::Enable(id, enabled);
    let answer = with_backend(backend, &request);
    ending(answer, request.notifies())
}

/// Enables all devices or none. The pump looks again, also after a failure.
pub fn set_all_enabled_inner<B: AudioBackend>(
    backend: &mut Option<Recorded<B>>,
    enabled: bool,
) -> (r: Ending)
    ensures
        r.notify,
        commanded(
            Request::EnableAll(enabled),
            *old(backend),
            *final(backend),
            outcome_of(r.result),
        ),
{
    let request = Request::EnableAll(enabled);
    let answer = with_backend(backend, &request);
    ending(answer, request.notifies())
}

/// Sets the volume of a device, moved into 0.0 to 1.0. The pump does not look
/// again.
pub fn set_device_volume_inner<B: AudioBackend>(
    backend: &mut Option<Recorded<B>>,
    id: String,
    volume: Volume,
) -> (r: Ending)
    ensures
        !r.notify,
        commanded(
            Request::Volume(id@, volume),
            *old(backend),
            *final(backend),
            outcome_of(r.result),
        ),
{
    let request = Request::Volume(id, volume);
    let answer = with_backend(backend, &request);
    ending(answer, request.notifies())
}

/// Mutes a device or lifts its mute. The pump looks again, also after a failure.
pub fn set_device_muted_inner<B: AudioBackend>(
    backend: &mut Option<Recorded<B>>,
    id: String,
    muted: bool,
) -> (r: Ending)
    ensures
        r.notify,
        commanded(
            Request::Mute(id@, muted),
            *old(backend),
            *final(backend),
            outcome_of(r.result),
        ),
{
    let request = Request::Mute(id, muted);
    let answer = with_backend(backend, &request);
    ending(answer, request.notifies())
}

// ---------------------------------------------------------------------------
// The pump
// ---------------------------------------------------------------------------

/// What the pump emits to the user interface.
#[derive(Debug)]
pub enum Emission<T, D> {
    /// A problem, as the event `backend-error`.
    BackendError(T),
    /// All devices, as the event `devices-changed`.
    DevicesChanged(D),
}

impl DeepView for Emission<String, Vec<Device>> {
    type V = Emission<Seq<char>, Seq<DeviceView>>;

    open spec fn deep_view(&self) -> Emission<Seq<char>, Seq<DeviceView>> {
        match *self {
            Emission::BackendError(why) => Emission::BackendError(why@),
            Emission::DevicesChanged(devices) => Emission::DevicesChanged(devices.deep_view()),
        }
    }
}

/// The last problem among some events.
pub open spec fn last_error(events: Seq<EventView>) -> Option<Seq<char>>
    decreases events.len(),
{
    if events.len() == 0 {
        None
    } else {
        match events.last() {
            EventView::Error(why) => Some(why),
            _ => last_error(events.drop_last()),
        }
    }
}

/// The last problem among a burst of events; a burst is pushed as one.
pub fn coalesce(burst: &Vec<BackendEvent>) -> (r: Option<String>)
    ensures
        r.deep_view() == last_error(burst.deep_view()),
{
    let ghost model = burst.deep_view();
    let mut error: Option<String> = None;
    let mut i: usize = 0;
    while i < burst.len()
        invariant
            i <= burst.len(),
            model == burst.deep_view(),
            error.deep_view() == last_error(model.take(i as int)),
        decreases burst.len() - i,
    {
        assert(model.take(i + 1).drop_last() =~= model.take(i as int));
        assert(model.take(i + 1).last() == burst[i as int].deep_view());
        if let BackendEvent::Error(why) = &burst[i] {
            error = Some(why.clone());
        }
        i += 1;
    }
    assert(model.take(i as int) =~= model);
    error
}

/// What a burst of events has the pump emit, given the devices listed after it:
/// first the last problem of the burst, then the devices or why they could not
/// be listed; without a backend nothing of the latter.
pub open spec fn emissions(
    burst: Seq<EventView>,
    devices: Option<AnswerView>,
) -> Seq<Emission<Seq<char>, Seq<DeviceView>>> {
    (match last_error(burst) {
        Some(why) => seq![Emission::BackendError(why)],
        None => Seq::empty(),
    }) + (match devices {
        Some(Answer::Devices(devices)) => seq![Emission::DevicesChanged(devices)],
        Some(Answer::Failed(why)) => seq![Emission::BackendError(why)],
        _ => Seq::empty(),
    })
}

/// What the pump does next about a burst.
#[derive(Debug)]
pub enum Pump<T, D> {
    /// It emits the problem given, as the event `backend-error`.
    Warn(T),
    /// It lists the devices.
    List,
    /// It emits what the listing came to.
    Tell(Emission<T, D>),
    /// It is done with the burst.
    Ended,
}

/// A [`Pump`] in terms of text.
pub type PumpView = Pump<Seq<char>, Seq<DeviceView>>;

impl DeepView for Pump<String, Vec<Device>> {
    type V = PumpView;

    open spec fn deep_view(&self) -> PumpView {
        match *self {
            Pump::Warn(why) => Pump::Warn(why@),
            Pump::List => Pump::List,
            Pump::Tell(emission) => Pump::Tell(emission.deep_view()),
            Pump::Ended => Pump::Ended,
        }
    }
}

/// How the pump begins with a burst: the last problem is told first.
pub open spec fn pumping(burst: Seq<EventView>) -> PumpView {
    match last_error(burst) {
        Some(why) => Pump::Warn(why),
        None => Pump::List,
    }
}

/// What follows a listing; without a backend there is none.
pub open spec fn told(devices: Option<AnswerView>) -> PumpView {
    match devices {
        Some(Answer::Devices(devices)) => Pump::Tell(Emission::DevicesChanged(devices)),
        Some(Answer::Failed(why)) => Pump::Tell(Emission::BackendError(why)),
        _ => Pump::Ended,
    }
}

impl Pump<Seq<char>, Seq<DeviceView>> {
    /// What is emitted here.
    pub open spec fn emits(self) -> Seq<Emission<Seq<char>, Seq<DeviceView>>> {
        match self {
            Pump::Warn(why) => seq![Emission::BackendError(why)],
            Pump::Tell(emission) => seq![emission],
            _ => Seq::empty(),
        }
    }
}

/// Begins with a burst of events.
pub fn event_pump(burst: &Vec<BackendEvent>) -> (r: Pump<String, Vec<Device>>)
    ensures
        r.deep_view() == pumping(burst.deep_view()),
{
    match coalesce(burst) {
        Some(why) => Pump::Warn(why),
        None => Pump::List,
    }
}

impl Pump<String, Vec<Device>> {
    /// What was to be emitted is; after a problem come the devices.
    pub fn emitted(self) -> (r: Pump<String, Vec<Device>>)
        requires
            self is Warn || self is Tell,
        ensures
            r.deep_view() == if self is Warn {
                PumpView::List
            } else {
                PumpView::Ended
            },
    {
        match self {
            Pump::Warn(_) => Pump::List,
            _ => Pump::Ended,
        }
    }

    /// Takes what the listing came to; nothing where there is no backend.
    pub fn listed(self, devices: Option<Answer<String, Vec<Device>>>) -> (r: Pump<
        String,
        Vec<Device>,
    >)
        requires
            self is List,
        ensures
            r.deep_view() == told(devices.deep_view()),
    {
        match devices {
            Some(Answer::Devices(devices)) => Pump::Tell(Emission::DevicesChanged(devices)),
            Some(Answer::Failed(why)) => Pump::Tell(Emission::BackendError(why)),
            _ => Pump::Ended,
        }
    }
}

// ---------------------------------------------------------------------------
// Laws
// ---------------------------------------------------------------------------

/// Commands that change something hand out no state. Those that enable or mute
/// have the pump look again instead, whatever the backend answers; a volume does
/// not, and neither do the commands that hand out the devices.
pub proof fn lemma_state_has_one_path(request: Request<Seq<char>>, answer: AnswerView)
    requires
        answers(request, answer),
    ensures
        request is Enable || request is EnableAll || request is Mute ==> nudges(request) && !(
        answer is Devices),
        request is Volume ==> !nudges(request) && !(answer is Devices),
        answer is Devices ==> (request is Get || request is Refresh) && !nudges(request),
{
}

/// A burst is emitted as one: at most its last problem, and that before the
/// devices are listed, and then what the listing came to.
pub proof fn lemma_a_burst_is_told_problem_first(
    burst: Seq<EventView>,
    devices: Option<AnswerView>,
)
    ensures
        pumping(burst) is Warn || pumping(burst) is List,
        told(devices) is Tell || told(devices) is Ended,
        pumping(burst).emits() + told(devices).emits() == emissions(burst, devices),
{
    assert(pumping(burst).emits() + told(devices).emits() =~= emissions(burst, devices));
}

/// A command that enables lists the devices and then hands on what follows from
/// the listing; it comes to what that call came to. Where the listing fails,
/// nothing is handed on.
pub proof fn lemma_enabling_lists_and_applies(
    request: Request<Seq<char>>,
    calls: Seq<Exchange>,
    answer: AnswerView,
)
    requires
        is_run(request, calls, answer),
        request is Enable || request == Request::<Seq<char>>::EnableAll(true),
    ensures
        calls.len() >= 1 && calls[0].call is List,
        calls[0].answer is Failed ==> calls.len() == 1 && answer == calls[0].answer,
        calls[0].answer matches Answer::Devices(devices) ==> calls.len() == 2
            && calls[1].answer == answer && calls[1].call == CallView::Apply(
            match request {
                Request::Enable(id, enabled) => toggled(devices, id, enabled),
                _ => routable(devices),
            },
        ),
        !(calls[0].answer is Done),
{
    lemma_first_steps(request, calls);
}

/// A command on the level of a device is one call, with the volume moved into
/// its range; to switch all devices off hands on the empty set at once.
pub proof fn lemma_other_changes_are_one_call(
    request: Request<Seq<char>>,
    calls: Seq<Exchange>,
    answer: AnswerView,
)
    requires
        is_run(request, calls, answer),
        request is Volume || request is Mute || request == Request::<Seq<char>>::EnableAll(false),
    ensures
        calls.len() == 1 && calls[0].answer == answer,
        calls[0].call == (match request {
            Request::Volume(id, volume) => Call::SetVolume(id, volume.in_unit()),
            Request::Mute(id, muted) => Call::SetMuted(id, muted),
            _ => CallView::Apply(Seq::empty()),
        }),
{
    lemma_first_steps(request, calls);
}

/// A refresh starts to watch anew and then lists the devices, whether or not
/// the watch could be started; it comes to the listing.
pub proof fn lemma_a_refresh_watches_and_lists(
    calls: Seq<Exchange>,
    answer: AnswerView,
)
    requires
        is_run(Request::Refresh, calls, answer),
    ensures
        calls.len() == 2,
        calls[0].call is StartMonitoring,
        calls[1].call is List && calls[1].answer == answer,
{
    lemma_first_steps(Request::Refresh, calls);
}

/// Where a run is after its first `i` calls.
proof fn lemma_step_at(request: Request<Seq<char>>, calls: Seq<Exchange>, i: int)
    requires
        in_step(request, calls),
        0 <= i <= calls.len(),
    ensures
        after_calls(request, calls.take(i)) == if i == 0 {
            begun(request, true)
        } else {
            continued(request, calls[i - 1].call, calls[i - 1].answer)
        },
        i < calls.len() ==> after_calls(request, calls.take(i)) == ProgressView::Calling(
            calls[i].call,
        ) && replies(calls[i].call, calls[i].answer),
{
    if i > 0 {
        assert(calls.take(i).last() == calls[i - 1]);
    }
    if i < calls.len() {
        assert(replies(calls[i].call, calls[i].answer));
    }
}

/// Where a run begins, and where it is after one call and after two.
proof fn lemma_first_steps(request: Request<Seq<char>>, calls: Seq<Exchange>)
    requires
        in_step(request, calls),
    ensures
        calls.len() > 0 ==> begun(request, true) == ProgressView::Calling(calls[0].call)
            && replies(calls[0].call, calls[0].answer),
        calls.len() > 1 ==> continued(request, calls[0].call, calls[0].answer)
            == ProgressView::Calling(calls[1].call) && replies(calls[1].call, calls[1].answer),
        calls.len() > 2 ==> continued(request, calls[1].call, calls[1].answer) is Calling,
{
    if calls.len() > 0 {
        lemma_step_at(request, calls, 0);
    }
    if calls.len() > 1 {
        lemma_step_at(request, calls, 1);
    }
    if calls.len() > 2 {
        lemma_step_at(request, calls, 2);
    }
}

/// No command routes to the master row: an id that a run hands on is that of no
/// master row among the devices that were listed before.
pub proof fn lemma_commands_never_route_to_the_master(
    request: Request<Seq<char>>,
    calls: Seq<Exchange>,
    answer: AnswerView,
    at: int,
    id: Seq<char>,
)
    requires
        is_run(request, calls, answer),
        0 <= at < calls.len(),
        calls[at].call matches Call::Apply(ids) && ids.contains(id),
    ensures
        at > 0,
        calls[at - 1].answer matches Answer::Devices(devices) && (distinct(devices)
            ==> !names_master(devices, id)),
{
    lemma_step_at(request, calls, at);
    if at > 0 {
        if let Answer::Devices(devices) = calls[at - 1].answer {
            if distinct(devices) && names_master(devices, id) {
                match request {
                    Request::Enable(toggled_id, enabled) => {
                        lemma_toggling(devices, toggled_id, enabled);
                    },
                    _ => {
                        lemma_all_devices_are_routable(devices);
                    },
                }
            }
        }
    }
}

/// To list the devices is one call, and comes to what that call came to: the
/// devices as the backend listed them, or why it could not.
pub proof fn lemma_a_listing_is_handed_on_as_it_is(calls: Seq<Exchange>, answer: AnswerView)
    requires
        is_run(Request::Get, calls, answer),
    ensures
        calls.len() == 1,
        calls[0].call is List,
        answer == calls[0].answer,
{
    lemma_first_steps(Request::Get, calls);
}

/// Whatever a run of a command comes to is what its last call came to.
pub proof fn lemma_a_run_comes_to_its_last_answer(
    request: Request<Seq<char>>,
    calls: Seq<Exchange>,
    answer: AnswerView,
)
    requires
        is_run(request, calls, answer),
    ensures
        calls.len() > 0,
        answer == calls.last().answer,
{
}

/// To enable a device or disable it hands on a set in which that device is
/// exactly if it is switched on and no master row has its id, and every other
/// device exactly if it was listed as enabled and is no master row.
pub proof fn lemma_enabling_changes_one_device(
    id: Seq<char>,
    enabled: bool,
    calls: Seq<Exchange>,
    answer: AnswerView,
    devices: Seq<DeviceView>,
)
    requires
        is_run(Request::Enable(id, enabled), calls, answer),
        calls[0].answer == AnswerView::Devices(devices),
    ensures
        calls.len() == 2,
        calls[1].call matches Call::Apply(set) && {
            &&& set.contains(id) <==> enabled && !exists|i: int|
                0 <= i < devices.len() && (#[trigger] devices[i]).device_type == DeviceType::Master
                    && devices[i].id == id
            &&& forall|other: Seq<char>|
                other != id ==> (#[trigger] set.contains(other) <==> exists|i: int|
                    0 <= i < devices.len() && (#[trigger] devices[i]).id == other
                        && devices[i].enabled && devices[i].device_type != DeviceType::Master)
        },
{
    lemma_enabling_lists_and_applies(Request::Enable(id, enabled), calls, answer);
    lemma_toggling_goes_by_the_rows(devices, id, enabled);
}

/// To enable all devices hands on the ids of all that were listed and are no
/// master row; to disable all hands on none, without a listing.
pub proof fn lemma_enabling_all_takes_every_device(
    enabled: bool,
    calls: Seq<Exchange>,
    answer: AnswerView,
)
    requires
        is_run(Request::EnableAll(enabled), calls, answer),
    ensures
        enabled ==> calls[0].call is List,
        enabled ==> (calls[0].answer matches Answer::Devices(devices) ==> calls.len() == 2 && (
        calls[1].call matches Call::Apply(set) && forall|id: Seq<char>| #[trigger]
            set.contains(id) <==> exists|i: int|
                0 <= i < devices.len() && (#[trigger] devices[i]).id == id
                    && devices[i].device_type != DeviceType::Master)),
        !enabled ==> calls.len() == 1 && (calls[0].call matches Call::Apply(set) && set.len()
            == 0),
{
    if enabled {
        lemma_enabling_lists_and_applies(Request::EnableAll(true), calls, answer);
        if let Answer::Devices(devices) = calls[0].answer {
            lemma_all_devices_go_by_the_rows(devices);
        }
    } else {
        lemma_other_changes_are_one_call(Request::EnableAll(false), calls, answer);
    }
}

/// Without a backend a refresh brings one up first, and goes on as with one if
/// that worked; otherwise it fails with the reason. Every other command fails
/// at once.
pub proof fn lemma_without_a_backend_only_a_refresh_goes_on(
    request: Request<Seq<char>>,
    answer: AnswerView,
)
    ensures
        request is Refresh ==> begun(request, false) == ProgressView::Calling(Call::Create),
        !(request is Refresh) ==> begun(request, false) == ProgressView::Finished(
            Answer::Failed("audio backend unavailable"@),
        ),
        answer is Failed ==> continued(request, Call::Create, answer) == ProgressView::Finished(
            answer,
        ),
        answer is Done ==> continued(request, Call::Create, answer) == begun(
            Request::Refresh,
            true,
        ),
{
}

/// The problem that a burst is told with is the last one in it, and there is
/// none exactly if no event of the burst is a problem.
pub proof fn lemma_the_last_problem_is_told(burst: Seq<EventView>)
    ensures
        match last_error(burst) {
            Some(why) => exists|i: int|
                0 <= i < burst.len() && #[trigger] burst[i] == EventView::Error(why) && forall|
                    j: int,
                | i < j < burst.len() ==> !(#[trigger] burst[j] is Error),
            None => forall|i: int| 0 <= i < burst.len() ==> !(#[trigger] burst[i] is Error),
        },
    decreases burst.len(),
{
    if burst.len() > 0 {
        if burst.last() is Error {
            assert(burst[burst.len() - 1] is Error);
        } else {
            let front = burst.drop_last();
            lemma_the_last_problem_is_told(front);
            match last_error(front) {
                Some(why) => {
                    let i = choose|i: int|
                        0 <= i < front.len() && #[trigger] front[i] == EventView::Error(why)
                            && forall|j: int|
                            i < j < front.len() ==> !(#[trigger] front[j] is Error);
                    assert(burst[i] == EventView::Error(why));
                    assert forall|j: int| i < j < burst.len() implies !(
                    #[trigger] burst[j] is Error) by {
                        if j < front.len() {
                            assert(front[j] == burst[j]);
                        }
                    }
                },
                None => {
                    assert forall|j: int| 0 <= j < burst.len() implies !(
                    #[trigger] burst[j] is Error) by {
                        if j < front.len() {
                            assert(front[j] == burst[j]);
                        }
                    }
                },
            }
        }
    }
}

/// What the pump makes of a burst: a problem in it is emitted before the
/// devices are listed. Of the listing, the devices are emitted as they are, or
/// else the reason why there are none; without a backend nothing is.
pub proof fn lemma_the_pump_tells_all_there_is(
    burst: Seq<EventView>,
    devices: Seq<DeviceView>,
    why: Seq<char>,
)
    ensures
        pumping(burst) is Warn <==> exists|i: int|
            0 <= i < burst.len() && #[trigger] burst[i] is Error,
        pumping(burst) is List <==> forall|i: int|
            0 <= i < burst.len() ==> !(#[trigger] burst[i] is Error),
        pumping(burst) matches Pump::Warn(problem) ==> exists|i: int|
            0 <= i < burst.len() && #[trigger] burst[i] == EventView::Error(problem) && forall|
                j: int,
            | i < j < burst.len() ==> !(#[trigger] burst[j] is Error),
        told(Some(Answer::Devices(devices))) == PumpView::Tell(Emission::DevicesChanged(devices)),
        told(Some(Answer::Failed(why))) == PumpView::Tell(Emission::BackendError(why)),
        told(None) == PumpView::Ended,
{
    lemma_the_last_problem_is_told(burst);
}

// ---------------------------------------------------------------------------
// What a command puts on record
// ---------------------------------------------------------------------------

proof fn lemma_record_grows<B>(before: Recorded<B>, after: Recorded<B>)
    requires
        before.history().is_prefix_of(after.history()),
    ensures
        ({
            let calls = after.history().skip(before.history().len() as int);
            &&& after.history() == before.history() + calls
            &&& calls.len() == 1 ==> after.history() == before.history().push(calls[0])
            &&& calls.len() == 2 ==> after.history() == before.history().push(calls[0]).push(
                calls[1],
            )
        }),
{
    let calls = after.history().skip(before.history().len() as int);
    assert(after.history() =~= before.history() + calls);
    if calls.len() == 1 {
        assert(after.history() =~= before.history().push(calls[0]));
    }
    if calls.len() == 2 {
        assert(after.history() =~= before.history().push(calls[0]).push(calls[1]));
    }
}

/// Without a backend every command but a refresh fails and leaves none.
pub proof fn lemma_a_command_without_a_backend_fails<B: AudioBackend>(
    request: Request<Seq<char>>,
    after: Option<Recorded<B>>,
    answer: AnswerView,
)
    requires
        commanded(request, None, after, answer),
    ensures
        after is None,
        answer == AnswerView::Failed("audio backend unavailable"@),
{
}

/// To list the devices asks the backend once, for the listing, and hands out what
/// it answered.
pub proof fn lemma_what_getting_the_devices_asks<B: AudioBackend>(
    before: Recorded<B>,
    after: Option<Recorded<B>>,
    answer: AnswerView,
)
    requires
        commanded(Request::Get, Some(before), after, answer),
    ensures
        after is Some,
        after->0.history() == before.history().push(Exchange { call: Call::List, answer }),
{
    let calls = after->0.history().skip(before.history().len() as int);
    lemma_a_listing_is_handed_on_as_it_is(calls, answer);
    lemma_record_grows(before, after->0);
}

/// To refresh asks the backend to watch and then for the listing, and hands out
/// what it answered to the latter.
pub proof fn lemma_what_a_refresh_asks<B: AudioBackend>(
    before: Recorded<B>,
    after: Option<Recorded<B>>,
    answer: AnswerView,
)
    requires
        commanded(Request::Refresh, Some(before), after, answer),
    ensures
        after is Some,
        exists|watching: AnswerView|
            after->0.history() == before.history().push(#[trigger] watched_with(watching)).push(
                Exchange { call: Call::List, answer },
            ),
{
    let calls = after->0.history().skip(before.history().len() as int);
    lemma_a_refresh_watches_and_lists(calls, answer);
    lemma_record_grows(before, after->0);
    assert(calls[0] == watched_with(calls[0].answer));
}

/// A watch that was started, or not, which came to `answer`.
pub open spec fn watched_with(answer: AnswerView) -> Exchange {
    Exchange { call: Call::StartMonitoring, answer }
}

/// To set a volume or a mute, or to disable all devices, asks the backend once,
/// for just that, and hands out what it answered. A volume is moved into its
/// range first.
pub proof fn lemma_what_other_changes_ask<B: AudioBackend>(
    before: Recorded<B>,
    after: Option<Recorded<B>>,
    answer: AnswerView,
    id: Seq<char>,
    volume: Volume,
    muted: bool,
)
    ensures
        commanded(Request::Volume(id, volume), Some(before), after, answer) ==> after is Some
            && after->0.history() == before.history().push(
            Exchange { call: Call::SetVolume(id, volume.in_unit()), answer },
        ),
        commanded(Request::Mute(id, muted), Some(before), after, answer) ==> after is Some
            && after->0.history() == before.history().push(
            Exchange { call: Call::SetMuted(id, muted), answer },
        ),
        commanded(Request::EnableAll(false), Some(before), after, answer) ==> after is Some
            && after->0.history() == before.history().push(
            Exchange { call: Call::Apply(Seq::empty()), answer },
        ),
{
    if after is Some {
        let calls = after->0.history().skip(before.history().len() as int);
        if commanded(Request::Volume(id, volume), Some(before), after, answer) {
            lemma_other_changes_are_one_call(Request::Volume(id, volume), calls, answer);
            lemma_record_grows(before, after->0);
        }
        if commanded(Request::Mute(id, muted), Some(before), after, answer) {
            lemma_other_changes_are_one_call(Request::Mute(id, muted), calls, answer);
            lemma_record_grows(before, after->0);
        }
        if commanded(Request::EnableAll(false), Some(before), after, answer) {
            lemma_other_changes_are_one_call(Request::EnableAll(false), calls, answer);
            lemma_record_grows(before, after->0);
        }
    }
}

/// To enable asks the backend for the listing; a listing that fails is what the
/// command comes to, and nothing more is asked. Otherwise the set that follows
/// from the listing is applied, and the command comes to what that came to.
pub proof fn lemma_what_enabling_asks<B: AudioBackend>(
    request: Request<Seq<char>>,
    before: Recorded<B>,
    after: Option<Recorded<B>>,
    answer: AnswerView,
)
    requires
        commanded(request, Some(before), after, answer),
        request is Enable || request == Request::<Seq<char>>::EnableAll(true),
    ensures
        after is Some,
        after->0.history().len() > before.history().len(),
        ({
            let first = after->0.history()[before.history().len() as int];
            &&& first.call is List
            &&& first.answer is Failed ==> first.answer == answer && after->0.history()
                == before.history().push(first)
            &&& first.answer matches Answer::Devices(devices) ==> exists|set: Seq<Seq<char>>|
                after->0.history() == before.history().push(first).push(
                    #[trigger] applied_with(set, answer),
                ) && forall|other: Seq<char>| #[trigger]
                    set.contains(other) <==> (match request {
                        Request::Enable(id, enabled) => if other == id {
                            enabled && !exists|i: int|
                                0 <= i < devices.len() && (#[trigger] devices[i]).device_type
                                    == DeviceType::Master && devices[i].id == id
                        } else {
                            exists|i: int|
                                0 <= i < devices.len() && (#[trigger] devices[i]).id == other
                                    && devices[i].enabled && devices[i].device_type
                                    != DeviceType::Master
                        },
                        _ => exists|i: int|
                            0 <= i < devices.len() && (#[trigger] devices[i]).id == other
                                && devices[i].device_type != DeviceType::Master,
                    })
        }),
{
    let calls = after->0.history().skip(before.history().len() as int);
    lemma_enabling_lists_and_applies(request, calls, answer);
    lemma_record_grows(before, after->0);
    if let Answer::Devices(devices) = calls[0].answer {
        let set = calls[1].call->Apply_0;
        assert(calls[1] == applied_with(set, answer));
        match request {
            Request::Enable(id, enabled) => {
                lemma_toggling_goes_by_the_rows(devices, id, enabled);
            },
            _ => {
                lemma_all_devices_go_by_the_rows(devices);
            },
        }
    }
}

/// A set that was applied, which came to `answer`.
pub open spec fn applied_with(set: Seq<Seq<char>>, answer: AnswerView) -> Exchange {
    Exchange { call: Call::Apply(set), answer }
}

} // verus!
