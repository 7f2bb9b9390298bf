//! The `pactl` commands that routing is made of, and what comes back of them.

use vstd::prelude::*;
use crate::linux::modules::{is_listed, parse_module_id, row_ids, COMBINED_SINK, NULL_SINK};
use crate::linux::sinks::{Sink, SinkView};
use crate::text::{
    concat, decimal, decimal_string, join, joined, number, number_error, owned, trim, trimmed,
    NumberError,
};
use crate::volume::Volume;

verus! {

/// A `pactl` invocation. `T` is the type of text: `String`, or characters.
#[derive(Debug)]
pub enum Command<T> {
    /// Ask for the state of the sound server.
    Info,
    /// List the sinks, as JSON.
    ListSinks,
    /// List the modules, one per line.
    ListModules,
    /// Ask for the name of the default sink.
    GetDefault,
    /// Load the sink that plays nowhere.
    LoadNull,
    /// Load the sink that plays on the given sinks, listed with commas.
    LoadCombine(T),
    /// Unload a module.
    Unload(u32),
    /// Make a sink the default.
    SetDefault(T),
    /// Set the volume of a sink.
    SetVolume(T, Volume),
    /// Mute a sink or lift its mute.
    SetMute(T, bool),
}

impl DeepView for Command<String> {
    type V = Command<Seq<char>>;

    open spec fn deep_view(&self) -> Command<Seq<char>> {
        match *self {
            Command::Info => Command::Info,
            Command::ListSinks => Command::ListSinks,
            Command::ListModules => Command::ListModules,
            Command::GetDefault => Command::GetDefault,
            Command::LoadNull => Command::LoadNull,
            Command::LoadCombine(slaves) => Command::LoadCombine(slaves@),
            Command::Unload(id) => Command::Unload(id),
            Command::SetDefault(sink) => Command::SetDefault(sink@),
            Command::SetVolume(sink, volume) => Command::SetVolume(sink@, volume),
            Command::SetMute(sink, muted) => Command::SetMute(sink@, muted),
        }
    }
}

/// What a [`Command`] came to.
#[derive(Debug)]
pub enum Reply {
    /// What `pactl` printed.
    Output(String),
    /// The sinks that `pactl` listed.
    Sinks(Vec<Sink>),
    /// Why it failed.
    Failed(String),
}

/// What a [`Reply`] says, in terms of text.
pub enum ReplyView {
    Output(Seq<char>),
    Sinks(Seq<SinkView>),
    Failed(Seq<char>),
}

impl DeepView for Reply {
    type V = ReplyView;

    open spec fn deep_view(&self) -> ReplyView {
        match *self {
            Reply::Output(text) => ReplyView::Output(text@),
            Reply::Sinks(sinks) => ReplyView::Sinks(sinks.deep_view()),
            Reply::Failed(why) => ReplyView::Failed(why@),
        }
    }
}

/// `reply` is of the kind that `command` gets: sinks for the sink listing,
/// text for everything else, or a failure.
pub open spec fn answers(command: Command<Seq<char>>, reply: ReplyView) -> bool {
    match reply {
        ReplyView::Output(_) => command != Command::<Seq<char>>::ListSinks,
        ReplyView::Sinks(_) => command == Command::<Seq<char>>::ListSinks,
        ReplyView::Failed(_) => true,
    }
}

// ---------------------------------------------------------------------------
// Command lines
// ---------------------------------------------------------------------------

/// The arguments of `pactl` for a command; `percent` is the volume that a
/// `SetVolume` sets.
pub open spec fn arguments(command: Command<Seq<char>>, percent: u32) -> Seq<Seq<char>> {
    match command {
        Command::Info => seq!["info"@],
        Command::ListSinks => seq!["-f"@, "json"@, "list"@, "sinks"@],
        Command::ListModules => seq!["list"@, "short"@, "modules"@],
        Command::GetDefault => seq!["get-default-sink"@],
        Command::LoadNull => seq![
            "load-module"@,
            "module-null-sink"@,
            "sink_name="@ + NULL_SINK@,
            "sink_properties=device.description='Sound-Multiplexer-Silence'"@,
        ],
        Command::LoadCombine(slaves) => seq![
            "load-module"@,
            "module-combine-sink"@,
            "sink_name="@ + COMBINED_SINK@,
            "slaves="@ + slaves,
            "sink_properties=device.description='Sound-Multiplexer'"@,
        ],
        Command::Unload(id) => seq!["unload-module"@, decimal(id as nat)],
        Command::SetDefault(sink) => seq!["set-default-sink"@, sink],
        Command::SetVolume(sink, _) => seq![
            "set-sink-volume"@,
            sink,
            decimal(percent as nat) + "%"@,
        ],
        Command::SetMute(sink, muted) => seq![
            "set-sink-mute"@,
            sink,
            if muted {
                "1"@
            } else {
                "0"@
            },
        ],
    }
}

impl Command<String> {
    /// The arguments of `pactl` for this command; `percent` is the volume that
    /// a `SetVolume` sets.
    pub fn argv(&self, percent: u32) -> (r: Vec<String>)
        ensures
            r.deep_view() == arguments(self.deep_view(), percent),
    {
        let r = match self {
            Command::Info => owned(&["info"]),
            Command::ListSinks => owned(&["-f", "json", "list", "sinks"]),
            Command::ListModules => owned(&["list", "short", "modules"]),
            Command::GetDefault => owned(&["get-default-sink"]),
            Command::LoadNull => {
                let name = concat("sink_name=", NULL_SINK);
                owned(
                    &[
                        "load-module",
                        "module-null-sink",
                        name.as_str(),
                        "sink_properties=device.description='Sound-Multiplexer-Silence'",
                    ],
                )
            },
            Command::LoadCombine(slaves) => {
                let name = concat("sink_name=", COMBINED_SINK);
                let slaves = concat("slaves=", slaves.as_str());
                owned(
                    &[
                        "load-module",
                        "module-combine-sink",
                        name.as_str(),
                        slaves.as_str(),
                        "sink_properties=device.description='Sound-Multiplexer'",
                    ],
                )
            },
            Command::Unload(id) => {
                let id = decimal_string(*id as u64);
                owned(&["unload-module", id.as_str()])
            },
            Command::SetDefault(sink) => owned(&["set-default-sink", sink.as_str()]),
            Command::SetVolume(sink, _) => {
                let digits = decimal_string(percent as u64);
                let level = concat(digits.as_str(), "%");
                owned(&["set-sink-volume", sink.as_str(), level.as_str()])
            },
            Command::SetMute(sink, muted) => owned(
                &["set-sink-mute", sink.as_str(), if *muted {
                    "1"
                } else {
                    "0"
                }],
            ),
        };
        assert(r.deep_view() =~= arguments(self.deep_view(), percent));
        r
    }
}

/// What is said of a `pactl` that ran and failed.
pub fn failure_text(argv: &Vec<String>, stderr: &str) -> (r: String)
    ensures
        r@ == "`pactl "@ + joined(argv.deep_view(), " "@) + "` failed: "@ + trimmed(stderr@),
{
    let mut r = "`pactl ".to_owned();
    let line = join(argv, " ");
    r.append(line.as_str());
    r.append("` failed: ");
    r.append(trim(stderr));
    r
}

// ---------------------------------------------------------------------------
// Loading and unloading
// ---------------------------------------------------------------------------

/// Why a module was not loaded.
#[derive(Debug)]
pub enum LoadFailure<T> {
    /// `pactl` failed.
    Pactl(T),
    /// `pactl` printed something else than a module id, which is no number for
    /// the reason given.
    UnexpectedOutput(T, NumberError),
}

impl DeepView for LoadFailure<String> {
    type V = LoadFailure<Seq<char>>;

    open spec fn deep_view(&self) -> LoadFailure<Seq<char>> {
        match *self {
            LoadFailure::Pactl(why) => LoadFailure::Pactl(why@),
            LoadFailure::UnexpectedOutput(text, cause) => LoadFailure::UnexpectedOutput(
                text@,
                cause,
            ),
        }
    }
}

/// The id of the module that a load command loaded.
pub open spec fn loaded(reply: ReplyView) -> Result<u32, LoadFailure<Seq<char>>> {
    match reply {
        ReplyView::Output(text) => match number(trimmed(text)) {
            Some(id) => Ok(id),
            None => Err(LoadFailure::UnexpectedOutput(text, number_error(trimmed(text)))),
        },
        ReplyView::Sinks(_) => arbitrary(),
        ReplyView::Failed(why) => Err(LoadFailure::Pactl(why)),
    }
}

/// The id of the module that a load command loaded; `pactl` prints it.
pub fn loaded_id(reply: Reply) -> (r: Result<u32, LoadFailure<String>>)
    requires
        !(reply.deep_view() is Sinks),
    ensures
        match r {
            Ok(id) => loaded(reply.deep_view()) == Ok::<u32, LoadFailure<Seq<char>>>(id),
            Err(e) => loaded(reply.deep_view()) == Err::<u32, LoadFailure<Seq<char>>>(
                e.deep_view(),
            ),
        },
{
    match reply {
        Reply::Output(text) => match parse_module_id(text.as_str()) {
            Ok(id) => Ok(id),
            Err(e) => Err(LoadFailure::UnexpectedOutput(e.output, e.cause)),
        },
        Reply::Sinks(_) => Err(LoadFailure::Pactl("".to_owned())),
        Reply::Failed(why) => Err(LoadFailure::Pactl(why)),
    }
}

/// How far a checked unload of a module is.
#[derive(Debug, Clone, Copy, PartialEq, Eq, Structural)]
pub enum UnloadStage {
    /// The module is to be unloaded.
    Unloading,
    /// That failed, and the listing is to show whether it is still there.
    Verifying,
}

/// The command of a checked unload.
pub open spec fn unload_command(stage: UnloadStage, id: u32) -> Command<Seq<char>> {
    match stage {
        UnloadStage::Unloading => Command::Unload(id),
        UnloadStage::Verifying => Command::ListModules,
    }
}

/// What a reply says of the module to unload: that it is gone, that it may
/// still be there, or that the listing must tell.
pub open spec fn unload_verdict(stage: UnloadStage, id: u32, reply: ReplyView) -> Option<bool> {
    match stage {
        UnloadStage::Unloading => match reply {
            ReplyView::Failed(_) => None,
            _ => Some(true),
        },
        UnloadStage::Verifying => match reply {
            ReplyView::Output(listing) => Some(!row_ids(listing).contains(id)),
            _ => Some(false),
        },
    }
}

/// Whether a module is verifiably gone: unloaded now, or its id no longer
/// listed, as with a stale id after outside changes. `Some(false)` says that
/// it may still be alive; its id must then stay tracked, or a sink would
/// survive that nobody can manage. `None` asks for the listing.
pub fn judge_unload(stage: UnloadStage, id: u32, reply: &Reply) -> (r: Option<bool>)
    ensures
        r == unload_verdict(stage, id, reply.deep_view()),
{
    match stage {
        UnloadStage::Unloading => match reply {
            Reply::Failed(_) => None,
            _ => Some(true),
        },
        UnloadStage::Verifying => match reply {
            Reply::Output(listing) => Some(!is_listed(listing.as_str(), id)),
            _ => Some(false),
        },
    }
}

} // verus!
