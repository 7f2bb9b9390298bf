//! What the backend says when something fails, from the outermost context in.

use vstd::prelude::*;
use crate::linux::cleanup::CleanupError;
use crate::linux::pactl::LoadFailure;
use crate::linux::routing::RoutingError;
use crate::linux::startup::StartupError;
use crate::text::{
    append_all, decimal, decimal_string, flat, in_context, number_text, NumberError,
};
use crate::text_laws::{lemma_four_texts, lemma_three_texts, lemma_two_texts};

verus! {

/// A text in quotes, with its special characters escaped, as the `Debug` of
/// `str` writes it.
pub uninterp spec fn quoted(s: Seq<char>) -> Seq<char>;

/// `format!` with `{:?}` writes a `str` by its `Debug` impl: in quotes, and
/// with special characters escaped. That depends on the text alone; which
/// characters are escaped and how is not said here.
#[verifier::external_body]
fn debug_quoted(s: &str) -> (r: String)
    ensures
        r@ == quoted(s@),
{
    format!("{s:?}")
}

/// What is said of a module that was not loaded.
pub open spec fn load_text(why: LoadFailure<Seq<char>>) -> Seq<char> {
    match why {
        LoadFailure::Pactl(why) => why,
        LoadFailure::UnexpectedOutput(output, cause) => flat(
            seq![
                "unexpected `pactl load-module` output: "@,
                quoted(output),
                ": "@,
                number_text(cause),
            ],
        ),
    }
}

impl LoadFailure<String> {
    /// What is said of it.
    pub fn message(&self) -> (r: String)
        ensures
            r@ == load_text(self.deep_view()),
    {
        match self {
            LoadFailure::Pactl(why) => why.clone(),
            LoadFailure::UnexpectedOutput(output, cause) => {
                let output = debug_quoted(output.as_str());
                let cause = cause.message();
                let parts = [
                    "unexpected `pactl load-module` output: ",
                    output.as_str(),
                    ": ",
                    cause,
                ];
                assert(parts.deep_view() =~= seq![
                    "unexpected `pactl load-module` output: "@,
                    output@,
                    ": "@,
                    cause@,
                ]);
                append_all(&parts)
            },
        }
    }
}

/// What is said of a sink that did not become the default.
pub open spec fn default_text(sink: Seq<char>, why: Seq<char>) -> Seq<char> {
    flat(seq!["failed to make '"@, sink, "' the default sink: "@, why])
}

fn default_message(sink: &str, why: &str) -> (r: String)
    ensures
        r@ == default_text(sink@, why@),
{
    let parts = ["failed to make '", sink, "' the default sink: ", why];
    assert(parts.deep_view() =~= seq![
        "failed to make '"@,
        sink@,
        "' the default sink: "@,
        why@,
    ]);
    append_all(&parts)
}

/// What is said of a routing that failed.
pub open spec fn routing_text(why: RoutingError<Seq<char>>) -> Seq<char> {
    match why {
        RoutingError::Listing(why) => why,
        RoutingError::NullStuck(id) => flat(
            seq![
                "null-sink module #"@,
                decimal(id as nat),
                " is defunct but cannot be unloaded; refusing to load a same-named duplicate"@,
            ],
        ),
        RoutingError::Load(why) => load_text(why),
        RoutingError::Blocked(why) => flat(
            seq![
                "could not load a replacement combine sink, and the existing one could not be unloaded to retry: "@,
                load_text(why),
            ],
        ),
        RoutingError::FellBack(why) => flat(
            seq![
                "failed to rebuild the combined sink; fell back to a single device: "@,
                load_text(why),
            ],
        ),
        RoutingError::OldStuck(id) => flat(
            seq![
                "could not replace combine sink: old module #"@,
                decimal(id as nat),
                " would not unload"@,
            ],
        ),
        RoutingError::Default(sink, why) => default_text(sink, why),
    }
}

fn of_module(front: &str, id: u32, back: &str) -> (r: String)
    ensures
        r@ == flat(seq![front@, decimal(id as nat), back@]),
{
    let number = decimal_string(id as u64);
    let parts = [front, number.as_str(), back];
    assert(parts.deep_view() =~= seq![front@, number@, back@]);
    append_all(&parts)
}

impl RoutingError<String> {
    /// What is said of it.
    pub fn message(&self) -> (r: String)
        ensures
            r@ == routing_text(self.deep_view()),
    {
        match self {
            RoutingError::Listing(why) => why.clone(),
            RoutingError::NullStuck(id) => of_module(
                "null-sink module #",
                *id,
                " is defunct but cannot be unloaded; refusing to load a same-named duplicate",
            ),
            RoutingError::Load(why) => why.message(),
            RoutingError::Blocked(why) => {
                let cause = why.message();
                in_context(
                    "could not load a replacement combine sink, and the existing one could not be unloaded to retry: ",
                    cause.as_str(),
                )
            },
            RoutingError::FellBack(why) => {
                let cause = why.message();
                in_context(
                    "failed to rebuild the combined sink; fell back to a single device: ",
                    cause.as_str(),
                )
            },
            RoutingError::OldStuck(id) => of_module(
                "could not replace combine sink: old module #",
                *id,
                " would not unload",
            ),
            RoutingError::Default(sink, why) => default_message(sink.as_str(), why.as_str()),
        }
    }
}

/// What is said of a backend that did not come up.
pub open spec fn startup_text(why: StartupError<Seq<char>>) -> Seq<char> {
    match why {
        StartupError::Unreachable(why) => flat(
            seq!["cannot reach the PulseAudio/PipeWire sound server: "@, why],
        ),
        StartupError::Pactl(why) => why,
    }
}

impl StartupError<String> {
    /// What is said of it.
    pub fn message(&self) -> (r: String)
        ensures
            r@ == startup_text(self.deep_view()),
    {
        match self {
            StartupError::Unreachable(why) => in_context(
                "cannot reach the PulseAudio/PipeWire sound server: ",
                why.as_str(),
            ),
            StartupError::Pactl(why) => why.clone(),
        }
    }
}

/// What is said of the trouble that a cleanup met.
pub open spec fn trouble_text(why: CleanupError<Seq<char>>) -> Seq<char> {
    match why {
        CleanupError::Pactl(why) => why,
        CleanupError::Default(sink, why) => default_text(sink, why),
    }
}

/// What is said of a cleanup that met trouble.
pub open spec fn cleanup_text(why: CleanupError<Seq<char>>) -> Seq<char> {
    flat(seq!["cleanup left the audio setup partially restored: "@, trouble_text(why)])
}

impl CleanupError<String> {
    /// What is said of it.
    pub fn message(&self) -> (r: String)
        ensures
            r@ == cleanup_text(self.deep_view()),
    {
        let cause = match self {
            CleanupError::Pactl(why) => why.clone(),
            CleanupError::Default(sink, why) => default_message(sink.as_str(), why.as_str()),
        };
        in_context("cleanup left the audio setup partially restored: ", cause.as_str())
    }
}

/// What is said of a module that was not loaded: what `pactl` said, or what it
/// printed and why that is no number.
pub proof fn lemma_what_is_said_of_a_load(
    why: Seq<char>,
    output: Seq<char>,
    cause: NumberError,
)
    ensures
        load_text(LoadFailure::Pactl(why)) == why,
        load_text(LoadFailure::UnexpectedOutput(output, cause))
            == "unexpected `pactl load-module` output: "@ + quoted(output) + ": "@ + number_text(
            cause,
        ),
        number_text(NumberError::Empty) == "cannot parse integer from empty string"@,
        number_text(NumberError::InvalidDigit) == "invalid digit found in string"@,
        number_text(NumberError::TooLarge) == "number too large to fit in target type"@,
{
    lemma_four_texts(
        "unexpected `pactl load-module` output: "@,
        quoted(output),
        ": "@,
        number_text(cause),
    );
}

/// What is said of a routing that failed: each kind of failure has its own
/// words, with the id, the sink and the reason that belong to it.
pub proof fn lemma_what_is_said_of_a_routing(
    why: Seq<char>,
    id: u32,
    sink: Seq<char>,
    cause: LoadFailure<Seq<char>>,
)
    ensures
        routing_text(RoutingError::Listing(why)) == why,
        routing_text(RoutingError::NullStuck(id)) == "null-sink module #"@ + decimal(id as nat)
            + " is defunct but cannot be unloaded; refusing to load a same-named duplicate"@,
        routing_text(RoutingError::Load(cause)) == load_text(cause),
        routing_text(RoutingError::Blocked(cause))
            == "could not load a replacement combine sink, and the existing one could not be unloaded to retry: "@
            + load_text(cause),
        routing_text(RoutingError::FellBack(cause))
            == "failed to rebuild the combined sink; fell back to a single device: "@ + load_text(
            cause,
        ),
        routing_text(RoutingError::OldStuck(id)) == "could not replace combine sink: old module #"@
            + decimal(id as nat) + " would not unload"@,
        routing_text(RoutingError::Default(sink, why)) == "failed to make '"@ + sink
            + "' the default sink: "@ + why,
{
    lemma_three_texts(
        "null-sink module #"@,
        decimal(id as nat),
        " is defunct but cannot be unloaded; refusing to load a same-named duplicate"@,
    );
    lemma_two_texts(
        "could not load a replacement combine sink, and the existing one could not be unloaded to retry: "@,
        load_text(cause),
    );
    lemma_two_texts(
        "failed to rebuild the combined sink; fell back to a single device: "@,
        load_text(cause),
    );
    lemma_three_texts(
        "could not replace combine sink: old module #"@,
        decimal(id as nat),
        " would not unload"@,
    );
    lemma_four_texts("failed to make '"@, sink, "' the default sink: "@, why);
}

/// What is said of a backend that did not come up, and of a cleanup that met
/// trouble.
pub proof fn lemma_what_is_said_of_beginning_and_end(why: Seq<char>, sink: Seq<char>)
    ensures
        startup_text(StartupError::Unreachable(why))
            == "cannot reach the PulseAudio/PipeWire sound server: "@ + why,
        startup_text(StartupError::Pactl(why)) == why,
        cleanup_text(CleanupError::Pactl(why))
            == "cleanup left the audio setup partially restored: "@ + why,
        cleanup_text(CleanupError::Default(sink, why))
            == "cleanup left the audio setup partially restored: "@ + ("failed to make '"@ + sink
            + "' the default sink: "@ + why),
{
    lemma_two_texts("cannot reach the PulseAudio/PipeWire sound server: "@, why);
    lemma_two_texts("cleanup left the audio setup partially restored: "@, why);
    lemma_four_texts("failed to make '"@, sink, "' the default sink: "@, why);
    lemma_two_texts(
        "cleanup left the audio setup partially restored: "@,
        default_text(sink, why),
    );
}

} // verus!
