//! Volume and mute of one sink.

use vstd::prelude::*;
use crate::text::{append_all, flat, in_context};
use crate::linux::pactl::Command;
use crate::volume::{Volume, SIGN_BIT};

verus! {

/// How a volume that is no finite number reads.
pub open spec fn not_finite_text(volume: Volume) -> Seq<char> {
    if !volume.is_number() {
        "NaN"@
    } else if volume.bits >= SIGN_BIT {
        "-inf"@
    } else {
        "inf"@
    }
}

/// The command that sets the volume of a sink, moved into 0.0 to 1.0, unless
/// the volume is no finite number.
pub fn set_volume(id: &str, volume: Volume) -> (r: Result<Command<String>, String>)
    ensures
        match r {
            Ok(command) => volume.finite() && command.deep_view() == Command::SetVolume(
                id@,
                volume.in_unit(),
            ),
            Err(why) => !volume.finite() && why@ == flat(
                seq!["volume must be a finite number, got "@, not_finite_text(volume)],
            ),
        },
{
    if volume.is_finite() {
        Ok(Command::SetVolume(id.to_owned(), volume.clamp_unit()))
    } else {
        let text = if !volume.is_a_number() {
            "NaN"
        } else if volume.bits >= SIGN_BIT {
            "-inf"
        } else {
            "inf"
        };
        Err(in_context("volume must be a finite number, got ", text))
    }
}

/// What is said of a volume that was not set.
pub fn volume_failure(id: &str, why: &str) -> (r: String)
    ensures
        r@ == flat(seq!["failed to set volume of '"@, id@, "': "@, why@]),
{
    let parts = ["failed to set volume of '", id, "': ", why];
    assert(parts.deep_view() =~= seq!["failed to set volume of '"@, id@, "': "@, why@]);
    append_all(&parts)
}

/// The command that mutes a sink or lifts its mute.
pub fn set_muted(id: &str, muted: bool) -> (command: Command<String>)
    ensures
        command.deep_view() == Command::SetMute(id@, muted),
{
    Command::SetMute(id.to_owned(), muted)
}

/// What is said of a mute that was not set.
pub fn mute_failure(id: &str, why: &str) -> (r: String)
    ensures
        r@ == flat(seq!["failed to set mute of '"@, id@, "': "@, why@]),
{
    let parts = ["failed to set mute of '", id, "': ", why];
    assert(parts.deep_view() =~= seq!["failed to set mute of '"@, id@, "': "@, why@]);
    append_all(&parts)
}

/// How a volume that is no finite number reads, by its bits: either infinity by
/// its sign, and what is no number at all.
pub proof fn lemma_how_what_is_not_finite_reads(volume: Volume)
    ensures
        volume.bits == 0x7f80_0000 ==> not_finite_text(volume) == "inf"@,
        volume.bits == 0xff80_0000 ==> not_finite_text(volume) == "-inf"@,
        volume.bits % 0x8000_0000 > 0x7f80_0000 ==> not_finite_text(volume) == "NaN"@,
{
}

} // verus!
