//! GPU switches for the external decoder.

use vstd::prelude::*;
use crate::text::text_eq;

verus! {

/// `TRANSCRIBE_CPU` forces the CPU when it is `1`, `true` or `yes`.
pub open spec fn cpu_flag(value: Option<Seq<char>>) -> bool {
    match value {
        Some(v) => v == "1"@ || v == "true"@ || v == "yes"@,
        None => false,
    }
}

/// Whether the value of `TRANSCRIBE_CPU` (if set) turns the GPU off.
pub fn gpu_disabled_by(value: Option<&str>) -> (r: bool)
    ensures
        r == cpu_flag(
            match value {
                Some(v) => Some(v@),
                None => None,
            },
        ),
{
    match value {
        Some(v) => text_eq(v, "1") || text_eq(v, "true") || text_eq(v, "yes"),
        None => false,
    }
}

/// The `ffmpeg` arguments that select CUDA decoding: none when the GPU is
/// disabled, otherwise `-hwaccel cuda`.
pub fn ffmpeg_hwaccel_args(gpu_disabled: bool) -> (r: Vec<&'static str>)
    ensures
        gpu_disabled ==> r@.len() == 0,
        !gpu_disabled ==> r@.len() == 2 && r@[0]@ == "-hwaccel"@ && r@[1]@ == "cuda"@,
{
    if gpu_disabled {
        return Vec::new();
    }
    let mut v: Vec<&'static str> = Vec::new();
    v.push("-hwaccel");
    v.push("cuda");
    v
}

} // verus!
