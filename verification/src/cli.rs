//! What the command line asks for, and the decisions it takes before and
//! around transcribing: which files exist, which model to load, where the
//! outputs go, and whether speakers get tagged.

use vstd::prelude::*;
use crate::output::{Segment, TimedWord};
use crate::paths::{joined_path, path_join, path_with_ext, path_with_extension};
use crate::text::{push_str, string_of};

verus! {

/// Arguments of `run` (also the default command).
pub struct RunArgs {
    pub path: String,
    pub force: bool,
    pub model: String,
    pub models_dir: Option<String>,
    pub coop: bool,
    pub no_speakers: bool,
    pub terms: Option<String>,
    pub project: Option<String>,
}

/// Arguments of `clip`.
pub struct ClipArgs {
    pub path: String,
    pub force: bool,
    pub model: String,
    pub models_dir: Option<String>,
    pub terms: Option<String>,
    pub prompt: Option<String>,
    pub output: Option<String>,
}

/// Arguments of `clip-batch`.
pub struct ClipBatchArgs {
    pub manifest: String,
    pub model: String,
    pub models_dir: Option<String>,
}

/// The `project` subcommands.
pub enum ProjectCommands {
    Init { name: String, path: String, models_dir: Option<String> },
    List,
    Use { name: String },
    Show,
}

/// Arguments of `project`.
pub struct ProjectCli {
    pub command: ProjectCommands,
}

/// What one transcription pass produced.
pub struct TranscribeOutput {
    pub segments: Vec<Segment>,
    pub words: Vec<TimedWord>,
}

/// `ggml-<model>.bin`, the file of a Whisper model.
pub open spec fn model_file(model: Seq<char>) -> Seq<char> {
    "ggml-"@ + model + ".bin"@
}

/// The file name of the Whisper model `model`.
pub fn model_file_name(model: &str) -> (r: String)
    ensures
        r@ == model_file(model@),
{
    let mut out: Vec<char> = Vec::new();
    push_str(&mut out, "ggml-");
    push_str(&mut out, model);
    push_str(&mut out, ".bin");
    string_of(&out)
}

/// The path of the Whisper model `model` in `models_dir`.
pub fn model_path(models_dir: &str, model: &str) -> (r: String)
    ensures
        r@ == joined_path(models_dir@, model_file(model@)),
{
    let name = model_file_name(model);
    path_join(models_dir, name.as_str())
}

/// The probe `is_file` answered `answer` for a path with text `path`.
pub open spec fn probed<F: Fn(&str) -> bool>(is_file: F, path: Seq<char>, answer: bool) -> bool {
    exists|s: &str| s@ == path && is_file.ensures((s,), answer)
}

/// The first voice-activity model in `models_dir` that `is_file` reports
/// present: the newer one, else the older one, else none.
pub fn find_vad_model<F: Fn(&str) -> bool>(models_dir: &str, is_file: F) -> (r: Option<String>)
    requires
        forall|p: &str| is_file.requires((p,)),
    ensures
        ({
            let newer = joined_path(models_dir@, "ggml-silero-v6.2.0.bin"@);
            let older = joined_path(models_dir@, "ggml-silero-v5.1.2.bin"@);
            match r {
                Some(p) => (p@ == newer && probed(is_file, newer, true)) || (p@ == older
                    && probed(is_file, newer, false) && probed(is_file, older, true)),
                None => probed(is_file, newer, false) && probed(is_file, older, false),
            }
        }),
{
    let newer = path_join(models_dir, "ggml-silero-v6.2.0.bin");
    let found_newer = is_file(newer.as_str());
    if found_newer {
        return Some(newer);
    }
    let older = path_join(models_dir, "ggml-silero-v5.1.2.bin");
    let found_older = is_file(older.as_str());
    if found_older {
        return Some(older);
    }
    None
}


/// The files transcribing a video writes next to it.
pub struct TranscriptPaths {
    pub txt: String,
    pub srt: String,
    pub words: String,
    pub ass: String,
}

/// The video's path without its extension; the outputs are named from it.
pub open spec fn video_stem(video: Seq<char>) -> Seq<char> {
    path_with_ext(video, ""@)
}

/// The transcript files of `video`: its stem with the extensions `txt`,
/// `srt`, `words.json` and `ass`.
pub fn transcript_paths(video: &str) -> (r: TranscriptPaths)
    ensures
        r.txt@ == path_with_ext(video_stem(video@), "txt"@),
        r.srt@ == path_with_ext(video_stem(video@), "srt"@),
        r.words@ == path_with_ext(video_stem(video@), "words.json"@),
        r.ass@ == path_with_ext(video_stem(video@), "ass"@),
{
    proof {
        reveal_strlit("");
        reveal_strlit("txt");
        reveal_strlit("srt");
        reveal_strlit("words.json");
        reveal_strlit("ass");
    }
    let stem = path_with_extension(video, "");
    TranscriptPaths {
        txt: path_with_extension(stem.as_str(), "txt"),
        srt: path_with_extension(stem.as_str(), "srt"),
        words: path_with_extension(stem.as_str(), "words.json"),
        ass: path_with_extension(stem.as_str(), "ass"),
    }
}

/// `r` is what `outputs_exist` answers for `video` when the probe
/// `is_file` reports the transcript, the subtitles and the timed words (and
/// with speakers the styled subtitles, asked only when the rest are there).
pub open spec fn outputs_answer<F: Fn(&str) -> bool>(
    is_file: F,
    video: Seq<char>,
    with_speakers: bool,
    r: bool,
) -> bool {
    let stem = video_stem(video);
    exists|t: bool, s: bool, w: bool|
        {
            &&& probed(is_file, path_with_ext(stem, "txt"@), t)
            &&& probed(is_file, path_with_ext(stem, "srt"@), s)
            &&& probed(is_file, path_with_ext(stem, "words.json"@), w)
            &&& if with_speakers && t && s && w {
                exists|a: bool| probed(is_file, path_with_ext(stem, "ass"@), a) && r == a
            } else {
                r == (t && s && w && !with_speakers)
            }
        }
}

/// Whether a video's outputs are all there: the transcript, the subtitles
/// and the timed words, and with speakers also the styled subtitles.
pub fn outputs_exist<F: Fn(&str) -> bool>(video: &str, with_speakers: bool, is_file: F) -> (r:
    bool)
    requires
        forall|p: &str| is_file.requires((p,)),
    ensures
        outputs_answer(is_file, video@, with_speakers, r),
{
    let paths = transcript_paths(video);
    let txt = is_file(paths.txt.as_str());
    let srt = is_file(paths.srt.as_str());
    let words = is_file(paths.words.as_str());
    let ghost stem = video_stem(video@);
    assert(probed(is_file, path_with_ext(stem, "txt"@), txt));
    assert(probed(is_file, path_with_ext(stem, "srt"@), srt));
    assert(probed(is_file, path_with_ext(stem, "words.json"@), words));
    if with_speakers {
        if txt && srt && words {
            let ass = is_file(paths.ass.as_str());
            assert(probed(is_file, path_with_ext(video_stem(video@), "ass"@), ass));
            ass
        } else {
            false
        }
    } else {
        txt && srt && words
    }
}

/// The key-terms file for a video: the one given, else `<video>.terms.txt`
/// (the video's extension replaced).
pub fn resolve_terms_path(video: &str, cli_terms: Option<&str>) -> (r: String)
    ensures
        r@ == match cli_terms {
            Some(t) => t@,
            None => path_with_ext(video@, "terms.txt"@),
        },
{
    match cli_terms {
        Some(t) => t.to_owned(),
        None => {
            proof {
                reveal_strlit("terms.txt");
            }
            path_with_extension(video, "terms.txt")
        },
    }
}

/// Where `clip` writes its timed words: the given output, else the clip's
/// path with the extension `words.json`.
pub fn clip_output_path(clip: &str, output: Option<&str>) -> (r: String)
    ensures
        r@ == match output {
            Some(o) => o@,
            None => path_with_ext(clip@, "words.json"@),
        },
{
    match output {
        Some(o) => o.to_owned(),
        None => {
            proof {
                reveal_strlit("words.json");
            }
            path_with_extension(clip, "words.json")
        },
    }
}

/// Whether speakers get tagged in a run, and what to warn about if not.
pub enum SpeakerPlan {
    /// Tag speakers from the voice profiles.
    Tag,
    /// `--coop` was asked for but the project has no `profiles.json`.
    NoProfiles,
    /// `--coop` was asked for without an active project.
    NoProject,
    /// Speakers were not asked for.
    Off,
}

/// Speakers are tagged when `--coop` is set, `--no-speakers` is not, and
/// the voices directory has a `profiles.json`; otherwise a `--coop` run
/// warns why it goes without.
pub fn speaker_plan(coop: bool, no_speakers: bool, profiles_present: bool, has_project: bool) -> (r:
    SpeakerPlan)
    ensures
        r is Tag <==> coop && !no_speakers && profiles_present,
        r is NoProfiles <==> coop && !no_speakers && !profiles_present && has_project,
        r is NoProject <==> coop && !no_speakers && !profiles_present && !has_project,
        r is Off <==> !coop || no_speakers,
{
    if coop && !no_speakers && profiles_present {
        SpeakerPlan::Tag
    } else if coop && !no_speakers && has_project {
        SpeakerPlan::NoProfiles
    } else if coop && !no_speakers {
        SpeakerPlan::NoProject
    } else {
        SpeakerPlan::Off
    }
}

} // verus!
