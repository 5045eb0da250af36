//! The long-form command reference behind `transcribe help [TOPIC]`.

use vstd::prelude::*;
use crate::text::{string_of, text_eq};

verus! {

pub const GENERAL: &'static str = "Episode Transcribe — batch MP4 transcriber with optional speaker tagging.

USAGE
  transcribe [PATH]                 Transcribe MP4s in PATH (default: current directory)
  transcribe run [PATH]             Same as above
  transcribe <command> [args...]

GLOBAL BEHAVIOUR
  • Source folder = where you run the command (usually cwd).
  • Models live in transcribe/models/ or ~/.transcribe/models/ (not beside MP4s).
  • Project registry: ~/.transcribe/projects.db

TOPICS
  transcribe help project
  transcribe help profiles
  transcribe help run
  transcribe help models
  transcribe help install

OTHER
  transcribe --version
  transcribe uninstall [--purge] [-y]
";

pub const PROJECT: &'static str = "PROJECT — register campaigns and track progress

  transcribe project init <NAME> [--path DIR] [--models-dir DIR]
      Register a folder of episode MP4s. Creates voices/ under the campaign.
      Sets this project as active. Models default to the shared models directory.

  transcribe project list
      List registered projects (* = active).

  transcribe project use <NAME>
      Set the active project (voice profiles path).

  transcribe project show
      Active project: root, voices, models, label progress, episode counts.

EXAMPLE
  cd /path/to/campaign
  transcribe project init my-table
";

pub const PROFILES: &'static str = "PROFILES — speaker diarization and labeling

  transcribe profiles build [PATH] [options]
      Sample MP4s, diarize speakers, write voices/profiles.json.
      --sample-minutes <N>   Audio to sample per episode (default: 18)
      --expected-speakers <N>  Hint for diarization (default: 8)
      --force                Rebuild from scratch
      --project <NAME>       Voice output project (default: active)
      --models-dir <DIR>     Override model location

  transcribe profiles list
      List profile ids, labels, colors, clip paths.

  transcribe profiles label [options]
      Interactive naming; plays clip WAVs in the terminal.
      --profile <ID>         Label one profile only
      --no-play              Skip audio playback
      --project <NAME>

  transcribe profiles review
      Regenerate voices/review.html for browser review.

EXAMPLE
  transcribe profiles build --sample-minutes 2 --force
  transcribe profiles label
";

pub const RUN: &'static str = "RUN — transcribe episodes to .txt / .srt / .ass

  transcribe run [PATH] [options]
  transcribe clip <CLIP> [options]     vod-guru clip re-transcribe (GPU Whisper)
  transcribe [PATH] [options]          (shorthand)

      PATH    File or folder of .mp4 files (default: .)

  -f, --force              Re-transcribe even if outputs exist
  -m, --model <NAME>       Whisper model: large-v3, medium, base, ... (default: large-v3)
      --models-dir <DIR>   GGML + sherpa models folder
      --coop               Co-op stream: tag speakers when voice profiles exist
      --no-speakers        Skip speaker tagging (overrides --coop)
      --terms <FILE>       Key terms file (default: <video>.terms.txt beside source)
      --project <NAME>     Use registered project's voices/ for --coop tagging

OUTPUT (next to each video)
  Episode.txt         Plain transcript
  Episode.srt         Subtitles
  Episode.words.json  Timed words (vod-guru ideation sidecar)
  Episode.ass         Styled subtitles (when --coop speakers enabled)
  Episode.terms.txt   Optional key terms (read automatically when present)

CLIP (vod-guru prepare-review)
  transcribe clip <review.mp4> [options]

      --model <NAME>       Whisper model (default: small)
      --output <FILE>      Timed words path (default: <clip>.words.json)
      --terms <FILE>       Key terms file
      --prompt <TEXT>      Inline key terms (comma-separated)
      --models-dir <DIR>   GGML models folder
  -f, --force              Re-transcribe even if output exists

CLIP-BATCH (vod-guru prepare-reviews-batch)
  transcribe clip-batch --manifest <jobs.json> [options]

      Manifest JSON array:
        [{ \"clip\": \"review/foo.mp4\", \"output\": \"review/foo.words.json\",
           \"prompt\": \"term1, term2\", \"force\": false }, ...]

      --model <NAME>       Whisper model (default: small)
      --models-dir <DIR>   GGML models folder

  One CUDA Whisper load for all jobs. Skips outputs that already exist unless force.

  Uses CUDA when transcribe is built with the cuda feature (default).
  Set TRANSCRIBE_CPU=1 to force CPU Whisper; TRANSCRIBE_ONNX_PROVIDER for sherpa.

EXAMPLE
  cd /path/to/campaign
  transcribe run .
  transcribe run . --model base --project my-table
";

pub const MODELS: &'static str = "MODELS — download once, shared across campaigns

  Default search order:
    1. TRANSCRIBE_MODELS_DIR environment variable
    2. models/ next to installed transcribe binary
    3. transcribe/models/ beside your campaign (sibling repo layout)
    4. ~/.transcribe/models/

  Required (Whisper)
    ggml-large-v3.bin Recommended for vod-guru intake (default --model large-v3)
    ggml-medium.bin   https://huggingface.co/ggerganov/whisper.cpp/tree/main
    ggml-base.bin     (faster, lower quality; use --model base)

  Optional (VAD)
    ggml-silero-v6.2.0.bin

  Required for speaker tagging
    sherpa-onnx-pyannote-segmentation-3-0/model.onnx
    wespeaker_en_voxceleb_resnet34_LM.onnx

  See models/README.md in the repository for direct links.
";

pub const INSTALL: &'static str = "INSTALL / UNINSTALL

  Windows (GPU, recommended)
    powershell -ExecutionPolicy Bypass -File scripts/install.ps1

  Windows (CPU only)
    powershell -ExecutionPolicy Bypass -File scripts/install.ps1 -CpuOnly

  Linux / macOS
    ./scripts/install.sh [--cpu-only]

  Cargo
    cargo install --path . --locked

  Uninstall
    transcribe uninstall              Remove binary + PATH entry
    transcribe uninstall --purge -y   Also delete ~/.transcribe registry
    scripts/uninstall.ps1             Same (Windows, if CLI missing)
    scripts/uninstall.sh              Same (Unix)

  Tests
    cargo test                        Unit + CLI smoke tests (bundled test/sample.mp4)
    cargo test -- --ignored           Full e2e (requires models)
";

/// `char::to_ascii_lowercase`: `A`..`Z` become `a`..`z`, all else stays.
pub open spec fn ascii_lower_char(c: char) -> char {
    if 0x41 <= (c as u32) <= 0x5A {
        ((c as u32) + 32) as char
    } else {
        c
    }
}

/// `str::to_ascii_lowercase`.
pub open spec fn ascii_lower(s: Seq<char>) -> Seq<char> {
    s.map_values(|c: char| ascii_lower_char(c))
}

/// A character with ASCII capitals made small.
fn lower_ascii_char(c: char) -> (r: char)
    ensures
        r == ascii_lower_char(c),
{
    let v = c as u32;
    if 0x41 <= v && v <= 0x5A {
        let b: u8 = (v + 32) as u8;
        b as char
    } else {
        c
    }
}

fn to_ascii_lowercase(s: &str) -> (r: String)
    ensures
        r@ == ascii_lower(s@),
{
    let mut out: Vec<char> = Vec::new();
    for c in it: s.chars()
        invariant
            it.seq() == s@,
            out@ == ascii_lower(s@.take(it.index() as int)),
    {
        let ghost i = it.index();
        out.push(lower_ascii_char(c));
        assert(ascii_lower(s@.take(i + 1)) == ascii_lower(s@.take(i as int)).push(
            ascii_lower_char(c),
        ));
    }
    assert(s@.take(s@.len() as int) == s@);
    string_of(&out)
}

/// The reference page for a help topic, named case-insensitively; `None`
/// when the topic is unknown.
pub open spec fn topic_page(t: Seq<char>) -> Option<Seq<char>> {
    let l = ascii_lower(t);
    if l == "project"@ || l == "projects"@ {
        Some(PROJECT@)
    } else if l == "profile"@ || l == "profiles"@ || l == "voice"@ || l == "voices"@ {
        Some(PROFILES@)
    } else if l == "run"@ || l == "transcribe"@ {
        Some(RUN@)
    } else if l == "model"@ || l == "models"@ {
        Some(MODELS@)
    } else if l == "install"@ || l == "uninstall"@ {
        Some(INSTALL@)
    } else {
        None
    }
}

/// What `help` shows: the page of the topic, the general page when no topic
/// is given, and the general page with `unknown` set for an unknown topic.
pub struct HelpPage {
    pub text: &'static str,
    pub unknown: bool,
}

/// The help page for `topic`.
pub fn help_page(topic: Option<&str>) -> (r: HelpPage)
    ensures
        topic matches Some(t) && (ascii_lower(t@) == "project"@ || ascii_lower(t@) == "projects"@)
            ==> r.text@ == PROJECT@ && !r.unknown,
        topic matches Some(t) && (ascii_lower(t@) == "profile"@ || ascii_lower(t@) == "profiles"@
            || ascii_lower(t@) == "voice"@ || ascii_lower(t@) == "voices"@) ==> r.text@
            == PROFILES@ && !r.unknown,
        topic matches Some(t) && (ascii_lower(t@) == "run"@ || ascii_lower(t@) == "transcribe"@)
            ==> r.text@ == RUN@ && !r.unknown,
        topic matches Some(t) && (ascii_lower(t@) == "model"@ || ascii_lower(t@) == "models"@)
            ==> r.text@ == MODELS@ && !r.unknown,
        topic matches Some(t) && (ascii_lower(t@) == "install"@ || ascii_lower(t@) == "uninstall"@)
            ==> r.text@ == INSTALL@ && !r.unknown,
        match topic {
            None => r.text@ == GENERAL@ && !r.unknown,
            Some(t) => match topic_page(t@) {
                Some(page) => r.text@ == page && !r.unknown,
                None => r.text@ == GENERAL@ && r.unknown,
            },
        },
{
    let t = match topic {
        None => {
            return HelpPage { text: GENERAL, unknown: false };
        },
        Some(t) => t,
    };
    proof {
        reveal_strlit("project");
        reveal_strlit("projects");
        reveal_strlit("profile");
        reveal_strlit("profiles");
        reveal_strlit("voice");
        reveal_strlit("voices");
        reveal_strlit("run");
        reveal_strlit("transcribe");
        reveal_strlit("model");
        reveal_strlit("models");
        reveal_strlit("install");
        reveal_strlit("uninstall");
        assert("project"@[0] == 'p' && "projects"@[0] == 'p');
        assert("project"@[3] == 'j' && "projects"@[3] == 'j');
        assert("profile"@[3] == 'f' && "profiles"@[3] == 'f');
        assert("voice"@[0] == 'v' && "voices"@[0] == 'v');
        assert("run"@[0] == 'r' && "transcribe"@[0] == 't');
        assert("model"@[0] == 'm' && "models"@[0] == 'm');
        assert("install"@[0] == 'i' && "uninstall"@[0] == 'u');
        assert("profile"@[0] == 'p' && "profiles"@[0] == 'p');
    }
    let lower = to_ascii_lowercase(t);
    let l = lower.as_str();
    if text_eq(l, "project") || text_eq(l, "projects") {
        HelpPage { text: PROJECT, unknown: false }
    } else if text_eq(l, "profile") || text_eq(l, "profiles") || text_eq(l, "voice") || text_eq(
        l,
        "voices",
    ) {
        HelpPage { text: PROFILES, unknown: false }
    } else if text_eq(l, "run") || text_eq(l, "transcribe") {
        HelpPage { text: RUN, unknown: false }
    } else if text_eq(l, "model") || text_eq(l, "models") {
        HelpPage { text: MODELS, unknown: false }
    } else if text_eq(l, "install") || text_eq(l, "uninstall") {
        HelpPage { text: INSTALL, unknown: false }
    } else {
        HelpPage { text: GENERAL, unknown: true }
    }
}

} // verus!
