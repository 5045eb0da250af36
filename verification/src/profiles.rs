//! Speaker voice profiles: the store, its bookkeeping, and the helpers
//! that turn a profile into subtitle styling.

use vstd::prelude::*;
use vstd::string::StringSliceAdditionalSpecFns;
use crate::paths::{joined_path, path_join};
use crate::terms::string_views;
use crate::text::{
    decimal, hex2_upper, hex_value, hex_value_of, is_ascii_alnum, is_ascii_text, is_ws, join,
    lemma_join_push, push_decimal, push_hex2, push_padded, push_str, string_of, text_eq, zero_pad,
};

verus! {

/// A profile never keeps more embeddings than this.
pub const MAX_EMBEDDINGS_PER_PROFILE: usize = 20;

/// File name of the profile store inside a voices directory.
pub const PROFILES_FILE: &'static str = "profiles.json";

/// File name of the build checkpoint inside a voices directory.
pub const BUILD_STATE_FILE: &'static str = "build_state.json";

/// One speaker: an id, an optional display name, a colour and the voice
/// embeddings it was built from. Each embedding value is kept as the bit
/// pattern of its `f32` (`f32::to_bits`), so the store holds plain integers.
pub struct VoiceProfile {
    pub id: String,
    pub name: Option<String>,
    pub color: String,
    pub labeled: bool,
    pub embeddings: Vec<Vec<u32>>,
    pub clips: Vec<String>,
}

/// All speaker profiles of a project. `match_threshold_bits` is the bit
/// pattern of the `f32` similarity threshold used for matching.
pub struct ProfileStore {
    pub default_speaker: String,
    pub match_threshold_bits: u32,
    pub profiles: Vec<VoiceProfile>,
}

/// Which episodes a profile build has already processed.
pub struct BuildState {
    pub completed_episodes: Vec<String>,
}

/// Bit pattern of the `f32` value 0.55, the threshold of a fresh store.
pub const DEFAULT_MATCH_THRESHOLD_BITS: u32 = 0x3F0C_CCCD;

impl ProfileStore {
    /// The store used when a voices directory has no `profiles.json` yet:
    /// default speaker `DM`, threshold 0.55, no profiles.
    pub fn empty_store() -> (s: ProfileStore)
        ensures
            s.default_speaker@ == "DM"@,
            s.match_threshold_bits == DEFAULT_MATCH_THRESHOLD_BITS,
            s.profiles@.len() == 0,
    {
        ProfileStore {
            default_speaker: "DM".to_owned(),
            match_threshold_bits: DEFAULT_MATCH_THRESHOLD_BITS,
            profiles: Vec::new(),
        }
    }

    /// `profile_NN`: the id the next new profile gets.
    pub open spec fn spec_next_id(n: nat) -> Seq<char> {
        "profile_"@ + zero_pad(decimal(n), 2)
    }

    /// The id for the next profile: `profile_` and the profile count,
    /// zero-padded to two digits.
    pub fn next_profile_id(&self) -> (id: String)
        ensures
            id@ == Self::spec_next_id(self.profiles@.len()),
    {
        let mut out: Vec<char> = Vec::new();
        push_str(&mut out, "profile_");
        push_padded(&mut out, self.profiles.len() as u64, 2);
        string_of(&out)
    }

    /// The name a profile is shown under: its name, else its id.
    pub open spec fn spec_display_name(p: VoiceProfile) -> Seq<char> {
        match p.name {
            Some(n) => n@,
            None => p.id@,
        }
    }

    /// The name a profile is shown under: its name, else its id.
    pub fn display_name(&self, profile: &VoiceProfile) -> (r: String)
        ensures
            r@ == Self::spec_display_name(*profile),
    {
        match &profile.name {
            Some(n) => n.clone(),
            None => profile.id.clone(),
        }
    }
}


/// `s` without its leading `#` bytes.
pub open spec fn strip_hashes(b: Seq<u8>) -> Seq<u8>
    decreases b.len(),
{
    if b.len() > 0 && b[0] == 0x23 {
        strip_hashes(b.drop_first())
    } else {
        b
    }
}

/// What `u8::from_str_radix(piece, 16)` gives for a two-byte piece: two hex
/// digits, or a `+` sign and one digit; anything else is an error.
pub open spec fn parse_hex_pair(p: Seq<u8>) -> Option<nat> {
    if p[0] == 0x2B {
        hex_value(p[1])
    } else {
        match (hex_value(p[0]), hex_value(p[1])) {
            (Some(a), Some(b)) => Some(16 * a + b),
            _ => None,
        }
    }
}

/// A colour channel: the parsed pair, or 255 when it does not parse.
pub open spec fn channel(p: Seq<u8>) -> nat {
    match parse_hex_pair(p) {
        Some(v) => v,
        None => 255,
    }
}

/// Byte `b` continues a multi-byte UTF-8 character.
pub open spec fn is_continuation(b: u8) -> bool {
    0x80 <= b <= 0xBF
}

/// The colours whose three two-byte pieces can be sliced out: when the
/// text after the `#`s is six bytes, bytes 2 and 4 start characters.
pub open spec fn hex_color_sliceable(b: Seq<u8>) -> bool {
    let h = strip_hashes(b);
    h.len() == 6 ==> !is_continuation(h[2]) && !is_continuation(h[4])
}

/// An ASS primary colour `&H00BBGGRR` for a `#RRGGBB` colour; white when
/// the text after the `#`s is not six bytes long.
pub open spec fn ass_primary(b: Seq<u8>) -> Seq<char> {
    let h = strip_hashes(b);
    if h.len() != 6 {
        "&H00FFFFFF"@
    } else {
        "&H00"@ + hex2_upper(channel(h.subrange(4, 6))) + hex2_upper(channel(h.subrange(2, 4)))
            + hex2_upper(channel(h.subrange(0, 2)))
    }
}

/// Whether `hex_to_ass_primary` can slice `hex` into its three channels.
pub fn hex_color_is_sliceable(hex: &str) -> (r: bool)
    ensures
        r == hex_color_sliceable(hex.spec_bytes()),
{
    let b = hex.as_bytes();
    let start = strip_start(b);
    let n = b.len() - start;
    if n != 6 {
        return true;
    }
    !(0x80 <= b[start + 2] && b[start + 2] <= 0xBF) && !(0x80 <= b[start + 4] && b[start + 4]
        <= 0xBF)
}

proof fn lemma_strip_hashes_skip(b: Seq<u8>, k: int)
    requires
        0 <= k <= b.len(),
        forall|j: int| 0 <= j < k ==> b[j] == 0x23,
    ensures
        strip_hashes(b) == strip_hashes(b.skip(k)),
    decreases k,
{
    if k > 0 {
        assert(b.drop_first().skip(k - 1) == b.skip(k));
        lemma_strip_hashes_skip(b.drop_first(), k - 1);
    } else {
        assert(b.skip(0) == b);
    }
}

/// The index of the first byte of `b` that is not `#`.
fn strip_start(b: &[u8]) -> (k: usize)
    ensures
        k <= b@.len(),
        strip_hashes(b@) == b@.skip(k as int),
{
    let mut k: usize = 0;
    while k < b.len() && b[k] == 0x23
        invariant
            k <= b@.len(),
            forall|j: int| 0 <= j < k ==> b@[j] == 0x23,
        decreases b.len() - k,
    {
        k += 1;
    }
    proof {
        lemma_strip_hashes_skip(b@, k as int);
        assert(b@.skip(k as int).len() == 0 || b@.skip(k as int)[0] != 0x23);
    }
    k
}

fn parse_pair(b0: u8, b1: u8) -> (r: u8)
    ensures
        r as nat == channel(seq![b0, b1]),
{
    if b0 == 0x2B {
        match hex_value_of(b1) {
            Some(v) => v,
            None => 255,
        }
    } else {
        match (hex_value_of(b0), hex_value_of(b1)) {
            (Some(a), Some(c)) => 16 * a + c,
            _ => 255,
        }
    }
}

/// Converts a `#RRGGBB` colour into the ASS primary colour `&H00BBGGRR`.
/// Channels that are not hexadecimal read as `FF`; a colour that is not
/// six bytes long after its `#`s gives white.
pub fn hex_to_ass_primary(hex: &str) -> (r: String)
    requires
        hex_color_sliceable(hex.spec_bytes()),
    ensures
        r@ == ass_primary(hex.spec_bytes()),
{
    let b = hex.as_bytes();
    let start = strip_start(b);
    let ghost h = b@.skip(start as int);
    let mut out: Vec<char> = Vec::new();
    if b.len() - start != 6 {
        push_str(&mut out, "&H00FFFFFF");
        return string_of(&out);
    }
    let r = parse_pair(b[start], b[start + 1]);
    let g = parse_pair(b[start + 2], b[start + 3]);
    let bl = parse_pair(b[start + 4], b[start + 5]);
    assert(h.subrange(0, 2) == seq![b@[start as int], b@[start + 1]]);
    assert(h.subrange(2, 4) == seq![b@[start + 2], b@[start + 3]]);
    assert(h.subrange(4, 6) == seq![b@[start + 4], b@[start + 5]]);
    push_str(&mut out, "&H00");
    push_hex2(&mut out, bl);
    push_hex2(&mut out, g);
    push_hex2(&mut out, r);
    string_of(&out)
}

/// The character `ass_style_name` keeps or substitutes for `c`.
pub open spec fn style_char(c: char) -> char {
    if char_is_alphanumeric(c) || c == '_' {
        c
    } else {
        '_'
    }
}

/// An ASS style name: every character that is not alphanumeric or `_`
/// becomes `_`.
pub open spec fn style_name(s: Seq<char>) -> Seq<char> {
    s.map_values(|c: char| style_char(c))
}

/// Whether `char::is_alphanumeric` holds of `c`: the Unicode `Alphabetic`
/// or `Numeric` property, from tables in the standard library.
pub uninterp spec fn char_is_alphanumeric(c: char) -> bool;

/// Calls `char::is_alphanumeric`. Claimed: the result is
/// `char_is_alphanumeric(c)`, a fixed function of the character; on ASCII
/// it holds of the letters and digits only, and it never holds of a
/// whitespace character (no `White_Space` character is `Alphabetic` or
/// `Numeric`). Which other characters count is left to the name.
#[verifier::external_body]
fn is_alphanumeric(c: char) -> (b: bool)
    ensures
        b == char_is_alphanumeric(c),
        (c as u32) < 0x80 ==> (b <==> is_ascii_alnum(c)),
        is_ws(c) ==> !b,
{
    c.is_alphanumeric()
}

/// The style character of an ASCII character: letters, digits and `_`
/// stay, everything else becomes `_`.
pub open spec fn ascii_style_char(c: char) -> char {
    if is_ascii_alnum(c) || c == '_' {
        c
    } else {
        '_'
    }
}

/// Turns a speaker name into an ASS style name. The result never holds a
/// `,` (which separates the fields of a `Style:` line) or whitespace, and
/// for an ASCII name it is fully determined.
pub fn ass_style_name(name: &str) -> (r: String)
    ensures
        r@ == style_name(name@),
        forall|i: int| 0 <= i < r@.len() ==> r@[i] != ',' && !is_ws(#[trigger] r@[i]),
        is_ascii_text(name@) ==> r@ == name@.map_values(|c: char| ascii_style_char(c)),
{
    let mut out: Vec<char> = Vec::new();
    for c in it: name.chars()
        invariant
            it.seq() == name@,
            out@ == style_name(name@.take(it.index() as int)),
            forall|j: int| 0 <= j < out@.len() ==> out@[j] != ',' && !is_ws(#[trigger] out@[j]),
            forall|j: int|
                0 <= j < out@.len() && (name@[j] as u32) < 0x80 ==> out@[j] == ascii_style_char(
                    name@[j],
                ),
    {
        let ghost i = it.index();
        let k = if is_alphanumeric(c) || c == '_' {
            c
        } else {
            '_'
        };
        assert(k != ',' && !is_ws(k));
        out.push(k);
        assert(style_name(name@.take(i + 1)) == style_name(name@.take(i as int)).push(k));
    }
    assert(name@.take(name@.len() as int) == name@);
    assert(is_ascii_text(name@) ==> out@ == name@.map_values(|c: char| ascii_style_char(c)));
    string_of(&out)
}


/// `i` is the first profile in `ps` whose id is `id`.
pub open spec fn is_first_with_id(ps: Seq<VoiceProfile>, id: Seq<char>, i: int) -> bool {
    &&& 0 <= i < ps.len()
    &&& ps[i].id@ == id
    &&& forall|j: int| 0 <= j < i ==> ps[j].id@ != id
}

/// No profile in `ps` has id `id`.
pub open spec fn no_profile_with_id(ps: Seq<VoiceProfile>, id: Seq<char>) -> bool {
    forall|j: int| 0 <= j < ps.len() ==> ps[j].id@ != id
}

/// Whether profile `p` is the one to style speaker `speaker`: its name is
/// the speaker, or it is unlabeled and its id is the speaker.
pub open spec fn styles_speaker(p: VoiceProfile, speaker: Seq<char>) -> bool {
    (p.name matches Some(n) && n@ == speaker) || (!p.labeled && p.id@ == speaker)
}

/// `i` is the first profile in `ps` that styles `speaker`.
pub open spec fn is_first_styling(ps: Seq<VoiceProfile>, speaker: Seq<char>, i: int) -> bool {
    &&& 0 <= i < ps.len()
    &&& styles_speaker(ps[i], speaker)
    &&& forall|j: int| 0 <= j < i ==> !styles_speaker(ps[j], speaker)
}

/// Why a profile operation was refused.
pub enum ProfileError {
    /// No profile has the given id.
    UnknownProfile(String),
}

/// `a` and `b` agree on everything but their embeddings.
pub open spec fn same_but_embeddings(a: VoiceProfile, b: VoiceProfile) -> bool {
    &&& a.id == b.id
    &&& a.name == b.name
    &&& a.color == b.color
    &&& a.labeled == b.labeled
    &&& a.clips == b.clips
}

/// The embeddings a profile holds after `add_embedding` offered it `e`:
/// one more, unless it is already full.
pub open spec fn embeddings_after_add(old: Seq<Vec<u32>>, e: Vec<u32>) -> Seq<Vec<u32>> {
    if old.len() >= MAX_EMBEDDINGS_PER_PROFILE {
        old
    } else {
        old.push(e)
    }
}

impl ProfileStore {
    /// The position of the first profile with id `id`.
    pub fn find_profile(&self, id: &str) -> (r: Option<usize>)
        ensures
            r matches Some(i) ==> is_first_with_id(self.profiles@, id@, i as int),
            r is None ==> no_profile_with_id(self.profiles@, id@),
    {
        let mut i: usize = 0;
        while i < self.profiles.len()
            invariant
                i <= self.profiles@.len(),
                forall|j: int| 0 <= j < i ==> self.profiles@[j].id@ != id@,
            decreases self.profiles.len() - i,
        {
            if text_eq(self.profiles[i].id.as_str(), id) {
                return Some(i);
            }
            i += 1;
        }
        None
    }

    /// The first profile whose name is `speaker`, or that is unlabeled and
    /// has id `speaker`.
    pub fn style_for_speaker(&self, speaker: &str) -> (r: Option<&VoiceProfile>)
        ensures
            r matches Some(p) ==> exists|i: int|
                is_first_styling(self.profiles@, speaker@, i) && *p == self.profiles@[i],
            r is None ==> forall|j: int|
                0 <= j < self.profiles@.len() ==> !styles_speaker(self.profiles@[j], speaker@),
    {
        let mut i: usize = 0;
        while i < self.profiles.len()
            invariant
                i <= self.profiles@.len(),
                forall|j: int|
                    0 <= j < i ==> !styles_speaker(#[trigger] self.profiles@[j], speaker@),
            decreases self.profiles.len() - i,
        {
            let p = &self.profiles[i];
            let by_name = match &p.name {
                Some(n) => text_eq(n.as_str(), speaker),
                None => false,
            };
            if by_name || (!p.labeled && text_eq(p.id.as_str(), speaker)) {
                assert(is_first_styling(self.profiles@, speaker@, i as int));
                return Some(p);
            }
            i += 1;
        }
        None
    }
}


impl ProfileStore {
    /// Adds an embedding to the first profile with id `profile_id`, unless
    /// that profile already holds `MAX_EMBEDDINGS_PER_PROFILE` of them.
    pub fn add_embedding(&mut self, profile_id: &str, embedding: Vec<u32>)
        ensures
            final(self).default_speaker == old(self).default_speaker,
            final(self).match_threshold_bits == old(self).match_threshold_bits,
            final(self).profiles@.len() == old(self).profiles@.len(),
            no_profile_with_id(old(self).profiles@, profile_id@) ==> final(self).profiles@ == old(
                self,
            ).profiles@,
            forall|i: int|
                #![trigger is_first_with_id(old(self).profiles@, profile_id@, i)]
                is_first_with_id(old(self).profiles@, profile_id@, i) ==> {
                    &&& forall|j: int|
                        0 <= j < old(self).profiles@.len() && j != i ==> final(self).profiles@[j]
                            == old(self).profiles@[j]
                    &&& same_but_embeddings(final(self).profiles@[i], old(self).profiles@[i])
                    &&& final(self).profiles@[i].embeddings@ == embeddings_after_add(
                        old(self).profiles@[i].embeddings@,
                        embedding,
                    )
                },
    {
        match self.find_profile(profile_id) {
            None => {},
            Some(i) => {
                if self.profiles[i].embeddings.len() >= MAX_EMBEDDINGS_PER_PROFILE {
                    return;
                }
                self.profiles[i].embeddings.push(embedding);
            },
        }
    }
}


/// The larger of two counts.
pub open spec fn max_usize(a: usize, b: usize) -> usize {
    if a >= b {
        a
    } else {
        b
    }
}

impl ProfileStore {
    /// Appends a new unlabeled profile holding `embedding` and returns its
    /// id. Its colour is `palette(max(index, count), max(total_hint, 8))`,
    /// where `count` is the number of profiles before the call.
    pub fn create_profile<F: Fn(usize, usize) -> String>(
        &mut self,
        embedding: Vec<u32>,
        index: usize,
        total_hint: usize,
        palette: F,
    ) -> (id: String)
        requires
            forall|a: usize, b: usize| palette.requires((a, b)),
        ensures
            id@ == Self::spec_next_id(old(self).profiles@.len()),
            final(self).default_speaker == old(self).default_speaker,
            final(self).match_threshold_bits == old(self).match_threshold_bits,
            final(self).profiles@.len() == old(self).profiles@.len() + 1,
            final(self).profiles@.drop_last() == old(self).profiles@,
            ({
                let p = final(self).profiles@.last();
                &&& p.id@ == id@
                &&& p.name is None
                &&& !p.labeled
                &&& p.embeddings@ == seq![embedding]
                &&& p.clips@.len() == 0
                &&& palette.ensures(
                    (
                        max_usize(index, old(self).profiles@.len() as usize),
                        max_usize(total_hint, 8),
                    ),
                    p.color,
                )
            }),
    {
        let id = self.next_profile_id();
        let n = self.profiles.len();
        let slot = if index >= n {
            index
        } else {
            n
        };
        let total = if total_hint >= 8 {
            total_hint
        } else {
            8
        };
        let color = palette(slot, total);
        let mut embeddings: Vec<Vec<u32>> = Vec::new();
        embeddings.push(embedding);
        let profile = VoiceProfile {
            id: id.clone(),
            name: None,
            color,
            labeled: false,
            embeddings,
            clips: Vec::new(),
        };
        self.profiles.push(profile);
        assert(self.profiles@.drop_last() == old(self).profiles@);
        id
    }

    /// Names the first profile with id `profile_id`, marks it labeled and
    /// sets its colour: `color` when given, otherwise the existing colour,
    /// or `palette(position, count)` when it has none. Returns the colour
    /// the profile ends up with.
    pub fn apply_label<F: Fn(usize, usize) -> String>(
        &mut self,
        profile_id: &str,
        name: &str,
        color: Option<&str>,
        palette: F,
    ) -> (r: Result<String, ProfileError>)
        requires
            forall|a: usize, b: usize| palette.requires((a, b)),
        ensures
            final(self).default_speaker == old(self).default_speaker,
            final(self).match_threshold_bits == old(self).match_threshold_bits,
            final(self).profiles@.len() == old(self).profiles@.len(),
            r is Err <==> no_profile_with_id(old(self).profiles@, profile_id@),
            r matches Err(ProfileError::UnknownProfile(e)) ==> e@ == profile_id@
                && final(self).profiles@ == old(self).profiles@,
            forall|i: int|
                #![trigger is_first_with_id(old(self).profiles@, profile_id@, i)]
                is_first_with_id(old(self).profiles@, profile_id@, i) ==> {
                    let before = old(self).profiles@[i];
                    let after = final(self).profiles@[i];
                    &&& forall|j: int|
                        0 <= j < old(self).profiles@.len() && j != i ==> final(self).profiles@[j]
                            == old(self).profiles@[j]
                    &&& after.id == before.id
                    &&& after.embeddings == before.embeddings
                    &&& after.clips == before.clips
                    &&& after.labeled
                    &&& after.name matches Some(n) && n@ == name@
                    &&& r matches Ok(c) && c@ == after.color@
                    &&& match color {
                        Some(c) => after.color@ == c@,
                        None => if before.color@.len() == 0 {
                            palette.ensures((i as usize, old(self).profiles@.len() as usize), after.color)
                        } else {
                            after.color == before.color
                        },
                    }
                },
    {
        let idx = match self.find_profile(profile_id) {
            Some(i) => i,
            None => {
                return Err(ProfileError::UnknownProfile(profile_id.to_owned()));
            },
        };
        let total = self.profiles.len();
        self.profiles[idx].name = Some(name.to_owned());
        self.profiles[idx].labeled = true;
        match color {
            Some(c) => {
                self.profiles[idx].color = c.to_owned();
            },
            None => {
                if self.profiles[idx].color.as_str().is_empty() {
                    self.profiles[idx].color = palette(idx, total);
                }
            },
        }
        Ok(self.profiles[idx].color.clone())
    }
}


impl BuildState {
    /// A build that has not processed any episode.
    pub fn new() -> (b: BuildState)
        ensures
            b.completed_episodes@.len() == 0,
    {
        BuildState { completed_episodes: Vec::new() }
    }

    /// Whether the episode `stem` was already processed.
    pub fn is_completed(&self, stem: &str) -> (r: bool)
        ensures
            r == string_views(self.completed_episodes@).contains(stem@),
    {
        let ghost v = string_views(self.completed_episodes@);
        let mut i: usize = 0;
        while i < self.completed_episodes.len()
            invariant
                i <= self.completed_episodes.len(),
                v == string_views(self.completed_episodes@),
                forall|j: int| 0 <= j < i ==> v[j] != stem@,
            decreases self.completed_episodes.len() - i,
        {
            if text_eq(self.completed_episodes[i].as_str(), stem) {
                assert(v[i as int] == stem@);
                return true;
            }
            i += 1;
        }
        false
    }

    /// Records that the episode `stem` was processed.
    pub fn mark_completed(&mut self, stem: &str)
        ensures
            string_views(final(self).completed_episodes@) == string_views(
                old(self).completed_episodes@,
            ).push(stem@),
    {
        self.completed_episodes.push(stem.to_owned());
        assert(string_views(self.completed_episodes@) == string_views(
            old(self).completed_episodes@,
        ).push(stem@));
    }

    /// A build profiles an episode when forced, or when it has not done so
    /// before.
    pub fn should_profile(&self, stem: &str, force: bool) -> (r: bool)
        ensures
            r == (force || !string_views(self.completed_episodes@).contains(stem@)),
    {
        force || !self.is_completed(stem)
    }
}

/// The most clips a profile gets for review.
pub const MAX_CLIPS_PER_PROFILE: usize = 5;

/// `<id>_NN.wav`: the file of a profile's clip number `n` (from one).
pub open spec fn clip_file(id: Seq<char>, n: nat) -> Seq<char> {
    id + seq!['_'] + zero_pad(decimal(n), 2) + ".wav"@
}

/// The file name of the `index`-th (from zero) review clip of a profile.
pub fn clip_file_name(profile_id: &str, index: usize) -> (r: String)
    requires
        index < usize::MAX,
    ensures
        r@ == clip_file(profile_id@, (index + 1) as nat),
{
    let mut out: Vec<char> = Vec::new();
    push_str(&mut out, profile_id);
    out.push('_');
    push_padded(&mut out, (index + 1) as u64, 2);
    push_str(&mut out, ".wav");
    string_of(&out)
}

/// How a clip is recorded in its profile: relative to the voices
/// directory, `clips/<file>`.
pub fn clip_entry(file_name: &str) -> (r: String)
    ensures
        r@ == "clips/"@ + file_name@,
{
    let mut out: Vec<char> = Vec::new();
    push_str(&mut out, "clips/");
    push_str(&mut out, file_name);
    string_of(&out)
}

/// The line `profiles list` prints for a profile.
pub open spec fn list_line(p: VoiceProfile) -> Seq<char> {
    p.id@ + "  labeled="@ + (if p.labeled {
        "true"@
    } else {
        "false"@
    }) + "  color="@ + p.color@ + "  name="@ + (match p.name {
        Some(n) => n@,
        None => "(unlabeled)"@,
    }) + "  embeddings="@ + decimal(p.embeddings@.len()) + "  clips=["@ + join(
        string_views(p.clips@),
        ", "@,
    ) + "]"@
}

/// The line `profiles list` prints for a profile.
pub fn profile_list_line(p: &VoiceProfile) -> (r: String)
    ensures
        r@ == list_line(*p),
{
    let mut out: Vec<char> = Vec::new();
    push_str(&mut out, p.id.as_str());
    push_str(&mut out, "  labeled=");
    push_str(&mut out, if p.labeled { "true" } else { "false" });
    push_str(&mut out, "  color=");
    push_str(&mut out, p.color.as_str());
    push_str(&mut out, "  name=");
    match &p.name {
        Some(n) => push_str(&mut out, n.as_str()),
        None => push_str(&mut out, "(unlabeled)"),
    }
    push_str(&mut out, "  embeddings=");
    push_decimal(&mut out, p.embeddings.len() as u64);
    push_str(&mut out, "  clips=[");
    let ghost start = out@;
    let ghost cv = string_views(p.clips@);
    let mut i: usize = 0;
    while i < p.clips.len()
        invariant
            i <= p.clips.len(),
            cv == string_views(p.clips@),
            out@ == start + join(cv.take(i as int), ", "@),
        decreases p.clips.len() - i,
    {
        if i > 0 {
            push_str(&mut out, ", ");
        }
        push_str(&mut out, p.clips[i].as_str());
        proof {
            assert(cv.take(i + 1) == cv.take(i as int).push(cv[i as int]));
            lemma_join_push(cv.take(i as int), ", "@, cv[i as int]);
        }
        i += 1;
    }
    assert(cv.take(p.clips.len() as int) == cv);
    push_str(&mut out, "]");
    string_of(&out)
}


/// Whether the speaker name `name`, as the embedding search reports it,
/// belongs to profile `p`: its name or its id.
pub open spec fn answers_to(p: VoiceProfile, name: Seq<char>) -> bool {
    (p.name matches Some(n) && n@ == name) || p.id@ == name
}

impl ProfileStore {
    /// The first profile with id `id`, to change in place.
    pub fn find_profile_mut(&mut self, id: &str) -> (r: Option<&mut VoiceProfile>)
        ensures
            r is None ==> no_profile_with_id(old(self).profiles@, id@) && *final(self) == *old(
                self,
            ),
            r matches Some(p) ==> exists|i: int|
                is_first_with_id(old(self).profiles@, id@, i) && *p == old(self).profiles@[i]
                    && final(self).profiles@ == old(self).profiles@.update(i, *final(p))
                    && final(self).default_speaker == old(self).default_speaker
                    && final(self).match_threshold_bits == old(self).match_threshold_bits,
    {
        match self.find_profile(id) {
            Some(i) => Some(&mut self.profiles[i]),
            None => None,
        }
    }

    /// The first profile a matched speaker name belongs to: by name or by id.
    pub fn profile_for_match(&self, name: &str) -> (r: Option<usize>)
        ensures
            r matches Some(i) ==> i < self.profiles@.len() && answers_to(
                self.profiles@[i as int],
                name@,
            ) && forall|j: int| 0 <= j < i ==> !answers_to(self.profiles@[j], name@),
            r is None ==> forall|j: int|
                0 <= j < self.profiles@.len() ==> !answers_to(self.profiles@[j], name@),
    {
        let mut i: usize = 0;
        while i < self.profiles.len()
            invariant
                i <= self.profiles@.len(),
                forall|j: int| 0 <= j < i ==> !answers_to(#[trigger] self.profiles@[j], name@),
            decreases self.profiles.len() - i,
        {
            let p = &self.profiles[i];
            let by_name = match &p.name {
                Some(n) => text_eq(n.as_str(), name),
                None => false,
            };
            if by_name || text_eq(p.id.as_str(), name) {
                return Some(i);
            }
            i += 1;
        }
        None
    }

    /// The directory of the review clips inside a voices directory.
    pub fn clips_dir(voices_dir: &str) -> (r: String)
        ensures
            r@ == joined_path(voices_dir@, "clips"@),
    {
        path_join(voices_dir, "clips")
    }
}

} // verus!
