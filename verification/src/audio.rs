//! Sound: devices, and the even stream of samples that the encoder is fed.
use vstd::prelude::*;

use crate::order::{drop_repeats, law_names_listed, sort_names, sorted_names, without_repeats};
use crate::recorder::params::{audio_mode, has_mic, has_system, law_audio_modes};
use crate::text::{before, lowercase, same, to_lowercase, trim, trimmed};

verus! {

/// The devices for sound: microphones, and what plays.
pub struct AudioDevices {
    pub mics: Vec<String>,
    pub system: Option<String>,
    pub wasapi_available: bool,
}

/// What the system tells of the devices: the names of those that record, where they have
/// one, and the name of the one that plays.
pub struct RawDevices {
    pub capture: Vec<Option<String>>,
    pub render: Option<String>,
}

/// Whether a name is there, and not blank.
pub open spec fn is_named(name: Option<String>) -> bool {
    name matches Some(n) && trimmed(n@).len() > 0
}

/// The names of those of the first `n` devices that have one.
pub open spec fn named(devs: Seq<Option<String>>, n: int) -> Seq<String>
    decreases n,
{
    if n <= 0 {
        seq![]
    } else if is_named(devs[n - 1]) {
        named(devs, n - 1).push(devs[n - 1]->0)
    } else {
        named(devs, n - 1)
    }
}

fn has_name(name: &str) -> (r: bool)
    ensures
        r == (trimmed(name@).len() > 0),
{
    let t = trim(name);
    !t.as_str().is_empty()
}

/// The names of the devices that have one.
pub fn names_of(devs: &Vec<Option<String>>) -> (r: Vec<String>)
    ensures
        r@ == named(devs@, devs@.len() as int),
{
    let mut names: Vec<String> = Vec::new();
    let mut i: usize = 0;
    while i < devs.len()
        invariant
            i <= devs.len(),
            names@ == named(devs@, i as int),
        decreases devs.len() - i,
    {
        match &devs[i] {
            Some(n) => {
                if has_name(n.as_str()) {
                    names.push(n.clone());
                }
            },
            None => {},
        }
        i = i + 1;
    }
    names
}

/// Lists the devices: the microphones in the order of their names, each once. There are
/// none where the system's sound cannot be reached.
pub fn list_audio_devices(raw: &Option<RawDevices>) -> (r: AudioDevices)
    ensures
        match *raw {
            None => r.mics@.len() == 0 && r.system is None && !r.wasapi_available,
            Some(d) => r.wasapi_available && r.mics@ == ({
                let s = sorted_names(named(d.capture@, d.capture@.len() as int));
                without_repeats(s, s.len() as int)
            }) && r.system == if is_named(d.render) {
                d.render
            } else {
                None
            },
        },
{
    match raw {
        None => AudioDevices { mics: Vec::new(), system: None, wasapi_available: false },
        Some(d) => {
            let mut mics = names_of(&d.capture);
            sort_names(&mut mics);
            let mics = drop_repeats(&mics);
            let system = match &d.render {
                Some(n) => if has_name(n.as_str()) {
                    Some(n.clone())
                } else {
                    None
                },
                None => None,
            };
            AudioDevices { mics, system, wasapi_available: true }
        },
    }
}

/// The first device, from `from` on, with this name.
pub open spec fn device_at(devs: Seq<Option<String>>, name: Seq<char>, from: int) -> Option<int>
    decreases devs.len() - from,
{
    if from < 0 || from >= devs.len() {
        None
    } else if devs[from] matches Some(n) && n@ == name {
        Some(from)
    } else {
        device_at(devs, name, from + 1)
    }
}

/// Picks the device that the user prefers, by its number. Nothing, which means the
/// system's own choice, where none is preferred or it is not there.
pub fn pick_capture_device(devs: &Vec<Option<String>>, prefer: &str) -> (r: Option<usize>)
    ensures
        match r {
            Some(i) => trimmed(prefer@).len() > 0 && device_at(devs@, trimmed(prefer@), 0) == Some(
                i as int,
            ),
            None => trimmed(prefer@).len() == 0 || device_at(devs@, trimmed(prefer@), 0) is None,
        },
{
    let wanted = trim(prefer);
    if wanted.as_str().is_empty() {
        return None;
    }
    let mut i: usize = 0;
    while i < devs.len()
        invariant
            i <= devs.len(),
            wanted@ == trimmed(prefer@),
            wanted@.len() > 0,
            device_at(devs@, wanted@, 0) == device_at(devs@, wanted@, i as int),
        decreases devs.len() - i,
    {
        match &devs[i] {
            Some(n) => {
                if same(n.as_str(), wanted.as_str()) {
                    return Some(i);
                }
            },
            None => {},
        }
        i = i + 1;
    }
    None
}

// ---- starting ----

/// Whether what is played is asked for.
pub open spec fn asks_system(mode: Seq<char>) -> bool {
    lowercase(mode) == "system"@ || lowercase(mode) == "both"@
}

/// Whether the microphone is asked for.
pub open spec fn asks_mic(mode: Seq<char>) -> bool {
    lowercase(mode) == "mic"@ || lowercase(mode) == "microphone"@ || lowercase(mode) == "both"@
}

/// Which sounds a mode asks for: what is played, and the microphone.
pub fn wanted_sounds(mode: &str) -> (r: (bool, bool))
    ensures
        r.0 == asks_system(mode@),
        r.1 == asks_mic(mode@),
{
    let m = to_lowercase(mode);
    let w = m.as_str();
    let both: bool = same(w, "both");
    (both || same(w, "system"), both || same(w, "mic") || same(w, "microphone"))
}

/// The rate of samples that is used.
pub fn usable_rate(rate: u32) -> (r: u32)
    ensures
        r == if rate == 44100 {
            44100int
        } else {
            48000
        },
{
    if rate == 44100 {
        44100
    } else {
        48000
    }
}

/// The number of channels that is used.
pub fn usable_channels(channels: u32) -> (r: u32)
    ensures
        r == if channels == 1 {
            1int
        } else {
            2
        },
{
    if channels == 1 {
        1
    } else {
        2
    }
}

/// What is said where what is played cannot be recorded.
pub open spec fn no_system() -> Seq<char> {
    "System audio unavailable â€” continuing without it."@
}

/// What is said where the microphone cannot be recorded.
pub open spec fn no_mic() -> Seq<char> {
    "Microphone unavailable â€” continuing without it."@
}

/// What is said where the system's sound cannot be reached at all.
pub open spec fn no_sound() -> Seq<char> {
    "Audio capture is unavailable on this platform â€” recording video only."@
}

/// Whether sound is recorded, and what is said of it.
pub struct PumpStart {
    pub active: bool,
    pub note: Option<String>,
}

/// Decides whether sound is recorded: of what the mode asks for, what could be started,
/// where the system's sound can be reached. Recording goes on whatever comes of it; what
/// is missing is told.
pub fn start_pcm_pump(mode: &str, reachable: bool, have_sys: bool, have_mic: bool) -> (r: PumpStart)
    ensures
        r.active == (reachable && ((asks_system(mode@) && have_sys) || (asks_mic(mode@)
            && have_mic))),
        match r.note {
            None => (!asks_system(mode@) && !asks_mic(mode@)) || (reachable && (asks_system(mode@)
                ==> have_sys) && (asks_mic(mode@) ==> have_mic)),
            Some(n) => (asks_system(mode@) || asks_mic(mode@)) && if !reachable {
                n@ == no_sound()
            } else if asks_system(mode@) && !have_sys {
                n@ == no_system()
            } else {
                asks_mic(mode@) && !have_mic && n@ == no_mic()
            },
        },
{
    let (want_sys, want_mic) = wanted_sounds(mode);
    if !want_sys && !want_mic {
        return PumpStart { active: false, note: None };
    }
    if !reachable {
        return PumpStart {
            active: false,
            note: Some(
                "Audio capture is unavailable on this platform â€” recording video only.".to_string(),
            ),
        };
    }
    let active: bool = (want_sys && have_sys) || (want_mic && have_mic);
    let note = if want_sys && !have_sys {
        Some("System audio unavailable â€” continuing without it.".to_string())
    } else if want_mic && !have_mic {
        Some("Microphone unavailable â€” continuing without it.".to_string())
    } else {
        None
    };
    PumpStart { active, note }
}

// ---- chunks ----

/// The frames of a chunk: a fiftieth of a second at 48000 per second.
pub const PUMP_CHUNK_FRAMES: usize = 960;

/// Collects samples into chunks of one size.
pub struct Chunker {
    pub size: usize,
    pub pending: Vec<i16>,
}

impl Chunker {
    /// Whether less than a chunk is waiting.
    pub open spec fn wf(self) -> bool {
        self.size > 0 && self.pending@.len() < self.size
    }

    /// A collector for a number of channels.
    pub fn new(channels: u32) -> (r: Self)
        requires
            1 <= channels <= 2,
        ensures
            r.wf(),
            r.size == PUMP_CHUNK_FRAMES * channels,
            r.pending@.len() == 0,
    {
        Chunker { size: PUMP_CHUNK_FRAMES * channels as usize, pending: Vec::new() }
    }

    /// Takes a sample. Hands out a chunk when it is full.
    pub fn push(&mut self, s: i16) -> (r: Option<Vec<i16>>)
        requires
            old(self).wf(),
        ensures
            final(self).wf(),
            final(self).size == old(self).size,
            match r {
                Some(c) => c@ == old(self).pending@.push(s) && c@.len() == old(self).size
                    && final(self).pending@.len() == 0,
                None => final(self).pending@ == old(self).pending@.push(s),
            },
    {
        self.pending.push(s);
        if self.pending.len() >= self.size {
            let mut full: Vec<i16> = Vec::new();
            std::mem::swap(&mut full, &mut self.pending);
            Some(full)
        } else {
            None
        }
    }

    /// Takes samples in turn. Hands out the chunks that are full.
    pub fn push_all(&mut self, samples: &Vec<i16>) -> (r: Vec<Vec<i16>>)
        requires
            old(self).wf(),
        ensures
            final(self).wf(),
            final(self).size == old(self).size,
            flat(r@) + final(self).pending@ == old(self).pending@ + samples@,
            forall|i: int| 0 <= i < r@.len() ==> (#[trigger] r@[i])@.len() == old(self).size,
    {
        let ghost before = self.pending@;
        let mut out: Vec<Vec<i16>> = Vec::new();
        let mut i: usize = 0;
        assert(flat(out@) + self.pending@ =~= before + samples@.take(0));
        while i < samples.len()
            invariant
                i <= samples.len(),
                before == old(self).pending@,
                self.wf(),
                self.size == old(self).size,
                flat(out@) + self.pending@ == before + samples@.take(i as int),
                forall|k: int| 0 <= k < out@.len() ==> (#[trigger] out@[k])@.len() == self.size,
            decreases samples.len() - i,
        {
            let ghost pend = self.pending@;
            let ghost outs = out@;
            assert(before + samples@.take(i + 1) =~= (before + samples@.take(i as int)).push(
                samples@[i as int],
            ));
            match self.push(samples[i]) {
                Some(c) => {
                    out.push(c);
                    assert(out@.drop_last() =~= outs);
                    assert(flat(out@) == flat(outs) + c@);
                    assert(flat(out@) + self.pending@ =~= (flat(outs) + pend).push(
                        samples@[i as int],
                    ));
                },
                None => {
                    assert(flat(out@) + self.pending@ =~= (flat(outs) + pend).push(
                        samples@[i as int],
                    ));
                },
            }
            i = i + 1;
        }
        assert(samples@.take(i as int) =~= samples@);
        out
    }
}

/// All samples of chunks, in turn.
pub open spec fn flat(chunks: Seq<Vec<i16>>) -> Seq<i16>
    decreases chunks.len(),
{
    if chunks.len() == 0 {
        seq![]
    } else {
        flat(chunks.drop_last()) + chunks.last()@
    }
}

// ---- mixing ----

/// What is sent in a step of the mixer.
pub enum MixStep {
    /// One sound, as it is.
    One(Vec<i16>),
    /// Two sounds, sample by sample.
    Two(Vec<(i16, i16)>),
}

/// A sample of a chunk, and silence where there is none.
pub open spec fn sample_at(chunk: Option<Vec<i16>>, i: int) -> i16 {
    match chunk {
        Some(c) if 0 <= i < c@.len() => c@[i],
        _ => 0,
    }
}

fn get_sample(chunk: &Option<Vec<i16>>, i: usize) -> (r: i16)
    ensures
        r == sample_at(*chunk, i as int),
{
    match chunk {
        Some(c) => if i < c.len() {
            c[i]
        } else {
            0
        },
        None => 0,
    }
}

fn silence(n: usize) -> (r: Vec<i16>)
    ensures
        r@ == Seq::new(n as nat, |i: int| 0i16),
{
    let mut out: Vec<i16> = Vec::new();
    let mut i: usize = 0;
    while i < n
        invariant
            i <= n,
            out@ =~= Seq::new(i as nat, |k: int| 0i16),
        decreases n - i,
    {
        out.push(0);
        i = i + 1;
    }
    out
}

/// What a single sound sends: the chunk that came, and silence where none did.
pub open spec fn single(last: Option<Vec<i16>>, n: int) -> Seq<i16> {
    match last {
        Some(c) => c@,
        None => Seq::new(n as nat, |i: int| 0i16),
    }
}

fn send_single(last: &Option<Vec<i16>>, n: usize) -> (r: Vec<i16>)
    ensures
        r@ == single(*last, n as int),
{
    match last {
        Some(c) => c.clone(),
        None => silence(n),
    }
}

/// Whether a chunk, where there is one, has this size.
pub open spec fn sized(chunk: Option<Vec<i16>>, size: usize) -> bool {
    chunk matches Some(c) ==> c@.len() == size
}

/// Mixes the sounds that are recorded, a chunk at each step. Of each it holds what came
/// since the last step.
pub struct Mixer {
    pub have_sys: bool,
    pub have_mic: bool,
    pub size: usize,
    pub last_sys: Option<Vec<i16>>,
    pub last_mic: Option<Vec<i16>>,
}

impl Mixer {
    /// Whether all chunks that were taken have the size of a step.
    pub open spec fn wf(self) -> bool {
        sized(self.last_sys, self.size) && sized(self.last_mic, self.size)
    }

    /// The mixer after it has taken what came of each sound.
    pub open spec fn taken(self, sys: Option<Vec<i16>>, mic: Option<Vec<i16>>) -> Mixer {
        Mixer {
            last_sys: if self.have_sys {
                sys
            } else {
                self.last_sys
            },
            last_mic: if self.have_mic {
                mic
            } else {
                self.last_mic
            },
            ..self
        }
    }

    /// What a step sends.
    pub open spec fn sends(self, r: MixStep) -> bool {
        match r {
            MixStep::Two(v) => self.have_sys && self.have_mic && v@ == Seq::new(
                self.size as nat,
                |i: int| (sample_at(self.last_sys, i), sample_at(self.last_mic, i)),
            ),
            MixStep::One(v) => !(self.have_sys && self.have_mic) && v@ == if self.have_sys {
                single(self.last_sys, self.size as int)
            } else if self.have_mic {
                single(self.last_mic, self.size as int)
            } else {
                single(None, self.size as int)
            },
        }
    }

    /// A mixer that has taken nothing yet.
    pub fn new(have_sys: bool, have_mic: bool, channels: u32) -> (r: Self)
        requires
            channels <= 2,
        ensures
            r.have_sys == have_sys,
            r.have_mic == have_mic,
            r.size == PUMP_CHUNK_FRAMES * if channels == 0 {
                1
            } else {
                channels as int
            },
            r.last_sys is None,
            r.last_mic is None,
            r.wf(),
    {
        let channels: usize = if channels == 0 {
            1
        } else {
            channels as usize
        };
        Mixer {
            have_sys,
            have_mic,
            size: PUMP_CHUNK_FRAMES * channels,
            last_sys: None,
            last_mic: None,
        }
    }

    /// Takes the latest chunk of each sound that came since the last step, if any did.
    /// What was taken before is forgotten. Of a sound that is not recorded nothing is
    /// taken.
    pub fn take(&mut self, sys: Option<Vec<i16>>, mic: Option<Vec<i16>>)
        ensures
            *final(self) == old(self).taken(sys, mic),
            old(self).wf() && sized(sys, old(self).size) && sized(mic, old(self).size)
                ==> final(self).wf(),
    {
        if self.have_sys {
            self.last_sys = sys;
        }
        if self.have_mic {
            self.last_mic = mic;
        }
    }

    /// What is sent in a step: the chunk of each sound that is recorded, and silence for
    /// what is missing.
    pub fn step(&self) -> (r: MixStep)
        ensures
            self.sends(r),
    {
        if self.have_sys && self.have_mic {
            let mut v: Vec<(i16, i16)> = Vec::new();
            let mut i: usize = 0;
            while i < self.size
                invariant
                    i <= self.size,
                    v@ =~= Seq::new(
                        i as nat,
                        |k: int| (sample_at(self.last_sys, k), sample_at(self.last_mic, k)),
                    ),
                decreases self.size - i,
            {
                v.push((get_sample(&self.last_sys, i), get_sample(&self.last_mic, i)));
                i = i + 1;
            }
            MixStep::Two(v)
        } else if self.have_sys {
            MixStep::One(send_single(&self.last_sys, self.size))
        } else if self.have_mic {
            MixStep::One(send_single(&self.last_mic, self.size))
        } else {
            MixStep::One(silence(self.size))
        }
    }
}

/// The samples that a step sends, for one sound or for two.
pub open spec fn step_len(r: MixStep) -> nat {
    match r {
        MixStep::One(v) => v@.len(),
        MixStep::Two(v) => v@.len(),
    }
}

/// Whether a step sends nothing but silence.
pub open spec fn is_silent(r: MixStep) -> bool {
    match r {
        MixStep::One(v) => forall|i: int| 0 <= i < v@.len() ==> #[trigger] v@[i] == 0,
        MixStep::Two(v) => forall|i: int| 0 <= i < v@.len() ==> #[trigger] v@[i] == (0i16, 0i16),
    }
}

/// A device that stalls degrades to silence: where nothing came of any sound since the
/// last step, the next one is silent, whatever was sent before.
pub proof fn law_stalled_is_silent(m: Mixer, r: MixStep)
    requires
        m.taken(None, None).sends(r),
    ensures
        is_silent(r),
        step_len(r) == m.size,
{
}

/// Every step sends the same number of samples, whatever has come in between: a device
/// that stalls leaves silence, never a gap.
pub proof fn law_steps_are_even(m: Mixer, r: MixStep)
    requires
        m.wf(),
        m.sends(r),
    ensures
        step_len(r) == m.size,
{
}

/// Nanoseconds of a step of the mixer.
pub const MIX_STEP_NS: u64 = 20_000_000;

/// How many nanoseconds to wait for the next step, after this one took `elapsed_ns`.
pub fn step_wait(elapsed_ns: u64) -> (r: u64)
    ensures
        r == if elapsed_ns < MIX_STEP_NS {
            MIX_STEP_NS - elapsed_ns
        } else {
            0
        },
{
    if elapsed_ns < MIX_STEP_NS {
        MIX_STEP_NS - elapsed_ns
    } else {
        0
    }
}

// ---- laws ----

/// With each device more, the names grow by its name if it has one that is not blank, and by
/// nothing if it has not.
pub proof fn law_named(devs: Seq<Option<String>>, dev: Option<String>)
    ensures
        ({
            let n = devs.len() as int;
            named(devs.push(dev), n + 1) == match dev {
                Some(name) => if trimmed(name@).len() > 0 {
                    named(devs, n).push(name)
                } else {
                    named(devs, n)
                },
                None => named(devs, n),
            }
        }),
        named(seq![], 0).len() == 0,
{
    lemma_named_front(devs, dev, devs.len() as int);
}

proof fn lemma_named_front(devs: Seq<Option<String>>, dev: Option<String>, n: int)
    requires
        n <= devs.len(),
    ensures
        named(devs.push(dev), n) == named(devs, n),
    decreases n,
{
    if n > 0 {
        lemma_named_front(devs, dev, n - 1);
    }
}

proof fn lemma_named(devs: Seq<Option<String>>, n: int, name: Seq<char>)
    requires
        0 <= n <= devs.len(),
    ensures
        (exists|i: int| 0 <= i < named(devs, n).len() && (#[trigger] named(devs, n)[i])@ == name)
            <==> (trimmed(name).len() > 0 && exists|i: int|
            0 <= i < n && (#[trigger] devs[i] matches Some(d) && d@ == name)),
    decreases n,
{
    if n > 0 {
        lemma_named(devs, n - 1, name);
        let front = named(devs, n - 1);
        let all = named(devs, n);
        if exists|i: int| 0 <= i < all.len() && (#[trigger] all[i])@ == name {
            let i = choose|i: int| 0 <= i < all.len() && (#[trigger] all[i])@ == name;
            if i < front.len() {
                assert(front[i]@ == name);
                let k = choose|k: int|
                    0 <= k < n - 1 && (#[trigger] devs[k] matches Some(d) && d@ == name);
                assert(devs[k] matches Some(d) && d@ == name);
            } else {
                assert(devs[n - 1] matches Some(d) && d@ == name);
            }
        }
        if trimmed(name).len() > 0 && exists|i: int|
            0 <= i < n && (#[trigger] devs[i] matches Some(d) && d@ == name) {
            let i = choose|i: int| 0 <= i < n && (#[trigger] devs[i] matches Some(d) && d@ == name);
            if i < n - 1 {
                assert(devs[i] matches Some(d) && d@ == name);
                let k = choose|k: int| 0 <= k < front.len() && (#[trigger] front[k])@ == name;
                assert(all[k]@ == name);
            } else {
                assert(all[front.len() as int]@ == name);
            }
        }
    }
}

/// A microphone is listed if and only if a device that records has its name, and the name is not
/// blank; each is listed once, in the order of the names.
pub proof fn law_microphones(raw: &Option<RawDevices>, r: AudioDevices, name: Seq<char>)
    requires
        call_ensures(list_audio_devices, (raw,), r),
    ensures
        r.wasapi_available == (*raw is Some),
        *raw matches Some(d) ==> ((exists|i: int|
            0 <= i < r.mics@.len() && (#[trigger] r.mics@[i])@ == name) <==> (trimmed(name).len() > 0
            && exists|i: int|
            0 <= i < d.capture@.len() && (#[trigger] d.capture@[i] matches Some(n) && n@ == name))),
        forall|i: int, j: int|
            0 <= i < j < r.mics@.len() ==> before((#[trigger] r.mics@[i])@, (#[trigger] r.mics@[j])@),
        r.system matches Some(n) ==> trimmed(n@).len() > 0 && (*raw matches Some(d) && d.render
            == r.system),
        *raw matches Some(d) ==> (d.render matches Some(n) ==> (trimmed(n@).len() > 0 ==> r.system
            == d.render)),
        *raw is None ==> r.mics@.len() == 0,
{
    if let Some(d) = *raw {
        let all = named(d.capture@, d.capture@.len() as int);
        law_names_listed(all, name);
        lemma_named(d.capture@, d.capture@.len() as int, name);
    }
}

/// The device that is picked is the first with the name that is preferred; none is picked where
/// nothing is preferred, or nothing has that name.
pub proof fn law_device_at(devs: Seq<Option<String>>, name: Seq<char>, from: int)
    requires
        0 <= from,
    ensures
        match device_at(devs, name, from) {
            Some(i) => from <= i < devs.len() && (devs[i] matches Some(n) && n@ == name) && (forall|
                j: int,
            |
                from <= j < i ==> !(#[trigger] devs[j] matches Some(n) && n@ == name)),
            None => forall|j: int|
                from <= j < devs.len() ==> !(#[trigger] devs[j] matches Some(n) && n@ == name),
        },
    decreases devs.len() - from,
{
    if from < devs.len() && !(devs[from] matches Some(n) && n@ == name) {
        law_device_at(devs, name, from + 1);
    }
}

/// Which sounds a mode asks for is the same wherever it is asked: in any case of its letters, and
/// here as in what a recording is prepared with.
pub proof fn law_sounds_asked(mode: Seq<char>)
    ensures
        asks_system(mode) <==> has_system(audio_mode(lowercase(mode))),
        asks_mic(mode) <==> has_mic(audio_mode(lowercase(mode))),
        asks_system(mode) <==> lowercase(mode) == "system"@ || lowercase(mode) == "both"@,
        asks_mic(mode) <==> lowercase(mode) == "mic"@ || lowercase(mode) == "microphone"@ || lowercase(
            mode,
        ) == "both"@,
{
    law_audio_modes(lowercase(mode));
}

/// A recording without all the sound that is asked for says so, and one with all of it says
/// nothing; sound is recorded if any that is asked for can be.
pub proof fn law_missing_sound_is_told(
    mode: &str,
    reachable: bool,
    have_sys: bool,
    have_mic: bool,
    r: PumpStart,
)
    requires
        call_ensures(start_pcm_pump, (mode, reachable, have_sys, have_mic), r),
    ensures
        r.note is Some <==> (asks_system(mode@) && !(reachable && have_sys)) || (asks_mic(mode@)
            && !(reachable && have_mic)),
        r.active <==> reachable && (asks_system(mode@) && have_sys || asks_mic(mode@) && have_mic),
        !reachable ==> !r.active,
        r.note matches Some(n) ==> (!reachable ==> n@ == no_sound()) && (reachable && asks_system(
            mode@,
        ) && !have_sys ==> n@ == no_system()) && (reachable && (!asks_system(mode@) || have_sys)
            ==> n@ == no_mic()),
{
}

/// A rate or a number of channels that can be used is used, and there are two of each; what is
/// used is what a recording is prepared with.
pub proof fn law_usable_sound(rate: u32, channels: u32, r: u32, c: u32)
    requires
        call_ensures(usable_rate, (rate,), r),
        call_ensures(usable_channels, (channels,), c),
    ensures
        r == 44100 || r == 48000,
        c == 1 || c == 2,
        rate == 44100 || rate == 48000 ==> r == rate,
        channels == 1 || channels == 2 ==> c == channels,
        rate != 44100 ==> r == 48000,
        channels != 1 ==> c == 2,
{
}

/// A chunk lasts just as long as a step of the mixer.
pub proof fn law_step_is_a_chunk()
    ensures
        PUMP_CHUNK_FRAMES * 1_000_000_000 == 48_000 * MIX_STEP_NS,
        50 * MIX_STEP_NS == 1_000_000_000,
{
}

/// The samples of chunks are those of one after those of the other.
pub proof fn law_flat(chunks: Seq<Vec<i16>>, c: Vec<i16>)
    ensures
        flat(chunks.push(c)) == flat(chunks) + c@,
        flat(seq![]).len() == 0,
{
    assert(chunks.push(c).drop_last() =~= chunks);
}

/// A step sends what came of each sound that is recorded, sample by sample: both sounds where
/// both are, and the one that is where only one is. What came before is not sent again.
pub proof fn law_step_sends_what_came(
    m: Mixer,
    sys: Vec<i16>,
    mic: Vec<i16>,
    r: MixStep,
    i: int,
)
    requires
        m.wf(),
        sys@.len() == m.size,
        mic@.len() == m.size,
        m.taken(Some(sys), Some(mic)).sends(r),
        0 <= i < m.size,
    ensures
        m.have_sys && m.have_mic ==> (r matches MixStep::Two(v) && v@.len() == m.size && v@[i].0
            == sys@[i] && v@[i].1 == mic@[i]),
        m.have_sys && !m.have_mic ==> (r matches MixStep::One(v) && v@ == sys@),
        !m.have_sys && m.have_mic ==> (r matches MixStep::One(v) && v@ == mic@),
        !m.have_sys && !m.have_mic ==> (r matches MixStep::One(v) && v@.len() == m.size && v@[i]
            == 0),
{
}

/// Where only one of two sounds came, the other is silent in that step, and the one that came is
/// heard.
pub proof fn law_one_sound_stalls(m: Mixer, c: Vec<i16>, a: MixStep, b: MixStep, i: int)
    requires
        m.have_sys && m.have_mic,
        c@.len() == m.size,
        m.taken(Some(c), None).sends(a),
        m.taken(None, Some(c)).sends(b),
        0 <= i < m.size,
    ensures
        a matches MixStep::Two(v) && v@[i] == (c@[i], 0i16),
        b matches MixStep::Two(v) && v@[i] == (0i16, c@[i]),
{
}

/// The steps come at an even pace: what a step took is taken off the wait for the next.
pub proof fn law_even_pace(elapsed_ns: u64, r: u64)
    requires
        call_ensures(step_wait, (elapsed_ns,), r),
    ensures
        elapsed_ns <= 20_000_000 ==> elapsed_ns + r == 20_000_000,
        elapsed_ns >= 20_000_000 ==> r == 0,
{
}

} // verus!
