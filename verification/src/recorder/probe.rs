//! What the encoder program offers: its encoders, and the audio devices.
use vstd::prelude::*;

use crate::text::{
    begins, char_at, contains, find_char, from_chars, from_utf8_lossy, holds, is_listed,
    law_first_char, law_found_in_a_row, law_lines, lines, lines_of, listed, lossy, lowercase, same,
    stands_at, starts_with, texts, to_chars, to_lowercase, trim, trimmed,
};

verus! {

/// What the encoder program at `ffmpeg` offers.
pub struct Probe {
    pub ffmpeg: String,
    pub version: String,
    pub h264: Vec<String>,
    pub hevc: Vec<String>,
    pub av1: Vec<String>,
    pub audio_devices: Vec<String>,
    pub system_hint: Option<String>,
}

impl Clone for Probe {
    fn clone(&self) -> (r: Self)
        ensures
            r.ffmpeg == self.ffmpeg,
            r.version == self.version,
            r.h264@ == self.h264@,
            r.hevc@ == self.hevc@,
            r.av1@ == self.av1@,
            r.audio_devices@ == self.audio_devices@,
            r.system_hint == self.system_hint,
    {
        Probe {
            ffmpeg: self.ffmpeg.clone(),
            version: self.version.clone(),
            h264: self.h264.clone(),
            hevc: self.hevc.clone(),
            av1: self.av1.clone(),
            audio_devices: self.audio_devices.clone(),
            system_hint: self.system_hint.clone(),
        }
    }
}

/// The codec families.
#[derive(PartialEq, Eq, Structural, Clone, Copy)]
pub enum Family {
    H264,
    Hevc,
    Av1,
}

/// The number of encoders that are looked for.
pub const KNOWN: usize = 11;

/// The encoders that are looked for, in this order.
pub open spec fn known_name(k: int) -> Seq<char> {
    if k == 0 {
        "h264_nvenc"@
    } else if k == 1 {
        "h264_qsv"@
    } else if k == 2 {
        "h264_amf"@
    } else if k == 3 {
        "libx264"@
    } else if k == 4 {
        "hevc_nvenc"@
    } else if k == 5 {
        "hevc_qsv"@
    } else if k == 6 {
        "hevc_amf"@
    } else if k == 7 {
        "libx265"@
    } else if k == 8 {
        "av1_nvenc"@
    } else if k == 9 {
        "av1_qsv"@
    } else {
        "av1_amf"@
    }
}

fn known_encoder(k: usize) -> (r: &'static str)
    ensures
        r@ == known_name(k as int),
{
    if k == 0 {
        "h264_nvenc"
    } else if k == 1 {
        "h264_qsv"
    } else if k == 2 {
        "h264_amf"
    } else if k == 3 {
        "libx264"
    } else if k == 4 {
        "hevc_nvenc"
    } else if k == 5 {
        "hevc_qsv"
    } else if k == 6 {
        "hevc_amf"
    } else if k == 7 {
        "libx265"
    } else if k == 8 {
        "av1_nvenc"
    } else if k == 9 {
        "av1_qsv"
    } else {
        "av1_amf"
    }
}

/// The family of an encoder.
pub open spec fn family(name: Seq<char>) -> Family {
    if begins(name, "h264"@) || name == "libx264"@ {
        Family::H264
    } else if begins(name, "hevc"@) || name == "libx265"@ {
        Family::Hevc
    } else {
        Family::Av1
    }
}

fn family_of(name: &str) -> (r: Family)
    ensures
        r == family(name@),
{
    if starts_with(name, "h264") || same(name, "libx264") {
        Family::H264
    } else if starts_with(name, "hevc") || same(name, "libx265") {
        Family::Hevc
    } else {
        Family::Av1
    }
}

/// `list` with `name` at its end, unless it is there already.
pub open spec fn noted(list: Seq<Seq<char>>, name: Seq<char>) -> Seq<Seq<char>> {
    if list.contains(name) {
        list
    } else {
        list.push(name)
    }
}

/// The encoders of a family after the first `k` names were looked for in a line.
pub open spec fn noted_in_line(
    list: Seq<Seq<char>>,
    line: Seq<char>,
    k: int,
    fam: Family,
) -> Seq<Seq<char>>
    decreases k,
{
    if k <= 0 {
        list
    } else {
        let l = noted_in_line(list, line, k - 1, fam);
        if holds(line, known_name(k - 1)) && family(known_name(k - 1)) == fam {
            noted(l, known_name(k - 1))
        } else {
            l
        }
    }
}

/// The encoders of a family that the first `n` lines name, in the order in which
/// they are found.
pub open spec fn found(all: Seq<Seq<char>>, n: int, fam: Family) -> Seq<Seq<char>>
    decreases n,
{
    if n <= 0 {
        seq![]
    } else {
        noted_in_line(found(all, n - 1, fam), all[n - 1], KNOWN as int, fam)
    }
}

fn note(list: &mut Vec<String>, name: &str)
    ensures
        texts(final(list)@) == noted(texts(old(list)@), name@),
{
    let there: bool = is_listed(list, name);
    proof {
        let t = texts(list@);
        if there {
            let i = choose|i: int| 0 <= i < list@.len() && (#[trigger] list@[i])@ == name@;
            assert(t[i] == name@);
        } else if t.contains(name@) {
            let i = choose|i: int| 0 <= i < t.len() && t[i] == name@;
            assert(list@[i]@ == name@);
        }
    }
    if !there {
        let ghost before = texts(list@);
        list.push(name.to_string());
        assert(texts(list@) =~= before.push(name@));
    }
}

/// Reads the list of encoders that the program prints.
pub fn scan_encoders(txt: &str) -> (r: (Vec<String>, Vec<String>, Vec<String>))
    ensures
        texts(r.0@) == found(lines_of(txt@), lines_of(txt@).len() as int, Family::H264),
        texts(r.1@) == found(lines_of(txt@), lines_of(txt@).len() as int, Family::Hevc),
        texts(r.2@) == found(lines_of(txt@), lines_of(txt@).len() as int, Family::Av1),
{
    let all = lines(txt);
    let ghost ls = lines_of(txt@);
    let mut h264: Vec<String> = Vec::new();
    let mut hevc: Vec<String> = Vec::new();
    let mut av1: Vec<String> = Vec::new();
    assert(texts(h264@) =~= seq![]);
    let mut i: usize = 0;
    while i < all.len()
        invariant
            i <= all.len(),
            texts(all@) == ls,
            texts(h264@) == found(ls, i as int, Family::H264),
            texts(hevc@) == found(ls, i as int, Family::Hevc),
            texts(av1@) == found(ls, i as int, Family::Av1),
        decreases all.len() - i,
    {
        assert(ls[i as int] == all@[i as int]@);
        let mut k: usize = 0;
        while k < KNOWN
            invariant
                i < all.len(),
                k <= KNOWN,
                texts(all@) == ls,
                ls[i as int] == all@[i as int]@,
                texts(h264@) == noted_in_line(
                    found(ls, i as int, Family::H264),
                    ls[i as int],
                    k as int,
                    Family::H264,
                ),
                texts(hevc@) == noted_in_line(
                    found(ls, i as int, Family::Hevc),
                    ls[i as int],
                    k as int,
                    Family::Hevc,
                ),
                texts(av1@) == noted_in_line(
                    found(ls, i as int, Family::Av1),
                    ls[i as int],
                    k as int,
                    Family::Av1,
                ),
            decreases KNOWN - k,
        {
            let name = known_encoder(k);
            if contains(all[i].as_str(), name) {
                match family_of(name) {
                    Family::H264 => note(&mut h264, name),
                    Family::Hevc => note(&mut hevc, name),
                    Family::Av1 => note(&mut av1, name),
                }
            }
            k = k + 1;
        }
        i = i + 1;
    }
    (h264, hevc, av1)
}

/// The text between the first two quotation marks of a line.
pub open spec fn quoted(line: Seq<char>) -> Option<Seq<char>> {
    match char_at(line, '"', 0) {
        Some(a) => match char_at(line, '"', a + 1) {
            Some(b) => Some(line.subrange(a + 1, b)),
            None => None,
        },
        None => None,
    }
}

fn quoted_part(line: &str) -> (r: Option<String>)
    ensures
        match r {
            Some(q) => quoted(line@) == Some(q@),
            None => quoted(line@) is None,
        },
{
    let v = to_chars(line);
    let a: usize = find_char(&v, '"', 0)?;
    let b: usize = find_char(&v, '"', a + 1)?;
    Some(from_chars(&v, a + 1, b))
}

/// Whether the lines that follow name audio devices, after the first `n` lines.
pub open spec fn in_audio(all: Seq<Seq<char>>, n: int) -> bool
    decreases n,
{
    if n <= 0 {
        false
    } else if holds(lowercase(trimmed(all[n - 1])), "directshow audio devices"@) {
        true
    } else if holds(lowercase(trimmed(all[n - 1])), "directshow video devices"@) {
        false
    } else {
        in_audio(all, n - 1)
    }
}

/// Whether a line is the heading of a list of devices.
pub open spec fn is_heading(line: Seq<char>) -> bool {
    holds(lowercase(trimmed(line)), "directshow audio devices"@) || holds(
        lowercase(trimmed(line)),
        "directshow video devices"@,
    )
}

/// The audio devices that the first `n` lines name: the quoted text of each line
/// below an audio heading, but for an empty one and the dummy.
pub open spec fn devices(all: Seq<Seq<char>>, n: int) -> Seq<Seq<char>>
    decreases n,
{
    if n <= 0 {
        seq![]
    } else if !is_heading(all[n - 1]) && in_audio(all, n - 1) {
        match quoted(all[n - 1]) {
            Some(q) => if q.len() > 0 && q != "dummy"@ {
                devices(all, n - 1).push(q)
            } else {
                devices(all, n - 1)
            },
            None => devices(all, n - 1),
        }
    } else {
        devices(all, n - 1)
    }
}

/// Reads the list of devices that the program prints.
pub fn scan_devices(txt: &str) -> (r: Vec<String>)
    ensures
        texts(r@) == devices(lines_of(txt@), lines_of(txt@).len() as int),
{
    let all = lines(txt);
    let ghost ls = lines_of(txt@);
    let mut out: Vec<String> = Vec::new();
    assert(texts(out@) =~= seq![]);
    let mut audio: bool = false;
    let mut i: usize = 0;
    while i < all.len()
        invariant
            i <= all.len(),
            texts(all@) == ls,
            audio == in_audio(ls, i as int),
            texts(out@) == devices(ls, i as int),
        decreases all.len() - i,
    {
        let line = all[i].as_str();
        assert(ls[i as int] == line@);
        let ghost before = texts(out@);
        let t = trim(line);
        let l = to_lowercase(t.as_str());
        if contains(l.as_str(), "directshow audio devices") {
            audio = true;
        } else if contains(l.as_str(), "directshow video devices") {
            audio = false;
        } else if audio {
            if let Some(name) = quoted_part(line) {
                if !name.as_str().is_empty() && !same(name.as_str(), "dummy") {
                    let ghost q = name@;
                    out.push(name);
                    assert(texts(out@) =~= before.push(q));
                }
            }
        }
        i = i + 1;
    }
    out
}

/// Whether the name of a device is that of a recording of what is played.
pub open spec fn sounds_like_system(name: Seq<char>) -> bool {
    let l = lowercase(name);
    holds(l, "stereo mix"@) || holds(l, "what u hear"@) || holds(l, "loopback"@) || holds(l, "mix"@) || holds(
        l,
        "wave out"@,
    )
}

/// The first device from `from` on whose name is that of a recording of what is
/// played.
pub open spec fn first_system(devs: Seq<String>, from: int) -> Option<String>
    decreases devs.len() - from,
{
    if from < 0 || from >= devs.len() {
        None
    } else if sounds_like_system(devs[from]@) {
        Some(devs[from])
    } else {
        first_system(devs, from + 1)
    }
}

/// Picks the device that records what is played.
pub fn system_hint(devs: &Vec<String>) -> (r: Option<String>)
    ensures
        r == first_system(devs@, 0),
{
    let mut i: usize = 0;
    while i < devs.len()
        invariant
            i <= devs.len(),
            first_system(devs@, 0) == first_system(devs@, i as int),
        decreases devs.len() - i,
    {
        let l = to_lowercase(devs[i].as_str());
        let n = l.as_str();
        if contains(n, "stereo mix") || contains(n, "what u hear") || contains(n, "loopback")
            || contains(n, "mix") || contains(n, "wave out") {
            return Some(devs[i].clone());
        }
        i = i + 1;
    }
    None
}

/// What the program printed when it was asked. A part is missing where the
/// program did not run; the devices come from both of its output streams.
pub struct ProbeOutput {
    pub version: Option<Vec<u8>>,
    pub encoders: Option<Vec<u8>>,
    pub devices: Option<(Vec<u8>, Vec<u8>)>,
}

/// The first line of what the program printed, empty where there is none.
pub open spec fn version_line(out: Option<Vec<u8>>) -> Seq<char> {
    match out {
        Some(b) => {
            let ls = lines_of(lossy(b@));
            if ls.len() > 0 {
                ls[0]
            } else {
                seq![]
            }
        },
        None => seq![],
    }
}

/// The version that the program tells.
pub fn ffmpeg_version(out: &Option<Vec<u8>>) -> (r: String)
    ensures
        r@ == version_line(*out),
{
    match out {
        Some(b) => {
            let txt = from_utf8_lossy(b.as_slice());
            let ls = lines(txt.as_str());
            proof {
                if ls@.len() > 0 {
                    assert(texts(ls@)[0] == ls@[0]@);
                }
            }
            if ls.len() > 0 {
                ls[0].clone()
            } else {
                String::new()
            }
        },
        None => String::new(),
    }
}

/// The lines of an optional output.
pub open spec fn output_lines(out: Option<Vec<u8>>) -> Seq<Seq<char>> {
    match out {
        Some(b) => lines_of(lossy(b@)),
        None => seq![],
    }
}

/// The lines of the list of devices.
pub open spec fn device_lines(out: Option<(Vec<u8>, Vec<u8>)>) -> Seq<Seq<char>> {
    match out {
        Some(p) => lines_of(lossy(p.0@) + lossy(p.1@)),
        None => seq![],
    }
}

/// Makes out what the program at `ff` offers from what it printed.
pub fn run_probe(ff: &str, out: &ProbeOutput) -> (r: Probe)
    ensures
        r.ffmpeg@ == ff@,
        r.version@ == version_line(out.version),
        texts(r.h264@) == found(
            output_lines(out.encoders),
            output_lines(out.encoders).len() as int,
            Family::H264,
        ),
        texts(r.hevc@) == found(
            output_lines(out.encoders),
            output_lines(out.encoders).len() as int,
            Family::Hevc,
        ),
        texts(r.av1@) == found(
            output_lines(out.encoders),
            output_lines(out.encoders).len() as int,
            Family::Av1,
        ),
        texts(r.audio_devices@) == devices(
            device_lines(out.devices),
            device_lines(out.devices).len() as int,
        ),
        r.system_hint == first_system(r.audio_devices@, 0),
{
    let version = ffmpeg_version(&out.version);
    let (h264, hevc, av1) = match &out.encoders {
        Some(b) => {
            let txt = from_utf8_lossy(b.as_slice());
            scan_encoders(txt.as_str())
        },
        None => (Vec::new(), Vec::new(), Vec::new()),
    };
    let audio_devices = match &out.devices {
        Some(p) => {
            let mut txt = from_utf8_lossy(p.0.as_slice());
            let err = from_utf8_lossy(p.1.as_slice());
            txt.append(err.as_str());
            scan_devices(txt.as_str())
        },
        None => Vec::new(),
    };
    let system_hint = system_hint(&audio_devices);
    proof {
        if out.encoders is None {
            assert(texts(h264@) =~= seq![]);
            assert(texts(hevc@) =~= seq![]);
            assert(texts(av1@) =~= seq![]);
        }
        if out.devices is None {
            assert(texts(audio_devices@) =~= seq![]);
        }
    }
    Probe { ffmpeg: ff.to_string(), version, h264, hevc, av1, audio_devices, system_hint }
}

// ---- the chain of encoders ----

/// What kind of encoder this is, for the user.
pub open spec fn label_of(e: Seq<char>) -> Seq<char> {
    if holds(e, "nvenc"@) {
        "NVIDIA NVENC"@
    } else if holds(e, "qsv"@) {
        "Intel Quick Sync"@
    } else if holds(e, "amf"@) {
        "AMD AMF"@
    } else {
        "Software (CPU)"@
    }
}

/// Whether an encoder runs on the graphics hardware.
pub open spec fn is_hw(e: Seq<char>) -> bool {
    holds(e, "nvenc"@) || holds(e, "qsv"@) || holds(e, "amf"@)
}

/// What kind of encoder this is, for the user.
pub fn hw_label(e: &str) -> (r: &'static str)
    ensures
        r@ == label_of(e@),
{
    if contains(e, "nvenc") {
        "NVIDIA NVENC"
    } else if contains(e, "qsv") {
        "Intel Quick Sync"
    } else if contains(e, "amf") {
        "AMD AMF"
    } else {
        "Software (CPU)"
    }
}

/// Whether an encoder runs on the graphics hardware.
pub fn is_hw_encoder(e: &str) -> (r: bool)
    ensures
        r == is_hw(e@),
{
    contains(e, "nvenc") || contains(e, "qsv") || contains(e, "amf")
}

/// An encoder that is tried, with what to call it.
pub struct EncCand {
    pub name: String,
    pub label: String,
}

/// The names of a list of candidates.
pub open spec fn names(chain: Seq<EncCand>) -> Seq<Seq<char>> {
    Seq::new(chain.len(), |i: int| chain[i].name@)
}

/// Whether each candidate is called by what it is.
pub open spec fn labelled(chain: Seq<EncCand>) -> bool {
    forall|i: int| 0 <= i < chain.len() ==> (#[trigger] chain[i]).label@ == label_of(chain[i].name@)
}

/// The encoders of a family in the order in which they are tried: those of the
/// hardware first. AV1 is left to the hardware.
pub open spec fn preference(fam: Family) -> Seq<Seq<char>> {
    match fam {
        Family::H264 => seq!["h264_nvenc"@, "h264_qsv"@, "h264_amf"@, "libx264"@],
        Family::Hevc => seq!["hevc_nvenc"@, "hevc_qsv"@, "hevc_amf"@, "libx265"@],
        Family::Av1 => seq!["av1_nvenc"@, "av1_qsv"@, "av1_amf"@],
    }
}

/// The encoders of a family that the program offers.
pub open spec fn offered(probe: Probe, fam: Family) -> Seq<String> {
    match fam {
        Family::H264 => probe.h264@,
        Family::Hevc => probe.hevc@,
        Family::Av1 => probe.av1@,
    }
}

/// `chain` with those of the first `k` names at its end that are offered and not
/// in it yet.
pub open spec fn chained(
    chain: Seq<Seq<char>>,
    wanted: Seq<Seq<char>>,
    k: int,
    avail: Seq<String>,
) -> Seq<Seq<char>>
    decreases k,
{
    if k <= 0 {
        chain
    } else {
        let c = chained(chain, wanted, k - 1, avail);
        if listed(avail, wanted[k - 1]) && !c.contains(wanted[k - 1]) {
            c.push(wanted[k - 1])
        } else {
            c
        }
    }
}

/// The family that a codec asks for before H.264.
pub open spec fn asked_family(codec: Seq<char>) -> Option<Family> {
    if codec == "hevc"@ {
        Some(Family::Hevc)
    } else if codec == "av1"@ {
        Some(Family::Av1)
    } else {
        None
    }
}

/// `chain` with what is offered of a family behind it.
pub open spec fn with_family(chain: Seq<Seq<char>>, probe: Probe, fam: Family) -> Seq<Seq<char>> {
    chained(chain, preference(fam), preference(fam).len() as int, offered(probe, fam))
}

/// The encoders to try for a codec: those of its family, then those of H.264;
/// the software encoder where nothing is offered.
pub open spec fn chain_names(probe: Probe, codec: Seq<char>) -> Seq<Seq<char>> {
    let first = match asked_family(codec) {
        Some(fam) => with_family(seq![], probe, fam),
        None => seq![],
    };
    let all = with_family(first, probe, Family::H264);
    if all.len() == 0 {
        seq!["libx264"@]
    } else {
        all
    }
}

fn preferred(fam: Family, k: usize) -> (r: &'static str)
    requires
        k < preference(fam).len(),
    ensures
        r@ == preference(fam)[k as int],
{
    match fam {
        Family::H264 => if k == 0 {
            "h264_nvenc"
        } else if k == 1 {
            "h264_qsv"
        } else if k == 2 {
            "h264_amf"
        } else {
            "libx264"
        },
        Family::Hevc => if k == 0 {
            "hevc_nvenc"
        } else if k == 1 {
            "hevc_qsv"
        } else if k == 2 {
            "hevc_amf"
        } else {
            "libx265"
        },
        Family::Av1 => if k == 0 {
            "av1_nvenc"
        } else if k == 1 {
            "av1_qsv"
        } else {
            "av1_amf"
        },
    }
}

fn in_chain(chain: &Vec<EncCand>, name: &str) -> (r: bool)
    ensures
        r == names(chain@).contains(name@),
{
    let mut i: usize = 0;
    while i < chain.len()
        invariant
            i <= chain.len(),
            forall|k: int| 0 <= k < i ==> (#[trigger] chain@[k]).name@ != name@,
        decreases chain.len() - i,
    {
        if same(chain[i].name.as_str(), name) {
            assert(names(chain@)[i as int] == name@);
            return true;
        }
        i = i + 1;
    }
    proof {
        if names(chain@).contains(name@) {
            let k = choose|k: int| 0 <= k < names(chain@).len() && names(chain@)[k] == name@;
            assert(chain@[k].name@ == name@);
        }
    }
    false
}

fn add_family(chain: &mut Vec<EncCand>, avail: &Vec<String>, fam: Family)
    requires
        labelled(old(chain)@),
    ensures
        labelled(final(chain)@),
        names(final(chain)@) == chained(
            names(old(chain)@),
            preference(fam),
            preference(fam).len() as int,
            avail@,
        ),
{
    let n: usize = match fam {
        Family::Av1 => 3,
        _ => 4,
    };
    let mut k: usize = 0;
    while k < n
        invariant
            k <= n,
            n == preference(fam).len(),
            labelled(chain@),
            names(chain@) == chained(names(old(chain)@), preference(fam), k as int, avail@),
        decreases n - k,
    {
        let name = preferred(fam, k);
        if is_listed(avail, name) && !in_chain(chain, name) {
            let ghost before = names(chain@);
            chain.push(EncCand { name: name.to_string(), label: hw_label(name).to_string() });
            assert(names(chain@) =~= before.push(name@));
        }
        k = k + 1;
    }
}

/// The encoders to try for a codec, hardware first, software last. That an
/// encoder is offered does not mean that it runs: each is tried, and the first
/// that runs is used.
pub fn encoder_chain(probe: &Probe, codec: &str) -> (r: Vec<EncCand>)
    ensures
        names(r@) == chain_names(*probe, codec@),
        labelled(r@),
        r.len() > 0,
{
    let mut chain: Vec<EncCand> = Vec::new();
    assert(names(chain@) =~= seq![]);
    if same(codec, "hevc") {
        add_family(&mut chain, &probe.hevc, Family::Hevc);
    } else if same(codec, "av1") {
        add_family(&mut chain, &probe.av1, Family::Av1);
    }
    add_family(&mut chain, &probe.h264, Family::H264);
    if chain.len() == 0 {
        proof {
            lemma_software_label();
        }
        chain.push(
            EncCand { name: "libx264".to_string(), label: "Software (CPU)".to_string() },
        );
        assert(names(chain@) =~= seq!["libx264"@]);
    } else {
        assert(names(chain@).len() == chain@.len());
    }
    chain
}

proof fn lemma_absent(s: Seq<char>, p: Seq<char>, missing: char)
    requires
        p.contains(missing),
        !s.contains(missing),
    ensures
        !holds(s, p),
{
    let k = choose|k: int| 0 <= k < p.len() && p[k] == missing;
    assert forall|i: int| !stands_at(s, p, i) by {
        if stands_at(s, p, i) {
            assert(s.subrange(i, i + p.len())[k] == p[k]);
            assert(s[i + k] == missing);
        }
    }
}

/// The encoders in software are not called by the name of any hardware.
pub proof fn lemma_software_label()
    ensures
        label_of("libx264"@) == "Software (CPU)"@,
        !is_hw("libx264"@),
        !is_hw("libx265"@),
{
    reveal_strlit("libx264");
    reveal_strlit("libx265");
    reveal_strlit("nvenc");
    reveal_strlit("qsv");
    reveal_strlit("amf");
    assert("nvenc"@[0] == 'n');
    assert("qsv"@[0] == 'q');
    assert("amf"@[0] == 'a');
    lemma_absent("libx264"@, "nvenc"@, 'n');
    lemma_absent("libx264"@, "qsv"@, 'q');
    lemma_absent("libx264"@, "amf"@, 'a');
    lemma_absent("libx265"@, "nvenc"@, 'n');
    lemma_absent("libx265"@, "qsv"@, 'q');
    lemma_absent("libx265"@, "amf"@, 'a');
}

/// What to do to know the program's abilities.
pub enum ProbeStep {
    /// What was found out before is still good.
    Known(Probe),
    /// The program has to be asked.
    Ask,
}

/// What is said where there is no program.
pub open spec fn no_engine() -> Seq<char> {
    "Recorder engine (ffmpeg) is missing. Open Settings → Recording and download it once (~80MB). / محرك التسجيل غير موجود — حمّله من الإعدادات."@
}

/// Decides how to know what the program at `ff` can do: what was found out before is good
/// for the same program, unless it is to be found out anew.
pub fn get_probe(refresh: bool, cached: Option<Probe>, ff: &Option<String>) -> (r: Result<
    ProbeStep,
    String,
>)
    ensures
        match *ff {
            None => r matches Err(e) && e@ == no_engine(),
            Some(path) => r == Ok::<ProbeStep, String>(
                match cached {
                    Some(p) if !refresh && p.ffmpeg@ == path@ => ProbeStep::Known(p),
                    _ => ProbeStep::Ask,
                },
            ),
        },
{
    match ff {
        None => Err(
            "Recorder engine (ffmpeg) is missing. Open Settings → Recording and download it once (~80MB). / محرك التسجيل غير موجود — حمّله من الإعدادات.".to_string(),
        ),
        Some(path) => match cached {
            Some(p) => if !refresh && same(p.ffmpeg.as_str(), path.as_str()) {
                Ok(ProbeStep::Known(p))
            } else {
                Ok(ProbeStep::Ask)
            },
            None => Ok(ProbeStep::Ask),
        },
    }
}

// ---- laws ----

proof fn lemma_noted_in_line(list: Seq<Seq<char>>, line: Seq<char>, k: int, fam: Family)
    requires
        0 <= k <= KNOWN,
    ensures
        list.no_duplicates() ==> noted_in_line(list, line, k, fam).no_duplicates(),
        forall|name: Seq<char>| #[trigger]
            noted_in_line(list, line, k, fam).contains(name) <==> list.contains(name) || (family(
                name,
            ) == fam && holds(line, name) && exists|j: int| 0 <= j < k && known_name(j) == name),
    decreases k,
{
    if k > 0 {
        lemma_noted_in_line(list, line, k - 1, fam);
        let l = noted_in_line(list, line, k - 1, fam);
        let now = noted_in_line(list, line, k, fam);
        let added = known_name(k - 1);
        assert forall|name: Seq<char>| #[trigger] now.contains(name) implies l.contains(name)
            || name == added by {
            let i = choose|i: int| 0 <= i < now.len() && now[i] == name;
            if i < l.len() {
                assert(l[i] == name);
            }
        }
        assert forall|name: Seq<char>| l.contains(name) implies #[trigger] now.contains(name) by {
            let i = choose|i: int| 0 <= i < l.len() && l[i] == name;
            assert(now[i] == name);
        }
        if now.len() > l.len() {
            assert(now[l.len() as int] == added);
            assert(now.contains(added));
        }
        assert forall|name: Seq<char>| #[trigger]
            now.contains(name) <==> list.contains(name) || (family(name) == fam && holds(line, name)
                && exists|j: int| 0 <= j < k && known_name(j) == name) by {
            if family(name) == fam && holds(line, name) && exists|j: int|
                0 <= j < k && known_name(j) == name {
                let j = choose|j: int| 0 <= j < k && known_name(j) == name;
                if j < k - 1 {
                    assert(l.contains(name));
                }
            }
        }
    }
}

/// An encoder is found if and only if it is one of those looked for, belongs to
/// the family, and some line of what the program printed names it. None is found
/// twice.
pub proof fn law_found_exactly(all: Seq<Seq<char>>, n: int, fam: Family)
    requires
        0 <= n <= all.len(),
    ensures
        found(all, n, fam).no_duplicates(),
        forall|name: Seq<char>| #[trigger]
            found(all, n, fam).contains(name) <==> (family(name) == fam && (exists|j: int|
                0 <= j < KNOWN && known_name(j) == name) && exists|i: int|
                0 <= i < n && holds(#[trigger] all[i], name)),
    decreases n,
{
    if n > 0 {
        law_found_exactly(all, n - 1, fam);
        lemma_noted_in_line(found(all, n - 1, fam), all[n - 1], KNOWN as int, fam);
        assert forall|name: Seq<char>| #[trigger]
            found(all, n, fam).contains(name) <==> (family(name) == fam && (exists|j: int|
                0 <= j < KNOWN && known_name(j) == name) && exists|i: int|
                0 <= i < n && holds(#[trigger] all[i], name)) by {
            let old_list = found(all, n - 1, fam);
            if old_list.contains(name) {
                let i = choose|i: int| 0 <= i < n - 1 && holds(#[trigger] all[i], name);
                assert(holds(all[i], name));
            }
            if family(name) == fam && exists|i: int| 0 <= i < n && holds(#[trigger] all[i], name) {
                let i = choose|i: int| 0 <= i < n && holds(#[trigger] all[i], name);
                if i == n - 1 {
                    assert(holds(all[n - 1], name));
                }
            }
        }
    } else {
        assert forall|name: Seq<char>| !#[trigger] found(all, n, fam).contains(name) by {}
    }
}

proof fn lemma_chained(chain: Seq<Seq<char>>, wanted: Seq<Seq<char>>, k: int, avail: Seq<String>)
    requires
        0 <= k <= wanted.len(),
    ensures
        chain.no_duplicates() ==> chained(chain, wanted, k, avail).no_duplicates(),
        chained(chain, wanted, k, avail).len() >= chain.len(),
        chained(chain, wanted, k, avail).take(chain.len() as int) == chain,
        forall|i: int|
            chain.len() <= i < chained(chain, wanted, k, avail).len() ==> listed(
                avail,
                #[trigger] chained(chain, wanted, k, avail)[i],
            ) && wanted.take(k).contains(chained(chain, wanted, k, avail)[i]),
        forall|j: int|
            0 <= j < k && listed(avail, #[trigger] wanted[j]) ==> chained(
                chain,
                wanted,
                k,
                avail,
            ).contains(wanted[j]),
    decreases k,
{
    if k > 0 {
        lemma_chained(chain, wanted, k - 1, avail);
        let c = chained(chain, wanted, k - 1, avail);
        let now = chained(chain, wanted, k, avail);
        assert(now.take(chain.len() as int) =~= c.take(chain.len() as int));
        assert forall|i: int| chain.len() <= i < now.len() implies listed(avail, #[trigger] now[i])
            && wanted.take(k).contains(now[i]) by {
            if i < c.len() {
                assert(now[i] == c[i]);
                let w = wanted.take(k - 1);
                let m = choose|m: int| 0 <= m < w.len() && w[m] == c[i];
                assert(wanted.take(k)[m] == c[i]);
            } else {
                assert(wanted.take(k)[k - 1] == now[i]);
            }
        }
        assert forall|j: int| 0 <= j < k && listed(avail, #[trigger] wanted[j]) implies now.contains(
            wanted[j],
        ) by {
            if j < k - 1 {
                let m = choose|m: int| 0 <= m < c.len() && c[m] == wanted[j];
                assert(now[m] == wanted[j]);
            } else if !c.contains(wanted[j]) {
                assert(now[c.len() as int] == wanted[j]);
            } else {
                assert(now == c);
            }
        }
    } else {
        assert(chained(chain, wanted, k, avail).take(chain.len() as int) =~= chain);
    }
}

/// No encoder is tried twice, and at least one is tried.
pub proof fn law_chain_distinct(probe: Probe, codec: Seq<char>)
    ensures
        chain_names(probe, codec).no_duplicates(),
        chain_names(probe, codec).len() > 0,
{
    let empty: Seq<Seq<char>> = seq![];
    let first = match asked_family(codec) {
        Some(fam) => with_family(empty, probe, fam),
        None => empty,
    };
    match asked_family(codec) {
        Some(fam) => lemma_chained(
            empty,
            preference(fam),
            preference(fam).len() as int,
            offered(probe, fam),
        ),
        None => {},
    }
    lemma_chained(
        first,
        preference(Family::H264),
        preference(Family::H264).len() as int,
        offered(probe, Family::H264),
    );
}

proof fn lemma_distinct_names()
    ensures
        preference(Family::Hevc).no_duplicates(),
        !preference(Family::Hevc).contains("libx264"@),
        !preference(Family::Av1).contains("libx264"@),
        preference(Family::H264).no_duplicates(),
{
    reveal_strlit("h264_nvenc");
    reveal_strlit("h264_qsv");
    reveal_strlit("h264_amf");
    reveal_strlit("libx264");
    reveal_strlit("hevc_nvenc");
    reveal_strlit("hevc_qsv");
    reveal_strlit("hevc_amf");
    reveal_strlit("libx265");
    reveal_strlit("av1_nvenc");
    reveal_strlit("av1_qsv");
    reveal_strlit("av1_amf");
    assert("h264_qsv"@[5] == 'q' && "h264_amf"@[5] == 'a');
    assert("hevc_qsv"@[5] == 'q' && "hevc_amf"@[5] == 'a');
    assert("libx264"@[0] == 'l' && "libx265"@[0] == 'l' && "libx264"@[6] == '4' && "libx265"@[6]
        == '5');
    assert("av1_qsv"@[4] == 'q' && "av1_amf"@[4] == 'a');
}

/// The software encoder of H.264, where it is offered, is the last one tried:
/// the chain falls back to it whatever the hardware does.
pub proof fn law_software_last(probe: Probe, codec: Seq<char>)
    requires
        listed(probe.h264@, "libx264"@),
    ensures
        chain_names(probe, codec).last() == "libx264"@,
{
    let empty: Seq<Seq<char>> = seq![];
    let first = match asked_family(codec) {
        Some(fam) => with_family(empty, probe, fam),
        None => empty,
    };
    lemma_distinct_names();
    match asked_family(codec) {
        Some(fam) => {
            let wanted = preference(fam);
            lemma_chained(empty, wanted, wanted.len() as int, offered(probe, fam));
            assert(wanted.take(wanted.len() as int) =~= wanted);
        },
        None => {},
    }
    assert(!first.contains("libx264"@)) by {
        if first.contains("libx264"@) {
            let i = choose|i: int| 0 <= i < first.len() && first[i] == "libx264"@;
            assert(preference(asked_family(codec)->0).contains(first[i]));
        }
    }
    let wanted = preference(Family::H264);
    let avail = offered(probe, Family::H264);
    let c = chained(first, wanted, 3, avail);
    lemma_chained(first, wanted, 3, avail);
    assert(!c.contains("libx264"@)) by {
        if c.contains("libx264"@) {
            let i = choose|i: int| 0 <= i < c.len() && c[i] == "libx264"@;
            if i < first.len() {
                assert(c.take(first.len() as int)[i] == c[i]);
                assert(first[i] == c[i]);
            } else {
                let w = wanted.take(3);
                let m = choose|m: int| 0 <= m < w.len() && w[m] == c[i];
                assert(wanted[m] == wanted[3]);
            }
        }
    }
    assert(wanted[3] == "libx264"@);
    assert(chained(first, wanted, 4, avail) == c.push("libx264"@));
}

proof fn lemma_known_names()
    ensures
        begins("h264_nvenc"@, "h264"@) && begins("h264_qsv"@, "h264"@) && begins(
            "h264_amf"@,
            "h264"@,
        ),
        begins("hevc_nvenc"@, "hevc"@) && begins("hevc_qsv"@, "hevc"@) && begins(
            "hevc_amf"@,
            "hevc"@,
        ),
        !begins("hevc_nvenc"@, "h264"@) && !begins("hevc_qsv"@, "h264"@) && !begins(
            "hevc_amf"@,
            "h264"@,
        ),
        !begins("libx265"@, "h264"@) && !begins("libx264"@, "hevc"@) && "libx264"@ != "libx265"@,
        "hevc_nvenc"@ != "libx264"@ && "hevc_qsv"@ != "libx264"@ && "hevc_amf"@ != "libx264"@,
        !begins("av1_nvenc"@, "h264"@) && !begins("av1_qsv"@, "h264"@) && !begins(
            "av1_amf"@,
            "h264"@,
        ),
        !begins("av1_nvenc"@, "hevc"@) && !begins("av1_qsv"@, "hevc"@) && !begins(
            "av1_amf"@,
            "hevc"@,
        ),
        "av1_nvenc"@ != "libx264"@ && "av1_qsv"@ != "libx264"@ && "av1_amf"@ != "libx264"@,
        "av1_nvenc"@ != "libx265"@ && "av1_qsv"@ != "libx265"@ && "av1_amf"@ != "libx265"@,
{
    reveal_strlit("h264");
    reveal_strlit("hevc");
    reveal_strlit("h264_nvenc");
    reveal_strlit("h264_qsv");
    reveal_strlit("h264_amf");
    reveal_strlit("libx264");
    reveal_strlit("hevc_nvenc");
    reveal_strlit("hevc_qsv");
    reveal_strlit("hevc_amf");
    reveal_strlit("libx265");
    reveal_strlit("av1_nvenc");
    reveal_strlit("av1_qsv");
    reveal_strlit("av1_amf");
    assert("libx264"@[6] == '4' && "libx265"@[6] == '5');
    assert("libx264"@[0] == 'l' && "libx265"@[0] == 'l');
    assert("hevc_nvenc"@[0] == 'h' && "hevc_qsv"@[0] == 'h' && "hevc_amf"@[0] == 'h');
    assert("av1_nvenc"@[0] == 'a' && "av1_qsv"@[0] == 'a' && "av1_amf"@[0] == 'a');
    law_found_in_a_row("h264_nvenc"@, "h264"@);
    law_found_in_a_row("h264_qsv"@, "h264"@);
    law_found_in_a_row("h264_amf"@, "h264"@);
    law_found_in_a_row("hevc_nvenc"@, "hevc"@);
    law_found_in_a_row("hevc_qsv"@, "hevc"@);
    law_found_in_a_row("hevc_amf"@, "hevc"@);
    law_found_in_a_row("hevc_nvenc"@, "h264"@);
    law_found_in_a_row("hevc_qsv"@, "h264"@);
    law_found_in_a_row("hevc_amf"@, "h264"@);
    law_found_in_a_row("libx265"@, "h264"@);
    law_found_in_a_row("libx264"@, "hevc"@);
    law_found_in_a_row("av1_nvenc"@, "h264"@);
    law_found_in_a_row("av1_qsv"@, "h264"@);
    law_found_in_a_row("av1_amf"@, "h264"@);
    law_found_in_a_row("av1_nvenc"@, "hevc"@);
    law_found_in_a_row("av1_qsv"@, "hevc"@);
    law_found_in_a_row("av1_amf"@, "hevc"@);
    let p = "h264"@;
    let q = "hevc"@;
    assert(p.len() == 4 && p[0] == 'h' && p[1] == '2' && p[2] == '6' && p[3] == '4');
    assert(q.len() == 4 && q[0] == 'h' && q[1] == 'e' && q[2] == 'v' && q[3] == 'c');
}

/// Every encoder that is tried is one that is looked for, and is found under the family for
/// which it is tried; every encoder that is looked for is tried.
pub proof fn law_found_is_tried(j: int)
    requires
        0 <= j < KNOWN,
    ensures
        KNOWN == preference(Family::H264).len() + preference(Family::Hevc).len() + preference(
            Family::Av1,
        ).len(),
        j < 4 ==> family(known_name(j)) == Family::H264 && preference(Family::H264)[j] == known_name(
            j,
        ),
        4 <= j < 8 ==> family(known_name(j)) == Family::Hevc && preference(Family::Hevc)[j - 4]
            == known_name(j),
        8 <= j ==> family(known_name(j)) == Family::Av1 && preference(Family::Av1)[j - 8]
            == known_name(j),
{
    lemma_known_names();
}

/// The place of an encoder in the order in which encoders are tried: a newer codec before
/// H.264, and of each codec the hardware before the software.
pub open spec fn rank(name: Seq<char>) -> int {
    if name == "hevc_nvenc"@ {
        0
    } else if name == "hevc_qsv"@ {
        1
    } else if name == "hevc_amf"@ {
        2
    } else if name == "libx265"@ {
        3
    } else if name == "av1_nvenc"@ {
        4
    } else if name == "av1_qsv"@ {
        5
    } else if name == "av1_amf"@ {
        6
    } else if name == "h264_nvenc"@ {
        7
    } else if name == "h264_qsv"@ {
        8
    } else if name == "h264_amf"@ {
        9
    } else {
        10
    }
}

proof fn lemma_ranks(k: int)
    requires
        0 <= k,
    ensures
        k < 4 ==> rank(preference(Family::Hevc)[k]) == k,
        k < 3 ==> rank(preference(Family::Av1)[k]) == 4 + k,
        k < 4 ==> rank(preference(Family::H264)[k]) == 7 + k,
{
    reveal_strlit("h264_nvenc");
    reveal_strlit("h264_qsv");
    reveal_strlit("h264_amf");
    reveal_strlit("libx264");
    reveal_strlit("hevc_nvenc");
    reveal_strlit("hevc_qsv");
    reveal_strlit("hevc_amf");
    reveal_strlit("libx265");
    reveal_strlit("av1_nvenc");
    reveal_strlit("av1_qsv");
    reveal_strlit("av1_amf");
    assert("h264_nvenc"@.len() == 10 && "h264_nvenc"@[1] == '2');
    assert("hevc_nvenc"@.len() == 10 && "hevc_nvenc"@[1] == 'e');
    assert("h264_qsv"@.len() == 8 && "h264_qsv"@[1] == '2' && "h264_qsv"@[5] == 'q');
    assert("h264_amf"@.len() == 8 && "h264_amf"@[1] == '2' && "h264_amf"@[5] == 'a');
    assert("hevc_qsv"@.len() == 8 && "hevc_qsv"@[1] == 'e' && "hevc_qsv"@[5] == 'q');
    assert("hevc_amf"@.len() == 8 && "hevc_amf"@[1] == 'e' && "hevc_amf"@[5] == 'a');
    assert("libx264"@.len() == 7 && "libx264"@[0] == 'l' && "libx264"@[6] == '4');
    assert("libx265"@.len() == 7 && "libx265"@[0] == 'l' && "libx265"@[6] == '5');
    assert("av1_nvenc"@.len() == 9);
    assert("av1_qsv"@.len() == 7 && "av1_qsv"@[0] == 'a' && "av1_qsv"@[4] == 'q');
    assert("av1_amf"@.len() == 7 && "av1_amf"@[0] == 'a' && "av1_amf"@[4] == 'a');
}

/// Whether the encoders of a chain come in the order of their ranks.
pub open spec fn in_rank_order(chain: Seq<Seq<char>>) -> bool {
    forall|i: int, j: int|
        0 <= i < j < chain.len() ==> rank(#[trigger] chain[i]) < rank(#[trigger] chain[j])
}

proof fn lemma_chained_order(
    chain: Seq<Seq<char>>,
    wanted: Seq<Seq<char>>,
    k: int,
    avail: Seq<String>,
    base: int,
)
    requires
        0 <= k <= wanted.len(),
        in_rank_order(chain),
        forall|i: int| 0 <= i < chain.len() ==> rank(#[trigger] chain[i]) < base,
        forall|i: int| 0 <= i < wanted.len() ==> rank(#[trigger] wanted[i]) == base + i,
    ensures
        in_rank_order(chained(chain, wanted, k, avail)),
        forall|i: int|
            0 <= i < chained(chain, wanted, k, avail).len() ==> rank(
                #[trigger] chained(chain, wanted, k, avail)[i],
            ) < base + k,
    decreases k,
{
    if k > 0 {
        lemma_chained_order(chain, wanted, k - 1, avail, base);
        let c = chained(chain, wanted, k - 1, avail);
        let now = chained(chain, wanted, k, avail);
        assert(rank(wanted[k - 1]) == base + k - 1);
        if now.len() > c.len() {
            assert(now == c.push(wanted[k - 1]));
            assert forall|i: int, j: int| 0 <= i < j < now.len() implies rank(#[trigger] now[i])
                < rank(#[trigger] now[j]) by {
                assert(now[i] == c[i]);
                if j < c.len() {
                    assert(now[j] == c[j]);
                }
            }
        }
    }
}

/// Whether an encoder is to be tried for a codec: it is offered, and one of H.264 or of the
/// codec.
pub open spec fn is_tried(probe: Probe, codec: Seq<char>, name: Seq<char>) -> bool {
    ||| listed(probe.h264@, name) && (name == "h264_nvenc"@ || name == "h264_qsv"@ || name
        == "h264_amf"@ || name == "libx264"@)
    ||| codec == "hevc"@ && listed(probe.hevc@, name) && (name == "hevc_nvenc"@ || name
        == "hevc_qsv"@ || name == "hevc_amf"@ || name == "libx265"@)
    ||| codec == "av1"@ && listed(probe.av1@, name) && (name == "av1_nvenc"@ || name == "av1_qsv"@
        || name == "av1_amf"@)
}

proof fn lemma_contained(chain: Seq<Seq<char>>, probe: Probe, fam: Family, name: Seq<char>)
    ensures
        with_family(chain, probe, fam).contains(name) <==> chain.contains(name) || (preference(
            fam,
        ).contains(name) && listed(offered(probe, fam), name)),
{
    let wanted = preference(fam);
    let n = wanted.len() as int;
    let avail = offered(probe, fam);
    lemma_chained(chain, wanted, n, avail);
    let now = with_family(chain, probe, fam);
    assert(wanted.take(n) =~= wanted);
    if now.contains(name) {
        let i = choose|i: int| 0 <= i < now.len() && now[i] == name;
        if i < chain.len() {
            assert(now.take(chain.len() as int)[i] == chain[i]);
        }
    }
    if chain.contains(name) {
        let i = choose|i: int| 0 <= i < chain.len() && chain[i] == name;
        assert(now.take(chain.len() as int)[i] == now[i]);
    }
    if wanted.contains(name) && listed(avail, name) {
        let i = choose|i: int| 0 <= i < wanted.len() && wanted[i] == name;
        assert(listed(avail, wanted[i]));
    }
}

proof fn lemma_in_preference(name: Seq<char>)
    ensures
        preference(Family::H264).contains(name) <==> (name == "h264_nvenc"@ || name == "h264_qsv"@
            || name == "h264_amf"@ || name == "libx264"@),
        preference(Family::Hevc).contains(name) <==> (name == "hevc_nvenc"@ || name == "hevc_qsv"@
            || name == "hevc_amf"@ || name == "libx265"@),
        preference(Family::Av1).contains(name) <==> (name == "av1_nvenc"@ || name == "av1_qsv"@
            || name == "av1_amf"@),
{
    let a = preference(Family::H264);
    let b = preference(Family::Hevc);
    let c = preference(Family::Av1);
    assert(a[0] == "h264_nvenc"@ && a[1] == "h264_qsv"@ && a[2] == "h264_amf"@ && a[3]
        == "libx264"@);
    assert(b[0] == "hevc_nvenc"@ && b[1] == "hevc_qsv"@ && b[2] == "hevc_amf"@ && b[3]
        == "libx265"@);
    assert(c[0] == "av1_nvenc"@ && c[1] == "av1_qsv"@ && c[2] == "av1_amf"@);
}

/// What is tried for a codec is what is offered for it and for H.264, all of it and nothing
/// else, in the order of the ranks; the software encoder of H.264 where that is nothing.
pub proof fn law_chain_exactly(probe: Probe, codec: Seq<char>, name: Seq<char>)
    ensures
        in_rank_order(chain_names(probe, codec)),
        (exists|x: Seq<char>| is_tried(probe, codec, x)) ==> (chain_names(probe, codec).contains(name)
            <==> is_tried(probe, codec, name)),
        (forall|x: Seq<char>| !is_tried(probe, codec, x)) ==> chain_names(probe, codec) == seq![
            "libx264"@,
        ],
{
    let empty: Seq<Seq<char>> = seq![];
    let first = match asked_family(codec) {
        Some(fam) => with_family(empty, probe, fam),
        None => empty,
    };
    let all = with_family(first, probe, Family::H264);
    lemma_codecs_differ();
    assert forall|i: int| 0 <= i < 4 implies rank(#[trigger] preference(Family::H264)[i]) == 7 + i by {
        lemma_ranks(i);
    }
    match asked_family(codec) {
        Some(fam) => {
            let base: int = if fam == Family::Hevc {
                0
            } else {
                4
            };
            let wanted = preference(fam);
            assert forall|i: int| 0 <= i < wanted.len() implies rank(#[trigger] wanted[i]) == base
                + i by {
                lemma_ranks(i);
            }
            lemma_chained_order(empty, wanted, wanted.len() as int, offered(probe, fam), base);
        },
        None => {},
    }
    lemma_chained_order(first, preference(Family::H264), 4, offered(probe, Family::H264), 7);
    assert forall|x: Seq<char>| #[trigger] all.contains(x) <==> is_tried(probe, codec, x) by {
        lemma_in_preference(x);
        lemma_contained(first, probe, Family::H264, x);
        match asked_family(codec) {
            Some(fam) => lemma_contained(empty, probe, fam, x),
            None => {},
        }
    }
    if exists|x: Seq<char>| is_tried(probe, codec, x) {
        let x = choose|x: Seq<char>| is_tried(probe, codec, x);
        assert(all.contains(x));
    } else if all.len() > 0 {
        assert(all.contains(all[0]));
    }
    assert(all.contains(name) <==> is_tried(probe, codec, name));
}

proof fn lemma_codecs_differ()
    ensures
        "hevc"@ != "av1"@,
{
    reveal_strlit("hevc");
    reveal_strlit("av1");
    assert("hevc"@.len() == 4 && "av1"@.len() == 3);
}

/// An encoder of the hardware is called by its maker, and any other is called software.
pub proof fn law_labels(e: Seq<char>)
    ensures
        is_hw(e) <==> label_of(e) != "Software (CPU)"@,
        holds(e, "nvenc"@) ==> label_of(e) == "NVIDIA NVENC"@,
        holds(e, "qsv"@) && !holds(e, "nvenc"@) ==> label_of(e) == "Intel Quick Sync"@,
        holds(e, "amf"@) && !holds(e, "nvenc"@) && !holds(e, "qsv"@) ==> label_of(e) == "AMD AMF"@,
        !holds(e, "amf"@) && !holds(e, "nvenc"@) && !holds(e, "qsv"@) ==> label_of(e)
            == "Software (CPU)"@,
{
    reveal_strlit("NVIDIA NVENC");
    reveal_strlit("Intel Quick Sync");
    reveal_strlit("AMD AMF");
    reveal_strlit("Software (CPU)");
    assert("NVIDIA NVENC"@[0] == 'N' && "Intel Quick Sync"@[0] == 'I' && "AMD AMF"@[0] == 'A');
    assert("Software (CPU)"@[0] == 'S');
}

/// What is quoted in a line is what stands between its first two quotation marks.
pub proof fn law_quoted(a: Seq<char>, q: Seq<char>, rest: Seq<char>)
    requires
        forall|i: int| 0 <= i < a.len() ==> #[trigger] a[i] != '"',
        forall|i: int| 0 <= i < q.len() ==> #[trigger] q[i] != '"',
    ensures
        quoted(a + seq!['"'] + q + seq!['"'] + rest) == Some(q),
        quoted(a + seq!['"'] + q) is None,
        quoted(a) is None,
{
    let line = a + seq!['"'] + q + seq!['"'] + rest;
    let half = a + seq!['"'] + q;
    let n = a.len() as int;
    let m = n + 1 + q.len();
    law_first_char(line, '"', 0);
    law_first_char(line, '"', n + 1);
    law_first_char(half, '"', 0);
    law_first_char(half, '"', n + 1);
    law_first_char(a, '"', 0);
    assert(line[n] == '"' && line[m] == '"' && half[n] == '"');
    assert forall|i: int| 0 <= i < n implies #[trigger] line[i] != '"' by {
        assert(line[i] == a[i]);
    }
    assert forall|i: int| n < i < m implies #[trigger] line[i] != '"' by {
        assert(line[i] == q[i - n - 1]);
    }
    assert forall|i: int| 0 <= i < n implies #[trigger] half[i] != '"' by {
        assert(half[i] == a[i]);
    }
    assert forall|i: int| n < i < half.len() implies #[trigger] half[i] != '"' by {
        assert(half[i] == q[i - n - 1]);
    }
    assert(char_at(line, '"', 0) == Some(n));
    assert(char_at(line, '"', n + 1) == Some(m));
    assert(char_at(half, '"', 0) == Some(n));
    assert(line.subrange(n + 1, m) =~= q);
}

/// A line names an audio device if it stands below a heading for audio devices, with no heading
/// for video devices between them, quotes something other than the dummy, and is no heading
/// itself.
pub open spec fn names_device(all: Seq<Seq<char>>, i: int, d: Seq<char>) -> bool {
    &&& quoted(all[i]) == Some(d)
    &&& d.len() > 0
    &&& d != "dummy"@
    &&& below_audio(all, i)
    &&& !holds(lowercase(trimmed(all[i])), "directshow audio devices"@)
    &&& !holds(lowercase(trimmed(all[i])), "directshow video devices"@)
}

/// Whether the last heading before line `i` is one for audio devices.
pub open spec fn below_audio(all: Seq<Seq<char>>, i: int) -> bool {
    exists|h: int|
        0 <= h < i && holds(lowercase(trimmed(#[trigger] all[h])), "directshow audio devices"@) && (
        forall|k: int|
            h < k < i ==> holds(lowercase(trimmed(#[trigger] all[k])), "directshow audio devices"@)
                || !holds(lowercase(trimmed(all[k])), "directshow video devices"@))
}

proof fn lemma_in_audio(all: Seq<Seq<char>>, n: int)
    requires
        0 <= n <= all.len(),
    ensures
        in_audio(all, n) <==> below_audio(all, n),
    decreases n,
{
    if n > 0 {
        lemma_in_audio(all, n - 1);
        let audio = holds(lowercase(trimmed(all[n - 1])), "directshow audio devices"@);
        let video = holds(lowercase(trimmed(all[n - 1])), "directshow video devices"@);
        if audio {
            assert(holds(lowercase(trimmed(all[n - 1])), "directshow audio devices"@));
            assert(below_audio(all, n));
        } else if video {
            if below_audio(all, n) {
                let h = choose|h: int|
                    0 <= h < n && holds(
                        lowercase(trimmed(#[trigger] all[h])),
                        "directshow audio devices"@,
                    ) && (forall|k: int|
                        h < k < n ==> holds(
                            lowercase(trimmed(#[trigger] all[k])),
                            "directshow audio devices"@,
                        ) || !holds(lowercase(trimmed(all[k])), "directshow video devices"@));
                assert(h < n - 1);
                assert(holds(lowercase(trimmed(all[n - 1])), "directshow audio devices"@) || !video);
            }
        } else {
            if below_audio(all, n) {
                let h = choose|h: int|
                    0 <= h < n && holds(
                        lowercase(trimmed(#[trigger] all[h])),
                        "directshow audio devices"@,
                    ) && (forall|k: int|
                        h < k < n ==> holds(
                            lowercase(trimmed(#[trigger] all[k])),
                            "directshow audio devices"@,
                        ) || !holds(lowercase(trimmed(all[k])), "directshow video devices"@));
                assert(h != n - 1);
                assert(all[h] == all[h]);
                assert(below_audio(all, n - 1));
            }
            if below_audio(all, n - 1) {
                let h = choose|h: int|
                    0 <= h < n - 1 && holds(
                        lowercase(trimmed(#[trigger] all[h])),
                        "directshow audio devices"@,
                    ) && (forall|k: int|
                        h < k < n - 1 ==> holds(
                            lowercase(trimmed(#[trigger] all[k])),
                            "directshow audio devices"@,
                        ) || !holds(lowercase(trimmed(all[k])), "directshow video devices"@));
                assert(all[h] == all[h]);
                assert(below_audio(all, n));
            }
        }
    }
}

/// The audio devices are those that the lines name, all of them and nothing else, and each line
/// more can only add to them at their end.
pub proof fn law_devices_exactly(all: Seq<Seq<char>>, n: int)
    requires
        0 <= n <= all.len(),
    ensures
        forall|d: Seq<char>| #[trigger]
            devices(all, n).contains(d) <==> exists|i: int| 0 <= i < n && names_device(all, i, d),
        n > 0 ==> devices(all, n - 1).is_prefix_of(devices(all, n)) && devices(all, n).len()
            <= devices(all, n - 1).len() + 1,
        forall|d: Seq<char>|
            n > 0 && #[trigger] names_device(all, n - 1, d) ==> devices(all, n) == devices(
                all,
                n - 1,
            ).push(d),
    decreases n,
{
    if n > 0 {
        law_devices_exactly(all, n - 1);
        lemma_in_audio(all, n - 1);
        let before = devices(all, n - 1);
        let now = devices(all, n);
        assert forall|d: Seq<char>| #[trigger] now.contains(d) <==> exists|i: int|
            0 <= i < n && names_device(all, i, d) by {
            if now.contains(d) {
                let k = choose|k: int| 0 <= k < now.len() && now[k] == d;
                if k < before.len() {
                    assert(before[k] == d);
                    assert(before.contains(d));
                    let i = choose|i: int| 0 <= i < n - 1 && names_device(all, i, d);
                    assert(names_device(all, i, d));
                } else {
                    assert(names_device(all, n - 1, d));
                }
            }
            if exists|i: int| 0 <= i < n && names_device(all, i, d) {
                let i = choose|i: int| 0 <= i < n && names_device(all, i, d);
                if i < n - 1 {
                    assert(before.contains(d));
                    let k = choose|k: int| 0 <= k < before.len() && before[k] == d;
                    assert(now[k] == d);
                } else {
                    assert(now == before.push(d));
                    assert(now[before.len() as int] == d);
                }
            }
        }
    }
}

/// The device that records what is played is the first whose name says so; there is none only
/// where no name does.
pub proof fn law_system_device(devs: Seq<String>, from: int)
    requires
        0 <= from,
    ensures
        match first_system(devs, from) {
            Some(d) => exists|i: int|
                from <= i < devs.len() && #[trigger] devs[i] == d && sounds_like_system(d@) && (
                forall|j: int| from <= j < i ==> !sounds_like_system((#[trigger] devs[j])@)),
            None => forall|j: int|
                from <= j < devs.len() ==> !sounds_like_system((#[trigger] devs[j])@),
        },
    decreases devs.len() - from,
{
    if from < devs.len() {
        if sounds_like_system(devs[from]@) {
            assert(devs[from] == first_system(devs, from)->0);
        } else {
            law_system_device(devs, from + 1);
        }
    }
}

/// The name of a device says that it records what is played if it has one of four phrases in
/// it, in either case.
pub proof fn law_system_names(name: Seq<char>)
    ensures
        sounds_like_system(name) <==> holds(lowercase(name), "mix"@) || holds(
            lowercase(name),
            "what u hear"@,
        ) || holds(lowercase(name), "loopback"@) || holds(lowercase(name), "wave out"@),
{
    let l = lowercase(name);
    if holds(l, "stereo mix"@) {
        reveal_strlit("stereo mix");
        reveal_strlit("mix");
        let i = choose|i: int| stands_at(l, "stereo mix"@, i);
        let p = "stereo mix"@;
        assert(p.len() == 10 && "mix"@.len() == 3);
        assert(l.subrange(i, i + 10)[7] == 'm' && l.subrange(i, i + 10)[8] == 'i' && l.subrange(
            i,
            i + 10,
        )[9] == 'x');
        assert(l.subrange(i + 7, i + 10) =~= "mix"@);
        assert(stands_at(l, "mix"@, i + 7));
    }
}

/// The version is the first line of what the program printed.
pub proof fn law_version_line(out: Vec<u8>, line: Seq<char>, rest: Seq<char>)
    requires
        forall|k: int| 0 <= k < line.len() ==> #[trigger] line[k] != '\n' && line[k] != '\r',
        lossy(out@) == line + seq!['\n'] + rest,
    ensures
        version_line(Some(out)) == line,
        version_line(None).len() == 0,
{
    assert forall|k: int| 0 <= k < line.len() implies #[trigger] line[k] != '\n' by {
        assert(line[k] != '\n' && line[k] != '\r');
    }
    if line.len() > 0 {
        assert(line[line.len() - 1] != '\r');
    }
    law_lines(line, rest);
}

/// What was found out before is used again for the same program only, and never where it is to be
/// found out anew; without a program nothing is found out.
pub proof fn law_known_probe(
    refresh: bool,
    cached: Option<Probe>,
    ff: &Option<String>,
    r: Result<ProbeStep, String>,
)
    requires
        call_ensures(get_probe, (refresh, cached, ff), r),
    ensures
        r is Err <==> *ff is None,
        refresh ==> !(r matches Ok(ProbeStep::Known(_))),
        r matches Ok(ProbeStep::Known(p)) ==> cached == Some(p) && (*ff matches Some(path) && p.ffmpeg@
            == path@),
        !refresh ==> (*ff matches Some(path) ==> (cached matches Some(p) ==> (p.ffmpeg@ == path@
            ==> r == Ok::<ProbeStep, String>(ProbeStep::Known(p))))),
{
}

} // verus!
