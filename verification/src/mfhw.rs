//! The encoders that the machine's hardware offers.
use vstd::prelude::*;

use crate::audio::{named, names_of};
use crate::order::{drop_repeats, law_names_listed, sort_names, sorted_names, without_repeats};
use crate::text::{before, contains, holds, lowercase, same, to_lowercase};

verus! {

/// The names of the encoders in hardware, by what they encode.
pub struct HwEncoders {
    pub h264_hw: Vec<String>,
    pub hevc_hw: Vec<String>,
}

/// Who made an encoder, as its name shows.
pub open spec fn maker(name: Seq<char>) -> Option<Seq<char>> {
    let l = lowercase(name);
    if holds(l, "nvenc"@) || holds(l, "nvidia"@) {
        Some("NVIDIA"@)
    } else if holds(l, "intel"@) || holds(l, "quick"@) || holds(l, "qsv"@) {
        Some("Intel"@)
    } else if holds(l, "amd"@) || holds(l, "amf"@) {
        Some("AMD"@)
    } else {
        None
    }
}

/// The maker of the first of these encoders, from `from` on, whose name shows it.
pub open spec fn first_maker(names: Seq<String>, from: int) -> Option<Seq<char>>
    decreases names.len() - from,
{
    if from < 0 || from >= names.len() {
        None
    } else if maker(names[from]@) is Some {
        maker(names[from]@)
    } else {
        first_maker(names, from + 1)
    }
}

fn maker_of(name: &str) -> (r: Option<String>)
    ensures
        match r {
            Some(v) => maker(name@) == Some(v@),
            None => maker(name@) is None,
        },
{
    let l = to_lowercase(name);
    let l = l.as_str();
    if contains(l, "nvenc") || contains(l, "nvidia") {
        Some("NVIDIA".to_string())
    } else if contains(l, "intel") || contains(l, "quick") || contains(l, "qsv") {
        Some("Intel".to_string())
    } else if contains(l, "amd") || contains(l, "amf") {
        Some("AMD".to_string())
    } else {
        None
    }
}

fn first_maker_of(names: &Vec<String>) -> (r: Option<String>)
    ensures
        match r {
            Some(v) => first_maker(names@, 0) == Some(v@),
            None => first_maker(names@, 0) is None,
        },
{
    let mut i: usize = 0;
    while i < names.len()
        invariant
            i <= names.len(),
            first_maker(names@, 0) == first_maker(names@, i as int),
        decreases names.len() - i,
    {
        let m = maker_of(names[i].as_str());
        if m.is_some() {
            return m;
        }
        i = i + 1;
    }
    None
}

impl HwEncoders {
    /// Who made the hardware: as the first name shows that shows it, those for H.264
    /// before those for HEVC.
    pub fn vendor(&self) -> (r: Option<String>)
        ensures
            match r {
                Some(v) => first_maker(self.h264_hw@, 0) == Some(v@) || (first_maker(
                    self.h264_hw@,
                    0,
                ) is None && first_maker(self.hevc_hw@, 0) == Some(v@)),
                None => first_maker(self.h264_hw@, 0) is None && first_maker(
                    self.hevc_hw@,
                    0,
                ) is None,
            },
    {
        match first_maker_of(&self.h264_hw) {
            Some(v) => Some(v),
            None => first_maker_of(&self.hevc_hw),
        }
    }
}

/// Names in their order, each once.
pub open spec fn in_order(names: Seq<String>) -> Seq<String> {
    without_repeats(sorted_names(names), sorted_names(names).len() as int)
}

/// Lists the encoders in hardware, of the names that the system tells for each codec. An
/// encoder without a name is left out. Nothing is listed where the system has none to
/// tell.
pub fn probe_hw_encoders(h264: &Vec<Option<String>>, hevc: &Vec<Option<String>>) -> (r: HwEncoders)
    ensures
        r.h264_hw@ == in_order(named(h264@, h264@.len() as int)),
        r.hevc_hw@ == in_order(named(hevc@, hevc@.len() as int)),
{
    let mut h264_hw = names_of(h264);
    sort_names(&mut h264_hw);
    let mut hevc_hw = names_of(hevc);
    sort_names(&mut hevc_hw);
    HwEncoders { h264_hw: drop_repeats(&h264_hw), hevc_hw: drop_repeats(&hevc_hw) }
}

/// Whether a codec asked for by name is HEVC.
pub open spec fn names_hevc(codec: Seq<char>) -> bool {
    lowercase(codec) == "hevc"@ || lowercase(codec) == "h265"@
}

/// Lists the encoders in software for a codec: those for HEVC where it is named so, and
/// those for H.264 for any other name.
pub fn probe_sw(codec: &str, h264: &Vec<String>, hevc: &Vec<String>) -> (r: Vec<String>)
    ensures
        r@ == in_order(
            if names_hevc(codec@) {
                hevc@
            } else {
                h264@
            },
        ),
{
    let c = to_lowercase(codec);
    let mut names = if same(c.as_str(), "hevc") || same(c.as_str(), "h265") {
        copied(hevc)
    } else {
        copied(h264)
    };
    sort_names(&mut names);
    drop_repeats(&names)
}

fn copied(names: &Vec<String>) -> (r: Vec<String>)
    ensures
        r@ == names@,
{
    let mut out: Vec<String> = Vec::new();
    let mut i: usize = 0;
    while i < names.len()
        invariant
            i <= names.len(),
            out@ =~= names@.take(i as int),
        decreases names.len() - i,
    {
        out.push(names[i].clone());
        i = i + 1;
    }
    out
}

// ---- laws ----

/// An encoder is NVIDIA's, Intel's or AMD's by what its name has in it, in either case; where it
/// names more than one of them, they count in this order.
pub proof fn law_makers(name: Seq<char>)
    ensures
        ({
            let l = lowercase(name);
            let nvidia = holds(l, "nvenc"@) || holds(l, "nvidia"@);
            let intel = holds(l, "intel"@) || holds(l, "quick"@) || holds(l, "qsv"@);
            let amd = holds(l, "amd"@) || holds(l, "amf"@);
            &&& nvidia ==> maker(name) == Some("NVIDIA"@)
            &&& intel && !nvidia ==> maker(name) == Some("Intel"@)
            &&& amd && !nvidia && !intel ==> maker(name) == Some("AMD"@)
            &&& maker(name) is None <==> !nvidia && !intel && !amd
        }),
{
}

/// The maker is that of the first encoder whose name shows one; there is none only where no name
/// does.
pub proof fn law_first_maker(names: Seq<String>, from: int)
    requires
        0 <= from,
    ensures
        match first_maker(names, from) {
            Some(v) => exists|i: int|
                from <= i < names.len() && maker((#[trigger] names[i])@) == Some(v) && (forall|j: int|
                    from <= j < i ==> maker((#[trigger] names[j])@) is None),
            None => forall|j: int|
                from <= j < names.len() ==> maker((#[trigger] names[j])@) is None,
        },
    decreases names.len() - from,
{
    if from < names.len() {
        if maker(names[from]@) is Some {
            assert(maker(names[from]@) == first_maker(names, from));
        } else {
            law_first_maker(names, from + 1);
        }
    }
}

/// The encoders that are listed are those that there are, each once, in the order of their names.
pub proof fn law_in_order(names: Seq<String>, name: Seq<char>)
    ensures
        (exists|i: int| 0 <= i < in_order(names).len() && (#[trigger] in_order(names)[i])@ == name)
            <==> (exists|i: int| 0 <= i < names.len() && (#[trigger] names[i])@ == name),
        forall|i: int, j: int|
            0 <= i < j < in_order(names).len() ==> before(
                (#[trigger] in_order(names)[i])@,
                (#[trigger] in_order(names)[j])@,
            ),
{
    law_names_listed(names, name);
}

/// HEVC goes by two names, in either case.
pub proof fn law_hevc_names(codec: Seq<char>)
    ensures
        names_hevc(codec) <==> lowercase(codec) == "hevc"@ || lowercase(codec) == "h265"@,
{
}

} // verus!
