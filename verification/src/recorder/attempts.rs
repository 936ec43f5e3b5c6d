//! Starting the encoder: which encoders are tried, and with which sound.
//!
//! Each encoder of the chain is tried with the sound that is asked for. Where it
//! fails for another reason than the picture, it is tried once more without
//! sound. The first that runs is used.
use vstd::prelude::*;

use crate::recorder::live::{is_video_error, start_error, video_broken};
use crate::recorder::params::Params;
use crate::recorder::probe::{
    chain_names, encoder_chain, label_of, labelled, names, EncCand, Probe,
};
use crate::text::{holds, lowercase, same, stands_at};

verus! {

/// Where the trials stand: the encoder, and whether it is tried without sound.
#[derive(PartialEq, Eq, Structural, Clone, Copy)]
pub struct Trial {
    pub at: usize,
    pub silent: bool,
}

/// What a [`Trial`] stands for.
pub struct Turn {
    pub at: int,
    pub silent: bool,
}

impl View for Trial {
    type V = Turn;

    open spec fn view(&self) -> Turn {
        Turn { at: self.at as int, silent: self.silent }
    }
}

/// The trial after a failed one. Another encoder is tried where the picture could
/// not be encoded, where no sound was asked for, and where sound had been left out
/// already; else the same one without sound.
pub open spec fn next_turn(t: Turn, no_sound: bool, picture_failed: bool) -> Turn {
    if picture_failed || no_sound || t.silent {
        Turn { at: t.at + 1, silent: false }
    } else {
        Turn { at: t.at, silent: true }
    }
}

/// The trials of one start.
pub struct Attempts {
    pub chain: Vec<EncCand>,
    pub audio: String,
    pub mic: Option<String>,
    pub sys: Option<String>,
    pub trial: Trial,
    pub last_err: String,
}

/// Whether `p` is what is tried at this turn: `base` with the encoder of the turn,
/// and with the sound that is asked for or without any.
pub open spec fn tried(p: Params, a: Attempts, base: Params) -> bool {
    let t = a.trial;
    &&& p == (Params {
        encoder: p.encoder,
        encoder_label: p.encoder_label,
        audio: p.audio,
        mic: p.mic,
        sys: p.sys,
        ..base
    })
    &&& p.encoder@ == names(a.chain@)[t.at as int]
    &&& p.encoder_label@ == label_of(p.encoder@)
    &&& p.audio@ == if t.silent {
        "none"@
    } else {
        a.audio@
    }
    &&& p.mic == if t.silent {
        None
    } else {
        a.mic
    }
    &&& p.sys == if t.silent {
        None
    } else {
        a.sys
    }
}

impl Attempts {
    /// Whether the trials are those of a chain whose encoders are called by what
    /// they are.
    pub open spec fn wf(self) -> bool {
        labelled(self.chain@) && self.trial.at <= self.chain@.len()
    }

    /// The trials for these parameters.
    pub fn new(probe: &Probe, params: &Params) -> (r: Self)
        ensures
            r.wf(),
            names(r.chain@) == chain_names(*probe, params.codec@),
            r.audio == params.audio,
            r.mic == params.mic,
            r.sys == params.sys,
            r.trial@ == (Turn { at: 0, silent: false }),
            r.last_err@.len() == 0,
    {
        Attempts {
            chain: encoder_chain(probe, params.codec.as_str()),
            audio: params.audio.clone(),
            mic: params.mic.clone(),
            sys: params.sys.clone(),
            trial: Trial { at: 0, silent: false },
            last_err: String::new(),
        }
    }

    /// What to try now. Nothing where all encoders were tried.
    pub fn current(&self, base: &Params) -> (r: Option<Params>)
        requires
            self.wf(),
        ensures
            r is Some <==> self.trial.at < self.chain@.len(),
            r matches Some(p) ==> tried(p, *self, *base),
    {
        if self.trial.at >= self.chain.len() {
            return None;
        }
        let cand = &self.chain[self.trial.at];
        assert(names(self.chain@)[self.trial.at as int] == cand.name@);
        let base = base.clone();
        Some(
            Params {
                encoder: cand.name.clone(),
                encoder_label: cand.label.clone(),
                audio: if self.trial.silent {
                    "none".to_string()
                } else {
                    self.audio.clone()
                },
                mic: if self.trial.silent {
                    None
                } else {
                    self.mic.clone()
                },
                sys: if self.trial.silent {
                    None
                } else {
                    self.sys.clone()
                },
                ..base
            },
        )
    }

    /// Takes note that the trial failed with this error.
    pub fn failed(&mut self, tail: String)
        requires
            old(self).wf(),
            old(self).trial.at < old(self).chain@.len(),
        ensures
            final(self).wf(),
            final(self).trial@ == next_turn(
                old(self).trial@,
                old(self).audio@ == "none"@,
                is_video_error(tail@),
            ),
            final(self).last_err == tail,
            final(self).chain == old(self).chain,
            final(self).audio == old(self).audio,
            final(self).mic == old(self).mic,
            final(self).sys == old(self).sys,
    {
        let other: bool = video_broken(tail.as_str()) || same(self.audio.as_str(), "none")
            || self.trial.silent;
        let n: usize = self.chain.len();
        assert(self.trial.at < n);
        self.trial = if other {
            Trial { at: self.trial.at + 1, silent: false }
        } else {
            Trial { at: self.trial.at, silent: true }
        };
        self.last_err = tail;
    }

    /// What to tell the user when all trials failed.
    pub fn error(&self) -> (r: String)
        ensures
            r@ == if self.last_err@.len() == 0 {
                "Unable to start screen recording."@
            } else {
                "Unable to start screen recording. ("@ + self.last_err@ + ")"@
            },
    {
        start_error(self.last_err.as_str())
    }
}

// ---- laws ----

/// The turn after `n` failures, where `picture_failed` says of each failure
/// whether it was one of the picture.
pub open spec fn turn_after(picture_failed: spec_fn(nat) -> bool, no_sound: bool, n: nat) -> Turn
    decreases n,
{
    if n == 0 {
        Turn { at: 0, silent: false }
    } else {
        next_turn(
            turn_after(picture_failed, no_sound, (n - 1) as nat),
            no_sound,
            picture_failed((n - 1) as nat),
        )
    }
}

/// However the trials fail, each encoder gets its turn, with the sound that is
/// asked for, before the trials are over: no encoder is passed over.
pub proof fn law_every_encoder_is_tried(
    picture_failed: spec_fn(nat) -> bool,
    no_sound: bool,
    at: nat,
)
    ensures
        exists|n: nat| n <= 2 * at && #[trigger] turn_after(picture_failed, no_sound, n) == (Turn {
            at: at as int,
            silent: false,
        }),
    decreases at,
{
    if at == 0 {
        assert(turn_after(picture_failed, no_sound, 0) == (Turn { at: 0, silent: false }));
    } else {
        law_every_encoder_is_tried(picture_failed, no_sound, (at - 1) as nat);
        let n = choose|n: nat|
            n <= 2 * (at - 1) && #[trigger] turn_after(picture_failed, no_sound, n) == (Turn {
                at: at - 1,
                silent: false,
            });
        let t1 = turn_after(picture_failed, no_sound, n + 1);
        let t2 = turn_after(picture_failed, no_sound, n + 2);
        if t1.silent {
            assert(t2 == (Turn { at: at as int, silent: false }));
        } else {
            assert(t1 == (Turn { at: at as int, silent: false }));
        }
    }
}

/// The trials come to an end: a failure leads to another encoder, or to the same
/// one without sound, which happens once.
pub proof fn law_trials_end(t: Turn, no_sound: bool, picture_failed: bool)
    ensures
        ({
            let u = next_turn(t, no_sound, picture_failed);
            ||| u.at == t.at + 1 && !u.silent
            ||| u.at == t.at && !t.silent && u.silent
        }),
{
}

/// Where no sound is asked for, no encoder is tried a second time.
pub proof fn law_silent_trials_are_single(t: Turn, picture_failed: bool)
    requires
        !t.silent,
    ensures
        next_turn(t, true, picture_failed) == (Turn { at: t.at + 1, silent: false }),
{
}

/// Another encoder is turned to where the picture failed, where there is no sound to leave out,
/// and where it was left out; otherwise the same encoder is tried without sound.
pub proof fn law_next_turn(t: Turn, no_sound: bool, picture_failed: bool)
    ensures
        next_turn(t, no_sound, true) == next_turn(t, true, picture_failed),
        next_turn(t, no_sound, true).at == t.at + 1 && !next_turn(t, no_sound, true).silent,
        t.silent ==> next_turn(t, no_sound, picture_failed) == next_turn(t, true, true),
        !t.silent ==> next_turn(t, false, false) == (Turn { at: t.at, silent: true }),
        next_turn(next_turn(t, false, false), false, false).at > t.at,
{
}

/// What is tried is what was asked for but for the encoder, which is called by what it is, and
/// for the sound, which is all there or not at all.
pub proof fn law_tried(p: Params, a: Attempts, base: Params)
    requires
        tried(p, a, base),
        a.trial.at < a.chain@.len(),
    ensures
        p.encoder@ == a.chain@[a.trial.at as int].name@,
        p.encoder_label@ == label_of(p.encoder@),
        a.trial.silent ==> p.audio@ == "none"@ && p.mic is None && p.sys is None,
        !a.trial.silent ==> p.audio@ == a.audio@ && p.mic == a.mic && p.sys == a.sys,
        p.area == base.area && p.desktop == base.desktop && p.codec == base.codec,
        p.out_w == base.out_w && p.out_h == base.out_h && p.fps == base.fps && p.bitrate_k
            == base.bitrate_k,
        p.sample_rate == base.sample_rate && p.channels == base.channels && p.cursor == base.cursor
            && p.power_note == base.power_note && p.sw_fallback_note == base.sw_fallback_note,
{
}

/// An error is one of the picture if it names the encoder of NVIDIA, an encoder that did not
/// open, or the stream of the picture, in either case.
pub proof fn law_picture_errors(tail: Seq<char>)
    ensures
        is_video_error(tail) <==> holds(lowercase(tail), "nvenc"@) || holds(
            lowercase(tail),
            "could not open encoder"@,
        ) || holds(lowercase(tail), "error initializing output stream 0:0"@),
{
    let l = lowercase(tail);
    if holds(l, "no nvenc"@) {
        reveal_strlit("no nvenc");
        reveal_strlit("nvenc");
        let i = choose|i: int| stands_at(l, "no nvenc"@, i);
        let s = l.subrange(i, i + 8);
        assert("no nvenc"@.len() == 8 && "nvenc"@.len() == 5);
        assert(s[3] == 'n' && s[4] == 'v' && s[5] == 'e' && s[6] == 'n' && s[7] == 'c');
        assert(l.subrange(i + 3, i + 8) =~= "nvenc"@);
        assert(stands_at(l, "nvenc"@, i + 3));
    }
}

} // verus!
