//! Hotkeys: their notation, and what they do.
use vstd::prelude::*;

use crate::settings::AppSettings;
use crate::text::{
    ascii_only, decimal, join2, join3, law_decimal, law_lowercase, law_split, lowercase, same,
    split_at_char, split_char, texts, to_chars, to_lowercase, trim, trimmed,
};

verus! {

/// A key of a hotkey.
#[derive(PartialEq, Eq, Structural, Clone, Copy)]
pub enum Key {
    /// A letter, in lower case.
    Letter(char),
    Digit(char),
    /// A function key, from 1 to 12.
    Function(u8),
    PrintScreen,
}

/// A hotkey: a key with modifiers.
#[derive(PartialEq, Eq, Structural, Clone, Copy)]
pub struct Hotkey {
    pub ctrl: bool,
    pub shift: bool,
    pub alt: bool,
    pub sup: bool,
    pub key: Key,
}

/// Whether a word is one for the control key.
pub open spec fn is_ctrl(p: Seq<char>) -> bool {
    p == "ctrl"@ || p == "control"@
}

/// Whether a word is one for the system key.
pub open spec fn is_super(p: Seq<char>) -> bool {
    p == "super"@ || p == "meta"@ || p == "win"@ || p == "cmd"@
}

/// Whether a word is one for a modifier.
pub open spec fn is_modifier(p: Seq<char>) -> bool {
    is_ctrl(p) || p == "shift"@ || p == "alt"@ || is_super(p)
}

/// The words of a hotkey, in lower case.
pub open spec fn words(s: Seq<char>) -> Seq<Seq<char>> {
    let parts = split_at_char(lowercase(s), '+');
    Seq::new(parts.len(), |i: int| trimmed(parts[i]))
}

/// The last of the first `n` words that is no modifier.
pub open spec fn key_word(ws: Seq<Seq<char>>, n: int) -> Option<Seq<char>>
    decreases n,
{
    if n <= 0 {
        None
    } else if !is_modifier(ws[n - 1]) {
        Some(ws[n - 1])
    } else {
        key_word(ws, n - 1)
    }
}

/// The number of a function key.
pub open spec fn function_number(w: Seq<char>) -> Option<u8> {
    if w == "f1"@ {
        Some(1)
    } else if w == "f2"@ {
        Some(2)
    } else if w == "f3"@ {
        Some(3)
    } else if w == "f4"@ {
        Some(4)
    } else if w == "f5"@ {
        Some(5)
    } else if w == "f6"@ {
        Some(6)
    } else if w == "f7"@ {
        Some(7)
    } else if w == "f8"@ {
        Some(8)
    } else if w == "f9"@ {
        Some(9)
    } else if w == "f10"@ {
        Some(10)
    } else if w == "f11"@ {
        Some(11)
    } else if w == "f12"@ {
        Some(12)
    } else {
        None
    }
}

/// The key that a word stands for.
pub open spec fn key_of(w: Seq<char>) -> Option<Key> {
    if w.len() == 1 && 'a' <= w[0] <= 'z' {
        Some(Key::Letter(w[0]))
    } else if w.len() == 1 && '0' <= w[0] <= '9' {
        Some(Key::Digit(w[0]))
    } else {
        match function_number(w) {
            Some(n) => Some(Key::Function(n)),
            None => if w == "printscreen"@ || w == "print"@ {
                Some(Key::PrintScreen)
            } else {
                None
            },
        }
    }
}

/// Whether one of the first `n` words is one for the control key.
pub open spec fn any_ctrl(ws: Seq<Seq<char>>, n: int) -> bool {
    exists|i: int| 0 <= i < n && is_ctrl(#[trigger] ws[i])
}

/// Whether one of the first `n` words is this word.
pub open spec fn any_word(ws: Seq<Seq<char>>, n: int, w: Seq<char>) -> bool {
    exists|i: int| 0 <= i < n && #[trigger] ws[i] == w
}

/// Whether one of the first `n` words is one for the system key.
pub open spec fn any_super(ws: Seq<Seq<char>>, n: int) -> bool {
    exists|i: int| 0 <= i < n && is_super(#[trigger] ws[i])
}

/// The hotkey that a text such as `Ctrl+Shift+S` stands for.
pub open spec fn hotkey(s: Seq<char>) -> Option<Hotkey> {
    let ws = words(s);
    let n = ws.len() as int;
    match key_word(ws, n) {
        Some(w) => match key_of(w) {
            Some(key) => Some(
                Hotkey {
                    ctrl: any_ctrl(ws, n),
                    shift: any_word(ws, n, "shift"@),
                    alt: any_word(ws, n, "alt"@),
                    sup: any_super(ws, n),
                    key,
                },
            ),
            None => None,
        },
        None => None,
    }
}

fn function_key(w: &str) -> (r: Option<u8>)
    ensures
        r == function_number(w@),
{
    if same(w, "f1") {
        Some(1)
    } else if same(w, "f2") {
        Some(2)
    } else if same(w, "f3") {
        Some(3)
    } else if same(w, "f4") {
        Some(4)
    } else if same(w, "f5") {
        Some(5)
    } else if same(w, "f6") {
        Some(6)
    } else if same(w, "f7") {
        Some(7)
    } else if same(w, "f8") {
        Some(8)
    } else if same(w, "f9") {
        Some(9)
    } else if same(w, "f10") {
        Some(10)
    } else if same(w, "f11") {
        Some(11)
    } else if same(w, "f12") {
        Some(12)
    } else {
        None
    }
}

fn find_key(w: &str) -> (r: Option<Key>)
    ensures
        r == key_of(w@),
{
    let v = to_chars(w);
    if v.len() == 1 {
        let c: char = v[0];
        if 'a' <= c && c <= 'z' {
            return Some(Key::Letter(c));
        }
        if '0' <= c && c <= '9' {
            return Some(Key::Digit(c));
        }
    }
    match function_key(w) {
        Some(n) => Some(Key::Function(n)),
        None => if same(w, "printscreen") || same(w, "print") {
            Some(Key::PrintScreen)
        } else {
            None
        },
    }
}

proof fn lemma_modifiers_differ()
    ensures
        !is_ctrl("shift"@),
        !is_ctrl("alt"@),
        "shift"@ != "alt"@,
        !is_super("shift"@),
        !is_super("alt"@),
        forall|w: Seq<char>| is_ctrl(w) ==> !is_super(w),
{
    reveal_strlit("ctrl");
    reveal_strlit("control");
    reveal_strlit("shift");
    reveal_strlit("alt");
    reveal_strlit("super");
    reveal_strlit("meta");
    reveal_strlit("win");
    reveal_strlit("cmd");
    assert("ctrl"@.len() == 4 && "control"@.len() == 7 && "shift"@.len() == 5 && "alt"@.len() == 3);
    assert("super"@.len() == 5 && "meta"@.len() == 4 && "win"@.len() == 3 && "cmd"@.len() == 3);
    assert("shift"@[1] == 'h' && "super"@[1] == 'u');
    assert("alt"@[0] == 'a' && "win"@[0] == 'w' && "cmd"@[0] == 'c');
    assert("ctrl"@[0] == 'c' && "meta"@[0] == 'm');
}

/// Reads the notation of a hotkey. The words may have white space around them, and
/// any case; the last word that is no modifier is the key.
pub fn parse_hotkey(s: &str) -> (r: Option<Hotkey>)
    ensures
        r == hotkey(s@),
{
    let lower = to_lowercase(s);
    let parts = split_char(lower.as_str(), '+');
    let ghost ws = words(s@);
    let mut ctrl: bool = false;
    let mut shift: bool = false;
    let mut alt: bool = false;
    let mut sup: bool = false;
    let mut key: Option<String> = None;
    proof {
        lemma_modifiers_differ();
    }
    let mut i: usize = 0;
    while i < parts.len()
        invariant
            i <= parts.len(),
            texts(parts@) == split_at_char(lowercase(s@), '+'),
            ws == words(s@),
            ws.len() == parts.len(),
            ctrl == any_ctrl(ws, i as int),
            shift == any_word(ws, i as int, "shift"@),
            alt == any_word(ws, i as int, "alt"@),
            sup == any_super(ws, i as int),
            match key {
                Some(k) => key_word(ws, i as int) == Some(k@),
                None => key_word(ws, i as int) is None,
            },
            !is_ctrl("shift"@),
            !is_ctrl("alt"@),
            "shift"@ != "alt"@,
            !is_super("shift"@),
            !is_super("alt"@),
            forall|w: Seq<char>| is_ctrl(w) ==> !is_super(w),
        decreases parts.len() - i,
    {
        let p = trim(parts[i].as_str());
        assert(texts(parts@)[i as int] == parts@[i as int]@);
        assert(ws[i as int] == p@);
        let w = p.as_str();
        let is_c: bool = same(w, "ctrl") || same(w, "control");
        let is_sh: bool = same(w, "shift");
        let is_a: bool = same(w, "alt");
        let is_su: bool = same(w, "super") || same(w, "meta") || same(w, "win") || same(w, "cmd");
        assert(any_ctrl(ws, i + 1) == (any_ctrl(ws, i as int) || is_c)) by {
            if any_ctrl(ws, i as int) {
                let k = choose|k: int| 0 <= k < i && is_ctrl(#[trigger] ws[k]);
                assert(is_ctrl(ws[k]));
            }
            if is_c {
                assert(is_ctrl(ws[i as int]));
            }
        }
        assert(any_word(ws, i + 1, "shift"@) == (any_word(ws, i as int, "shift"@) || is_sh)) by {
            if any_word(ws, i as int, "shift"@) {
                let k = choose|k: int| 0 <= k < i && #[trigger] ws[k] == "shift"@;
                assert(ws[k] == "shift"@);
            }
            if is_sh {
                assert(ws[i as int] == "shift"@);
            }
        }
        assert(any_word(ws, i + 1, "alt"@) == (any_word(ws, i as int, "alt"@) || is_a)) by {
            if any_word(ws, i as int, "alt"@) {
                let k = choose|k: int| 0 <= k < i && #[trigger] ws[k] == "alt"@;
                assert(ws[k] == "alt"@);
            }
            if is_a {
                assert(ws[i as int] == "alt"@);
            }
        }
        assert(any_super(ws, i + 1) == (any_super(ws, i as int) || is_su)) by {
            if any_super(ws, i as int) {
                let k = choose|k: int| 0 <= k < i && is_super(#[trigger] ws[k]);
                assert(is_super(ws[k]));
            }
            if is_su {
                assert(is_super(ws[i as int]));
            }
        }
        if is_c {
            ctrl = true;
        } else if is_sh {
            shift = true;
        } else if is_a {
            alt = true;
        } else if is_su {
            sup = true;
        } else {
            key = Some(p);
        }
        i = i + 1;
    }
    match key {
        Some(k) => match find_key(k.as_str()) {
            Some(key) => Some(Hotkey { ctrl, shift, alt, sup, key }),
            None => None,
        },
        None => None,
    }
}

// ---- what hotkeys do ----

/// What a hotkey does.
#[derive(PartialEq, Eq, Structural, Clone, Copy)]
pub enum Action {
    Screenshot,
    Ocr,
    ToggleRecording,
    StartRecording,
    StopRecording,
    TogglePause,
    SaveReplay,
}

/// A hotkey that is to be registered: what to call it, its notation, and what it does.
pub struct Binding {
    pub label: String,
    pub key: String,
    pub action: Action,
}

/// What a [`Binding`] stands for.
pub struct Bound {
    pub label: Seq<char>,
    pub key: Seq<char>,
    pub action: Action,
}

impl View for Binding {
    type V = Bound;

    open spec fn view(&self) -> Bound {
        Bound { label: self.label@, key: self.key@, action: self.action }
    }
}

/// The views of bindings.
pub open spec fn bound(v: Seq<Binding>) -> Seq<Bound> {
    Seq::new(v.len(), |i: int| v[i]@)
}

/// Whether two notations are the same, but for case and the white space around them.
pub open spec fn same_key(a: Seq<char>, b: Seq<char>) -> bool {
    lowercase(trimmed(a)) == lowercase(trimmed(b))
}

/// The hotkeys for recording: one that starts and stops where both are the same.
pub open spec fn record_keys(s: AppSettings) -> Seq<Bound> {
    if same_key(s.rec_start_hotkey@, s.rec_stop_hotkey@) {
        seq![
            Bound {
                label: "Start/Stop recording"@,
                key: s.rec_start_hotkey@,
                action: Action::ToggleRecording,
            },
        ]
    } else {
        seq![
            Bound {
                label: "Start recording"@,
                key: s.rec_start_hotkey@,
                action: Action::StartRecording,
            },
            Bound {
                label: "Stop recording"@,
                key: s.rec_stop_hotkey@,
                action: Action::StopRecording,
            },
        ]
    }
}

/// The hotkeys for pausing: one where both are the same. Either toggles.
pub open spec fn pause_keys(s: AppSettings) -> Seq<Bound> {
    if same_key(s.rec_pause_hotkey@, s.rec_resume_hotkey@) {
        seq![
            Bound {
                label: "Pause/Resume recording"@,
                key: s.rec_pause_hotkey@,
                action: Action::TogglePause,
            },
        ]
    } else {
        seq![
            Bound {
                label: "Pause recording"@,
                key: s.rec_pause_hotkey@,
                action: Action::TogglePause,
            },
            Bound {
                label: "Resume recording"@,
                key: s.rec_resume_hotkey@,
                action: Action::TogglePause,
            },
        ]
    }
}

/// All hotkeys, in the order in which they are registered.
pub open spec fn all_keys(s: AppSettings) -> Seq<Bound> {
    seq![
        Bound { label: "Screenshot"@, key: s.screenshot_hotkey@, action: Action::Screenshot },
    ] + (if s.ocr_enabled {
        seq![Bound { label: "OCR"@, key: s.ocr_hotkey@, action: Action::Ocr }]
    } else {
        seq![]
    }) + record_keys(s) + pause_keys(s) + seq![
        Bound {
            label: "Save Instant Replay"@,
            key: s.replay_save_hotkey@,
            action: Action::SaveReplay,
        },
    ]
}

fn bind(v: &mut Vec<Binding>, label: &str, key: &str, action: Action)
    ensures
        bound(final(v)@) == bound(old(v)@).push(Bound { label: label@, key: key@, action }),
{
    let ghost so_far = bound(v@);
    v.push(Binding { label: label.to_string(), key: key.to_string(), action });
    assert(bound(v@) =~= so_far.push(Bound { label: label@, key: key@, action }));
}

fn is_same_key(a: &str, b: &str) -> (r: bool)
    ensures
        r == same_key(a@, b@),
{
    let x = trim(a);
    let y = trim(b);
    let x = to_lowercase(x.as_str());
    let y = to_lowercase(y.as_str());
    same(x.as_str(), y.as_str())
}

/// The hotkeys that the settings ask for. Keys that are shared on purpose, to start and
/// stop or to pause and resume, are registered once.
pub fn bindings(s: &AppSettings) -> (r: Vec<Binding>)
    ensures
        bound(r@) == all_keys(*s),
{
    let mut v: Vec<Binding> = Vec::new();
    bind(&mut v, "Screenshot", s.screenshot_hotkey.as_str(), Action::Screenshot);
    if s.ocr_enabled {
        bind(&mut v, "OCR", s.ocr_hotkey.as_str(), Action::Ocr);
    }
    let start = s.rec_start_hotkey.as_str();
    let stop = s.rec_stop_hotkey.as_str();
    if is_same_key(start, stop) {
        bind(&mut v, "Start/Stop recording", start, Action::ToggleRecording);
    } else {
        bind(&mut v, "Start recording", start, Action::StartRecording);
        bind(&mut v, "Stop recording", stop, Action::StopRecording);
    }
    let pause = s.rec_pause_hotkey.as_str();
    let resume = s.rec_resume_hotkey.as_str();
    if is_same_key(pause, resume) {
        bind(&mut v, "Pause/Resume recording", pause, Action::TogglePause);
    } else {
        bind(&mut v, "Pause recording", pause, Action::TogglePause);
        bind(&mut v, "Resume recording", resume, Action::TogglePause);
    }
    bind(&mut v, "Save Instant Replay", s.replay_save_hotkey.as_str(), Action::SaveReplay);
    assert(bound(v@) =~= all_keys(*s));
    v
}

/// What is said of a hotkey that could not be registered; nothing of one that could.
/// `taken` says whether another program has it.
pub open spec fn complaint(b: Bound, taken: bool) -> Option<Seq<char>> {
    if hotkey(b.key) is None {
        Some(
            b.label + " ("@ + b.key
                + ") has an unsupported format — use like Ctrl+Shift+S."@,
        )
    } else if taken {
        Some(b.label + " ("@ + b.key + ") is already in use by Windows or another app."@)
    } else {
        None
    }
}

/// What is said of the first `n` hotkeys.
pub open spec fn complaints(bs: Seq<Bound>, taken: Seq<bool>, n: int) -> Seq<Seq<char>>
    decreases n,
{
    if n <= 0 {
        seq![]
    } else {
        match complaint(bs[n - 1], taken[n - 1]) {
            Some(m) => complaints(bs, taken, n - 1).push(m),
            None => complaints(bs, taken, n - 1),
        }
    }
}

/// Says which hotkeys could not be registered: those with a notation that is not
/// understood, and those that another program has.
pub fn register_hotkeys(bs: &Vec<Binding>, taken: &Vec<bool>) -> (r: Vec<String>)
    requires
        bs.len() == taken.len(),
    ensures
        texts(r@) == complaints(bound(bs@), taken@, bs@.len() as int),
{
    let mut out: Vec<String> = Vec::new();
    assert(texts(out@) =~= seq![]);
    let mut i: usize = 0;
    while i < bs.len()
        invariant
            i <= bs.len(),
            bs.len() == taken.len(),
            texts(out@) == complaints(bound(bs@), taken@, i as int),
        decreases bs.len() - i,
    {
        let b = &bs[i];
        assert(bound(bs@)[i as int] == b@);
        let ghost so_far = texts(out@);
        let head = join3(b.label.as_str(), " (", b.key.as_str());
        match parse_hotkey(b.key.as_str()) {
            None => {
                let m = join2(
                    head.as_str(),
                    ") has an unsupported format — use like Ctrl+Shift+S.",
                );
                let ghost t = m@;
                out.push(m);
                assert(texts(out@) =~= so_far.push(t));
            },
            Some(_) => {
                if taken[i] {
                    let m = join2(
                        head.as_str(),
                        ") is already in use by Windows or another app.",
                    );
                    let ghost t = m@;
                    out.push(m);
                    assert(texts(out@) =~= so_far.push(t));
                }
            },
        }
        i = i + 1;
    }
    out
}

// ---- laws ----

/// Whether a hotkey can be used depends on its notation alone: one that is understood
/// and free is never complained of.
pub proof fn law_free_keys_are_silent(bs: Seq<Bound>, taken: Seq<bool>, n: int)
    requires
        forall|i: int| 0 <= i < n ==> hotkey((#[trigger] bs[i]).key) is Some && !taken[i],
    ensures
        complaints(bs, taken, n).len() == 0,
    decreases n,
{
    if n > 0 {
        law_free_keys_are_silent(bs, taken, n - 1);
        assert(hotkey(bs[n - 1].key) is Some && !taken[n - 1]);
    }
}

/// A key that starts and stops is registered once.
pub proof fn law_shared_keys_once(s: AppSettings)
    requires
        same_key(s.rec_start_hotkey@, s.rec_stop_hotkey@),
        same_key(s.rec_pause_hotkey@, s.rec_resume_hotkey@),
    ensures
        record_keys(s).len() == 1,
        pause_keys(s).len() == 1,
{
}

/// Eight words stand for modifiers: two for the control key, four for the system key, and one
/// each for the others.
pub proof fn law_modifier_words(w: Seq<char>)
    ensures
        is_ctrl(w) <==> w == "ctrl"@ || w == "control"@,
        is_super(w) <==> w == "super"@ || w == "meta"@ || w == "win"@ || w == "cmd"@,
        is_modifier(w) <==> is_ctrl(w) || is_super(w) || w == "shift"@ || w == "alt"@,
{
}

/// The key of a hotkey is its last word that is no modifier; a hotkey of modifiers alone has
/// none.
pub proof fn law_last_key_counts(ws: Seq<Seq<char>>, n: int, k: int)
    requires
        0 <= k <= n <= ws.len(),
        forall|i: int| k <= i < n ==> is_modifier(#[trigger] ws[i]),
        k > 0 ==> !is_modifier(ws[k - 1]),
    ensures
        key_word(ws, n) == if k > 0 {
            Some(ws[k - 1])
        } else {
            None
        },
    decreases n,
{
    if n > k {
        assert(is_modifier(ws[n - 1]));
        law_last_key_counts(ws, n - 1, k);
    }
}

proof fn lemma_function_names()
    ensures
        "f1"@ == seq!['f', '1'] && "f2"@ == seq!['f', '2'] && "f3"@ == seq!['f', '3'] && "f4"@ == seq![
            'f',
            '4',
        ],
        "f5"@ == seq!['f', '5'] && "f6"@ == seq!['f', '6'] && "f7"@ == seq!['f', '7'] && "f8"@ == seq![
            'f',
            '8',
        ],
        "f9"@ == seq!['f', '9'] && "f10"@ == seq!['f', '1', '0'] && "f11"@ == seq!['f', '1', '1']
            && "f12"@ == seq!['f', '1', '2'],
{
    reveal_strlit("f1");
    reveal_strlit("f2");
    reveal_strlit("f3");
    reveal_strlit("f4");
    reveal_strlit("f5");
    reveal_strlit("f6");
    reveal_strlit("f7");
    reveal_strlit("f8");
    reveal_strlit("f9");
    reveal_strlit("f10");
    reveal_strlit("f11");
    reveal_strlit("f12");
    assert("f1"@ =~= seq!['f', '1'] && "f2"@ =~= seq!['f', '2'] && "f3"@ =~= seq!['f', '3'] && "f4"@
        =~= seq!['f', '4']);
    assert("f5"@ =~= seq!['f', '5'] && "f6"@ =~= seq!['f', '6'] && "f7"@ =~= seq!['f', '7'] && "f8"@
        =~= seq!['f', '8']);
    assert("f9"@ =~= seq!['f', '9'] && "f10"@ =~= seq!['f', '1', '0'] && "f11"@ =~= seq!['f', '1', '1']
        && "f12"@ =~= seq!['f', '1', '2']);
}

/// A function key is written as an `f` with its number behind it, and there are twelve.
pub proof fn law_function_keys(n: nat)
    requires
        1 <= n <= 12,
    ensures
        function_number(seq!['f'] + decimal(n)) == Some(n as u8),
        key_of(seq!['f'] + decimal(n)) == Some(Key::Function(n as u8)),
{
    lemma_function_names();
    let w = seq!['f'] + decimal(n);
    let digit = ('0' as int + n % 10) as char;
    law_decimal(n);
    if n < 10 {
        assert(w =~= seq!['f', digit]);
        assert(w[1] == digit);
    } else {
        law_decimal(1);
        assert(n / 10 == 1);
        assert(decimal(n) =~= decimal(1).push(digit));
        assert(w =~= seq!['f', '1', digit]);
        assert(w[1] == '1' && w[2] == digit);
    }
    assert("f1"@[1] == '1' && "f2"@[1] == '2' && "f3"@[1] == '3' && "f4"@[1] == '4' && "f5"@[1] == '5'
        && "f6"@[1] == '6' && "f7"@[1] == '7' && "f8"@[1] == '8' && "f9"@[1] == '9');
    assert("f10"@[2] == '0' && "f11"@[2] == '1' && "f12"@[2] == '2');
    assert("f1"@.len() == 2 && "f2"@.len() == 2 && "f3"@.len() == 2 && "f4"@.len() == 2 && "f5"@.len()
        == 2 && "f6"@.len() == 2 && "f7"@.len() == 2 && "f8"@.len() == 2 && "f9"@.len() == 2);
    assert("f10"@.len() == 3 && "f11"@.len() == 3 && "f12"@.len() == 3);
}

/// A letter or a digit stands for itself; no other single character is a key.
pub proof fn law_plain_keys(c: char)
    ensures
        'a' <= c <= 'z' ==> key_of(seq![c]) == Some(Key::Letter(c)),
        '0' <= c <= '9' ==> key_of(seq![c]) == Some(Key::Digit(c)),
        !('a' <= c <= 'z') && !('0' <= c <= '9') ==> key_of(seq![c]) is None,
        key_of(seq![]) is None,
        key_of("printscreen"@) == Some(Key::PrintScreen),
        key_of("print"@) == Some(Key::PrintScreen),
{
    lemma_function_names();
    reveal_strlit("printscreen");
    reveal_strlit("print");
    assert("printscreen"@.len() == 11 && "print"@.len() == 5);
    let none: Seq<char> = seq![];
    assert(none.len() == 0);
    assert("f1"@.len() == 2 && "f2"@.len() == 2 && "f3"@.len() == 2 && "f4"@.len() == 2 && "f5"@.len()
        == 2 && "f6"@.len() == 2 && "f7"@.len() == 2 && "f8"@.len() == 2 && "f9"@.len() == 2);
    assert("f10"@.len() == 3 && "f11"@.len() == 3 && "f12"@.len() == 3);
    assert(seq![c].len() == 1);
}

/// A hotkey has a modifier if and only if one of its words stands for it, and the key that its
/// last other word stands for; it is none where there is no such key.
pub proof fn law_hotkey(s: Seq<char>, w: Seq<char>)
    requires
        key_word(words(s), words(s).len() as int) == Some(w),
    ensures
        hotkey(s) is Some <==> key_of(w) is Some,
        hotkey(s) matches Some(h) ==> {
            &&& key_of(w) == Some(h.key)
            &&& h.ctrl <==> exists|i: int|
                0 <= i < words(s).len() && (#[trigger] words(s)[i] == "ctrl"@ || words(s)[i]
                    == "control"@)
            &&& h.shift <==> exists|i: int|
                0 <= i < words(s).len() && #[trigger] words(s)[i] == "shift"@
            &&& h.alt <==> exists|i: int|
                0 <= i < words(s).len() && #[trigger] words(s)[i] == "alt"@
            &&& h.sup <==> exists|i: int|
                0 <= i < words(s).len() && (#[trigger] words(s)[i] == "super"@ || words(s)[i]
                    == "meta"@ || words(s)[i] == "win"@ || words(s)[i] == "cmd"@)
        },
{
    let ws = words(s);
    let n = ws.len() as int;
    if any_ctrl(ws, n) {
        let i = choose|i: int| 0 <= i < n && is_ctrl(#[trigger] ws[i]);
        assert(ws[i] == "ctrl"@ || ws[i] == "control"@);
    }
    if exists|i: int| 0 <= i < n && (#[trigger] ws[i] == "ctrl"@ || ws[i] == "control"@) {
        let i = choose|i: int| 0 <= i < n && (#[trigger] ws[i] == "ctrl"@ || ws[i] == "control"@);
        assert(is_ctrl(ws[i]));
    }
    if any_super(ws, n) {
        let i = choose|i: int| 0 <= i < n && is_super(#[trigger] ws[i]);
        assert(ws[i] == "super"@ || ws[i] == "meta"@ || ws[i] == "win"@ || ws[i] == "cmd"@);
    }
    if exists|i: int|
        0 <= i < n && (#[trigger] ws[i] == "super"@ || ws[i] == "meta"@ || ws[i] == "win"@ || ws[i]
            == "cmd"@) {
        let i = choose|i: int|
            0 <= i < n && (#[trigger] ws[i] == "super"@ || ws[i] == "meta"@ || ws[i] == "win"@
                || ws[i] == "cmd"@);
        assert(is_super(ws[i]));
    }
}

/// The words of a hotkey are what stands between its plus signs, in lower case and without the
/// white space around it.
pub proof fn law_words(part: Seq<char>, rest: Seq<char>)
    requires
        ascii_only(part),
        ascii_only(rest),
        forall|i: int| 0 <= i < part.len() ==> #[trigger] part[i] != '+',
    ensures
        words(part + seq!['+'] + rest) == seq![trimmed(lowercase(part))] + words(rest),
        words(part) == seq![trimmed(lowercase(part))],
{
    let s = part + seq!['+'] + rest;
    let n = part.len() as int;
    assert forall|i: int| 0 <= i < s.len() implies #[trigger] s[i] as int <= 0x7f by {
        if i < n {
            assert(s[i] == part[i]);
        } else if i > n {
            assert(s[i] == rest[i - n - 1]);
        }
    }
    assert(ascii_only(s));
    let low = lowercase(s);
    law_lowercase(s, 0);
    if n > 0 {
        law_lowercase(part, 0);
    } else {
        lemma_lower_empty(part);
    }
    if rest.len() > 0 {
        law_lowercase(rest, 0);
    } else {
        lemma_lower_empty(rest);
    }
    let parts = lowercase(part) + seq!['+'] + lowercase(rest);
    assert forall|i: int| 0 <= i < low.len() implies #[trigger] low[i] == parts[i] by {
        law_lowercase(s, i);
        if i < n {
            law_lowercase(part, i);
            assert(s[i] == part[i]);
        } else if i > n {
            law_lowercase(rest, i - n - 1);
            assert(s[i] == rest[i - n - 1]);
        }
    }
    assert(low =~= parts);
    assert forall|i: int| 0 <= i < lowercase(part).len() implies #[trigger] lowercase(part)[i]
        != '+' by {
        law_lowercase(part, i);
        assert(part[i] != '+');
    }
    law_split(lowercase(part), '+', lowercase(rest));
    assert(words(s) =~= seq![trimmed(lowercase(part))] + words(rest));
    assert(words(part) =~= seq![trimmed(lowercase(part))]);
}

proof fn lemma_lower_empty(s: Seq<char>)
    requires
        s.len() == 0,
    ensures
        lowercase(s) == s,
{
    assert(ascii_only(s));
    assert(lowercase(s) =~= s);
}

/// Which hotkeys there are, and in which order: that for screenshots first and that for the
/// replay last, that for reading text only where it is switched on, and two for recording and
/// for pausing where the keys for beginning and ending differ.
pub proof fn law_bound_keys(s: AppSettings)
    ensures
        ({
            let k = all_keys(s);
            let a: int = if s.ocr_enabled {
                2
            } else {
                1
            };
            let b: int = a + if same_key(s.rec_start_hotkey@, s.rec_stop_hotkey@) {
                1int
            } else {
                2
            };
            let c: int = b + if same_key(s.rec_pause_hotkey@, s.rec_resume_hotkey@) {
                1int
            } else {
                2
            };
            &&& k.len() == c + 1
            &&& k[0].action == Action::Screenshot && k[0].key == s.screenshot_hotkey@
            &&& s.ocr_enabled ==> k[1].action == Action::Ocr && k[1].key == s.ocr_hotkey@
            &&& k[a].key == s.rec_start_hotkey@ && k[b].key == s.rec_pause_hotkey@
            &&& b == a + 1 ==> k[a].action == Action::ToggleRecording
            &&& b == a + 2 ==> k[a].action == Action::StartRecording && k[a + 1].action
                == Action::StopRecording && k[a + 1].key == s.rec_stop_hotkey@
            &&& k[b].action == Action::TogglePause
            &&& c == b + 2 ==> k[b + 1].action == Action::TogglePause && k[b + 1].key
                == s.rec_resume_hotkey@
            &&& k[c].action == Action::SaveReplay && k[c].key == s.replay_save_hotkey@
        }),
{
}

/// Two notations are the same however they are spaced and whatever their case.
pub proof fn law_same_key(a: Seq<char>, b: Seq<char>)
    ensures
        same_key(a, a),
        same_key(a, b) == same_key(b, a),
        same_key(a, b) <==> lowercase(trimmed(a)) == lowercase(trimmed(b)),
{
}

/// Of each hotkey more, something is said if and only if its notation is not understood or
/// another program has it; that it is not understood goes before.
pub proof fn law_complaints(bs: Seq<Bound>, taken: Seq<bool>, n: int)
    requires
        0 < n,
    ensures
        ({
            let before = complaints(bs, taken, n - 1);
            let now = complaints(bs, taken, n);
            let b = bs[n - 1];
            &&& now.len() > before.len() <==> hotkey(b.key) is None || taken[n - 1]
            &&& hotkey(b.key) is None ==> now == before.push(
                b.label + " ("@ + b.key + ") has an unsupported format — use like Ctrl+Shift+S."@,
            )
            &&& hotkey(b.key) is Some && taken[n - 1] ==> now == before.push(
                b.label + " ("@ + b.key + ") is already in use by Windows or another app."@,
            )
            &&& hotkey(b.key) is Some && !taken[n - 1] ==> now == before
        }),
{
}

/// The hotkeys that are registered stand as they are written.
pub proof fn law_bound(v: Seq<Binding>, i: int)
    requires
        0 <= i < v.len(),
    ensures
        bound(v).len() == v.len(),
        bound(v)[i].label == v[i].label@ && bound(v)[i].key == v[i].key@ && bound(v)[i].action
            == v[i].action,
{
}

} // verus!
