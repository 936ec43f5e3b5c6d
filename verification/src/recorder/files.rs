//! Names of files and folders, disk space, and what is done with a saved file.
use vstd::prelude::*;

use crate::clock::{id_text, new_id, now_stamp, Stamp};
use crate::paths::{app_dir, dir_or_here, is_app_dir, is_below, is_in, join, video_dir};
use crate::settings::AppSettings;
use crate::text::{
    begins, ends, from_utf8_lossy, join2, join3, lossy, number, parse_number, same, starts_with, texts,
    to_chars, trim, trimmed,
};

verus! {

/// The name of a saved file.
pub open spec fn saved_name(date: Seq<char>, time: Seq<char>, replay: bool) -> Seq<char> {
    (if replay {
        "OpenScreen_Replay_"@
    } else {
        "OpenScreen_"@
    }) + date + "_"@ + time + ".mp4"@
}

/// The name of a file that is saved at this time.
pub fn final_name_at(stamp: &Stamp, replay: bool) -> (r: String)
    ensures
        r@ == saved_name(stamp.date@, stamp.time@, replay),
{
    let mut s = if replay {
        join2("OpenScreen_Replay_", stamp.date.as_str())
    } else {
        join2("OpenScreen_", stamp.date.as_str())
    };
    s.append("_");
    s.append(stamp.time.as_str());
    s.append(".mp4");
    s
}

/// The name of a file that is saved now.
pub fn final_name(replay: bool) -> (r: String)
    ensures
        exists|date: Seq<char>, time: Seq<char>|
            crate::clock::date_text(date) && crate::clock::time_text(time) && r@
                == #[trigger] saved_name(date, time, replay),
{
    let stamp = now_stamp();
    final_name_at(&stamp, replay)
}

/// Whether `folder` is where recordings go: the folder that the user chose, else
/// the program's folder among the videos.
pub open spec fn is_default_folder(
    folder: Seq<char>,
    s: AppSettings,
    videos: Option<String>,
) -> bool {
    if trimmed(s.rec_folder@).len() == 0 {
        is_in(folder, dir_or_here(videos), "Open Screen"@)
    } else {
        folder == trimmed(s.rec_folder@)
    }
}

/// Where recordings go, for a user with this folder for videos.
pub fn default_folder_in(s: &AppSettings, videos: Option<String>) -> (r: String)
    ensures
        is_default_folder(r@, *s, videos),
{
    let chosen = trim(s.rec_folder.as_str());
    if !chosen.as_str().is_empty() {
        return chosen;
    }
    proof {
        reveal_strlit("Open Screen");
    }
    match videos {
        Some(d) => join(d.as_str(), "Open Screen"),
        None => join(".", "Open Screen"),
    }
}

/// Where recordings go.
pub fn default_folder(s: &AppSettings) -> (r: String)
    ensures
        exists|videos: Option<String>| #[trigger] is_default_folder(r@, *s, videos),
{
    default_folder_in(s, video_dir())
}

/// The name of a folder for temporary files, with this identity.
pub fn temp_name_at(prefix: &str, id: &str) -> (r: String)
    ensures
        r@ == prefix@ + "-"@ + id@,
{
    join3(prefix, "-", id)
}

/// The name of a fresh folder for temporary files.
pub fn temp_name(prefix: &str) -> (r: String)
    ensures
        exists|id: Seq<char>| #[trigger] id_text(id) && r@ == prefix@ + "-"@ + id,
{
    let id = new_id();
    temp_name_at(prefix, id.as_str())
}

/// Whether a folder among the temporary files is one that a recording left behind.
pub fn is_stale_workdir(name: &str) -> (r: bool)
    ensures
        r == begins(name@, "openscreen-rec-"@),
{
    starts_with(name, "openscreen-rec-")
}

/// The folders that recordings use are recognised when they are left behind.
pub proof fn law_workdirs_are_recognised(id: Seq<char>)
    ensures
        begins("openscreen-rec"@ + "-"@ + id, "openscreen-rec-"@),
{
    reveal_strlit("openscreen-rec");
    reveal_strlit("openscreen-rec-");
    reveal_strlit("-");
    assert("openscreen-rec"@.len() == 14 && "openscreen-rec-"@.len() == 15 && "-"@.len() == 1);
    let all = "openscreen-rec"@ + "-"@ + id;
    assert(all.subrange(0, 15) =~= "openscreen-rec-"@);
}

// ---- the encoder program ----

/// The file name of the encoder program.
pub open spec fn exe_name(windows: bool) -> Seq<char> {
    if windows {
        "ffmpeg.exe"@
    } else {
        "ffmpeg"@
    }
}

/// The file name of the encoder program.
pub fn ffmpeg_exe_name(windows: bool) -> (r: &'static str)
    ensures
        r@ == exe_name(windows),
{
    if windows {
        "ffmpeg.exe"
    } else {
        "ffmpeg"
    }
}

/// Where a downloaded encoder program is, in the program's folder.
pub fn bundled_ffmpeg_in(app: &str, windows: bool) -> (r: String)
    ensures
        is_below(r@, app@, "ffmpeg"@, exe_name(windows)),
{
    proof {
        reveal_strlit("ffmpeg");
        reveal_strlit("ffmpeg.exe");
    }
    let dir = join(app, "ffmpeg");
    join(dir.as_str(), ffmpeg_exe_name(windows))
}

/// Where a downloaded encoder program is.
pub fn bundled_ffmpeg(windows: bool) -> (r: String)
    ensures
        exists|app: Seq<char>|
            is_app_dir(app) && #[trigger] is_below(r@, app, "ffmpeg"@, exe_name(windows)),
{
    let app = app_dir();
    bundled_ffmpeg_in(app.as_str(), windows)
}

/// A place where something may be, and whether it is.
pub struct Place {
    pub path: String,
    pub there: bool,
}

/// The first place, from `from` on, where something is.
pub open spec fn first_there(places: Seq<Place>, from: int) -> Option<String>
    decreases places.len() - from,
{
    if from < 0 || from >= places.len() {
        None
    } else if places[from].there {
        Some(places[from].path)
    } else {
        first_there(places, from + 1)
    }
}

/// Picks the first place where something is.
pub fn pick_place(places: &Vec<Place>) -> (r: Option<String>)
    ensures
        r == first_there(places@, 0),
{
    let mut i: usize = 0;
    while i < places.len()
        invariant
            i <= places.len(),
            first_there(places@, 0) == first_there(places@, i as int),
        decreases places.len() - i,
    {
        if places[i].there {
            return Some(places[i].path.clone());
        }
        i = i + 1;
    }
    None
}

/// The encoder program: the one that came with the program, else the one on the
/// search path, else a downloaded one.
pub fn ffmpeg_path(shipped: Option<String>, on_path: Option<String>, own: Place) -> (r: Option<
    String,
>)
    ensures
        r == (match shipped {
            Some(p) => Some(p),
            None => match on_path {
                Some(p) => Some(p),
                None => if own.there {
                    Some(own.path)
                } else {
                    None
                },
            },
        }),
{
    match shipped {
        Some(p) => Some(p),
        None => match on_path {
            Some(p) => Some(p),
            None => if own.there {
                Some(own.path)
            } else {
                None
            },
        },
    }
}

/// The file in which is kept what the encoder program offers.
pub fn probe_path_in(app: &str) -> (r: String)
    ensures
        is_in(r@, app@, "ffmpeg_probe.json"@),
{
    proof {
        reveal_strlit("ffmpeg_probe.json");
    }
    join(app, "ffmpeg_probe.json")
}

/// The file in which is kept what the encoder program offers.
pub fn probe_path() -> (r: String)
    ensures
        exists|app: Seq<char>| is_app_dir(app) && #[trigger] is_in(r@, app, "ffmpeg_probe.json"@),
{
    let app = app_dir();
    probe_path_in(app.as_str())
}

// ---- disk space ----

/// Whether a character is an ASCII letter.
pub open spec fn is_letter(c: char) -> bool {
    'a' <= c <= 'z' || 'A' <= c <= 'Z'
}

/// The letter of the drive that a path begins with.
pub fn drive_letter(path: &str) -> (r: Option<char>)
    ensures
        r == if path@.len() > 0 && is_letter(path@[0]) {
            Some(path@[0])
        } else {
            None
        },
{
    let v = to_chars(path);
    if v.len() == 0 {
        return None;
    }
    let c: char = v[0];
    if ('a' <= c && c <= 'z') || ('A' <= c && c <= 'Z') {
        Some(c)
    } else {
        None
    }
}

/// The question for the free space of a drive.
pub fn free_space_query(letter: char) -> (r: String)
    ensures
        r@ == "(Get-PSDrive "@ + seq![letter] + ").Free"@,
{
    let mut s = "(Get-PSDrive ".to_string();
    s.push(letter);
    s.append(").Free");
    assert(s@ =~= "(Get-PSDrive "@ + seq![letter] + ").Free"@);
    s
}

/// The answer to the question for the free space of a drive, in bytes.
pub fn free_space_answer(stdout: &[u8]) -> (r: Option<u64>)
    ensures
        match r {
            Some(n) => number(trimmed(lossy(stdout@)), u64::MAX as int) == Some(n as nat),
            None => number(trimmed(lossy(stdout@)), u64::MAX as int) is None,
        },
{
    let txt = from_utf8_lossy(stdout);
    let t = trim(txt.as_str());
    parse_number(t.as_str(), u64::MAX)
}

/// Whether there is enough space. Where the free space is not known, there is.
pub fn check_disk(free: Option<u64>, need_bytes: u64) -> (r: Result<(), String>)
    ensures
        match free {
            Some(n) if n < need_bytes => r matches Err(e) && e@
                == "Not enough disk space to save this recording. Free up space and try again. / لا توجد مساحة كافية لحفظ التسجيل."@,
            _ => r is Ok,
        },
{
    match free {
        Some(n) => if n < need_bytes {
            Err(
                "Not enough disk space to save this recording. Free up space and try again. / لا توجد مساحة كافية لحفظ التسجيل.".to_string(),
            )
        } else {
            Ok(())
        },
        None => Ok(()),
    }
}

/// The space that a recording of unknown length needs to be started.
pub const SPACE_TO_RECORD: u64 = 1_073_741_824;

/// The space that the buffer of the replay needs.
pub const SPACE_TO_BUFFER: u64 = 536_870_912;

// ---- after saving ----

/// What is done with a saved file.
#[derive(PartialEq, Eq, Structural, Clone, Copy)]
pub enum PostAction {
    OpenFile,
    OpenFolder,
    CopyPath,
    Nothing,
}

/// What is done with a saved file, by the word in the settings.
pub fn post_action(word: &str) -> (r: PostAction)
    ensures
        r == if word@ == "open_file"@ {
            PostAction::OpenFile
        } else if word@ == "open_folder"@ {
            PostAction::OpenFolder
        } else if word@ == "copy_path"@ {
            PostAction::CopyPath
        } else {
            PostAction::Nothing
        },
{
    if same(word, "open_file") {
        PostAction::OpenFile
    } else if same(word, "open_folder") {
        PostAction::OpenFolder
    } else if same(word, "copy_path") {
        PostAction::CopyPath
    } else {
        PostAction::Nothing
    }
}

/// A program and its arguments.
pub struct Launch {
    pub program: String,
    pub args: Vec<String>,
}

/// The program that carries out an action on a file, where it takes one.
pub fn post_launch(action: PostAction, path: &str) -> (r: Option<Launch>)
    ensures
        match action {
            PostAction::OpenFile => r matches Some(l) && l.program@ == "cmd"@ && texts(l.args@)
                == seq!["/C"@, "start"@, ""@, path@],
            PostAction::OpenFolder => r matches Some(l) && l.program@ == "explorer"@ && texts(
                l.args@,
            ) == seq!["/select,"@, path@],
            _ => r is None,
        },
{
    let mut args: Vec<String> = Vec::new();
    match action {
        PostAction::OpenFile => {
            args.push("/C".to_string());
            args.push("start".to_string());
            args.push("".to_string());
            args.push(path.to_string());
            assert(texts(args@) =~= seq!["/C"@, "start"@, ""@, path@]);
            Some(Launch { program: "cmd".to_string(), args })
        },
        PostAction::OpenFolder => {
            args.push("/select,".to_string());
            args.push(path.to_string());
            assert(texts(args@) =~= seq!["/select,"@, path@]);
            Some(Launch { program: "explorer".to_string(), args })
        },
        _ => None,
    }
}

// ---- laws ----

/// The name of a saved file tells the date and the time, and whether it is a replay.
pub proof fn law_saved_names(date: Seq<char>, time: Seq<char>)
    ensures
        saved_name(date, time, false) == "OpenScreen_"@ + date + "_"@ + time + ".mp4"@,
        saved_name(date, time, true) == "OpenScreen_Replay_"@ + date + "_"@ + time + ".mp4"@,
        ends(saved_name(date, time, false), ".mp4"@),
        ends(saved_name(date, time, true), ".mp4"@),
{
    let a = saved_name(date, time, false);
    let b = saved_name(date, time, true);
    let e = ".mp4"@;
    assert(a.subrange(a.len() - e.len(), a.len() as int) =~= e);
    assert(b.subrange(b.len() - e.len(), b.len() as int) =~= e);
}

/// Recordings go to the folder that the user chose, whatever folder there is for videos; to
/// one of their own among the videos where the user chose none.
pub proof fn law_recordings_folder(folder: Seq<char>, s: AppSettings, videos: Option<String>)
    requires
        is_default_folder(folder, s, videos),
    ensures
        trimmed(s.rec_folder@).len() > 0 ==> folder == trimmed(s.rec_folder@),
        trimmed(s.rec_folder@).len() == 0 ==> (videos matches Some(v) ==> is_in(
            folder,
            v@,
            "Open Screen"@,
        )),
        trimmed(s.rec_folder@).len() == 0 && videos is None ==> is_in(folder, "."@, "Open Screen"@),
{
}

/// The place that is picked is the first where something is; none only where nothing is
/// anywhere.
pub proof fn law_first_there(places: Seq<Place>, from: int)
    requires
        0 <= from,
    ensures
        match first_there(places, from) {
            Some(p) => exists|i: int|
                from <= i < places.len() && (#[trigger] places[i]).there && places[i].path == p && (
                forall|j: int| from <= j < i ==> !(#[trigger] places[j]).there),
            None => forall|j: int| from <= j < places.len() ==> !(#[trigger] places[j]).there,
        },
    decreases places.len() - from,
{
    if from < places.len() {
        if places[from].there {
            assert(places[from].path == first_there(places, from)->0);
        } else {
            law_first_there(places, from + 1);
        }
    }
}

/// The encoder program that came with this one is taken before any other, one on the search
/// path before a downloaded one, and a downloaded one only if it is there.
pub proof fn law_encoder_program(
    shipped: Option<String>,
    on_path: Option<String>,
    own: Place,
    r: Option<String>,
)
    requires
        call_ensures(ffmpeg_path, (shipped, on_path, own), r),
    ensures
        shipped is Some ==> r == shipped,
        shipped is None && on_path is Some ==> r == on_path,
        shipped is None && on_path is None ==> (r is Some <==> own.there),
        shipped is None && on_path is None && own.there ==> r == Some(own.path),
{
}

/// Space is refused only where it is known to be short; more free space never makes it short.
pub proof fn law_disk_space(
    free: u64,
    more: u64,
    need: u64,
    a: Result<(), String>,
    b: Result<(), String>,
    c: Result<(), String>,
)
    requires
        call_ensures(check_disk, (Some(free), need), a),
        call_ensures(check_disk, (Some(more), need), b),
        call_ensures(check_disk, (None::<u64>, need), c),
        free <= more,
    ensures
        a is Ok <==> need <= free,
        a is Ok ==> b is Ok,
        c is Ok,
{
}

/// A recording is begun with one gibibyte free, and the buffer of the replay with half of one.
pub proof fn law_space_needed()
    ensures
        SPACE_TO_RECORD == 1024 * 1024 * 1024,
        2 * SPACE_TO_BUFFER == SPACE_TO_RECORD,
{
}

/// Each word of the settings has an action of its own, and any other word has none.
pub proof fn law_actions(word: &str, r: PostAction)
    requires
        call_ensures(post_action, (word,), r),
    ensures
        r == PostAction::OpenFile <==> word@ == "open_file"@,
        r == PostAction::OpenFolder <==> word@ == "open_folder"@,
        r == PostAction::CopyPath <==> word@ == "copy_path"@,
{
    reveal_strlit("open_file");
    reveal_strlit("open_folder");
    reveal_strlit("copy_path");
    assert("open_file"@.len() == 9 && "open_folder"@.len() == 11 && "copy_path"@.len() == 9);
    assert("open_file"@[0] == 'o' && "copy_path"@[0] == 'c');
}

/// The letter of a drive is the first character of a path, if that is a letter.
pub proof fn law_drive_letter(path: &str, r: Option<char>)
    requires
        call_ensures(drive_letter, (path,), r),
    ensures
        r matches Some(c) ==> path@.len() > 0 && path@[0] == c && ('a' <= c <= 'z' || 'A' <= c <= 'Z'),
        r is None ==> path@.len() == 0 || !('a' <= path@[0] <= 'z' || 'A' <= path@[0] <= 'Z'),
{
}

/// The encoder program is called `ffmpeg`, with the ending of programs on Windows.
pub proof fn law_program_names()
    ensures
        exe_name(false) == "ffmpeg"@,
        exe_name(true) == exe_name(false) + ".exe"@,
{
    reveal_strlit("ffmpeg");
    reveal_strlit("ffmpeg.exe");
    reveal_strlit(".exe");
    assert("ffmpeg.exe"@ =~= "ffmpeg"@ + ".exe"@);
}

/// A program is started only to open the file or its folder, and is told the file last.
pub proof fn law_launches(action: PostAction, path: &str, r: Option<Launch>)
    requires
        call_ensures(post_launch, (action, path), r),
    ensures
        r is Some <==> action == PostAction::OpenFile || action == PostAction::OpenFolder,
        r matches Some(l) ==> l.args@.len() > 0 && l.args@[l.args@.len() - 1]@ == path@,
        r matches Some(l) ==> (action == PostAction::OpenFile ==> l.program@ == "cmd"@) && (action
            == PostAction::OpenFolder ==> l.program@ == "explorer"@),
{
    if let Some(l) = r {
        let t = texts(l.args@);
        assert(t.len() == l.args@.len());
        assert(t[t.len() - 1] == l.args@[t.len() - 1]@);
    }
}

} // verus!
