//! Getting the encoder program, where it did not come with the program.
use vstd::prelude::*;

use crate::text::{
    ascii_only, contains, ends, ends_with, holds, join2, join3, law_found_in_a_row, law_lowercase,
    law_replaced, lowercase, replace_char, replaced, same, texts, to_lowercase,
};

verus! {

/// Where the encoder program is published.
pub open spec fn published() -> Seq<char> {
    "https://www.gyan.dev/ffmpeg/builds/ffmpeg-release-essentials.zip"@
}

/// What `serde_json` finds in a document: of each element of the list under `list`,
/// the text under `item`, where there is one.
pub uninterp spec fn json_texts(bytes: Seq<u8>, list: Seq<char>, item: Seq<char>) -> Seq<
    Option<Seq<char>>,
>;

/// The texts of a list that may have gaps.
pub open spec fn optional_texts(v: Seq<Option<String>>) -> Seq<Option<Seq<char>>> {
    Seq::new(
        v.len(),
        |i: int|
            match v[i] {
                Some(t) => Some(t@),
                None => None,
            },
    )
}

/// Calls `serde_json::from_slice`, and of the value `Value::get`,
/// `Value::as_array` and `Value::as_str`: reads a document, and hands out of each
/// element of the list under `list`, in order, the text under `item` where there is
/// one. There are no elements where the bytes are no such document. What it finds
/// is a function of the arguments.
#[verifier::external_body]
fn read_json_texts(bytes: &[u8], list: &str, item: &str) -> (r: Vec<Option<String>>)
    ensures
        optional_texts(r@) == json_texts(bytes@, list@, item@),
{
    let v = serde_json::from_slice::<serde_json::Value>(bytes).unwrap_or_default();
    let all = v.get(list).and_then(|a| a.as_array()).into_iter().flatten();
    all.map(|a| a.get(item).and_then(|u| u.as_str()).map(|u| u.to_string())).collect()
}

/// The first address, from `from` on, of a small build.
pub open spec fn first_build(urls: Seq<Option<Seq<char>>>, from: int) -> Option<Seq<char>>
    decreases urls.len() - from,
{
    if from < 0 || from >= urls.len() {
        None
    } else {
        match urls[from] {
            Some(u) if holds(u, "essentials_build.zip"@) => Some(u),
            _ => first_build(urls, from + 1),
        }
    }
}

/// Picks the first address of a small build.
pub fn pick_build(urls: &Vec<Option<String>>) -> (r: Option<String>)
    ensures
        match r {
            Some(u) => first_build(optional_texts(urls@), 0) == Some(u@),
            None => first_build(optional_texts(urls@), 0) is None,
        },
{
    let mut i: usize = 0;
    while i < urls.len()
        invariant
            i <= urls.len(),
            first_build(optional_texts(urls@), 0) == first_build(optional_texts(urls@), i as int),
        decreases urls.len() - i,
    {
        match &urls[i] {
            Some(u) => {
                assert(optional_texts(urls@)[i as int] == Some(u@));
                if contains(u.as_str(), "essentials_build.zip") {
                    return Some(u.clone());
                }
            },
            None => {
                assert(optional_texts(urls@)[i as int] is None);
            },
        }
        i = i + 1;
    }
    None
}

/// Where else the encoder program is: the first small build in the description of a
/// release.
pub fn mirror_of(release: &[u8]) -> (r: Option<String>)
    ensures
        ({
            let urls = json_texts(release@, "assets"@, "browser_download_url"@);
            match r {
                Some(u) => first_build(urls, 0) == Some(u@),
                None => first_build(urls, 0) is None,
            }
        }),
{
    let urls = read_json_texts(release, "assets", "browser_download_url");
    pick_build(&urls)
}

/// The addresses to try, in order: the published one, then the other one.
pub fn download_urls(mirror: Option<String>) -> (r: Vec<String>)
    ensures
        texts(r@) == match mirror {
            Some(m) => seq![published(), m@],
            None => seq![published()],
        },
{
    let mut urls: Vec<String> = Vec::new();
    urls.push("https://www.gyan.dev/ffmpeg/builds/ffmpeg-release-essentials.zip".to_string());
    match mirror {
        Some(m) => {
            let ghost t = m@;
            urls.push(m);
            assert(texts(urls@) =~= seq![published(), t]);
        },
        None => {
            assert(texts(urls@) =~= seq![published()]);
        },
    }
    urls
}

/// How much has been downloaded, and what was last told of it.
pub struct Progress {
    pub done: u64,
    pub total: u64,
    pub last_pct: u64,
}

impl Progress {
    /// A download of `total` bytes, 0 where that is not known.
    pub fn new(total: u64) -> (r: Self)
        ensures
            r.done == 0,
            r.total == total,
            r.last_pct == 0,
    {
        Progress { done: 0, total, last_pct: 0 }
    }

    /// The share that is done, in percent.
    pub open spec fn pct(self) -> int {
        self.done * 100 / (self.total as int)
    }

    /// Takes note of some more bytes. Returns the share that is done where it is to
    /// be told: where it has grown by two percent.
    pub fn on_chunk(&mut self, len: u64) -> (r: Option<u64>)
        requires
            (old(self).done + len) * 100 <= u64::MAX,
            old(self).last_pct <= u64::MAX - 2,
        ensures
            final(self).done == old(self).done + len,
            final(self).total == old(self).total,
            match r {
                Some(p) => old(self).total > 0 && p == final(self).pct() && p
                    >= old(self).last_pct + 2 && final(self).last_pct == p,
                None => (old(self).total == 0 || final(self).pct() < old(self).last_pct + 2)
                    && final(self).last_pct == old(self).last_pct,
            },
    {
        self.done = self.done + len;
        if self.total > 0 {
            let pct: u64 = self.done * 100 / self.total;
            if pct >= self.last_pct + 2 {
                self.last_pct = pct;
                return Some(pct);
            }
        }
        None
    }
}

/// Whether an entry of the archive is the encoder program.
pub open spec fn is_program(name: Seq<char>) -> bool {
    let l = lowercase(replaced(name, '\\', "/"@));
    ends(l, "/ffmpeg.exe"@) || l == "ffmpeg.exe"@
}

/// Whether an entry of the archive is the encoder program.
pub fn is_ffmpeg_entry(name: &str) -> (r: bool)
    ensures
        r == is_program(name@),
{
    let forward = replace_char(name, '\\', "/");
    let l = to_lowercase(forward.as_str());
    ends_with(l.as_str(), "/ffmpeg.exe") || same(l.as_str(), "ffmpeg.exe")
}

/// Why a download was refused by the server.
pub fn refused_by_server(status: &str) -> (r: String)
    ensures
        r@ == "Download failed (HTTP "@ + status@ + ")."@,
{
    join3("Download failed (HTTP ", status, ").")
}

/// Whether a downloaded program runs: it tells its version.
pub fn check_version(version: &str) -> (r: Result<(), String>)
    ensures
        version@.len() == 0 ==> (r matches Err(e) && e@
            == "Downloaded ffmpeg does not run on this PC."@),
        version@.len() > 0 ==> r is Ok,
{
    if version.is_empty() {
        Err("Downloaded ffmpeg does not run on this PC.".to_string())
    } else {
        Ok(())
    }
}

/// What the user is told when no address worked: the last error, with advice.
pub fn download_error(last: Option<String>) -> (r: String)
    ensures
        r@ == (match last {
            Some(e) => e@,
            None => "download failed"@,
        }) + ". Check internet and retry. / فشل التحميل — تحقق من الإنترنت."@,
{
    match last {
        Some(e) => join2(
            e.as_str(),
            ". Check internet and retry. / فشل التحميل — تحقق من الإنترنت.",
        ),
        None => join2(
            "download failed",
            ". Check internet and retry. / فشل التحميل — تحقق من الإنترنت.",
        ),
    }
}

// ---- laws ----

/// The build that is picked is the first whose address says that it is a small one; none is
/// picked only where no address does.
pub proof fn law_first_build(urls: Seq<Option<Seq<char>>>, from: int)
    requires
        0 <= from,
    ensures
        match first_build(urls, from) {
            Some(u) => exists|i: int|
                from <= i < urls.len() && #[trigger] urls[i] == Some(u) && holds(
                    u,
                    "essentials_build.zip"@,
                ) && (forall|j: int|
                    from <= j < i ==> !(#[trigger] urls[j] matches Some(v) && holds(
                        v,
                        "essentials_build.zip"@,
                    ))),
            None => forall|j: int|
                from <= j < urls.len() ==> !(#[trigger] urls[j] matches Some(v) && holds(
                    v,
                    "essentials_build.zip"@,
                )),
        },
    decreases urls.len() - from,
{
    if from < urls.len() {
        match urls[from] {
            Some(u) if holds(u, "essentials_build.zip"@) => {
                assert(urls[from] == Some(u));
            },
            _ => law_first_build(urls, from + 1),
        }
    }
}

/// The published address is tried first, and the other one, where there is one, last.
pub proof fn law_addresses(mirror: Option<String>, r: Vec<String>)
    requires
        call_ensures(download_urls, (mirror,), r),
    ensures
        r@.len() == if mirror is Some {
            2nat
        } else {
            1
        },
        r@[0]@ == published(),
        mirror matches Some(m) ==> r@[1]@ == m@,
{
    assert(texts(r@).len() == r@.len());
    assert(texts(r@)[0] == r@[0]@);
    if mirror is Some {
        assert(texts(r@)[1] == r@[1]@);
    }
}

/// The share that is done is the whole percents of what is there; it reaches a hundred only
/// when all is there.
pub proof fn law_percent(p: Progress)
    requires
        p.total > 0,
    ensures
        p.pct() * p.total <= 100 * p.done < (p.pct() + 1) * p.total,
        p.done <= p.total ==> p.pct() <= 100,
        p.done < p.total ==> p.pct() < 100,
        p.done == p.total ==> p.pct() == 100,
{
    let d = 100 * p.done;
    let t = p.total as int;
    let q = p.pct();
    assert(q == d / t);
    assert(q * t <= d < (q + 1) * t) by (nonlinear_arith)
        requires
            q == d / t,
            t > 0,
    ;
    if p.done <= p.total {
        assert(q <= 100) by (nonlinear_arith)
            requires
                q * t <= d,
                d <= 100 * t,
                t > 0,
        ;
    }
    if p.done < p.total {
        assert(q < 100) by (nonlinear_arith)
            requires
                q * t <= d,
                d < 100 * t,
                t > 0,
        ;
    }
    if p.done == p.total {
        assert(q >= 100) by (nonlinear_arith)
            requires
                d < (q + 1) * t,
                d == 100 * t,
                t > 0,
        ;
    }
}

/// The program is found in the archive by its name, in any folder; in either case, and with
/// either kind of slash. A file whose name only ends like that is not taken for it.
pub proof fn law_program_entries(folder: Seq<char>, c: char)
    requires
        forall|i: int| 0 <= i < folder.len() ==> #[trigger] folder[i] != '\\',
        ascii_only(folder),
        c != '/' && c != '\\' && c as int <= 0x7f && !('A' <= c <= 'Z'),
    ensures
        is_program("ffmpeg.exe"@),
        is_program(folder + "/ffmpeg.exe"@),
        is_program(folder + "\\ffmpeg.exe"@),
        !is_program(seq![c] + "ffmpeg.exe"@),
{
    lemma_exe(folder);
    lemma_exe_alone(c);
}

proof fn lemma_lower_same(s: Seq<char>)
    requires
        ascii_only(s),
        forall|i: int| 0 <= i < s.len() ==> !('A' <= #[trigger] s[i] && s[i] <= 'Z'),
    ensures
        lowercase(s) == s,
{
    assert forall|i: int| 0 <= i < s.len() implies #[trigger] lowercase(s)[i] == s[i] by {
        law_lowercase(s, i);
    }
    if s.len() > 0 {
        law_lowercase(s, 0);
    }
    assert(lowercase(s) =~= s);
}

proof fn lemma_exe(folder: Seq<char>)
    requires
        forall|i: int| 0 <= i < folder.len() ==> #[trigger] folder[i] != '\\',
        ascii_only(folder),
    ensures
        is_program(folder + "/ffmpeg.exe"@),
        is_program(folder + "\\ffmpeg.exe"@),
{
    reveal_strlit("/ffmpeg.exe");
    reveal_strlit("\\ffmpeg.exe");
    reveal_strlit("ffmpeg.exe");
    reveal_strlit("/");
    let e = "/ffmpeg.exe"@;
    let b = "\\ffmpeg.exe"@;
    let f = "ffmpeg.exe"@;
    assert(e.len() == 11 && b.len() == 11 && f.len() == 10);
    assert(b =~= seq!['\\'] + f);
    assert(e =~= "/"@ + f);
    law_replaced(folder, e, '\\', "/"@);
    law_replaced(e, seq![], '\\', "/"@);
    law_replaced(folder, b, '\\', "/"@);
    law_replaced(seq!['\\'], f, '\\', "/"@);
    law_replaced(f, seq![], '\\', "/"@);
    law_replaced(seq![], seq![], '\\', "/"@);
    assert(replaced(folder + b, '\\', "/"@) =~= folder + e);
    assert(replaced(folder + e, '\\', "/"@) =~= folder + e);
    let all = folder + e;
    assert(ascii_only(all)) by {
        assert forall|i: int| 0 <= i < all.len() implies #[trigger] all[i] as int <= 0x7f by {
            if i < folder.len() {
                assert(all[i] == folder[i]);
            } else {
                assert(all[i] == e[i - folder.len()]);
            }
        }
    }
    let low = lowercase(all);
    law_lowercase(all, 0);
    assert forall|k: int| 0 <= k < 11 implies low[low.len() - 11 + k] == #[trigger] e[k] by {
        law_lowercase(all, folder.len() + k);
        assert(all[folder.len() + k] == e[k]);
    }
    law_found_in_a_row(low, e);
}

proof fn lemma_exe_alone(c: char)
    requires
        c != '/' && c != '\\' && c as int <= 0x7f && !('A' <= c <= 'Z'),
    ensures
        is_program("ffmpeg.exe"@),
        !is_program(seq![c] + "ffmpeg.exe"@),
{
    reveal_strlit("ffmpeg.exe");
    reveal_strlit("/ffmpeg.exe");
    let f = "ffmpeg.exe"@;
    let e = "/ffmpeg.exe"@;
    assert(f.len() == 10 && e.len() == 11 && e[0] == '/');
    law_replaced(f, seq![], '\\', "/"@);
    lemma_lower_same(f);
    let g = seq![c] + f;
    law_replaced(g, seq![], '\\', "/"@);
    assert(g.len() == 11 && g[0] == c);
    lemma_lower_same(g);
    law_found_in_a_row(g, e);
}

} // verus!
