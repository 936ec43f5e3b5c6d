//! Reading text in pictures with a local program.
use vstd::prelude::*;

use crate::encoding::{base64_bytes, decode_trimmed};
use crate::paths::{app_dir, dir_or_here, is_app_dir, is_below, is_in, join, plain_name};
use crate::picture::{load, loaded};
use crate::recorder::files::{law_first_there, Place};
use crate::text::{
    contains, decimal, decimal_text, from_utf8_lossy, holds, is_listed, join2, join3, law_lines,
    lines, lines_of, listed, lossy, lowercase, same, split_at_char, split_char, texts, to_lowercase, trim,
    trimmed,
};

verus! {

/// What is known of the program that reads text.
pub struct OcrStatus {
    pub available: bool,
    pub engine: String,
    pub tesseract_path: Option<String>,
    pub langs: Vec<String>,
    pub needs_install: bool,
    pub has_eng: bool,
    pub has_ara: bool,
}

/// The text that was read.
pub struct OcrResult {
    pub text: String,
    pub lang: String,
    pub ms: u128,
}

// ---- the program ----

/// A program of at most this size is a stub.
pub const STUB_BYTES: u64 = 50_000;

/// Language data of at most this size is a stub, or a page about an error.
pub const STUB_DATA_BYTES: u64 = 100_000;

/// Whether a file of this size is a program.
pub fn looks_like_real_binary(size: Option<u64>) -> (r: bool)
    ensures
        r == (size matches Some(n) && n > STUB_BYTES),
{
    match size {
        Some(n) => n > STUB_BYTES,
        None => false,
    }
}

/// Whether a file of this size is language data.
pub open spec fn is_data(size: Option<u64>) -> bool {
    size matches Some(n) && n > STUB_DATA_BYTES
}

/// Whether a file of this size is language data.
pub fn valid_traineddata(size: Option<u64>) -> (r: bool)
    ensures
        r == is_data(size),
{
    match size {
        Some(n) => n > STUB_DATA_BYTES,
        None => false,
    }
}

/// A program that came with this one, and its size.
pub struct Shipped {
    pub path: String,
    pub size: Option<u64>,
}

/// The program that reads text: the one that came with this one unless it is a stub,
/// else the one on the search path, else one of the usual places, else a portable one.
pub fn find_tesseract(
    shipped: Option<Shipped>,
    on_path: Option<String>,
    usual: &Vec<Place>,
    portable: Place,
) -> (r: Option<String>)
    ensures
        r == (match shipped {
            Some(s) if s.size matches Some(n) && n > STUB_BYTES => Some(s.path),
            _ => match on_path {
                Some(p) => Some(p),
                None => match crate::recorder::files::first_there(usual@, 0) {
                    Some(p) => Some(p),
                    None => if portable.there {
                        Some(portable.path)
                    } else {
                        None
                    },
                },
            },
        }),
{
    if let Some(s) = shipped {
        if looks_like_real_binary(s.size) {
            return Some(s.path);
        }
    }
    if let Some(p) = on_path {
        return Some(p);
    }
    match crate::recorder::files::pick_place(usual) {
        Some(p) => Some(p),
        None => if portable.there {
            Some(portable.path)
        } else {
            None
        },
    }
}

/// The folder of the language data beside the program, which is in the folder `parent`.
pub fn exe_tessdata_dir(parent: Option<String>) -> (r: String)
    ensures
        is_in(r@, dir_or_here(parent), "tessdata"@),
{
    proof {
        reveal_strlit("tessdata");
    }
    match parent {
        Some(d) => join(d.as_str(), "tessdata"),
        None => join(".", "tessdata"),
    }
}

/// The folder that holds the folder of the user's own language data.
pub fn app_data_prefix() -> (r: String)
    ensures
        is_app_dir(r@),
{
    app_dir()
}

/// The name of the file of language data.
pub open spec fn data_name(lang: Seq<char>) -> Seq<char> {
    lang + ".traineddata"@
}

/// The file of language data in a folder.
pub fn traineddata_in(dir: &str, lang: &str) -> (r: String)
    requires
        plain_name(data_name(lang@)),
    ensures
        is_in(r@, dir@, data_name(lang@)),
{
    let name = join2(lang, ".traineddata");
    join(dir, name.as_str())
}

/// The file of the user's own language data.
pub fn app_traineddata(lang: &str) -> (r: String)
    requires
        plain_name(data_name(lang@)),
    ensures
        exists|app: Seq<char>|
            is_app_dir(app) && #[trigger] is_below(r@, app, "tessdata"@, data_name(lang@)),
{
    let prefix = app_data_prefix();
    let ghost app = prefix@;
    let dir = exe_tessdata_dir(Some(prefix));
    let r = traineddata_in(dir.as_str(), lang);
    assert(is_below(r@, app, "tessdata"@, data_name(lang@)));
    r
}

// ---- languages ----

/// Whether a line of what the program prints names a language.
pub open spec fn is_language_line(line: Seq<char>) -> bool {
    trimmed(line).len() > 0 && !holds(lowercase(trimmed(line)), "list of"@)
}

/// The languages that the first `n` lines name.
pub open spec fn named_languages(all: Seq<Seq<char>>, n: int) -> Seq<Seq<char>>
    decreases n,
{
    if n <= 0 {
        seq![]
    } else if is_language_line(all[n - 1]) {
        named_languages(all, n - 1).push(trimmed(all[n - 1]))
    } else {
        named_languages(all, n - 1)
    }
}

/// What the program printed, from both of its output streams.
pub struct Output {
    pub success: bool,
    pub stdout: Vec<u8>,
    pub stderr: Vec<u8>,
}

/// The lines of what the program printed.
pub open spec fn output_lines(out: Option<Output>) -> Seq<Seq<char>> {
    match out {
        Some(o) => lines_of(lossy(o.stdout@) + lossy(o.stderr@)),
        None => seq![],
    }
}

/// Reads the list of languages that the program prints; empty where it did not run.
pub fn list_langs(out: &Option<Output>) -> (r: Vec<String>)
    ensures
        texts(r@) == named_languages(output_lines(*out), output_lines(*out).len() as int),
{
    let mut langs: Vec<String> = Vec::new();
    assert(texts(langs@) =~= seq![]);
    match out {
        Some(o) => {
            let mut txt = from_utf8_lossy(o.stdout.as_slice());
            let err = from_utf8_lossy(o.stderr.as_slice());
            txt.append(err.as_str());
            let all = lines(txt.as_str());
            let ghost ls = output_lines(*out);
            let mut i: usize = 0;
            while i < all.len()
                invariant
                    i <= all.len(),
                    texts(all@) == ls,
                    texts(langs@) == named_languages(ls, i as int),
                decreases all.len() - i,
            {
                assert(ls[i as int] == all@[i as int]@);
                let ghost so_far = texts(langs@);
                let l = trim(all[i].as_str());
                let lower = to_lowercase(l.as_str());
                if !l.as_str().is_empty() && !contains(lower.as_str(), "list of") {
                    let ghost t = l@;
                    langs.push(l);
                    assert(texts(langs@) =~= so_far.push(t));
                }
                i = i + 1;
            }
            assert(texts(all@).len() == all@.len());
        },
        None => {},
    }
    langs
}

/// Whether a language can be read: the program lists it, or there is data for it beside
/// the program or among the user's own.
pub fn lang_available(
    reported: &Vec<String>,
    lang: &str,
    beside: Option<u64>,
    own: Option<u64>,
) -> (r: bool)
    ensures
        r == (listed(reported@, lang@) || is_data(beside) || is_data(own)),
{
    is_listed(reported, lang) || valid_traineddata(beside) || valid_traineddata(own)
}

/// Whether a word is one for English.
pub open spec fn is_english(w: Seq<char>) -> bool {
    w == "en"@ || w == "eng"@ || w == "english"@
}

/// Whether a word is one for Arabic.
pub open spec fn is_arabic(w: Seq<char>) -> bool {
    w == "ar"@ || w == "ara"@ || w == "arabic"@
}

/// Whether English is asked for: by a word for it, or by a word that names no language.
pub open spec fn wants_english(w: Seq<char>) -> bool {
    !is_arabic(w)
}

/// Whether Arabic is asked for: by a word for it, or by a word that names no language.
pub open spec fn wants_arabic(w: Seq<char>) -> bool {
    !is_english(w)
}

/// Whether a language is not ruled out by the list of those that the program has, where
/// it has told any.
pub open spec fn not_missing(available: Seq<String>, lang: Seq<char>) -> bool {
    available.len() == 0 || listed(available, lang)
}

/// The languages, in the notation of the program, that are read for a selection: those
/// asked for that are there, and English where none is.
pub open spec fn tess_langs(selection: Seq<char>, available: Seq<String>) -> Seq<char> {
    let eng = wants_english(selection) && not_missing(available, "eng"@);
    let ara = wants_arabic(selection) && not_missing(available, "ara"@);
    if eng && ara {
        "eng+ara"@
    } else if ara {
        "ara"@
    } else {
        "eng"@
    }
}

proof fn lemma_languages_differ()
    ensures
        forall|w: Seq<char>| is_english(w) ==> !is_arabic(w),
{
    reveal_strlit("en");
    reveal_strlit("eng");
    reveal_strlit("english");
    reveal_strlit("ar");
    reveal_strlit("ara");
    reveal_strlit("arabic");
    assert("en"@[0] == 'e' && "eng"@[0] == 'e' && "english"@[0] == 'e');
    assert("ar"@[0] == 'a' && "ara"@[0] == 'a' && "arabic"@[0] == 'a');
}

fn wants(selection: &str) -> (r: (bool, bool))
    ensures
        r.0 == wants_english(selection@),
        r.1 == wants_arabic(selection@),
{
    proof {
        lemma_languages_differ();
    }
    let english: bool = same(selection, "en") || same(selection, "eng") || same(
        selection,
        "english",
    );
    let arabic: bool = same(selection, "ar") || same(selection, "ara") || same(selection, "arabic");
    (!arabic, !english)
}

/// Decides which languages are read for a selection.
pub fn resolve_tess_langs(selection: &str, available: &Vec<String>) -> (r: String)
    ensures
        r@ == tess_langs(selection@, available@),
{
    let (want_eng, want_ara) = wants(selection);
    let none: bool = available.len() == 0;
    let eng: bool = want_eng && (none || is_listed(available, "eng"));
    let ara: bool = want_ara && (none || is_listed(available, "ara"));
    if eng && ara {
        "eng+ara".to_string()
    } else if ara {
        "ara".to_string()
    } else {
        "eng".to_string()
    }
}

/// The languages that are read for a selection in any case, in the notation of the
/// program and one by one.
pub fn reading_langs(selection: &str, available: &Vec<String>) -> (r: (String, Vec<String>))
    ensures
        r.0@ == tess_langs(lowercase(selection@), available@),
        texts(r.1@) == split_at_char(r.0@, '+'),
{
    let key = to_lowercase(selection);
    let langs = resolve_tess_langs(key.as_str(), available);
    let each = split_char(langs.as_str(), '+');
    (langs, each)
}

/// The languages whose data a selection asks for.
pub fn lang_codes(selection: &str) -> (r: Vec<String>)
    ensures
        ({
            let w = lowercase(selection@);
            texts(r@) == if is_arabic(w) {
                seq!["ara"@]
            } else if is_english(w) {
                seq!["eng"@]
            } else {
                seq!["eng"@, "ara"@]
            }
        }),
{
    let key = to_lowercase(selection);
    let (eng, ara) = wants(key.as_str());
    proof {
        lemma_languages_differ();
    }
    let mut codes: Vec<String> = Vec::new();
    if eng {
        codes.push("eng".to_string());
    }
    if ara {
        codes.push("ara".to_string());
    }
    proof {
        if eng && ara {
            assert(texts(codes@) =~= seq!["eng"@, "ara"@]);
        } else if ara {
            assert(texts(codes@) =~= seq!["ara"@]);
        } else {
            assert(texts(codes@) =~= seq!["eng"@]);
        }
    }
    codes
}

/// The first `n` codes, with plus signs between them.
pub open spec fn joined(codes: Seq<Seq<char>>, n: int) -> Seq<char>
    decreases n,
{
    if n <= 0 {
        seq![]
    } else if n == 1 {
        codes[0]
    } else {
        joined(codes, n - 1) + "+"@ + codes[n - 1]
    }
}

/// What the user is told when the language data is there.
pub fn ready_message(codes: &Vec<String>) -> (r: String)
    ensures
        r@ == joined(texts(codes@), codes@.len() as int) + " ready — works offline now."@,
{
    let ghost ts = texts(codes@);
    let mut s = String::new();
    let mut i: usize = 0;
    while i < codes.len()
        invariant
            i <= codes.len(),
            ts == texts(codes@),
            s@ == joined(ts, i as int),
        decreases codes.len() - i,
    {
        assert(ts[i as int] == codes@[i as int]@);
        if i > 0 {
            s.append("+");
        }
        s.append(codes[i].as_str());
        assert(s@ =~= joined(ts, i + 1));
        i = i + 1;
    }
    s.append(" ready — works offline now.");
    s
}

// ---- language data ----

/// The sizes of the files of a language's data, where they are there: beside the program,
/// and among the user's own.
#[derive(Clone, Copy)]
pub struct DataSizes {
    pub beside: Option<u64>,
    pub own: Option<u64>,
}

/// What is done to have the data of a language among the user's own.
#[derive(PartialEq, Eq, Structural, Clone, Copy)]
pub enum DataStep {
    Nothing,
    Copy,
    Download,
}

/// Whether the data of all languages is beside the program.
pub open spec fn all_beside(sizes: Seq<DataSizes>) -> bool {
    forall|i: int| 0 <= i < sizes.len() ==> is_data((#[trigger] sizes[i]).beside)
}

/// What is done for a language.
pub open spec fn data_step(s: DataSizes) -> DataStep {
    if is_data(s.own) {
        DataStep::Nothing
    } else if is_data(s.beside) {
        DataStep::Copy
    } else {
        DataStep::Download
    }
}

/// What is done so that the program finds the data of all languages. Nothing where it is
/// all beside the program, which then uses its own folder; else a step for each language,
/// and the program uses the user's folder.
pub fn resolve_datadir(sizes: &Vec<DataSizes>) -> (r: Option<Vec<DataStep>>)
    ensures
        all_beside(sizes@) ==> r is None,
        !all_beside(sizes@) ==> (r matches Some(v) && v@ == Seq::new(
            sizes@.len(),
            |i: int| data_step(sizes@[i]),
        )),
{
    let mut all: bool = true;
    let mut steps: Vec<DataStep> = Vec::new();
    let mut i: usize = 0;
    while i < sizes.len()
        invariant
            i <= sizes.len(),
            all == (forall|k: int| 0 <= k < i ==> is_data((#[trigger] sizes@[k]).beside)),
            steps@ =~= Seq::new(i as nat, |k: int| data_step(sizes@[k])),
        decreases sizes.len() - i,
    {
        let s = sizes[i];
        if !valid_traineddata(s.beside) {
            all = false;
        }
        if valid_traineddata(s.own) {
            steps.push(DataStep::Nothing);
        } else if valid_traineddata(s.beside) {
            steps.push(DataStep::Copy);
        } else {
            steps.push(DataStep::Download);
        }
        i = i + 1;
    }
    if all {
        None
    } else {
        Some(steps)
    }
}

/// Where the data of a language is published: the small data first.
pub fn data_urls(lang: &str) -> (r: Vec<String>)
    ensures
        texts(r@) == seq![
            "https://github.com/tesseract-ocr/tessdata_fast/raw/main/"@ + lang@ + ".traineddata"@,
            "https://github.com/tesseract-ocr/tessdata/raw/main/"@ + lang@ + ".traineddata"@,
        ],
{
    let mut urls: Vec<String> = Vec::new();
    urls.push(
        join3("https://github.com/tesseract-ocr/tessdata_fast/raw/main/", lang, ".traineddata"),
    );
    urls.push(join3("https://github.com/tesseract-ocr/tessdata/raw/main/", lang, ".traineddata"));
    assert(texts(urls@) =~= seq![
        "https://github.com/tesseract-ocr/tessdata_fast/raw/main/"@ + lang@ + ".traineddata"@,
        "https://github.com/tesseract-ocr/tessdata/raw/main/"@ + lang@ + ".traineddata"@,
    ]);
    urls
}

/// What came of asking for the data of a language.
pub enum Fetched {
    /// The number of bytes that came.
    Bytes(u64),
    /// The server refused, with this status.
    Refused(String),
    /// Nothing came, for this reason.
    Failed(String),
}

/// Whether the data came; else why it did not.
pub fn check_fetched(f: Fetched) -> (r: Result<(), String>)
    ensures
        match f {
            Fetched::Bytes(n) => if n > STUB_DATA_BYTES {
                r is Ok
            } else {
                r matches Err(e) && e@ == "downloaded file too small ("@ + decimal(n as nat)
                    + " bytes)"@
            },
            Fetched::Refused(status) => r matches Err(e) && e@ == "HTTP "@ + status@,
            Fetched::Failed(why) => r matches Err(e) && e@ == why@,
        },
{
    match f {
        Fetched::Bytes(n) => if n > STUB_DATA_BYTES {
            Ok(())
        } else {
            let d = decimal_text(n);
            Err(join3("downloaded file too small (", d.as_str(), " bytes)"))
        },
        Fetched::Refused(status) => Err(join2("HTTP ", status.as_str())),
        Fetched::Failed(why) => Err(why),
    }
}

/// What the user is told when the data of a language could not be had.
pub fn data_error(lang: &str, last: Option<String>) -> (r: String)
    ensures
        r@ == "Could not download "@ + lang@ + " language data ("@ + (match last {
            Some(e) => e@,
            None => "unknown error"@,
        })
            + "). Check your internet connection and retry. / تعذّر تحميل بيانات اللغة. تحقق من الإنترنت وحاول مجددًا."@,
{
    let mut s = join3("Could not download ", lang, " language data (");
    match last {
        Some(e) => s.append(e.as_str()),
        None => s.append("unknown error"),
    }
    s.append(
        "). Check your internet connection and retry. / تعذّر تحميل بيانات اللغة. تحقق من الإنترنت وحاول مجددًا.",
    );
    s
}

// ---- status ----

/// What is known of the program, of which `langs` are the languages that it lists.
pub fn ocr_status(exe: Option<String>, langs: Vec<String>, eng: DataSizes, ara: DataSizes) -> (r:
    OcrStatus)
    ensures
        r.tesseract_path == exe,
        match exe {
            Some(_) => r.available && !r.needs_install && r.engine@ == "tesseract (local)"@
                && r.langs == langs && r.has_eng == (listed(langs@, "eng"@) || is_data(eng.beside)
                || is_data(eng.own)) && r.has_ara == (listed(langs@, "ara"@) || is_data(ara.beside)
                || is_data(ara.own)),
            None => !r.available && r.needs_install && r.engine@ == "none"@ && r.langs@.len() == 0
                && !r.has_eng && !r.has_ara,
        },
{
    match exe {
        Some(p) => {
            let has_eng: bool = lang_available(&langs, "eng", eng.beside, eng.own);
            let has_ara: bool = lang_available(&langs, "ara", ara.beside, ara.own);
            OcrStatus {
                available: true,
                engine: "tesseract (local)".to_string(),
                tesseract_path: Some(p),
                langs,
                needs_install: false,
                has_eng,
                has_ara,
            }
        },
        None => OcrStatus {
            available: false,
            engine: "none".to_string(),
            tesseract_path: None,
            langs: Vec::new(),
            needs_install: true,
            has_eng: false,
            has_ara: false,
        },
    }
}

// ---- reading ----

/// The bytes of a picture in which text is to be read. It is an error if the text is no
/// base64, or its bytes are no picture.
pub fn ocr_picture(b64: &str) -> (r: Result<Vec<u8>, String>)
    ensures
        match base64_bytes(trimmed(b64@)) {
            Err(words) => r matches Err(e) && e@ == words,
            Ok(bytes) => match loaded(bytes) {
                Ok(_) => r matches Ok(b) && b@ == bytes,
                Err(_) => r matches Err(e) && e@ == "Invalid image for OCR"@,
            },
        },
{
    match decode_trimmed(b64) {
        Ok(bytes) => match load(bytes.as_slice()) {
            Ok(_) => Ok(bytes),
            Err(_) => Err("Invalid image for OCR".to_string()),
        },
        Err(e) => Err(e),
    }
}

/// The arguments of the program for a picture, in a mode of page segmentation.
pub fn tesseract_args(img_path: &str, langs: &str, psm: &str) -> (r: Vec<String>)
    ensures
        texts(r@) == seq![
            img_path@,
            "stdout"@,
            "-l"@,
            langs@,
            "--oem"@,
            "1"@,
            "--psm"@,
            psm@,
        ],
{
    let mut a: Vec<String> = Vec::new();
    a.push(img_path.to_string());
    a.push("stdout".to_string());
    a.push("-l".to_string());
    a.push(langs.to_string());
    a.push("--oem".to_string());
    a.push("1".to_string());
    a.push("--psm".to_string());
    a.push(psm.to_string());
    assert(texts(a@) =~= seq![
        img_path@,
        "stdout"@,
        "-l"@,
        langs@,
        "--oem"@,
        "1"@,
        "--psm"@,
        psm@,
    ]);
    a
}

/// Whether the program complains of missing language data.
pub open spec fn lacks_data(stderr: Seq<char>) -> bool {
    holds(lowercase(stderr), "traineddata"@) || holds(lowercase(stderr), "load language"@)
}

/// The first line of a text, or `otherwise` where there is none.
pub open spec fn first_line_or(s: Seq<char>, otherwise: Seq<char>) -> Seq<char> {
    if lines_of(s).len() > 0 {
        lines_of(s)[0]
    } else {
        otherwise
    }
}

fn first_line(s: &str, otherwise: &str) -> (r: String)
    ensures
        r@ == first_line_or(s@, otherwise@),
{
    let ls = lines(s);
    if ls.len() > 0 {
        assert(texts(ls@)[0] == ls@[0]@);
        ls[0].clone()
    } else {
        assert(texts(ls@).len() == 0);
        otherwise.to_string()
    }
}

/// What came of a run of the program: the text that it read, or the error. Missing
/// language data is told by a word of its own.
pub fn run_tesseract(out: &Output) -> (r: Result<String, String>)
    ensures
        if out.success {
            r matches Ok(t) && t@ == trimmed(lossy(out.stdout@))
        } else if lacks_data(lossy(out.stderr@)) {
            r matches Err(e) && e@ == "LANGDATA"@
        } else {
            r matches Err(e) && e@ == "OCR failed. Try a clearer area or another language. ("@
                + first_line_or(lossy(out.stderr@), "tesseract error"@) + ")"@
        },
{
    if !out.success {
        let err = from_utf8_lossy(out.stderr.as_slice());
        let lower = to_lowercase(err.as_str());
        if contains(lower.as_str(), "traineddata") || contains(lower.as_str(), "load language") {
            return Err("LANGDATA".to_string());
        }
        let line = first_line(err.as_str(), "tesseract error");
        return Err(
            join3("OCR failed. Try a clearer area or another language. (", line.as_str(), ")"),
        );
    }
    let txt = from_utf8_lossy(out.stdout.as_slice());
    Ok(trim(txt.as_str()))
}

/// Whether a picture is read a second time, in the other mode: where the first reading
/// found nothing.
pub fn reads_again(text: &str) -> (r: bool)
    ensures
        r == (trimmed(text@).len() == 0),
{
    let t = trim(text);
    t.as_str().is_empty()
}

/// What the user is told of an error of the program.
pub fn reading_error(e: String) -> (r: String)
    ensures
        r@ == if e@ == "LANGDATA"@ {
            "Arabic/English data missing and download failed. Connect to the internet and press Download, then retry. / بيانات اللغة غير موجودة وتعذّر تحميلها. اتصل بالإنترنت وحمّلها ثم أعد المحاولة."@
        } else {
            e@
        },
{
    if same(e.as_str(), "LANGDATA") {
        "Arabic/English data missing and download failed. Connect to the internet and press Download, then retry. / بيانات اللغة غير موجودة وتعذّر تحميلها. اتصل بالإنترنت وحمّلها ثم أعد المحاولة.".to_string()
    } else {
        e
    }
}

/// The arguments of the program that installs the one that reads text.
pub fn install_args() -> (r: Vec<String>)
    ensures
        texts(r@) == seq![
            "install"@,
            "-e"@,
            "--id"@,
            "UB-Mannheim.TesseractOCR"@,
            "--silent"@,
            "--accept-package-agreements"@,
            "--accept-source-agreements"@,
        ],
{
    let mut a: Vec<String> = Vec::new();
    a.push("install".to_string());
    a.push("-e".to_string());
    a.push("--id".to_string());
    a.push("UB-Mannheim.TesseractOCR".to_string());
    a.push("--silent".to_string());
    a.push("--accept-package-agreements".to_string());
    a.push("--accept-source-agreements".to_string());
    assert(texts(a@) =~= seq![
        "install"@,
        "-e"@,
        "--id"@,
        "UB-Mannheim.TesseractOCR"@,
        "--silent"@,
        "--accept-package-agreements"@,
        "--accept-source-agreements"@,
    ]);
    a
}

/// What came of the installation.
pub fn install_outcome(out: &Output) -> (r: Result<String, String>)
    ensures
        if out.success {
            r matches Ok(m) && m@
                == "Tesseract installed. If OCR still reports missing, restart Open Screen."@
        } else {
            r matches Err(e) && e@ == "winget install failed: "@ + first_line_or(
                lossy(out.stderr@),
                "unknown error"@,
            )
        },
{
    if out.success {
        Ok("Tesseract installed. If OCR still reports missing, restart Open Screen.".to_string())
    } else {
        let err = from_utf8_lossy(out.stderr.as_slice());
        let line = first_line(err.as_str(), "unknown error");
        Err(join2("winget install failed: ", line.as_str()))
    }
}

// ---- laws ----

/// At least one language is always read, and none but English and Arabic.
pub proof fn law_some_language_is_read(selection: Seq<char>, available: Seq<String>)
    ensures
        ({
            let l = tess_langs(selection, available);
            l == "eng"@ || l == "ara"@ || l == "eng+ara"@
        }),
{
}

/// A language that is listed and asked for by name is read, and no other.
pub proof fn law_asked_language_is_read(selection: Seq<char>, available: Seq<String>)
    ensures
        is_arabic(selection) && listed(available, "ara"@) ==> tess_langs(selection, available)
            == "ara"@,
        is_english(selection) && listed(available, "eng"@) ==> tess_langs(selection, available)
            == "eng"@,
{
    lemma_languages_differ();
}

/// Language data is downloaded only where there is none: a copy that is there already,
/// beside the program or among the user's own, is used.
pub proof fn law_downloads_only_what_is_missing(s: DataSizes)
    ensures
        data_step(s) == DataStep::Download <==> !is_data(s.own) && !is_data(s.beside),
{
}

/// English and Arabic go by three words each; any other word asks for both.
pub proof fn law_language_words(w: Seq<char>)
    ensures
        wants_english(w) <==> !(w == "ar"@ || w == "ara"@ || w == "arabic"@),
        wants_arabic(w) <==> !(w == "en"@ || w == "eng"@ || w == "english"@),
        wants_english(w) || wants_arabic(w),
{
    lemma_languages_differ();
}

/// Of the languages that are asked for, those are read that the program has, both where it has
/// both. Where it has told of none at all, all that are asked for are tried; where it has none
/// of those that are asked for, English is.
pub proof fn law_languages_read(selection: Seq<char>, available: Seq<String>)
    ensures
        ({
            let l = tess_langs(selection, available);
            let eng = available.len() == 0 || listed(available, "eng"@);
            let ara = available.len() == 0 || listed(available, "ara"@);
            &&& wants_english(selection) && wants_arabic(selection) && eng && ara ==> l
                == "eng+ara"@
            &&& wants_arabic(selection) && ara && !(wants_english(selection) && eng) ==> l == "ara"@
            &&& !(wants_arabic(selection) && ara) ==> l == "eng"@
            &&& l != "eng"@ ==> wants_arabic(selection) && ara
            &&& l == "eng+ara"@ ==> wants_english(selection) && eng
        }),
{
    reveal_strlit("eng");
    reveal_strlit("ara");
    reveal_strlit("eng+ara");
    assert("eng"@.len() == 3 && "ara"@.len() == 3 && "eng+ara"@.len() == 7);
    assert("eng"@[0] == 'e' && "ara"@[0] == 'a');
}

/// Data is looked for in just the languages that are asked for.
pub proof fn law_data_for_what_is_asked(selection: &str, r: Vec<String>)
    requires
        call_ensures(lang_codes, (selection,), r),
    ensures
        listed(r@, "eng"@) <==> wants_english(lowercase(selection@)),
        listed(r@, "ara"@) <==> wants_arabic(lowercase(selection@)),
        1 <= r@.len() <= 2,
{
    lemma_languages_differ();
    reveal_strlit("eng");
    reveal_strlit("ara");
    assert("eng"@[0] == 'e' && "ara"@[0] == 'a');
    let t = texts(r@);
    assert(t.len() == r@.len());
    assert(t[0] == r@[0]@);
    if r@.len() == 2 {
        assert(t[1] == r@[1]@);
    }
    if listed(r@, "eng"@) {
        let i = choose|i: int| 0 <= i < r@.len() && (#[trigger] r@[i])@ == "eng"@;
        assert(t[i] == "eng"@);
    }
    if listed(r@, "ara"@) {
        let i = choose|i: int| 0 <= i < r@.len() && (#[trigger] r@[i])@ == "ara"@;
        assert(t[i] == "ara"@);
    }
}

/// With each line more, the languages grow by what stands in it, without white space, unless it
/// is blank or the heading of the list.
pub proof fn law_languages_listed(all: Seq<Seq<char>>, n: int)
    requires
        0 < n <= all.len(),
    ensures
        ({
            let t = trimmed(all[n - 1]);
            let before = named_languages(all, n - 1);
            let now = named_languages(all, n);
            if t.len() == 0 || holds(lowercase(t), "list of"@) {
                now == before
            } else {
                now == before.push(t)
            }
        }),
        named_languages(all, 0).len() == 0,
{
}

/// A program of 50000 bytes or fewer is a stub, and so is language data of 100000 bytes or
/// fewer; what is not there is neither.
pub proof fn law_stubs(size: Option<u64>, program: bool, data: bool)
    requires
        call_ensures(looks_like_real_binary, (size,), program),
        call_ensures(valid_traineddata, (size,), data),
    ensures
        size is None ==> !program && !data,
        size matches Some(n) ==> (program <==> n > 50_000) && (data <==> n > 100_000),
        data ==> program,
{
}

/// What is downloaded is taken to be language data if and only if it would be taken for such data
/// on the disk.
pub proof fn law_fetched_is_data(n: u64, r: Result<(), String>)
    requires
        call_ensures(check_fetched, (Fetched::Bytes(n),), r),
    ensures
        r is Ok <==> n > 100_000,
        r is Ok <==> is_data(Some(n)),
{
}

/// The user's own data is left alone where it is there, and what is beside the program is copied
/// where the user has none; what is copied or used is never a stub.
pub proof fn law_data_steps(s: DataSizes)
    ensures
        data_step(s) == DataStep::Nothing <==> (s.own matches Some(n) && n > 100_000),
        data_step(s) == DataStep::Copy <==> !(s.own matches Some(n) && n > 100_000) && (
        s.beside matches Some(n) && n > 100_000),
{
}

/// After the steps every language has its data in one folder: that beside the program where
/// nothing is to be done, and the user's own otherwise.
pub proof fn law_one_folder_has_all(sizes: &Vec<DataSizes>, r: Option<Vec<DataStep>>, i: int)
    requires
        call_ensures(resolve_datadir, (sizes,), r),
        0 <= i < sizes@.len(),
    ensures
        r is None ==> (sizes@[i].beside matches Some(n) && n > 100_000),
        r matches Some(v) ==> v@.len() == sizes@.len() && (v@[i] == DataStep::Nothing ==> (
        sizes@[i].own matches Some(n) && n > 100_000)) && (v@[i] == DataStep::Copy ==> (
        sizes@[i].beside matches Some(n) && n > 100_000)),
        r is Some ==> exists|k: int|
            0 <= k < sizes@.len() && !((#[trigger] sizes@[k]).beside matches Some(n) && n > 100_000),
{
    if r is Some {
        let k = choose|k: int| 0 <= k < sizes@.len() && !is_data((#[trigger] sizes@[k]).beside);
        assert(!(sizes@[k].beside matches Some(n) && n > 100_000));
    } else {
        assert(is_data(sizes@[i].beside));
    }
}

/// The program that came with this one is taken before any other, unless it is a stub; one on the
/// search path before those in the usual places, and a portable one last.
pub proof fn law_reader_program(
    shipped: Option<Shipped>,
    on_path: Option<String>,
    usual: &Vec<Place>,
    portable: Place,
    r: Option<String>,
)
    requires
        call_ensures(find_tesseract, (shipped, on_path, usual, portable), r),
    ensures
        ({
            let good = shipped matches Some(s) && (s.size matches Some(n) && n > 50_000);
            let nowhere = forall|i: int|
                0 <= i < usual@.len() ==> !(#[trigger] usual@[i]).there;
            &&& good ==> r == Some(shipped->0.path)
            &&& !good && on_path is Some ==> r == on_path
            &&& !good && on_path is None && !nowhere ==> r is Some && exists|i: int|
                0 <= i < usual@.len() && (#[trigger] usual@[i]).there && r == Some(usual@[i].path)
            &&& !good && on_path is None && nowhere ==> (r is Some <==> portable.there)
            &&& !good && on_path is None && nowhere && portable.there ==> r == Some(portable.path)
        }),
{
    law_first_there(usual@, 0);
}

/// Codes are joined by plus signs, and each can be told from the next.
pub proof fn law_codes_joined(codes: Seq<Seq<char>>, code: Seq<char>)
    requires
        codes.len() > 0,
    ensures
        joined(codes.push(code), codes.len() as int + 1) == joined(codes, codes.len() as int) + "+"@
            + code,
        joined(seq![code], 1) == code,
{
    lemma_joined_front(codes, code, codes.len() as int);
}

proof fn lemma_joined_front(codes: Seq<Seq<char>>, code: Seq<char>, n: int)
    requires
        n <= codes.len(),
    ensures
        joined(codes.push(code), n) == joined(codes, n),
    decreases n,
{
    if n > 1 {
        lemma_joined_front(codes, code, n - 1);
    }
}

/// The program complains of missing data where it names such data or a language that it cannot
/// load, in either case.
pub proof fn law_missing_data_is_told(stderr: Seq<char>)
    ensures
        lacks_data(stderr) <==> holds(lowercase(stderr), "traineddata"@) || holds(
            lowercase(stderr),
            "load language"@,
        ),
{
}

/// The first line of a text is what stands before its first line feed.
pub proof fn law_first_line(line: Seq<char>, rest: Seq<char>, otherwise: Seq<char>)
    requires
        forall|k: int| 0 <= k < line.len() ==> #[trigger] line[k] != '\n',
        line.len() > 0 && line[line.len() - 1] != '\r',
    ensures
        first_line_or(line + seq!['\n'] + rest, otherwise) == line,
        first_line_or(line, otherwise) == line,
        first_line_or(seq![], otherwise) == otherwise,
{
    law_lines(line, rest);
    law_lines(seq![], seq![]);
}

} // verus!
