//! The list of screenshots. The screenshots themselves are files.
use vstd::prelude::*;

use crate::clock::{id_text, instant_text, new_id, now_rfc3339};
use crate::encoding::{base64_bytes, base64_text, decode_trimmed, encode};
use crate::order::{
    at_most, beyond, cut_to, find_entry, first_with, is_newest_first, law_kept_and_gone,
    law_newest_is_kept, law_sorted, lemma_first_with, lemma_newest_first_len, newest_first,
    sort_newest_first, with_new, Dated, Entry,
};
use crate::paths::{app_dir, is_app_dir, is_below, is_in, join, plain_name};
use crate::picture::{
    block_side, can_scale, extent, fitted_side, largest_sample, load, loaded, png, scalable, thumb,
    thumbnail, write_png,
};
use crate::screenshot::LARGEST;
use crate::settings::clamped;
use crate::text::{before, join2, texts, trimmed};

verus! {

/// A screenshot in the list.
pub struct HistoryItem {
    pub id: String,
    pub created_at: String,
    pub width: u32,
    pub height: u32,
    pub file_name: String,
    pub image_path: String,
    pub thumb_base64: String,
}

impl Clone for HistoryItem {
    fn clone(&self) -> (r: Self)
        ensures
            r == *self,
    {
        HistoryItem {
            id: self.id.clone(),
            created_at: self.created_at.clone(),
            width: self.width,
            height: self.height,
            file_name: self.file_name.clone(),
            image_path: self.image_path.clone(),
            thumb_base64: self.thumb_base64.clone(),
        }
    }
}

impl Dated for HistoryItem {
    open spec fn date(&self) -> Seq<char> {
        self.created_at@
    }

    fn created(&self) -> (r: &str) {
        self.created_at.as_str()
    }
}

impl Entry for HistoryItem {
    open spec fn key(&self) -> Seq<char> {
        self.id@
    }

    fn id(&self) -> (r: &str) {
        self.id.as_str()
    }
}

/// The folder of the screenshots in the program's folder.
pub fn history_dir_in(app: &str) -> (r: String)
    ensures
        is_in(r@, app@, "history"@),
{
    proof {
        reveal_strlit("history");
    }
    join(app, "history")
}

/// The folder of the screenshots.
pub fn history_dir() -> (r: String)
    ensures
        exists|app: Seq<char>| is_app_dir(app) && #[trigger] is_in(r@, app, "history"@),
{
    let app = app_dir();
    history_dir_in(app.as_str())
}

/// The file of the list in the folder of the screenshots.
pub fn index_path_in(dir: &str) -> (r: String)
    ensures
        is_in(r@, dir@, "index.json"@),
{
    proof {
        reveal_strlit("index.json");
    }
    join(dir, "index.json")
}

/// The file of the list.
pub fn index_path() -> (r: String)
    ensures
        exists|app: Seq<char>|
            is_app_dir(app) && #[trigger] is_below(r@, app, "history"@, "index.json"@),
{
    let dir = history_dir();
    let ghost app = choose|app: Seq<char>|
        is_app_dir(app) && #[trigger] is_in(dir@, app, "history"@);
    let r = index_path_in(dir.as_str());
    assert(is_below(r@, app, "history"@, "index.json"@));
    r
}

/// The small picture of a picture file: a PNG file of at most 320 by 200 as base64,
/// and nothing where that cannot be made.
pub open spec fn small_picture(bytes: Seq<u8>) -> Seq<char> {
    match loaded(bytes) {
        Ok(img) => if scalable(img, 320, 200) {
            match png(thumb(img, 320, 200)) {
                Ok(file) => base64_text(file),
                Err(_) => seq![],
            }
        } else {
            seq![]
        },
        Err(_) => seq![],
    }
}

/// Makes the small picture of a picture file.
pub fn make_thumbnail(bytes: &[u8]) -> (r: String)
    ensures
        r@ == small_picture(bytes@),
{
    match load(bytes) {
        Ok(img) => {
            if !can_scale(&img, 320, 200) {
                return String::new();
            }
            let small = thumbnail(&img, 320, 200);
            match write_png(&small) {
                Ok(file) => encode(file.as_slice()),
                Err(_) => String::new(),
            }
        },
        Err(_) => String::new(),
    }
}

/// The list as it is shown: the newest first.
pub fn history_list(items: Vec<HistoryItem>) -> (r: Vec<HistoryItem>)
    ensures
        r@ == newest_first(items@),
{
    let mut items = items;
    sort_newest_first(&mut items);
    items
}

/// Whether `item` is the entry of a screenshot with these bytes in the folder `dir`.
pub open spec fn is_item(
    item: HistoryItem,
    bytes: Seq<u8>,
    width: u32,
    height: u32,
    dir: Seq<char>,
) -> bool {
    &&& item.file_name@ == item.id@ + ".png"@
    &&& is_in(item.image_path@, dir, item.file_name@)
    &&& item.width == width
    &&& item.height == height
    &&& item.thumb_base64@ == small_picture(bytes)
}

/// The entry of a screenshot with this identity and date.
pub fn history_item_at(
    bytes: &[u8],
    width: u32,
    height: u32,
    dir: &str,
    id: String,
    created_at: String,
) -> (r: HistoryItem)
    requires
        plain_name(id@ + ".png"@),
    ensures
        is_item(r, bytes@, width, height, dir@),
        r.id == id,
        r.created_at == created_at,
{
    let file_name = join2(id.as_str(), ".png");
    let image_path = join(dir, file_name.as_str());
    let thumb_base64 = make_thumbnail(bytes);
    HistoryItem { id, created_at, width, height, file_name, image_path, thumb_base64 }
}

proof fn lemma_id_is_plain(id: Seq<char>)
    requires
        id_text(id),
    ensures
        plain_name(id + ".png"@),
{
    reveal_strlit(".png");
    assert(".png"@.len() == 4);
    let name = id + ".png"@;
    assert forall|i: int| 0 <= i < name.len() implies (#[trigger] name[i]) != '/' && name[i] != '\\'
        && name[i] != ':' by {
        if i < id.len() {
            assert(name[i] == id[i]);
        } else {
            assert(name[i] == ".png"@[i - id.len()]);
        }
    }
}

/// A list after a change: what is left, and the files that go.
pub struct HistoryChange {
    pub items: Vec<HistoryItem>,
    pub removed: Vec<String>,
}

/// The file names of items.
pub open spec fn files_of(items: Seq<HistoryItem>) -> Seq<Seq<char>> {
    Seq::new(items.len(), |i: int| items[i].file_name@)
}

fn names_of(items: &Vec<HistoryItem>) -> (r: Vec<String>)
    ensures
        texts(r@) == files_of(items@),
{
    let mut out: Vec<String> = Vec::new();
    let mut i: usize = 0;
    while i < items.len()
        invariant
            i <= items.len(),
            texts(out@) =~= files_of(items@).take(i as int),
        decreases items.len() - i,
    {
        let ghost so_far = texts(out@);
        let name = items[i].file_name.clone();
        out.push(name);
        assert(texts(out@) =~= so_far.push(items@[i as int].file_name@));
        i = i + 1;
    }
    assert(texts(out@) =~= files_of(items@));
    out
}

/// Adds an entry. The oldest beyond the limit, of 1 to 100, leave the list with their
/// files.
pub fn history_insert(items: Vec<HistoryItem>, item: HistoryItem, limit: usize) -> (r:
    HistoryChange)
    ensures
        r.items@ == at_most(with_new(items@, item), clamped(limit as int, 1, 100)),
        texts(r.removed@) == files_of(
            beyond(with_new(items@, item), clamped(limit as int, 1, 100)),
        ),
{
    let lim: usize = if limit < 1 {
        1
    } else if limit > 100 {
        100
    } else {
        limit
    };
    let mut items = items;
    items.push(item);
    sort_newest_first(&mut items);
    let gone = cut_to(&mut items, lim);
    HistoryChange { items, removed: names_of(&gone) }
}

/// A screenshot that is added: its entry, the bytes of its file, and the list.
pub struct HistoryAdded {
    pub item: HistoryItem,
    pub bytes: Vec<u8>,
    pub change: HistoryChange,
}

/// Whether `a` is the screenshot `text`, written as base64, added to the list `items` in
/// the folder `dir`, with the date and an identity. Its file, written as base64, is the
/// text again, without white space around it.
pub open spec fn is_added(
    a: HistoryAdded,
    text: Seq<char>,
    width: u32,
    height: u32,
    limit: usize,
    items: Seq<HistoryItem>,
    dir: Seq<char>,
) -> bool {
    &&& base64_bytes(trimmed(text)) matches Ok(bytes) && a.bytes@ == bytes
    &&& base64_text(a.bytes@) == trimmed(text)
    &&& is_item(a.item, a.bytes@, width, height, dir)
    &&& id_text(a.item.id@)
    &&& instant_text(a.item.created_at@)
    &&& a.change.items@ == at_most(with_new(items, a.item), clamped(limit as int, 1, 100))
    &&& texts(a.change.removed@) == files_of(
        beyond(with_new(items, a.item), clamped(limit as int, 1, 100)),
    )
}

/// Adds a screenshot, written as base64, to the list in the folder `dir`, with the
/// date and a fresh identity. It is an error if the text is no base64.
pub fn history_add(
    base64_png: &str,
    width: u32,
    height: u32,
    limit: usize,
    items: Vec<HistoryItem>,
    dir: &str,
) -> (r: Result<HistoryAdded, String>)
    ensures
        match base64_bytes(trimmed(base64_png@)) {
            Ok(_) => r matches Ok(a) && is_added(
                a,
                base64_png@,
                width,
                height,
                limit,
                items@,
                dir@,
            ),
            Err(words) => r matches Err(e) && e@ == words,
        },
{
    match decode_trimmed(base64_png) {
        Ok(bytes) => {
            let id = new_id();
            let created_at = now_rfc3339();
            proof {
                lemma_id_is_plain(id@);
            }
            let item = history_item_at(bytes.as_slice(), width, height, dir, id, created_at);
            let change = history_insert(items, item.clone(), limit);
            Ok(HistoryAdded { item, bytes, change })
        },
        Err(e) => Err(e),
    }
}

/// The file of the screenshot with this identity.
pub fn history_get(items: &Vec<HistoryItem>, id: &str) -> (r: Result<String, String>)
    ensures
        match first_with(items@, id@, 0) {
            Some(i) => r matches Ok(f) && f@ == items@[i].file_name@,
            None => r matches Err(e) && e@ == "History item not found"@,
        },
{
    match find_entry(items, id) {
        Some(i) => Ok(items[i].file_name.clone()),
        None => Err("History item not found".to_string()),
    }
}

/// Takes a screenshot off the list, with its file. Nothing changes where it is not
/// listed.
pub fn history_delete(items: Vec<HistoryItem>, id: &str) -> (r: HistoryChange)
    ensures
        match first_with(items@, id@, 0) {
            Some(i) => r.items@ == items@.remove(i) && texts(r.removed@)
                == seq![items@[i].file_name@],
            None => r.items@ == items@ && r.removed@.len() == 0,
        },
{
    let mut items = items;
    let mut removed: Vec<String> = Vec::new();
    if let Some(i) = find_entry(&items, id) {
        let item = items.remove(i);
        let ghost f = item.file_name@;
        removed.push(item.file_name);
        assert(texts(removed@) =~= seq![f]);
    }
    HistoryChange { items, removed }
}

/// Empties the list, with all files.
pub fn history_clear(items: &Vec<HistoryItem>) -> (r: HistoryChange)
    ensures
        r.items@.len() == 0,
        texts(r.removed@) == files_of(items@),
{
    HistoryChange { items: Vec::new(), removed: names_of(items) }
}

// ---- laws ----

proof fn lemma_block_side(own: int, other: int, fit: int, other_fit: int)
    requires
        0 <= own <= LARGEST,
        0 <= other <= LARGEST,
        200 <= fit <= 320,
        200 <= other_fit <= 320,
    ensures
        0 <= block_side(own, other, fit, other_fit) <= 100,
{
    let fitted = fitted_side(own, other, fit, other_fit);
    if fit * other <= other_fit * own {
        assert(own / fit <= 40) by (nonlinear_arith)
            requires
                0 <= own <= 8000,
                fit >= 200,
        ;
    } else {
        assert(other > 0) by (nonlinear_arith)
            requires
                fit * other > other_fit * own,
                other_fit >= 0,
                own >= 0,
                fit >= 0,
        ;
        let q = own * other_fit / other;
        vstd::arithmetic::div_mod::lemma_fundamental_div_mod(own * other_fit, other);
        vstd::arithmetic::div_mod::lemma_mod_bound(own * other_fit, other);
        assert(own * other_fit < (q + 1) * other) by (nonlinear_arith)
            requires
                own * other_fit == other * q + own * other_fit % other,
                own * other_fit % other < other,
        ;
        assert(own * 200 <= own * other_fit) by (nonlinear_arith)
            requires
                other_fit >= 200,
                own >= 0,
        ;
        assert(q >= 0) by (nonlinear_arith)
            requires
                own * other_fit < (q + 1) * other,
                own * other_fit >= 0,
                other > 0,
        ;
        assert((q + 1) * other <= (q + 1) * 8000) by (nonlinear_arith)
            requires
                q >= 0,
                other <= 8000,
        ;
        assert(own < (q + 1) * 40);
        assert(own <= 80 * fitted);
        assert(own / fitted <= 80) by (nonlinear_arith)
            requires
                0 <= own <= 80 * fitted,
                fitted >= 1,
        ;
    }
    assert(own / fitted >= 0) by (nonlinear_arith)
        requires
            own >= 0,
            fitted >= 1,
    ;
}

/// A small picture can be made of every picture that is no larger than the largest
/// screenshot.
pub proof fn law_screenshots_scale(img: image::DynamicImage)
    requires
        extent(img).0 <= LARGEST,
        extent(img).1 <= LARGEST,
    ensures
        scalable(img, 320, 200),
{
    let (w, h) = extent(img);
    lemma_block_side(w as int, h as int, 320, 200);
    lemma_block_side(h as int, w as int, 200, 320);
    let across = block_side(w as int, h as int, 320, 200);
    let down = block_side(h as int, w as int, 200, 320);
    assert(0 <= across * down <= 10_000) by (nonlinear_arith)
        requires
            0 <= across <= 100,
            0 <= down <= 100,
    ;
    let n = across * down;
    let largest = largest_sample(img);
    assert(n * largest <= 10_000 * 0xffff) by (nonlinear_arith)
        requires
            0 <= n <= 10_000,
            0 <= largest <= 0xffff,
    ;
}

/// The list never holds more than a hundred entries after one was added, and always
/// at least one; what left it is nowhere newer than what stayed.
pub proof fn law_history_bounded(items: Seq<HistoryItem>, item: HistoryItem, limit: int)
    ensures
        ({
            let kept = at_most(with_new(items, item), clamped(limit, 1, 100));
            let gone = beyond(with_new(items, item), clamped(limit, 1, 100));
            &&& 1 <= kept.len() <= 100
            &&& is_newest_first(kept)
            &&& forall|i: int, j: int|
                0 <= i < kept.len() && 0 <= j < gone.len() ==> !before(
                    (#[trigger] kept[i]).date(),
                    (#[trigger] gone[j]).date(),
                )
        }),
{
    let all = with_new(items, item);
    law_sorted(items.push(item));
    crate::order::lemma_newest_first_len(items.push(item));
    let n = clamped(limit, 1, 100);
    let kept = at_most(all, n);
    let gone = beyond(all, n);
    assert forall|i: int, j: int| 0 <= i < kept.len() && 0 <= j < gone.len() implies !before(
        (#[trigger] kept[i]).date(),
        (#[trigger] gone[j]).date(),
    ) by {
        assert(kept[i] == all[i]);
        assert(gone[j] == all[all.len() - 1 - j]);
    }
    assert forall|a: int, b: int| 0 <= a <= b < kept.len() implies !before(
        (#[trigger] kept[a]).date(),
        (#[trigger] kept[b]).date(),
    ) by {
        assert(kept[a] == all[a] && kept[b] == all[b]);
    }
}

/// A screenshot that is newer than all others is found again right after it was added, by
/// its identity, whatever the limit.
pub proof fn law_added_is_found(items: Seq<HistoryItem>, item: HistoryItem, limit: int)
    requires
        forall|i: int| 0 <= i < items.len() ==> before((#[trigger] items[i]).date(), item.date()),
    ensures
        ({
            let kept = at_most(with_new(items, item), clamped(limit, 1, 100));
            first_with(kept, item.key(), 0) == Some(0int) && kept[0] == item
        }),
{
    law_newest_is_kept(items, item, clamped(limit, 1, 100));
}

/// A screenshot that was added comes back: as long as it is on the list, and no other has
/// its identity, the identity leads to its file, and the bytes of that file, written as
/// base64, are the text that was added, without white space around it. After it was deleted
/// its identity leads nowhere.
pub proof fn law_added_comes_back(
    a: HistoryAdded,
    text: Seq<char>,
    width: u32,
    height: u32,
    limit: usize,
    items: Seq<HistoryItem>,
    dir: Seq<char>,
    later: Seq<HistoryItem>,
    k: int,
)
    requires
        is_added(a, text, width, height, limit, items, dir),
        0 <= k < later.len(),
        later[k] == a.item,
        forall|j: int|
            0 <= j < later.len() && j != k ==> (#[trigger] later[j]).key() != a.item.key(),
    ensures
        first_with(later, a.item.id@, 0) == Some(k),
        later[k].file_name == a.item.file_name,
        base64_text(a.bytes@) == trimmed(text),
        first_with(later.remove(k), a.item.id@, 0) is None,
{
    lemma_first_with(later, a.item.id@, 0);
    let left = later.remove(k);
    lemma_first_with(left, a.item.id@, 0);
    if let Some(i) = first_with(left, a.item.id@, 0) {
        if i < k {
            assert(left[i] == later[i]);
        } else {
            assert(left[i] == later[i + 1]);
        }
    }
}

/// After a screenshot was deleted from a list in which no identity occurs twice, it is
/// not found any more.
pub proof fn law_deleted_is_not_found(items: Seq<HistoryItem>, id: Seq<char>)
    requires
        forall|i: int, j: int|
            0 <= i < j < items.len() ==> (#[trigger] items[i]).key() != (#[trigger] items[j]).key(),
    ensures
        first_with(items, id, 0) matches Some(i) ==> first_with(items.remove(i), id, 0) is None,
{
    lemma_first_with(items, id, 0);
    if let Some(i) = first_with(items, id, 0) {
        let left = items.remove(i);
        lemma_first_with(left, id, 0);
        if let Some(k) = first_with(left, id, 0) {
            if k < i {
                assert(left[k] == items[k]);
            } else {
                assert(left[k] == items[k + 1]);
            }
        }
    }
}

/// Adding a screenshot leaves as many on the list as it may hold, from 1 to 100, and names a
/// file for each that leaves it.
pub proof fn law_insert_keeps_count(
    items: Vec<HistoryItem>,
    item: HistoryItem,
    limit: usize,
    r: HistoryChange,
)
    requires
        call_ensures(history_insert, (items, item, limit), r),
    ensures
        1 <= limit <= 100 ==> r.items@.len() == if items@.len() < limit {
            items@.len() + 1
        } else {
            limit as nat
        },
        limit == 0 ==> r.items@.len() == 1,
        limit > 100 ==> r.items@.len() == if items@.len() < 100 {
            items@.len() + 1
        } else {
            100
        },
        r.items@.len() + r.removed@.len() == items@.len() + 1,
{
    let n = clamped(limit as int, 1, 100);
    law_kept_and_gone(items@, item, n);
    lemma_newest_first_len(items@.push(item));
    assert(texts(r.removed@).len() == r.removed@.len());
}

/// The entry of a screenshot says where its file is: under its identity, in the folder.
pub proof fn law_item_names_its_file(
    item: HistoryItem,
    bytes: Seq<u8>,
    width: u32,
    height: u32,
    dir: Seq<char>,
)
    requires
        is_item(item, bytes, width, height, dir),
    ensures
        item.file_name@ == item.id@ + ".png"@,
        is_in(item.image_path@, dir, item.id@ + ".png"@),
        item.width == width && item.height == height,
{
}

/// Looking for a screenshot finds the first with that identity, and fails only where there is
/// none.
pub proof fn law_get_finds_first(
    items: &Vec<HistoryItem>,
    id: &str,
    r: Result<String, String>,
    at: int,
)
    requires
        call_ensures(history_get, (items, id), r),
        0 <= at <= items@.len(),
        forall|i: int| 0 <= i < at ==> (#[trigger] items@[i]).id@ != id@,
        at < items@.len() ==> items@[at].id@ == id@,
    ensures
        at < items@.len() ==> (r matches Ok(f) && f@ == items@[at].file_name@),
        at == items@.len() ==> r is Err,
{
    lemma_first_with(items@, id@, 0);
    if at < items@.len() {
        assert(items@[at].key() == id@);
    }
    if let Some(i) = first_with(items@, id@, 0) {
        assert(items@[i].key() == items@[i].id@);
    }
}

/// Taking a screenshot off the list takes the first with that identity off, with its file, and
/// leaves the others in their order; nothing happens where there is none.
pub proof fn law_deleted(items: Vec<HistoryItem>, id: &str, r: HistoryChange, at: int)
    requires
        call_ensures(history_delete, (items, id), r),
        0 <= at <= items@.len(),
        forall|i: int| 0 <= i < at ==> (#[trigger] items@[i]).id@ != id@,
        at < items@.len() ==> items@[at].id@ == id@,
    ensures
        at < items@.len() ==> r.items@ == items@.take(at) + items@.skip(at + 1) && r.removed@.len()
            == 1 && r.removed@[0]@ == items@[at].file_name@,
        at == items@.len() ==> r.items@ == items@ && r.removed@.len() == 0,
{
    lemma_first_with(items@, id@, 0);
    match first_with(items@, id@, 0) {
        Some(i) => {
            assert(items@[i].key() == items@[i].id@);
            if at < items@.len() {
                assert(items@[at].key() == id@);
            }
            assert(i == at);
            assert(items@.remove(i) =~= items@.take(at) + items@.skip(at + 1));
            assert(texts(r.removed@).len() == 1);
            assert(texts(r.removed@).len() == r.removed@.len());
            assert(texts(r.removed@)[0] == r.removed@[0]@);
        },
        None => {
            if at < items@.len() {
                assert(items@[at].key() == id@);
            }
        },
    }
}

/// Emptying the list names the file of every screenshot on it.
pub proof fn law_cleared(items: &Vec<HistoryItem>, r: HistoryChange)
    requires
        call_ensures(history_clear, (items,), r),
    ensures
        r.items@.len() == 0,
        r.removed@.len() == items@.len(),
        forall|i: int|
            0 <= i < items@.len() ==> (#[trigger] r.removed@[i])@ == items@[i].file_name@,
{
    assert(texts(r.removed@).len() == r.removed@.len());
    assert(files_of(items@).len() == items@.len());
    assert forall|i: int| 0 <= i < items@.len() implies (#[trigger] r.removed@[i])@
        == items@[i].file_name@ by {
        assert(texts(r.removed@)[i] == files_of(items@)[i]);
    }
}

/// The small picture of a screenshot is a PNG file that fits in 320 by 200; there is none where
/// the screenshot cannot be read, scaled or written.
pub proof fn law_small_picture(bytes: Seq<u8>, img: image::DynamicImage, file: Seq<u8>)
    requires
        loaded(bytes) == Ok::<image::DynamicImage, Seq<char>>(img),
    ensures
        scalable(img, 320, 200) && png(thumb(img, 320, 200)) == Ok::<Seq<u8>, Seq<char>>(file)
            ==> small_picture(bytes) == base64_text(file),
        !scalable(img, 320, 200) ==> small_picture(bytes).len() == 0,
        scalable(img, 320, 200) && png(thumb(img, 320, 200)) is Err ==> small_picture(bytes).len()
            == 0,
{
}

} // verus!
