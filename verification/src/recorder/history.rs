//! The list of recordings. The recordings themselves are files.
use vstd::prelude::*;

use crate::order::{
    at_most, beyond, cut_to, find_entry, first_with, is_newest_first, law_sorted, lemma_first_with,
    newest_first, sort_newest_first, with_new, Dated, Entry,
};
use crate::paths::{app_dir, is_app_dir, is_in, join};
use crate::text::texts;

verus! {

/// A recording.
pub struct RecHistoryItem {
    pub id: String,
    pub name: String,
    pub path: String,
    pub created_at: String,
    pub duration_s: u64,
    pub width: u32,
    pub height: u32,
    pub fps: u32,
    pub size: u64,
    pub kind: String,
}

impl Dated for RecHistoryItem {
    open spec fn date(&self) -> Seq<char> {
        self.created_at@
    }

    fn created(&self) -> (r: &str) {
        self.created_at.as_str()
    }
}

impl Entry for RecHistoryItem {
    open spec fn key(&self) -> Seq<char> {
        self.id@
    }

    fn id(&self) -> (r: &str) {
        self.id.as_str()
    }
}

/// The file of the list in the program's folder.
pub fn rec_history_path_in(app: &str) -> (r: String)
    ensures
        is_in(r@, app@, "recordings.json"@),
{
    proof {
        reveal_strlit("recordings.json");
    }
    join(app, "recordings.json")
}

/// The file of the list.
pub fn rec_history_path() -> (r: String)
    ensures
        exists|app: Seq<char>| is_app_dir(app) && #[trigger] is_in(r@, app, "recordings.json"@),
{
    let app = app_dir();
    rec_history_path_in(app.as_str())
}

/// Those of the first `n` items whose file is still there.
pub open spec fn present(
    items: Seq<RecHistoryItem>,
    there: Seq<bool>,
    n: int,
) -> Seq<RecHistoryItem>
    decreases n,
{
    if n <= 0 {
        seq![]
    } else if there[n - 1] {
        present(items, there, n - 1).push(items[n - 1])
    } else {
        present(items, there, n - 1)
    }
}

/// The list as it is shown: what still has a file, the newest first. `there` says
/// of each item whether its file is there.
pub fn rec_history_list(items: Vec<RecHistoryItem>, there: &Vec<bool>) -> (r: Vec<RecHistoryItem>)
    requires
        items.len() == there.len(),
    ensures
        r@ == newest_first(present(items@, there@, items@.len() as int)),
{
    let ghost all = items@;
    let n: usize = items.len();
    let mut items = items;
    let mut kept: Vec<RecHistoryItem> = Vec::new();
    let mut i: usize = 0;
    assert(items@ =~= all.skip(0));
    while i < n
        invariant
            i <= n,
            n == all.len(),
            n == there.len(),
            items@ == all.skip(i as int),
            kept@ == present(all, there@, i as int),
        decreases n - i,
    {
        let item = items.remove(0);
        assert(item == all[i as int]);
        assert(items@ =~= all.skip(i + 1));
        if there[i] {
            kept.push(item);
        }
        i = i + 1;
    }
    sort_newest_first(&mut kept);
    kept
}

/// A list after a change: what is left, and the files that go.
pub struct RecHistoryChange {
    pub items: Vec<RecHistoryItem>,
    pub removed: Vec<String>,
}

/// The files of items.
pub open spec fn paths_of(items: Seq<RecHistoryItem>) -> Seq<Seq<char>> {
    Seq::new(items.len(), |i: int| items[i].path@)
}

/// How many recordings are listed for a limit: at most a hundred.
pub open spec fn rec_limit(limit: int) -> int {
    if limit > 100 {
        100
    } else {
        limit
    }
}

fn files_of(items: &Vec<RecHistoryItem>) -> (r: Vec<String>)
    ensures
        texts(r@) == paths_of(items@),
{
    let mut out: Vec<String> = Vec::new();
    let mut i: usize = 0;
    while i < items.len()
        invariant
            i <= items.len(),
            texts(out@) =~= paths_of(items@).take(i as int),
        decreases items.len() - i,
    {
        let ghost before = texts(out@);
        let path = items[i].path.clone();
        out.push(path);
        assert(texts(out@) =~= before.push(items@[i as int].path@));
        i = i + 1;
    }
    assert(texts(out@) =~= paths_of(items@));
    out
}

/// Adds a recording. The oldest beyond the limit leave the list with their files;
/// with a limit of 0 the list is emptied, and the files stay.
pub fn rec_history_add(items: Vec<RecHistoryItem>, item: RecHistoryItem, limit: usize) -> (r:
    RecHistoryChange)
    ensures
        limit == 0 ==> r.items@.len() == 0 && r.removed@.len() == 0,
        limit > 0 ==> r.items@ == at_most(with_new(items@, item), rec_limit(limit as int))
            && texts(r.removed@) == paths_of(
            beyond(with_new(items@, item), rec_limit(limit as int)),
        ),
{
    let lim: usize = if limit > 100 {
        100
    } else {
        limit
    };
    if lim == 0 {
        return RecHistoryChange { items: Vec::new(), removed: Vec::new() };
    }
    let mut items = items;
    items.push(item);
    sort_newest_first(&mut items);
    let gone = cut_to(&mut items, lim);
    RecHistoryChange { items, removed: files_of(&gone) }
}

/// Takes a recording off the list, with its file. Nothing changes where it is
/// not listed.
pub fn rec_history_delete(items: Vec<RecHistoryItem>, id: &str) -> (r: RecHistoryChange)
    ensures
        match first_with(items@, id@, 0) {
            Some(i) => r.items@ == items@.remove(i) && texts(r.removed@) == seq![items@[i].path@],
            None => r.items@ == items@ && r.removed@.len() == 0,
        },
{
    let mut items = items;
    let mut removed: Vec<String> = Vec::new();
    if let Some(i) = find_entry(&items, id) {
        let item = items.remove(i);
        let ghost p = item.path@;
        removed.push(item.path);
        assert(texts(removed@) =~= seq![p]);
    }
    RecHistoryChange { items, removed }
}

/// Empties the list, with all files.
pub fn rec_history_clear(items: &Vec<RecHistoryItem>) -> (r: RecHistoryChange)
    ensures
        r.items@.len() == 0,
        texts(r.removed@) == paths_of(items@),
{
    RecHistoryChange { items: Vec::new(), removed: files_of(items) }
}

/// After a recording was added under a limit, the list holds no more than the
/// limit allows, the newest first, and what left it is nowhere newer than what
/// stayed.
pub proof fn law_rec_history_bounded(
    items: Seq<RecHistoryItem>,
    item: RecHistoryItem,
    limit: int,
    i: int,
    j: int,
)
    requires
        limit > 0,
        0 <= i < at_most(with_new(items, item), rec_limit(limit)).len(),
        0 <= j < beyond(with_new(items, item), rec_limit(limit)).len(),
    ensures
        at_most(with_new(items, item), rec_limit(limit)).len() <= 100,
        is_newest_first(at_most(with_new(items, item), rec_limit(limit))),
        !crate::text::before(
            at_most(with_new(items, item), rec_limit(limit))[i].date(),
            beyond(with_new(items, item), rec_limit(limit))[j].date(),
        ),
{
    let all = with_new(items, item);
    law_sorted(items.push(item));
    let n = rec_limit(limit);
    let late = beyond(all, n);
    assert(late[j] == all[all.len() - 1 - j]);
    assert(at_most(all, n)[i] == all[i]);
    assert forall|a: int, b: int| 0 <= a <= b < at_most(all, n).len() implies !crate::text::before(
        (#[trigger] at_most(all, n)[a]).date(),
        (#[trigger] at_most(all, n)[b]).date(),
    ) by {
        assert(at_most(all, n)[a] == all[a] && at_most(all, n)[b] == all[b]);
    }
}

/// The list may hold as many as it is asked to, up to a hundred.
pub proof fn law_rec_limit(limit: int)
    ensures
        limit <= 100 ==> rec_limit(limit) == limit,
        limit >= 100 ==> rec_limit(limit) == 100,
{
}

/// With each recording more, the list that is shown grows by that one if its file is there, and
/// by none if it is not.
pub proof fn law_present(
    items: Seq<RecHistoryItem>,
    there: Seq<bool>,
    item: RecHistoryItem,
    found: bool,
)
    requires
        items.len() == there.len(),
    ensures
        ({
            let n = items.len() as int;
            present(items.push(item), there.push(found), n + 1) == if found {
                present(items, there, n).push(item)
            } else {
                present(items, there, n)
            }
        }),
        present(seq![], seq![], 0).len() == 0,
{
    lemma_present_front(items, there, item, found, items.len() as int);
}

proof fn lemma_present_front(
    items: Seq<RecHistoryItem>,
    there: Seq<bool>,
    item: RecHistoryItem,
    found: bool,
    n: int,
)
    requires
        items.len() == there.len(),
        n <= items.len(),
    ensures
        present(items.push(item), there.push(found), n) == present(items, there, n),
    decreases n,
{
    if n > 0 {
        lemma_present_front(items, there, item, found, n - 1);
    }
}

/// Taking a recording off the list takes the first with that identity off, with its file, and
/// leaves the others in their order; nothing else happens where there is none.
pub proof fn law_rec_deleted(
    items: Vec<RecHistoryItem>,
    id: &str,
    r: RecHistoryChange,
    at: int,
)
    requires
        call_ensures(rec_history_delete, (items, id), r),
        0 <= at <= items@.len(),
        forall|i: int| 0 <= i < at ==> (#[trigger] items@[i]).id@ != id@,
        at < items@.len() ==> items@[at].id@ == id@,
    ensures
        at < items@.len() ==> r.items@ == items@.take(at) + items@.skip(at + 1) && r.removed@.len()
            == 1 && r.removed@[0]@ == items@[at].path@,
        at == items@.len() ==> r.items@ == items@ && r.removed@.len() == 0,
{
    lemma_first_with(items@, id@, 0);
    match first_with(items@, id@, 0) {
        Some(i) => {
            assert(items@[i].key() == items@[i].id@);
            if at < items@.len() {
                assert(items@[at].key() == id@);
            }
            assert(i == at);
            assert(items@.remove(i) =~= items@.take(at) + items@.skip(at + 1));
            assert(texts(r.removed@).len() == 1);
            assert(texts(r.removed@).len() == r.removed@.len());
            assert(texts(r.removed@)[0] == r.removed@[0]@);
        },
        None => {
            if at < items@.len() {
                assert(items@[at].key() == id@);
            }
        },
    }
}

/// Emptying the list names the file of every recording on it.
pub proof fn law_rec_cleared(items: &Vec<RecHistoryItem>, r: RecHistoryChange)
    requires
        call_ensures(rec_history_clear, (items,), r),
    ensures
        r.items@.len() == 0,
        r.removed@.len() == items@.len(),
        forall|i: int| 0 <= i < items@.len() ==> (#[trigger] r.removed@[i])@ == items@[i].path@,
{
    assert(texts(r.removed@).len() == r.removed@.len());
    assert(paths_of(items@).len() == items@.len());
    assert forall|i: int| 0 <= i < items@.len() implies (#[trigger] r.removed@[i])@
        == items@[i].path@ by {
        assert(texts(r.removed@)[i] == paths_of(items@)[i]);
    }
}

} // verus!
