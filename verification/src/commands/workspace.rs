//! Choosing a project directory.

use crate::commands::files::{item_views, DirItem, ItemView};
use crate::order::{indices, rank, ranking, sort_keys, RankKey, SortKey};
use crate::text::{chars_of, lowercase_of, texts};
use vstd::prelude::*;

verus! {

/// Whether an entry is offered as a project directory: a directory whose
/// name does not begin with a dot.
pub open spec fn offered(item: ItemView) -> bool {
    item.is_dir && !(item.name.len() > 0 && item.name[0] == '.')
}

/// The names of the entries of `items` that are offered, in their order.
pub open spec fn offered_names(items: Seq<ItemView>) -> Seq<Seq<char>>
    decreases items.len(),
{
    if items.len() == 0 {
        Seq::empty()
    } else if offered(items.last()) {
        offered_names(items.drop_last()).push(items.last().name)
    } else {
        offered_names(items.drop_last())
    }
}

/// What a directory name is ordered by: the name in lower case.
pub open spec fn name_key(name: Seq<char>) -> SortKey {
    SortKey { late: false, name: lowercase_of(name) }
}

/// The directories to choose from, by name without regard to case.
pub open spec fn choices(items: Seq<ItemView>) -> Seq<Seq<char>> {
    let names = offered_names(items);
    ranking(names.map_values(|n: Seq<char>| name_key(n))).map_values(|i: int| names[i])
}

/// The directories among `items` to choose from, by name without regard to
/// case.
pub fn browse_dirs(items: &Vec<DirItem>) -> (dirs: Vec<String>)
    ensures
        texts(dirs@) == choices(item_views(items@)),
{
    let ghost all = item_views(items@);
    let mut names: Vec<String> = Vec::new();
    let mut keys: Vec<RankKey> = Vec::new();
    let mut i: usize = 0;
    assert(texts(names@) =~= offered_names(all.take(0)));
    while i < items.len()
        invariant
            i <= items.len(),
            all == item_views(items@),
            names.len() == keys.len(),
            texts(names@) == offered_names(all.take(i as int)),
            forall|k: int| 0 <= k < keys.len() ==> (#[trigger] keys@[k])@ == name_key(names@[k]@),
        decreases items.len() - i,
    {
        assert(all.take(i + 1).drop_last() =~= all.take(i as int));
        assert(all.take(i + 1).last() == items@[i as int]@);
        let item = &items[i];
        let text = chars_of(item.name.as_str());
        let hidden = text.len() > 0 && text[0] == '.';
        if item.is_dir && !hidden {
            let lower = item.name.as_str().to_lowercase();
            let ghost before = names@;
            names.push(item.name.clone());
            keys.push(RankKey { late: false, name: chars_of(lower.as_str()) });
            assert(texts(names@) =~= texts(before).push(item.name@));
        }
        i = i + 1;
    }
    assert(all.take(items.len() as int) =~= all);
    let ghost ns = texts(names@);
    assert(sort_keys(keys@) =~= ns.map_values(|n: Seq<char>| name_key(n)));
    let order = rank(&keys);
    let mut dirs: Vec<String> = Vec::new();
    let mut j: usize = 0;
    while j < order.len()
        invariant
            j <= order.len(),
            order.len() == names.len(),
            ns == texts(names@),
            forall|k: int| 0 <= k < order.len() ==> order@[k] < names.len(),
            dirs.len() == j,
            forall|k: int| 0 <= k < j ==> (#[trigger] dirs@[k])@ == ns[order@[k] as int],
        decreases order.len() - j,
    {
        dirs.push(names[order[j]].clone());
        j = j + 1;
    }
    assert(texts(dirs@) =~= indices(order@).map_values(|i: int| ns[i]));
    dirs
}

} // verus!
