//! Queue policy: which episodes of a series go in the queue, and when.
use crate::cast::id_views;
use crate::jellyfin::{direct_stream_url, opt_bytes, stream_url};
use crate::json::{as_str, get, json_as_array, json_as_str, json_get, Json};
use crate::text::str_eq;
use vstd::prelude::*;
use vstd::string::StringSliceAdditionalSpecFns;

verus! {

pub open spec fn opt_str(s: Option<&str>) -> Option<Seq<char>> {
    match s {
        Some(x) => Some(x@),
        None => None,
    }
}

/// Why previous episodes will not be prepended, or `None` when they will.
///
/// Deliberately ignores whether the queue already has a next item (Jellyfin
/// sending 6..20 is exactly when we also want 1..5) and `autoplay`, which
/// governs continuing forward, not what the playlist selector can reach.
pub open spec fn prepend_skip_reason_spec(
    item_type: Option<Seq<char>>,
    series_id: Option<Seq<char>>,
    prepend_previous: bool,
) -> Option<Seq<char>> {
    if !prepend_previous {
        Some("prepend_previous disabled"@)
    } else if item_type != Some("Episode"@) {
        Some("item is not an episode"@)
    } else if series_id is None {
        Some("item has no SeriesId"@)
    } else {
        None
    }
}

/// Why the rest of the series will not be appended, or `None` when it will.
pub open spec fn series_expand_skip_reason_spec(
    item_type: Option<Seq<char>>,
    series_id: Option<Seq<char>>,
    has_next: bool,
    autoplay: bool,
) -> Option<Seq<char>> {
    if !autoplay {
        Some("autoplay disabled"@)
    } else if has_next {
        Some("queue already has a next item"@)
    } else if item_type != Some("Episode"@) {
        Some("item is not an episode"@)
    } else if series_id is None {
        Some("item has no SeriesId"@)
    } else {
        None
    }
}

fn is_episode(item_type: Option<&str>) -> (r: bool)
    ensures
        r == (opt_str(item_type) == Some("Episode"@)),
{
    match item_type {
        Some(t) => str_eq(t, "Episode"),
        None => false,
    }
}

/// Whether this item could have previous episodes worth prepending; see
/// [`prepend_skip_reason_spec`].
pub fn prepend_skip_reason(
    item_type: Option<&str>,
    series_id: Option<&str>,
    prepend_previous: bool,
) -> (r: Option<&'static str>)
    ensures
        opt_str(r) == prepend_skip_reason_spec(opt_str(item_type), opt_str(series_id), prepend_previous),
{
    if !prepend_previous {
        return Some("prepend_previous disabled");
    }
    if !is_episode(item_type) {
        return Some("item is not an episode");
    }
    if series_id.is_none() {
        return Some("item has no SeriesId");
    }
    None
}

/// Whether the rest of the series should be appended; see
/// [`series_expand_skip_reason_spec`].
pub fn series_expand_skip_reason(
    item_type: Option<&str>,
    series_id: Option<&str>,
    has_next: bool,
    autoplay: bool,
) -> (r: Option<&'static str>)
    ensures
        opt_str(r) == series_expand_skip_reason_spec(
            opt_str(item_type),
            opt_str(series_id),
            has_next,
            autoplay,
        ),
{
    if !autoplay {
        return Some("autoplay disabled");
    }
    if has_next {
        return Some("queue already has a next item");
    }
    if !is_episode(item_type) {
        return Some("item is not an episode");
    }
    if series_id.is_none() {
        return Some("item has no SeriesId");
    }
    None
}

/// The entries of `ids` not present in `queue`, in order.
pub open spec fn missing_from(ids: Seq<Seq<char>>, queue: Seq<Seq<char>>) -> Seq<Seq<char>> {
    ids.filter(|x: Seq<char>| !queue.contains(x))
}

pub fn contains_id(queue: &[String], id: &String) -> (r: bool)
    ensures
        r == id_views(queue@).contains(id@),
{
    let mut i: usize = 0;
    while i < queue.len()
        invariant
            i <= queue@.len(),
            forall|j: int| 0 <= j < i ==> queue@[j]@ != id@,
        decreases queue@.len() - i,
    {
        if str_eq(queue[i].as_str(), id.as_str()) {
            assert(id_views(queue@)[i as int] == id@);
            return true;
        }
        i = i + 1;
    }
    proof {
        if id_views(queue@).contains(id@) {
            let k = choose|k: int| 0 <= k < id_views(queue@).len() && id_views(queue@)[k] == id@;
            assert(queue@[k]@ == id@);
        }
    }
    false
}

/// The subset of `ids` not already present in `queue`, keeping their order.
///
/// Keeps prepending idempotent: advancing e6 -> e7 leaves e1..e6 already in
/// the queue ahead of e7, so re-running the expand must not add them twice.
pub fn ids_missing_from(ids: &[String], queue: &[String]) -> (r: Vec<String>)
    ensures
        id_views(r@) == missing_from(id_views(ids@), id_views(queue@)),
{
    let ghost pred = |x: Seq<char>| !id_views(queue@).contains(x);
    let mut out: Vec<String> = Vec::new();
    let mut i: usize = 0;
    while i < ids.len()
        invariant
            i <= ids@.len(),
            pred == (|x: Seq<char>| !id_views(queue@).contains(x)),
            id_views(out@) == id_views(ids@).take(i as int).filter(pred),
        decreases ids@.len() - i,
    {
        proof {
            let t = id_views(ids@).take(i as int);
            assert(id_views(ids@).take(i + 1) == t.push(ids@[i as int]@));
            t.lemma_filter_push(ids@[i as int]@, pred);
        }
        if !contains_id(queue, &ids[i]) {
            out.push(ids[i].clone());
            assert(id_views(out@) == id_views(out@.drop_last()).push(ids@[i as int]@));
        }
        i = i + 1;
    }
    assert(id_views(ids@).take(ids@.len() as int) == id_views(ids@));
    out
}

/// Prepending what is missing leaves nothing missing: a second expand after
/// advancing adds no duplicates.
pub proof fn law_prepending_the_missing_ids_leaves_none_missing(
    previous: Seq<Seq<char>>,
    queue: Seq<Seq<char>>,
    at: int,
)
    requires
        0 <= at <= queue.len(),
    ensures
        missing_from(previous, queue.take(at) + missing_from(previous, queue) + queue.skip(at)).len()
            == 0,
{
    let m = missing_from(previous, queue);
    let q2 = queue.take(at) + m + queue.skip(at);
    let pred2 = |x: Seq<char>| !q2.contains(x);
    let pred = |x: Seq<char>| !queue.contains(x);
    assert forall|x: Seq<char>| previous.contains(x) implies q2.contains(x) by {
        if queue.contains(x) {
            let k = choose|k: int| 0 <= k < queue.len() && queue[k] == x;
            if k < at {
                assert(q2[k] == x);
            } else {
                assert(q2[k + m.len()] == x);
            }
        } else {
            let k = choose|k: int| 0 <= k < previous.len() && previous[k] == x;
            previous.lemma_filter_contains(pred, k);
            let j = choose|j: int| 0 <= j < m.len() && m[j] == x;
            assert(q2[at + j] == x);
        }
    }
    if missing_from(previous, q2).len() > 0 {
        let f = missing_from(previous, q2);
        previous.lemma_filter_pred(pred2, 0);
        assert(pred2(f[0]));
        assert(previous.filter(pred2).contains(f[0]));
        previous.lemma_filter_contains_rev(pred2, f[0]);
    }
}

/// The `Id`s of a listing's `Items`, in order.
pub open spec fn listing_ids(episodes: Json) -> Seq<Seq<char>> {
    match get(episodes, "Items"@) {
        Some(Json::Array(items)) => items@.filter_map(
            |it: Json|
                match get(it, "Id"@) {
                    Some(v) => as_str(v),
                    None => None,
                },
        ),
        _ => Seq::empty(),
    }
}

/// The ids before and after the first occurrence of `current`, or two empty
/// lists when `current` is not in the listing (fail closed on specials and
/// library churn).
pub open spec fn split_at_current(ids: Seq<Seq<char>>, current: Seq<char>) -> (
    Seq<Seq<char>>,
    Seq<Seq<char>>,
) {
    match ids.index_of_first(current) {
        Some(i) => (ids.take(i), ids.skip(i + 1)),
        None => (Seq::empty(), Seq::empty()),
    }
}

fn item_id_of(it: &Json) -> (r: Option<&String>)
    ensures
        match r {
            Some(s) => (match get(*it, "Id"@) {
                Some(v) => as_str(v),
                None => None,
            }) == Some(s@),
            None => (match get(*it, "Id"@) {
                Some(v) => as_str(v),
                None => None,
            }) is None,
        },
{
    match json_get(it, "Id") {
        Some(v) => json_as_str(v),
        None => None,
    }
}

/// The `Id`s of a listing's `Items`, in order.
pub fn listing_id_list(episodes: &Json) -> (r: Vec<String>)
    ensures
        id_views(r@) == listing_ids(*episodes),
{
    let mut ids: Vec<String> = Vec::new();
    let items: &Vec<Json> = match json_get(episodes, "Items") {
        Some(v) => match json_as_array(v) {
            Some(a) => a,
            None => {
                assert(id_views(ids@) =~= Seq::<Seq<char>>::empty());
                return ids;
            },
        },
        None => {
            assert(id_views(ids@) =~= Seq::<Seq<char>>::empty());
            return ids;
        },
    };
    let ghost f = |it: Json|
        match get(it, "Id"@) {
            Some(v) => as_str(v),
            None => None,
        };
    assert(id_views(ids@) =~= Seq::<Seq<char>>::empty());
    let mut i: usize = 0;
    while i < items.len()
        invariant
            i <= items@.len(),
            f == (|it: Json|
                match get(it, "Id"@) {
                    Some(v) => as_str(v),
                    None => None,
                }),
            id_views(ids@) == items@.take(i as int).filter_map(f),
        decreases items@.len() - i,
    {
        proof {
            items@.lemma_filter_map_take_succ(f, i as int);
        }
        match item_id_of(&items[i]) {
            Some(s) => {
                ids.push(s.clone());
                assert(id_views(ids@) == id_views(ids@.drop_last()).push(s@));
            },
            None => {},
        }
        i = i + 1;
    }
    assert(items@.take(items@.len() as int) == items@);
    ids
}

/// Splits a full series listing into the ids before and after `current_id`.
pub fn split_episode_ids(episodes: &Json, current_id: &str) -> (r: (Vec<String>, Vec<String>))
    ensures
        (id_views(r.0@), id_views(r.1@)) == split_at_current(listing_ids(*episodes), current_id@),
{
    let items: &Vec<Json> = match json_get(episodes, "Items") {
        Some(v) => match json_as_array(v) {
            Some(a) => a,
            None => {
                let e: Vec<String> = Vec::new();
                assert(id_views(e@) =~= Seq::<Seq<char>>::empty());
                proof {
                    Seq::<Seq<char>>::empty().index_of_first_ensures(current_id@);
                }
                return (Vec::new(), Vec::new());
            },
        },
        None => {
            let e: Vec<String> = Vec::new();
            assert(id_views(e@) =~= Seq::<Seq<char>>::empty());
            proof {
                Seq::<Seq<char>>::empty().index_of_first_ensures(current_id@);
            }
            return (Vec::new(), Vec::new());
        },
    };
    let ghost f = |it: Json|
        match get(it, "Id"@) {
            Some(v) => as_str(v),
            None => None,
        };
    let mut ids: Vec<String> = Vec::new();
    let mut i: usize = 0;
    while i < items.len()
        invariant
            i <= items@.len(),
            f == (|it: Json|
                match get(it, "Id"@) {
                    Some(v) => as_str(v),
                    None => None,
                }),
            id_views(ids@) == items@.take(i as int).filter_map(f),
        decreases items@.len() - i,
    {
        proof {
            items@.lemma_filter_map_take_succ(f, i as int);
        }
        match item_id_of(&items[i]) {
            Some(s) => {
                ids.push(s.clone());
                assert(id_views(ids@) == id_views(ids@.drop_last()).push(s@));
            },
            None => {},
        }
        i = i + 1;
    }
    assert(items@.take(items@.len() as int) == items@);
    let ghost all = id_views(ids@);
    assert(all == listing_ids(*episodes));
    let mut k: usize = 0;
    while k < ids.len()
        invariant
            k <= ids@.len(),
            all == id_views(ids@),
            all == listing_ids(*episodes),
            forall|j: int| 0 <= j < k ==> all[j] != current_id@,
        decreases ids@.len() - k,
    {
        if str_eq(ids[k].as_str(), current_id) {
            let after = crate::window::clone_range(&ids, k + 1, ids.len());
            let mut before = ids;
            before.truncate(k);
            proof {
                assert(all[k as int] == current_id@);
                assert(all.contains(current_id@));
                all.index_of_first_ensures(current_id@);
                let first = all.index_of_first(current_id@).unwrap();
                if first < k {
                    assert(all[first] != current_id@);
                }
                if first > k {
                    assert(all[k as int] != current_id@);
                }
                assert(first == k);
                assert(id_views(before@) =~= all.take(k as int));
                assert(id_views(after@) =~= all.skip(k + 1));
            }
            return (before, after);
        }
        k = k + 1;
    }
    proof {
        all.index_of_first_ensures(current_id@);
        if all.contains(current_id@) {
            let j = choose|j: int| 0 <= j < all.len() && all[j] == current_id@;
            assert(all[j] != current_id@);
        }
    }
    let e: Vec<String> = Vec::new();
    assert(id_views(e@) =~= Seq::<Seq<char>>::empty());
    (Vec::new(), Vec::new())
}

/// `(title, url)` for one playlist row. The URL carries the token only when
/// given one (mpv is not sending the Authorization header); the title never
/// does, falling back to the tokenless URL when the listing had no title.
pub fn playlist_stub_entry(server: &str, id: &str, title: Option<&str>, token: Option<&str>) -> (r: (
    String,
    String,
))
    ensures
        r.1@ == stream_url(server@, id@, id.spec_bytes(), None, opt_bytes(token)),
        r.0@ == match title {
            Some(t) => t@,
            None => stream_url(server@, id@, id.spec_bytes(), None, None),
        },
{
    let url = direct_stream_url(server, id, id, None, token);
    let title = match title {
        Some(t) => crate::text::owned(t),
        None => direct_stream_url(server, id, id, None, None),
    };
    (title, url)
}

} // verus!
