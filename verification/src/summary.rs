//! What the diagnostic log is allowed to keep of a URL.

use vstd::prelude::*;
use crate::text::{chars_of, clip_chars, clip_spec, dedup, join, join_chars, same_chars,
    string_of};
use crate::url_parts::{parse_url, url_parse, UrlParts, UrlView};

verus! {

/// What the log keeps of a URL: the URL without query and fragment,
/// followed, when the query has names, by `?` and the distinct names in
/// order of first appearance, separated by `,`. No query value and no
/// fragment reaches the log.
pub open spec fn url_summary(u: UrlView) -> Seq<char> {
    let keys = dedup(u.query_keys);
    if keys.len() == 0 {
        u.base
    } else {
        u.base + seq!['?'] + join(keys, seq![','])
    }
}

/// What the log keeps of a text that should be a URL: its summary where it
/// parses, otherwise the text clipped to 180 characters.
pub open spec fn text_summary(text: Seq<char>) -> Seq<char> {
    match url_parse(text) {
        Some(v) => url_summary(v),
        None => clip_spec(text, 180),
    }
}

/// The character views of a list of character vectors.
pub open spec fn char_views(v: Seq<Vec<char>>) -> Seq<Seq<char>> {
    v.map_values(|p: Vec<char>| p@)
}

/// Whether `item` is among the character sequences of `list`.
pub(crate) fn list_contains(list: &Vec<Vec<char>>, item: &Vec<char>) -> (r: bool)
    ensures
        r == char_views(list@).contains(item@),
{
    let ghost lv = char_views(list@);
    let mut i: usize = 0;
    while i < list.len()
        invariant
            i <= list.len(),
            lv == char_views(list@),
            forall|k: int| 0 <= k < i ==> lv[k] != item@,
        decreases list.len() - i,
    {
        if same_chars(&list[i], item) {
            proof {
                assert(lv[i as int] == item@);
            }
            return true;
        }
        i = i + 1;
    }
    false
}

/// Shortens a URL for the log (see `url_summary`).
pub fn summarize_url(url: &UrlParts) -> (r: String)
    ensures
        r@ == url_summary(url@),
{
    let ghost all = url@.query_keys;
    let mut keys: Vec<Vec<char>> = Vec::new();
    let mut i: usize = 0;
    while i < url.query_keys.len()
        invariant
            i <= url.query_keys.len(),
            all == url@.query_keys,
            char_views(keys@) == dedup(all.take(i as int)),
        decreases url.query_keys.len() - i,
    {
        let key = chars_of(url.query_keys[i].as_str());
        proof {
            assert(all.take(i + 1).drop_last() =~= all.take(i as int));
            assert(all.take(i + 1).last() == key@);
        }
        if !list_contains(&keys, &key) {
            keys.push(key);
            proof {
                assert(char_views(keys@) =~= dedup(all.take(i as int)).push(key@));
            }
        }
        i = i + 1;
    }
    proof {
        assert(all.take(url.query_keys.len() as int) =~= all);
    }
    let mut out = chars_of(url.base.as_str());
    if keys.len() > 0 {
        out.push('?');
        let comma: Vec<char> = vec![','];
        let joined = join_chars(&keys, &comma);
        let ghost before = out@;
        proof {
            assert(comma@ =~= seq![',']);
            assert(before =~= url@.base + seq!['?']);
            assert(joined@ == join(dedup(all), seq![',']));
        }
        crate::text::push_all(&mut out, &joined);
        proof {
            assert(keys@.map_values(|p: Vec<char>| p@) == char_views(keys@));
            assert(out@ =~= url@.base + seq!['?'] + join(dedup(all), seq![',']));
        }
    }
    string_of(out.as_slice())
}

/// Shortens a text that should be a URL for the log (see `text_summary`).
pub fn summarize_url_text(value: &str) -> (r: String)
    ensures
        r@ == text_summary(value@),
{
    match parse_url(value) {
        Some(url) => summarize_url(&url),
        None => {
            let out = clip_chars(value, 180);
            string_of(out.as_slice())
        },
    }
}


/// The query names a summary lists are exactly the names of the query, each
/// once: a name is listed if and only if the query has it, and no name is
/// listed twice.
pub proof fn summary_lists_each_query_name_once(keys: Seq<Seq<char>>)
    ensures
        forall|x: Seq<char>| dedup(keys).contains(x) <==> keys.contains(x),
        forall|i: int, j: int|
            0 <= i < j < dedup(keys).len() ==> dedup(keys)[i] != dedup(keys)[j],
    decreases keys.len(),
{
    if keys.len() > 0 {
        let p = keys.drop_last();
        summary_lists_each_query_name_once(p);
        let d = dedup(p);
        let l = keys.last();
        assert forall|x: Seq<char>| keys.contains(x) <==> (p.contains(x) || x == l) by {
            if keys.contains(x) {
                let k = choose|k: int| 0 <= k < keys.len() && keys[k] == x;
                if k < keys.len() - 1 {
                    assert(p[k] == x);
                }
            }
            if p.contains(x) {
                let k = choose|k: int| 0 <= k < p.len() && p[k] == x;
                assert(keys[k] == x);
            }
            if x == l {
                assert(keys[keys.len() - 1] == x);
            }
        }
        if !d.contains(l) {
            let e = d.push(l);
            assert forall|x: Seq<char>| e.contains(x) <==> (d.contains(x) || x == l) by {
                if e.contains(x) {
                    let k = choose|k: int| 0 <= k < e.len() && e[k] == x;
                    if k < d.len() {
                        assert(d[k] == x);
                    }
                }
                if d.contains(x) {
                    let k = choose|k: int| 0 <= k < d.len() && d[k] == x;
                    assert(e[k] == x);
                }
                if x == l {
                    assert(e[d.len() as int] == x);
                }
            }
            assert forall|i: int, j: int| 0 <= i < j < e.len() implies e[i] != e[j] by {
                if j == d.len() {
                    assert(d[i] == e[i]);
                    assert(d.contains(e[i]));
                }
            }
        }
    }
}


/// `x` first appears in `s` at position `p`.
pub open spec fn first_at(s: Seq<Seq<char>>, x: Seq<char>, p: int) -> bool {
    0 <= p < s.len() && s[p] == x && forall|q: int| 0 <= q < p ==> s[q] != x
}

/// The distinct names keep the order in which they first appear.
proof fn dedup_keeps_first_appearance_order(keys: Seq<Seq<char>>)
    ensures
        forall|i: int, j: int, p: int, q: int|
            0 <= i < j < dedup(keys).len() && #[trigger] first_at(keys, dedup(keys)[i], p)
                && #[trigger] first_at(keys, dedup(keys)[j], q) ==> p < q,
    decreases keys.len(),
{
    if keys.len() > 0 {
        let pre = keys.drop_last();
        let l = keys.last();
        let d = dedup(pre);
        dedup_keeps_first_appearance_order(pre);
        summary_lists_each_query_name_once(pre);
        summary_lists_each_query_name_once(keys);
        let e = dedup(keys);
        assert forall|i: int, j: int, p: int, q: int|
            0 <= i < j < e.len() && #[trigger] first_at(keys, e[i], p) && #[trigger] first_at(
                keys,
                e[j],
                q,
            ) implies p < q by {
            // A name of `pre` first appears in `keys` where it first appears in `pre`.
            assert forall|x: Seq<char>, r: int| pre.contains(x) && #[trigger] first_at(keys, x, r) implies first_at(
                pre,
                x,
                r,
            ) && r < pre.len() by {
                let k = choose|k: int| 0 <= k < pre.len() && pre[k] == x;
                assert(keys[k] == x);
                if r >= pre.len() {
                    assert(keys[k] == x && k < r);
                }
                assert forall|t: int| 0 <= t < r implies pre[t] != x by {
                    assert(keys[t] == pre[t]);
                }
            }
            if j < d.len() {
                assert(e[i] == d[i] && e[j] == d[j]);
                assert(d.contains(d[i]) && d.contains(d[j]));
                assert(pre.contains(d[i]) && pre.contains(d[j]));
            } else {
                // e[j] is the last name, new in `keys`: it first appears at the end.
                assert(e =~= d.push(l));
                assert(e[j] == l);
                assert(e[i] == d[i]);
                assert(d.contains(d[i]));
                assert(pre.contains(d[i]));
                assert(!pre.contains(l));
                if q < pre.len() {
                    assert(pre[q] == keys[q]);
                }
            }
        }
    }
}

/// A summary lists every query name of the URL, each once, in order of
/// first appearance: with no query names it is the URL without query and
/// fragment; otherwise that URL, `?`, and a comma-separated list of items
/// that are exactly the query's names, none twice, ordered by where each
/// first appears in the query.
pub proof fn summary_lists_every_query_name(u: UrlView)
    ensures
        u.query_keys.len() == 0 ==> url_summary(u) == u.base,
        u.query_keys.len() > 0 ==> exists|items: Seq<Seq<char>>|
            {
                &&& url_summary(u) == u.base + seq!['?'] + #[trigger] join(items, seq![','])
                &&& items.len() > 0
                &&& forall|k: Seq<char>| u.query_keys.contains(k) <==> items.contains(k)
                &&& forall|i: int, j: int| 0 <= i < j < items.len() ==> items[i] != items[j]
                &&& forall|i: int, j: int, p: int, q: int|
                    0 <= i < j < items.len() && #[trigger] first_at(u.query_keys, items[i], p)
                        && #[trigger] first_at(u.query_keys, items[j], q) ==> p < q
            },
{
    let keys = u.query_keys;
    summary_lists_each_query_name_once(keys);
    dedup_keeps_first_appearance_order(keys);
    if keys.len() == 0 {
        assert(dedup(keys).len() == 0);
    } else {
        let items = dedup(keys);
        assert(keys.contains(keys[0]));
        assert(items.contains(keys[0]));
        assert(items.len() > 0);
        assert(url_summary(u) == u.base + seq!['?'] + join(items, seq![',']));
    }
}

} // verus!
