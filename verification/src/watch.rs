//! The change watcher's per-tick decision logic, pure and verified: given
//! the previous watermark and the fetched index feed text, which document
//! locations to publish and what the watermark becomes. The surrounding
//! polling loop, its timer, the fetch and the cancellation live outside the
//! library; they hand each fetched feed to `tick`.

use vstd::prelude::*;
use crate::strutil::{ends_with, starts_with};
use crate::xml::{attr_of, child_of, descs, parse_xml, text_of_child, xml_doc, NodeView, XmlNode};

verus! {

/// The instant an RFC 3339 date-time string denotes, in seconds, or `None`
/// when the string is not such a date-time. A function of the string alone;
/// only the trusted parser below speaks for this name.
pub uninterp spec fn rfc3339_instant(s: Seq<char>) -> Option<int>;

/// Relies on chrono::DateTime::parse_from_rfc3339, which accepts exactly the
/// RFC 3339 date-time strings, and on `DateTime::timestamp`, which returns
/// the denoted instant as seconds; both depend on the string alone.
#[verifier::external_body]
fn parse_rfc3339(s: &str) -> (r: Option<i64>)
    ensures
        (r is Some) == (rfc3339_instant(s@) is Some),
        r matches Some(t) ==> rfc3339_instant(s@) == Some(t as int),
{
    match chrono::DateTime::parse_from_rfc3339(s) {
        Ok(dt) => Some(dt.timestamp()),
        Err(_) => None,
    }
}

/// The normal form of a URL string, or `None` when it is not a valid URL. A
/// function of the string alone; only the trusted parser below speaks for
/// this name.
pub uninterp spec fn url_normal(s: Seq<char>) -> Option<Seq<char>>;

/// Relies on url::Url::parse, which returns `Ok` exactly on valid URLs, and
/// on `Url::as_str`, the parsed URL written back out in normal form.
#[verifier::external_body]
fn normalize_url(s: &str) -> (r: Option<String>)
    ensures
        (r is Some) == (url_normal(s@) is Some),
        r matches Some(t) ==> url_normal(s@) == Some(t@),
{
    match url::Url::parse(s) {
        Ok(u) => Some(u.as_str().to_string()),
        Err(_) => None,
    }
}

pub open spec fn index_suffix() -> Seq<char> {
    "-index.htm"@
}

pub open spec fn feed_prefix() -> Seq<char> {
    "4 "@
}

/// The largest index `<= i` holding `/`, if any.
pub open spec fn last_slash_from(u: Seq<char>, i: int) -> Option<int>
    decreases i + 1,
        when i < u.len()
{
    if i < 0 || i >= u.len() {
        None
    } else if u[i] == '/' {
        Some(i)
    } else {
        last_slash_from(u, i - 1)
    }
}

/// The document location a feed link points at: the link names the document
/// view, the decoder reads the issuing directory. A trailing `-index.htm`
/// is dropped; otherwise the final path segment is removed.
pub open spec fn location_of(u: Seq<char>) -> Seq<char> {
    if u.len() >= index_suffix().len() && u.subrange(u.len() - index_suffix().len(), u.len() as int)
        == index_suffix() {
        u.take(u.len() - index_suffix().len())
    } else {
        match last_slash_from(u, u.len() - 1) {
            Some(i) => u.take(i),
            None => u,
        }
    }
}

pub open spec fn entry_title(e: NodeView) -> Option<Seq<char>> {
    text_of_child(e, "title"@)
}

pub open spec fn entry_updated(e: NodeView) -> Option<Seq<char>> {
    text_of_child(e, "updated"@)
}

pub open spec fn entry_link(e: NodeView) -> Option<Seq<char>> {
    match child_of(e, "link"@) {
        Some(l) => attr_of(l, "href"@),
        None => None,
    }
}

/// The instant of an entry's `updated` timestamp, if present and parseable.
pub open spec fn entry_instant(e: NodeView) -> Option<int> {
    match entry_updated(e) {
        Some(t) => rfc3339_instant(t),
        None => None,
    }
}

/// Whether an entry's title carries the target document-type prefix.
pub open spec fn title_matches(e: NodeView) -> bool {
    match entry_title(e) {
        Some(t) => t.len() >= feed_prefix().len() && t.subrange(0, feed_prefix().len() as int)
            == feed_prefix(),
        None => false,
    }
}

/// Whether a tick publishes an entry: right title, an `updated` instant
/// strictly beyond the previous watermark, and a resolvable link.
pub open spec fn entry_keep(e: NodeView, w: int) -> bool {
    &&& title_matches(e)
    &&& match entry_instant(e) {
        Some(t) => t > w,
        None => false,
    }
    &&& match entry_link(e) {
        Some(l) => url_normal(l) is Some,
        None => false,
    }
}

/// The location an entry resolves to.
pub open spec fn entry_loc(e: NodeView) -> Seq<char> {
    location_of(url_normal(entry_link(e)->Some_0)->Some_0)
}

/// The locations of the kept entries among `es[i..]`, in feed order.
pub open spec fn batch_of(es: Seq<NodeView>, w: int, i: int) -> Seq<Seq<char>>
    recommends
        0 <= i,
    decreases es.len() - i,
        when i <= es.len()
{
    if i < 0 || i >= es.len() {
        Seq::empty()
    } else {
        (if entry_keep(es[i], w) {
            seq![entry_loc(es[i])]
        } else {
            Seq::empty()
        }) + batch_of(es, w, i + 1)
    }
}

/// The entries of a feed, in document order.
pub open spec fn feed_entries(feed: Seq<char>) -> Seq<NodeView> {
    match xml_doc(feed) {
        Some(root) => descs(root, "entry"@),
        None => Seq::empty(),
    }
}

/// The candidate high-water mark of a feed: the first entry's instant. A
/// tick succeeds exactly when this is present.
pub open spec fn feed_candidate(feed: Seq<char>) -> Option<int> {
    match xml_doc(feed) {
        None => None,
        Some(root) => {
            let es = descs(root, "entry"@);
            if es.len() == 0 {
                None
            } else {
                entry_instant(es[0])
            }
        },
    }
}

/// What one poll tick yields: the new watermark and the published batch.
/// A feed that does not parse, is empty, or whose first entry has no
/// resolvable instant produces nothing and leaves the watermark untouched.
/// Otherwise the batch holds the kept entries' locations and the watermark
/// rises to the candidate when the candidate is beyond it; it never falls.
pub open spec fn tick_spec(w: int, feed: Seq<char>) -> (int, Option<Seq<Seq<char>>>) {
    match feed_candidate(feed) {
        None => (w, None),
        Some(cand) => (
            if cand > w {
                cand
            } else {
                w
            },
            Some(batch_of(feed_entries(feed), w, 0)),
        ),
    }
}

pub open spec fn str_views(v: Seq<String>) -> Seq<Seq<char>> {
    v.map_values(|s: String| s@)
}

fn entry_instant_exec(e: &XmlNode) -> (r: Option<i64>)
    ensures
        (r is Some) == (entry_instant(e@) is Some),
        r matches Some(t) ==> entry_instant(e@) == Some(t as int),
{
    match e.child_text("updated") {
        Some(t) => parse_rfc3339(t.as_str()),
        None => None,
    }
}

/// Turns a normalized link into its document location.
fn document_location(u: &str) -> (r: String)
    ensures
        r@ == location_of(u@),
{
    let n = u.unicode_len();
    if ends_with(u, "-index.htm") {
        proof {
            reveal_strlit("-index.htm");
        }
        return u.substring_char(0, n - 10).to_owned();
    }
    proof {
        reveal_strlit("-index.htm");
    }
    let mut k: usize = n;
    while k > 0
        invariant
            k <= n == u@.len(),
            last_slash_from(u@, n as int - 1) == last_slash_from(u@, k as int - 1),
            !(u@.len() >= index_suffix().len() && u@.subrange(
                u@.len() - index_suffix().len(),
                u@.len() as int,
            ) == index_suffix()),
        decreases k,
    {
        k = k - 1;
        if u.get_char(k) == '/' {
            proof {
                assert(last_slash_from(u@, k as int) == Some(k as int)) by {
                    reveal_with_fuel(last_slash_from, 2);
                    assert(u@[k as int] == '/');
                };
                assert(location_of(u@) == u@.take(k as int));
                assert(u@.take(k as int) =~= u@.subrange(0, k as int));
            }
            return u.substring_char(0, k).to_owned();
        }
    }
    u.to_owned()
}

/// One poll tick: filters and timestamps the fetched feed text against the
/// previous watermark, returning the new watermark and, on a successful
/// tick, the batch of newly discovered document locations.
pub fn tick(watermark: i64, feed: &str) -> (r: (i64, Option<Vec<String>>))
    ensures
        r.0 as int == tick_spec(watermark as int, feed@).0,
        r.0 >= watermark,
        (r.1 is Some) == (tick_spec(watermark as int, feed@).1 is Some),
        r.1 matches Some(v) ==> tick_spec(watermark as int, feed@).1 == Some(str_views(v@)),
{
    let root = match parse_xml(feed) {
        Some(t) => t,
        None => {
            return (watermark, None);
        },
    };
    let entries = root.descendants("entry");
    let ghost es = feed_entries(feed@);
    proof {
        assert(es == crate::xml::views_of(entries@));
    }
    if entries.len() == 0 {
        return (watermark, None);
    }
    assert(es[0] == entries@[0]@);
    let cand = match entry_instant_exec(entries[0]) {
        Some(c) => c,
        None => {
            return (watermark, None);
        },
    };
    let n = entries.len();
    let mut out: Vec<String> = Vec::new();
    proof {
        assert(str_views(out@) =~= Seq::<Seq<char>>::empty());
    }
    let mut i: usize = 0;
    while i < n
        invariant
            n == entries@.len(),
            es == crate::xml::views_of(entries@),
            es.len() == n,
            0 <= i <= n,
            batch_of(es, watermark as int, 0) == str_views(out@) + batch_of(
                es,
                watermark as int,
                i as int,
            ),
        decreases n - i,
    {
        assert(es[i as int] == entries@[i as int]@);
        let e = entries[i];
        let ghost prev = out@;
        let title_ok = match e.child_text("title") {
            Some(t) => starts_with(t.as_str(), "4 "),
            None => false,
        };
        if title_ok {
            let fresh = match entry_instant_exec(e) {
                Some(t) => t > watermark,
                None => false,
            };
            if fresh {
                let link = match e.child("link") {
                    Some(l) => l.attr("href"),
                    None => None,
                };
                match link {
                    Some(l) => {
                        match normalize_url(l.as_str()) {
                            Some(norm) => {
                                out.push(document_location(norm.as_str()));
                                proof {
                                    assert(entry_keep(es[i as int], watermark as int));
                                    assert(str_views(out@) =~= str_views(prev).push(
                                        entry_loc(es[i as int]),
                                    ));
                                    assert(str_views(prev) + (seq![entry_loc(es[i as int])]
                                        + batch_of(es, watermark as int, i + 1)) =~= str_views(
                                        out@,
                                    ) + batch_of(es, watermark as int, i + 1));
                                }
                            },
                            None => {
                                assert(!entry_keep(es[i as int], watermark as int));
                            },
                        }
                    },
                    None => {
                        assert(!entry_keep(es[i as int], watermark as int));
                    },
                }
            } else {
                assert(!entry_keep(es[i as int], watermark as int));
            }
        } else {
            assert(!entry_keep(es[i as int], watermark as int));
        }
        proof {
            if !entry_keep(es[i as int], watermark as int) {
                assert(Seq::<Seq<char>>::empty() + batch_of(es, watermark as int, i + 1)
                    =~= batch_of(es, watermark as int, i + 1));
            }
        }
        i = i + 1;
    }
    proof {
        assert(batch_of(es, watermark as int, n as int) =~= Seq::<Seq<char>>::empty());
        assert(str_views(out@) + Seq::<Seq<char>>::empty() =~= str_views(out@));
    }
    let new_w = if cand > watermark {
        cand
    } else {
        watermark
    };
    (new_w, Some(out))
}

/// The watermark after a run of ticks, one feed per tick.
pub open spec fn wm_run(w0: int, feeds: Seq<Seq<char>>) -> int
    decreases feeds.len(),
{
    if feeds.len() == 0 {
        w0
    } else {
        wm_run(tick_spec(w0, feeds[0]).0, feeds.drop_first())
    }
}

/// One tick never lowers the watermark, whatever the feed holds.
pub proof fn lemma_tick_never_decreases(w: int, feed: Seq<char>)
    ensures
        tick_spec(w, feed).0 >= w,
{
}

/// Watermark monotonicity: across any run of successful ticks the watermark
/// ends at the maximum of its start and every first-entry instant seen, and
/// never decreases along the way.
pub proof fn lemma_watermark_monotonic(w0: int, feeds: Seq<Seq<char>>)
    requires
        forall|i: int| 0 <= i < feeds.len() ==> feed_candidate(#[trigger] feeds[i]) is Some,
    ensures
        wm_run(w0, feeds) >= w0,
        forall|i: int|
            0 <= i < feeds.len() ==> wm_run(w0, feeds) >= feed_candidate(
                #[trigger] feeds[i],
            )->Some_0,
        wm_run(w0, feeds) == w0 || exists|i: int|
            0 <= i < feeds.len() && wm_run(w0, feeds) == feed_candidate(#[trigger] feeds[i])->Some_0,
    decreases feeds.len(),
{
    if feeds.len() > 0 {
        let w1 = tick_spec(w0, feeds[0]).0;
        let rest = feeds.drop_first();
        assert(forall|i: int|
            0 <= i < rest.len() ==> feed_candidate(#[trigger] rest[i]) is Some) by {
            assert(forall|i: int| 0 <= i < rest.len() ==> rest[i] == #[trigger] feeds[i + 1]);
        }
        lemma_watermark_monotonic(w1, rest);
        assert(forall|i: int| 0 <= i < rest.len() ==> rest[i] == #[trigger] feeds[i + 1]);
        assert forall|i: int| 0 <= i < feeds.len() implies wm_run(w0, feeds) >= feed_candidate(
            #[trigger] feeds[i],
        )->Some_0 by {
            if i == 0 {
                assert(w1 >= feed_candidate(feeds[0])->Some_0);
            } else {
                assert(feeds[i] == rest[i - 1]);
            }
        }
        if wm_run(w1, rest) == w1 {
            if w1 == w0 {
            } else {
                assert(wm_run(w0, feeds) == feed_candidate(feeds[0])->Some_0);
            }
        } else {
            let j = choose|j: int|
                0 <= j < rest.len() && wm_run(w1, rest) == feed_candidate(#[trigger] rest[j])->Some_0;
            assert(feeds[j + 1] == rest[j]);
            assert(wm_run(w0, feeds) == feed_candidate(feeds[j + 1])->Some_0);
        }
    }
}

/// No entry beyond the watermark is kept, so every batch entry was strictly
/// newer than the watermark the tick started from.
proof fn lemma_batch_empty(es: Seq<NodeView>, w: int, i: int)
    requires
        0 <= i <= es.len(),
        forall|j: int| i <= j < es.len() ==> !entry_keep(#[trigger] es[j], w),
    ensures
        batch_of(es, w, i) == Seq::<Seq<char>>::empty(),
    decreases es.len() - i,
{
    if i < es.len() {
        lemma_batch_empty(es, w, i + 1);
        assert(batch_of(es, w, i) =~= Seq::<Seq<char>>::empty());
    }
}

/// Deduplication: when a successful tick's feed lists no entry newer than
/// its first entry, running the very same feed again right after publishes
/// an empty batch; nothing is delivered twice.
pub proof fn lemma_dedup(w: int, feed: Seq<char>)
    requires
        feed_candidate(feed) is Some,
        forall|j: int|
            0 <= j < feed_entries(feed).len() ==> match entry_instant(
                #[trigger] feed_entries(feed)[j],
            ) {
                Some(t) => t <= feed_candidate(feed)->Some_0,
                None => true,
            },
    ensures
        tick_spec(tick_spec(w, feed).0, feed).1 == Some(Seq::<Seq<char>>::empty()),
{
    let w1 = tick_spec(w, feed).0;
    let es = feed_entries(feed);
    assert forall|j: int| 0 <= j < es.len() implies !entry_keep(#[trigger] es[j], w1) by {
        match entry_instant(es[j]) {
            Some(t) => {
                assert(t <= feed_candidate(feed)->Some_0);
                assert(w1 >= feed_candidate(feed)->Some_0);
            },
            None => {},
        }
    }
    lemma_batch_empty(es, w1, 0);
}

} // verus!
