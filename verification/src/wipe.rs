//! The full-wipe phase: each resource collection is emptied by walking
//! its paginated listing with a continuation cursor and deleting every
//! listed item, until a page returns no cursor.

use vstd::prelude::*;

use crate::text::strings_view;

verus! {

/// One page of a listing: the identifiers it carries and the
/// continuation cursor, absent on the last page.
#[derive(Debug)]
pub struct Page {
    pub ids: Vec<String>,
    pub next: Option<String>,
}

/// The view of an optional string.
pub open spec fn option_str_view(o: Option<String>) -> Option<Seq<char>> {
    match o {
        Some(s) => Some(s@),
        None => None,
    }
}

/// The view of a page: its identifiers and its cursor.
pub open spec fn page_view(p: Page) -> (Seq<Seq<char>>, Option<Seq<char>>) {
    (strings_view(p.ids@), option_str_view(p.next))
}

/// The views of a sequence of pages.
pub open spec fn pages_view(s: Seq<Page>) -> Seq<(Seq<Seq<char>>, Option<Seq<char>>)> {
    s.map_values(|p: Page| page_view(p))
}

/// The identifiers the wipe deletes when the listing answers with the
/// given pages in order: every page's items, up to and including the
/// first page without a continuation cursor.
pub open spec fn wipe_deletions(pages: Seq<(Seq<Seq<char>>, Option<Seq<char>>)>) -> Seq<Seq<char>>
    decreases pages.len(),
{
    if pages.len() == 0 {
        Seq::empty()
    } else if pages[0].1 is Some {
        pages[0].0 + wipe_deletions(pages.drop_first())
    } else {
        pages[0].0
    }
}

/// Pagination-based deletion terminates with the last page — the one
/// without a continuation cursor — and deletes every listed item exactly
/// once, in listing order, even across multiple pages.
pub proof fn lemma_wipe_exact(pages: Seq<(Seq<Seq<char>>, Option<Seq<char>>)>)
    requires
        pages.len() > 0,
        forall|k: int| 0 <= k < pages.len() - 1 ==> (#[trigger] pages[k]).1 is Some,
        pages[pages.len() - 1].1 is None,
    ensures
        wipe_deletions(pages) == pages.map_values(
            |pg: (Seq<Seq<char>>, Option<Seq<char>>)| pg.0,
        ).flatten(),
    decreases pages.len(),
{
    let ids = pages.map_values(|pg: (Seq<Seq<char>>, Option<Seq<char>>)| pg.0);
    if pages.len() == 1 {
        assert(ids =~= seq![pages[0].0]);
        assert(ids.flatten() =~= pages[0].0) by {
            assert(ids.drop_first() =~= Seq::<Seq<Seq<char>>>::empty());
            assert(ids.drop_first().flatten() =~= Seq::<Seq<char>>::empty());
        }
    } else {
        let rest = pages.drop_first();
        assert(rest[rest.len() - 1].1 is None);
        lemma_wipe_exact(rest);
        let rest_ids = rest.map_values(|pg: (Seq<Seq<char>>, Option<Seq<char>>)| pg.0);
        assert(ids.drop_first() =~= rest_ids);
        assert(ids.flatten() == ids[0] + ids.drop_first().flatten());
    }
}

/// Copies a vector of strings.
fn copy_strings(v: &Vec<String>) -> (r: Vec<String>)
    ensures
        strings_view(r@) == strings_view(v@),
{
    let n = v.len();
    let mut r: Vec<String> = Vec::new();
    let mut i: usize = 0;
    while i < n
        invariant
            i <= n,
            n == v@.len(),
            r@.len() == i,
            forall|k: int| 0 <= k < i ==> #[trigger] r@[k]@ == v@[k]@,
        decreases n - i,
    {
        r.push(v[i].clone());
        i += 1;
    }
    assert(strings_view(r@) =~= strings_view(v@)) by {
        assert forall|k: int| 0 <= k < n implies strings_view(r@)[k] == strings_view(v@)[k] by {
            assert(strings_view(r@)[k] == r@[k]@);
            assert(strings_view(v@)[k] == v@[k]@);
        }
    }
    r
}

/// One step of the wipe: the identifiers of the page are deleted, and
/// the walk continues with the page's cursor or ends when it has none.
pub fn wipe_step(page: &Page) -> (r: (Vec<String>, Option<String>))
    ensures
        strings_view(r.0@) == strings_view(page.ids@),
        option_str_view(r.1) == option_str_view(page.next),
{
    let ids = copy_strings(&page.ids);
    let next = match &page.next {
        Some(cursor) => Some(cursor.clone()),
        None => None,
    };
    (ids, next)
}

/// Walks a sequence of listed pages as the wipe does — delete the page's
/// items, follow its cursor — and returns every identifier deleted, in
/// order; the walk stops at the first page without a cursor.
pub fn run_wipe(pages: &Vec<Page>) -> (r: Vec<String>)
    ensures
        strings_view(r@) == wipe_deletions(pages_view(pages@)),
{
    let ghost full = pages_view(pages@);
    let n = pages.len();
    let mut out: Vec<String> = Vec::new();
    let mut i: usize = 0;
    assert(full.skip(0) =~= full);
    assert(strings_view(out@) + wipe_deletions(full) =~= wipe_deletions(full));
    loop
        invariant
            i <= n,
            n == pages@.len(),
            full == pages_view(pages@),
            wipe_deletions(full) == strings_view(out@) + wipe_deletions(
                full.skip(i as int),
            ),
        decreases n - i,
    {
        if i >= n {
            proof {
                assert(full.skip(i as int) =~= Seq::<(Seq<Seq<char>>, Option<Seq<char>>)>::empty());
                assert(strings_view(out@) + wipe_deletions(full.skip(i as int)) =~= strings_view(
                    out@,
                ));
            }
            return out;
        }
        let ghost old_out = out@;
        let (ids, next) = wipe_step(&pages[i]);
        let mut ids_mut = ids;
        out.append(&mut ids_mut);
        proof {
            assert(full.skip(i as int)[0] == full[i as int]);
            assert(full[i as int].0 == strings_view(pages@[i as int].ids@));
            assert(strings_view(out@) =~= strings_view(old_out) + strings_view(
                pages@[i as int].ids@,
            )) by {
                assert forall|k: int| 0 <= k < out@.len() implies strings_view(out@)[k] == (
                strings_view(old_out) + strings_view(pages@[i as int].ids@))[k] by {
                    assert(strings_view(out@)[k] == out@[k]@);
                }
            }
        }
        match next {
            Some(_) => {
                proof {
                    assert(full.skip(i as int).drop_first() =~= full.skip(i + 1));
                    assert(wipe_deletions(full.skip(i as int)) == full[i as int].0
                        + wipe_deletions(full.skip(i + 1)));
                }
                i += 1;
            },
            None => {
                proof {
                    assert(wipe_deletions(full.skip(i as int)) == full[i as int].0);
                    assert(strings_view(out@) + Seq::<Seq<char>>::empty() =~= strings_view(out@));
                }
                return out;
            },
        }
    }
}

} // verus!
