use vstd::prelude::*;

use crate::candidates::sort_candidates;
use crate::keys::Keycode;
use crate::strings::{chars_of, starts_with};
use crate::vector::Vector2;

verus! {

/// Width kept free at the right end of every page.
pub const RIGHT_PAD: u32 = 150;

/// Space between two items of a page.
pub const ITEM_GAP: u32 = 20;

/// One match placed on a page.
#[derive(Debug)]
pub struct PagerItem {
    /// The candidate's name.
    pub text: String,
    /// Where the candidate stands in the sorted candidate list.
    pub index: usize,
    /// Distance from the start of the page to the item.
    pub x_offset: u32,
    /// The item's measured width.
    pub width: u32,
}

impl PagerItem {
    pub fn get_text(&self) -> (r: &str)
        ensures
            r@ == self.text@,
    {
        self.text.as_str()
    }

    pub fn get_size(&self) -> (r: u32)
        ensures
            r == self.width,
    {
        self.width
    }
}

/// The positions in `entries` of the names that start with `q`, in order.
pub open spec fn matching(entries: Seq<Seq<char>>, q: Seq<char>) -> Seq<nat>
    decreases entries.len(),
{
    if entries.len() == 0 {
        Seq::empty()
    } else {
        let m = matching(entries.drop_last(), q);
        if q.is_prefix_of(entries.last()) {
            m.push((entries.len() - 1) as nat)
        } else {
            m
        }
    }
}

/// Greedy packing of items of widths `ws` into rows no wider than `limit`:
/// the closed pages, the open page and the running offset, each page given
/// as the offsets of its items.
pub open spec fn layout_state(ws: Seq<nat>, limit: int) -> (Seq<Seq<nat>>, Seq<nat>, nat)
    decreases ws.len(),
{
    if ws.len() == 0 {
        (Seq::empty(), Seq::empty(), 0)
    } else {
        let prev = layout_state(ws.drop_last(), limit);
        let w = ws.last();
        if prev.1.len() > 0 && w + prev.2 > limit {
            (prev.0.push(prev.1), seq![0nat], (w + ITEM_GAP) as nat)
        } else {
            (prev.0, prev.1.push(prev.2), (prev.2 + w + ITEM_GAP) as nat)
        }
    }
}

/// The pages of the greedy packing, each as the offsets of its items; an
/// item wider than the limit gets a page of its own.
pub open spec fn layout(ws: Seq<nat>, limit: int) -> Seq<Seq<nat>> {
    let s = layout_state(ws, limit);
    if s.1.len() > 0 {
        s.0.push(s.1)
    } else {
        s.0
    }
}

pub open spec fn item_offsets(pages: Seq<Seq<PagerItem>>) -> Seq<Seq<nat>> {
    pages.map_values(|p: Seq<PagerItem>| p.map_values(|it: PagerItem| it.x_offset as nat))
}

pub open spec fn item_widths(items: Seq<PagerItem>) -> Seq<nat> {
    items.map_values(|it: PagerItem| it.width as nat)
}

/// The page and the place within it of flattened position `sel`.
pub open spec fn locate(pages: Seq<Seq<PagerItem>>, sel: int) -> Option<(nat, nat)>
    decreases pages.len(),
{
    if pages.len() == 0 || sel < 0 {
        None
    } else if sel < pages[0].len() {
        Some((0nat, sel as nat))
    } else {
        match locate(pages.drop_first(), sel - pages[0].len()) {
            Some((p, i)) => Some((p + 1, i)),
            None => None,
        }
    }
}

proof fn lemma_layout_shape(ws: Seq<nat>, limit: int)
    ensures
        forall|p: int|
            0 <= p < layout_state(ws, limit).0.len() ==> #[trigger] layout_state(ws, limit).0[p].len()
                > 0,
        ws.len() == 0 ==> layout_state(ws, limit).2 == 0,
        ws.len() > 0 ==> layout_state(ws, limit).1.len() > 0,
        layout_state(ws, limit).1.len() == 0 ==> layout_state(ws, limit).2 == 0,
    decreases ws.len(),
{
    if ws.len() > 0 {
        lemma_layout_shape(ws.drop_last(), limit);
    }
}

proof fn lemma_locate(pages: Seq<Seq<PagerItem>>, sel: int)
    requires
        0 <= sel,
    ensures
        locate(pages, sel) is Some <==> sel < pages.flatten().len(),
        locate(pages, sel) matches Some((p, i)) ==> p < pages.len() && i < pages[p as int].len()
            && pages[p as int][i as int] == pages.flatten()[sel],
    decreases pages.len(),
{
    if pages.len() > 0 {
        assert(pages.flatten() == pages[0] + pages.drop_first().flatten());
        if sel >= pages[0].len() {
            lemma_locate(pages.drop_first(), sel - pages[0].len());
        }
    }
}

/// Item `k` of `items` is candidate `m[k]`, a position below `bound`, with the
/// width that `measure` gave for it.
pub open spec fn placed_at<E, F: Fn(&String) -> Result<u32, E>>(
    items: Seq<PagerItem>,
    m: Seq<nat>,
    bound: int,
    cands: Seq<String>,
    measure: &F,
    k: int,
) -> bool {
    &&& items[k].index == m[k]
    &&& m[k] < bound
    &&& bound <= cands.len()
    &&& items[k].text@ == cands[m[k] as int]@
    &&& measure.ensures((&cands[m[k] as int],), Ok(items[k].width))
}

/// Every item of `items` is placed as `placed_at` says.
pub open spec fn placed<E, F: Fn(&String) -> Result<u32, E>>(
    items: Seq<PagerItem>,
    m: Seq<nat>,
    bound: int,
    cands: Seq<String>,
    measure: &F,
) -> bool {
    &&& items.len() == m.len()
    &&& forall|k: int| 0 <= k < m.len() ==> #[trigger] placed_at(items, m, bound, cands, measure, k)
}

/// One move of the selection.
pub enum SelectionMove {
    Advance,
    Retreat,
}

/// Where a move takes the selection among `total` matches: one step, held
/// at the first and the last match, and at 0 when there are none.
pub open spec fn move_selection(sel: nat, total: nat, mv: SelectionMove) -> nat {
    match mv {
        SelectionMove::Advance => if total == 0 {
            0
        } else if sel + 1 < total {
            sel + 1
        } else {
            (total - 1) as nat
        },
        SelectionMove::Retreat => if sel > 0 {
            (sel - 1) as nat
        } else {
            0
        },
    }
}

/// The selection after a sequence of moves, applied in order.
pub open spec fn run_moves(sel: nat, total: nat, moves: Seq<SelectionMove>) -> nat
    decreases moves.len(),
{
    if moves.len() == 0 {
        sel
    } else {
        move_selection(run_moves(sel, total, moves.drop_last()), total, moves.last())
    }
}

/// A selection that names one of `total` matches, or is 0 when there are none.
pub open spec fn selection_ok(sel: nat, total: nat) -> bool {
    &&& total > 0 ==> sel < total
    &&& total == 0 ==> sel == 0
}

/// Every sequence of advances and retreats keeps the selection on one of the
/// matches, after each single move; with no matches it stays absent.
pub proof fn lemma_moves_keep_selection_in_bounds(sel: nat, total: nat, moves: Seq<SelectionMove>)
    requires
        selection_ok(sel, total),
    ensures
        forall|k: int|
            0 <= k <= moves.len() ==> selection_ok(#[trigger] run_moves(sel, total, moves.take(k)), total),
    decreases moves.len(),
{
    if moves.len() > 0 {
        lemma_moves_keep_selection_in_bounds(sel, total, moves.drop_last());
        assert forall|k: int| 0 <= k <= moves.len() implies selection_ok(
            #[trigger] run_moves(sel, total, moves.take(k)),
            total,
        ) by {
            if k < moves.len() {
                assert(moves.take(k) == moves.drop_last().take(k));
            } else {
                assert(moves.take(k) == moves);
                assert(moves.take(k).drop_last() == moves.drop_last().take(moves.len() - 1));
                assert(moves.drop_last().take(moves.len() - 1) == moves.drop_last());
                assert(selection_ok(run_moves(sel, total, moves.drop_last().take(moves.len() - 1)), total));
            }
        }
    }
}

/// The selected entry: its page and its place on that page.
pub struct PagerCursor<'i> {
    page_index: usize,
    page: &'i Vec<PagerItem>,
    item_index: usize,
    item: &'i PagerItem,
}

impl<'i> PagerCursor<'i> {
    pub closed spec fn spec_page_index(&self) -> nat {
        self.page_index as nat
    }

    pub closed spec fn spec_item_index(&self) -> nat {
        self.item_index as nat
    }

    pub closed spec fn spec_page(&self) -> Seq<PagerItem> {
        self.page@
    }

    pub closed spec fn spec_item(&self) -> PagerItem {
        *self.item
    }

    pub fn page_index(&self) -> (r: usize)
        ensures
            r == self.spec_page_index(),
    {
        self.page_index
    }

    pub fn page(&self) -> (r: &'i Vec<PagerItem>)
        ensures
            r@ == self.spec_page(),
    {
        self.page
    }

    pub fn item_index(&self) -> (r: usize)
        ensures
            r == self.spec_item_index(),
    {
        self.item_index
    }

    pub fn item(&self) -> (r: &'i PagerItem)
        ensures
            *r == self.spec_item(),
    {
        self.item
    }
}

/// The sorted candidate names, the pages of those that match the last query,
/// and a selection over the flattened pages.
pub struct Pager {
    provided_entries: Vec<String>,
    computed_entries: Vec<Vec<PagerItem>>,
    caret_position: usize,
    last_matched: Option<String>,
    count: usize,
    position: Vector2<i32>,
    size: Vector2<u32>,
}

impl Pager {
    /// The candidate names, sorted.
    pub closed spec fn candidates(&self) -> Seq<String> {
        self.provided_entries@
    }

    pub open spec fn entries(&self) -> Seq<Seq<char>> {
        self.candidates().map_values(|s: String| s@)
    }

    /// The pages of matches, in order, each as its items in order.
    pub closed spec fn pages(&self) -> Seq<Seq<PagerItem>> {
        self.computed_entries@.map_values(|p: Vec<PagerItem>| p@)
    }

    /// The flattened position of the selected match.
    pub closed spec fn selection(&self) -> nat {
        self.caret_position as nat
    }

    /// The query the pages were computed for, if any.
    pub closed spec fn last_query(&self) -> Option<Seq<char>> {
        match self.last_matched {
            Some(s) => Some(s@),
            None => None,
        }
    }

    /// The width of the area the pages are laid out in.
    pub closed spec fn width(&self) -> nat {
        self.size.x as nat
    }

    pub closed spec fn spec_position(&self) -> (int, int) {
        (self.position.x as int, self.position.y as int)
    }

    pub closed spec fn spec_height(&self) -> nat {
        self.size.y as nat
    }

    /// This pager with the selection moved to `sel`.
    pub closed spec fn with_selection(self, sel: nat) -> Pager {
        Pager { caret_position: sel as usize, ..self }
    }

    /// Moving the selection changes the selection alone.
    pub proof fn lemma_with_selection(p: Pager, sel: nat)
        requires
            sel <= usize::MAX,
        ensures
            p.with_selection(sel).selection() == sel,
            p.with_selection(sel).pages() == p.pages(),
            p.with_selection(sel).candidates() == p.candidates(),
            p.with_selection(sel).last_query() == p.last_query(),
            p.with_selection(sel).width() == p.width(),
            p.with_selection(sel).spec_height() == p.spec_height(),
            p.with_selection(sel).spec_position() == p.spec_position(),
            p.wf() && selection_ok(sel, p.total()) ==> p.with_selection(sel).wf(),
    {
    }

    /// A recompute for `q` failed with `e`: `q` was not the cached query, and
    /// `e` is what `measure` may give for a candidate that starts with `q`.
    pub open spec fn measure_failed<E, F: Fn(&String) -> Result<u32, E>>(
        p: Pager,
        q: Seq<char>,
        measure: &F,
        e: E,
    ) -> bool {
        &&& p.last_query() != Some(q)
        &&& exists|i: int|
            0 <= i < p.candidates().len() && q.is_prefix_of(p.candidates()[i]@)
                && #[trigger] measure.ensures((&p.candidates()[i],), Err(e))
    }

    pub proof fn lemma_with_own_selection(p: Pager)
        ensures
            p.with_selection(p.selection()) == p,
    {
    }

    pub closed spec fn count_ok(&self) -> bool {
        self.count == self.pages().flatten().len()
    }

    /// The number of matches over all pages.
    pub open spec fn total(&self) -> nat {
        self.pages().flatten().len()
    }

    /// The matches, in page order and in order within each page.
    pub open spec fn items(&self) -> Seq<PagerItem> {
        self.pages().flatten()
    }

    /// The width left for a page's items.
    pub open spec fn limit(&self) -> int {
        self.width() - RIGHT_PAD
    }

    /// The selected match, if there is one.
    pub open spec fn selected(&self) -> Option<PagerItem> {
        if self.selection() < self.total() {
            Some(self.items()[self.selection() as int])
        } else {
            None
        }
    }

    pub open spec fn wf(&self) -> bool {
        &&& self.count_ok()
        &&& forall|p: int| 0 <= p < self.pages().len() ==> #[trigger] self.pages()[p].len() > 0
        &&& self.total() == 0 ==> self.selection() == 0
        &&& self.total() > 0 ==> self.selection() < self.total()
    }

    /// The pages show, for query `q`, every candidate that starts with `q`, in
    /// candidate order, packed greedily into rows of `limit()` by their widths.
    pub open spec fn shows(&self, q: Seq<char>) -> bool {
        let m = matching(self.entries(), q);
        &&& self.items().len() == m.len()
        &&& forall|k: int|
            0 <= k < m.len() ==> (#[trigger] self.items()[k]).index == m[k]
                && self.items()[k].text@ == self.entries()[m[k] as int]
        &&& item_offsets(self.pages()) == layout(item_widths(self.items()), self.limit())
    }

    /// What a successful recompute for `q` leaves behind, starting from `before`:
    /// nothing changed when `q` is the cached query; otherwise the pages of `q`,
    /// with `q` cached and the selection back at the first match.
    pub open spec fn recomputed(before: Pager, after: Pager, q: Seq<char>) -> bool {
        if before.last_query() == Some(q) {
            after == before
        } else {
            &&& after.candidates() == before.candidates()
            &&& after.width() == before.width()
            &&& after.spec_height() == before.spec_height()
            &&& after.spec_position() == before.spec_position()
            &&& after.last_query() == Some(q)
            &&& after.selection() == 0
            &&& after.shows(q)
        }
    }

    /// Recomputing a second time for the same query changes nothing: the
    /// pages are exactly those of the first recompute.
    pub proof fn lemma_recompute_idempotent(p0: Pager, p1: Pager, p2: Pager, q: Seq<char>)
        requires
            Pager::recomputed(p0, p1, q),
            Pager::recomputed(p1, p2, q),
        ensures
            p2 == p1,
            p2.pages() == p1.pages(),
    {
    }

    /// Builds the index over `entries`, sorted case-insensitively; no pages yet.
    pub fn new(entries: Vec<String>) -> (r: Self)
        ensures
            r.wf(),
            r.candidates().to_multiset() == entries@.to_multiset(),
            crate::candidates::sorted_by_folded_name(r.candidates()),
            r.pages().len() == 0,
            r.selection() == 0,
            r.last_query() is None,
            r.width() == 0,
            r.spec_height() == 0,
            r.spec_position() == (0int, 0int),
    {
        let provided_entries = sort_candidates(entries);
        let r = Pager {
            provided_entries,
            computed_entries: Vec::new(),
            caret_position: 0,
            last_matched: None,
            count: 0,
            position: Vector2::new(0, 0),
            size: Vector2::new(0, 0),
        };
        assert(r.pages() =~= Seq::<Seq<PagerItem>>::empty());
        r
    }

    pub fn set_position(&mut self, position: Vector2<i32>)
        requires
            old(self).wf(),
        ensures
            final(self).spec_position() == (position.x as int, position.y as int),
            final(self).candidates() == old(self).candidates(),
            final(self).pages() == old(self).pages(),
            final(self).selection() == old(self).selection(),
            final(self).last_query() == old(self).last_query(),
            final(self).width() == old(self).width(),
            final(self).spec_height() == old(self).spec_height(),
            final(self).wf(),
    {
        self.position.set_x(position.x());
        self.position.set_y(position.y());
    }

    /// Sets the area's size. The pages of the cached query keep the width
    /// they were laid out for; the next query change lays out in the new one.
    pub fn set_size(&mut self, size: Vector2<u32>)
        requires
            old(self).wf(),
        ensures
            final(self).width() == size.x,
            final(self).spec_height() == size.y,
            final(self).candidates() == old(self).candidates(),
            final(self).pages() == old(self).pages(),
            final(self).selection() == old(self).selection(),
            final(self).last_query() == old(self).last_query(),
            final(self).spec_position() == old(self).spec_position(),
            final(self).wf(),
    {
        self.size.set_x(size.x());
        self.size.set_y(size.y());
    }

    pub fn position(&self) -> (r: Vector2<i32>)
        ensures
            (r.x as int, r.y as int) == self.spec_position(),
    {
        self.position
    }

    pub fn size(&self) -> (r: Vector2<u32>)
        ensures
            r.x == self.width(),
            r.y == self.spec_height(),
    {
        self.size
    }

    /// The sorted candidate names.
    pub fn provided_entries(&self) -> (r: &Vec<String>)
        ensures
            r@ == self.candidates(),
    {
        &self.provided_entries
    }

    /// The pages of matches.
    pub fn computed_entries(&self) -> (r: &Vec<Vec<PagerItem>>)
        ensures
            r@.map_values(|p: Vec<PagerItem>| p@) == self.pages(),
    {
        &self.computed_entries
    }

    /// The flattened position of the selected match.
    pub fn caret_position(&self) -> (r: usize)
        ensures
            r == self.selection(),
    {
        self.caret_position
    }

    /// The number of pages.
    pub fn page_count(&self) -> (r: usize)
        ensures
            r == self.pages().len(),
    {
        self.computed_entries.len()
    }

    /// Recomputes the pages for query `text`: the candidates that start with
    /// `text` (case-sensitive), in candidate order, each measured once by
    /// `measure` and packed greedily into pages of width `limit()`. When `text`
    /// is the cached query, nothing happens and `measure` is not called. A
    /// failed measurement is returned and leaves the pager as it was.
    pub fn compute_text<E, F: Fn(&String) -> Result<u32, E>>(&mut self, text: &str, measure: &F) -> (r:
        Result<(), E>)
        requires
            old(self).wf(),
            old(self).last_query() != Some(text@) ==> forall|s: &String| #[trigger]
                measure.requires((s,)),
        ensures
            final(self).wf(),
            old(self).last_query() == Some(text@) ==> r is Ok,
            r is Ok ==> Pager::recomputed(*old(self), *final(self), text@),
            r is Ok && old(self).last_query() != Some(text@) ==> forall|k: int|
                0 <= k < final(self).total() ==> measure.ensures(
                    (&final(self).candidates()[(#[trigger] final(self).items()[k]).index as int],),
                    Ok(final(self).items()[k].width),
                ),
            r is Err ==> *final(self) == *old(self),
            r matches Err(e) ==> Pager::measure_failed(*old(self), text@, measure, e),
    {
        let query: String = text.to_owned();
        if let Some(last) = &self.last_matched {
            if *last == query {
                return Ok(());
            }
        }
        let q = chars_of(text);
        let ghost entries = self.entries();
        let ghost limit = self.limit();
        let mut pages: Vec<Vec<PagerItem>> = Vec::new();
        let mut current: Vec<PagerItem> = Vec::new();
        let mut x: u64 = 0;
        let mut count: usize = 0;
        let ghost mut gpages: Seq<Seq<PagerItem>> = Seq::empty();
        let mut i: usize = 0;
        assert(entries.take(0) =~= Seq::<Seq<char>>::empty());
        assert(old(self).last_query() != Some(text@));
        assert(gpages.push(current@).flatten() =~= Seq::<PagerItem>::empty()) by {
            gpages.lemma_flatten_push(current@);
        }
        assert(item_offsets(gpages) =~= Seq::<Seq<nat>>::empty());
        assert(item_widths(Seq::<PagerItem>::empty()) =~= Seq::<nat>::empty());
        while i < self.provided_entries.len()
            invariant
                *self == *old(self),
                self.wf(),
                old(self).last_query() != Some(text@),
                forall|s: &String| #[trigger] measure.requires((s,)),
                q@ == text@,
                entries == self.entries(),
                limit == self.limit(),
                i <= entries.len(),
                gpages == pages@.map_values(|p: Vec<PagerItem>| p@),
                forall|p: int| 0 <= p < gpages.len() ==> #[trigger] gpages[p].len() > 0,
                current@.len() == 0 ==> x == 0,
                x <= u32::MAX + ITEM_GAP,
                count == gpages.push(current@).flatten().len(),
                count <= i,
                placed(
                    gpages.push(current@).flatten(),
                    matching(entries.take(i as int), text@),
                    i as int,
                    self.candidates(),
                    measure,
                ),
                layout_state(item_widths(gpages.push(current@).flatten()), limit) == (
                    item_offsets(gpages),
                    current@.map_values(|it: PagerItem| it.x_offset as nat),
                    x as nat,
                ),
            decreases entries.len() - i,
        {
            let entry = &self.provided_entries[i];
            let name = chars_of(entry.as_str());
            let ghost m = matching(entries.take(i as int), text@);
            let ghost all = gpages.push(current@).flatten();
            assert(entries.take(i + 1).drop_last() =~= entries.take(i as int));
            assert(entries.take(i + 1).last() == entries[i as int]);
            if starts_with(&name, &q) {
                let w = match measure(entry) {
                    Ok(w) => w,
                    Err(e) => {
                        return Err(e);
                    },
                };
                let ghost cur_old = current@;
                let closing = current.len() > 0 && (w as u64) + x + (RIGHT_PAD as u64) > (
                self.size.x as u64);
                if closing {
                    pages.push(current);
                    proof {
                        assert(pages@.map_values(|p: Vec<PagerItem>| p@) =~= gpages.push(cur_old));
                        gpages = gpages.push(cur_old);
                    }
                    current = Vec::new();
                    x = 0;
                }
                let item = PagerItem { text: entry.clone(), index: i, x_offset: x as u32, width: w };
                let ghost cur_mid = current@;
                current.push(item);
                x = x + w as u64 + ITEM_GAP as u64;
                count = count + 1;
                proof {
                    let all2 = gpages.push(current@).flatten();
                    gpages.lemma_flatten_push(current@);
                    gpages.lemma_flatten_push(cur_mid);
                    if closing {
                        gpages.drop_last().lemma_flatten_push(cur_old);
                        assert(gpages.drop_last().push(cur_old) == gpages);
                        assert(cur_mid =~= Seq::<PagerItem>::empty());
                        assert(all2 =~= all.push(item));
                    } else {
                        assert(cur_mid == cur_old);
                        assert(all2 =~= all.push(item));
                    }
                    assert(matching(entries.take(i + 1), text@) == m.push(i as nat));
                    assert(item_widths(all2).drop_last() =~= item_widths(all));
                    assert(item_widths(all2).last() == w as nat);
                    lemma_layout_shape(item_widths(all), limit);
                    if closing {
                        assert(item_offsets(gpages) =~= item_offsets(gpages.drop_last()).push(
                            cur_old.map_values(|it: PagerItem| it.x_offset as nat),
                        ));
                        assert(current@.map_values(|it: PagerItem| it.x_offset as nat) =~= seq![0nat]);
                    } else {
                        assert(current@.map_values(|it: PagerItem| it.x_offset as nat) =~= cur_old.map_values(
                            |it: PagerItem| it.x_offset as nat,
                        ).push(item.x_offset as nat));
                    }
                    let m2 = matching(entries.take(i + 1), text@);
                    assert forall|k: int| 0 <= k < m2.len() implies #[trigger] placed_at(
                        all2,
                        m2,
                        i + 1,
                        self.candidates(),
                        measure,
                        k,
                    ) by {
                        if k < m.len() {
                            assert(placed_at(all, m, i as int, self.candidates(), measure, k));
                            assert(all2[k] == all[k]);
                        } else {
                            assert(all2[k] == item);
                            assert(self.candidates()[i as int] == *entry);
                            assert(measure.ensures((entry,), Ok(w)));
                        }
                    }
                }
            } else {
                assert(matching(entries.take(i + 1), text@) == m);
                assert forall|k: int| 0 <= k < m.len() implies #[trigger] placed_at(
                    all,
                    m,
                    i + 1,
                    self.candidates(),
                    measure,
                    k,
                ) by {
                    assert(placed_at(all, m, i as int, self.candidates(), measure, k));
                }
            }
            i = i + 1;
        }
        assert(entries.take(i as int) =~= entries);
        let ghost all = gpages.push(current@).flatten();
        proof {
            gpages.lemma_flatten_push(current@);
            lemma_layout_shape(item_widths(all), limit);
        }
        if current.len() > 0 {
            let ghost cur = current@;
            pages.push(current);
            assert(pages@.map_values(|p: Vec<PagerItem>| p@) =~= gpages.push(cur));
        } else {
            assert(gpages.push(current@).flatten() =~= gpages.flatten());
            assert(item_widths(all).len() == 0 ==> gpages.len() == 0);
        }
        self.last_matched = Some(query);
        self.computed_entries = pages;
        self.caret_position = 0;
        self.count = count;
        assert(self.items() == all);
        assert(self.candidates() == old(self).candidates());
        proof {
            let mfull = matching(entries, text@);
            let cands = self.candidates();
            assert forall|k: int| 0 <= k < mfull.len() implies (#[trigger] self.items()[k]).index
                == mfull[k] && self.items()[k].text@ == entries[mfull[k] as int] by {
                assert(placed_at(all, mfull, entries.len() as int, cands, measure, k));
            }
            assert forall|k: int| 0 <= k < self.total() implies measure.ensures(
                (&cands[(#[trigger] self.items()[k]).index as int],),
                Ok(self.items()[k].width),
            ) by {
                assert(placed_at(all, mfull, entries.len() as int, cands, measure, k));
            }
            assert(self.last_query() == Some(text@));
            assert(item_offsets(self.pages()) == layout(item_widths(self.items()), self.limit()));
            assert(self.shows(text@));
        }
        Ok(())
    }

    /// Moves the selection one match forward, stopping at the last one; does
    /// nothing when there are no matches.
    pub fn advance_caret(&mut self)
        requires
            old(self).wf(),
        ensures
            final(self).selection() == move_selection(
                old(self).selection(),
                old(self).total(),
                SelectionMove::Advance,
            ),
            *final(self) == old(self).with_selection(final(self).selection()),
            final(self).candidates() == old(self).candidates(),
            final(self).pages() == old(self).pages(),
            final(self).last_query() == old(self).last_query(),
            final(self).width() == old(self).width(),
            final(self).spec_height() == old(self).spec_height(),
            final(self).spec_position() == old(self).spec_position(),
            final(self).wf(),
    {
        if self.count > 0 && self.caret_position < self.count - 1 {
            self.caret_position = self.caret_position + 1;
        }
    }

    /// Moves the selection one match back, stopping at the first one.
    pub fn retreat_caret(&mut self)
        requires
            old(self).wf(),
        ensures
            final(self).selection() == move_selection(
                old(self).selection(),
                old(self).total(),
                SelectionMove::Retreat,
            ),
            *final(self) == old(self).with_selection(final(self).selection()),
            final(self).candidates() == old(self).candidates(),
            final(self).pages() == old(self).pages(),
            final(self).last_query() == old(self).last_query(),
            final(self).width() == old(self).width(),
            final(self).spec_height() == old(self).spec_height(),
            final(self).spec_position() == old(self).spec_position(),
            final(self).wf(),
    {
        if self.caret_position > 0 {
            self.caret_position = self.caret_position - 1;
        }
    }

    /// Right advances the selection, Left moves it back; other keys do nothing.
    pub fn keycode_interaction(&mut self, keycode: Keycode)
        requires
            old(self).wf(),
        ensures
            *final(self) == old(self).with_selection(
                match keycode {
                    Keycode::Right => move_selection(
                        old(self).selection(),
                        old(self).total(),
                        SelectionMove::Advance,
                    ),
                    Keycode::Left => move_selection(
                        old(self).selection(),
                        old(self).total(),
                        SelectionMove::Retreat,
                    ),
                    _ => old(self).selection(),
                },
            ),
            final(self).selection() == match keycode {
                Keycode::Right => move_selection(
                    old(self).selection(),
                    old(self).total(),
                    SelectionMove::Advance,
                ),
                Keycode::Left => move_selection(
                    old(self).selection(),
                    old(self).total(),
                    SelectionMove::Retreat,
                ),
                _ => old(self).selection(),
            },
            final(self).pages() == old(self).pages(),
            final(self).candidates() == old(self).candidates(),
            final(self).last_query() == old(self).last_query(),
            final(self).width() == old(self).width(),
            final(self).spec_height() == old(self).spec_height(),
            final(self).spec_position() == old(self).spec_position(),
            final(self).wf(),
    {
        proof {
            Pager::lemma_with_own_selection(*self);
        }
        match keycode {
            Keycode::Right => self.advance_caret(),
            Keycode::Left => self.retreat_caret(),
            _ => {},
        }
    }

    pub fn is_caret_at_start(&self) -> (r: bool)
        ensures
            r == (self.selection() == 0),
    {
        self.caret_position == 0
    }

    /// The page and item of the selected match, or `None` when nothing matches.
    pub fn get_selected_entry(&self) -> (r: Option<PagerCursor<'_>>)
        requires
            self.wf(),
        ensures
            r is Some <==> self.selected() is Some,
            r matches Some(c) ==> {
                &&& locate(self.pages(), self.selection() as int) == Some(
                    (c.spec_page_index(), c.spec_item_index()),
                )
                &&& c.spec_page() == self.pages()[c.spec_page_index() as int]
                &&& Some(c.spec_item()) == self.selected()
            },
    {
        PagerCursor::from_instance(self)
    }
}

impl<'i> PagerCursor<'i> {
    fn from_instance(instance: &'i Pager) -> (r: Option<Self>)
        requires
            instance.wf(),
        ensures
            r is Some <==> instance.selected() is Some,
            r matches Some(c) ==> {
                &&& locate(instance.pages(), instance.selection() as int) == Some(
                    (c.spec_page_index(), c.spec_item_index()),
                )
                &&& c.spec_page() == instance.pages()[c.spec_page_index() as int]
                &&& Some(c.spec_item()) == instance.selected()
            },
    {
        let ghost pages = instance.pages();
        let sel = instance.caret_position;
        proof {
            lemma_locate(pages, sel as int);
        }
        let mut count: usize = 0;
        let mut page_index: usize = 0;
        assert(pages.take(0) =~= Seq::<Seq<PagerItem>>::empty());
        assert(pages.skip(0) =~= pages);
        while page_index < instance.computed_entries.len()
            invariant
                pages == instance.pages(),
                sel == instance.selection(),
                page_index <= pages.len(),
                count == pages.take(page_index as int).flatten().len(),
                count <= sel,
                pages.take(page_index as int).flatten().len() + pages.skip(
                    page_index as int,
                ).flatten().len() == pages.flatten().len(),
                locate(pages, sel as int) == match locate(
                    pages.skip(page_index as int),
                    sel - count,
                ) {
                    Some((p, i)) => Some(((p + page_index) as nat, i)),
                    None => None,
                },
            decreases pages.len() - page_index,
        {
            let page = &instance.computed_entries[page_index];
            let ghost rest = pages.skip(page_index as int);
            assert(rest[0] == page@);
            assert(rest.drop_first() == pages.skip(page_index + 1));
            if sel - count < page.len() {
                let item_index = sel - count;
                proof {
                    lemma_locate(pages, sel as int);
                }
                return Some(PagerCursor { page_index, page, item_index, item: &page[item_index] });
            }
            proof {
                assert(pages.take(page_index + 1) == pages.take(page_index as int).push(page@));
                pages.take(page_index as int).lemma_flatten_push(page@);
                assert(rest.flatten() == rest[0] + rest.drop_first().flatten());
            }
            count = count + page.len();
            page_index = page_index + 1;
        }
        proof {
            assert(pages.skip(page_index as int).len() == 0);
            assert(pages.take(page_index as int) == pages);
        }
        None
    }
}

} // verus!
