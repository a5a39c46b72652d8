//! Preset browsing state: an ordered list with a cursor and a category
//! filter, driven by the main encoder (turn scrolls, Shift+turn cycles the
//! category, click loads).

use vstd::prelude::*;

use crate::text::{before, opt_is, same};

verus! {

/// One browsable preset (library row projected for browsing/loading).
#[derive(Debug, Clone, PartialEq)]
pub struct BrowseItem {
    pub id: i64,
    pub name: String,
    pub category: Option<String>,
    pub path: Option<String>,
    pub load_key: Option<String>,
}

/// What a [`BrowseItem`] holds.
pub struct BrowseView {
    pub id: i64,
    pub name: Seq<char>,
    pub category: Option<Seq<char>>,
    pub path: Option<Seq<char>>,
    pub load_key: Option<Seq<char>>,
}

impl View for BrowseItem {
    type V = BrowseView;

    open spec fn view(&self) -> BrowseView {
        BrowseView {
            id: self.id,
            name: self.name@,
            category: crate::text::opt_text(self.category),
            path: crate::text::opt_text(self.path),
            load_key: crate::text::opt_text(self.load_key),
        }
    }
}

/// What a list of items holds.
pub open spec fn items_view(items: Seq<BrowseItem>) -> Seq<BrowseView> {
    items.map_values(|i: BrowseItem| i@)
}

/// What an optional item holds.
pub open spec fn item_view(item: Option<&BrowseItem>) -> Option<BrowseView> {
    match item {
        Some(i) => Some(i@),
        None => None,
    }
}

/// The state of a [`Browser`].
#[verifier::ext_equal]
pub struct BrowserView {
    pub items: Seq<BrowseView>,
    /// Every category once, in order.
    pub categories: Seq<Seq<char>>,
    /// 0 = all categories, otherwise 1-based index into `categories`.
    pub category_index: int,
    pub cursor: int,
}

/// The indices of the items that a category filter shows, in order.
pub open spec fn shown_items(items: Seq<BrowseView>, category: Option<Seq<char>>) -> Seq<int>
    decreases items.len(),
{
    if items.len() == 0 {
        Seq::empty()
    } else {
        let front = shown_items(items.drop_last(), category);
        if category is None || items.last().category == category {
            front.push(items.len() - 1)
        } else {
            front
        }
    }
}

/// Strictly increasing texts.
pub open spec fn ascending(texts: Seq<Seq<char>>) -> bool {
    forall|i: int, j: int|
        0 <= i < j < texts.len() ==> crate::text::precedes(#[trigger] texts[i], #[trigger] texts[j])
}

/// Whether some item has the category.
pub open spec fn has_category(items: Seq<BrowseView>, category: Seq<char>) -> bool {
    exists|i: int| 0 <= i < items.len() && (#[trigger] items[i]).category == Some(category)
}

impl BrowserView {
    /// The category filter, if there is one.
    pub open spec fn category(self) -> Option<Seq<char>> {
        if self.category_index == 0 {
            None
        } else {
            Some(self.categories[self.category_index - 1])
        }
    }

    /// The name of the filter.
    pub open spec fn category_name(self) -> Seq<char> {
        match self.category() {
            Some(name) => name,
            None => "All"@,
        }
    }

    /// The indices of the items shown.
    pub open spec fn filtered(self) -> Seq<int> {
        shown_items(self.items, self.category())
    }

    /// The categories are those of the items, each once and in order; the
    /// filter is one of them or none; the cursor is on a shown item if
    /// there is one.
    pub open spec fn valid(self) -> bool {
        &&& ascending(self.categories)
        &&& forall|c: Seq<char>| #[trigger]
            self.categories.contains(c) <==> has_category(self.items, c)
        &&& 0 <= self.category_index <= self.categories.len()
        &&& 0 <= self.cursor < self.filtered().len() || self.cursor == 0
    }

    /// The item under the cursor.
    pub open spec fn current(self) -> Option<BrowseView> {
        if 0 <= self.cursor < self.filtered().len() {
            Some(self.items[self.filtered()[self.cursor]])
        } else {
            None
        }
    }

    /// The state after a turn by `delta`: one step in its direction, with
    /// wrap-around.
    pub open spec fn scrolled(self, delta: i8) -> BrowserView {
        let len = self.filtered().len() as int;
        if len == 0 || delta == 0 {
            self
        } else if delta > 0 {
            BrowserView { cursor: (self.cursor + 1) % len, ..self }
        } else {
            BrowserView { cursor: (self.cursor + len - 1) % len, ..self }
        }
    }

    /// The state after a category turn by `delta`: the next filter in its
    /// direction, with wrap-around, and the cursor at the top.
    pub open spec fn cycled(self, delta: i8) -> BrowserView {
        let count = self.categories.len() as int + 1;
        if delta == 0 || self.categories.len() == 0 {
            self
        } else if delta > 0 {
            BrowserView {
                category_index: (self.category_index + 1) % count,
                cursor: 0,
                ..self
            }
        } else {
            BrowserView {
                category_index: (self.category_index + count - 1) % count,
                cursor: 0,
                ..self
            }
        }
    }
}

/// Cursor + category filter over a list of presets. The list order is
/// whatever the caller provides (typically category, then name).
pub struct Browser {
    items: Vec<BrowseItem>,
    categories: Vec<String>,
    category_index: usize,
    filtered: Vec<usize>,
    cursor: usize,
}

impl View for Browser {
    type V = BrowserView;

    closed spec fn view(&self) -> BrowserView {
        BrowserView {
            items: items_view(self.items@),
            categories: crate::text::texts(self.categories@),
            category_index: self.category_index as int,
            cursor: self.cursor as int,
        }
    }
}

spec fn as_ints(indices: Seq<usize>) -> Seq<int> {
    indices.map_values(|i: usize| i as int)
}

proof fn lemma_shown_items(items: Seq<BrowseView>, category: Option<Seq<char>>)
    ensures
        shown_items(items, category).len() <= items.len(),
        forall|k: int|
            0 <= k < shown_items(items, category).len() ==> 0 <= #[trigger] shown_items(
                items,
                category,
            )[k] < items.len() && (category is None || items[shown_items(
                items,
                category,
            )[k]].category == category),
    decreases items.len(),
{
    if items.len() > 0 {
        let rest = items.drop_last();
        lemma_shown_items(rest, category);
        let front = shown_items(rest, category);
        let all = shown_items(items, category);
        assert forall|k: int| 0 <= k < all.len() implies 0 <= #[trigger] all[k] < items.len() && (
        category is None || items[all[k]].category == category) by {
            if k < front.len() {
                assert(all[k] == front[k]);
                assert(rest[front[k]] == items[front[k]]);
            }
        }
    }
}

/// A browser in order has a valid state.
pub proof fn lemma_well_formed(browser: Browser)
    requires
        browser.well_formed(),
    ensures
        browser@.valid(),
{
}

impl Browser {
    /// The browser's own bookkeeping agrees with its state.
    pub closed spec fn well_formed(&self) -> bool {
        &&& self@.valid()
        &&& as_ints(self.filtered@) == self@.filtered()
    }

    /// A browser over `items`, unfiltered, with the cursor at the top.
    pub fn new(items: Vec<BrowseItem>) -> (browser: Self)
        ensures
            browser.well_formed(),
            browser@.valid(),
            browser@.items == items_view(items@),
            browser@.category_index == 0,
            browser@.cursor == 0,
    {
        let categories = sorted_categories(&items);
        let mut browser = Browser {
            items,
            categories,
            category_index: 0,
            filtered: Vec::new(),
            cursor: 0,
        };
        browser.rebuild();
        browser
    }

    /// Whether the filter shows nothing.
    pub fn is_empty(&self) -> (r: bool)
        requires
            self.well_formed(),
        ensures
            r == (self@.filtered().len() == 0),
    {
        self.filtered.len() == 0
    }

    fn rebuild(&mut self)
        requires
            old(self).category_index <= old(self).categories@.len(),
            ascending(old(self)@.categories),
            forall|c: Seq<char>| #[trigger]
                old(self)@.categories.contains(c) <==> has_category(old(self)@.items, c),
        ensures
            final(self).well_formed(),
            final(self)@ == (BrowserView { cursor: 0, ..old(self)@ }),
    {
        let ghost category = self@.category();
        let mut filtered: Vec<usize> = Vec::new();
        let mut i: usize = 0;
        while i < self.items.len()
            invariant
                i <= self.items@.len(),
                *self == *old(self),
                self.category_index <= self.categories@.len(),
                category == self@.category(),
                as_ints(filtered@) == shown_items(self@.items.take(i as int), category),
            decreases self.items@.len() - i,
        {
            assert(self@.items.take(i + 1).drop_last() =~= self@.items.take(i as int));
            let hit = if self.category_index == 0 {
                true
            } else {
                opt_is(
                    &self.items[i].category,
                    self.categories[self.category_index - 1].as_str(),
                )
            };
            if hit {
                let ghost old_list = as_ints(filtered@);
                filtered.push(i);
                assert(as_ints(filtered@) =~= old_list.push(i as int));
            }
            i += 1;
        }
        assert(self@.items.take(i as int) =~= self@.items);
        self.filtered = filtered;
        self.cursor = 0;
        assert(self@ =~= (BrowserView { cursor: 0, ..old(self)@ }));
    }

    /// The name of the category filter, `All` where there is none.
    pub fn category_name(&self) -> (name: &str)
        requires
            self.well_formed(),
        ensures
            name@ == self@.category_name(),
    {
        if self.category_index == 0 {
            "All"
        } else {
            self.categories[self.category_index - 1].as_str()
        }
    }

    /// Moves the cursor by the sign of `delta`, wrapping. Returns the newly
    /// selected item. Zero deltas (the relative encoder's idle half of each
    /// detent pair) do nothing.
    pub fn scroll(&mut self, delta: i8) -> (item: Option<&BrowseItem>)
        requires
            old(self).well_formed(),
        ensures
            final(self).well_formed(),
            final(self)@ == old(self)@.scrolled(delta),
            item_view(item) == if delta == 0 {
                None::<BrowseView>
            } else {
                old(self)@.scrolled(delta).current()
            },
    {
        if self.filtered.len() == 0 || delta == 0 {
            return None;
        }
        let len: usize = self.filtered.len();
        proof {
            assert(as_ints(self.filtered@).len() == len);
        }
        let ghost cursor = self.cursor as int;
        if delta > 0 {
            if self.cursor + 1 == len {
                self.cursor = 0;
                assert((cursor + 1) % (len as int) == 0) by (nonlinear_arith)
                    requires
                        cursor + 1 == len,
                        len > 0,
                ;
            } else {
                self.cursor = self.cursor + 1;
                assert((cursor + 1) % (len as int) == cursor + 1) by (nonlinear_arith)
                    requires
                        0 <= cursor + 1 < len,
                ;
            }
        } else {
            if self.cursor == 0 {
                self.cursor = len - 1;
                assert((cursor + len - 1) % (len as int) == len - 1) by (nonlinear_arith)
                    requires
                        cursor == 0,
                        len > 0,
                ;
            } else {
                self.cursor = self.cursor - 1;
                assert((cursor + len - 1) % (len as int) == cursor - 1) by (nonlinear_arith)
                    requires
                        0 < cursor < len,
                ;
            }
        }
        assert(self@ =~= old(self)@.scrolled(delta));
        self.current()
    }

    /// Cycles the category filter by the sign of `delta` (position 0 is
    /// "All"), resetting the cursor. Returns the new category name.
    pub fn cycle_category(&mut self, delta: i8) -> (name: &str)
        requires
            old(self).well_formed(),
        ensures
            final(self).well_formed(),
            final(self)@ == old(self)@.cycled(delta),
            name@ == old(self)@.cycled(delta).category_name(),
    {
        if delta != 0 && self.categories.len() > 0 {
            let ghost at = self.category_index as int;
            let ghost count = self.categories@.len() as int + 1;
            if delta > 0 {
                if self.category_index == self.categories.len() {
                    self.category_index = 0;
                    assert((at + 1) % count == 0) by (nonlinear_arith)
                        requires
                            at + 1 == count,
                            count > 0,
                    ;
                } else {
                    self.category_index = self.category_index + 1;
                    assert((at + 1) % count == at + 1) by (nonlinear_arith)
                        requires
                            0 <= at + 1 < count,
                    ;
                }
            } else {
                if self.category_index == 0 {
                    self.category_index = self.categories.len();
                    assert((at + count - 1) % count == count - 1) by (nonlinear_arith)
                        requires
                            at == 0,
                            count > 0,
                    ;
                } else {
                    self.category_index = self.category_index - 1;
                    assert((at + count - 1) % count == at - 1) by (nonlinear_arith)
                        requires
                            0 < at < count,
                    ;
                }
            }
            self.rebuild();
            assert(self@ =~= old(self)@.cycled(delta));
        }
        self.category_name()
    }

    /// The item under the cursor.
    pub fn current(&self) -> (item: Option<&BrowseItem>)
        requires
            self.well_formed(),
        ensures
            item_view(item) == self@.current(),
    {
        proof {
            lemma_shown_items(self@.items, self@.category());
            assert(as_ints(self.filtered@).len() == self.filtered@.len());
        }
        if self.cursor < self.filtered.len() {
            let i: usize = self.filtered[self.cursor];
            assert(as_ints(self.filtered@)[self.cursor as int] == i);
            Some(&self.items[i])
        } else {
            None
        }
    }

    /// (1-based position, filtered length).
    pub fn position(&self) -> (p: (usize, usize))
        requires
            self.well_formed(),
        ensures
            p.0 == self@.cursor + 1,
            p.1 == self@.filtered().len(),
    {
        assert(as_ints(self.filtered@).len() == self.filtered@.len());
        let len: usize = self.filtered.len();
        (self.cursor + 1, len)
    }
}

/// The categories of items, each once and in order.
fn sorted_categories(items: &Vec<BrowseItem>) -> (categories: Vec<String>)
    ensures
        ascending(crate::text::texts(categories@)),
        forall|c: Seq<char>| #[trigger]
            crate::text::texts(categories@).contains(c) <==> has_category(items_view(items@), c),
{
    let mut categories: Vec<String> = Vec::new();
    let mut i: usize = 0;
    while i < items.len()
        invariant
            i <= items@.len(),
            ascending(crate::text::texts(categories@)),
            forall|c: Seq<char>| #[trigger]
                crate::text::texts(categories@).contains(c) <==> has_category(
                    items_view(items@).take(i as int),
                    c,
                ),
        decreases items@.len() - i,
    {
        let ghost known = crate::text::texts(categories@);
        match &items[i].category {
            Some(category) => {
                insert_category(&mut categories, category);
            },
            None => {},
        }
        assert forall|c: Seq<char>| #[trigger]
            crate::text::texts(categories@).contains(c) <==> has_category(
            items_view(items@).take(i + 1),
            c,
        ) by {
            let seen = items_view(items@).take(i as int);
            let now = items_view(items@).take(i + 1);
            assert(known.contains(c) <==> has_category(seen, c));
            if has_category(seen, c) {
                let k = choose|k: int| 0 <= k < seen.len() && (#[trigger] seen[k]).category == Some(c);
                assert(now[k].category == Some(c));
            }
            if has_category(now, c) {
                let k = choose|k: int| 0 <= k < now.len() && (#[trigger] now[k]).category == Some(c);
                if k < i {
                    assert(seen[k].category == Some(c));
                }
            }
            assert(now[i as int] == items@[i as int]@);
        }
        i += 1;
    }
    assert(items_view(items@).take(i as int) =~= items_view(items@));
    categories
}

/// Adds a category to an ascending list, if it is not there.
fn insert_category(categories: &mut Vec<String>, category: &String)
    requires
        ascending(crate::text::texts(old(categories)@)),
    ensures
        ascending(crate::text::texts(final(categories)@)),
        forall|c: Seq<char>| #[trigger]
            crate::text::texts(final(categories)@).contains(c) <==> crate::text::texts(
                old(categories)@,
            ).contains(c) || c == category@,
{
    let ghost all = crate::text::texts(categories@);
    let mut at: usize = 0;
    while at < categories.len() && before(categories[at].as_str(), category.as_str())
        invariant
            at <= categories@.len(),
            all == crate::text::texts(categories@),
            *categories == *old(categories),
            forall|j: int| 0 <= j < at ==> crate::text::precedes(#[trigger] all[j], category@),
        decreases categories@.len() - at,
    {
        assert(all[at as int] == categories@[at as int]@);
        at += 1;
    }
    if at < categories.len() && same(categories[at].as_str(), category.as_str()) {
        assert(all[at as int] == category@);
        return;
    }
    categories.insert(at, category.clone());
    proof {
        let next = crate::text::texts(categories@);
        assert(next =~= all.insert(at as int, category@));
        if at < all.len() {
            assert(all[at as int] == old(categories)@[at as int]@);
            crate::text::lemma_precedes_total(all[at as int], category@);
        }
        assert forall|i: int, j: int| 0 <= i < j < next.len() implies crate::text::precedes(
            #[trigger] next[i],
            #[trigger] next[j],
        ) by {
            if j < at {
                assert(next[i] == all[i] && next[j] == all[j]);
            } else if j == at {
                assert(next[i] == all[i]);
            } else {
                assert(next[j] == all[j - 1]);
                if i < at {
                    assert(next[i] == all[i]);
                    assert(crate::text::precedes(all[i], all[j - 1]));
                } else if i == at {
                    if j - 1 > at {
                        assert(crate::text::precedes(all[at as int], all[j - 1]));
                        crate::text::lemma_precedes_transitive(
                            category@,
                            all[at as int],
                            all[j - 1],
                        );
                    }
                } else {
                    assert(next[i] == all[i - 1]);
                }
            }
        }
        assert forall|c: Seq<char>| #[trigger] next.contains(c) <==> all.contains(c) || c
            == category@ by {
            assert(next[at as int] == category@);
            if all.contains(c) {
                let k = choose|k: int| 0 <= k < all.len() && all[k] == c;
                if k < at {
                    assert(next[k] == c);
                } else {
                    assert(next[k + 1] == c);
                }
            }
            if next.contains(c) {
                let k = choose|k: int| 0 <= k < next.len() && next[k] == c;
                if k < at {
                    assert(all[k] == c);
                } else if k > at {
                    assert(all[k - 1] == c);
                }
            }
        }
    }
}

// ---------------------------------------------------------------------
// Laws
// ---------------------------------------------------------------------

/// A step forward and a step back lead to the same item, and so do a step
/// back and a step forward.
pub proof fn law_scrolling_back_undoes(browser: BrowserView)
    requires
        browser.valid(),
    ensures
        browser.scrolled(1).scrolled((-1) as i8) == browser,
        browser.scrolled((-1) as i8).scrolled(1) == browser,
{
    let len = browser.filtered().len() as int;
    let c = browser.cursor;
    if len > 0 {
        if c + 1 < len {
            vstd::arithmetic::div_mod::lemma_small_mod((c + 1) as nat, len as nat);
        } else {
            vstd::arithmetic::div_mod::lemma_mod_self_0(len);
        }
        let fwd = (c + 1) % len;
        assert((fwd + len - 1) % len == c) by (nonlinear_arith)
            requires
                0 <= c < len,
                fwd == if c + 1 < len {
                    c + 1
                } else {
                    0
                },
        ;
        let back = (c + len - 1) % len;
        assert(back == if c == 0 {
            len - 1
        } else {
            c - 1
        }) by (nonlinear_arith)
            requires
                0 <= c < len,
                back == (c + len - 1) % len,
        ;
        assert((back + 1) % len == c) by (nonlinear_arith)
            requires
                0 <= c < len,
                back == if c == 0 {
                    len - 1
                } else {
                    c - 1
                },
        ;
        assert(browser.scrolled(1).filtered() == browser.filtered());
        assert(browser.scrolled((-1) as i8).filtered() == browser.filtered());
        assert(browser.scrolled(1).scrolled((-1) as i8) =~= browser);
        assert(browser.scrolled((-1) as i8).scrolled(1) =~= browser);
    }
}

/// Only the direction of a turn counts, and a turn of zero does nothing.
pub proof fn law_scroll_goes_one_step(browser: BrowserView, delta: i8)
    ensures
        delta > 0 ==> browser.scrolled(delta) == browser.scrolled(1) && browser.cycled(delta)
            == browser.cycled(1),
        delta < 0 ==> browser.scrolled(delta) == browser.scrolled((-1) as i8) && browser.cycled(delta)
            == browser.cycled((-1) as i8),
        delta == 0 ==> browser.scrolled(delta) == browser && browser.cycled(delta) == browser,
{
}

/// Without a filter every item is shown, in the order of the list.
pub proof fn law_all_shows_everything(items: Seq<BrowseView>)
    ensures
        shown_items(items, None) == Seq::new(items.len(), |i: int| i),
    decreases items.len(),
{
    if items.len() > 0 {
        law_all_shows_everything(items.drop_last());
        assert(shown_items(items, None) =~= Seq::new(items.len(), |i: int| i));
    } else {
        assert(shown_items(items, None) =~= Seq::new(items.len(), |i: int| i));
    }
}

/// A filter shows exactly the items of its category, in the order of the
/// list.
pub proof fn law_filter_shows_its_category(items: Seq<BrowseView>, category: Seq<char>)
    ensures
        forall|i: int|
            0 <= i < items.len() ==> (#[trigger] items[i].category == Some(category)
                <==> shown_items(items, Some(category)).contains(i)),
        forall|a: int, b: int|
            0 <= a < b < shown_items(items, Some(category)).len() ==> #[trigger] shown_items(
                items,
                Some(category),
            )[a] < #[trigger] shown_items(items, Some(category))[b],
        forall|a: int|
            0 <= a < shown_items(items, Some(category)).len() ==> 0 <= #[trigger] shown_items(
                items,
                Some(category),
            )[a] < items.len(),
    decreases items.len(),
{
    lemma_shown_items(items, Some(category));
    if items.len() > 0 {
        let rest = items.drop_last();
        law_filter_shows_its_category(rest, category);
        let front = shown_items(rest, Some(category));
        let all = shown_items(items, Some(category));
        assert forall|i: int| 0 <= i < items.len() implies (#[trigger] items[i].category == Some(
            category,
        ) <==> all.contains(i)) by {
            if i < rest.len() {
                assert(rest[i].category == items[i].category);
                if front.contains(i) {
                    let k = choose|k: int| 0 <= k < front.len() && front[k] == i;
                    assert(all[k] == i);
                }
                if all.contains(i) {
                    let k = choose|k: int| 0 <= k < all.len() && all[k] == i;
                    assert(k < front.len());
                    assert(front[k] == i);
                }
            } else {
                if items[i].category == Some(category) {
                    assert(all.last() == i);
                }
                if all.contains(i) {
                    let k = choose|k: int| 0 <= k < all.len() && all[k] == i;
                    if k < front.len() {
                        assert(front[k] == i);
                    }
                }
            }
        }
    }
}

/// Every filter but `All` has an item to show, so the cursor is on one.
pub proof fn law_every_category_has_items(browser: BrowserView)
    requires
        browser.valid(),
        browser.category_index > 0,
    ensures
        browser.filtered().len() > 0,
        browser.current() is Some,
{
    let category = browser.categories[browser.category_index - 1];
    assert(browser.categories.contains(category));
    law_filter_shows_its_category(browser.items, category);
    let i = choose|i: int|
        0 <= i < browser.items.len() && (#[trigger] browser.items[i]).category == Some(category);
    assert(browser.items[i].category == Some(category));
    assert(browser.filtered().contains(i));
}

/// Turning keeps the state valid: the cursor stays on a shown item.
pub proof fn law_turning_keeps_the_state_valid(browser: BrowserView, delta: i8)
    requires
        browser.valid(),
    ensures
        browser.scrolled(delta).valid(),
        browser.cycled(delta).valid(),
{
    let len = browser.filtered().len() as int;
    if len > 0 {
        assert(browser.scrolled(delta).filtered() == browser.filtered());
        assert(0 <= (browser.cursor + 1) % len < len);
        assert(0 <= (browser.cursor + len - 1) % len < len);
    }
    let count = browser.categories.len() as int + 1;
    assert(0 <= (browser.category_index + 1) % count < count);
    assert(0 <= (browser.category_index + count - 1) % count < count);
}

/// A turn moves the cursor to the next item shown, or back to the one
/// before, around the ends; without a step, or without items, it stays. The
/// filter stays as it is.
pub proof fn law_a_turn_moves_to_the_next_item(browser: BrowserView, delta: i8)
    requires
        browser.valid(),
    ensures
        ({
            let next = browser.scrolled(delta);
            let last = browser.filtered().len() - 1;
            &&& next.items == browser.items && next.categories == browser.categories
            &&& next.category_index == browser.category_index
            &&& last < 0 || delta == 0 ==> next.cursor == browser.cursor
            &&& last >= 0 && delta > 0 ==> next.cursor == if browser.cursor == last {
                0
            } else {
                browser.cursor + 1
            }
            &&& last >= 0 && delta < 0 ==> next.cursor == if browser.cursor == 0 {
                last
            } else {
                browser.cursor - 1
            }
        }),
{
    let len = browser.filtered().len() as int;
    let c = browser.cursor;
    if len > 0 {
        if c + 1 < len {
            vstd::arithmetic::div_mod::lemma_small_mod((c + 1) as nat, len as nat);
        } else {
            vstd::arithmetic::div_mod::lemma_mod_self_0(len);
        }
        if c == 0 {
            vstd::arithmetic::div_mod::lemma_small_mod((len - 1) as nat, len as nat);
        } else {
            vstd::arithmetic::div_mod::lemma_small_mod((c - 1) as nat, len as nat);
            vstd::arithmetic::div_mod::lemma_mod_add_multiples_vanish(c - 1, len);
            assert(c + len - 1 == len + (c - 1));
        }
    }
}

/// A turn with Shift goes through all categories and no category at all,
/// around the ends, and starts at the top of each.
pub proof fn law_a_shift_turn_goes_through_the_categories(browser: BrowserView, delta: i8)
    requires
        browser.valid(),
    ensures
        ({
            let next = browser.cycled(delta);
            let last = browser.categories.len() as int;
            &&& next.items == browser.items && next.categories == browser.categories
            &&& last == 0 || delta == 0 ==> next == browser
            &&& last > 0 && delta > 0 ==> next.cursor == 0 && next.category_index
                == if browser.category_index == last {
                0
            } else {
                browser.category_index + 1
            }
            &&& last > 0 && delta < 0 ==> next.cursor == 0 && next.category_index
                == if browser.category_index == 0 {
                last
            } else {
                browser.category_index - 1
            }
        }),
{
    let count = browser.categories.len() as int + 1;
    let c = browser.category_index;
    if c + 1 < count {
        vstd::arithmetic::div_mod::lemma_small_mod((c + 1) as nat, count as nat);
    } else {
        vstd::arithmetic::div_mod::lemma_mod_self_0(count);
    }
    if c == 0 {
        vstd::arithmetic::div_mod::lemma_small_mod((count - 1) as nat, count as nat);
    } else {
        vstd::arithmetic::div_mod::lemma_small_mod((c - 1) as nat, count as nat);
        vstd::arithmetic::div_mod::lemma_mod_add_multiples_vanish(c - 1, count);
        assert(c + count - 1 == count + (c - 1));
    }
}

/// What is selected is the item under the cursor among those shown; the
/// filter is named after its category, and "All" without one.
pub proof fn law_the_cursor_selects(browser: BrowserView)
    requires
        browser.valid(),
    ensures
        browser.filtered().len() > 0 ==> browser.current() == Some(
            browser.items[browser.filtered()[browser.cursor]],
        ),
        browser.filtered().len() == 0 ==> browser.current() is None,
        browser.category_index == 0 ==> browser.category() is None && browser.category_name()
            == "All"@,
        browser.category_index > 0 ==> browser.category() == Some(
            browser.categories[browser.category_index - 1],
        ) && browser.category_name() == browser.categories[browser.category_index - 1],
{
}

/// An item is shown as it is: all that a selection needs to be loaded.
pub proof fn law_items_are_seen_whole(item: BrowseItem)
    ensures
        item@.id == item.id,
        item@.name == item.name@,
        item@.category == crate::text::opt_text(item.category),
        item@.path == crate::text::opt_text(item.path),
        item@.load_key == crate::text::opt_text(item.load_key),
{
}

} // verus!
