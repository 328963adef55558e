//! The browser's state: the catalog, the label of the scanned root, and the
//! selection that the arrow keys move through the rows with wraparound.

use crate::catalog::{Catalog, CatalogEntry, EntryView};
use vstd::arithmetic::div_mod::{lemma_mod_add_multiples_vanish, lemma_mod_self_0, lemma_small_mod};
use vstd::prelude::*;

verus! {

/// The row selected after moving forward from `current` in a table of `n` rows.
pub open spec fn next_index(current: Option<nat>, n: nat) -> nat
    recommends
        n > 0,
{
    match current {
        Some(i) => (i + 1) % n,
        None => 0,
    }
}

/// The row selected after moving backward from `current` in a table of `n` rows.
pub open spec fn previous_index(current: Option<nat>, n: nat) -> nat
    recommends
        n > 0,
{
    match current {
        Some(i) => ((i - 1 + n) % (n as int)) as nat,
        None => 0,
    }
}

/// The selection after moving forward `times` times from `current`.
pub open spec fn next_repeated(current: Option<nat>, n: nat, times: nat) -> Option<nat>
    decreases times,
{
    if times == 0 {
        current
    } else {
        Some(next_index(next_repeated(current, n, (times - 1) as nat), n))
    }
}

/// A selection is valid for `n` rows when it is unset or names one of the rows.
pub open spec fn valid_selection(current: Option<nat>, n: nat) -> bool {
    current matches Some(i) ==> i < n
}

/// Moving forward from a row that is not the last goes one row down, and from the
/// last row to the first.
pub proof fn lemma_next_index_cases(i: nat, n: nat)
    requires
        i < n,
    ensures
        next_index(Some(i), n) == if i + 1 == n { 0 } else { i + 1 },
{
    if i + 1 == n {
        lemma_mod_self_0(n as int);
    } else {
        lemma_small_mod(i + 1, n);
    }
}

/// Moving backward from a row that is not the first goes one row up, and from the
/// first row to the last.
pub proof fn lemma_previous_index_cases(i: nat, n: nat)
    requires
        i < n,
    ensures
        previous_index(Some(i), n) == if i == 0 { n - 1 } else { i - 1 },
{
    if i == 0 {
        lemma_small_mod((n - 1) as nat, n);
    } else {
        lemma_mod_add_multiples_vanish(i - 1, n as int);
        lemma_small_mod((i - 1) as nat, n);
    }
}

/// Neither move ever selects a row outside the table, whatever was selected before.
pub proof fn lemma_moves_stay_in_range(current: Option<nat>, n: nat)
    requires
        n > 0,
        valid_selection(current, n),
    ensures
        next_index(current, n) < n,
        previous_index(current, n) < n,
{
    if let Some(i) = current {
        lemma_next_index_cases(i, n);
        lemma_previous_index_cases(i, n);
    }
}

/// Moving backward right after moving forward from a selected row comes back to
/// that row, and so does moving forward right after moving backward.
pub proof fn lemma_previous_undoes_next(i: nat, n: nat)
    requires
        i < n,
    ensures
        previous_index(Some(next_index(Some(i), n)), n) == i,
        next_index(Some(previous_index(Some(i), n)), n) == i,
{
    lemma_next_index_cases(i, n);
    lemma_previous_index_cases(i, n);
    lemma_previous_index_cases(next_index(Some(i), n), n);
    lemma_next_index_cases(previous_index(Some(i), n), n);
}

/// With nothing selected, both moves select the first row: here they do not undo
/// each other.
pub proof fn lemma_unset_moves_to_first(n: nat)
    ensures
        next_index(None, n) == 0,
        previous_index(None, n) == 0,
{
}

/// Moving forward `times` times from row `i` selects row `(i + times) mod n`.
pub proof fn lemma_next_repeated_from_row(i: nat, n: nat, times: nat)
    requires
        i < n,
    ensures
        next_repeated(Some(i), n, times) == Some((i + times) % n),
    decreases times,
{
    if times == 0 {
        lemma_small_mod(i, n);
    } else {
        let before = (times - 1) as nat;
        lemma_next_repeated_from_row(i, n, before);
        let at = (i + before) % n;
        assert(at < n) by {
            vstd::arithmetic::div_mod::lemma_mod_bound((i + before) as int, n as int);
        }
        lemma_next_index_cases(at, n);
        assert((i + times) % n == if at + 1 == n { 0 } else { at + 1 }) by {
            vstd::arithmetic::div_mod::lemma_fundamental_div_mod((i + before) as int, n as int);
            let q = (i + before) as int / (n as int);
            if at + 1 == n {
                assert(i + times == (q + 1) * n) by (nonlinear_arith)
                    requires
                        i + before == n * q + at,
                        at + 1 == n,
                        times == before + 1,
                ;
                vstd::arithmetic::div_mod::lemma_fundamental_div_mod_converse(
                    (i + times) as int,
                    n as int,
                    q + 1,
                    0,
                );
            } else {
                vstd::arithmetic::div_mod::lemma_fundamental_div_mod_converse(
                    (i + times) as int,
                    n as int,
                    q,
                    (at + 1) as int,
                );
            }
        }
    }
}

/// Wraparound closure: moving forward as many times as there are rows comes back
/// to the row where the moves began.
pub proof fn lemma_next_full_circle(i: nat, n: nat)
    requires
        i < n,
    ensures
        next_repeated(Some(i), n, n) == Some(i),
{
    lemma_next_repeated_from_row(i, n, n);
    lemma_mod_add_multiples_vanish(i as int, n as int);
    lemma_small_mod(i, n);
}

/// Moving forward `times` times, at least once, from the unset state selects row
/// `(times - 1) mod n`: the first move selects the first row and the others go on
/// from there.
pub proof fn lemma_next_repeated_from_unset(n: nat, times: nat)
    requires
        n > 0,
        times > 0,
    ensures
        next_repeated(None, n, times) == Some(((times - 1) % (n as int)) as nat),
    decreases times,
{
    if times == 1 {
        assert(next_repeated(None, n, 1) == Some(next_index(next_repeated(None, n, 0), n)));
        lemma_small_mod(0, n);
    } else {
        let before = (times - 1) as nat;
        lemma_next_repeated_from_unset(n, before);
        lemma_next_repeated_from_row(0, n, (before - 1) as nat);
        lemma_next_repeated_from_row(0, n, before);
        assert(next_repeated(Some(0), n, before) == Some(
            next_index(next_repeated(Some(0), n, (before - 1) as nat), n),
        ));
    }
}

/// From the unset state, as many forward moves as there are rows end on the last
/// row; they end on the first row exactly when the table has a single row. One
/// move more always ends on the first row.
pub proof fn lemma_next_rounds_from_unset(n: nat)
    requires
        n > 0,
    ensures
        next_repeated(None, n, n) == Some((n - 1) as nat),
        next_repeated(None, n, n) == Some(0nat) <==> n == 1,
        next_repeated(None, n, n + 1) == Some(0nat),
{
    lemma_next_repeated_from_unset(n, n);
    lemma_next_repeated_from_unset(n, n + 1);
    lemma_small_mod((n - 1) as nat, n);
    lemma_mod_self_0(n as int);
}

/// The mathematical value of an [`App`].
pub struct AppView {
    pub selected: Option<nat>,
    pub items: Seq<EntryView>,
    pub title: Seq<char>,
}

impl AppView {
    /// The state after moving the selection forward.
    pub open spec fn next(self) -> AppView
        recommends
            self.items.len() > 0,
    {
        AppView { selected: Some(next_index(self.selected, self.items.len())), ..self }
    }

    /// The state after moving the selection backward.
    pub open spec fn previous(self) -> AppView
        recommends
            self.items.len() > 0,
    {
        AppView { selected: Some(previous_index(self.selected, self.items.len())), ..self }
    }

    /// Whether the selection, if set, names a row of the catalog.
    pub open spec fn valid(self) -> bool {
        valid_selection(self.selected, self.items.len())
    }
}

/// The browser: a catalog, the label of the root it was loaded from, and the
/// selected row. The selection is unset until the first move and names a row of
/// the catalog ever after.
pub struct App {
    selected: Option<usize>,
    items: Catalog,
    title: String,
}

impl View for App {
    type V = AppView;

    closed spec fn view(&self) -> AppView {
        AppView {
            selected: match self.selected {
                Some(i) => Some(i as nat),
                None => None,
            },
            items: self.items@,
            title: self.title@,
        }
    }
}

impl App {
    /// Holds of every browser: the selection is unset or names a row.
    #[verifier::type_invariant]
    pub open spec fn well_formed(self) -> bool {
        self@.valid()
    }

    /// A browser over `items` with nothing selected.
    pub fn new(items: Catalog, title: String) -> (app: App)
        ensures
            app@ == (AppView { selected: None, items: items@, title: title@ }),
            app@.valid(),
    {
        App { selected: None, items, title }
    }

    /// Moves the selection one row down, from the last row to the first; with
    /// nothing selected, selects the first row.
    pub fn next(&mut self)
        requires
            old(self)@.items.len() > 0,
        ensures
            final(self)@ == old(self)@.next(),
            final(self)@.valid(),
    {
        proof {
            use_type_invariant(&*self);
        }
        let i: usize = match self.selected {
            Some(i) => {
                proof {
                    lemma_next_index_cases(i as nat, self.items@.len());
                }
                if i >= self.items.len() - 1 {
                    0
                } else {
                    i + 1
                }
            },
            None => 0,
        };
        self.selected = Some(i);
    }

    /// Moves the selection one row up, from the first row to the last; with
    /// nothing selected, selects the first row.
    pub fn previous(&mut self)
        requires
            old(self)@.items.len() > 0,
        ensures
            final(self)@ == old(self)@.previous(),
            final(self)@.valid(),
    {
        proof {
            use_type_invariant(&*self);
        }
        let i: usize = match self.selected {
            Some(i) => {
                proof {
                    lemma_previous_index_cases(i as nat, self.items@.len());
                }
                if i == 0 {
                    self.items.len() - 1
                } else {
                    i - 1
                }
            },
            None => 0,
        };
        self.selected = Some(i);
    }

    /// Activates the selected row. Nothing follows from it yet: the browser is
    /// left as it was.
    pub fn play_track(&mut self)
        ensures
            *final(self) == *old(self),
    {
        let _ = self.selected;
    }

    /// The selected row, if any: always a row of the catalog.
    pub fn selected(&self) -> (row: Option<usize>)
        ensures
            self@.valid(),
            match row {
                Some(i) => self@.selected == Some(i as nat),
                None => self@.selected is None,
            },
    {
        proof {
            use_type_invariant(self);
        }
        self.selected
    }

    /// The entry in the selected row, if a row is selected.
    pub fn selected_entry(&self) -> (entry: Option<&CatalogEntry>)
        ensures
            match entry {
                Some(e) => self@.selected matches Some(i) && i < self@.items.len() && e@
                    == self@.items[i as int],
                None => self@.selected is None,
            },
    {
        proof {
            use_type_invariant(self);
        }
        match self.selected {
            Some(i) => self.items.get(i),
            None => None,
        }
    }

    /// The catalog that the browser shows.
    pub fn items(&self) -> (catalog: &Catalog)
        ensures
            catalog@ == self@.items,
    {
        &self.items
    }

    /// The label of the root that the catalog was loaded from.
    pub fn title(&self) -> (text: &str)
        ensures
            text@ == self@.title,
    {
        self.title.as_str()
    }
}

} // verus!
