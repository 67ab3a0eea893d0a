//! The registry of reusable values: host suffixes and proxy targets, kept in
//! normal form in memory and persisted as a TOML document.

use vstd::prelude::*;
use crate::codec::{toml_render_registry, toml_string_list, toml_string_list_of};
use crate::order::{
    insert_sorted, lemma_sorted_unique_canonical, normalize, remove_at, strictly_sorted, views,
};

verus! {

/// The registry: two categories of reusable strings, each strictly sorted
/// and free of duplicates, and a flag that gates the persist-on-exit write.
pub struct Config {
    pub hosts: Vec<String>,
    pub targets: Vec<String>,
    pub changed: bool,
}

/// Which registry category an operation addresses.
#[derive(Clone, Copy, PartialEq, Eq, Structural, Debug)]
pub enum Category {
    Hosts,
    Targets,
}

/// The outcome of adding a value to a category.
#[derive(Clone, Copy, PartialEq, Eq, Structural, Debug)]
pub enum AddOutcome {
    Added,
    AlreadyExists,
}

/// What `str::trim` leaves of `s`: the characters with surrounding
/// whitespace stripped.
pub uninterp spec fn trimmed_of(s: Seq<char>) -> Seq<char>;

/// Strips leading and trailing whitespace from operator input. Relies on
/// `str::trim`; the result depends on the characters alone.
#[verifier::external_body]
fn trim_text(s: &str) -> (r: &str)
    ensures
        r@ == trimmed_of(s@),
{
    s.trim()
}

impl Config {
    /// The views of the stored host suffixes.
    pub open spec fn hosts_view(&self) -> Seq<Seq<char>> {
        views(self.hosts@)
    }

    /// The views of the stored proxy targets.
    pub open spec fn targets_view(&self) -> Seq<Seq<char>> {
        views(self.targets@)
    }

    /// The views of one category.
    pub open spec fn category_view(&self, cat: Category) -> Seq<Seq<char>> {
        match cat {
            Category::Hosts => self.hosts_view(),
            Category::Targets => self.targets_view(),
        }
    }

    /// Both categories are in normal form.
    pub open spec fn wf(&self) -> bool {
        strictly_sorted(self.hosts_view()) && strictly_sorted(self.targets_view())
    }

    /// The empty registry of a fresh start: nothing stored, and marked
    /// changed so that it is persisted on exit.
    pub fn new() -> (r: Config)
        ensures
            r.wf(),
            r.hosts_view().len() == 0,
            r.targets_view().len() == 0,
            r.changed,
    {
        Config { hosts: Vec::new(), targets: Vec::new(), changed: true }
    }

    /// Loads the registry from the text of its config document. Succeeds
    /// exactly when the document carries both string-array fields `hosts`
    /// and `targets`; the loaded categories are those fields brought into
    /// normal form, and the store counts as unchanged.
    pub fn from_toml(text: &str) -> (r: Option<Config>)
        ensures
            r is Some <==> (toml_string_list_of(text@, "hosts"@) is Some && toml_string_list_of(
                text@,
                "targets"@,
            ) is Some),
            r matches Some(c) ==> {
                &&& c.wf()
                &&& !c.changed
                &&& toml_string_list_of(text@, "hosts"@) matches Some(h) && c.hosts_view().to_set()
                    == h.to_set()
                &&& toml_string_list_of(text@, "targets"@) matches Some(t)
                    && c.targets_view().to_set() == t.to_set()
            },
    {
        let hosts_raw = match toml_string_list(text, "hosts") {
            Some(h) => h,
            None => {
                return None;
            },
        };
        let targets_raw = match toml_string_list(text, "targets") {
            Some(t) => t,
            None => {
                return None;
            },
        };
        let hosts = normalize(&hosts_raw);
        let targets = normalize(&targets_raw);
        Some(Config { hosts, targets, changed: false })
    }

    /// Renders the registry as the TOML document that `from_toml` reads.
    pub fn to_toml(&self) -> (r: String)
        ensures
            toml_string_list_of(r@, "hosts"@) == Some(self.hosts_view()),
            toml_string_list_of(r@, "targets"@) == Some(self.targets_view()),
    {
        toml_render_registry(&self.hosts, &self.targets)
    }

    /// The stored values of one category, for display and selection.
    pub fn values(&self, cat: Category) -> (r: &Vec<String>)
        ensures
            views(r@) == self.category_view(cat),
    {
        match cat {
            Category::Hosts => &self.hosts,
            Category::Targets => &self.targets,
        }
    }

    /// Adds a value to a category, after trimming surrounding whitespace. A
    /// value already present (case-sensitive, exact) is reported and the
    /// registry is left exactly as it was; a new value is inserted in order
    /// and the registry is marked changed.
    pub fn add_value(&mut self, cat: Category, value: &str) -> (r: AddOutcome)
        requires
            old(self).wf(),
        ensures
            final(self).wf(),
            r == AddOutcome::AlreadyExists <==> old(self).category_view(cat).contains(
                trimmed_of(value@),
            ),
            r == AddOutcome::AlreadyExists ==> {
                &&& final(self).hosts@ == old(self).hosts@
                &&& final(self).targets@ == old(self).targets@
                &&& final(self).changed == old(self).changed
            },
            r == AddOutcome::Added ==> {
                &&& final(self).category_view(cat).to_set() == old(self).category_view(
                    cat,
                ).to_set().insert(trimmed_of(value@))
                &&& final(self).category_view(cat).len() == old(self).category_view(cat).len() + 1
                &&& final(self).changed
            },
            final(self).category_view(other_category(cat)) == old(self).category_view(
                other_category(cat),
            ),
    {
        let trimmed = String::from_str(trim_text(value));
        let inserted = match cat {
            Category::Hosts => insert_sorted(&mut self.hosts, trimmed),
            Category::Targets => insert_sorted(&mut self.targets, trimmed),
        };
        if inserted {
            self.changed = true;
            AddOutcome::Added
        } else {
            AddOutcome::AlreadyExists
        }
    }

    /// Removes the value at `index` of a category, keeping the normal form
    /// and marking the registry changed.
    pub fn remove_value(&mut self, cat: Category, index: usize) -> (removed: String)
        requires
            old(self).wf(),
            index < old(self).category_view(cat).len(),
        ensures
            final(self).wf(),
            final(self).category_view(cat) == old(self).category_view(cat).remove(index as int),
            removed@ == old(self).category_view(cat)[index as int],
            final(self).category_view(other_category(cat)) == old(self).category_view(
                other_category(cat),
            ),
            final(self).changed,
    {
        let removed = match cat {
            Category::Hosts => remove_at(&mut self.hosts, index),
            Category::Targets => remove_at(&mut self.targets, index),
        };
        self.changed = true;
        removed
    }
}

/// The category an operation does not address.
pub open spec fn other_category(cat: Category) -> Category {
    match cat {
        Category::Hosts => Category::Targets,
        Category::Targets => Category::Hosts,
    }
}

/// Law: reloading a persisted registry restores it exactly. `doc` holds the
/// two categories of the well-formed registry `stored`, as `to_toml`
/// produces; `reloaded` is any well-formed registry whose categories cover
/// the same sets of values, as `from_toml` yields for `doc`. Then `reloaded`
/// lists exactly the hosts and targets of `stored`, in the same order.
pub proof fn lemma_registry_round_trip(doc: Seq<char>, stored: Config, reloaded: Config)
    requires
        stored.wf(),
        reloaded.wf(),
        toml_string_list_of(doc, "hosts"@) == Some(stored.hosts_view()),
        toml_string_list_of(doc, "targets"@) == Some(stored.targets_view()),
        toml_string_list_of(doc, "hosts"@) matches Some(h) ==> reloaded.hosts_view().to_set()
            == h.to_set(),
        toml_string_list_of(doc, "targets"@) matches Some(t) ==> reloaded.targets_view().to_set()
            == t.to_set(),
    ensures
        reloaded.hosts_view() == stored.hosts_view(),
        reloaded.targets_view() == stored.targets_view(),
{
    lemma_sorted_unique_canonical(reloaded.hosts_view(), stored.hosts_view());
    lemma_sorted_unique_canonical(reloaded.targets_view(), stored.targets_view());
}

} // verus!
