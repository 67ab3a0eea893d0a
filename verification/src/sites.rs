//! The site lifecycle state machine. A site is a file named after its
//! domain; its state is encoded by which of the two directories holds it.
//! This module carries the in-memory model of those directories and the
//! decisions of every operation; the surrounding program reads the real
//! directories into the model and performs the file moves the outcomes call
//! for.

use vstd::prelude::*;
use crate::numerals::{dec_digits, u64_to_dec};
use crate::order::{
    find_string, insert_sorted, lemma_push_to_set, lemma_sorted_remove_to_set, normalize,
    remove_at, strictly_sorted, views,
};

verus! {

/// One of the two directories.
#[derive(Clone, Copy, PartialEq, Eq, Structural, Debug)]
pub enum Side {
    Enabled,
    Disabled,
}

/// The state of a site, derived from directory membership.
#[derive(Clone, Copy, PartialEq, Eq, Structural, Debug)]
pub enum SiteState {
    Absent,
    Enabled,
    Disabled,
}

/// The two directions a site can be moved in.
#[derive(Clone, Copy, PartialEq, Eq, Structural, Debug)]
pub enum MoveKind {
    Enable,
    Disable,
}

/// The directory a move takes a site out of.
pub open spec fn source_side(kind: MoveKind) -> Side {
    match kind {
        MoveKind::Enable => Side::Disabled,
        MoveKind::Disable => Side::Enabled,
    }
}

/// The directory a move puts a site into.
pub open spec fn target_side(kind: MoveKind) -> Side {
    match kind {
        MoveKind::Enable => Side::Enabled,
        MoveKind::Disable => Side::Disabled,
    }
}

/// The model of the two directories. `None` models an absent directory,
/// `Some` a present one with the names of the site files it holds.
pub struct SiteDirs {
    pub enabled: Option<Vec<String>>,
    pub disabled: Option<Vec<String>>,
}

/// The full domain of a site: the label alone when no host suffix is in
/// play, otherwise the label, a dot, and the suffix.
pub open spec fn composed_domain(label: Seq<char>, host: Seq<char>) -> Seq<char> {
    if host.len() == 0 {
        label
    } else {
        label + "."@ + host
    }
}

/// Composes a full domain from a label and an optional host suffix (the
/// empty string standing for none).
pub fn compose_domain(label: &str, host: &str) -> (r: String)
    ensures
        r@ == composed_domain(label@, host@),
{
    if host.is_empty() {
        String::from_str(label)
    } else {
        let mut r = String::from_str(label);
        r.append(".");
        r.append(host);
        proof {
            assert(r@ =~= composed_domain(label@, host@));
        }
        r
    }
}

/// The text of a site file: the domain header, a reverse-proxy directive for
/// the target and port, and the import of the shared rules.
pub open spec fn site_file_text_spec(domain: Seq<char>, target: Seq<char>, port: u16) -> Seq<
    char,
> {
    domain + " {\n\treverse_proxy "@ + target + ":"@ + dec_digits(port as nat)
        + "\n\n\timport ../robots\n}\n\n"@
}

/// Renders the site file for a domain, proxy target and port.
pub fn site_file_text(domain: &str, target: &str, port: u16) -> (r: String)
    ensures
        r@ == site_file_text_spec(domain@, target@, port),
{
    let mut r = String::from_str(domain);
    r.append(" {\n\treverse_proxy ");
    r.append(target);
    r.append(":");
    let port_text = u64_to_dec(port as u64);
    r.append(port_text.as_str());
    r.append("\n\n\timport ../robots\n}\n\n");
    proof {
        assert(r@ =~= site_file_text_spec(domain@, target@, port));
    }
    r
}

impl SiteDirs {
    /// The modelled listing of one directory.
    pub open spec fn side_view(&self, side: Side) -> Option<Seq<Seq<char>>> {
        match side {
            Side::Enabled => match self.enabled {
                Some(v) => Some(views(v@)),
                None => None,
            },
            Side::Disabled => match self.disabled {
                Some(v) => Some(views(v@)),
                None => None,
            },
        }
    }

    /// The set of sites in one directory; an absent directory holds none.
    pub open spec fn side_set(&self, side: Side) -> Set<Seq<char>> {
        match self.side_view(side) {
            Some(l) => l.to_set(),
            None => Set::empty(),
        }
    }

    /// Whether a directory holds a site of the given domain.
    pub open spec fn side_has(&self, side: Side, domain: Seq<char>) -> bool {
        match self.side_view(side) {
            Some(l) => l.contains(domain),
            None => false,
        }
    }

    /// Each present listing is in normal form: sorted and duplicate-free.
    pub open spec fn wf(&self) -> bool {
        &&& match self.enabled {
            Some(v) => strictly_sorted(views(v@)),
            None => true,
        }
        &&& match self.disabled {
            Some(v) => strictly_sorted(views(v@)),
            None => true,
        }
    }

    /// The state of a domain: enabled wins over disabled when a stray copy
    /// exists in both directories.
    pub open spec fn spec_state(&self, domain: Seq<char>) -> SiteState {
        if self.side_has(Side::Enabled, domain) {
            SiteState::Enabled
        } else if self.side_has(Side::Disabled, domain) {
            SiteState::Disabled
        } else {
            SiteState::Absent
        }
    }

    /// Builds the model from raw directory listings (`None` for an absent
    /// directory), bringing each into normal form.
    pub fn from_listings(enabled: Option<Vec<String>>, disabled: Option<Vec<String>>) -> (r:
        SiteDirs)
        ensures
            r.wf(),
            r.enabled is Some <==> enabled is Some,
            r.disabled is Some <==> disabled is Some,
            enabled matches Some(v) ==> r.side_set(Side::Enabled) == views(v@).to_set(),
            disabled matches Some(v) ==> r.side_set(Side::Disabled) == views(v@).to_set(),
    {
        let enabled_model = match enabled {
            Some(v) => Some(normalize(&v)),
            None => None,
        };
        let disabled_model = match disabled {
            Some(v) => Some(normalize(&v)),
            None => None,
        };
        SiteDirs { enabled: enabled_model, disabled: disabled_model }
    }

    /// Whether the enabled directory exists.
    pub fn has_enabled_dir(&self) -> (r: bool)
        ensures
            r == (self.enabled is Some),
    {
        self.enabled.is_some()
    }

    /// Makes the enabled directory exist, as site creation does before
    /// anything else; reports whether it had to be made.
    pub fn ensure_enabled_dir(&mut self) -> (made: bool)
        requires
            old(self).wf(),
        ensures
            final(self).wf(),
            made == (old(self).enabled is None),
            final(self).enabled is Some,
            final(self).side_set(Side::Enabled) == old(self).side_set(Side::Enabled),
            final(self).disabled == old(self).disabled,
    {
        if self.enabled.is_none() {
            self.enabled = Some(Vec::new());
            proof {
                assert(views(Seq::<String>::empty()).to_set() =~= Set::<Seq<char>>::empty());
                assert(final(self).side_set(Side::Enabled) =~= Set::<Seq<char>>::empty());
            }
            true
        } else {
            false
        }
    }

    /// Whether a directory holds a site of the given domain.
    pub fn contains(&self, side: Side, domain: &String) -> (r: bool)
        ensures
            r == self.side_has(side, domain@),
    {
        let listing = match side {
            Side::Enabled => &self.enabled,
            Side::Disabled => &self.disabled,
        };
        match listing {
            Some(v) => match find_string(v, domain) {
                Some(_) => true,
                None => false,
            },
            None => false,
        }
    }

    /// Adds a domain to one directory's listing, making the directory exist
    /// if it did not; reports whether it had to be made.
    fn side_insert(&mut self, side: Side, domain: &String) -> (made_dir: bool)
        requires
            old(self).wf(),
        ensures
            final(self).wf(),
            made_dir == (old(self).side_view(side) is None),
            final(self).side_view(side) is Some,
            final(self).side_set(side) == old(self).side_set(side).insert(domain@),
            old(self).side_view(side) matches Some(ol) ==> (!ol.contains(domain@) ==> (final(self)
                .side_view(side) matches Some(l) && l.len() == ol.len() + 1)),
            side == Side::Enabled ==> final(self).disabled == old(self).disabled,
            side == Side::Disabled ==> final(self).enabled == old(self).enabled,
    {
        let listing = match side {
            Side::Enabled => &mut self.enabled,
            Side::Disabled => &mut self.disabled,
        };
        match listing {
            Some(v) => {
                insert_sorted(v, domain.clone());
                false
            },
            None => {
                let mut v: Vec<String> = Vec::new();
                v.push(domain.clone());
                proof {
                    assert(views(v@) =~= Seq::<Seq<char>>::empty().push(domain@));
                    lemma_push_to_set(Seq::<Seq<char>>::empty(), domain@);
                    assert(Seq::<Seq<char>>::empty().to_set() =~= Set::<Seq<char>>::empty());
                }
                *listing = Some(v);
                true
            },
        }
    }

    /// Takes a domain out of one directory's listing; a listing left empty
    /// means the directory itself goes, and that is reported.
    fn side_remove(&mut self, side: Side, domain: &String) -> (removed_dir: bool)
        requires
            old(self).wf(),
            old(self).side_has(side, domain@),
        ensures
            final(self).wf(),
            final(self).side_set(side) == old(self).side_set(side).remove(domain@),
            removed_dir == (final(self).side_view(side) is None),
            old(self).side_view(side) matches Some(l) && (removed_dir <==> l.len() == 1),
            side == Side::Enabled ==> final(self).disabled == old(self).disabled,
            side == Side::Disabled ==> final(self).enabled == old(self).enabled,
    {
        let listing = match side {
            Side::Enabled => &mut self.enabled,
            Side::Disabled => &mut self.disabled,
        };
        let empty_after = match listing {
            Some(v) => {
                let ghost s = views(v@);
                let idx = match find_string(v, domain) {
                    Some(i) => i,
                    None => {
                        proof {
                            assert(false);
                        }
                        0
                    },
                };
                remove_at(v, idx);
                proof {
                    lemma_sorted_remove_to_set(s, idx as int);
                }
                v.len() == 0
            },
            None => {
                proof {
                    assert(false);
                }
                false
            },
        };
        if empty_after {
            *listing = None;
            true
        } else {
            false
        }
    }

    /// The state of a domain, derived from directory membership.
    pub fn state_of(&self, domain: &String) -> (r: SiteState)
        ensures
            r == self.spec_state(domain@),
    {
        if self.contains(Side::Enabled, domain) {
            SiteState::Enabled
        } else if self.contains(Side::Disabled, domain) {
            SiteState::Disabled
        } else {
            SiteState::Absent
        }
    }

    /// Creates a site in the enabled directory. A domain already present
    /// there is a collision: the whole operation aborts and nothing changes.
    /// Otherwise the domain joins the enabled listing and the rendered file
    /// text is handed back to be written.
    pub fn create_site(&mut self, domain: &String, target: &String, port: u16) -> (r:
        CreateOutcome)
        requires
            old(self).wf(),
            old(self).enabled is Some,
            domain@.len() > 0,
        ensures
            final(self).wf(),
            r is AlreadyExists <==> old(self).side_has(Side::Enabled, domain@),
            r is AlreadyExists ==> final(self).enabled == old(self).enabled && final(self).disabled
                == old(self).disabled,
            r matches CreateOutcome::Created { content } ==> {
                &&& content@ == site_file_text_spec(domain@, target@, port)
                &&& final(self).enabled is Some
                &&& final(self).side_set(Side::Enabled) == old(self).side_set(
                    Side::Enabled,
                ).insert(domain@)
                &&& (final(self).side_view(Side::Enabled) matches Some(l) && old(self).side_view(
                    Side::Enabled,
                ) matches Some(ol) && l.len() == ol.len() + 1)
                &&& final(self).side_has(Side::Enabled, domain@)
                &&& final(self).disabled == old(self).disabled
            },
    {
        if self.contains(Side::Enabled, domain) {
            return CreateOutcome::AlreadyExists;
        }
        let content = site_file_text(domain.as_str(), target.as_str(), port);
        self.side_insert(Side::Enabled, domain);
        proof {
            lemma_side_membership(*self, Side::Enabled, domain@);
        }
        CreateOutcome::Created { content }
    }

    /// What deleting a domain would run into, in the order the operation
    /// checks: no enabled directory at all, an empty domain, a missing site
    /// file, or a deletion that awaits confirmation.
    pub fn delete_check(&self, domain: &String) -> (r: DeleteCheck)
        ensures
            r == DeleteCheck::NoEnabledDir <==> self.enabled is None,
            r == DeleteCheck::EmptyDomain <==> self.enabled is Some && domain@.len() == 0,
            r == DeleteCheck::NotFound <==> self.enabled is Some && domain@.len() > 0
                && !self.side_has(Side::Enabled, domain@),
            r == DeleteCheck::NeedsConfirmation <==> self.enabled is Some && domain@.len() > 0
                && self.side_has(Side::Enabled, domain@),
    {
        if !self.has_enabled_dir() {
            DeleteCheck::NoEnabledDir
        } else if domain.as_str().is_empty() {
            DeleteCheck::EmptyDomain
        } else if !self.contains(Side::Enabled, domain) {
            DeleteCheck::NotFound
        } else {
            DeleteCheck::NeedsConfirmation
        }
    }

    /// Deletes a site from the enabled directory, gated on confirmation.
    /// Only a confirmed deletion of an existing site changes anything; the
    /// enabled directory itself stays, even when left empty.
    pub fn delete_site(&mut self, domain: &String, confirmed: bool) -> (r: DeleteOutcome)
        requires
            old(self).wf(),
        ensures
            final(self).wf(),
            match r {
                DeleteOutcome::NoEnabledDir => old(self).enabled is None,
                DeleteOutcome::EmptyDomain => old(self).enabled is Some && domain@.len() == 0,
                DeleteOutcome::NotFound => old(self).enabled is Some && domain@.len() > 0 && !old(
                    self,
                ).side_has(Side::Enabled, domain@),
                DeleteOutcome::Declined => old(self).enabled is Some && domain@.len() > 0 && old(
                    self,
                ).side_has(Side::Enabled, domain@) && !confirmed,
                DeleteOutcome::Deleted => old(self).enabled is Some && domain@.len() > 0 && old(
                    self,
                ).side_has(Side::Enabled, domain@) && confirmed,
            },
            !(r is Deleted) ==> final(self).enabled == old(self).enabled && final(self).disabled
                == old(self).disabled,
            r is Deleted ==> {
                &&& final(self).enabled is Some
                &&& final(self).side_set(Side::Enabled) == old(self).side_set(
                    Side::Enabled,
                ).remove(domain@)
                &&& !final(self).side_has(Side::Enabled, domain@)
                &&& final(self).disabled == old(self).disabled
            },
    {
        if !self.has_enabled_dir() {
            return DeleteOutcome::NoEnabledDir;
        }
        if domain.as_str().is_empty() {
            return DeleteOutcome::EmptyDomain;
        }
        if !self.contains(Side::Enabled, domain) {
            return DeleteOutcome::NotFound;
        }
        if !confirmed {
            return DeleteOutcome::Declined;
        }
        match &mut self.enabled {
            Some(v) => {
                let ghost s = views(v@);
                let idx = match find_string(v, domain) {
                    Some(i) => i,
                    None => {
                        proof {
                            assert(false);
                        }
                        0
                    },
                };
                remove_at(v, idx);
                proof {
                    lemma_sorted_remove_to_set(s, idx as int);
                }
            },
            None => {
                proof {
                    assert(false);
                }
            },
        }
        proof {
            lemma_side_membership(*self, Side::Enabled, domain@);
        }
        DeleteOutcome::Deleted
    }

    /// What moving a domain would run into, in the order the operation
    /// checks: an empty domain, a missing source file, a collision at the
    /// destination that awaits confirmation, or a move that is free to go.
    pub fn toggle_check(&self, kind: MoveKind, domain: &String) -> (r: ToggleCheck)
        ensures
            r == ToggleCheck::EmptyDomain <==> domain@.len() == 0,
            r == ToggleCheck::SourceMissing <==> domain@.len() > 0 && !self.side_has(
                source_side(kind),
                domain@,
            ),
            r == ToggleCheck::NeedsConfirmation <==> domain@.len() > 0 && self.side_has(
                source_side(kind),
                domain@,
            ) && self.side_has(target_side(kind), domain@),
            r == ToggleCheck::Ready <==> domain@.len() > 0 && self.side_has(
                source_side(kind),
                domain@,
            ) && !self.side_has(target_side(kind), domain@),
    {
        let source = match kind {
            MoveKind::Enable => Side::Disabled,
            MoveKind::Disable => Side::Enabled,
        };
        let target = match kind {
            MoveKind::Enable => Side::Enabled,
            MoveKind::Disable => Side::Disabled,
        };
        if domain.as_str().is_empty() {
            ToggleCheck::EmptyDomain
        } else if !self.contains(source, domain) {
            ToggleCheck::SourceMissing
        } else if self.contains(target, domain) {
            ToggleCheck::NeedsConfirmation
        } else {
            ToggleCheck::Ready
        }
    }

    /// Moves a site between the two directories: the state transition. A
    /// collision at the destination must have been confirmed, and the moved
    /// site then replaces it. A source directory left empty goes away; a
    /// destination directory that was absent is made, and both are reported
    /// so the caller can mirror them on disk.
    pub fn toggle_site(&mut self, kind: MoveKind, domain: &String, confirmed: bool) -> (r:
        ToggleOutcome)
        requires
            old(self).wf(),
        ensures
            final(self).wf(),
            match r {
                ToggleOutcome::EmptyDomain => domain@.len() == 0,
                ToggleOutcome::SourceMissing => domain@.len() > 0 && !old(self).side_has(
                    source_side(kind),
                    domain@,
                ),
                ToggleOutcome::Declined => domain@.len() > 0 && old(self).side_has(
                    source_side(kind),
                    domain@,
                ) && old(self).side_has(target_side(kind), domain@) && !confirmed,
                ToggleOutcome::Moved { made_target_dir, removed_source_dir } => domain@.len() > 0
                    && old(self).side_has(source_side(kind), domain@) && (old(self).side_has(
                    target_side(kind),
                    domain@,
                ) ==> confirmed),
            },
            !(r is Moved) ==> final(self).enabled == old(self).enabled && final(self).disabled
                == old(self).disabled,
            r matches ToggleOutcome::Moved { made_target_dir, removed_source_dir } ==> {
                &&& made_target_dir == (old(self).side_view(target_side(kind)) is None)
                &&& final(self).side_view(target_side(kind)) is Some
                &&& final(self).side_set(target_side(kind)) == old(self).side_set(
                    target_side(kind),
                ).insert(domain@)
                &&& removed_source_dir == (final(self).side_view(source_side(kind)) is None)
                &&& final(self).side_set(source_side(kind)) == old(self).side_set(
                    source_side(kind),
                ).remove(domain@)
                &&& (old(self).side_view(source_side(kind)) matches Some(l) && (removed_source_dir
                    <==> l.len() == 1))
                &&& final(self).side_has(target_side(kind), domain@)
                &&& !final(self).side_has(source_side(kind), domain@)
            },
    {
        let source = match kind {
            MoveKind::Enable => Side::Disabled,
            MoveKind::Disable => Side::Enabled,
        };
        let target = match kind {
            MoveKind::Enable => Side::Enabled,
            MoveKind::Disable => Side::Disabled,
        };
        if domain.as_str().is_empty() {
            return ToggleOutcome::EmptyDomain;
        }
        if !self.contains(source, domain) {
            return ToggleOutcome::SourceMissing;
        }
        if self.contains(target, domain) && !confirmed {
            return ToggleOutcome::Declined;
        }
        let made_target_dir = self.side_insert(target, domain);
        let removed_source_dir = self.side_remove(source, domain);
        proof {
            lemma_side_membership(*self, target_side(kind), domain@);
            lemma_side_membership(*self, source_side(kind), domain@);
        }
        ToggleOutcome::Moved { made_target_dir, removed_source_dir }
    }
}

/// `n` spaces.
pub open spec fn space_fill(n: nat) -> Seq<char> {
    Seq::new(n, |i: int| ' ')
}

/// `s` padded on the right with spaces to `w` characters; a longer `s`
/// stands as it is.
pub open spec fn pad_right(s: Seq<char>, w: nat) -> Seq<char> {
    if s.len() >= w {
        s
    } else {
        s + space_fill((w - s.len()) as nat)
    }
}

/// One line of the site table: the padded name, a column bar, the status.
pub open spec fn table_row(name: Seq<char>, status: Seq<char>, w: nat) -> Seq<char> {
    pad_right(name, w) + " ┃ "@ + status
}

/// The horizontal rule of the site table: dashes across the name column, the
/// column bar and the status column.
pub open spec fn rule_line(w: nat) -> Seq<char> {
    Seq::new(w + 9, |i: int| '-')
}

/// The length of the longest name in a listing.
pub open spec fn max_name_len(names: Seq<Seq<char>>) -> nat
    decreases names.len(),
{
    if names.len() == 0 {
        0
    } else {
        let rest = max_name_len(names.drop_last());
        if names.last().len() > rest {
            names.last().len()
        } else {
            rest
        }
    }
}

/// Pads `s` on the right with spaces to `w` characters.
fn pad_right_exec(s: &str, w: usize) -> (r: String)
    ensures
        r@ == pad_right(s@, w as nat),
{
    let len = s.unicode_len();
    let mut r = String::from_str(s);
    if len >= w {
        return r;
    }
    let mut i: usize = 0;
    while i < w - len
        invariant
            len < w,
            i <= w - len,
            r@ =~= s@ + space_fill(i as nat),
        decreases w - len - i,
    {
        r.append(" ");
        proof {
            reveal_strlit(" ");
            assert(r@ =~= s@ + space_fill((i + 1) as nat));
        }
        i += 1;
    }
    r
}

/// Renders one line of the site table.
fn table_row_exec(name: &str, status: &str, w: usize) -> (r: String)
    ensures
        r@ == table_row(name@, status@, w as nat),
{
    let mut r = pad_right_exec(name, w);
    r.append(" ┃ ");
    r.append(status);
    proof {
        assert(r@ =~= table_row(name@, status@, w as nat));
    }
    r
}

/// Renders the horizontal rule of the site table.
fn rule_line_exec(w: usize) -> (r: String)
    requires
        w + 9 <= usize::MAX,
    ensures
        r@ == rule_line(w as nat),
{
    let mut r = String::new();
    let mut i: usize = 0;
    while i < w + 9
        invariant
            w + 9 <= usize::MAX,
            i <= w + 9,
            r@ =~= Seq::new(i as nat, |k: int| '-'),
        decreases w + 9 - i,
    {
        r.append("-");
        proof {
            reveal_strlit("-");
            assert(r@ =~= Seq::new((i + 1) as nat, |k: int| '-'));
        }
        i += 1;
    }
    r
}

/// The length of the longest name in a listing.
fn max_name_len_exec(v: &Vec<String>) -> (r: usize)
    ensures
        r == max_name_len(views(v@)),
{
    let mut best: usize = 0;
    let mut i: usize = 0;
    proof {
        assert(views(v@).take(0) =~= Seq::<Seq<char>>::empty());
    }
    while i < v.len()
        invariant
            i <= v@.len(),
            best == max_name_len(views(v@).take(i as int)),
        decreases v@.len() - i,
    {
        let len = v[i].as_str().unicode_len();
        if len > best {
            best = len;
        }
        proof {
            assert(views(v@).take(i + 1).drop_last() =~= views(v@).take(i as int));
            assert(views(v@).take(i + 1).last() == views(v@)[i as int]);
        }
        i += 1;
    }
    proof {
        assert(views(v@).take(v@.len() as int) =~= views(v@));
    }
    best
}

impl SiteDirs {
    /// The names listed for one directory; an absent directory lists none.
    pub open spec fn side_names(&self, side: Side) -> Seq<Seq<char>> {
        match self.side_view(side) {
            Some(l) => l,
            None => Seq::empty(),
        }
    }

    /// The width of the table's name column: the longest name across both
    /// directories, and at least the width of the `Site` heading.
    pub open spec fn table_width(&self) -> nat {
        let me = max_name_len(self.side_names(Side::Enabled));
        let md = max_name_len(self.side_names(Side::Disabled));
        let m = if me >= md {
            me
        } else {
            md
        };
        if m < 4 {
            4
        } else {
            m
        }
    }

    /// The lines of the site table: a heading and a rule, the enabled sites,
    /// a rule between the sections when both have sites, the disabled sites.
    pub open spec fn table_lines(&self) -> Seq<Seq<char>> {
        let w = self.table_width();
        let head = seq![table_row("Site"@, "Status"@, w), rule_line(w)];
        let en = self.side_names(Side::Enabled).map_values(
            |n: Seq<char>| table_row(n, "enabled"@, w),
        );
        let dis = self.side_names(Side::Disabled).map_values(
            |n: Seq<char>| table_row(n, "disabled"@, w),
        );
        if en.len() > 0 && dis.len() > 0 {
            head + en + seq![rule_line(w)] + dis
        } else {
            head + en + dis
        }
    }

    /// Renders the site table, one line per entry.
    pub fn render_table(&self) -> (r: Vec<String>)
        requires
            self.table_width() + 9 <= usize::MAX,
        ensures
            views(r@) == self.table_lines(),
    {
        let empty_vec: Vec<String> = Vec::new();
        let en = match &self.enabled {
            Some(v) => v,
            None => &empty_vec,
        };
        let dis = match &self.disabled {
            Some(v) => v,
            None => &empty_vec,
        };
        proof {
            assert(views(empty_vec@) =~= Seq::<Seq<char>>::empty());
            assert(views(en@) == self.side_names(Side::Enabled));
            assert(views(dis@) == self.side_names(Side::Disabled));
        }
        let me = max_name_len_exec(en);
        let md = max_name_len_exec(dis);
        let mut w: usize = if me >= md {
            me
        } else {
            md
        };
        if w < 4 {
            w = 4;
        }
        proof {
            assert(w as nat == self.table_width());
        }
        let ghost w_spec = self.table_width();
        let ghost en_rows = self.side_names(Side::Enabled).map_values(
            |n: Seq<char>| table_row(n, "enabled"@, w_spec),
        );
        let ghost dis_rows = self.side_names(Side::Disabled).map_values(
            |n: Seq<char>| table_row(n, "disabled"@, w_spec),
        );
        let mut lines: Vec<String> = Vec::new();
        lines.push(table_row_exec("Site", "Status", w));
        lines.push(rule_line_exec(w));
        let ghost head = seq![
            table_row("Site"@, "Status"@, w_spec),
            rule_line(w_spec),
        ];
        proof {
            assert(views(lines@) =~= head);
            assert(views(lines@) =~= head + en_rows.take(0));
        }
        let mut i: usize = 0;
        while i < en.len()
            invariant
                i <= en@.len(),
                w as nat == w_spec,
                en_rows == views(en@).map_values(|n: Seq<char>| table_row(n, "enabled"@, w_spec)),
                en_rows.len() == en@.len(),
                views(lines@) =~= head + en_rows.take(i as int),
            decreases en@.len() - i,
        {
            let ghost before = views(lines@);
            let row = table_row_exec(en[i].as_str(), "enabled", w);
            lines.push(row);
            proof {
                assert(en_rows[i as int] == table_row(views(en@)[i as int], "enabled"@, w_spec));
                assert(row@ == en_rows[i as int]);
                assert(views(lines@) =~= before.push(en_rows[i as int]));
                assert(en_rows.take(i + 1) =~= en_rows.take(i as int).push(en_rows[i as int]));
                assert(views(lines@) =~= head + en_rows.take(i + 1));
            }
            i += 1;
        }
        proof {
            assert(en_rows.take(en@.len() as int) =~= en_rows);
        }
        if !en.is_empty() && !dis.is_empty() {
            lines.push(rule_line_exec(w));
            proof {
                assert(views(lines@) =~= head + en_rows + seq![rule_line(w_spec)] + dis_rows.take(
                    0,
                ));
            }
        } else {
            proof {
                assert(views(lines@) =~= head + en_rows + dis_rows.take(0));
            }
        }
        let ghost mid = views(lines@);
        let mut j: usize = 0;
        while j < dis.len()
            invariant
                j <= dis@.len(),
                w as nat == w_spec,
                dis_rows == views(dis@).map_values(
                    |n: Seq<char>| table_row(n, "disabled"@, w_spec),
                ),
                dis_rows.len() == dis@.len(),
                views(lines@) =~= mid + dis_rows.take(j as int),
            decreases dis@.len() - j,
        {
            let ghost before = views(lines@);
            let row = table_row_exec(dis[j].as_str(), "disabled", w);
            lines.push(row);
            proof {
                assert(dis_rows[j as int] == table_row(views(dis@)[j as int], "disabled"@, w_spec));
                assert(row@ == dis_rows[j as int]);
                assert(views(lines@) =~= before.push(dis_rows[j as int]));
                assert(dis_rows.take(j + 1) =~= dis_rows.take(j as int).push(dis_rows[j as int]));
                assert(views(lines@) =~= mid + dis_rows.take(j + 1));
            }
            j += 1;
        }
        proof {
            assert(dis_rows.take(dis@.len() as int) =~= dis_rows);
            assert(views(lines@) =~= self.table_lines());
        }
        lines
    }
}

/// Membership in a directory's listing and in the set of its sites agree.
pub proof fn lemma_side_membership(dirs: SiteDirs, side: Side, domain: Seq<char>)
    ensures
        dirs.side_has(side, domain) <==> dirs.side_set(side).contains(domain),
{
    match dirs.side_view(side) {
        Some(l) => {
            assert(l.to_set().contains(domain) <==> l.contains(domain));
        },
        None => {
        },
    }
}

/// The outcome of creating a site.
pub enum CreateOutcome {
    AlreadyExists,
    Created { content: String },
}

/// What deleting a domain would run into.
#[derive(Clone, Copy, PartialEq, Eq, Structural, Debug)]
pub enum DeleteCheck {
    NoEnabledDir,
    EmptyDomain,
    NotFound,
    NeedsConfirmation,
}

/// The outcome of deleting a site.
#[derive(Clone, Copy, PartialEq, Eq, Structural, Debug)]
pub enum DeleteOutcome {
    NoEnabledDir,
    EmptyDomain,
    NotFound,
    Declined,
    Deleted,
}

/// What moving a domain would run into.
#[derive(Clone, Copy, PartialEq, Eq, Structural, Debug)]
pub enum ToggleCheck {
    EmptyDomain,
    SourceMissing,
    NeedsConfirmation,
    Ready,
}

/// The outcome of moving a site between the directories.
#[derive(Clone, Copy, PartialEq, Eq, Structural, Debug)]
pub enum ToggleOutcome {
    EmptyDomain,
    SourceMissing,
    Declined,
    Moved { made_target_dir: bool, removed_source_dir: bool },
}

} // verus!
