//! The state of the checklist page: which entries are shown, how one is
//! marked done, and what each message of the page changes.
use crate::data::World;
use crate::entry::{entries_view, entry_key, Entry, EntryView};
use crate::text::{contains, contains_seq, lower_of, lowercase};
use vstd::prelude::*;

verus! {

/// Which entries the list shows by their completion.
#[derive(Clone, Copy, Debug, PartialEq, Eq, Structural)]
pub enum Filter {
    All,
    Active,
    Completed,
}

/// An event worth counting in the page's statistics.
#[derive(Clone, Copy, Debug, PartialEq, Eq, Structural)]
pub enum Goal {
    MarkItemAsComplete,
    MarkItemAsIncomplete,
    VisitGunfireGames,
    VisitPersonalSite,
}

/// What the page asks of the state.
pub enum Msg {
    SetFilter(Filter),
    ShareApp(String),
    Toggle(String),
    TrackGoal(Goal),
    UpdateSearch(String),
    UpdateWorld(World),
}

/// What the page must do after a message, besides drawing itself anew.
pub enum Action {
    Nothing,
    /// Offer the page at this address to the system's share sheet.
    Share(String),
    /// Count the goal.
    Track(Goal),
    /// Count the goal and save the entries, which have changed.
    Save(Goal),
}

/// The answer to a message: whether to draw the page anew, and what to do.
pub struct Update {
    pub render: bool,
    pub action: Action,
}

pub struct State {
    pub entries: Vec<Entry>,
    pub filter: Filter,
    pub search: String,
    pub world: World,
}

/// An entry that is done, or not, passes the filter.
pub open spec fn fits(f: Filter, completed: bool) -> bool {
    match f {
        Filter::All => true,
        Filter::Active => !completed,
        Filter::Completed => completed,
    }
}

pub open spec fn filter_href(f: Filter) -> Seq<char> {
    match f {
        Filter::All => "#/"@,
        Filter::Active => "#/active"@,
        Filter::Completed => "#/completed"@,
    }
}

pub open spec fn filter_name(f: Filter) -> Seq<char> {
    match f {
        Filter::All => "All"@,
        Filter::Active => "Active"@,
        Filter::Completed => "Completed"@,
    }
}

/// How many of the entries are not done.
pub open spec fn count_incomplete(s: Seq<EntryView>) -> nat
    decreases s.len(),
{
    if s.len() == 0 {
        0
    } else {
        count_incomplete(s.drop_last()) + if s.last().completed {
            0nat
        } else {
            1nat
        }
    }
}

/// Position `i` holds the first entry whose page id is `id`.
pub open spec fn first_with_key(s: Seq<EntryView>, id: Seq<char>, i: int) -> bool {
    0 <= i < s.len() && entry_key(s[i].data_type, s[i].id) == id && forall|k: int|
        0 <= k < i ==> entry_key(s[k].data_type, s[k].id) != id
}

/// Some entry has the page id `id`.
pub open spec fn has_key(s: Seq<EntryView>, id: Seq<char>) -> bool {
    exists|i: int| 0 <= i < s.len() && entry_key(s[i].data_type, s[i].id) == id
}

/// `after` is `before` with the first entry whose page id is `id` turned
/// over, and that entry is now done exactly when `done` holds.
pub open spec fn toggled(before: Seq<EntryView>, after: Seq<EntryView>, id: Seq<char>, done: bool) -> bool {
    exists|i: int|
        #[trigger] first_with_key(before, id, i) && after == before.update(
            i,
            EntryView { completed: !before[i].completed, ..before[i] },
        ) && done == !before[i].completed
}

/// The list shows an entry that passes the filter, can be found in the
/// chosen world, and whose name holds the search text, both in lower case.
pub open spec fn shows(
    filter: Filter,
    world: World,
    search: Seq<char>,
    e: EntryView,
) -> bool {
    fits(filter, e.completed) && e.worlds.contains(world) && contains_seq(
        lower_of(e.name),
        lower_of(search),
    )
}

impl Filter {
    /// Whether the list shows `entry` under this filter.
    pub fn fit(&self, entry: &Entry) -> (r: bool)
        ensures
            r == fits(*self, entry.completed),
    {
        match *self {
            Filter::All => true,
            Filter::Active => !entry.completed,
            Filter::Completed => entry.completed,
        }
    }

    /// The address fragment of the filter.
    pub fn href(&self) -> (r: &'static str)
        ensures
            r@ == filter_href(*self),
    {
        match *self {
            Filter::All => "#/",
            Filter::Active => "#/active",
            Filter::Completed => "#/completed",
        }
    }

    /// The name of the filter as the player reads it.
    pub fn as_str(&self) -> (r: &'static str)
        ensures
            r@ == filter_name(*self),
    {
        match *self {
            Filter::All => "All",
            Filter::Active => "Active",
            Filter::Completed => "Completed",
        }
    }

    /// Every filter, in declaration order.
    pub fn all() -> (r: Vec<Filter>)
        ensures
            r@ == seq![Filter::All, Filter::Active, Filter::Completed],
    {
        let r = vec![Filter::All, Filter::Active, Filter::Completed];
        assert(r@ =~= seq![Filter::All, Filter::Active, Filter::Completed]);
        r
    }
}

/// Whether `worlds` holds `world`.
fn has_world(worlds: &Vec<World>, world: World) -> (r: bool)
    ensures
        r == worlds@.contains(world),
{
    let mut i: usize = 0;
    while i < worlds.len()
        invariant
            i <= worlds@.len(),
            forall|k: int| 0 <= k < i ==> worlds@[k] != world,
        decreases worlds@.len() - i,
    {
        if worlds[i] == world {
            assert(worlds@[i as int] == world);
            return true;
        }
        i = i + 1;
    }
    false
}

/// Whether the list shows an entry whose lower-case name is `name_lower`,
/// when the lower-case search text is `search_lower`.
pub fn matches_folded(
    filter: Filter,
    world: World,
    search_lower: &str,
    entry: &Entry,
    name_lower: &str,
) -> (r: bool)
    ensures
        r == (fits(filter, entry.completed) && entry.worlds@.contains(world) && contains_seq(
            name_lower@,
            search_lower@,
        )),
{
    filter.fit(entry) && has_world(&entry.worlds, world) && contains(name_lower, search_lower)
}

impl State {
    /// A fresh page over `entries`: open entries of any world, no search.
    pub fn new(entries: Vec<Entry>) -> (r: State)
        ensures
            r.entries == entries,
            r.filter == Filter::Active,
            r.search@ == Seq::<char>::empty(),
            r.world == World::Any,
    {
        State { entries, filter: Filter::Active, search: String::new(), world: World::Any }
    }

    /// How many entries are not done.
    pub fn total_incomplete(&self) -> (r: usize)
        ensures
            r == count_incomplete(entries_view(self.entries@)),
    {
        let ghost ev = entries_view(self.entries@);
        let mut n: usize = 0;
        let mut i: usize = 0;
        while i < self.entries.len()
            invariant
                i <= self.entries@.len(),
                ev == entries_view(self.entries@),
                n == count_incomplete(ev.subrange(0, i as int)),
                n <= i,
            decreases self.entries@.len() - i,
        {
            proof {
                assert(ev.subrange(0, i + 1).drop_last() =~= ev.subrange(0, i as int));
                assert(ev[i as int] == self.entries@[i as int]@);
            }
            if !self.entries[i].completed {
                n = n + 1;
            }
            i = i + 1;
        }
        assert(ev.subrange(0, self.entries@.len() as int) =~= ev);
        n
    }

    /// Where the first entry whose page id is `id` stands, if any does.
    pub fn position(&self, id: &str) -> (r: Option<usize>)
        ensures
            match r {
                Some(i) => first_with_key(entries_view(self.entries@), id@, i as int),
                None => !has_key(entries_view(self.entries@), id@),
            },
    {
        let ghost ev = entries_view(self.entries@);
        let mut i: usize = 0;
        while i < self.entries.len()
            invariant
                i <= self.entries@.len(),
                ev == entries_view(self.entries@),
                forall|k: int| 0 <= k < i ==> entry_key(ev[k].data_type, ev[k].id) != id@,
            decreases self.entries@.len() - i,
        {
            let key = self.entries[i].id();
            assert(ev[i as int] == self.entries@[i as int]@);
            if crate::text::same(key.as_str(), id) {
                return Some(i);
            }
            i = i + 1;
        }
        None
    }

    /// Turns over the first entry whose page id is `id`, and says whether it
    /// is now done.
    pub fn toggle(&mut self, id: &str) -> (r: bool)
        requires
            has_key(entries_view(old(self).entries@), id@),
        ensures
            toggled(entries_view(old(self).entries@), entries_view(final(self).entries@), id@, r),
            final(self).filter == old(self).filter,
            final(self).search == old(self).search,
            final(self).world == old(self).world,
    {
        let ghost before = entries_view(self.entries@);
        match self.position(id) {
            Some(i) => {
                let mut e = self.entries.remove(i);
                e.completed = !e.completed;
                let done = e.completed;
                self.entries.insert(i, e);
                assert(entries_view(self.entries@) =~= before.update(
                    i as int,
                    EntryView { completed: !before[i as int].completed, ..before[i as int] },
                ));
                assert(first_with_key(before, id@, i as int));
                done
            },
            None => {
                assert(false);
                false
            },
        }
    }

    /// Whether the list shows `entry`.
    pub fn is_visible(&self, entry: &Entry) -> (r: bool)
        ensures
            r == shows(self.filter, self.world, self.search@, entry@),
    {
        let name_lower = lowercase(entry.name.as_str());
        let search_lower = lowercase(self.search.as_str());
        matches_folded(
            self.filter,
            self.world,
            search_lower.as_str(),
            entry,
            name_lower.as_str(),
        )
    }

    /// Answers a message of the page: changes the state as it asks and says
    /// what the page must do. A message to turn over an entry must name one.
    pub fn update(&mut self, msg: Msg) -> (r: Update)
        requires
            msg matches Msg::Toggle(id) ==> has_key(entries_view(old(self).entries@), id@),
        ensures
            match msg {
                Msg::SetFilter(f) => *final(self) == State { filter: f, ..*old(self) } && r.render
                    && r.action is Nothing,
                Msg::ShareApp(url) => *final(self) == *old(self) && !r.render && r.action
                    == Action::Share(url),
                Msg::Toggle(id) => exists|done: bool|
                    toggled(
                        entries_view(old(self).entries@),
                        entries_view(final(self).entries@),
                        id@,
                        done,
                    ) && final(self).filter == old(self).filter && final(self).search == old(
                        self,
                    ).search && final(self).world == old(self).world && r.render && r.action
                        == Action::Save(
                        if done {
                            Goal::MarkItemAsComplete
                        } else {
                            Goal::MarkItemAsIncomplete
                        },
                    ),
                Msg::TrackGoal(g) => *final(self) == *old(self) && !r.render && r.action
                    == Action::Track(g),
                Msg::UpdateSearch(s) => *final(self) == State { search: s, ..*old(self) }
                    && r.render && r.action is Nothing,
                Msg::UpdateWorld(w) => *final(self) == State { world: w, ..*old(self) }
                    && r.render && r.action is Nothing,
            },
    {
        match msg {
            Msg::SetFilter(f) => {
                self.filter = f;
                Update { render: true, action: Action::Nothing }
            },
            Msg::ShareApp(url) => Update { render: false, action: Action::Share(url) },
            Msg::Toggle(id) => {
                let done = self.toggle(id.as_str());
                let goal = if done {
                    Goal::MarkItemAsComplete
                } else {
                    Goal::MarkItemAsIncomplete
                };
                Update { render: true, action: Action::Save(goal) }
            },
            Msg::TrackGoal(g) => Update { render: false, action: Action::Track(g) },
            Msg::UpdateSearch(s) => {
                self.search = s;
                Update { render: true, action: Action::Nothing }
            },
            Msg::UpdateWorld(w) => {
                self.world = w;
                Update { render: true, action: Action::Nothing }
            },
        }
    }
}

/// Turning over the same entry twice gives back the entries as they were,
/// and the second turn reports the opposite of the first.
pub proof fn lemma_toggle_twice(
    a: Seq<EntryView>,
    b: Seq<EntryView>,
    c: Seq<EntryView>,
    id: Seq<char>,
    first: bool,
    second: bool,
)
    requires
        toggled(a, b, id, first),
        toggled(b, c, id, second),
    ensures
        c == a,
        second == !first,
{
    let i = choose|i: int|
        #[trigger] first_with_key(a, id, i) && b == a.update(
            i,
            EntryView { completed: !a[i].completed, ..a[i] },
        ) && first == !a[i].completed;
    let j = choose|j: int|
        #[trigger] first_with_key(b, id, j) && c == b.update(
            j,
            EntryView { completed: !b[j].completed, ..b[j] },
        ) && second == !b[j].completed;
    assert forall|k: int| 0 <= k < a.len() implies #[trigger] b[k].data_type == a[k].data_type
        && b[k].id == a[k].id by {}
    if j < i {
        assert(entry_key(a[j].data_type, a[j].id) != id);
    }
    if i < j {
        assert(entry_key(b[i].data_type, b[i].id) != id);
    }
    assert(i == j);
    assert(c =~= a);
}

} // verus!
