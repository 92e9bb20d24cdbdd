use remnant_checklist::data::{ItemType, World};
use remnant_checklist::entry::Entry;
use remnant_checklist::state::{matches_folded, Action, Filter, Goal, Msg, State};

fn entry(completed: bool, data_type: ItemType, id: u32, name: &str, worlds: Vec<World>) -> Entry {
    Entry {
        completed,
        data_type,
        id,
        name: name.into(),
        url: "https://example.com".into(),
        worlds,
    }
}

fn sample() -> State {
    State::new(vec![
        entry(false, ItemType::Ring, 1, "Akari War Band", vec![World::Yaesha, World::Any]),
        entry(true, ItemType::Ring, 2, "Volatile Gem", vec![World::Rhom, World::Any]),
        entry(false, ItemType::Amulet, 1, "White Rose", vec![World::Earth, World::Any]),
    ])
}

#[test]
fn new_state_shows_open_entries_of_any_world() {
    let state = sample();
    assert_eq!(Filter::Active, state.filter);
    assert_eq!(World::Any, state.world);
    assert_eq!("", state.search);
    assert_eq!(3, state.entries.len());
}

#[test]
fn entry_id_joins_slug_and_number() {
    let state = sample();
    assert_eq!("ring-1", state.entries[0].id());
    assert_eq!("amulet-1", state.entries[2].id());
    assert_eq!("melee-weapon-4294967295", entry(false, ItemType::MeleeWeapon, u32::MAX, "x", vec![]).id());
}

#[test]
fn total_incomplete_counts_open_entries() {
    let mut state = sample();
    assert_eq!(2, state.total_incomplete());
    state.entries.clear();
    assert_eq!(0, state.total_incomplete());
}

#[test]
fn toggle_turns_over_the_named_entry() {
    let mut state = sample();
    assert!(state.toggle("amulet-1"));
    assert!(state.entries[2].completed);
    assert!(!state.entries[0].completed);
    assert_eq!(1, state.total_incomplete());
    assert!(!state.toggle("ring-2"));
    assert!(!state.entries[1].completed);
}

#[test]
fn toggle_twice_restores_the_entry() {
    let mut state = sample();
    let first = state.toggle("ring-1");
    let second = state.toggle("ring-1");
    assert!(first);
    assert!(!second);
    assert!(!state.entries[0].completed);
}

#[test]
fn position_finds_the_first_entry_with_the_id() {
    let state = sample();
    assert_eq!(Some(1), state.position("ring-2"));
    assert_eq!(None, state.position("ring-3"));
    assert_eq!(None, state.position("Ring-1"));
}

#[test]
fn filters_fit_by_completion() {
    let open = entry(false, ItemType::Mod, 1, "Banish", vec![]);
    let done = entry(true, ItemType::Mod, 2, "Beckon", vec![]);
    assert!(Filter::All.fit(&open) && Filter::All.fit(&done));
    assert!(Filter::Active.fit(&open) && !Filter::Active.fit(&done));
    assert!(!Filter::Completed.fit(&open) && Filter::Completed.fit(&done));
}

#[test]
fn filter_names_and_addresses() {
    assert_eq!(vec![Filter::All, Filter::Active, Filter::Completed], Filter::all());
    assert_eq!("#/", Filter::All.href());
    assert_eq!("#/active", Filter::Active.href());
    assert_eq!("#/completed", Filter::Completed.href());
    assert_eq!("Completed", Filter::Completed.as_str());
}

#[test]
fn visibility_ignores_case_of_name_and_search() {
    let mut state = sample();
    state.search = String::from("WAR b");
    assert!(state.is_visible(&state.entries[0]));
    assert!(!state.is_visible(&state.entries[2]));
    state.search = String::new();
    assert!(state.is_visible(&state.entries[2]));
}

#[test]
fn visibility_follows_filter_and_world() {
    let mut state = sample();
    assert!(!state.is_visible(&state.entries[1]));
    state.filter = Filter::Completed;
    assert!(state.is_visible(&state.entries[1]));
    state.world = World::Earth;
    assert!(!state.is_visible(&state.entries[1]));
    state.filter = Filter::All;
    assert!(state.is_visible(&state.entries[2]));
}

#[test]
fn matches_folded_takes_folded_text_as_given() {
    let e = entry(false, ItemType::Ring, 1, "Akari War Band", vec![World::Any]);
    assert!(matches_folded(Filter::All, World::Any, "war", &e, "akari war band"));
    assert!(!matches_folded(Filter::All, World::Any, "WAR", &e, "akari war band"));
    assert!(!matches_folded(Filter::Completed, World::Any, "war", &e, "akari war band"));
    assert!(!matches_folded(Filter::All, World::Rhom, "", &e, "akari war band"));
}

#[test]
fn update_sets_filter_search_and_world() {
    let mut state = sample();
    let u = state.update(Msg::SetFilter(Filter::All));
    assert!(u.render && matches!(u.action, Action::Nothing));
    assert_eq!(Filter::All, state.filter);
    let u = state.update(Msg::UpdateSearch(String::from("rose")));
    assert!(u.render && matches!(u.action, Action::Nothing));
    assert_eq!("rose", state.search);
    let u = state.update(Msg::UpdateWorld(World::Earth));
    assert!(u.render && matches!(u.action, Action::Nothing));
    assert_eq!(World::Earth, state.world);
}

#[test]
fn update_toggle_asks_to_save() {
    let mut state = sample();
    let u = state.update(Msg::Toggle(String::from("ring-1")));
    assert!(u.render);
    assert!(matches!(u.action, Action::Save(Goal::MarkItemAsComplete)));
    let u = state.update(Msg::Toggle(String::from("ring-2")));
    assert!(matches!(u.action, Action::Save(Goal::MarkItemAsIncomplete)));
    assert_eq!(2, state.total_incomplete());
}

#[test]
fn update_share_and_track_change_nothing() {
    let mut state = sample();
    let u = state.update(Msg::ShareApp(String::from("https://example.com")));
    assert!(!u.render);
    match u.action {
        Action::Share(url) => assert_eq!("https://example.com", url),
        _ => panic!("expected a share"),
    }
    let u = state.update(Msg::TrackGoal(Goal::VisitPersonalSite));
    assert!(!u.render && matches!(u.action, Action::Track(Goal::VisitPersonalSite)));
    assert_eq!(Filter::Active, state.filter);
}
