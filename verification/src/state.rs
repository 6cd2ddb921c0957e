//! The snapshot of the device's state, the full reload that fills it, and
//! the diff that every poll runs against it.

use crate::cameras::{decoded_roster, get_cameras, names_of, Cameras};
use crate::color_space::{
    catalogue, entry_views, get_color_space, get_color_spaces, ColorSpace, ColorSpaceEntry,
    ColorSpaceEntryView, ColorSpacesNames,
};
use crate::common::{
    changed_names, changed_text, contains_name, same_names, same_roster, set_if_changed,
};
use crate::decode::{decoded_scalar, DecodeError};
use crate::input_output::{
    get_input_output, input_output_table, input_outputs, pairs_of, InputOutput, InputOutputs,
};
use vstd::prelude::*;

verus! {

/// The last known state of the device, and the color-space names that were
/// known at the last full reload.
#[derive(Debug)]
pub struct AppState {
    pub color_spaces_names: ColorSpacesNames,
    pub color_space: ColorSpace,
    pub input_output: InputOutput,
    pub cameras: Cameras,
}

/// The mathematical content of an `AppState`.
pub struct Snapshot {
    pub known_color_space_names: Set<Seq<char>>,
    pub color_space: Seq<char>,
    pub input_output: Seq<char>,
    pub cameras: Seq<Seq<char>>,
}

/// What one round of requests to the device brought.
pub struct Reading {
    pub color_space: Seq<char>,
    pub input_output: Seq<char>,
    pub cameras: Seq<Seq<char>>,
}

impl View for AppState {
    type V = Snapshot;

    open spec fn view(&self) -> Snapshot {
        Snapshot {
            known_color_space_names: names_of(self.color_spaces_names@).to_set(),
            color_space: self.color_space@,
            input_output: self.input_output@,
            cameras: names_of(self.cameras@),
        }
    }
}

impl AppState {
    /// No known name is held twice.
    pub open spec fn wf(&self) -> bool {
        names_of(self.color_spaces_names@).no_duplicates()
    }
}

impl Default for AppState {
    fn default() -> (state: Self)
        ensures
            state.wf(),
            state@ == (Snapshot {
                known_color_space_names: Set::empty(),
                color_space: Seq::empty(),
                input_output: Seq::empty(),
                cameras: Seq::empty(),
            }),
    {
        let state = AppState {
            color_spaces_names: Vec::new(),
            color_space: String::new(),
            input_output: String::new(),
            cameras: Vec::new(),
        };
        assert(names_of(state.color_spaces_names@).to_set() =~= Set::<Seq<char>>::empty());
        assert(names_of(state.cameras@) =~= Seq::<Seq<char>>::empty());
        state
    }
}

/// What changed since the last poll: a field is present exactly when its
/// value changed.
#[derive(Debug, Clone)]
pub struct Updates {
    pub current_color_space: Option<ColorSpace>,
    pub current_input_output: Option<InputOutput>,
    pub cameras: Option<Cameras>,
}

/// The mathematical content of an `Updates`.
pub struct UpdatesView {
    pub current_color_space: Option<Seq<char>>,
    pub current_input_output: Option<Seq<char>>,
    pub cameras: Option<Seq<Seq<char>>>,
}

/// The characters of an optional text.
pub open spec fn text_of(text: Option<String>) -> Option<Seq<char>> {
    match text {
        Some(text) => Some(text@),
        None => None,
    }
}

impl View for Updates {
    type V = UpdatesView;

    open spec fn view(&self) -> UpdatesView {
        UpdatesView {
            current_color_space: text_of(self.current_color_space),
            current_input_output: text_of(self.current_input_output),
            cameras: match self.cameras {
                Some(cameras) => Some(names_of(cameras@)),
                None => None,
            },
        }
    }
}

impl Default for Updates {
    fn default() -> (updates: Self)
        ensures
            updates@ == (UpdatesView {
                current_color_space: None,
                current_input_output: None,
                cameras: None,
            }),
    {
        Updates { current_color_space: None, current_input_output: None, cameras: None }
    }
}

/// The full state that a reload hands to the panel.
#[derive(Debug, Clone)]
pub struct InitState {
    pub color_spaces: Vec<ColorSpaceEntry>,
    pub color_space: ColorSpace,
    pub input_outputs: InputOutputs,
    pub input_output: InputOutput,
    pub cameras: Cameras,
}

/// The mathematical content of an `InitState`.
pub struct InitStateView {
    pub color_spaces: Seq<ColorSpaceEntryView>,
    pub color_space: Seq<char>,
    pub input_outputs: Seq<(Seq<char>, Seq<char>)>,
    pub input_output: Seq<char>,
    pub cameras: Seq<Seq<char>>,
}

impl View for InitState {
    type V = InitStateView;

    open spec fn view(&self) -> InitStateView {
        InitStateView {
            color_spaces: entry_views(self.color_spaces@),
            color_space: self.color_space@,
            input_outputs: pairs_of(self.input_outputs@),
            input_output: self.input_output@,
            cameras: names_of(self.cameras@),
        }
    }
}

/// The names of the entries, in order.
pub open spec fn entry_names(entries: Seq<ColorSpaceEntryView>) -> Seq<Seq<char>> {
    Seq::new(entries.len(), |i: int| entries[i].name)
}

/// What the three answers of one round carry; the first answer, in the order
/// color space, input/output mode, cameras, that cannot be decoded decides the
/// error.
pub open spec fn reading_of(
    color_space_response: Seq<char>,
    input_output_response: Seq<char>,
    cameras_response: Seq<char>,
) -> Result<Reading, DecodeError> {
    match decoded_scalar(color_space_response) {
        Err(e) => Err(e),
        Ok(color_space) => match decoded_scalar(input_output_response) {
            Err(e) => Err(e),
            Ok(input_output) => match decoded_roster(cameras_response) {
                Err(e) => Err(e),
                Ok(cameras) => Ok(Reading { color_space, input_output, cameras }),
            },
        },
    }
}

/// The snapshot after a full reload.
pub open spec fn reloaded(entries: Seq<ColorSpaceEntryView>, reading: Reading) -> Snapshot {
    Snapshot {
        known_color_space_names: entry_names(entries).to_set(),
        color_space: reading.color_space,
        input_output: reading.input_output,
        cameras: reading.cameras,
    }
}

/// What a reload hands to the panel.
pub open spec fn init_state_of(entries: Seq<ColorSpaceEntryView>, reading: Reading) -> InitStateView {
    InitStateView {
        color_spaces: entries,
        color_space: reading.color_space,
        input_outputs: input_output_table(),
        input_output: reading.input_output,
        cameras: reading.cameras,
    }
}

/// The update that a poll emits: each field that differs from the snapshot,
/// texts by their characters and rosters by the names they hold.
pub open spec fn diff(snapshot: Snapshot, fresh: Reading) -> UpdatesView {
    UpdatesView {
        current_color_space: changed_text(snapshot.color_space, fresh.color_space),
        current_input_output: changed_text(snapshot.input_output, fresh.input_output),
        cameras: changed_names(snapshot.cameras, fresh.cameras),
    }
}

/// The snapshot after a poll: each field that differs is overwritten, the
/// others and the known names stay.
pub open spec fn merged(snapshot: Snapshot, fresh: Reading) -> Snapshot {
    Snapshot {
        known_color_space_names: snapshot.known_color_space_names,
        color_space: fresh.color_space,
        input_output: fresh.input_output,
        cameras: if same_names(snapshot.cameras, fresh.cameras) {
            snapshot.cameras
        } else {
            fresh.cameras
        },
    }
}

/// A copy of `names`.
pub fn copy_names(names: &Vec<String>) -> (copy: Vec<String>)
    ensures
        names_of(copy@) == names_of(names@),
{
    let mut copy: Vec<String> = Vec::new();
    let mut i: usize = 0;
    while i < names.len()
        invariant
            i <= names.len(),
            copy.len() == i,
            forall|j: int| 0 <= j < i ==> copy[j]@ == names[j]@,
        decreases names.len() - i,
    {
        copy.push(names[i].clone());
        i += 1;
    }
    assert(names_of(copy@) =~= names_of(names@));
    copy
}

/// The names of a catalogue, each once, in the order of their first entry.
pub fn color_space_names(color_spaces: &Vec<ColorSpaceEntry>) -> (names: ColorSpacesNames)
    ensures
        names_of(names@).no_duplicates(),
        names_of(names@).to_set() == entry_names(entry_views(color_spaces@)).to_set(),
{
    let ghost all = entry_names(entry_views(color_spaces@));
    let mut names: Vec<String> = Vec::new();
    let mut i: usize = 0;
    while i < color_spaces.len()
        invariant
            i <= color_spaces.len(),
            all == entry_names(entry_views(color_spaces@)),
            names_of(names@).no_duplicates(),
            forall|j: int| 0 <= j < i ==> names_of(names@).contains(#[trigger] all[j]),
            forall|j: int|
                0 <= j < names.len() ==> all.take(i as int).contains(#[trigger] names_of(names@)[j]),
        decreases color_spaces.len() - i,
    {
        let ghost before = names_of(names@);
        let ghost name = all[i as int];
        assert(name == color_spaces[i as int].name@);
        assert(all.take(i + 1)[i as int] == name);
        assert forall|j: int| 0 <= j < names.len() implies all.take(i + 1).contains(
            #[trigger] before[j],
        ) by {
            let at = choose|at: int| 0 <= at < i && all.take(i as int)[at] == before[j];
            assert(all.take(i + 1)[at] == before[j]);
        }
        if !contains_name(&names, color_spaces[i].name.as_str()) {
            names.push(color_spaces[i].name.clone());
            assert(names_of(names@) =~= before.push(name));
            assert forall|j: int| 0 <= j < i + 1 implies names_of(names@).contains(
                #[trigger] all[j],
            ) by {
                if j < i {
                    let at = choose|at: int| 0 <= at < before.len() && before[at] == all[j];
                    assert(names_of(names@)[at] == all[j]);
                } else {
                    assert(names_of(names@)[before.len() as int] == all[j]);
                }
            }
        }
        i += 1;
    }
    proof {
        assert(all.take(i as int) =~= all);
        assert forall|x: Seq<char>| names_of(names@).to_set().contains(x) <==> all.to_set().contains(
            x,
        ) by {
            if names_of(names@).contains(x) {
                let at = choose|at: int| 0 <= at < names.len() && names_of(names@)[at] == x;
                assert(all.contains(names_of(names@)[at]));
            }
            if all.contains(x) {
                let at = choose|at: int| 0 <= at < all.len() && all[at] == x;
                assert(names_of(names@).contains(all[at]));
            }
        }
        assert(names_of(names@).to_set() =~= all.to_set());
    }
    names
}

/// Decodes the three answers of one round of requests.
pub fn get_current_state(
    color_space_response: &str,
    input_output_response: &str,
    cameras_response: &str,
) -> (state: Result<(ColorSpace, InputOutput, Cameras), DecodeError>)
    ensures
        match (state, reading_of(color_space_response@, input_output_response@, cameras_response@)) {
            (Ok(values), Ok(reading)) => {
                &&& values.0@ == reading.color_space
                &&& values.1@ == reading.input_output
                &&& names_of(values.2@) == reading.cameras
            },
            (Err(e), Err(expected)) => e == expected,
            _ => false,
        },
{
    let color_space = match get_color_space(color_space_response) {
        Ok(color_space) => color_space,
        Err(e) => { return Err(e); },
    };
    let input_output = match get_input_output(input_output_response) {
        Ok(input_output) => input_output,
        Err(e) => { return Err(e); },
    };
    let cameras = match get_cameras(cameras_response) {
        Ok(cameras) => cameras,
        Err(e) => { return Err(e); },
    };
    Ok((color_space, input_output, cameras))
}

/// Reloads the snapshot in full: reads the catalogue from the configuration
/// text, decodes the device's three answers, and replaces every field. Where
/// an answer cannot be decoded the snapshot stays as it was.
pub fn get_init_state(
    app_state: &mut AppState,
    config: &str,
    color_space_response: &str,
    input_output_response: &str,
    cameras_response: &str,
) -> (init: Result<InitState, DecodeError>)
    ensures
        match (init, reading_of(color_space_response@, input_output_response@, cameras_response@)) {
            (Ok(init), Ok(reading)) => {
                &&& init@ == init_state_of(catalogue(config@), reading)
                &&& final(app_state)@ == reloaded(catalogue(config@), reading)
                &&& final(app_state).wf()
            },
            (Err(e), Err(expected)) => e == expected && *final(app_state) == *old(app_state),
            _ => false,
        },
{
    let color_spaces = get_color_spaces(config);
    let (color_space, input_output, cameras) = match get_current_state(
        color_space_response,
        input_output_response,
        cameras_response,
    ) {
        Ok(values) => values,
        Err(e) => { return Err(e); },
    };
    app_state.color_spaces_names = color_space_names(&color_spaces);
    app_state.color_space = color_space.clone();
    app_state.input_output = input_output.clone();
    app_state.cameras = copy_names(&cameras);
    Ok(InitState { color_spaces, color_space, input_outputs: input_outputs(), input_output, cameras })
}

/// Runs one poll against the snapshot: compares the fresh values with the
/// stored ones, overwrites what differs, and returns exactly that.
pub fn merge_state(app_state: &mut AppState, new_state: (ColorSpace, InputOutput, Cameras)) -> (updates:
    Updates)
    ensures
        updates@ == diff(
            old(app_state)@,
            Reading {
                color_space: new_state.0@,
                input_output: new_state.1@,
                cameras: names_of(new_state.2@),
            },
        ),
        final(app_state)@ == merged(
            old(app_state)@,
            Reading {
                color_space: new_state.0@,
                input_output: new_state.1@,
                cameras: names_of(new_state.2@),
            },
        ),
        final(app_state).color_spaces_names == old(app_state).color_spaces_names,
        old(app_state).wf() ==> final(app_state).wf(),
{
    let (color_space, input_output, cameras) = new_state;
    let current_color_space = set_if_changed(app_state.color_space.as_str(), color_space.as_str());
    if current_color_space.is_some() {
        app_state.color_space = color_space;
    }
    let current_input_output = set_if_changed(
        app_state.input_output.as_str(),
        input_output.as_str(),
    );
    if current_input_output.is_some() {
        app_state.input_output = input_output;
    }
    let new_cameras = if same_roster(&app_state.cameras, &cameras) {
        None
    } else {
        app_state.cameras = copy_names(&cameras);
        Some(cameras)
    };
    Updates { current_color_space, current_input_output, cameras: new_cameras }
}

/// A roster that holds the stored names in another order is no change: the
/// poll reports no cameras and keeps the stored roster.
pub proof fn lemma_reordered_roster_is_unchanged(snapshot: Snapshot, fresh: Reading)
    requires
        fresh.cameras.to_multiset() == snapshot.cameras.to_multiset(),
    ensures
        diff(snapshot, fresh).cameras is None,
        merged(snapshot, fresh).cameras == snapshot.cameras,
{
    snapshot.cameras.to_multiset_ensures();
    fresh.cameras.to_multiset_ensures();
    assert forall|name: Seq<char>|
        snapshot.cameras.to_set().contains(name) <==> fresh.cameras.to_set().contains(name) by {
        assert(snapshot.cameras.contains(name) <==> snapshot.cameras.to_multiset().count(name) > 0);
        assert(fresh.cameras.contains(name) <==> fresh.cameras.to_multiset().count(name) > 0);
    }
    assert(snapshot.cameras.to_set() =~= fresh.cameras.to_set());
}

/// The update of a poll holds a field exactly when the fresh value differs
/// from the stored one, and then it holds the fresh value.
pub proof fn lemma_update_holds_exactly_the_changes(snapshot: Snapshot, fresh: Reading)
    ensures
        diff(snapshot, fresh).current_color_space is Some <==> fresh.color_space
            != snapshot.color_space,
        diff(snapshot, fresh).current_input_output is Some <==> fresh.input_output
            != snapshot.input_output,
        diff(snapshot, fresh).cameras is Some <==> fresh.cameras.to_set()
            != snapshot.cameras.to_set(),
        diff(snapshot, fresh).current_color_space is Some ==> diff(
            snapshot,
            fresh,
        ).current_color_space == Some(fresh.color_space),
        diff(snapshot, fresh).current_input_output is Some ==> diff(
            snapshot,
            fresh,
        ).current_input_output == Some(fresh.input_output),
        diff(snapshot, fresh).cameras is Some ==> diff(snapshot, fresh).cameras == Some(
            fresh.cameras,
        ),
{
}

/// After a poll the snapshot agrees with the device, so a second poll that
/// reads the same values reports nothing.
pub proof fn lemma_second_poll_is_silent(snapshot: Snapshot, fresh: Reading)
    ensures
        diff(merged(snapshot, fresh), fresh) == (UpdatesView {
            current_color_space: None,
            current_input_output: None,
            cameras: None,
        }),
{
}

/// The names that a reload makes known are the names of the catalogue's
/// entries, and no poll changes them.
pub proof fn lemma_known_names_are_the_catalogue_names(
    entries: Seq<ColorSpaceEntryView>,
    reading: Reading,
    fresh: Reading,
    name: Seq<char>,
)
    ensures
        reloaded(entries, reading).known_color_space_names.contains(name) <==> exists|i: int|
            0 <= i < entries.len() && (#[trigger] entries[i]).name == name,
        merged(reloaded(entries, reading), fresh).known_color_space_names == reloaded(
            entries,
            reading,
        ).known_color_space_names,
{
    let names = entry_names(entries);
    if names.contains(name) {
        let i = choose|i: int| 0 <= i < names.len() && names[i] == name;
        assert(entries[i].name == name);
    }
    if exists|i: int| 0 <= i < entries.len() && (#[trigger] entries[i]).name == name {
        let i = choose|i: int| 0 <= i < entries.len() && (#[trigger] entries[i]).name == name;
        assert(names[i] == name);
    }
}

/// The first poll after a reload reports no color space where the device
/// still has the one that the reload read.
pub proof fn lemma_first_poll_after_reload_keeps_color_space(
    entries: Seq<ColorSpaceEntryView>,
    reading: Reading,
    fresh: Reading,
)
    requires
        fresh.color_space == reading.color_space,
    ensures
        diff(reloaded(entries, reading), fresh).current_color_space is None,
{
}

} // verus!
