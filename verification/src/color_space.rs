//! Color spaces: the catalogue read from the configuration text, and the
//! device's current selection.

use crate::common::{contains_name, SetRequest, SetRequestView, STORE_TARGET};
use crate::decode::{decode_scalar, decoded_scalar, DecodeError};
use crate::state::AppState;
use crate::text::{
    chars_of, find_char, position_of, starts_with, string_of, trim, trim_range, trimmed_line_ranges,
    trimmed_lines,
};
use vstd::prelude::*;

verus! {

/// The identifier of a color space.
pub type ColorSpace = String;

/// The names that `set_color_space` accepts, each once.
pub type ColorSpacesNames = Vec<String>;

/// The property under which the device keeps its color space.
pub const COLOR_SPACE_PROPERTY: &'static str = "State.Defaults.ColorSpace";

/// What `set_color_space` answers to a name that is not known.
pub const COLOR_SPACE_NOT_FOUND: &'static str = "Color space not found";

/// One color space of the catalogue.
#[derive(Debug, Clone)]
pub struct ColorSpaceEntry {
    pub family: String,
    pub name: String,
}

/// The mathematical content of a `ColorSpaceEntry`.
pub struct ColorSpaceEntryView {
    pub family: Seq<char>,
    pub name: Seq<char>,
}

impl View for ColorSpaceEntry {
    type V = ColorSpaceEntryView;

    open spec fn view(&self) -> ColorSpaceEntryView {
        ColorSpaceEntryView { family: self.family@, name: self.name@ }
    }
}

impl Default for ColorSpaceEntry {
    fn default() -> (entry: Self)
        ensures
            entry@ == (ColorSpaceEntryView { family: Seq::empty(), name: Seq::empty() }),
    {
        ColorSpaceEntry { family: String::new(), name: String::new() }
    }
}

/// The view of each entry.
pub open spec fn entry_views(entries: Seq<ColorSpaceEntry>) -> Seq<ColorSpaceEntryView> {
    Seq::new(entries.len(), |i: int| entries[i]@)
}

/// The line that opens the block of one color space.
pub open spec fn block_marker() -> Seq<char> {
    "- !<ColorSpace>"@
}

/// The key of the line that names a color space.
pub open spec fn name_key() -> Seq<char> {
    "name:"@
}

/// The key of the line that gives a color space's family.
pub open spec fn family_key() -> Seq<char> {
    "family:"@
}

/// What a key line says: the text between its first colon and the next
/// colon, or the end of the line, without surrounding white space.
pub open spec fn field_value(row: Seq<char>) -> Seq<char> {
    let colon = position_of(row, ':');
    let rest = if 0 <= colon < row.len() {
        row.skip(colon + 1)
    } else {
        Seq::empty()
    };
    trim(rest.take(position_of(rest, ':')))
}

/// The rows of the block that `rows` begins with: those before the next
/// marker.
pub open spec fn block(rows: Seq<Seq<char>>) -> Seq<Seq<char>>
    decreases rows.len(),
{
    if rows.len() == 0 || block_marker().is_prefix_of(rows.first()) {
        Seq::empty()
    } else {
        seq![rows.first()] + block(rows.drop_first())
    }
}

/// The value of the first of `rows` that begins with `key`.
pub open spec fn first_value(rows: Seq<Seq<char>>, key: Seq<char>) -> Option<Seq<char>>
    decreases rows.len(),
{
    if rows.len() == 0 {
        None
    } else if key.is_prefix_of(rows.first()) {
        Some(field_value(rows.first()))
    } else {
        first_value(rows.drop_first(), key)
    }
}

/// `value`, or the empty text where there is none.
pub open spec fn or_empty(value: Option<Seq<char>>) -> Seq<char> {
    match value {
        Some(text) => text,
        None => Seq::empty(),
    }
}

/// The entry that the rows of one block describe: its first `name:` and its
/// first `family:` row count, and a field without a row is empty.
pub open spec fn entry_of(rows: Seq<Seq<char>>) -> ColorSpaceEntryView {
    ColorSpaceEntryView {
        family: or_empty(first_value(rows, family_key())),
        name: or_empty(first_value(rows, name_key())),
    }
}

/// The entries that `rows` describe: one for each marker row, in order, made
/// of the rows that follow it up to the next marker.
pub open spec fn entries(rows: Seq<Seq<char>>) -> Seq<ColorSpaceEntryView>
    decreases rows.len(),
{
    if rows.len() == 0 {
        Seq::empty()
    } else if block_marker().is_prefix_of(rows.first()) {
        seq![entry_of(block(rows.drop_first()))] + entries(rows.drop_first())
    } else {
        entries(rows.drop_first())
    }
}

/// The catalogue that the configuration text `config` describes.
pub open spec fn catalogue(config: Seq<char>) -> Seq<ColorSpaceEntryView> {
    entries(trimmed_lines(config))
}

/// Adding a row at the end changes the first value only where there was none.
pub proof fn lemma_first_value_push(rows: Seq<Seq<char>>, row: Seq<char>, key: Seq<char>)
    ensures
        first_value(rows.push(row), key) == match first_value(rows, key) {
            Some(value) => Some(value),
            None => if key.is_prefix_of(row) {
                Some(field_value(row))
            } else {
                None
            },
        },
    decreases rows.len(),
{
    let more = rows.push(row);
    if rows.len() == 0 {
        assert(more.first() == row);
        assert(more.drop_first() =~= Seq::<Seq<char>>::empty());
    } else {
        assert(more.first() == rows.first());
        assert(more.drop_first() =~= rows.drop_first().push(row));
        if !key.is_prefix_of(rows.first()) {
            lemma_first_value_push(rows.drop_first(), row, key);
        }
    }
}

/// The value of the key line `chars[from..to]`.
pub fn field_value_of(chars: &Vec<char>, from: usize, to: usize) -> (value: String)
    requires
        from <= to <= chars.len(),
    ensures
        value@ == field_value(chars@.subrange(from as int, to as int)),
{
    let colon = find_char(chars, from, to, ':');
    let start = if colon < to {
        colon + 1
    } else {
        to
    };
    let end = find_char(chars, start, to, ':');
    let bounds = trim_range(chars, start, end);
    proof {
        let row = chars@.subrange(from as int, to as int);
        let rest = chars@.subrange(start as int, to as int);
        if colon < to {
            assert(row.skip(colon - from + 1) =~= rest);
        } else {
            assert(rest =~= Seq::<char>::empty());
        }
        assert(rest.take(end - start) =~= chars@.subrange(start as int, end as int));
    }
    string_of(chars, bounds.0, bounds.1)
}

/// Reads the catalogue of color spaces from the configuration text.
pub fn get_color_spaces(config: &str) -> (color_spaces: Vec<ColorSpaceEntry>)
    ensures
        entry_views(color_spaces@) == catalogue(config@),
{
    let chars = chars_of(config);
    let ranges = trimmed_line_ranges(&chars);
    let marker = chars_of("- !<ColorSpace>");
    let name_prefix = chars_of("name:");
    let family_prefix = chars_of("family:");
    let ghost rows = trimmed_lines(chars@);
    let ghost mut seen: Seq<Seq<char>> = Seq::empty();
    let mut color_spaces: Vec<ColorSpaceEntry> = Vec::new();
    let mut open = false;
    let mut name: Option<String> = None;
    let mut family: Option<String> = None;
    let mut k: usize = 0;
    proof {
        assert(rows.skip(0) =~= rows);
        assert(entry_views(color_spaces@) + entries(rows) =~= entries(rows));
    }
    while k < ranges.len()
        invariant
            k <= ranges.len() == rows.len(),
            rows == trimmed_lines(chars@),
            forall|j: int|
                0 <= j < ranges.len() ==> {
                    &&& (#[trigger] ranges[j]).0 <= ranges[j].1 <= chars.len()
                    &&& chars@.subrange(ranges[j].0 as int, ranges[j].1 as int) == rows[j]
                },
            marker@ == block_marker(),
            name_prefix@ == name_key(),
            family_prefix@ == family_key(),
            !open ==> entries(rows) == entry_views(color_spaces@) + entries(rows.skip(k as int)),
            open ==> entries(rows) == entry_views(color_spaces@) + seq![
                entry_of(seen + block(rows.skip(k as int))),
            ] + entries(rows.skip(k as int)),
            open ==> (name is Some <==> first_value(seen, name_key()) is Some),
            open ==> (name is Some ==> name->0@ == first_value(seen, name_key())->0),
            open ==> (family is Some <==> first_value(seen, family_key()) is Some),
            open ==> (family is Some ==> family->0@ == first_value(seen, family_key())->0),
        decreases ranges.len() - k,
    {
        let from = ranges[k].0;
        let to = ranges[k].1;
        let ghost row = rows[k as int];
        let ghost rest = rows.skip(k as int);
        let ghost after = rows.skip(k + 1);
        proof {
            assert(rest.first() == row);
            assert(rest.drop_first() =~= after);
        }
        if starts_with(&chars, from, to, &marker) {
            if open {
                let entry = ColorSpaceEntry {
                    family: match family {
                        Some(text) => text,
                        None => String::new(),
                    },
                    name: match name {
                        Some(text) => text,
                        None => String::new(),
                    },
                };
                proof {
                    assert(seen + block(rest) =~= seen);
                    assert(entry@ == entry_of(seen));
                    assert(entry_views(color_spaces@.push(entry)) =~= entry_views(color_spaces@)
                        + seq![entry_of(seen)]);
                }
                color_spaces.push(entry);
            }
            proof {
                seen = Seq::empty();
                assert(seen + block(after) =~= block(after));
                assert(entry_views(color_spaces@) + (seq![entry_of(block(after))] + entries(after))
                    =~= entry_views(color_spaces@) + seq![entry_of(seen + block(after))] + entries(
                    after,
                ));
            }
            open = true;
            name = None;
            family = None;
        } else if open {
            proof {
                lemma_first_value_push(seen, row, name_key());
                lemma_first_value_push(seen, row, family_key());
                assert(seen + block(rest) =~= seen.push(row) + block(after));
                seen = seen.push(row);
            }
            if name.is_none() && starts_with(&chars, from, to, &name_prefix) {
                name = Some(field_value_of(&chars, from, to));
            }
            if family.is_none() && starts_with(&chars, from, to, &family_prefix) {
                family = Some(field_value_of(&chars, from, to));
            }
        }
        k += 1;
    }
    proof {
        assert(rows.skip(k as int) =~= Seq::<Seq<char>>::empty());
    }
    if open {
        let entry = ColorSpaceEntry {
            family: match family {
                Some(text) => text,
                None => String::new(),
            },
            name: match name {
                Some(text) => text,
                None => String::new(),
            },
        };
        proof {
            assert(seen + block(rows.skip(k as int)) =~= seen);
            assert(entry@ == entry_of(seen));
            assert(entry_views(color_spaces@.push(entry)) =~= entry_views(color_spaces@) + seq![
                entry_of(seen),
            ]);
            assert(entry_views(color_spaces@) + seq![entry_of(seen)] + Seq::<
                ColorSpaceEntryView,
            >::empty() =~= entry_views(color_spaces@) + seq![entry_of(seen)]);
        }
        color_spaces.push(entry);
    } else {
        proof {
            assert(entry_views(color_spaces@) + Seq::<ColorSpaceEntryView>::empty() =~= entry_views(
                color_spaces@,
            ));
        }
    }
    color_spaces
}

/// The write that sets the device's color space to `color_space`.
pub open spec fn color_space_request(color_space: Seq<char>) -> SetRequestView {
    SetRequestView { property: COLOR_SPACE_PROPERTY@, value: color_space, target: STORE_TARGET@ }
}

/// Validates a request to change the color space. A name that the snapshot
/// knows gives the one write to forward to the device; any other is refused,
/// and nothing is to be written. The snapshot itself is left alone: the next
/// poll brings the change.
pub fn set_color_space(app_state: &AppState, color_space: ColorSpace) -> (request: Result<
    SetRequest,
    String,
>)
    ensures
        request is Ok <==> app_state@.known_color_space_names.contains(color_space@),
        request is Ok ==> request->Ok_0@ == color_space_request(color_space@),
        request is Err ==> request->Err_0@ == COLOR_SPACE_NOT_FOUND@,
{
    if !contains_name(&app_state.color_spaces_names, color_space.as_str()) {
        return Err(COLOR_SPACE_NOT_FOUND.to_owned());
    }
    Ok(
        SetRequest {
            property: COLOR_SPACE_PROPERTY.to_owned(),
            value: color_space,
            target: STORE_TARGET.to_owned(),
        },
    )
}

/// Decodes the answer to a request for the current color space.
pub fn get_color_space(response: &str) -> (color_space: Result<ColorSpace, DecodeError>)
    ensures
        color_space is Ok <==> decoded_scalar(response@) is Ok,
        color_space is Ok ==> color_space->Ok_0@ == decoded_scalar(response@)->Ok_0,
        color_space is Err ==> color_space->Err_0 == decoded_scalar(response@)->Err_0,
{
    decode_scalar(response)
}

} // verus!
