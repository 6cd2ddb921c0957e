//! Input/output modes: the fixed table of modes that the panel offers, and
//! the device's current mode.

use crate::common::{SetRequest, STORE_TARGET};
use crate::decode::{decode_scalar, decoded_scalar, DecodeError};
use crate::text::same_text;
use vstd::prelude::*;

verus! {

/// The identifier of an input/output mode.
pub type InputOutput = String;

/// The modes on offer: each key with the label that the panel shows for it.
pub type InputOutputs = Vec<(&'static str, &'static str)>;

/// The property under which the device keeps its input/output mode.
pub const INPUT_OUTPUT_PROPERTY: &'static str = "State.Defaults.Type";

/// What `set_input_output` answers to a mode that is not on offer.
pub const INPUT_OUTPUT_NOT_FOUND: &'static str = "Input output not found";

/// The table of modes, as key and label.
pub open spec fn input_output_table() -> Seq<(Seq<char>, Seq<char>)> {
    seq![
        ("AJA"@, "AJA"@),
        ("BMD"@, "BMD"@),
        ("NDI"@, "NDI"@),
        ("SRT"@, "SRT"@),
        ("Webcam"@, "Webcam"@),
        ("File"@, "File (Experimental)"@),
    ]
}

/// Whether `mode` is a key of the table.
pub open spec fn is_input_output(mode: Seq<char>) -> bool {
    exists|i: int| 0 <= i < input_output_table().len() && input_output_table()[i].0 == mode
}

/// The characters of each key and label.
pub open spec fn pairs_of(table: Seq<(&'static str, &'static str)>) -> Seq<(Seq<char>, Seq<char>)> {
    Seq::new(table.len(), |i: int| (table[i].0@, table[i].1@))
}

/// The write that sets the device's mode to `mode`.
pub open spec fn input_output_request(mode: Seq<char>) -> crate::common::SetRequestView {
    crate::common::SetRequestView {
        property: INPUT_OUTPUT_PROPERTY@,
        value: mode,
        target: STORE_TARGET@,
    }
}

/// The table of modes.
pub fn input_outputs() -> (table: InputOutputs)
    ensures
        pairs_of(table@) == input_output_table(),
{
    let mut table: Vec<(&'static str, &'static str)> = Vec::new();
    table.push(("AJA", "AJA"));
    table.push(("BMD", "BMD"));
    table.push(("NDI", "NDI"));
    table.push(("SRT", "SRT"));
    table.push(("Webcam", "Webcam"));
    table.push(("File", "File (Experimental)"));
    assert(pairs_of(table@) =~= input_output_table());
    table
}

/// Whether `mode` is on offer.
pub fn is_known_input_output(mode: &str) -> (known: bool)
    ensures
        known == is_input_output(mode@),
{
    let table = input_outputs();
    let mut i: usize = 0;
    while i < table.len()
        invariant
            i <= table.len(),
            pairs_of(table@) == input_output_table(),
            forall|j: int| 0 <= j < i ==> input_output_table()[j].0 != mode@,
        decreases table.len() - i,
    {
        assert(pairs_of(table@)[i as int].0 == table[i as int].0@);
        if same_text(table[i].0, mode) {
            return true;
        }
        i += 1;
    }
    false
}

/// Validates a request to change the input/output mode. A mode of the table
/// gives the one write to forward to the device; any other is refused, and
/// nothing is to be written.
pub fn set_input_output(input_output: InputOutput) -> (request: Result<SetRequest, String>)
    ensures
        request is Ok <==> is_input_output(input_output@),
        request is Ok ==> request->Ok_0@ == input_output_request(input_output@),
        request is Err ==> request->Err_0@ == INPUT_OUTPUT_NOT_FOUND@,
{
    if !is_known_input_output(input_output.as_str()) {
        return Err(INPUT_OUTPUT_NOT_FOUND.to_owned());
    }
    Ok(
        SetRequest {
            property: INPUT_OUTPUT_PROPERTY.to_owned(),
            value: input_output,
            target: STORE_TARGET.to_owned(),
        },
    )
}

/// Decodes the answer to a request for the current input/output mode.
pub fn get_input_output(response: &str) -> (input_output: Result<InputOutput, DecodeError>)
    ensures
        input_output is Ok <==> decoded_scalar(response@) is Ok,
        input_output is Ok ==> input_output->Ok_0@ == decoded_scalar(response@)->Ok_0,
        input_output is Err ==> input_output->Err_0 == decoded_scalar(response@)->Err_0,
{
    decode_scalar(response)
}

} // verus!
