//! The filter's text buffer. The buffer itself is `tui_input::Input`; this
//! module declares it to the verifier and states what the calls made on it do.
//! Nothing here is proved: each contract restates the outside code.

use tui_input::Input;
use tui_input::InputRequest;
use vstd::prelude::*;

verus! {

#[verifier::external_type_specification]
#[verifier::external_body]
pub struct ExInput(tui_input::Input);

/// The characters that the buffer holds, in order.
pub uninterp spec fn input_text(input: Input) -> Seq<char>;

/// The number of characters that stand before the buffer's cursor.
pub uninterp spec fn input_cursor(input: Input) -> nat;

/// Calls `Input::default`: an empty buffer with the cursor at position zero.
#[verifier::external_body]
pub(crate) fn input_new() -> (input: Input)
    ensures
        input_text(input) == Seq::<char>::empty(),
        input_cursor(input) == 0,
{
    Input::default()
}

/// Calls `Input::value`: the buffer's text, borrowed.
#[verifier::external_body]
pub(crate) fn input_value(input: &Input) -> (text: &str)
    ensures
        text@ == input_text(*input),
{
    input.value()
}

/// Calls `Input::handle` with `InputRequest::InsertChar`: the character goes
/// in at the cursor, and the cursor moves one position to the right.
#[verifier::external_body]
pub(crate) fn input_insert(input: &mut Input, c: char)
    requires
        input_cursor(*old(input)) <= input_text(*old(input)).len(),
    ensures
        input_text(*final(input)) == input_text(*old(input)).insert(
            input_cursor(*old(input)) as int,
            c,
        ),
        input_cursor(*final(input)) == input_cursor(*old(input)) + 1,
{
    input.handle(InputRequest::InsertChar(c));
}

/// Calls `Input::handle` with `InputRequest::DeletePrevChar`: with the cursor
/// at position zero nothing changes; otherwise the character before the
/// cursor leaves and the cursor moves one position to the left.
#[verifier::external_body]
pub(crate) fn input_delete_prev(input: &mut Input)
    requires
        input_cursor(*old(input)) <= input_text(*old(input)).len(),
    ensures
        input_cursor(*old(input)) == 0 ==> {
            &&& input_text(*final(input)) == input_text(*old(input))
            &&& input_cursor(*final(input)) == 0
        },
        input_cursor(*old(input)) > 0 ==> {
            &&& input_text(*final(input)) == input_text(*old(input)).remove(
                input_cursor(*old(input)) - 1,
            )
            &&& input_cursor(*final(input)) == input_cursor(*old(input)) - 1
        },
{
    input.handle(InputRequest::DeletePrevChar);
}

} // verus!
