//! What every dialog shares: the two keys that close it, the buttons of its
//! action row, and the outcome of a frame.

use vstd::prelude::*;

verus! {

/// Which of the closing keys were pressed this frame.
#[derive(Clone, Copy, PartialEq, Eq, Structural, Debug)]
pub struct DialogKeys {
    /// Enter.
    pub confirm: bool,
    /// Escape.
    pub cancel: bool,
}

/// A button of the action row.
#[derive(Clone, Copy, PartialEq, Eq, Structural, Debug)]
pub enum DialogButton {
    Cancel,
    Confirm,
    /// A further button, by its place before the standard two.
    Extra(usize),
}

/// What one frame of a dialog came to.
#[derive(Clone, PartialEq, Debug)]
pub enum DialogOutcome<T> {
    Open,
    Cancelled,
    Confirmed(T),
}

impl<T: View> View for DialogOutcome<T> {
    type V = DialogOutcome<T::V>;

    open spec fn view(&self) -> DialogOutcome<T::V> {
        match *self {
            DialogOutcome::Open => DialogOutcome::Open,
            DialogOutcome::Cancelled => DialogOutcome::Cancelled,
            DialogOutcome::Confirmed(spec) => DialogOutcome::Confirmed(spec@),
        }
    }
}

impl<T> DialogOutcome<T> {
    /// The dialog stays on screen.
    pub fn is_open(&self) -> (r: bool)
        ensures
            r == (self is Open),
    {
        match self {
            DialogOutcome::Open => true,
            _ => false,
        }
    }
}

/// What the keys come to, given what a confirmation would hand over: Escape
/// wins over Enter, and Enter does nothing while the dialog is blocked.
pub open spec fn settled<V>(keys: DialogKeys, request: Option<V>) -> DialogOutcome<V> {
    if keys.cancel {
        DialogOutcome::Cancelled
    } else {
        match request {
            Some(v) => if keys.confirm {
                DialogOutcome::Confirmed(v)
            } else {
                DialogOutcome::Open
            },
            None => DialogOutcome::Open,
        }
    }
}

/// What a press of a button comes to, given what a confirmation would hand
/// over.
pub open spec fn pressed<V>(button: DialogButton, request: Option<V>) -> DialogOutcome<V> {
    match button {
        DialogButton::Cancel => DialogOutcome::Cancelled,
        DialogButton::Confirm => match request {
            Some(v) => DialogOutcome::Confirmed(v),
            None => DialogOutcome::Open,
        },
        DialogButton::Extra(_) => DialogOutcome::Open,
    }
}

/// The view of an optional request.
pub open spec fn request_view<T: View>(request: Option<T>) -> Option<T::V> {
    match request {
        Some(v) => Some(v@),
        None => None,
    }
}

/// Fold the keys and what a confirmation would hand over into an outcome.
pub fn settle<T: View>(keys: DialogKeys, request: Option<T>) -> (r: DialogOutcome<T>)
    ensures
        r == settled(keys, request),
        r@ == settled(keys, request_view(request)),
{
    if keys.cancel {
        return DialogOutcome::Cancelled;
    }
    match request {
        Some(spec) => if keys.confirm {
            DialogOutcome::Confirmed(spec)
        } else {
            DialogOutcome::Open
        },
        None => DialogOutcome::Open,
    }
}

/// Fold a button and what a confirmation would hand over into an outcome.
pub fn press<T: View>(button: DialogButton, request: Option<T>) -> (r: DialogOutcome<T>)
    ensures
        r == pressed(button, request),
        r@ == pressed(button, request_view(request)),
{
    match button {
        DialogButton::Cancel => DialogOutcome::Cancelled,
        DialogButton::Confirm => match request {
            Some(spec) => DialogOutcome::Confirmed(spec),
            None => DialogOutcome::Open,
        },
        DialogButton::Extra(_) => DialogOutcome::Open,
    }
}

/// Every dialog answers the keyboard alike: Escape cancels, whatever else is
/// pressed; Enter hands over what a confirmation would, and leaves a blocked
/// dialog open; and nothing else closes it.
pub proof fn every_dialog_answers_the_keyboard_alike<V>(keys: DialogKeys, request: Option<V>)
    ensures
        keys.cancel ==> settled(keys, request) is Cancelled,
        !keys.cancel && keys.confirm && request is Some ==> settled(keys, request)
            == DialogOutcome::Confirmed(request->0),
        request is None ==> settled(keys, request) !is Confirmed,
        !keys.cancel && !keys.confirm ==> settled(keys, request) is Open,
{
}

/// A button and its key come to the same.
pub proof fn a_button_is_its_key<V>(request: Option<V>)
    ensures
        pressed(DialogButton::Confirm, request) == settled(
            DialogKeys { confirm: true, cancel: false },
            request,
        ),
        pressed(DialogButton::Cancel, request) == settled(
            DialogKeys { confirm: false, cancel: true },
            request,
        ),
{
}

} // verus!
