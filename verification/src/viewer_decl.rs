//! The picture viewer: a title, a way out, and the picture between them.

use crate::strings;
use crate::strings::{media_photo, Lang};
use crate::ui;
use crate::ui::{Slot, Softkeys, Words};
use vstd::prelude::*;

verus! {

/// What the viewer asks the application to do.
#[derive(Clone, Copy, Debug, PartialEq, Eq, Structural)]
pub enum Msg {
    /// Leave the picture. Where to is the application's to know.
    Back,
}

/// The bar: one way out. The middle slot stays empty, so that its key reaches the picture.
pub open spec fn bar(words: Words) -> Softkeys<Msg> {
    Softkeys { options: None, action: None, back: Some((words.back, Msg::Back)) }
}

/// The bar: one way out.
pub fn softkeys(words: Words) -> (r: Softkeys<Msg>)
    ensures
        r == bar(words),
{
    Softkeys::new().back(words.back, Msg::Back)
}

/// What a key means before the picture sees it. `slot` is the slot of the bar it presses.
pub fn on_key(slot: Option<Slot>, words: Words) -> (r: Option<Msg>)
    ensures
        r == bar(words).answer(slot),
{
    softkeys(words).dispatch(slot)
}

/// The viewer as it is described to the toolkit.
#[derive(Debug)]
pub struct Frame {
    pub title: &'static str,
    pub labels: [Option<&'static str>; 3],
}

/// Describe the viewer.
pub fn view(words: Words, lang: Lang) -> (r: Frame)
    ensures
        r.title == strings::wording(lang, "Photo", "Foto"),
        r.labels@ == ui::labels_of(bar(words)),
{
    let labels = softkeys(words).labels();
    Frame { title: media_photo(lang), labels }
}

} // verus!
