//! The menu behind the chat list's left key, as a screen.
//!
//! An entry that is a state carries that state in its label, and choosing it leaves the menu open:
//! the label that just changed is the only answer such an entry can give.

use crate::chats_decl::{pad, row_height};
use crate::strings;
use crate::strings::{refresh, Lang};
use crate::ui;
use crate::ui::{Metrics, Slot, Softkeys, Words};
use vstd::prelude::*;

verus! {

/// What an entry does.
#[derive(Clone, Copy, Debug, PartialEq, Eq, Structural)]
pub enum Action {
    /// Ask the server for the chat list again.
    Refresh,
    /// Turn the log on or off, now and for the next launch.
    DebugLog,
}

/// The entries, in order.
pub open spec fn all_entries() -> Seq<Action> {
    seq![Action::Refresh, Action::DebugLog]
}

/// The entries, in order. Refreshing is the first, where the cursor starts: it is what the key that
/// opens the menu used to do by itself.
pub fn entries() -> (r: Vec<Action>)
    ensures
        r@ == all_entries(),
{
    let mut v: Vec<Action> = Vec::new();
    v.push(Action::Refresh);
    v.push(Action::DebugLog);
    assert(v@ =~= all_entries());
    v
}

/// The label of an entry, with its state in it where it is one.
pub open spec fn entry_label(action: Action, debug_on: bool, lang: Lang) -> &'static str {
    match action {
        Action::Refresh => strings::wording(lang, "Refresh", "Atualizar"),
        Action::DebugLog => if debug_on {
            "Log: ligado"
        } else {
            "Log: desligado"
        },
    }
}

/// The label of an entry, with its state in it where it is one.
pub fn label(action: Action, debug_on: bool, lang: Lang) -> (r: &'static str)
    ensures
        r == entry_label(action, debug_on, lang),
{
    match action {
        Action::Refresh => refresh(lang),
        Action::DebugLog => if debug_on {
            "Log: ligado"
        } else {
            "Log: desligado"
        },
    }
}

/// What the menu asks the application to do.
#[derive(Clone, Copy, Debug, PartialEq, Eq, Structural)]
pub enum Msg {
    /// The cursor moved to a row.
    Select(usize),
    /// Carry out the entry under the cursor.
    Run,
    /// Close the menu and change nothing.
    Back,
}

/// The bar: choose, or leave. Nothing on the left, since no menu opens from a menu.
pub open spec fn bar(words: Words) -> Softkeys<Msg> {
    Softkeys {
        options: None,
        action: Some((words.select, Msg::Run)),
        back: Some((words.back, Msg::Back)),
    }
}

/// The bar: choose, or leave.
pub fn softkeys(words: Words) -> (r: Softkeys<Msg>)
    ensures
        r == bar(words),
{
    Softkeys::new().action(words.select, Msg::Run).back(words.back, Msg::Back)
}

/// What a key means before the list sees it. `slot` is the slot of the bar it presses.
pub fn on_key(slot: Option<Slot>, words: Words) -> (r: Option<Msg>)
    ensures
        r == bar(words).answer(slot),
{
    softkeys(words).dispatch(slot)
}

/// The menu as it is described to the toolkit.
#[derive(Debug)]
pub struct Menu {
    pub title: &'static str,
    pub rows: Vec<&'static str>,
    pub selected: usize,
    /// The rows line up with those of the chat list behind them.
    pub row_h: i32,
    pub pad: i32,
    pub labels: [Option<&'static str>; 3],
}

/// The labels of the entries, in order.
pub open spec fn menu_rows(debug_on: bool, lang: Lang) -> Seq<&'static str> {
    Seq::new(all_entries().len(), |i: int| entry_label(all_entries()[i], debug_on, lang))
}

/// Whether a menu is the description of one with the cursor on an entry.
pub open spec fn offers(
    r: Menu,
    selected: usize,
    debug_on: bool,
    words: Words,
    lang: Lang,
    m: Metrics,
) -> bool {
    &&& r.title == words.options
    &&& r.rows@ == menu_rows(debug_on, lang)
    &&& r.selected == selected
    &&& r.row_h == m.row_h
    &&& r.pad == m.pad
    &&& r.labels@ == ui::labels_of(bar(words))
}

/// Describe the menu.
pub fn view(selected: usize, debug_on: bool, words: Words, lang: Lang, m: &Metrics) -> (r: Menu)
    ensures
        offers(r, selected, debug_on, words, lang, *m),
{
    let all = entries();
    let mut rows: Vec<&'static str> = Vec::new();
    let ghost target = menu_rows(debug_on, lang);
    let mut i: usize = 0;
    while i < all.len()
        invariant
            i <= all.len(),
            all@ == all_entries(),
            target == menu_rows(debug_on, lang),
            rows@ =~= target.take(i as int),
        decreases all.len() - i,
    {
        rows.push(label(all[i], debug_on, lang));
        i += 1;
    }
    assert(target.take(i as int) =~= target);
    let labels = softkeys(words).labels();
    Menu {
        title: words.options,
        rows,
        selected,
        row_h: row_height(m),
        pad: pad(m),
        labels,
    }
}

/// The log entry says which way it is switched.
pub proof fn the_log_entry_reports_its_own_state(lang: Lang)
    ensures
        entry_label(Action::DebugLog, true, lang)@ != entry_label(Action::DebugLog, false, lang)@,
{
    reveal_strlit("Log: ligado");
    reveal_strlit("Log: desligado");
    assert("Log: ligado"@.len() != "Log: desligado"@.len());
}

} // verus!
