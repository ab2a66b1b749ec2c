//! State of a generic picker popup: a list of options, a selection that
//! wraps around, and a scroll window that keeps the selection visible.

use vstd::prelude::*;

verus! {

/// One selectable option.
#[derive(Debug, Clone)]
pub struct PickerOption {
    pub value: String,
    pub label: String,
    pub active: bool,
}

/// What the picker does when an option is confirmed.
#[derive(Debug, Clone)]
pub enum PickerAction {
    SetModel,
}

/// How many options the popup shows at once.
pub const PICKER_VISIBLE_ROWS: usize = 12;

/// The first active option from index `i` on, if any.
pub open spec fn spec_find_active(opts: Seq<PickerOption>, i: int) -> Option<int>
    decreases opts.len() - i,
{
    if i < 0 || i >= opts.len() {
        None
    } else if opts[i].active {
        Some(i)
    } else {
        spec_find_active(opts, i + 1)
    }
}

/// Where the scroll window moves so that `selected` stays visible.
pub open spec fn spec_visible_offset(selected: int, offset: int) -> int {
    if selected < offset {
        selected
    } else if selected >= offset + PICKER_VISIBLE_ROWS {
        selected - PICKER_VISIBLE_ROWS + 1
    } else {
        offset
    }
}


fn first_active_or_zero(options: &Vec<PickerOption>) -> (r: usize)
    ensures
        r as int == (match spec_find_active(options@, 0) {
            Some(i) => i,
            None => 0,
        }),
        options@.len() > 0 ==> r < options@.len(),
        options@.len() == 0 ==> r == 0,
{
    let mut i: usize = 0;
    while i < options.len()
        invariant
            i <= options@.len(),
            spec_find_active(options@, 0) == spec_find_active(options@, i as int),
        decreases options@.len() - i,
    {
        if options[i].active {
            return i;
        }
        i += 1;
    }
    0
}

/// A picker popup over a list of options.
pub struct PickerState {
    pub title: String,
    pub options: Vec<PickerOption>,
    pub selected: usize,
    /// What kind of action to perform on confirm.
    pub action: PickerAction,
    /// Scroll offset for long lists.
    pub scroll_offset: usize,
}

impl PickerState {
    /// The selection and the scroll window stay inside the options.
    pub open spec fn wf(&self) -> bool {
        &&& (self.options@.len() > 0 ==> self.selected < self.options@.len())
        &&& (self.options@.len() == 0 ==> self.selected == 0)
        &&& self.scroll_offset <= self.selected
    }

    /// A picker with the active option preselected, or the first option when
    /// none is active.
    pub fn new(title: String, options: Vec<PickerOption>, action: PickerAction) -> (r: PickerState)
        ensures
            r.wf(),
            r.title@ == title@,
            r.options == options,
            r.action == action,
            r.scroll_offset == 0,
            r.selected as int == (match spec_find_active(options@, 0) {
                Some(i) => i,
                None => 0,
            }),
    {
        let selected = first_active_or_zero(&options);
        PickerState { title, options, selected, action, scroll_offset: 0 }
    }

    /// Move the selection down, wrapping at the end.
    pub fn select_next(&mut self)
        requires
            old(self).wf(),
        ensures
            final(self).wf(),
            final(self).options == old(self).options,
            final(self).title == old(self).title,
            final(self).action == old(self).action,
            old(self).options@.len() == 0 ==> *final(self) == *old(self),
            old(self).options@.len() > 0 ==> final(self).selected as int == (old(self).selected + 1)
                as int % old(self).options@.len() as int,
            old(self).options@.len() > 0 ==> final(self).scroll_offset as int == spec_visible_offset(
                final(self).selected as int,
                old(self).scroll_offset as int,
            ),
    {
        if self.options.len() > 0 {
            self.selected = (self.selected + 1) % self.options.len();
            self.ensure_visible();
        }
    }

    /// Move the selection up, wrapping at the start.
    pub fn select_prev(&mut self)
        requires
            old(self).wf(),
        ensures
            final(self).wf(),
            final(self).options == old(self).options,
            final(self).title == old(self).title,
            final(self).action == old(self).action,
            old(self).options@.len() == 0 ==> *final(self) == *old(self),
            old(self).options@.len() > 0 ==> final(self).selected as int == (if old(self).selected
                == 0 {
                old(self).options@.len() - 1
            } else {
                old(self).selected - 1
            }),
            old(self).options@.len() > 0 ==> final(self).scroll_offset as int == spec_visible_offset(
                final(self).selected as int,
                old(self).scroll_offset as int,
            ),
    {
        if self.options.len() > 0 {
            if self.selected == 0 {
                self.selected = self.options.len() - 1;
            } else {
                self.selected = self.selected - 1;
            }
            self.ensure_visible();
        }
    }

    /// The value of the selected option, if the selection is in range.
    pub fn selected_value<'a>(&'a self) -> (r: Option<&'a str>)
        ensures
            (match r {
                Some(s) => self.selected < self.options@.len() && s@ == self.options@[self.selected
                    as int].value@,
                None => self.selected >= self.options@.len(),
            }),
    {
        if self.selected < self.options.len() {
            Some(self.options[self.selected].value.as_str())
        } else {
            None
        }
    }

    /// Keep the selected item within the visible window.
    pub fn ensure_visible(&mut self)
        ensures
            final(self).selected == old(self).selected,
            final(self).options == old(self).options,
            final(self).title == old(self).title,
            final(self).action == old(self).action,
            final(self).scroll_offset as int == spec_visible_offset(
                old(self).selected as int,
                old(self).scroll_offset as int,
            ),
    {
        if self.selected < self.scroll_offset {
            self.scroll_offset = self.selected;
        } else if self.selected - self.scroll_offset >= PICKER_VISIBLE_ROWS {
            self.scroll_offset = self.selected - PICKER_VISIBLE_ROWS + 1;
        }
    }
}

} // verus!
