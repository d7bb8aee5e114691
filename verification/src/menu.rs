//! The state of the menus, as far as it decides whether the tools take
//! input.

use crate::result::RvError;
use crate::tools_data::bbox_data::{catidx_removed, BboxSpecificData};
use crate::tools_data::label_info::pushed;
use vstd::prelude::*;

verus! {

/// The state of the menu that selects the tools.
#[derive(Clone, Copy, Debug, PartialEq, Eq, Structural)]
pub struct ToolSelectMenu {
    /// Only show the window when true.
    window_open: bool,
    /// Whether the tools take input; while the user types in a menu they
    /// do not.
    are_tools_active: bool,
    /// The tool that was clicked last, until it is taken notice of.
    recently_activated_tool: Option<usize>,
}

impl ToolSelectMenu {
    pub closed spec fn spec_window_open(&self) -> bool {
        self.window_open
    }

    pub closed spec fn spec_are_tools_active(&self) -> bool {
        self.are_tools_active
    }

    pub closed spec fn spec_recently_activated_tool(&self) -> Option<usize> {
        self.recently_activated_tool
    }

    /// The menu as it is at the start: open, with active tools, none of
    /// them clicked.
    pub fn new() -> (m: Self)
        ensures
            m.spec_window_open(),
            m.spec_are_tools_active(),
            m.spec_recently_activated_tool() is None,
    {
        Self { window_open: true, are_tools_active: true, recently_activated_tool: None }
    }

    pub fn recently_activated_tool(&self) -> (r: Option<usize>)
        ensures
            r == self.spec_recently_activated_tool(),
    {
        self.recently_activated_tool
    }

    pub fn is_window_open(&self) -> (b: bool)
        ensures
            b == self.spec_window_open(),
    {
        self.window_open
    }

    pub fn are_tools_active(&self) -> (b: bool)
        ensures
            b == self.spec_are_tools_active(),
    {
        self.are_tools_active
    }

    /// Notes the tool that the user clicked, or that none was clicked.
    pub fn set_recently_activated_tool(&mut self, tool: Option<usize>)
        ensures
            final(self).spec_recently_activated_tool() == tool,
            final(self).spec_window_open() == old(self).spec_window_open(),
            final(self).spec_are_tools_active() == old(self).spec_are_tools_active(),
    {
        self.recently_activated_tool = tool;
    }

    /// Notes that the user types in the menu, or has stopped to. While
    /// the user types the tools take no input.
    pub fn set_typing(&mut self, is_typing: bool)
        ensures
            final(self).spec_are_tools_active() == !is_typing,
            final(self).spec_window_open() == old(self).spec_window_open(),
            final(self).spec_recently_activated_tool() == old(self).spec_recently_activated_tool(),
    {
        self.are_tools_active = !is_typing;
    }

    /// Takes notice of the clicks of one frame: of the tools that can be
    /// switched off, the first one that was clicked is the tool that was
    /// activated; if none was clicked, none was. `is_always_active` and
    /// `clicked` hold one flag for each tool.
    pub fn activate_clicked(&mut self, is_always_active: &[bool], clicked: &[bool])
        requires
            is_always_active.len() == clicked.len(),
        ensures
            final(self).spec_window_open() == old(self).spec_window_open(),
            final(self).spec_are_tools_active() == old(self).spec_are_tools_active(),
            match final(self).spec_recently_activated_tool() {
                Some(k) => k < clicked.len() && clicked[k as int] && !is_always_active[k as int]
                    && forall|i: int| 0 <= i < k ==> !(clicked[i] && !is_always_active[i]),
                None => forall|i: int|
                    0 <= i < clicked.len() ==> !(clicked[i] && !is_always_active[i]),
            },
    {
        self.recently_activated_tool = None;
        let mut i: usize = 0;
        while i < clicked.len()
            invariant
                i <= clicked.len(),
                is_always_active.len() == clicked.len(),
                self.window_open == old(self).window_open,
                self.are_tools_active == old(self).are_tools_active,
                self.recently_activated_tool is None,
                forall|k: int| 0 <= k < i ==> !(clicked[k] && !is_always_active[k]),
            decreases clicked.len() - i,
        {
            if clicked[i] && !is_always_active[i] {
                self.recently_activated_tool = Some(i);
                return ;
            }
            i += 1;
        }
    }

    /// Opens the window if it is closed and closes it if it is open. A
    /// closed menu cannot hold the input, so closing activates the tools.
    pub fn toggle(&mut self)
        ensures
            final(self).spec_window_open() == !old(self).spec_window_open(),
            final(self).spec_are_tools_active() == (old(self).spec_window_open() || old(self).spec_are_tools_active()),
            final(self).spec_recently_activated_tool() == old(self).spec_recently_activated_tool(),
    {
        if self.window_open {
            self.window_open = false;
            self.are_tools_active = true;
        } else {
            self.window_open = true;
        }
    }
}

impl Default for ToolSelectMenu {
    fn default() -> (m: Self)
        ensures
            m.spec_window_open(),
            m.spec_are_tools_active(),
            m.spec_recently_activated_tool() is None,
    {
        Self::new()
    }
}

/// The tools take input if neither the main menu nor the menu of the tools
/// holds it.
pub fn are_tools_active(menu_tools_active: bool, tsm: &ToolSelectMenu) -> (b: bool)
    ensures
        b == (menu_tools_active && tsm.spec_are_tools_active()),
{
    menu_tools_active && tsm.are_tools_active
}

/// What the user did in the menu of the bounding box tool during one
/// frame.
#[derive(Clone, Copy, Debug, PartialEq, Eq, Structural)]
pub struct BboxMenuInput {
    /// The field for a new label has lost the focus: the label is to be
    /// added.
    pub label_entered: bool,
    /// The category whose label was clicked.
    pub selected: Option<usize>,
    /// The category whose remove button was clicked.
    pub to_be_removed: Option<usize>,
    /// The close button was clicked.
    pub close_clicked: bool,
}

/// What `bbox_menu` makes of the data of the tool, by way of the data
/// `labelled` and `selected` in between.
///
/// First the entered label is added to the label table, unless the table
/// refuses it, which `res` tells; then the clicked category becomes the
/// current one; then the category to be removed is removed, as
/// `remove_catidx` says, if it is a category of the table.
pub open spec fn bbox_menu_applied(
    input: BboxMenuInput,
    before: BboxSpecificData,
    res: Result<(), RvError>,
    labelled: BboxSpecificData,
    selected: BboxSpecificData,
    after: BboxSpecificData,
) -> bool {
    &&& if input.label_entered {
        &&& pushed(
            before.spec_label_info(),
            before.spec_new_label(),
            None,
            None,
            labelled.spec_label_info(),
            res,
        )
        &&& labelled.spec_files() == before.spec_files()
        &&& labelled.spec_annotations() == before.spec_annotations()
        &&& labelled.spec_cat_idx_current() == before.spec_cat_idx_current()
        &&& labelled.spec_settings() == before.spec_settings()
    } else {
        labelled == before
    }
    &&& match input.selected {
        Some(idx) => {
            &&& selected.spec_cat_idx_current() == idx
            &&& selected.spec_label_info() == labelled.spec_label_info()
            &&& selected.spec_files() == labelled.spec_files()
            &&& selected.spec_annotations() == labelled.spec_annotations()
            &&& selected.spec_settings() == labelled.spec_settings()
        },
        None => selected == labelled,
    }
    &&& match input.to_be_removed {
        Some(idx) => if idx < selected.spec_label_info().spec_len() {
            catidx_removed(selected, idx, after)
        } else {
            after == selected
        },
        None => after == selected,
    }
}

/// Applies what the user did in the menu of the bounding box tool to the
/// data of the tool, as `bbox_menu_applied` says, and tells whether the
/// menu stays open: it does unless it was closed or the close button was
/// clicked.
pub fn bbox_menu(input: BboxMenuInput, window_open: bool, data: BboxSpecificData) -> (r: (
    bool,
    BboxSpecificData,
))
    requires
        data.wf(),
    ensures
        r.0 == (window_open && !input.close_clicked),
        r.1.wf(),
        data.cats_in_table() ==> r.1.cats_in_table(),
        exists|res: Result<(), RvError>, labelled: BboxSpecificData, selected: BboxSpecificData|
            #[trigger] bbox_menu_applied(input, data, res, labelled, selected, r.1),
{
    let mut out = data;
    let ghost mut res: Result<(), RvError> = Ok(());
    if input.label_entered {
        let label = out.new_label().clone();
        let pushed_res = out.push(label, None, None);
        proof {
            res = pushed_res;
        }
    }
    let ghost labelled = out;
    if let Some(idx) = input.selected {
        out.set_cat_idx_current(idx);
    }
    let ghost selected = out;
    if let Some(idx) = input.to_be_removed {
        if idx < out.len() {
            out.remove_catidx(idx);
        }
    }
    let r = (window_open && !input.close_clicked, out);
    assert(bbox_menu_applied(input, data, res, labelled, selected, r.1));
    r
}

} // verus!
