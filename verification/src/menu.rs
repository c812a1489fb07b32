//! The right-click menu of a page: which items it shows for what was
//! clicked, and what picking each item does.
use vstd::prelude::*;
use crate::encoding::{json_literal, json_quoted};
use crate::tabs::{tab_index, TabInfo, TabState};
use crate::text::{push_str, str_eq};

verus! {

/// An item of the page menu.
#[derive(Clone, Copy, PartialEq, Eq, Structural)]
pub enum MenuAction {
    OpenLink,
    CopyLink,
    OpenImage,
    SaveImage,
    CopyImage,
    CopyImageSrc,
    CutSelection,
    CopySelection,
    Paste,
    SelectAll,
    Back,
    Forward,
    Reload,
}

/// One row of the menu.
#[derive(Clone, Copy, PartialEq, Eq, Structural)]
pub enum MenuEntry {
    Item(MenuAction),
    Separator,
}

/// What the right-click was on, as the page reported it.
pub struct ContextMenuTarget {
    pub href: Option<String>,
    pub src: Option<String>,
    pub selection_text: Option<String>,
    /// The tab the right-click happened in.
    pub source_label: String,
}

/// What picking a menu item asks for.
pub enum MenuCommand {
    /// Open `url` in a new tab, private when the source tab is.
    OpenInNewTab { url: String, private: bool },
    /// Put the text on the clipboard.
    CopyText(String),
    /// Fetch the image and ask where to save it.
    SaveImage(String),
    /// Fetch the image and put it on the clipboard.
    CopyImage(String),
    /// Copy the selection (when there is one), then run `CUT_SCRIPT` in the
    /// active tab.
    CutSelection(Option<String>),
    /// Read the clipboard and run `paste_script` of it in the active tab.
    Paste,
    /// Run the script in the active tab.
    RunScript(&'static str),
    Nothing,
}

/// Removes the selection, as the second half of a cut.
pub const CUT_SCRIPT: &'static str = "document.execCommand('insertText', false, '')";

/// Selects everything.
pub const SELECT_ALL_SCRIPT: &'static str = "document.execCommand('selectAll')";

/// Goes back in the tab's history.
pub const BACK_SCRIPT: &'static str = "history.back()";

/// Goes forward in the tab's history.
pub const FORWARD_SCRIPT: &'static str = "history.forward()";

/// Reloads the page.
pub const RELOAD_SCRIPT: &'static str = "location.reload()";

impl MenuAction {
    /// The item's menu id.
    pub open spec fn id_spec(self) -> Seq<char> {
        match self {
            MenuAction::OpenLink => "ctx-open-link"@,
            MenuAction::CopyLink => "ctx-copy-link"@,
            MenuAction::OpenImage => "ctx-open-image"@,
            MenuAction::SaveImage => "ctx-save-image"@,
            MenuAction::CopyImage => "ctx-copy-image"@,
            MenuAction::CopyImageSrc => "ctx-copy-image-src"@,
            MenuAction::CutSelection => "ctx-cut-selection"@,
            MenuAction::CopySelection => "ctx-copy-selection"@,
            MenuAction::Paste => "ctx-paste"@,
            MenuAction::SelectAll => "ctx-select-all"@,
            MenuAction::Back => "ctx-back"@,
            MenuAction::Forward => "ctx-forward"@,
            MenuAction::Reload => "ctx-reload"@,
        }
    }

    /// The item's menu id.
    pub fn id(&self) -> (r: &'static str)
        ensures
            r@ == self.id_spec(),
    {
        match self {
            MenuAction::OpenLink => "ctx-open-link",
            MenuAction::CopyLink => "ctx-copy-link",
            MenuAction::OpenImage => "ctx-open-image",
            MenuAction::SaveImage => "ctx-save-image",
            MenuAction::CopyImage => "ctx-copy-image",
            MenuAction::CopyImageSrc => "ctx-copy-image-src",
            MenuAction::CutSelection => "ctx-cut-selection",
            MenuAction::CopySelection => "ctx-copy-selection",
            MenuAction::Paste => "ctx-paste",
            MenuAction::SelectAll => "ctx-select-all",
            MenuAction::Back => "ctx-back",
            MenuAction::Forward => "ctx-forward",
            MenuAction::Reload => "ctx-reload",
        }
    }

    /// The item's text.
    pub open spec fn label_spec(self) -> Seq<char> {
        match self {
            MenuAction::OpenLink => "Open Link in New Tab"@,
            MenuAction::CopyLink => "Copy Link"@,
            MenuAction::OpenImage => "Open Image in New Tab"@,
            MenuAction::SaveImage => "Save Image As..."@,
            MenuAction::CopyImage => "Copy Image"@,
            MenuAction::CopyImageSrc => "Copy Image Address"@,
            MenuAction::CutSelection => "Cut"@,
            MenuAction::CopySelection => "Copy"@,
            MenuAction::Paste => "Paste"@,
            MenuAction::SelectAll => "Select All"@,
            MenuAction::Back => "Back"@,
            MenuAction::Forward => "Forward"@,
            MenuAction::Reload => "Reload"@,
        }
    }

    /// The item's text.
    pub fn label(&self) -> (r: &'static str)
        ensures
            r@ == self.label_spec(),
    {
        match self {
            MenuAction::OpenLink => "Open Link in New Tab",
            MenuAction::CopyLink => "Copy Link",
            MenuAction::OpenImage => "Open Image in New Tab",
            MenuAction::SaveImage => "Save Image As...",
            MenuAction::CopyImage => "Copy Image",
            MenuAction::CopyImageSrc => "Copy Image Address",
            MenuAction::CutSelection => "Cut",
            MenuAction::CopySelection => "Copy",
            MenuAction::Paste => "Paste",
            MenuAction::SelectAll => "Select All",
            MenuAction::Back => "Back",
            MenuAction::Forward => "Forward",
            MenuAction::Reload => "Reload",
        }
    }
}

/// The item a menu id names.
pub open spec fn action_of(id: Seq<char>) -> Option<MenuAction> {
    if id == "ctx-open-link"@ {
        Some(MenuAction::OpenLink)
    } else if id == "ctx-copy-link"@ {
        Some(MenuAction::CopyLink)
    } else if id == "ctx-open-image"@ {
        Some(MenuAction::OpenImage)
    } else if id == "ctx-save-image"@ {
        Some(MenuAction::SaveImage)
    } else if id == "ctx-copy-image"@ {
        Some(MenuAction::CopyImage)
    } else if id == "ctx-copy-image-src"@ {
        Some(MenuAction::CopyImageSrc)
    } else if id == "ctx-cut-selection"@ {
        Some(MenuAction::CutSelection)
    } else if id == "ctx-copy-selection"@ {
        Some(MenuAction::CopySelection)
    } else if id == "ctx-paste"@ {
        Some(MenuAction::Paste)
    } else if id == "ctx-select-all"@ {
        Some(MenuAction::SelectAll)
    } else if id == "ctx-back"@ {
        Some(MenuAction::Back)
    } else if id == "ctx-forward"@ {
        Some(MenuAction::Forward)
    } else if id == "ctx-reload"@ {
        Some(MenuAction::Reload)
    } else {
        None
    }
}

/// The item a menu id names, if any.
pub fn action_from_id(id: &str) -> (r: Option<MenuAction>)
    ensures
        r == action_of(id@),
{
    if str_eq(id, "ctx-open-link") {
        Some(MenuAction::OpenLink)
    } else if str_eq(id, "ctx-copy-link") {
        Some(MenuAction::CopyLink)
    } else if str_eq(id, "ctx-open-image") {
        Some(MenuAction::OpenImage)
    } else if str_eq(id, "ctx-save-image") {
        Some(MenuAction::SaveImage)
    } else if str_eq(id, "ctx-copy-image") {
        Some(MenuAction::CopyImage)
    } else if str_eq(id, "ctx-copy-image-src") {
        Some(MenuAction::CopyImageSrc)
    } else if str_eq(id, "ctx-cut-selection") {
        Some(MenuAction::CutSelection)
    } else if str_eq(id, "ctx-copy-selection") {
        Some(MenuAction::CopySelection)
    } else if str_eq(id, "ctx-paste") {
        Some(MenuAction::Paste)
    } else if str_eq(id, "ctx-select-all") {
        Some(MenuAction::SelectAll)
    } else if str_eq(id, "ctx-back") {
        Some(MenuAction::Back)
    } else if str_eq(id, "ctx-forward") {
        Some(MenuAction::Forward)
    } else if str_eq(id, "ctx-reload") {
        Some(MenuAction::Reload)
    } else {
        None
    }
}

/// The kind of target a page may report; anything else counts as `page`.
pub open spec fn sanitized_target(t: Seq<char>) -> Seq<char> {
    if t == "link"@ || t == "image"@ || t == "selection"@ || t == "editable"@ {
        t
    } else {
        "page"@
    }
}

/// A reported target kind, checked against the fixed set (`link`, `image`,
/// `selection`, `editable`); anything else, which a page's own script could
/// send, becomes `page`.
pub fn sanitize_target_type(target_type: &str) -> (r: String)
    ensures
        r@ == sanitized_target(target_type@),
{
    if str_eq(target_type, "link") || str_eq(target_type, "image") || str_eq(target_type, "selection")
        || str_eq(target_type, "editable") {
        target_type.to_owned()
    } else {
        "page".to_owned()
    }
}

/// The rows of the menu for a target kind and what the click carried.
pub open spec fn menu_layout(target_type: Seq<char>, has_href: bool, has_src: bool, has_selection: bool) -> Seq<MenuEntry> {
    if target_type == "link"@ && has_href {
        seq![MenuEntry::Item(MenuAction::OpenLink), MenuEntry::Item(MenuAction::CopyLink)]
    } else if target_type == "image"@ && has_src {
        seq![
            MenuEntry::Item(MenuAction::OpenImage),
            MenuEntry::Separator,
            MenuEntry::Item(MenuAction::SaveImage),
            MenuEntry::Item(MenuAction::CopyImage),
            MenuEntry::Item(MenuAction::CopyImageSrc),
        ]
    } else if target_type == "editable"@ && has_selection {
        seq![
            MenuEntry::Item(MenuAction::CutSelection),
            MenuEntry::Item(MenuAction::CopySelection),
            MenuEntry::Item(MenuAction::Paste),
            MenuEntry::Separator,
            MenuEntry::Item(MenuAction::SelectAll),
        ]
    } else if target_type == "editable"@ {
        seq![MenuEntry::Item(MenuAction::Paste), MenuEntry::Item(MenuAction::SelectAll)]
    } else if target_type == "selection"@ && has_selection {
        seq![MenuEntry::Item(MenuAction::CopySelection), MenuEntry::Item(MenuAction::SelectAll)]
    } else {
        seq![
            MenuEntry::Item(MenuAction::Back),
            MenuEntry::Item(MenuAction::Forward),
            MenuEntry::Item(MenuAction::Reload),
        ]
    }
}

/// The rows of the popup menu for what was right-clicked: link, image and
/// selection items when the click carried them, paste and select-all in an
/// editable field, and back, forward and reload otherwise.
pub fn build_context_menu(target_type: &str, has_href: bool, has_src: bool, has_selection: bool) -> (r: Vec<MenuEntry>)
    ensures
        r@ == menu_layout(target_type@, has_href, has_src, has_selection),
{
    let mut v: Vec<MenuEntry> = Vec::new();
    if str_eq(target_type, "link") && has_href {
        v.push(MenuEntry::Item(MenuAction::OpenLink));
        v.push(MenuEntry::Item(MenuAction::CopyLink));
    } else if str_eq(target_type, "image") && has_src {
        v.push(MenuEntry::Item(MenuAction::OpenImage));
        v.push(MenuEntry::Separator);
        v.push(MenuEntry::Item(MenuAction::SaveImage));
        v.push(MenuEntry::Item(MenuAction::CopyImage));
        v.push(MenuEntry::Item(MenuAction::CopyImageSrc));
    } else if str_eq(target_type, "editable") && has_selection {
        v.push(MenuEntry::Item(MenuAction::CutSelection));
        v.push(MenuEntry::Item(MenuAction::CopySelection));
        v.push(MenuEntry::Item(MenuAction::Paste));
        v.push(MenuEntry::Separator);
        v.push(MenuEntry::Item(MenuAction::SelectAll));
    } else if str_eq(target_type, "editable") {
        v.push(MenuEntry::Item(MenuAction::Paste));
        v.push(MenuEntry::Item(MenuAction::SelectAll));
    } else if str_eq(target_type, "selection") && has_selection {
        v.push(MenuEntry::Item(MenuAction::CopySelection));
        v.push(MenuEntry::Item(MenuAction::SelectAll));
    } else {
        v.push(MenuEntry::Item(MenuAction::Back));
        v.push(MenuEntry::Item(MenuAction::Forward));
        v.push(MenuEntry::Item(MenuAction::Reload));
    }
    assert(v@ =~= menu_layout(target_type@, has_href, has_src, has_selection));
    v
}

/// The tab `label` is private (a tab that is gone counts as not).
pub open spec fn source_private(tabs: Seq<TabInfo>, label: Seq<char>) -> bool {
    match tab_index(tabs, label) {
        Some(i) => tabs[i].is_private,
        None => false,
    }
}

/// The optional text as a copy command, or nothing.
pub open spec fn copy_of(text: Option<String>, r: MenuCommand) -> bool {
    match text {
        Some(t) => r matches MenuCommand::CopyText(c) && c@ == t@,
        None => r is Nothing,
    }
}

/// What picking the menu item `id` does for the last right-click target
/// (`None` when none was recorded). Links and images open in a new tab that
/// is private when the source tab is; copies need the text the click
/// carried; cut, paste, select-all and navigation act on the active tab.
pub fn handle_context_menu_event(target: Option<&ContextMenuTarget>, tabs: &TabState, id: &str) -> (r: MenuCommand)
    ensures
        match target {
            None => r is Nothing,
            Some(t) => {
                let private = source_private(tabs.tabs@, t.source_label@);
                match action_of(id@) {
                    None => r is Nothing,
                    Some(MenuAction::OpenLink) => match t.href {
                        Some(h) => r matches MenuCommand::OpenInNewTab { url, private: p } && url@
                            == h@ && p == private,
                        None => r is Nothing,
                    },
                    Some(MenuAction::OpenImage) => match t.src {
                        Some(s) => r matches MenuCommand::OpenInNewTab { url, private: p } && url@
                            == s@ && p == private,
                        None => r is Nothing,
                    },
                    Some(MenuAction::CopyLink) => copy_of(t.href, r),
                    Some(MenuAction::CopyImageSrc) => copy_of(t.src, r),
                    Some(MenuAction::CopySelection) => copy_of(t.selection_text, r),
                    Some(MenuAction::SaveImage) => match t.src {
                        Some(s) => r matches MenuCommand::SaveImage(c) && c@ == s@,
                        None => r is Nothing,
                    },
                    Some(MenuAction::CopyImage) => match t.src {
                        Some(s) => r matches MenuCommand::CopyImage(c) && c@ == s@,
                        None => r is Nothing,
                    },
                    Some(MenuAction::CutSelection) => r matches MenuCommand::CutSelection(c) && match (
                        t.selection_text,
                        c,
                    ) {
                        (Some(a), Some(b)) => a@ == b@,
                        (None, None) => true,
                        _ => false,
                    },
                    Some(MenuAction::Paste) => r is Paste,
                    Some(MenuAction::SelectAll) => r matches MenuCommand::RunScript(s) && s@
                        == SELECT_ALL_SCRIPT@,
                    Some(MenuAction::Back) => r matches MenuCommand::RunScript(s) && s@ == BACK_SCRIPT@,
                    Some(MenuAction::Forward) => r matches MenuCommand::RunScript(s) && s@
                        == FORWARD_SCRIPT@,
                    Some(MenuAction::Reload) => r matches MenuCommand::RunScript(s) && s@
                        == RELOAD_SCRIPT@,
                }
            },
        },
{
    let t = match target {
        Some(t) => t,
        None => {
            return MenuCommand::Nothing;
        },
    };
    let idx = tabs.find_tab(t.source_label.as_str());
    proof {
        crate::tabs::lemma_tab_index(tabs.tabs@, t.source_label@);
    }
    let private = match idx {
        Some(i) => tabs.tabs[i].is_private,
        None => false,
    };
    let action = match action_from_id(id) {
        Some(a) => a,
        None => {
            return MenuCommand::Nothing;
        },
    };
    match action {
        MenuAction::OpenLink => match &t.href {
            Some(h) => MenuCommand::OpenInNewTab { url: h.clone(), private },
            None => MenuCommand::Nothing,
        },
        MenuAction::OpenImage => match &t.src {
            Some(s) => MenuCommand::OpenInNewTab { url: s.clone(), private },
            None => MenuCommand::Nothing,
        },
        MenuAction::CopyLink => match &t.href {
            Some(h) => MenuCommand::CopyText(h.clone()),
            None => MenuCommand::Nothing,
        },
        MenuAction::CopyImageSrc => match &t.src {
            Some(s) => MenuCommand::CopyText(s.clone()),
            None => MenuCommand::Nothing,
        },
        MenuAction::CopySelection => match &t.selection_text {
            Some(s) => MenuCommand::CopyText(s.clone()),
            None => MenuCommand::Nothing,
        },
        MenuAction::SaveImage => match &t.src {
            Some(s) => MenuCommand::SaveImage(s.clone()),
            None => MenuCommand::Nothing,
        },
        MenuAction::CopyImage => match &t.src {
            Some(s) => MenuCommand::CopyImage(s.clone()),
            None => MenuCommand::Nothing,
        },
        MenuAction::CutSelection => match &t.selection_text {
            Some(s) => MenuCommand::CutSelection(Some(s.clone())),
            None => MenuCommand::CutSelection(None),
        },
        MenuAction::Paste => MenuCommand::Paste,
        MenuAction::SelectAll => MenuCommand::RunScript(SELECT_ALL_SCRIPT),
        MenuAction::Back => MenuCommand::RunScript(BACK_SCRIPT),
        MenuAction::Forward => MenuCommand::RunScript(FORWARD_SCRIPT),
        MenuAction::Reload => MenuCommand::RunScript(RELOAD_SCRIPT),
    }
}

/// Start of the paste script, before the clipboard text's literal.
pub const PASTE_SCRIPT_HEAD: &'static str = "document.execCommand('insertText', false, ";

/// End of the paste script.
pub const PASTE_SCRIPT_TAIL: &'static str = ");";

/// The script that types the clipboard text at the cursor, the text
/// embedded as a JSON string literal.
pub fn paste_script(text: &str) -> (r: String)
    ensures
        r@ == PASTE_SCRIPT_HEAD@ + json_quoted(text@) + PASTE_SCRIPT_TAIL@,
{
    let j = json_literal(text);
    let mut s = String::new();
    push_str(&mut s, PASTE_SCRIPT_HEAD);
    push_str(&mut s, j.as_str());
    push_str(&mut s, PASTE_SCRIPT_TAIL);
    assert(s@ =~= PASTE_SCRIPT_HEAD@ + json_quoted(text@) + PASTE_SCRIPT_TAIL@);
    s
}

} // verus!
