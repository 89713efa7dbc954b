//! The application's actions and the keys bound to them: the defaults, the
//! overrides read from the config, and lookups in both directions.

use vstd::prelude::*;
use vstd::string::StringExecFns;

use crate::keys::{format_key_combo, formatted_combo, parse_key_combo, parsed_key_combo, KeyCode, KeyCombo, KeyModifiers};

verus! {

/// An application action that can be triggered by a key press.
#[derive(Clone, Copy, Debug, PartialEq, Eq, Structural)]
pub enum Action {
    // Global
    Quit,
    Reset,
    ToggleHelp,
    ClearAlerts,
    ClearProgress,
    // Navigation (filesystem)
    Back,
    Open,
    OpenCustom,
    OpenNewWindow,
    OpenTerminal,
    GoHome,
    Refresh,
    // Selection
    SelectNext,
    SelectPrevious,
    SelectFirst,
    SelectLast,
    SelectMiddle,
    PageUp,
    PageDown,
    // Marks
    ToggleMark,
    RangeMark,
    // Clipboard
    Copy,
    Cut,
    Paste,
    // File operations
    Delete,
    Rename,
    Filter,
    // Sort
    SortByName,
    SortByModified,
    SortBySize,
    // Prompt
    PromptSubmit,
    PromptCancel,
    PromptReset,
    PromptSelectAll,
    PromptCopy,
    PromptCut,
    PromptPaste,
}

/// The action's name, as debug output spells it.
pub open spec fn action_name(action: Action) -> Seq<char> {
    match action {
        Action::Quit => "Quit"@,
        Action::Reset => "Reset"@,
        Action::ToggleHelp => "ToggleHelp"@,
        Action::ClearAlerts => "ClearAlerts"@,
        Action::ClearProgress => "ClearProgress"@,
        Action::Back => "Back"@,
        Action::Open => "Open"@,
        Action::OpenCustom => "OpenCustom"@,
        Action::OpenNewWindow => "OpenNewWindow"@,
        Action::OpenTerminal => "OpenTerminal"@,
        Action::GoHome => "GoHome"@,
        Action::Refresh => "Refresh"@,
        Action::SelectNext => "SelectNext"@,
        Action::SelectPrevious => "SelectPrevious"@,
        Action::SelectFirst => "SelectFirst"@,
        Action::SelectLast => "SelectLast"@,
        Action::SelectMiddle => "SelectMiddle"@,
        Action::PageUp => "PageUp"@,
        Action::PageDown => "PageDown"@,
        Action::ToggleMark => "ToggleMark"@,
        Action::RangeMark => "RangeMark"@,
        Action::Copy => "Copy"@,
        Action::Cut => "Cut"@,
        Action::Paste => "Paste"@,
        Action::Delete => "Delete"@,
        Action::Rename => "Rename"@,
        Action::Filter => "Filter"@,
        Action::SortByName => "SortByName"@,
        Action::SortByModified => "SortByModified"@,
        Action::SortBySize => "SortBySize"@,
        Action::PromptSubmit => "PromptSubmit"@,
        Action::PromptCancel => "PromptCancel"@,
        Action::PromptReset => "PromptReset"@,
        Action::PromptSelectAll => "PromptSelectAll"@,
        Action::PromptCopy => "PromptCopy"@,
        Action::PromptCut => "PromptCut"@,
        Action::PromptPaste => "PromptPaste"@,
    }
}

impl Action {
    /// The action's name, as debug output spells it.
    pub fn name(self) -> (n: &'static str)
        ensures
            n@ == action_name(self),
    {
        match self {
            Action::Quit => "Quit",
            Action::Reset => "Reset",
            Action::ToggleHelp => "ToggleHelp",
            Action::ClearAlerts => "ClearAlerts",
            Action::ClearProgress => "ClearProgress",
            Action::Back => "Back",
            Action::Open => "Open",
            Action::OpenCustom => "OpenCustom",
            Action::OpenNewWindow => "OpenNewWindow",
            Action::OpenTerminal => "OpenTerminal",
            Action::GoHome => "GoHome",
            Action::Refresh => "Refresh",
            Action::SelectNext => "SelectNext",
            Action::SelectPrevious => "SelectPrevious",
            Action::SelectFirst => "SelectFirst",
            Action::SelectLast => "SelectLast",
            Action::SelectMiddle => "SelectMiddle",
            Action::PageUp => "PageUp",
            Action::PageDown => "PageDown",
            Action::ToggleMark => "ToggleMark",
            Action::RangeMark => "RangeMark",
            Action::Copy => "Copy",
            Action::Cut => "Cut",
            Action::Paste => "Paste",
            Action::Delete => "Delete",
            Action::Rename => "Rename",
            Action::Filter => "Filter",
            Action::SortByName => "SortByName",
            Action::SortByModified => "SortByModified",
            Action::SortBySize => "SortBySize",
            Action::PromptSubmit => "PromptSubmit",
            Action::PromptCancel => "PromptCancel",
            Action::PromptReset => "PromptReset",
            Action::PromptSelectAll => "PromptSelectAll",
            Action::PromptCopy => "PromptCopy",
            Action::PromptCut => "PromptCut",
            Action::PromptPaste => "PromptPaste",
        }
    }
}

/// TOML keybinding value: either a single key string or an array of key strings.
pub enum KeySpec {
    Single(String),
    Multiple(Vec<String>),
}

/// User-configurable keybindings from TOML `[keybindings]` section.
pub struct TomlKeybindings {
    pub quit: Option<KeySpec>,
    pub reset: Option<KeySpec>,
    pub toggle_help: Option<KeySpec>,
    pub clear_alerts: Option<KeySpec>,
    pub clear_progress: Option<KeySpec>,
    pub back: Option<KeySpec>,
    pub open: Option<KeySpec>,
    pub open_custom: Option<KeySpec>,
    pub open_new_window: Option<KeySpec>,
    pub open_terminal: Option<KeySpec>,
    pub go_home: Option<KeySpec>,
    pub refresh: Option<KeySpec>,
    pub select_next: Option<KeySpec>,
    pub select_previous: Option<KeySpec>,
    pub select_first: Option<KeySpec>,
    pub select_last: Option<KeySpec>,
    pub select_middle: Option<KeySpec>,
    pub page_up: Option<KeySpec>,
    pub page_down: Option<KeySpec>,
    pub toggle_mark: Option<KeySpec>,
    pub range_mark: Option<KeySpec>,
    pub copy: Option<KeySpec>,
    pub cut: Option<KeySpec>,
    pub paste: Option<KeySpec>,
    pub delete: Option<KeySpec>,
    pub rename: Option<KeySpec>,
    pub filter: Option<KeySpec>,
    pub sort_by_name: Option<KeySpec>,
    pub sort_by_modified: Option<KeySpec>,
    pub sort_by_size: Option<KeySpec>,
    pub prompt_submit: Option<KeySpec>,
    pub prompt_cancel: Option<KeySpec>,
    pub prompt_reset: Option<KeySpec>,
    pub prompt_select_all: Option<KeySpec>,
    pub prompt_copy: Option<KeySpec>,
    pub prompt_cut: Option<KeySpec>,
    pub prompt_paste: Option<KeySpec>,
}

impl TomlKeybindings {
    /// No override at all.
    pub open spec fn is_empty(&self) -> bool {
        self.quit is None
        && self.reset is None
        && self.toggle_help is None
        && self.clear_alerts is None
        && self.clear_progress is None
        && self.back is None
        && self.open is None
        && self.open_custom is None
        && self.open_new_window is None
        && self.open_terminal is None
        && self.go_home is None
        && self.refresh is None
        && self.select_next is None
        && self.select_previous is None
        && self.select_first is None
        && self.select_last is None
        && self.select_middle is None
        && self.page_up is None
        && self.page_down is None
        && self.toggle_mark is None
        && self.range_mark is None
        && self.copy is None
        && self.cut is None
        && self.paste is None
        && self.delete is None
        && self.rename is None
        && self.filter is None
        && self.sort_by_name is None
        && self.sort_by_modified is None
        && self.sort_by_size is None
        && self.prompt_submit is None
        && self.prompt_cancel is None
        && self.prompt_reset is None
        && self.prompt_select_all is None
        && self.prompt_copy is None
        && self.prompt_cut is None
        && self.prompt_paste is None
    }
}

impl Default for TomlKeybindings {
    fn default() -> (t: Self)
        ensures
            t.is_empty(),
    {
        TomlKeybindings {
            quit: None,
            reset: None,
            toggle_help: None,
            clear_alerts: None,
            clear_progress: None,
            back: None,
            open: None,
            open_custom: None,
            open_new_window: None,
            open_terminal: None,
            go_home: None,
            refresh: None,
            select_next: None,
            select_previous: None,
            select_first: None,
            select_last: None,
            select_middle: None,
            page_up: None,
            page_down: None,
            toggle_mark: None,
            range_mark: None,
            copy: None,
            cut: None,
            paste: None,
            delete: None,
            rename: None,
            filter: None,
            sort_by_name: None,
            sort_by_modified: None,
            sort_by_size: None,
            prompt_submit: None,
            prompt_cancel: None,
            prompt_reset: None,
            prompt_select_all: None,
            prompt_copy: None,
            prompt_cut: None,
            prompt_paste: None,
        }
    }
}

/// The value a later config file gives, where it gives one, and otherwise
/// the earlier one's.
pub open spec fn preferred(earlier: Option<KeySpec>, later: Option<KeySpec>) -> Option<KeySpec> {
    if later is Some {
        later
    } else {
        earlier
    }
}

fn take_later(earlier: Option<KeySpec>, later: Option<KeySpec>) -> (r: Option<KeySpec>)
    ensures
        r == preferred(earlier, later),
{
    if later.is_some() {
        later
    } else {
        earlier
    }
}

impl TomlKeybindings {
    /// These overrides with those of a later file (`--include`) taking
    /// precedence, value by value.
    pub fn merged(self, later: TomlKeybindings) -> (r: TomlKeybindings)
        ensures
            r.quit == preferred(self.quit, later.quit),
            r.reset == preferred(self.reset, later.reset),
            r.toggle_help == preferred(self.toggle_help, later.toggle_help),
            r.clear_alerts == preferred(self.clear_alerts, later.clear_alerts),
            r.clear_progress == preferred(self.clear_progress, later.clear_progress),
            r.back == preferred(self.back, later.back),
            r.open == preferred(self.open, later.open),
            r.open_custom == preferred(self.open_custom, later.open_custom),
            r.open_new_window == preferred(self.open_new_window, later.open_new_window),
            r.open_terminal == preferred(self.open_terminal, later.open_terminal),
            r.go_home == preferred(self.go_home, later.go_home),
            r.refresh == preferred(self.refresh, later.refresh),
            r.select_next == preferred(self.select_next, later.select_next),
            r.select_previous == preferred(self.select_previous, later.select_previous),
            r.select_first == preferred(self.select_first, later.select_first),
            r.select_last == preferred(self.select_last, later.select_last),
            r.select_middle == preferred(self.select_middle, later.select_middle),
            r.page_up == preferred(self.page_up, later.page_up),
            r.page_down == preferred(self.page_down, later.page_down),
            r.toggle_mark == preferred(self.toggle_mark, later.toggle_mark),
            r.range_mark == preferred(self.range_mark, later.range_mark),
            r.copy == preferred(self.copy, later.copy),
            r.cut == preferred(self.cut, later.cut),
            r.paste == preferred(self.paste, later.paste),
            r.delete == preferred(self.delete, later.delete),
            r.rename == preferred(self.rename, later.rename),
            r.filter == preferred(self.filter, later.filter),
            r.sort_by_name == preferred(self.sort_by_name, later.sort_by_name),
            r.sort_by_modified == preferred(self.sort_by_modified, later.sort_by_modified),
            r.sort_by_size == preferred(self.sort_by_size, later.sort_by_size),
            r.prompt_submit == preferred(self.prompt_submit, later.prompt_submit),
            r.prompt_cancel == preferred(self.prompt_cancel, later.prompt_cancel),
            r.prompt_reset == preferred(self.prompt_reset, later.prompt_reset),
            r.prompt_select_all == preferred(self.prompt_select_all, later.prompt_select_all),
            r.prompt_copy == preferred(self.prompt_copy, later.prompt_copy),
            r.prompt_cut == preferred(self.prompt_cut, later.prompt_cut),
            r.prompt_paste == preferred(self.prompt_paste, later.prompt_paste),
    {
        TomlKeybindings {
            quit: take_later(self.quit, later.quit),
            reset: take_later(self.reset, later.reset),
            toggle_help: take_later(self.toggle_help, later.toggle_help),
            clear_alerts: take_later(self.clear_alerts, later.clear_alerts),
            clear_progress: take_later(self.clear_progress, later.clear_progress),
            back: take_later(self.back, later.back),
            open: take_later(self.open, later.open),
            open_custom: take_later(self.open_custom, later.open_custom),
            open_new_window: take_later(self.open_new_window, later.open_new_window),
            open_terminal: take_later(self.open_terminal, later.open_terminal),
            go_home: take_later(self.go_home, later.go_home),
            refresh: take_later(self.refresh, later.refresh),
            select_next: take_later(self.select_next, later.select_next),
            select_previous: take_later(self.select_previous, later.select_previous),
            select_first: take_later(self.select_first, later.select_first),
            select_last: take_later(self.select_last, later.select_last),
            select_middle: take_later(self.select_middle, later.select_middle),
            page_up: take_later(self.page_up, later.page_up),
            page_down: take_later(self.page_down, later.page_down),
            toggle_mark: take_later(self.toggle_mark, later.toggle_mark),
            range_mark: take_later(self.range_mark, later.range_mark),
            copy: take_later(self.copy, later.copy),
            cut: take_later(self.cut, later.cut),
            paste: take_later(self.paste, later.paste),
            delete: take_later(self.delete, later.delete),
            rename: take_later(self.rename, later.rename),
            filter: take_later(self.filter, later.filter),
            sort_by_name: take_later(self.sort_by_name, later.sort_by_name),
            sort_by_modified: take_later(self.sort_by_modified, later.sort_by_modified),
            sort_by_size: take_later(self.sort_by_size, later.sort_by_size),
            prompt_submit: take_later(self.prompt_submit, later.prompt_submit),
            prompt_cancel: take_later(self.prompt_cancel, later.prompt_cancel),
            prompt_reset: take_later(self.prompt_reset, later.prompt_reset),
            prompt_select_all: take_later(self.prompt_select_all, later.prompt_select_all),
            prompt_copy: take_later(self.prompt_copy, later.prompt_copy),
            prompt_cut: take_later(self.prompt_cut, later.prompt_cut),
            prompt_paste: take_later(self.prompt_paste, later.prompt_paste),
        }
    }
}

/// The overrides for normal mode, in the order they apply.
pub open spec fn normal_overrides(toml: TomlKeybindings) -> Seq<(Option<KeySpec>, Action)> {
    seq![
        (toml.quit, Action::Quit),
        (toml.reset, Action::Reset),
        (toml.toggle_help, Action::ToggleHelp),
        (toml.clear_alerts, Action::ClearAlerts),
        (toml.clear_progress, Action::ClearProgress),
        (toml.back, Action::Back),
        (toml.open, Action::Open),
        (toml.open_custom, Action::OpenCustom),
        (toml.open_new_window, Action::OpenNewWindow),
        (toml.open_terminal, Action::OpenTerminal),
        (toml.go_home, Action::GoHome),
        (toml.refresh, Action::Refresh),
        (toml.select_next, Action::SelectNext),
        (toml.select_previous, Action::SelectPrevious),
        (toml.select_first, Action::SelectFirst),
        (toml.select_last, Action::SelectLast),
        (toml.select_middle, Action::SelectMiddle),
        (toml.page_up, Action::PageUp),
        (toml.page_down, Action::PageDown),
        (toml.toggle_mark, Action::ToggleMark),
        (toml.range_mark, Action::RangeMark),
        (toml.copy, Action::Copy),
        (toml.cut, Action::Cut),
        (toml.paste, Action::Paste),
        (toml.delete, Action::Delete),
        (toml.rename, Action::Rename),
        (toml.filter, Action::Filter),
        (toml.sort_by_name, Action::SortByName),
        (toml.sort_by_modified, Action::SortByModified),
        (toml.sort_by_size, Action::SortBySize),
    ]
}

/// The overrides for prompt mode, in the order they apply.
pub open spec fn prompt_overrides(toml: TomlKeybindings) -> Seq<(Option<KeySpec>, Action)> {
    seq![
        (toml.prompt_submit, Action::PromptSubmit),
        (toml.prompt_cancel, Action::PromptCancel),
        (toml.prompt_reset, Action::PromptReset),
        (toml.prompt_select_all, Action::PromptSelectAll),
        (toml.prompt_copy, Action::PromptCopy),
        (toml.prompt_cut, Action::PromptCut),
        (toml.prompt_paste, Action::PromptPaste),
    ]
}

/// The overrides for normal mode, in the order they apply.
fn normal_override_rows(toml: &TomlKeybindings) -> (rows: Vec<(&Option<KeySpec>, Action)>)
    ensures
        rows@.map_values(|r: (&Option<KeySpec>, Action)| (*r.0, r.1)) == normal_overrides(*toml),
{
    let rows = vec![
        (&toml.quit, Action::Quit),
        (&toml.reset, Action::Reset),
        (&toml.toggle_help, Action::ToggleHelp),
        (&toml.clear_alerts, Action::ClearAlerts),
        (&toml.clear_progress, Action::ClearProgress),
        (&toml.back, Action::Back),
        (&toml.open, Action::Open),
        (&toml.open_custom, Action::OpenCustom),
        (&toml.open_new_window, Action::OpenNewWindow),
        (&toml.open_terminal, Action::OpenTerminal),
        (&toml.go_home, Action::GoHome),
        (&toml.refresh, Action::Refresh),
        (&toml.select_next, Action::SelectNext),
        (&toml.select_previous, Action::SelectPrevious),
        (&toml.select_first, Action::SelectFirst),
        (&toml.select_last, Action::SelectLast),
        (&toml.select_middle, Action::SelectMiddle),
        (&toml.page_up, Action::PageUp),
        (&toml.page_down, Action::PageDown),
        (&toml.toggle_mark, Action::ToggleMark),
        (&toml.range_mark, Action::RangeMark),
        (&toml.copy, Action::Copy),
        (&toml.cut, Action::Cut),
        (&toml.paste, Action::Paste),
        (&toml.delete, Action::Delete),
        (&toml.rename, Action::Rename),
        (&toml.filter, Action::Filter),
        (&toml.sort_by_name, Action::SortByName),
        (&toml.sort_by_modified, Action::SortByModified),
        (&toml.sort_by_size, Action::SortBySize),
    ];
    assert(rows@.map_values(|r: (&Option<KeySpec>, Action)| (*r.0, r.1)) =~= normal_overrides(*toml));
    rows
}

/// The overrides for prompt mode, in the order they apply.
fn prompt_override_rows(toml: &TomlKeybindings) -> (rows: Vec<(&Option<KeySpec>, Action)>)
    ensures
        rows@.map_values(|r: (&Option<KeySpec>, Action)| (*r.0, r.1)) == prompt_overrides(*toml),
{
    let rows = vec![
        (&toml.prompt_submit, Action::PromptSubmit),
        (&toml.prompt_cancel, Action::PromptCancel),
        (&toml.prompt_reset, Action::PromptReset),
        (&toml.prompt_select_all, Action::PromptSelectAll),
        (&toml.prompt_copy, Action::PromptCopy),
        (&toml.prompt_cut, Action::PromptCut),
        (&toml.prompt_paste, Action::PromptPaste),
    ];
    assert(rows@.map_values(|r: (&Option<KeySpec>, Action)| (*r.0, r.1)) =~= prompt_overrides(*toml));
    rows
}

/// A key combination, in specifications.
pub open spec fn kc(code: KeyCode, modifiers: KeyModifiers) -> KeyCombo {
    KeyCombo { code, modifiers }
}

pub open spec fn none() -> KeyModifiers {
    KeyModifiers { shift: false, control: false, alt: false, others: 0 }
}

pub open spec fn ctrl() -> KeyModifiers {
    KeyModifiers { shift: false, control: true, alt: false, others: 0 }
}

pub open spec fn shift() -> KeyModifiers {
    KeyModifiers { shift: true, control: false, alt: false, others: 0 }
}

pub open spec fn ctrl_shift() -> KeyModifiers {
    KeyModifiers { shift: true, control: true, alt: false, others: 0 }
}

/// Bindings, as their actions and key sequences.
pub open spec fn bindings_view(bindings: Seq<(Action, Vec<KeyCombo>)>) -> Seq<(Action, Seq<KeyCombo>)> {
    bindings.map_values(|b: (Action, Vec<KeyCombo>)| (b.0, b.1@))
}

/// Hardcoded keys per action (arrow keys, Home/End, PageUp/PageDown, Esc).
/// These are always active regardless of config and are included in display strings.
pub open spec fn hardcoded(action: Action) -> Seq<KeyCombo> {
    match action {
        Action::Back => seq![kc(KeyCode::Left, none())],
        Action::Open => seq![kc(KeyCode::Right, none())],
        Action::SelectNext => seq![kc(KeyCode::Down, none())],
        Action::SelectPrevious => seq![kc(KeyCode::Up, none())],
        Action::SelectFirst => seq![kc(KeyCode::Home, none())],
        Action::SelectLast => seq![kc(KeyCode::End, none())],
        Action::PageUp => seq![kc(KeyCode::PageUp, none())],
        Action::PageDown => seq![kc(KeyCode::PageDown, none())],
        Action::Reset => seq![kc(KeyCode::Esc, none())],
        Action::PromptCancel => seq![kc(KeyCode::Esc, none())],
        _ => Seq::empty(),
    }
}

/// Hardcoded keys per action (arrow keys, Home/End, PageUp/PageDown, Esc).
/// These are always active regardless of config and are included in display strings.
pub fn hardcoded_keys(action: Action) -> (keys: Vec<KeyCombo>)
    ensures
        keys@ == hardcoded(action),
{
    let none = KeyModifiers::none();
    match action {
        Action::Back => vec![KeyCombo::new(KeyCode::Left, none)],
        Action::Open => vec![KeyCombo::new(KeyCode::Right, none)],
        Action::SelectNext => vec![KeyCombo::new(KeyCode::Down, none)],
        Action::SelectPrevious => vec![KeyCombo::new(KeyCode::Up, none)],
        Action::SelectFirst => vec![KeyCombo::new(KeyCode::Home, none)],
        Action::SelectLast => vec![KeyCombo::new(KeyCode::End, none)],
        Action::PageUp => vec![KeyCombo::new(KeyCode::PageUp, none)],
        Action::PageDown => vec![KeyCombo::new(KeyCode::PageDown, none)],
        Action::Reset => vec![KeyCombo::new(KeyCode::Esc, none)],
        Action::PromptCancel => vec![KeyCombo::new(KeyCode::Esc, none)],
        _ => Vec::new(),
    }
}

/// Default rebindable bindings for normal mode.
pub open spec fn default_normal() -> Seq<(Action, Seq<KeyCombo>)> {
    seq![
        (Action::Quit, seq![kc(KeyCode::Char('q'), none())]),
        (Action::ToggleHelp, seq![kc(KeyCode::Char('?'), none())]),
        (Action::ClearAlerts, seq![kc(KeyCode::Char('a'), none())]),
        (Action::ClearProgress, seq![kc(KeyCode::Char('p'), none())]),
        (Action::Back, seq![kc(KeyCode::Char('h'), none()), kc(KeyCode::Char('b'), none()), kc(KeyCode::Backspace, none())]),
        (Action::Open, seq![kc(KeyCode::Char('l'), none()), kc(KeyCode::Char('f'), none()), kc(KeyCode::Enter, none()), kc(KeyCode::Char(' '), none())]),
        (Action::OpenCustom, seq![kc(KeyCode::Char('o'), none())]),
        (Action::OpenNewWindow, seq![kc(KeyCode::Char('w'), none())]),
        (Action::OpenTerminal, seq![kc(KeyCode::Char('t'), none())]),
        (Action::GoHome, seq![kc(KeyCode::Char('~'), none())]),
        (Action::Refresh, seq![kc(KeyCode::Char('r'), ctrl()), kc(KeyCode::F(5), none())]),
        (Action::SelectNext, seq![kc(KeyCode::Char('j'), none())]),
        (Action::SelectPrevious, seq![kc(KeyCode::Char('k'), none())]),
        (Action::SelectFirst, seq![kc(KeyCode::Char('g'), none()), kc(KeyCode::Char('^'), none())]),
        (Action::SelectLast, seq![kc(KeyCode::Char('G'), shift()), kc(KeyCode::Char('$'), none())]),
        (Action::SelectMiddle, seq![kc(KeyCode::Char('z'), none())]),
        (Action::PageUp, seq![kc(KeyCode::Char('u'), ctrl()), kc(KeyCode::Char('b'), ctrl())]),
        (Action::PageDown, seq![kc(KeyCode::Char('d'), ctrl()), kc(KeyCode::Char('f'), ctrl())]),
        (Action::ToggleMark, seq![kc(KeyCode::Char('v'), none())]),
        (Action::RangeMark, seq![kc(KeyCode::Char('V'), shift())]),
        (Action::Copy, seq![kc(KeyCode::Char('c'), ctrl())]),
        (Action::Cut, seq![kc(KeyCode::Char('x'), ctrl())]),
        (Action::Paste, seq![kc(KeyCode::Char('v'), ctrl())]),
        (Action::Delete, seq![kc(KeyCode::Delete, none())]),
        (Action::Rename, seq![kc(KeyCode::Char('r'), none()), kc(KeyCode::F(2), none())]),
        (Action::Filter, seq![kc(KeyCode::Char('/'), none())]),
        (Action::SortByName, seq![kc(KeyCode::Char('n'), none()), kc(KeyCode::Char('N'), shift())]),
        (Action::SortByModified, seq![kc(KeyCode::Char('m'), none()), kc(KeyCode::Char('M'), shift())]),
        (Action::SortBySize, seq![kc(KeyCode::Char('s'), none()), kc(KeyCode::Char('S'), shift())]),
    ]
}

/// Default rebindable bindings for prompt mode.
pub open spec fn default_prompt() -> Seq<(Action, Seq<KeyCombo>)> {
    seq![
        (Action::PromptSubmit, seq![kc(KeyCode::Enter, none())]),
        (Action::PromptReset, seq![kc(KeyCode::Char('z'), ctrl())]),
        (Action::PromptSelectAll, seq![kc(KeyCode::Char('a'), ctrl_shift())]),
        (Action::PromptCopy, seq![kc(KeyCode::Char('c'), ctrl())]),
        (Action::PromptCut, seq![kc(KeyCode::Char('x'), ctrl())]),
        (Action::PromptPaste, seq![kc(KeyCode::Char('v'), ctrl())]),
    ]
}

/// Default rebindable bindings for normal mode.
pub fn default_normal_bindings() -> (bindings: Vec<(Action, Vec<KeyCombo>)>)
    ensures
        bindings_view(bindings@) == default_normal(),
{
    let none = KeyModifiers::none();
    let ctrl = KeyModifiers::control_only();
    let shift = KeyModifiers::shift_only();
    let bindings = vec![
        (Action::Quit, vec![KeyCombo::new(KeyCode::Char('q'), none)]),
        (Action::ToggleHelp, vec![KeyCombo::new(KeyCode::Char('?'), none)]),
        (Action::ClearAlerts, vec![KeyCombo::new(KeyCode::Char('a'), none)]),
        (Action::ClearProgress, vec![KeyCombo::new(KeyCode::Char('p'), none)]),
        (Action::Back, vec![KeyCombo::new(KeyCode::Char('h'), none), KeyCombo::new(KeyCode::Char('b'), none), KeyCombo::new(KeyCode::Backspace, none)]),
        (Action::Open, vec![KeyCombo::new(KeyCode::Char('l'), none), KeyCombo::new(KeyCode::Char('f'), none), KeyCombo::new(KeyCode::Enter, none), KeyCombo::new(KeyCode::Char(' '), none)]),
        (Action::OpenCustom, vec![KeyCombo::new(KeyCode::Char('o'), none)]),
        (Action::OpenNewWindow, vec![KeyCombo::new(KeyCode::Char('w'), none)]),
        (Action::OpenTerminal, vec![KeyCombo::new(KeyCode::Char('t'), none)]),
        (Action::GoHome, vec![KeyCombo::new(KeyCode::Char('~'), none)]),
        (Action::Refresh, vec![KeyCombo::new(KeyCode::Char('r'), ctrl), KeyCombo::new(KeyCode::F(5), none)]),
        (Action::SelectNext, vec![KeyCombo::new(KeyCode::Char('j'), none)]),
        (Action::SelectPrevious, vec![KeyCombo::new(KeyCode::Char('k'), none)]),
        (Action::SelectFirst, vec![KeyCombo::new(KeyCode::Char('g'), none), KeyCombo::new(KeyCode::Char('^'), none)]),
        (Action::SelectLast, vec![KeyCombo::new(KeyCode::Char('G'), shift), KeyCombo::new(KeyCode::Char('$'), none)]),
        (Action::SelectMiddle, vec![KeyCombo::new(KeyCode::Char('z'), none)]),
        (Action::PageUp, vec![KeyCombo::new(KeyCode::Char('u'), ctrl), KeyCombo::new(KeyCode::Char('b'), ctrl)]),
        (Action::PageDown, vec![KeyCombo::new(KeyCode::Char('d'), ctrl), KeyCombo::new(KeyCode::Char('f'), ctrl)]),
        (Action::ToggleMark, vec![KeyCombo::new(KeyCode::Char('v'), none)]),
        (Action::RangeMark, vec![KeyCombo::new(KeyCode::Char('V'), shift)]),
        (Action::Copy, vec![KeyCombo::new(KeyCode::Char('c'), ctrl)]),
        (Action::Cut, vec![KeyCombo::new(KeyCode::Char('x'), ctrl)]),
        (Action::Paste, vec![KeyCombo::new(KeyCode::Char('v'), ctrl)]),
        (Action::Delete, vec![KeyCombo::new(KeyCode::Delete, none)]),
        (Action::Rename, vec![KeyCombo::new(KeyCode::Char('r'), none), KeyCombo::new(KeyCode::F(2), none)]),
        (Action::Filter, vec![KeyCombo::new(KeyCode::Char('/'), none)]),
        (Action::SortByName, vec![KeyCombo::new(KeyCode::Char('n'), none), KeyCombo::new(KeyCode::Char('N'), shift)]),
        (Action::SortByModified, vec![KeyCombo::new(KeyCode::Char('m'), none), KeyCombo::new(KeyCode::Char('M'), shift)]),
        (Action::SortBySize, vec![KeyCombo::new(KeyCode::Char('s'), none), KeyCombo::new(KeyCode::Char('S'), shift)]),
    ];
    assert(bindings@[0].1@ =~= default_normal()[0].1);
    assert(bindings@[1].1@ =~= default_normal()[1].1);
    assert(bindings@[2].1@ =~= default_normal()[2].1);
    assert(bindings@[3].1@ =~= default_normal()[3].1);
    assert(bindings@[4].1@ =~= default_normal()[4].1);
    assert(bindings@[5].1@ =~= default_normal()[5].1);
    assert(bindings@[6].1@ =~= default_normal()[6].1);
    assert(bindings@[7].1@ =~= default_normal()[7].1);
    assert(bindings@[8].1@ =~= default_normal()[8].1);
    assert(bindings@[9].1@ =~= default_normal()[9].1);
    assert(bindings@[10].1@ =~= default_normal()[10].1);
    assert(bindings@[11].1@ =~= default_normal()[11].1);
    assert(bindings@[12].1@ =~= default_normal()[12].1);
    assert(bindings@[13].1@ =~= default_normal()[13].1);
    assert(bindings@[14].1@ =~= default_normal()[14].1);
    assert(bindings@[15].1@ =~= default_normal()[15].1);
    assert(bindings@[16].1@ =~= default_normal()[16].1);
    assert(bindings@[17].1@ =~= default_normal()[17].1);
    assert(bindings@[18].1@ =~= default_normal()[18].1);
    assert(bindings@[19].1@ =~= default_normal()[19].1);
    assert(bindings@[20].1@ =~= default_normal()[20].1);
    assert(bindings@[21].1@ =~= default_normal()[21].1);
    assert(bindings@[22].1@ =~= default_normal()[22].1);
    assert(bindings@[23].1@ =~= default_normal()[23].1);
    assert(bindings@[24].1@ =~= default_normal()[24].1);
    assert(bindings@[25].1@ =~= default_normal()[25].1);
    assert(bindings@[26].1@ =~= default_normal()[26].1);
    assert(bindings@[27].1@ =~= default_normal()[27].1);
    assert(bindings@[28].1@ =~= default_normal()[28].1);
    assert(bindings_view(bindings@) =~= default_normal());
    bindings
}

/// Default rebindable bindings for prompt mode.
pub fn default_prompt_bindings() -> (bindings: Vec<(Action, Vec<KeyCombo>)>)
    ensures
        bindings_view(bindings@) == default_prompt(),
{
    let none = KeyModifiers::none();
    let ctrl = KeyModifiers::control_only();
    let ctrl_shift = KeyModifiers { shift: true, control: true, alt: false, others: 0 };
    let bindings = vec![
        (Action::PromptSubmit, vec![KeyCombo::new(KeyCode::Enter, none)]),
        (Action::PromptReset, vec![KeyCombo::new(KeyCode::Char('z'), ctrl)]),
        (Action::PromptSelectAll, vec![KeyCombo::new(KeyCode::Char('a'), ctrl_shift)]),
        (Action::PromptCopy, vec![KeyCombo::new(KeyCode::Char('c'), ctrl)]),
        (Action::PromptCut, vec![KeyCombo::new(KeyCode::Char('x'), ctrl)]),
        (Action::PromptPaste, vec![KeyCombo::new(KeyCode::Char('v'), ctrl)]),
    ];
    assert(bindings@[0].1@ =~= default_prompt()[0].1);
    assert(bindings@[1].1@ =~= default_prompt()[1].1);
    assert(bindings@[2].1@ =~= default_prompt()[2].1);
    assert(bindings@[3].1@ =~= default_prompt()[3].1);
    assert(bindings@[4].1@ =~= default_prompt()[4].1);
    assert(bindings@[5].1@ =~= default_prompt()[5].1);
    assert(bindings_view(bindings@) =~= default_prompt());
    bindings
}

/// Every (key, action) pair the bindings hold, in order.
pub open spec fn binding_pairs(bindings: Seq<(Action, Seq<KeyCombo>)>) -> Seq<(KeyCombo, Action)>
    decreases bindings.len(),
{
    if bindings.len() == 0 {
        Seq::empty()
    } else {
        let (action, combos) = bindings.last();
        binding_pairs(bindings.drop_last()) + combos.map_values(|k: KeyCombo| (k, action))
    }
}

/// The refusal of a key bound to two actions.
pub open spec fn conflict_message(key: KeyCombo, existing: Action, action: Action) -> Seq<char> {
    "Key '"@ + formatted_combo(key) + "' is bound to both "@ + action_name(existing) + " and "@
        + action_name(action)
}

/// The key-to-action map of `pairs`, taken in order, or the refusal of the
/// first key found bound to a second action.
pub open spec fn key_map(pairs: Seq<(KeyCombo, Action)>) -> Result<Map<KeyCombo, Action>, Seq<char>>
    decreases pairs.len(),
{
    if pairs.len() == 0 {
        Ok(Map::empty())
    } else {
        match key_map(pairs.drop_last()) {
            Err(message) => Err(message),
            Ok(map) => {
                let (key, action) = pairs.last();
                if map.contains_key(key) && map[key] != action {
                    Err(conflict_message(key, map[key], action))
                } else {
                    Ok(map.insert(key, action))
                }
            },
        }
    }
}

/// The map an association list stands for.
pub open spec fn assoc_map<K, V>(list: Seq<(K, V)>) -> Map<K, V>
    decreases list.len(),
{
    if list.len() == 0 {
        Map::empty()
    } else {
        assoc_map(list.drop_last()).insert(list.last().0, list.last().1)
    }
}

/// Whether no key occurs twice in an association list.
pub open spec fn distinct_keys<K, V>(list: Seq<(K, V)>) -> bool {
    forall|i: int, j: int| 0 <= i < j < list.len() ==> list[i].0 != list[j].0
}

/// In an association list without repeated keys, each key maps to the value
/// beside it, and nothing else is mapped.
pub proof fn lemma_assoc_map<K, V>(list: Seq<(K, V)>)
    requires
        distinct_keys(list),
    ensures
        forall|i: int| 0 <= i < list.len() ==> #[trigger] assoc_map(list).contains_key(list[i].0)
            && assoc_map(list)[list[i].0] == list[i].1,
        forall|k: K| #[trigger] assoc_map(list).contains_key(k) ==> exists|i: int|
            0 <= i < list.len() && list[i].0 == k,
    decreases list.len(),
{
    if list.len() > 0 {
        let front = list.drop_last();
        assert(distinct_keys(front));
        lemma_assoc_map(front);
        assert forall|k: K| #[trigger] assoc_map(list).contains_key(k) implies exists|i: int|
            0 <= i < list.len() && list[i].0 == k by {
            if k != list.last().0 {
                assert(assoc_map(front).contains_key(k));
                let i = choose|i: int| 0 <= i < front.len() && front[i].0 == k;
                assert(front[i] == list[i]);
                assert(list[i].0 == k);
            } else {
                assert(list[list.len() - 1].0 == k);
            }
        }
        assert forall|i: int| 0 <= i < list.len() implies #[trigger] assoc_map(list).contains_key(
            list[i].0,
        ) && assoc_map(list)[list[i].0] == list[i].1 by {
            if i < list.len() - 1 {
                assert(front[i] == list[i]);
                assert(list[i].0 != list[list.len() - 1].0);
                assert(assoc_map(front).contains_key(front[i].0));
            }
        }
    }
}

/// The action bound to `key` in `list`.
fn find_action(list: &Vec<(KeyCombo, Action)>, key: KeyCombo) -> (r: Option<Action>)
    requires
        distinct_keys(list@),
    ensures
        r == (if assoc_map(list@).contains_key(key) {
            Some(assoc_map(list@)[key])
        } else {
            None::<Action>
        }),
{
    proof {
        lemma_assoc_map(list@);
    }
    let mut i: usize = 0;
    while i < list.len()
        invariant
            i <= list@.len(),
            distinct_keys(list@),
            forall|j: int| 0 <= j < i ==> list@[j].0 != key,
        decreases list@.len() - i,
    {
        if list[i].0 == key {
            proof {
                lemma_assoc_map(list@);
            }
            assert(assoc_map(list@).contains_key(list@[i as int].0));
            return Some(list[i].1);
        }
        i = i + 1;
    }
    proof {
        lemma_assoc_map(list@);
    }
    assert(!assoc_map(list@).contains_key(key));
    None
}

/// A refusal stands whatever pairs follow it.
proof fn lemma_key_map_error_extends(pairs: Seq<(KeyCombo, Action)>, more: Seq<(KeyCombo, Action)>)
    requires
        key_map(pairs) is Err,
    ensures
        key_map(pairs + more) == key_map(pairs),
    decreases more.len(),
{
    if more.len() == 0 {
        assert(pairs + more == pairs);
    } else {
        lemma_key_map_error_extends(pairs, more.drop_last());
        assert((pairs + more).drop_last() == pairs + more.drop_last());
    }
}

/// The pairs of two runs of bindings are the pairs of each, in order.
proof fn lemma_binding_pairs_concat(a: Seq<(Action, Seq<KeyCombo>)>, b: Seq<(Action, Seq<KeyCombo>)>)
    ensures
        binding_pairs(a + b) == binding_pairs(a) + binding_pairs(b),
    decreases b.len(),
{
    if b.len() == 0 {
        assert(a + b == a);
    } else {
        lemma_binding_pairs_concat(a, b.drop_last());
        assert((a + b).drop_last() == a + b.drop_last());
        assert((a + b).last() == b.last());
    }
}

/// "Key 'k' is bound to both `existing` and `action`".
fn conflict(key: &KeyCombo, existing: Action, action: Action) -> (m: String)
    ensures
        m@ == conflict_message(*key, existing, action),
{
    let mut m = String::from_str("Key '");
    let k = format_key_combo(key);
    m.append(k.as_str());
    m.append("' is bound to both ");
    m.append(existing.name());
    m.append(" and ");
    m.append(action.name());
    m
}

/// Build the key→action map, detecting duplicate key mappings.
pub fn build_action_map(bindings: &Vec<(Action, Vec<KeyCombo>)>) -> (r: Result<
    Vec<(KeyCombo, Action)>,
    String,
>)
    ensures
        match key_map(binding_pairs(bindings_view(bindings@))) {
            Ok(map) => r matches Ok(list) && distinct_keys(list@) && assoc_map(list@) == map,
            Err(message) => r matches Err(m) && m@ == message,
        },
{
    let ghost all = bindings_view(bindings@);
    let mut list: Vec<(KeyCombo, Action)> = Vec::new();
    let mut i: usize = 0;
    while i < bindings.len()
        invariant
            all == bindings_view(bindings@),
            i <= bindings@.len(),
            distinct_keys(list@),
            key_map(binding_pairs(all.take(i as int))) == Ok::<Map<KeyCombo, Action>, Seq<char>>(
                assoc_map(list@),
            ),
        decreases bindings@.len() - i,
    {
        let action = bindings[i].0;
        let combos = &bindings[i].1;
        let ghost before = binding_pairs(all.take(i as int));
        assert(all.take(i + 1).drop_last() == all.take(i as int));
        assert(all.take(i + 1).last() == (action, combos@));
        assert(binding_pairs(all.take(i + 1)) == before + combos@.map_values(
            |k: KeyCombo| (k, action),
        ));
        let mut j: usize = 0;
        while j < combos.len()
            invariant
                combos@ == bindings@[i as int].1@,
                all == bindings_view(bindings@),
                i < bindings@.len(),
                action == bindings@[i as int].0,
                before == binding_pairs(all.take(i as int)),
                binding_pairs(all.take(i + 1)) == before + combos@.map_values(
                    |k: KeyCombo| (k, action),
                ),
                j <= combos@.len(),
                distinct_keys(list@),
                key_map(before + combos@.take(j as int).map_values(|k: KeyCombo| (k, action)))
                    == Ok::<Map<KeyCombo, Action>, Seq<char>>(assoc_map(list@)),
            decreases combos@.len() - j,
        {
            let key = combos[j];
            let ghost done = before + combos@.take(j as int).map_values(|k: KeyCombo| (k, action));
            let ghost next = before + combos@.take(j + 1).map_values(|k: KeyCombo| (k, action));
            assert(next.drop_last() =~= done);
            assert(next.last() == (key, action));
            proof {
                lemma_assoc_map(list@);
            }
            match find_action(&list, key) {
                Some(existing) => {
                    if existing != action {
                        proof {
                            let tail = combos@.skip(j + 1).map_values(|k: KeyCombo| (k, action))
                                + binding_pairs(all.skip(i + 1));
                            lemma_binding_pairs_concat(all.take(i + 1), all.skip(i + 1));
                            assert(all.take(i + 1) + all.skip(i + 1) =~= all);
                            assert(combos@.take(j + 1) + combos@.skip(j + 1) == combos@);
                            assert(combos@.map_values(|k: KeyCombo| (k, action)) =~= combos@.take(
                                j + 1,
                            ).map_values(|k: KeyCombo| (k, action)) + combos@.skip(j + 1).map_values(
                                |k: KeyCombo| (k, action),
                            ));
                            assert(binding_pairs(all) == binding_pairs(all.take(i + 1))
                                + binding_pairs(all.skip(i + 1)));
                            assert(binding_pairs(all) =~= next + tail);
                            lemma_key_map_error_extends(next, tail);
                        }
                        return Err(conflict(&key, existing, action));
                    }
                    assert(assoc_map(list@).insert(key, action) == assoc_map(list@));
                },
                None => {
                    let ghost old_list = list@;
                    list.push((key, action));
                    assert(list@.drop_last() == old_list);
                    assert(distinct_keys(list@)) by {
                        assert forall|a: int, b: int| 0 <= a < b < list@.len() implies list@[a].0
                            != list@[b].0 by {
                            if b == list@.len() - 1 {
                                assert(old_list[a].0 != key);
                            } else {
                                assert(old_list[a] == list@[a] && old_list[b] == list@[b]);
                            }
                        }
                    }
                },
            }
            j = j + 1;
        }
        assert(combos@.take(combos@.len() as int) == combos@);
        i = i + 1;
    }
    assert(all.take(bindings@.len() as int) == all);
    Ok(list)
}

/// `parts` joined with `sep` between each two.
pub open spec fn joined(parts: Seq<Seq<char>>, sep: Seq<char>) -> Seq<char>
    decreases parts.len(),
{
    if parts.len() == 0 {
        Seq::empty()
    } else if parts.len() == 1 {
        parts[0]
    } else {
        joined(parts.drop_last(), sep) + sep + parts.last()
    }
}

/// How an action's keys are shown: its hardcoded keys, then `combos`, each
/// formatted, joined with "/".
pub open spec fn display_text(action: Action, combos: Seq<KeyCombo>) -> Seq<char> {
    joined((hardcoded(action) + combos).map_values(|k: KeyCombo| formatted_combo(k)), "/"@)
}

/// The display text of each action of `rows`; a later row for an action
/// replaces an earlier one.
pub open spec fn display_rows(rows: Seq<(Action, Seq<KeyCombo>)>) -> Map<Action, Seq<char>>
    decreases rows.len(),
{
    if rows.len() == 0 {
        Map::empty()
    } else {
        display_rows(rows.drop_last()).insert(
            rows.last().0,
            display_text(rows.last().0, rows.last().1),
        )
    }
}

/// `map` with `action` shown by its hardcoded keys alone when it has no entry.
pub open spec fn with_hardcoded(map: Map<Action, Seq<char>>, action: Action) -> Map<
    Action,
    Seq<char>,
> {
    if map.contains_key(action) {
        map
    } else {
        map.insert(action, display_text(action, Seq::empty()))
    }
}

/// The action→display map of the normal and prompt bindings. Reset and
/// PromptCancel, which may have only hardcoded keys, always have an entry.
pub open spec fn display_map(
    normal: Seq<(Action, Seq<KeyCombo>)>,
    prompt: Seq<(Action, Seq<KeyCombo>)>,
) -> Map<Action, Seq<char>> {
    with_hardcoded(
        with_hardcoded(display_rows(normal + prompt), Action::Reset),
        Action::PromptCancel,
    )
}

/// `parts` joined with "/".
fn join_slash(parts: &Vec<String>) -> (text: String)
    ensures
        text@ == joined(parts@.map_values(|p: String| p@), "/"@),
{
    let ghost views = parts@.map_values(|p: String| p@);
    let mut text = String::new();
    let mut i: usize = 0;
    while i < parts.len()
        invariant
            views == parts@.map_values(|p: String| p@),
            i <= parts@.len(),
            text@ == joined(views.take(i as int), "/"@),
        decreases parts@.len() - i,
    {
        assert(views.take(i + 1).drop_last() == views.take(i as int));
        if i != 0 {
            text.append("/");
        }
        text.append(parts[i].as_str());
        i = i + 1;
    }
    assert(views.take(parts@.len() as int) == views);
    text
}

/// How `action`'s keys are shown, with `combos` as its rebindable keys.
fn display_string(action: Action, combos: &Vec<KeyCombo>) -> (text: String)
    ensures
        text@ == display_text(action, combos@),
{
    let fixed = hardcoded_keys(action);
    let mut parts: Vec<String> = Vec::new();
    let mut i: usize = 0;
    let ghost all = fixed@ + combos@;
    while i < fixed.len()
        invariant
            fixed@ == hardcoded(action),
            all == fixed@ + combos@,
            i <= fixed@.len(),
            parts@.map_values(|p: String| p@) == all.take(i as int).map_values(
                |k: KeyCombo| formatted_combo(k),
            ),
        decreases fixed@.len() - i,
    {
        assert(all[i as int] == fixed@[i as int]);
        let ghost prev = parts@;
        let f = format_key_combo(&fixed[i]);
        parts.push(f);
        assert(parts@.map_values(|p: String| p@) =~= prev.map_values(|p: String| p@).push(f@));
        assert(all.take(i + 1).map_values(|k: KeyCombo| formatted_combo(k)) =~= all.take(
            i as int,
        ).map_values(|k: KeyCombo| formatted_combo(k)).push(formatted_combo(all[i as int])));
        i = i + 1;
    }
    let mut j: usize = 0;
    while j < combos.len()
        invariant
            fixed@ == hardcoded(action),
            all == fixed@ + combos@,
            j <= combos@.len(),
            parts@.map_values(|p: String| p@) == all.take(fixed@.len() + j).map_values(
                |k: KeyCombo| formatted_combo(k),
            ),
        decreases combos@.len() - j,
    {
        assert(all[fixed@.len() + j] == combos@[j as int]);
        let ghost prev = parts@;
        let f = format_key_combo(&combos[j]);
        parts.push(f);
        assert(parts@.map_values(|p: String| p@) =~= prev.map_values(|p: String| p@).push(f@));
        assert(all.take(fixed@.len() + j + 1).map_values(|k: KeyCombo| formatted_combo(k))
            =~= all.take(fixed@.len() + j).map_values(|k: KeyCombo| formatted_combo(k)).push(
            formatted_combo(all[fixed@.len() + j]),
        ));
        j = j + 1;
    }
    assert(all.take((fixed@.len() + combos@.len()) as int) == all);
    join_slash(&parts)
}

/// The display texts, by action.
pub open spec fn display_view(list: Seq<(Action, String)>) -> Seq<(Action, Seq<char>)> {
    list.map_values(|e: (Action, String)| (e.0, e.1@))
}

/// Where `action` is in `list`.
fn display_index(list: &Vec<(Action, String)>, action: Action) -> (r: Option<usize>)
    ensures
        match r {
            Some(i) => i < list@.len() && list@[i as int].0 == action,
            None => forall|j: int| 0 <= j < list@.len() ==> list@[j].0 != action,
        },
{
    let mut i: usize = 0;
    while i < list.len()
        invariant
            i <= list@.len(),
            forall|j: int| 0 <= j < i ==> list@[j].0 != action,
        decreases list@.len() - i,
    {
        if list[i].0 == action {
            return Some(i);
        }
        i = i + 1;
    }
    None
}

/// Sets `action`'s display text, replacing the one it had.
fn set_display(list: &mut Vec<(Action, String)>, action: Action, text: String)
    requires
        distinct_keys(display_view(old(list)@)),
    ensures
        distinct_keys(display_view(final(list)@)),
        assoc_map(display_view(final(list)@)) == assoc_map(display_view(old(list)@)).insert(
            action,
            text@,
        ),
{
    proof {
        lemma_assoc_map(display_view(list@));
    }
    match display_index(list, action) {
        Some(i) => {
            let ghost before = display_view(list@);
            list.set(i, (action, text));
            let ghost after = display_view(list@);
            assert(after == before.update(i as int, (action, text@)));
            proof {
                assert(distinct_keys(after)) by {
                    assert forall|a: int, b: int| 0 <= a < b < after.len() implies after[a].0
                        != after[b].0 by {
                        assert(before[a].0 == after[a].0 && before[b].0 == after[b].0);
                    }
                }
                lemma_assoc_map(after);
                let target = assoc_map(before).insert(action, text@);
                assert forall|k: Action| #[trigger] assoc_map(after).contains_key(k) implies target.contains_key(k)
                    && assoc_map(after)[k] == target[k] by {
                    let j = choose|j: int| 0 <= j < after.len() && after[j].0 == k;
                    assert(assoc_map(after).contains_key(after[j].0));
                    assert(before[i as int].0 == action);
                    if j != i {
                        assert(after[j] == before[j]);
                        assert(before[j].0 != before[i as int].0);
                        assert(assoc_map(before).contains_key(before[j].0));
                    } else {
                        assert(after[j] == (action, text@));
                    }
                }
                assert forall|k: Action| #[trigger] target.contains_key(k) implies assoc_map(
                    after,
                ).contains_key(k) by {
                    if k == action {
                        assert(assoc_map(after).contains_key(after[i as int].0));
                    } else {
                        let j = choose|j: int| 0 <= j < before.len() && before[j].0 == k;
                        assert(j != i);
                        assert(after[j] == before[j]);
                        assert(assoc_map(after).contains_key(after[j].0));
                    }
                }
                assert(assoc_map(after) =~= assoc_map(before).insert(action, text@));
            }
        },
        None => {
            let ghost before = display_view(list@);
            list.push((action, text));
            let ghost after = display_view(list@);
            assert(after.drop_last() == before);
            assert(distinct_keys(after)) by {
                assert forall|a: int, b: int| 0 <= a < b < after.len() implies after[a].0
                    != after[b].0 by {
                    if b < after.len() - 1 {
                        assert(before[a].0 == after[a].0 && before[b].0 == after[b].0);
                    } else {
                        assert(before[a].0 == after[a].0);
                    }
                }
            }
        },
    }
}

/// Build action→display string map. Combines hardcoded + rebindable keys.
pub fn build_display_map(
    normal: &Vec<(Action, Vec<KeyCombo>)>,
    prompt: &Vec<(Action, Vec<KeyCombo>)>,
) -> (map: Vec<(Action, String)>)
    ensures
        distinct_keys(display_view(map@)),
        assoc_map(display_view(map@)) == display_map(
            bindings_view(normal@),
            bindings_view(prompt@),
        ),
{
    let ghost rows = bindings_view(normal@) + bindings_view(prompt@);
    let mut map: Vec<(Action, String)> = Vec::new();
    let mut i: usize = 0;
    while i < normal.len()
        invariant
            rows == bindings_view(normal@) + bindings_view(prompt@),
            i <= normal@.len(),
            distinct_keys(display_view(map@)),
            assoc_map(display_view(map@)) == display_rows(rows.take(i as int)),
        decreases normal@.len() - i,
    {
        assert(rows.take(i + 1).drop_last() == rows.take(i as int));
        assert(rows.take(i + 1).last() == (normal@[i as int].0, normal@[i as int].1@));
        let text = display_string(normal[i].0, &normal[i].1);
        set_display(&mut map, normal[i].0, text);
        i = i + 1;
    }
    let mut j: usize = 0;
    while j < prompt.len()
        invariant
            rows == bindings_view(normal@) + bindings_view(prompt@),
            j <= prompt@.len(),
            distinct_keys(display_view(map@)),
            assoc_map(display_view(map@)) == display_rows(rows.take(normal@.len() + j)),
        decreases prompt@.len() - j,
    {
        let ghost k = normal@.len() + j;
        assert(rows.take(k + 1).drop_last() == rows.take(k as int));
        assert(rows.take(k + 1).last() == (prompt@[j as int].0, prompt@[j as int].1@));
        let text = display_string(prompt[j].0, &prompt[j].1);
        set_display(&mut map, prompt[j].0, text);
        j = j + 1;
    }
    assert(rows.take((normal@.len() + prompt@.len()) as int) == rows);
    let empty: Vec<KeyCombo> = Vec::new();
    proof {
        lemma_assoc_map(display_view(map@));
    }
    if display_index(&map, Action::Reset).is_none() {
        assert(!assoc_map(display_view(map@)).contains_key(Action::Reset)) by {
            if assoc_map(display_view(map@)).contains_key(Action::Reset) {
                let j = choose|j: int| 0 <= j < map@.len() && display_view(map@)[j].0 == Action::Reset;
            }
        }
        let text = display_string(Action::Reset, &empty);
        set_display(&mut map, Action::Reset, text);
    } else {
        assert(assoc_map(display_view(map@)).contains_key(Action::Reset)) by {
            let j = choose|j: int| 0 <= j < map@.len() && map@[j].0 == Action::Reset;
            assert(display_view(map@)[j].0 == Action::Reset);
        }
    }
    proof {
        lemma_assoc_map(display_view(map@));
    }
    if display_index(&map, Action::PromptCancel).is_none() {
        assert(!assoc_map(display_view(map@)).contains_key(Action::PromptCancel)) by {
            if assoc_map(display_view(map@)).contains_key(Action::PromptCancel) {
                let j = choose|j: int| 0 <= j < map@.len() && display_view(map@)[j].0
                    == Action::PromptCancel;
            }
        }
        let text = display_string(Action::PromptCancel, &empty);
        set_display(&mut map, Action::PromptCancel, text);
    } else {
        assert(assoc_map(display_view(map@)).contains_key(Action::PromptCancel)) by {
            let j = choose|j: int| 0 <= j < map@.len() && map@[j].0 == Action::PromptCancel;
            assert(display_view(map@)[j].0 == Action::PromptCancel);
        }
    }
    map
}

/// The key combinations `texts` name, in order, or the refusal of the first
/// that names none.
pub open spec fn parsed_all(texts: Seq<Seq<char>>) -> Result<Seq<KeyCombo>, Seq<char>>
    decreases texts.len(),
{
    if texts.len() == 0 {
        Ok(Seq::empty())
    } else {
        match parsed_all(texts.drop_last()) {
            Err(message) => Err(message),
            Ok(combos) => match parsed_key_combo(texts.last()) {
                Err(message) => Err(message),
                Ok(combo) => Ok(combos.push(combo)),
            },
        }
    }
}

/// The key combinations a keybinding value names.
pub open spec fn parsed_key_spec(spec: KeySpec) -> Result<Seq<KeyCombo>, Seq<char>> {
    match spec {
        KeySpec::Single(text) => match parsed_key_combo(text@) {
            Ok(combo) => Ok(seq![combo]),
            Err(message) => Err(message),
        },
        KeySpec::Multiple(texts) => parsed_all(texts@.map_values(|t: String| t@)),
    }
}

/// A refusal stands whatever texts follow it.
proof fn lemma_parsed_all_error(texts: Seq<Seq<char>>, n: int)
    requires
        0 <= n <= texts.len(),
        parsed_all(texts.take(n)) is Err,
    ensures
        parsed_all(texts) == parsed_all(texts.take(n)),
    decreases texts.len() - n,
{
    if n < texts.len() {
        assert(texts.take(n + 1).drop_last() == texts.take(n));
        lemma_parsed_all_error(texts, n + 1);
    } else {
        assert(texts.take(n) == texts);
    }
}

pub fn parse_key_spec(spec: &KeySpec) -> (r: Result<Vec<KeyCombo>, String>)
    ensures
        match parsed_key_spec(*spec) {
            Ok(combos) => r matches Ok(v) && v@ == combos,
            Err(message) => r matches Err(m) && m@ == message,
        },
{
    match spec {
        KeySpec::Single(s) => match parse_key_combo(s.as_str()) {
            Ok(combo) => {
                let v = vec![combo];
                assert(v@ =~= seq![combo]);
                Ok(v)
            },
            Err(m) => Err(m),
        },
        KeySpec::Multiple(texts) => {
            let ghost views = texts@.map_values(|t: String| t@);
            let mut combos: Vec<KeyCombo> = Vec::new();
            let mut i: usize = 0;
            while i < texts.len()
                invariant
                    views == texts@.map_values(|t: String| t@),
                    parsed_key_spec(*spec) == parsed_all(views),
                    i <= texts@.len(),
                    parsed_all(views.take(i as int)) == Ok::<Seq<KeyCombo>, Seq<char>>(combos@),
                decreases texts@.len() - i,
            {
                assert(views.take(i + 1).drop_last() == views.take(i as int));
                assert(views.take(i + 1).last() == texts@[i as int]@);
                match parse_key_combo(texts[i].as_str()) {
                    Ok(combo) => combos.push(combo),
                    Err(m) => {
                        assert(parsed_all(views.take(i + 1)) == Err::<Seq<KeyCombo>, Seq<char>>(
                            m@,
                        ));
                        proof {
                            lemma_parsed_all_error(views, i + 1);
                        }
                        assert(parsed_key_spec(*spec) == parsed_all(views));
                        return Err(m);
                    },
                }
                i = i + 1;
            }
            assert(views.take(texts@.len() as int) == views);
            Ok(combos)
        },
    }
}

/// Where the first row for `action` is in `bindings`, or -1.
pub open spec fn first_row(bindings: Seq<(Action, Seq<KeyCombo>)>, action: Action) -> int
    decreases bindings.len(),
{
    if bindings.len() == 0 {
        -1
    } else {
        let front = first_row(bindings.drop_last(), action);
        if front >= 0 {
            front
        } else if bindings.last().0 == action {
            bindings.len() - 1
        } else {
            -1
        }
    }
}

/// `bindings` with `action`'s first row given `combos`, or a row for it added.
pub open spec fn rebound(
    bindings: Seq<(Action, Seq<KeyCombo>)>,
    action: Action,
    combos: Seq<KeyCombo>,
) -> Seq<(Action, Seq<KeyCombo>)> {
    let at = first_row(bindings, action);
    if at >= 0 {
        bindings.update(at, (action, combos))
    } else {
        bindings.push((action, combos))
    }
}

/// `bindings` with `overrides` applied in order, or the refusal of the first
/// value that does not parse.
pub open spec fn overridden(
    bindings: Seq<(Action, Seq<KeyCombo>)>,
    overrides: Seq<(Option<KeySpec>, Action)>,
) -> Result<Seq<(Action, Seq<KeyCombo>)>, Seq<char>>
    decreases overrides.len(),
{
    if overrides.len() == 0 {
        Ok(bindings)
    } else {
        match overridden(bindings, overrides.drop_last()) {
            Err(message) => Err(message),
            Ok(before) => match overrides.last().0 {
                None => Ok(before),
                Some(spec) => match parsed_key_spec(spec) {
                    Err(message) => Err(message),
                    Ok(combos) => Ok(rebound(before, overrides.last().1, combos)),
                },
            },
        }
    }
}

proof fn lemma_first_row(bindings: Seq<(Action, Seq<KeyCombo>)>, action: Action)
    ensures
        -1 <= first_row(bindings, action) < bindings.len(),
        first_row(bindings, action) >= 0 ==> bindings[first_row(bindings, action)].0 == action
            && forall|j: int| 0 <= j < first_row(bindings, action) ==> bindings[j].0 != action,
        first_row(bindings, action) < 0 ==> forall|j: int|
            0 <= j < bindings.len() ==> bindings[j].0 != action,
    decreases bindings.len(),
{
    if bindings.len() > 0 {
        let front = bindings.drop_last();
        lemma_first_row(front, action);
        assert forall|j: int| 0 <= j < front.len() implies front[j] == bindings[j] by {}
    }
}

/// Binds `combos` to `action`: its first row is given them, or a row is added.
fn rebind(bindings: &mut Vec<(Action, Vec<KeyCombo>)>, action: Action, combos: Vec<KeyCombo>)
    ensures
        bindings_view(final(bindings)@) == rebound(bindings_view(old(bindings)@), action, combos@),
{
    let ghost before = bindings_view(bindings@);
    proof {
        lemma_first_row(before, action);
    }
    let mut i: usize = 0;
    while i < bindings.len()
        invariant
            before == bindings_view(bindings@),
            before == bindings_view(old(bindings)@),
            i <= bindings@.len(),
            forall|j: int| 0 <= j < i ==> bindings@[j].0 != action,
        decreases bindings@.len() - i,
    {
        if bindings[i].0 == action {
            proof {
                lemma_first_row(before, action);
            }
            assert(before[i as int].0 == action);
            assert forall|j: int| 0 <= j < i implies before[j].0 != action by {
                assert(before[j].0 == bindings@[j].0);
            }
            assert(first_row(before, action) == i);
            bindings.set(i, (action, combos));
            assert(bindings_view(bindings@) =~= before.update(i as int, (action, combos@)));
            return;
        }
        i = i + 1;
    }
    proof {
        lemma_first_row(before, action);
    }
    assert forall|j: int| 0 <= j < before.len() implies before[j].0 != action by {
        assert(before[j].0 == bindings@[j].0);
    }
    assert(first_row(before, action) < 0);
    bindings.push((action, combos));
    assert(bindings_view(bindings@) =~= before.push((action, combos@)));
}

/// A refusal stands whatever overrides follow it.
proof fn lemma_overridden_error(
    bindings: Seq<(Action, Seq<KeyCombo>)>,
    overrides: Seq<(Option<KeySpec>, Action)>,
    n: int,
)
    requires
        0 <= n <= overrides.len(),
        overridden(bindings, overrides.take(n)) is Err,
    ensures
        overridden(bindings, overrides) == overridden(bindings, overrides.take(n)),
    decreases overrides.len() - n,
{
    if n < overrides.len() {
        assert(overrides.take(n + 1).drop_last() == overrides.take(n));
        lemma_overridden_error(bindings, overrides, n + 1);
    } else {
        assert(overrides.take(n) == overrides);
    }
}

/// Applies `rows` to `bindings` in order.
fn apply_rows(
    bindings: &mut Vec<(Action, Vec<KeyCombo>)>,
    rows: &Vec<(&Option<KeySpec>, Action)>,
) -> (r: Result<(), String>)
    ensures
        match overridden(
            bindings_view(old(bindings)@),
            rows@.map_values(|r: (&Option<KeySpec>, Action)| (*r.0, r.1)),
        ) {
            Ok(result) => r is Ok && bindings_view(final(bindings)@) == result,
            Err(message) => r matches Err(m) && m@ == message,
        },
{
    let ghost start = bindings_view(bindings@);
    let ghost all = rows@.map_values(|r: (&Option<KeySpec>, Action)| (*r.0, r.1));
    let mut i: usize = 0;
    while i < rows.len()
        invariant
            start == bindings_view(old(bindings)@),
            all == rows@.map_values(|r: (&Option<KeySpec>, Action)| (*r.0, r.1)),
            i <= rows@.len(),
            overridden(start, all.take(i as int)) == Ok::<
                Seq<(Action, Seq<KeyCombo>)>,
                Seq<char>,
            >(bindings_view(bindings@)),
        decreases rows@.len() - i,
    {
        assert(all.take(i + 1).drop_last() == all.take(i as int));
        assert(all.take(i + 1).last() == (*rows@[i as int].0, rows@[i as int].1));
        let (field, action) = rows[i];
        match field {
            None => {},
            Some(spec) => match parse_key_spec(spec) {
                Ok(combos) => rebind(bindings, action, combos),
                Err(m) => {
                    proof {
                        lemma_overridden_error(start, all, i + 1);
                    }
                    return Err(m);
                },
            },
        }
        i = i + 1;
    }
    assert(all.take(rows@.len() as int) == all);
    Ok(())
}

/// Apply user TOML overrides to the default bindings.
pub fn apply_overrides(
    normal: &mut Vec<(Action, Vec<KeyCombo>)>,
    prompt: &mut Vec<(Action, Vec<KeyCombo>)>,
    toml: &TomlKeybindings,
) -> (r: Result<(), String>)
    ensures
        match overridden(bindings_view(old(normal)@), normal_overrides(*toml)) {
            Err(message) => r matches Err(m) && m@ == message,
            Ok(n) => match overridden(bindings_view(old(prompt)@), prompt_overrides(*toml)) {
                Err(message) => r matches Err(m) && m@ == message,
                Ok(p) => r is Ok && bindings_view(final(normal)@) == n && bindings_view(
                    final(prompt)@,
                ) == p,
            },
        },
        r is Err <==> (exists|i: int|
            0 <= i < normal_overrides(*toml).len() && #[trigger] refuses_value(
                normal_overrides(*toml)[i],
            )) || (exists|i: int|
            0 <= i < prompt_overrides(*toml).len() && #[trigger] refuses_value(
                prompt_overrides(*toml)[i],
            )),
        r is Ok && distinct_actions(bindings_view(old(normal)@)) ==> replaced_in_place_or_appended(
            bindings_view(old(normal)@),
            normal_overrides(*toml),
            bindings_view(final(normal)@),
        ),
        r is Ok && distinct_actions(bindings_view(old(prompt)@)) ==> replaced_in_place_or_appended(
            bindings_view(old(prompt)@),
            prompt_overrides(*toml),
            bindings_view(final(prompt)@),
        ),
{
    proof {
        let n0 = bindings_view(old(normal)@);
        let p0 = bindings_view(old(prompt)@);
        overriding_is_refused_exactly_when_a_value_does_not_parse(n0, normal_overrides(*toml));
        overriding_is_refused_exactly_when_a_value_does_not_parse(p0, prompt_overrides(*toml));
        if distinct_actions(n0) && overridden(n0, normal_overrides(*toml)) is Ok {
            overrides_replace_in_place_or_append(n0, normal_overrides(*toml));
        }
        if distinct_actions(p0) && overridden(p0, prompt_overrides(*toml)) is Ok {
            overrides_replace_in_place_or_append(p0, prompt_overrides(*toml));
        }
    }
    let rows = normal_override_rows(toml);
    apply_rows(normal, &rows)?;
    let rows = prompt_override_rows(toml);
    apply_rows(prompt, &rows)?;
    Ok(())
}

/// Whether `c` has the Unicode Uppercase property, as `char::is_uppercase`
/// reports it.
pub uninterp spec fn uppercase(c: char) -> bool;

/// `char::is_uppercase`. The ASCII capitals are uppercase and no other ASCII
/// character is.
#[verifier::external_body]
pub(crate) fn is_uppercase(c: char) -> (b: bool)
    ensures
        b == uppercase(c),
        ('A' <= c && c <= 'Z') ==> b,
        ((c as u32) < 0x80 && !('A' <= c && c <= 'Z')) ==> !b,
{
    c.is_uppercase()
}

/// The action `map` binds to `combo`; for an uppercase character, which may
/// arrive with or without Shift depending on the terminal, the other Shift
/// state is tried too.
pub open spec fn looked_up(map: Map<KeyCombo, Action>, combo: KeyCombo) -> Option<Action> {
    if map.contains_key(combo) {
        Some(map[combo])
    } else if combo.code matches KeyCode::Char(c) && uppercase(c) {
        let toggled = KeyCombo { code: combo.code, modifiers: KeyModifiers { shift: !combo.modifiers.shift, ..combo.modifiers } };
        if map.contains_key(toggled) {
            Some(map[toggled])
        } else {
            None
        }
    } else {
        None
    }
}

/// Resolved keybindings with fast lookup in both directions.
pub struct KeyBindings {
    normal: Vec<(KeyCombo, Action)>,
    prompt: Vec<(KeyCombo, Action)>,
    action_display: Vec<(Action, String)>,
}

impl KeyBindings {
    #[verifier::type_invariant]
    spec fn well_formed(self) -> bool {
        &&& distinct_keys(self.normal@)
        &&& distinct_keys(self.prompt@)
        &&& distinct_keys(display_view(self.action_display@))
    }

    /// The key→action map in normal mode.
    pub closed spec fn normal_map(self) -> Map<KeyCombo, Action> {
        assoc_map(self.normal@)
    }

    /// The key→action map in prompt mode.
    pub closed spec fn prompt_map(self) -> Map<KeyCombo, Action> {
        assoc_map(self.prompt@)
    }

    /// The action→display map.
    pub closed spec fn display(self) -> Map<Action, Seq<char>> {
        assoc_map(display_view(self.action_display@))
    }

    /// The bindings of normal and prompt mode, the defaults with `overrides`
    /// applied.
    pub open spec fn bindings_for(overrides: Option<TomlKeybindings>) -> Result<
        (Seq<(Action, Seq<KeyCombo>)>, Seq<(Action, Seq<KeyCombo>)>),
        Seq<char>,
    > {
        match overrides {
            None => Ok((default_normal(), default_prompt())),
            Some(toml) => match overridden(default_normal(), normal_overrides(toml)) {
                Err(message) => Err(message),
                Ok(normal) => match overridden(default_prompt(), prompt_overrides(toml)) {
                    Err(message) => Err(message),
                    Ok(prompt) => Ok((normal, prompt)),
                },
            },
        }
    }

    /// The key bindings the defaults with `overrides` make: an error when an
    /// override does not parse or a key is bound to two actions of a mode.
    pub fn new(overrides: Option<&TomlKeybindings>) -> (r: Result<KeyBindings, String>)
        ensures
            match Self::bindings_for(
                match overrides {
                    Some(t) => Some(*t),
                    None => None,
                },
            ) {
                Err(message) => r matches Err(m) && m@ == message,
                Ok((normal, prompt)) => match key_map(binding_pairs(normal)) {
                    Err(message) => r matches Err(m) && m@ == message,
                    Ok(normal_map) => match key_map(binding_pairs(prompt)) {
                        Err(message) => r matches Err(m) && m@ == message,
                        Ok(prompt_map) => r matches Ok(kb) && kb.normal_map() == normal_map
                            && kb.prompt_map() == prompt_map && kb.display() == display_map(
                            normal,
                            prompt,
                        ),
                    },
                },
            },
            Self::bindings_for(
                match overrides {
                    Some(t) => Some(*t),
                    None => None,
                },
            ) matches Ok((normal, prompt)) ==> (r is Err <==> !consistent(binding_pairs(normal))
                || !consistent(binding_pairs(prompt))),
            Self::bindings_for(
                match overrides {
                    Some(t) => Some(*t),
                    None => None,
                },
            ) matches Ok((normal, prompt)) ==> (r is Ok ==> (forall|action: Action, j: int|
                0 <= j < keys_of(normal, action).len() ==> r->Ok_0.normal_map().contains_key(
                    #[trigger] keys_of(normal, action)[j],
                ) && r->Ok_0.normal_map()[keys_of(normal, action)[j]] == action) && (forall|
                action: Action,
                j: int,
            |
                0 <= j < keys_of(prompt, action).len() ==> r->Ok_0.prompt_map().contains_key(
                    #[trigger] keys_of(prompt, action)[j],
                ) && r->Ok_0.prompt_map()[keys_of(prompt, action)[j]] == action)),
            r is Ok ==> shows_every_hardcoded_key(r->Ok_0.display()),
    {
        proof {
            let given = match overrides {
                Some(t) => Some(*t),
                None => None,
            };
            if let Ok((normal, prompt)) = Self::bindings_for(given) {
                key_map_refuses_exactly_conflicts(binding_pairs(normal));
                key_map_refuses_exactly_conflicts(binding_pairs(prompt));
                if key_map(binding_pairs(normal)) is Ok {
                    assert forall|action: Action, j: int|
                        0 <= j < keys_of(normal, action).len() implies key_map(
                        binding_pairs(normal),
                    )->Ok_0.contains_key(#[trigger] keys_of(normal, action)[j]) && key_map(
                        binding_pairs(normal),
                    )->Ok_0[keys_of(normal, action)[j]] == action by {
                        a_bound_key_looks_up_its_action(normal, action, j);
                    }
                }
                if key_map(binding_pairs(prompt)) is Ok {
                    assert forall|action: Action, j: int|
                        0 <= j < keys_of(prompt, action).len() implies key_map(
                        binding_pairs(prompt),
                    )->Ok_0.contains_key(#[trigger] keys_of(prompt, action)[j]) && key_map(
                        binding_pairs(prompt),
                    )->Ok_0[keys_of(prompt, action)[j]] == action by {
                        a_bound_key_looks_up_its_action(prompt, action, j);
                    }
                }
            }
        }
        let mut normal_bindings = default_normal_bindings();
        let mut prompt_bindings = default_prompt_bindings();
        if let Some(toml) = overrides {
            apply_overrides(&mut normal_bindings, &mut prompt_bindings, toml)?;
        }
        let normal = build_action_map(&normal_bindings)?;
        let prompt = build_action_map(&prompt_bindings)?;
        let action_display = build_display_map(&normal_bindings, &prompt_bindings);
        let kb = KeyBindings { normal, prompt, action_display };
        proof {
            let given = match overrides {
                Some(t) => Some(*t),
                None => None,
            };
            let n = bindings_view(normal_bindings@);
            let p = bindings_view(prompt_bindings@);
            assert(Self::bindings_for(given) == Ok::<
                (Seq<(Action, Seq<KeyCombo>)>, Seq<(Action, Seq<KeyCombo>)>),
                Seq<char>,
            >((n, p)));
            assert(kb.display() == display_map(n, p));
            assert forall|action: Action| hardcoded(action).len() > 0 implies #[trigger] kb.display().contains_key(
                action,
            ) && begins_with(kb.display()[action], formatted_combo(hardcoded(action)[0])) by {
                the_help_shows_every_hardcoded_key_whatever_the_overrides(given, action);
            }
            assert(shows_every_hardcoded_key(kb.display()));
        }
        Ok(kb)
    }

    /// Look up an action for a key press in normal mode.
    pub fn normal_action(&self, code: &KeyCode, modifiers: &KeyModifiers) -> (r: Option<Action>)
        ensures
            r == looked_up(self.normal_map(), KeyCombo { code: *code, modifiers: *modifiers }),
    {
        proof {
            use_type_invariant(self);
        }
        Self::lookup(&self.normal, code, modifiers)
    }

    /// Look up an action for a key press in prompt mode.
    pub fn prompt_action(&self, code: &KeyCode, modifiers: &KeyModifiers) -> (r: Option<Action>)
        ensures
            r == looked_up(self.prompt_map(), KeyCombo { code: *code, modifiers: *modifiers }),
    {
        proof {
            use_type_invariant(self);
        }
        Self::lookup(&self.prompt, code, modifiers)
    }

    fn lookup(map: &Vec<(KeyCombo, Action)>, code: &KeyCode, modifiers: &KeyModifiers) -> (r:
        Option<Action>)
        requires
            distinct_keys(map@),
        ensures
            r == looked_up(assoc_map(map@), KeyCombo { code: *code, modifiers: *modifiers }),
    {
        let combo = KeyCombo::new(*code, *modifiers);
        if let Some(action) = find_action(map, combo) {
            return Some(action);
        }
        if let KeyCode::Char(c) = code {
            if is_uppercase(*c) {
                let toggled = modifiers.toggled_shift();
                return find_action(map, KeyCombo::new(*code, toggled));
            }
        }
        None
    }

    /// Get the display string for an action (includes hardcoded + rebindable keys).
    pub fn display_for(&self, action: Action) -> (text: &str)
        ensures
            text@ == (if self.display().contains_key(action) {
                self.display()[action]
            } else {
                Seq::empty()
            }),
    {
        proof {
            use_type_invariant(self);
            lemma_assoc_map(display_view(self.action_display@));
        }
        match display_index(&self.action_display, action) {
            Some(i) => {
                assert(display_view(self.action_display@)[i as int].0 == action);
                assert(assoc_map(display_view(self.action_display@)).contains_key(
                    display_view(self.action_display@)[i as int].0,
                ));
                self.action_display[i].1.as_str()
            },
            None => {
                assert(!self.display().contains_key(action)) by {
                    if self.display().contains_key(action) {
                        let j = choose|j: int|
                            0 <= j < self.action_display@.len() && display_view(
                                self.action_display@,
                            )[j].0 == action;
                    }
                }
                proof {
                    reveal_strlit("");
                }
                ""
            },
        }
    }
}

/// Whether no key of `pairs` is bound to two actions.
pub open spec fn consistent(pairs: Seq<(KeyCombo, Action)>) -> bool {
    forall|i: int, j: int|
        0 <= i < pairs.len() && 0 <= j < pairs.len() && #[trigger] pairs[i].0 == #[trigger] pairs[j].0
            ==> pairs[i].1 == pairs[j].1
}

/// The key-to-action map is refused exactly when a key is bound to two
/// actions, and otherwise maps each key to the action it is bound to, and no
/// other key.
pub proof fn key_map_refuses_exactly_conflicts(pairs: Seq<(KeyCombo, Action)>)
    ensures
        key_map(pairs) is Ok <==> consistent(pairs),
        key_map(pairs) matches Ok(m) ==> {
            &&& forall|i: int|
                0 <= i < pairs.len() ==> #[trigger] m.contains_key(pairs[i].0) && m[pairs[i].0]
                    == pairs[i].1
            &&& forall|k: KeyCombo| #[trigger] m.contains_key(k) ==> exists|i: int|
                0 <= i < pairs.len() && pairs[i].0 == k
        },
    decreases pairs.len(),
{
    if pairs.len() > 0 {
        let front = pairs.drop_last();
        let (key, action) = pairs.last();
        key_map_refuses_exactly_conflicts(front);
        assert forall|i: int| 0 <= i < front.len() implies front[i] == pairs[i] by {}
        match key_map(front) {
            Err(_) => {
                assert(!consistent(pairs)) by {
                    let (i, j) = choose|i: int, j: int|
                        0 <= i < front.len() && 0 <= j < front.len() && #[trigger] front[i].0
                            == #[trigger] front[j].0 && front[i].1 != front[j].1;
                    assert(pairs[i] == front[i] && pairs[j] == front[j]);
                }
            },
            Ok(m) => {
                if m.contains_key(key) && m[key] != action {
                    let i = choose|i: int| 0 <= i < front.len() && front[i].0 == key;
                    assert(m.contains_key(front[i].0));
                    assert(pairs[i].0 == pairs[pairs.len() - 1].0);
                    assert(pairs[i].1 != pairs[pairs.len() - 1].1);
                } else {
                    let n = m.insert(key, action);
                    assert forall|i: int, j: int|
                        0 <= i < pairs.len() && 0 <= j < pairs.len() && #[trigger] pairs[i].0
                            == #[trigger] pairs[j].0 implies pairs[i].1 == pairs[j].1 by {
                        if i < front.len() {
                            assert(m.contains_key(front[i].0));
                        }
                        if j < front.len() {
                            assert(m.contains_key(front[j].0));
                        }
                    }
                    assert forall|i: int| 0 <= i < pairs.len() implies #[trigger] n.contains_key(
                        pairs[i].0,
                    ) && n[pairs[i].0] == pairs[i].1 by {
                        if i < front.len() {
                            assert(m.contains_key(front[i].0));
                        }
                    }
                    assert forall|k: KeyCombo| #[trigger] n.contains_key(k) implies exists|i: int|
                        0 <= i < pairs.len() && pairs[i].0 == k by {
                        if k != key {
                            assert(m.contains_key(k));
                            let i = choose|i: int| 0 <= i < front.len() && front[i].0 == k;
                            assert(pairs[i].0 == k);
                        } else {
                            assert(pairs[pairs.len() - 1].0 == k);
                        }
                    }
                }
            },
        }
    }
}

/// The keys `bindings` bind to `action`, in order.
pub open spec fn keys_of(bindings: Seq<(Action, Seq<KeyCombo>)>, action: Action) -> Seq<KeyCombo>
    decreases bindings.len(),
{
    if bindings.len() == 0 {
        Seq::empty()
    } else {
        keys_of(bindings.drop_last(), action) + if bindings.last().0 == action {
            bindings.last().1
        } else {
            Seq::empty()
        }
    }
}

/// Whether no action has two rows.
pub open spec fn distinct_actions(bindings: Seq<(Action, Seq<KeyCombo>)>) -> bool {
    forall|i: int, j: int| 0 <= i < j < bindings.len() ==> bindings[i].0 != bindings[j].0
}

proof fn lemma_keys_of_absent(bindings: Seq<(Action, Seq<KeyCombo>)>, action: Action)
    requires
        forall|j: int| 0 <= j < bindings.len() ==> bindings[j].0 != action,
    ensures
        keys_of(bindings, action) == Seq::<KeyCombo>::empty(),
    decreases bindings.len(),
{
    if bindings.len() > 0 {
        let front = bindings.drop_last();
        assert forall|j: int| 0 <= j < front.len() implies front[j].0 != action by {
            assert(front[j] == bindings[j]);
        }
        lemma_keys_of_absent(front, action);
        assert(keys_of(bindings, action) =~= Seq::<KeyCombo>::empty());
    }
}

/// Giving row `r` of `bindings` other keys for its own action leaves the keys
/// of every other action as they were, and gives its action those keys.
proof fn lemma_keys_of_update(
    bindings: Seq<(Action, Seq<KeyCombo>)>,
    r: int,
    combos: Seq<KeyCombo>,
    other: Action,
)
    requires
        distinct_actions(bindings),
        0 <= r < bindings.len(),
    ensures
        other != bindings[r].0 ==> keys_of(bindings.update(r, (bindings[r].0, combos)), other)
            == keys_of(bindings, other),
        keys_of(bindings.update(r, (bindings[r].0, combos)), bindings[r].0) == combos,
    decreases bindings.len(),
{
    let a = bindings[r].0;
    let updated = bindings.update(r, (a, combos));
    let front = bindings.drop_last();
    if r == bindings.len() - 1 {
        assert(updated.drop_last() =~= front);
        assert forall|j: int| 0 <= j < front.len() implies front[j].0 != a by {
            assert(front[j] == bindings[j]);
        }
        lemma_keys_of_absent(front, a);
        assert(keys_of(updated, a) =~= combos);
    } else {
        assert(updated.drop_last() =~= front.update(r, (a, combos)));
        assert(distinct_actions(front)) by {
            assert forall|i: int, j: int| 0 <= i < j < front.len() implies front[i].0 != front[j].0 by {
                assert(front[i] == bindings[i] && front[j] == bindings[j]);
            }
        }
        assert(front[r] == bindings[r]);
        lemma_keys_of_update(front, r, combos, other);
        assert(updated.last() == bindings.last());
        assert(bindings.last().0 != a);
    }
}

/// An override makes the keys it gives an action that action's only keys,
/// and leaves the keys of every other action as they were, where each action
/// has at most one row.
pub proof fn override_replaces_keys(
    bindings: Seq<(Action, Seq<KeyCombo>)>,
    action: Action,
    combos: Seq<KeyCombo>,
    other: Action,
)
    requires
        distinct_actions(bindings),
    ensures
        keys_of(rebound(bindings, action, combos), action) == combos,
        other != action ==> keys_of(rebound(bindings, action, combos), other) == keys_of(
            bindings,
            other,
        ),
{
    lemma_first_row(bindings, action);
    let at = first_row(bindings, action);
    if at >= 0 {
        lemma_keys_of_update(bindings, at, combos, other);
    } else {
        let pushed = bindings.push((action, combos));
        assert(pushed.drop_last() =~= bindings);
        lemma_keys_of_absent(bindings, action);
        assert(keys_of(pushed, action) =~= combos);
        if other != action {
            assert(keys_of(pushed, other) =~= keys_of(bindings, other) + Seq::<KeyCombo>::empty());
        }
    }
}

/// The defaults give each action at most one row, so an override replaces
/// all of an action's default keys.
pub proof fn defaults_have_one_row_per_action()
    ensures
        distinct_actions(default_normal()),
        distinct_actions(default_prompt()),
{
    let n = default_normal();
    assert forall|i: int, j: int| 0 <= i < j < n.len() implies n[i].0 != n[j].0 by {
        assert(n[i].0 == n[i].0);
    }
}

/// The value the last of `overrides` that gives `action` one gives it.
pub open spec fn override_for(overrides: Seq<(Option<KeySpec>, Action)>, action: Action) -> Option<
    KeySpec,
>
    decreases overrides.len(),
{
    if overrides.len() == 0 {
        None
    } else if overrides.last().1 == action && overrides.last().0 is Some {
        overrides.last().0
    } else {
        override_for(overrides.drop_last(), action)
    }
}

/// Whether `o` gives a value that does not parse.
pub open spec fn refuses_value(o: (Option<KeySpec>, Action)) -> bool {
    o.0 matches Some(spec) && parsed_key_spec(spec) is Err
}

/// Overriding is refused exactly when a value given does not parse.
pub proof fn overriding_is_refused_exactly_when_a_value_does_not_parse(
    bindings: Seq<(Action, Seq<KeyCombo>)>,
    overrides: Seq<(Option<KeySpec>, Action)>,
)
    ensures
        overridden(bindings, overrides) is Err <==> exists|i: int|
            0 <= i < overrides.len() && #[trigger] refuses_value(overrides[i]),
    decreases overrides.len(),
{
    if overrides.len() > 0 {
        let front = overrides.drop_last();
        overriding_is_refused_exactly_when_a_value_does_not_parse(bindings, front);
        if refuses_value(overrides.last()) {
            assert(refuses_value(overrides[overrides.len() - 1]));
        }
        if exists|i: int|
            0 <= i < front.len() && #[trigger] refuses_value(front[i]) {
            let i = choose|i: int|
                0 <= i < front.len() && #[trigger] refuses_value(front[i]);
            assert(overrides[i] == front[i]);
        }
        if exists|i: int|
            0 <= i < overrides.len() && #[trigger] refuses_value(overrides[i]) {
            let i = choose|i: int|
                0 <= i < overrides.len() && #[trigger] refuses_value(overrides[i]);
            if i < front.len() {
                assert(front[i] == overrides[i]);
            }
        }
    }
}

proof fn lemma_rebound_rows(bindings: Seq<(Action, Seq<KeyCombo>)>, action: Action, combos: Seq<KeyCombo>)
    requires
        distinct_actions(bindings),
    ensures
        distinct_actions(rebound(bindings, action, combos)),
        rebound(bindings, action, combos).len() >= bindings.len(),
        forall|i: int|
            0 <= i < bindings.len() ==> (#[trigger] rebound(bindings, action, combos)[i]).0
                == bindings[i].0,
        forall|i: int|
            0 <= i < bindings.len() && bindings[i].0 != action ==> #[trigger] rebound(
                bindings,
                action,
                combos,
            )[i] == bindings[i],
{
    lemma_first_row(bindings, action);
    let r = rebound(bindings, action, combos);
    let at = first_row(bindings, action);
    if at >= 0 {
        assert forall|i: int, j: int| 0 <= i < j < r.len() implies r[i].0 != r[j].0 by {
            assert(r[i].0 == bindings[i].0 && r[j].0 == bindings[j].0);
        }
    } else {
        assert forall|i: int, j: int| 0 <= i < j < r.len() implies r[i].0 != r[j].0 by {
            if j < bindings.len() {
                assert(r[i] == bindings[i] && r[j] == bindings[j]);
            } else {
                assert(r[i] == bindings[i]);
            }
        }
    }
}

/// Overrides that parse bind each action given a value to exactly the keys
/// that value names, and leave every other action its keys; each row keeps
/// its place, an action without a row gets one at the end, and the rows of
/// actions not given a value are unchanged, where each action has at most
/// one row.
pub proof fn overrides_rebind_exactly_the_actions_given(
    bindings: Seq<(Action, Seq<KeyCombo>)>,
    overrides: Seq<(Option<KeySpec>, Action)>,
    action: Action,
)
    requires
        distinct_actions(bindings),
        overridden(bindings, overrides) is Ok,
    ensures
        ({
            let result = overridden(bindings, overrides)->Ok_0;
            &&& distinct_actions(result)
            &&& keys_of(result, action) == match override_for(overrides, action) {
                Some(spec) => parsed_key_spec(spec)->Ok_0,
                None => keys_of(bindings, action),
            }
            &&& result.len() >= bindings.len()
            &&& forall|i: int| 0 <= i < bindings.len() ==> (#[trigger] result[i]).0 == bindings[i].0
            &&& forall|i: int|
                0 <= i < bindings.len() && override_for(overrides, bindings[i].0) is None
                    ==> #[trigger] result[i] == bindings[i]
        }),
    decreases overrides.len(),
{
    if overrides.len() > 0 {
        let front = overrides.drop_last();
        overrides_rebind_exactly_the_actions_given(bindings, front, action);
        let before = overridden(bindings, front)->Ok_0;
        let result = overridden(bindings, overrides)->Ok_0;
        if let Some(spec) = overrides.last().0 {
            let given = overrides.last().1;
            let combos = parsed_key_spec(spec)->Ok_0;
            assert(result == rebound(before, given, combos));
            lemma_rebound_rows(before, given, combos);
            override_replaces_keys(before, given, combos, action);
            assert forall|i: int|
                0 <= i < bindings.len() && override_for(overrides, bindings[i].0) is None
                    implies #[trigger] result[i] == bindings[i] by {
                assert(override_for(front, bindings[i].0) is None);
                assert(before[i] == bindings[i]);
                assert(before[i].0 != given);
            }
            assert forall|i: int| 0 <= i < bindings.len() implies (#[trigger] result[i]).0
                == bindings[i].0 by {
                assert(before[i].0 == bindings[i].0);
            }
        } else {
            assert(result == before);
            assert forall|i: int|
                0 <= i < bindings.len() && override_for(overrides, bindings[i].0) is None
                    implies #[trigger] result[i] == bindings[i] by {
                assert(override_for(front, bindings[i].0) is None);
            }
        }
    }
}

/// Whether `result` is `bindings` with `overrides` applied in place: each
/// row whose action is given a value holds exactly the keys that value
/// names, every other row is as it was, in the same place, and each row
/// after them is an action given a value that had no row, with those keys.
pub open spec fn replaced_in_place_or_appended(
    bindings: Seq<(Action, Seq<KeyCombo>)>,
    overrides: Seq<(Option<KeySpec>, Action)>,
    result: Seq<(Action, Seq<KeyCombo>)>,
) -> bool {
    &&& result.len() >= bindings.len()
    &&& forall|i: int|
        0 <= i < bindings.len() ==> #[trigger] result[i] == match override_for(overrides, bindings[i].0) {
            Some(spec) => (bindings[i].0, parsed_key_spec(spec)->Ok_0),
            None => bindings[i],
        }
    &&& forall|j: int|
        bindings.len() <= j < result.len() ==> (override_for(overrides, (#[trigger] result[j]).0)
            matches Some(spec) && result[j].1 == parsed_key_spec(spec)->Ok_0) && forall|k: int|
            0 <= k < bindings.len() ==> bindings[k].0 != result[j].0
}

/// Overrides that parse replace, in place, the keys of each action that has
/// a row and is given a value, with exactly the keys that value names; an
/// action given a value that has no row gets one after all the others, with
/// those keys; every other row is unchanged and keeps its place. This holds
/// where each action has at most one row.
pub proof fn overrides_replace_in_place_or_append(
    bindings: Seq<(Action, Seq<KeyCombo>)>,
    overrides: Seq<(Option<KeySpec>, Action)>,
)
    requires
        distinct_actions(bindings),
        overridden(bindings, overrides) is Ok,
    ensures
        replaced_in_place_or_appended(bindings, overrides, overridden(bindings, overrides)->Ok_0),
    decreases overrides.len(),
{
    if overrides.len() > 0 {
        let front = overrides.drop_last();
        overrides_replace_in_place_or_append(bindings, front);
        overrides_rebind_exactly_the_actions_given(bindings, front, Action::Quit);
        let before = overridden(bindings, front)->Ok_0;
        let result = overridden(bindings, overrides)->Ok_0;
        let last = overrides.last();
        assert forall|x: Action| x != last.1 implies #[trigger] override_for(overrides, x)
            == override_for(front, x) by {}
        if let Some(spec) = last.0 {
            let a = last.1;
            let combos = parsed_key_spec(spec)->Ok_0;
            assert(override_for(overrides, a) == Some(spec));
            assert(result == rebound(before, a, combos));
            lemma_first_row(before, a);
            let at = first_row(before, a);
            assert forall|i: int| 0 <= i < bindings.len() implies #[trigger] result[i] == match override_for(
                overrides,
                bindings[i].0,
            ) {
                Some(spec) => (bindings[i].0, parsed_key_spec(spec)->Ok_0),
                None => bindings[i],
            } by {
                assert(before[i].0 == bindings[i].0);
                if bindings[i].0 == a {
                    assert(at == i);
                } else if at >= 0 {
                    assert(at != i);
                }
            }
            assert forall|j: int| bindings.len() <= j < result.len() implies (override_for(
                overrides,
                (#[trigger] result[j]).0,
            ) matches Some(spec) && result[j].1 == parsed_key_spec(spec)->Ok_0) && forall|k: int|
                0 <= k < bindings.len() ==> bindings[k].0 != result[j].0 by {
                if at >= 0 {
                    if j != at {
                        assert(result[j] == before[j]);
                        assert(before[j].0 != a);
                    }
                } else if j < before.len() {
                    assert(result[j] == before[j]);
                    assert(before[j].0 != a);
                } else {
                    assert(result[j] == (a, combos));
                    assert forall|k: int| 0 <= k < bindings.len() implies bindings[k].0 != a by {
                        assert(before[k].0 == bindings[k].0);
                    }
                }
            }
        } else {
            assert(result == before);
        }
    }
}

/// Each field of the overrides rebinds the action it names, in the mode that
/// action belongs to, and no other: a value given for `copy` is what Copy is
/// bound to, whatever the other fields hold.
#[verifier::spinoff_prover]
#[verifier::rlimit(60)]
pub proof fn each_field_overrides_its_own_action(toml: TomlKeybindings)
    ensures
        override_for(normal_overrides(toml), Action::Quit) == toml.quit,
        override_for(normal_overrides(toml), Action::Reset) == toml.reset,
        override_for(normal_overrides(toml), Action::ToggleHelp) == toml.toggle_help,
        override_for(normal_overrides(toml), Action::ClearAlerts) == toml.clear_alerts,
        override_for(normal_overrides(toml), Action::ClearProgress) == toml.clear_progress,
        override_for(normal_overrides(toml), Action::Back) == toml.back,
        override_for(normal_overrides(toml), Action::Open) == toml.open,
        override_for(normal_overrides(toml), Action::OpenCustom) == toml.open_custom,
        override_for(normal_overrides(toml), Action::OpenNewWindow) == toml.open_new_window,
        override_for(normal_overrides(toml), Action::OpenTerminal) == toml.open_terminal,
        override_for(normal_overrides(toml), Action::GoHome) == toml.go_home,
        override_for(normal_overrides(toml), Action::Refresh) == toml.refresh,
        override_for(normal_overrides(toml), Action::SelectNext) == toml.select_next,
        override_for(normal_overrides(toml), Action::SelectPrevious) == toml.select_previous,
        override_for(normal_overrides(toml), Action::SelectFirst) == toml.select_first,
        override_for(normal_overrides(toml), Action::SelectLast) == toml.select_last,
        override_for(normal_overrides(toml), Action::SelectMiddle) == toml.select_middle,
        override_for(normal_overrides(toml), Action::PageUp) == toml.page_up,
        override_for(normal_overrides(toml), Action::PageDown) == toml.page_down,
        override_for(normal_overrides(toml), Action::ToggleMark) == toml.toggle_mark,
        override_for(normal_overrides(toml), Action::RangeMark) == toml.range_mark,
        override_for(normal_overrides(toml), Action::Copy) == toml.copy,
        override_for(normal_overrides(toml), Action::Cut) == toml.cut,
        override_for(normal_overrides(toml), Action::Paste) == toml.paste,
        override_for(normal_overrides(toml), Action::Delete) == toml.delete,
        override_for(normal_overrides(toml), Action::Rename) == toml.rename,
        override_for(normal_overrides(toml), Action::Filter) == toml.filter,
        override_for(normal_overrides(toml), Action::SortByName) == toml.sort_by_name,
        override_for(normal_overrides(toml), Action::SortByModified) == toml.sort_by_modified,
        override_for(normal_overrides(toml), Action::SortBySize) == toml.sort_by_size,
        override_for(prompt_overrides(toml), Action::PromptSubmit) == toml.prompt_submit,
        override_for(prompt_overrides(toml), Action::PromptCancel) == toml.prompt_cancel,
        override_for(prompt_overrides(toml), Action::PromptReset) == toml.prompt_reset,
        override_for(prompt_overrides(toml), Action::PromptSelectAll) == toml.prompt_select_all,
        override_for(prompt_overrides(toml), Action::PromptCopy) == toml.prompt_copy,
        override_for(prompt_overrides(toml), Action::PromptCut) == toml.prompt_cut,
        override_for(prompt_overrides(toml), Action::PromptPaste) == toml.prompt_paste,
        override_for(normal_overrides(toml), Action::PromptSubmit) is None,
        override_for(normal_overrides(toml), Action::PromptCancel) is None,
        override_for(normal_overrides(toml), Action::PromptReset) is None,
        override_for(normal_overrides(toml), Action::PromptSelectAll) is None,
        override_for(normal_overrides(toml), Action::PromptCopy) is None,
        override_for(normal_overrides(toml), Action::PromptCut) is None,
        override_for(normal_overrides(toml), Action::PromptPaste) is None,
        forall|action: Action| action != Action::PromptSubmit && action != Action::PromptCancel && action != Action::PromptReset && action != Action::PromptSelectAll && action != Action::PromptCopy && action != Action::PromptCut && action != Action::PromptPaste ==> #[trigger] override_for(prompt_overrides(toml), action) is None,
{
    reveal_with_fuel(override_for, 31);
}

/// The keys of the action of row `i`, where each action has one row.
proof fn lemma_keys_of_row(bindings: Seq<(Action, Seq<KeyCombo>)>, i: int)
    requires
        distinct_actions(bindings),
        0 <= i < bindings.len(),
    ensures
        keys_of(bindings, bindings[i].0) == bindings[i].1,
{
    lemma_keys_of_update(bindings, i, bindings[i].1, bindings[i].0);
    assert(bindings.update(i, (bindings[i].0, bindings[i].1)) =~= bindings);
}

/// The default keys of normal mode: each action bound to the keys the
/// documentation of the defaults gives it, and no other action bound.
pub proof fn default_normal_keys_are_the_documented_ones()
    ensures
        keys_of(default_normal(), Action::Quit) == seq![kc(KeyCode::Char('q'), none())],
        keys_of(default_normal(), Action::ToggleHelp) == seq![kc(KeyCode::Char('?'), none())],
        keys_of(default_normal(), Action::ClearAlerts) == seq![kc(KeyCode::Char('a'), none())],
        keys_of(default_normal(), Action::ClearProgress) == seq![kc(KeyCode::Char('p'), none())],
        keys_of(default_normal(), Action::Back) == seq![kc(KeyCode::Char('h'), none()), kc(KeyCode::Char('b'), none()), kc(KeyCode::Backspace, none())],
        keys_of(default_normal(), Action::Open) == seq![kc(KeyCode::Char('l'), none()), kc(KeyCode::Char('f'), none()), kc(KeyCode::Enter, none()), kc(KeyCode::Char(' '), none())],
        keys_of(default_normal(), Action::OpenCustom) == seq![kc(KeyCode::Char('o'), none())],
        keys_of(default_normal(), Action::OpenNewWindow) == seq![kc(KeyCode::Char('w'), none())],
        keys_of(default_normal(), Action::OpenTerminal) == seq![kc(KeyCode::Char('t'), none())],
        keys_of(default_normal(), Action::GoHome) == seq![kc(KeyCode::Char('~'), none())],
        keys_of(default_normal(), Action::Refresh) == seq![kc(KeyCode::Char('r'), ctrl()), kc(KeyCode::F(5), none())],
        keys_of(default_normal(), Action::SelectNext) == seq![kc(KeyCode::Char('j'), none())],
        keys_of(default_normal(), Action::SelectPrevious) == seq![kc(KeyCode::Char('k'), none())],
        keys_of(default_normal(), Action::SelectFirst) == seq![kc(KeyCode::Char('g'), none()), kc(KeyCode::Char('^'), none())],
        keys_of(default_normal(), Action::SelectLast) == seq![kc(KeyCode::Char('G'), shift()), kc(KeyCode::Char('$'), none())],
        keys_of(default_normal(), Action::SelectMiddle) == seq![kc(KeyCode::Char('z'), none())],
        keys_of(default_normal(), Action::PageUp) == seq![kc(KeyCode::Char('u'), ctrl()), kc(KeyCode::Char('b'), ctrl())],
        keys_of(default_normal(), Action::PageDown) == seq![kc(KeyCode::Char('d'), ctrl()), kc(KeyCode::Char('f'), ctrl())],
        keys_of(default_normal(), Action::ToggleMark) == seq![kc(KeyCode::Char('v'), none())],
        keys_of(default_normal(), Action::RangeMark) == seq![kc(KeyCode::Char('V'), shift())],
        keys_of(default_normal(), Action::Copy) == seq![kc(KeyCode::Char('c'), ctrl())],
        keys_of(default_normal(), Action::Cut) == seq![kc(KeyCode::Char('x'), ctrl())],
        keys_of(default_normal(), Action::Paste) == seq![kc(KeyCode::Char('v'), ctrl())],
        keys_of(default_normal(), Action::Delete) == seq![kc(KeyCode::Delete, none())],
        keys_of(default_normal(), Action::Rename) == seq![kc(KeyCode::Char('r'), none()), kc(KeyCode::F(2), none())],
        keys_of(default_normal(), Action::Filter) == seq![kc(KeyCode::Char('/'), none())],
        keys_of(default_normal(), Action::SortByName) == seq![kc(KeyCode::Char('n'), none()), kc(KeyCode::Char('N'), shift())],
        keys_of(default_normal(), Action::SortByModified) == seq![kc(KeyCode::Char('m'), none()), kc(KeyCode::Char('M'), shift())],
        keys_of(default_normal(), Action::SortBySize) == seq![kc(KeyCode::Char('s'), none()), kc(KeyCode::Char('S'), shift())],
        forall|action: Action| action != Action::Quit && action != Action::ToggleHelp && action != Action::ClearAlerts && action != Action::ClearProgress && action != Action::Back && action != Action::Open && action != Action::OpenCustom && action != Action::OpenNewWindow && action != Action::OpenTerminal && action != Action::GoHome && action != Action::Refresh && action != Action::SelectNext && action != Action::SelectPrevious && action != Action::SelectFirst && action != Action::SelectLast && action != Action::SelectMiddle && action != Action::PageUp && action != Action::PageDown && action != Action::ToggleMark && action != Action::RangeMark && action != Action::Copy && action != Action::Cut && action != Action::Paste && action != Action::Delete && action != Action::Rename && action != Action::Filter && action != Action::SortByName && action != Action::SortByModified && action != Action::SortBySize ==> #[trigger] keys_of(default_normal(), action).len() == 0,
{
    let b = default_normal();
    defaults_have_one_row_per_action();
    lemma_keys_of_row(b, 0);
    lemma_keys_of_row(b, 1);
    lemma_keys_of_row(b, 2);
    lemma_keys_of_row(b, 3);
    lemma_keys_of_row(b, 4);
    lemma_keys_of_row(b, 5);
    lemma_keys_of_row(b, 6);
    lemma_keys_of_row(b, 7);
    lemma_keys_of_row(b, 8);
    lemma_keys_of_row(b, 9);
    lemma_keys_of_row(b, 10);
    lemma_keys_of_row(b, 11);
    lemma_keys_of_row(b, 12);
    lemma_keys_of_row(b, 13);
    lemma_keys_of_row(b, 14);
    lemma_keys_of_row(b, 15);
    lemma_keys_of_row(b, 16);
    lemma_keys_of_row(b, 17);
    lemma_keys_of_row(b, 18);
    lemma_keys_of_row(b, 19);
    lemma_keys_of_row(b, 20);
    lemma_keys_of_row(b, 21);
    lemma_keys_of_row(b, 22);
    lemma_keys_of_row(b, 23);
    lemma_keys_of_row(b, 24);
    lemma_keys_of_row(b, 25);
    lemma_keys_of_row(b, 26);
    lemma_keys_of_row(b, 27);
    lemma_keys_of_row(b, 28);
    assert forall|action: Action| action != Action::Quit && action != Action::ToggleHelp && action != Action::ClearAlerts && action != Action::ClearProgress && action != Action::Back && action != Action::Open && action != Action::OpenCustom && action != Action::OpenNewWindow && action != Action::OpenTerminal && action != Action::GoHome && action != Action::Refresh && action != Action::SelectNext && action != Action::SelectPrevious && action != Action::SelectFirst && action != Action::SelectLast && action != Action::SelectMiddle && action != Action::PageUp && action != Action::PageDown && action != Action::ToggleMark && action != Action::RangeMark && action != Action::Copy && action != Action::Cut && action != Action::Paste && action != Action::Delete && action != Action::Rename && action != Action::Filter && action != Action::SortByName && action != Action::SortByModified && action != Action::SortBySize implies #[trigger] keys_of(b, action).len() == 0 by {
        assert forall|j: int| 0 <= j < b.len() implies b[j].0 != action by {
            if j == 0 {
            } else if j == 1 {
            } else if j == 2 {
            } else if j == 3 {
            } else if j == 4 {
            } else if j == 5 {
            } else if j == 6 {
            } else if j == 7 {
            } else if j == 8 {
            } else if j == 9 {
            } else if j == 10 {
            } else if j == 11 {
            } else if j == 12 {
            } else if j == 13 {
            } else if j == 14 {
            } else if j == 15 {
            } else if j == 16 {
            } else if j == 17 {
            } else if j == 18 {
            } else if j == 19 {
            } else if j == 20 {
            } else if j == 21 {
            } else if j == 22 {
            } else if j == 23 {
            } else if j == 24 {
            } else if j == 25 {
            } else if j == 26 {
            } else if j == 27 {
            } else if j == 28 {
            }
        }
        lemma_keys_of_absent(b, action);
    }
}

/// The default keys of prompt mode, as documented.
pub proof fn default_prompt_keys_are_the_documented_ones()
    ensures
        keys_of(default_prompt(), Action::PromptSubmit) == seq![kc(KeyCode::Enter, none())],
        keys_of(default_prompt(), Action::PromptReset) == seq![kc(KeyCode::Char('z'), ctrl())],
        keys_of(default_prompt(), Action::PromptSelectAll) == seq![kc(KeyCode::Char('a'), ctrl_shift())],
        keys_of(default_prompt(), Action::PromptCopy) == seq![kc(KeyCode::Char('c'), ctrl())],
        keys_of(default_prompt(), Action::PromptCut) == seq![kc(KeyCode::Char('x'), ctrl())],
        keys_of(default_prompt(), Action::PromptPaste) == seq![kc(KeyCode::Char('v'), ctrl())],
        forall|action: Action| action != Action::PromptSubmit && action != Action::PromptReset && action != Action::PromptSelectAll && action != Action::PromptCopy && action != Action::PromptCut && action != Action::PromptPaste ==> #[trigger] keys_of(default_prompt(), action).len() == 0,
{
    reveal_with_fuel(keys_of, 8);
}

proof fn lemma_keys_in_pairs(bindings: Seq<(Action, Seq<KeyCombo>)>, action: Action, j: int)
    requires
        0 <= j < keys_of(bindings, action).len(),
    ensures
        exists|i: int|
            0 <= i < binding_pairs(bindings).len() && #[trigger] binding_pairs(bindings)[i] == (
                keys_of(bindings, action)[j],
                action,
            ),
    decreases bindings.len(),
{
    let front = bindings.drop_last();
    let fk = keys_of(front, action);
    let fp = binding_pairs(front);
    let (a, combos) = bindings.last();
    let tail = combos.map_values(|k: KeyCombo| (k, a));
    assert(binding_pairs(bindings) == fp + tail);
    if j < fk.len() {
        lemma_keys_in_pairs(front, action, j);
        let i = choose|i: int| 0 <= i < fp.len() && #[trigger] fp[i] == (fk[j], action);
        assert(binding_pairs(bindings)[i] == fp[i]);
        assert(keys_of(bindings, action)[j] == fk[j]);
    } else {
        assert(a == action);
        let k = j - fk.len();
        assert(keys_of(bindings, action)[j] == combos[k]);
        assert(binding_pairs(bindings)[fp.len() + k] == tail[k]);
    }
}

/// Where the bindings hold no key bound to two actions, every key bound to
/// an action looks that action up.
pub proof fn a_bound_key_looks_up_its_action(
    bindings: Seq<(Action, Seq<KeyCombo>)>,
    action: Action,
    j: int,
)
    requires
        key_map(binding_pairs(bindings)) is Ok,
        0 <= j < keys_of(bindings, action).len(),
    ensures
        key_map(binding_pairs(bindings))->Ok_0.contains_key(keys_of(bindings, action)[j]),
        key_map(binding_pairs(bindings))->Ok_0[keys_of(bindings, action)[j]] == action,
{
    key_map_refuses_exactly_conflicts(binding_pairs(bindings));
    lemma_keys_in_pairs(bindings, action, j);
    let pairs = binding_pairs(bindings);
    let i = choose|i: int| 0 <= i < pairs.len() && #[trigger] pairs[i] == (keys_of(bindings, action)[j], action);
    assert(pairs[i].0 == keys_of(bindings, action)[j]);
    assert(pairs[i].1 == action);
    let m = key_map(pairs)->Ok_0;
    assert(m.contains_key(pairs[i].0));
    assert(m[pairs[i].0] == pairs[i].1);
}

/// Overrides that parse bind each action whose field is given exactly the
/// keys that field names, and leave every other action its default keys, in
/// both modes.
pub proof fn overrides_rebind_the_actions_their_fields_name(toml: TomlKeybindings, action: Action)
    requires
        KeyBindings::bindings_for(Some(toml)) is Ok,
    ensures
        ({
            let (normal, prompt) = KeyBindings::bindings_for(Some(toml))->Ok_0;
            &&& keys_of(normal, action) == match override_for(normal_overrides(toml), action) {
                Some(spec) => parsed_key_spec(spec)->Ok_0,
                None => keys_of(default_normal(), action),
            }
            &&& keys_of(prompt, action) == match override_for(prompt_overrides(toml), action) {
                Some(spec) => parsed_key_spec(spec)->Ok_0,
                None => keys_of(default_prompt(), action),
            }
        }),
{
    defaults_have_one_row_per_action();
    overrides_rebind_exactly_the_actions_given(default_normal(), normal_overrides(toml), action);
    overrides_rebind_exactly_the_actions_given(default_prompt(), prompt_overrides(toml), action);
}

/// Whether `display` shows every action that has a hardcoded key, beginning
/// with that key.
pub open spec fn shows_every_hardcoded_key(display: Map<Action, Seq<char>>) -> bool {
    forall|action: Action|
        hardcoded(action).len() > 0 ==> #[trigger] display.contains_key(action) && begins_with(
            display[action],
            formatted_combo(hardcoded(action)[0]),
        )
}

/// Whether `text` begins with `prefix`.
pub open spec fn begins_with(text: Seq<char>, prefix: Seq<char>) -> bool {
    prefix.len() <= text.len() && text.subrange(0, prefix.len() as int) == prefix
}

proof fn lemma_joined_begins_with_first(parts: Seq<Seq<char>>, sep: Seq<char>)
    requires
        parts.len() > 0,
    ensures
        begins_with(joined(parts, sep), parts[0]),
    decreases parts.len(),
{
    if parts.len() > 1 {
        let front = parts.drop_last();
        lemma_joined_begins_with_first(front, sep);
        assert(front[0] == parts[0]);
        let j = joined(front, sep);
        assert(joined(parts, sep) == j + sep + parts.last());
        assert((j + sep + parts.last()).subrange(0, parts[0].len() as int) =~= j.subrange(
            0,
            parts[0].len() as int,
        ));
    } else {
        assert(joined(parts, sep) == parts[0]);
        assert(parts[0].subrange(0, parts[0].len() as int) =~= parts[0]);
    }
}

/// How an action's keys are shown begins with its hardcoded key, whatever
/// keys are bound to it.
pub proof fn a_display_begins_with_the_hardcoded_key(action: Action, combos: Seq<KeyCombo>)
    requires
        hardcoded(action).len() > 0,
    ensures
        begins_with(display_text(action, combos), formatted_combo(hardcoded(action)[0])),
{
    let parts = (hardcoded(action) + combos).map_values(|k: KeyCombo| formatted_combo(k));
    assert(parts[0] == formatted_combo(hardcoded(action)[0]));
    lemma_joined_begins_with_first(parts, "/"@);
}

proof fn lemma_display_rows(rows: Seq<(Action, Seq<KeyCombo>)>)
    ensures
        forall|i: int| 0 <= i < rows.len() ==> #[trigger] display_rows(rows).contains_key(rows[i].0),
        forall|a: Action|
            #[trigger] display_rows(rows).contains_key(a) ==> exists|c: Seq<KeyCombo>|
                display_rows(rows)[a] == display_text(a, c),
    decreases rows.len(),
{
    if rows.len() > 0 {
        let front = rows.drop_last();
        lemma_display_rows(front);
        assert forall|i: int| 0 <= i < rows.len() implies #[trigger] display_rows(rows).contains_key(
            rows[i].0,
        ) by {
            if i < front.len() {
                assert(front[i] == rows[i]);
                assert(display_rows(front).contains_key(front[i].0));
            }
        }
        assert forall|a: Action| #[trigger] display_rows(rows).contains_key(a) implies exists|
            c: Seq<KeyCombo>,
        | display_rows(rows)[a] == display_text(a, c) by {
            if a == rows.last().0 {
                assert(display_rows(rows)[a] == display_text(a, rows.last().1));
            } else {
                assert(display_rows(front).contains_key(a));
                let c = choose|c: Seq<KeyCombo>| display_rows(front)[a] == display_text(a, c);
                assert(display_rows(rows)[a] == display_text(a, c));
            }
        }
    }
}

/// The help always shows Reset and PromptCancel, which may have only their
/// hardcoded Esc; and every action it shows is shown beginning with its
/// hardcoded key, where it has one.
pub proof fn the_help_shows_every_hardcoded_key(
    normal: Seq<(Action, Seq<KeyCombo>)>,
    prompt: Seq<(Action, Seq<KeyCombo>)>,
    action: Action,
)
    ensures
        display_map(normal, prompt).contains_key(Action::Reset),
        display_map(normal, prompt).contains_key(Action::PromptCancel),
        display_map(normal, prompt).contains_key(action) && hardcoded(action).len() > 0 ==> begins_with(
            display_map(normal, prompt)[action],
            formatted_combo(hardcoded(action)[0]),
        ),
        (exists|i: int| 0 <= i < (normal + prompt).len() && (normal + prompt)[i].0 == action)
            ==> display_map(normal, prompt).contains_key(action),
{
    let rows = normal + prompt;
    lemma_display_rows(rows);
    let m = display_map(normal, prompt);
    if m.contains_key(action) && hardcoded(action).len() > 0 {
        if display_rows(rows).contains_key(action) {
            let c = choose|c: Seq<KeyCombo>| display_rows(rows)[action] == display_text(action, c);
            a_display_begins_with_the_hardcoded_key(action, c);
        } else {
            a_display_begins_with_the_hardcoded_key(action, Seq::empty());
        }
    }
    if exists|i: int| 0 <= i < rows.len() && rows[i].0 == action {
        let i = choose|i: int| 0 <= i < rows.len() && rows[i].0 == action;
        assert(display_rows(rows).contains_key(rows[i].0));
    }
}

proof fn lemma_keys_of_has_a_row(bindings: Seq<(Action, Seq<KeyCombo>)>, action: Action)
    requires
        keys_of(bindings, action).len() > 0,
    ensures
        exists|i: int| 0 <= i < bindings.len() && bindings[i].0 == action,
    decreases bindings.len(),
{
    let front = bindings.drop_last();
    if bindings.last().0 == action {
        assert(bindings[bindings.len() - 1].0 == action);
    } else {
        lemma_keys_of_has_a_row(front, action);
        let i = choose|i: int| 0 <= i < front.len() && front[i].0 == action;
        assert(bindings[i] == front[i]);
    }
}

/// Whatever the overrides, the help shows every action that has a hardcoded
/// key, beginning with that key: Reset and PromptCancel always, and the
/// others through the default rows that overrides never remove.
pub proof fn the_help_shows_every_hardcoded_key_whatever_the_overrides(
    overrides: Option<TomlKeybindings>,
    action: Action,
)
    requires
        KeyBindings::bindings_for(overrides) is Ok,
        hardcoded(action).len() > 0,
    ensures
        ({
            let (normal, prompt) = KeyBindings::bindings_for(overrides)->Ok_0;
            display_map(normal, prompt).contains_key(action) && begins_with(
                display_map(normal, prompt)[action],
                formatted_combo(hardcoded(action)[0]),
            )
        }),
{
    let (normal, prompt) = KeyBindings::bindings_for(overrides)->Ok_0;
    the_help_shows_every_hardcoded_key(normal, prompt, action);
    if action != Action::Reset && action != Action::PromptCancel {
        default_normal_keys_are_the_documented_ones();
        assert(keys_of(default_normal(), action).len() > 0);
        lemma_keys_of_has_a_row(default_normal(), action);
        let k = choose|k: int| 0 <= k < default_normal().len() && default_normal()[k].0 == action;
        if let Some(toml) = overrides {
            defaults_have_one_row_per_action();
            overrides_rebind_exactly_the_actions_given(default_normal(), normal_overrides(toml), action);
        }
        assert(normal[k].0 == action);
        assert((normal + prompt)[k] == normal[k]);
    }
}

/// The hardcoded keys, always active whatever the config: the arrows for
/// going back, opening and moving the selection, Home and End, Page Up and
/// Page Down, and Esc for resetting and for cancelling a prompt; no other
/// action has one.
pub proof fn hardcoded_keys_are_the_documented_ones(action: Action)
    ensures
        hardcoded(Action::Back) == seq![kc(KeyCode::Left, none())],
        hardcoded(Action::Open) == seq![kc(KeyCode::Right, none())],
        hardcoded(Action::SelectNext) == seq![kc(KeyCode::Down, none())],
        hardcoded(Action::SelectPrevious) == seq![kc(KeyCode::Up, none())],
        hardcoded(Action::SelectFirst) == seq![kc(KeyCode::Home, none())],
        hardcoded(Action::SelectLast) == seq![kc(KeyCode::End, none())],
        hardcoded(Action::PageUp) == seq![kc(KeyCode::PageUp, none())],
        hardcoded(Action::PageDown) == seq![kc(KeyCode::PageDown, none())],
        hardcoded(Action::Reset) == seq![kc(KeyCode::Esc, none())],
        hardcoded(Action::PromptCancel) == seq![kc(KeyCode::Esc, none())],
        action != Action::Back && action != Action::Open && action != Action::SelectNext && action
            != Action::SelectPrevious && action != Action::SelectFirst && action != Action::SelectLast
            && action != Action::PageUp && action != Action::PageDown && action != Action::Reset
            && action != Action::PromptCancel ==> hardcoded(action).len() == 0,
{
}

/// Whatever the bindings, the help shows Esc first for resetting and for
/// cancelling a prompt.
pub proof fn the_help_shows_esc_for_reset_and_prompt_cancel(
    normal: Seq<(Action, Seq<KeyCombo>)>,
    prompt: Seq<(Action, Seq<KeyCombo>)>,
)
    ensures
        display_map(normal, prompt).contains_key(Action::Reset),
        begins_with(display_map(normal, prompt)[Action::Reset], "Esc"@),
        display_map(normal, prompt).contains_key(Action::PromptCancel),
        begins_with(display_map(normal, prompt)[Action::PromptCancel], "Esc"@),
{
    the_help_shows_every_hardcoded_key(normal, prompt, Action::Reset);
    the_help_shows_every_hardcoded_key(normal, prompt, Action::PromptCancel);
    let esc = kc(KeyCode::Esc, none());
    assert(formatted_combo(esc) =~= "Esc"@);
}

} // verus!
