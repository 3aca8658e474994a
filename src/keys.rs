//! Which command a key press stands for, given what the interface shows.
use vstd::prelude::*;

use crate::app::{logged, selected_count_of, App, AppTab, ConfirmAction, LogLevel};

verus! {

/// A key press, as far as the interface tells keys apart.
#[derive(Debug, Clone, Copy, PartialEq, Eq, Structural)]
pub enum Key {
    Char(char),
    Enter,
    Esc,
    Tab,
    BackTab,
    Up,
    Down,
    Left,
    Right,
    Delete,
    Other,
}

/// What a key press asks of the interface state.
#[derive(Debug, Clone, Copy, PartialEq, Eq, Structural)]
pub enum Command {
    Quit,
    ToggleHelp,
    ConfirmAccept,
    ConfirmReject,
    FilterPrev,
    FilterNext,
    FilterToggle,
    FilterApply,
    FilterCancel,
    NextTab,
    PrevTab,
    ShowTab(AppTab),
    NextItem,
    PrevItem,
    ToggleGroup,
    SelectAll,
    DeselectAll,
    CycleSort,
    OpenFilter,
    CycleWindow,
    RequestClean,
    RequestMigrate,
    NextPreset,
    PrevPreset,
}

pub open spec fn is_char(key: Key, c: char) -> bool {
    key == Key::Char(c)
}

/// The command of a key in the list tabs (clean and migrate).
pub open spec fn list_command(tab: AppTab, key: Key) -> Option<Command> {
    if key == Key::Down || is_char(key, 'j') {
        Some(Command::NextItem)
    } else if key == Key::Up || is_char(key, 'k') {
        Some(Command::PrevItem)
    } else if is_char(key, ' ') {
        Some(Command::ToggleGroup)
    } else if is_char(key, 'a') {
        Some(Command::SelectAll)
    } else if is_char(key, 'A') {
        Some(Command::DeselectAll)
    } else if is_char(key, 's') {
        Some(Command::CycleSort)
    } else if is_char(key, 'f') {
        Some(Command::OpenFilter)
    } else if tab == AppTab::Clean && is_char(key, 't') {
        Some(Command::CycleWindow)
    } else if tab == AppTab::Clean && (is_char(key, 'd') || key == Key::Delete) {
        Some(Command::RequestClean)
    } else if tab == AppTab::Migrate && (is_char(key, 'm') || key == Key::Enter) {
        Some(Command::RequestMigrate)
    } else if tab == AppTab::Migrate && (is_char(key, 'p') || key == Key::Right) {
        Some(Command::NextPreset)
    } else if tab == AppTab::Migrate && key == Key::Left {
        Some(Command::PrevPreset)
    } else {
        None
    }
}

/// The command a key stands for. Ctrl-C always quits; an open help page,
/// confirmation or filter dialog takes the keys it knows and swallows the
/// rest; otherwise the tab keys apply everywhere and the list keys in the
/// list tabs.
pub open spec fn command_of(
    show_help: bool,
    show_confirm: bool,
    show_filter: bool,
    tab: AppTab,
    key: Key,
    ctrl: bool,
) -> Option<Command> {
    if ctrl && is_char(key, 'c') {
        Some(Command::Quit)
    } else if show_help {
        if key == Key::Esc || is_char(key, '?') || is_char(key, 'h') {
            Some(Command::ToggleHelp)
        } else {
            None
        }
    } else if show_confirm {
        if is_char(key, 'y') || is_char(key, 'Y') || key == Key::Enter {
            Some(Command::ConfirmAccept)
        } else if is_char(key, 'n') || is_char(key, 'N') || key == Key::Esc {
            Some(Command::ConfirmReject)
        } else {
            None
        }
    } else if show_filter {
        if key == Key::Up || is_char(key, 'k') {
            Some(Command::FilterPrev)
        } else if key == Key::Down || is_char(key, 'j') {
            Some(Command::FilterNext)
        } else if is_char(key, ' ') || key == Key::Enter {
            Some(Command::FilterToggle)
        } else if is_char(key, 'a') {
            Some(Command::FilterApply)
        } else if is_char(key, 'c') || key == Key::Esc {
            Some(Command::FilterCancel)
        } else {
            None
        }
    } else if is_char(key, 'q') {
        Some(Command::Quit)
    } else if is_char(key, '?') || is_char(key, 'h') {
        Some(Command::ToggleHelp)
    } else if key == Key::Tab {
        Some(Command::NextTab)
    } else if key == Key::BackTab {
        Some(Command::PrevTab)
    } else if is_char(key, '1') {
        Some(Command::ShowTab(AppTab::Analysis))
    } else if is_char(key, '2') {
        Some(Command::ShowTab(AppTab::Clean))
    } else if is_char(key, '3') {
        Some(Command::ShowTab(AppTab::Migrate))
    } else if tab == AppTab::Clean || tab == AppTab::Migrate {
        list_command(tab, key)
    } else {
        None
    }
}

fn list_command_for(tab: AppTab, key: Key) -> (r: Option<Command>)
    ensures
        r == list_command(tab, key),
{
    let clean = tab == AppTab::Clean;
    let migrate = tab == AppTab::Migrate;
    let common = match key {
        Key::Down | Key::Char('j') => Some(Command::NextItem),
        Key::Up | Key::Char('k') => Some(Command::PrevItem),
        Key::Char(' ') => Some(Command::ToggleGroup),
        Key::Char('a') => Some(Command::SelectAll),
        Key::Char('A') => Some(Command::DeselectAll),
        Key::Char('s') => Some(Command::CycleSort),
        Key::Char('f') => Some(Command::OpenFilter),
        _ => None,
    };
    if common.is_some() {
        common
    } else if clean && key == Key::Char('t') {
        Some(Command::CycleWindow)
    } else if clean && (key == Key::Char('d') || key == Key::Delete) {
        Some(Command::RequestClean)
    } else if migrate && (key == Key::Char('m') || key == Key::Enter) {
        Some(Command::RequestMigrate)
    } else if migrate && (key == Key::Char('p') || key == Key::Right) {
        Some(Command::NextPreset)
    } else if migrate && key == Key::Left {
        Some(Command::PrevPreset)
    } else {
        None
    }
}

impl App {
    /// The command that `key` stands for in the current state.
    pub fn key_command(&self, key: Key, ctrl: bool) -> (r: Option<Command>)
        ensures
            r == command_of(
                self.show_help,
                self.show_confirm_dialog,
                self.show_filter_dialog,
                self.current_tab,
                key,
                ctrl,
            ),
    {
        if ctrl && key == Key::Char('c') {
            return Some(Command::Quit);
        }
        if self.show_help {
            return match key {
                Key::Esc | Key::Char('?') | Key::Char('h') => Some(Command::ToggleHelp),
                _ => None,
            };
        }
        if self.show_confirm_dialog {
            return match key {
                Key::Char('y') | Key::Char('Y') | Key::Enter => Some(Command::ConfirmAccept),
                Key::Char('n') | Key::Char('N') | Key::Esc => Some(Command::ConfirmReject),
                _ => None,
            };
        }
        if self.show_filter_dialog {
            return match key {
                Key::Up | Key::Char('k') => Some(Command::FilterPrev),
                Key::Down | Key::Char('j') => Some(Command::FilterNext),
                Key::Char(' ') | Key::Enter => Some(Command::FilterToggle),
                Key::Char('a') => Some(Command::FilterApply),
                Key::Char('c') | Key::Esc => Some(Command::FilterCancel),
                _ => None,
            };
        }
        match key {
            Key::Char('q') => Some(Command::Quit),
            Key::Char('?') | Key::Char('h') => Some(Command::ToggleHelp),
            Key::Tab => Some(Command::NextTab),
            Key::BackTab => Some(Command::PrevTab),
            Key::Char('1') => Some(Command::ShowTab(AppTab::Analysis)),
            Key::Char('2') => Some(Command::ShowTab(AppTab::Clean)),
            Key::Char('3') => Some(Command::ShowTab(AppTab::Migrate)),
            _ => if self.current_tab == AppTab::Clean || self.current_tab == AppTab::Migrate {
                list_command_for(self.current_tab, key)
            } else {
                None
            },
        }
    }

    /// Asks for confirmation of `action` when some group is selected, and
    /// otherwise queues a warning that nothing is selected.
    pub fn request(&mut self, action: ConfirmAction)
        ensures
            selected_count_of(old(self).selected_groups@) > 0 ==> *final(self) == (App {
                confirm_action: Some(action),
                show_confirm_dialog: true,
                temp_migrate_keep_original: if action == ConfirmAction::Migrate {
                    true
                } else {
                    old(self).temp_migrate_keep_original
                },
                ..*old(self)
            }),
            selected_count_of(old(self).selected_groups@) == 0 ==> logged(
                old(self).logs@,
                final(self).logs@,
                LogLevel::Warning,
                if action == ConfirmAction::Clean {
                    "请先选择要清理的群组"@
                } else {
                    "请先选择要迁移的群组"@
                },
            ) && *final(self) == (App { logs: final(self).logs, ..*old(self) }),
    {
        if self.selected_count() > 0 {
            self.show_confirm(action);
        } else if action == ConfirmAction::Clean {
            self.add_log(LogLevel::Warning, "请先选择要清理的群组");
        } else {
            self.add_log(LogLevel::Warning, "请先选择要迁移的群组");
        }
    }
}

} // verus!
