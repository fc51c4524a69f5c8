//! The top-level view state: which tab is shown, which widget has focus, and
//! where each key goes.

use vstd::prelude::*;
use crate::command_input::{CommandInputState, EditKey};
use crate::log::{distinct_sources, Log};
use crate::scroll::{scrolled, ScrollKey};
use crate::views::{FormattedLogState, RawLogState, ViewKey};

verus! {

/// The tab shown in the log area.
#[derive(Clone, Copy, PartialEq, Eq, Debug, Hash, Structural)]
pub enum SelectedTab {
    FormattedLog,
    RawLog,
}

/// The widget that has focus.
#[derive(Clone, Copy, PartialEq, Eq, Debug, Hash, Structural)]
pub enum SelectedWidget {
    Log,
    CommandInput,
}

/// A key pressed in the viewer.
#[derive(Clone, Copy, PartialEq, Eq, Debug, Hash, Structural)]
pub enum RootKey {
    Tab,
    BackTab,
    Esc,
    Enter,
    Backspace,
    Delete,
    Insert,
    Up,
    Down,
    Left,
    Right,
    PageUp,
    PageDown,
    Home,
    End,
    Char(char),
}

/// The formatted view's meaning of `key`.
pub open spec fn view_key_of(key: RootKey) -> Option<ViewKey> {
    match key {
        RootKey::Char(c) => if c == 'f' {
            Some(ViewKey::Filters)
        } else if c == ' ' {
            Some(ViewKey::Toggle)
        } else {
            None
        },
        RootKey::Esc => Some(ViewKey::Close),
        RootKey::Up => Some(ViewKey::Up),
        RootKey::Down => Some(ViewKey::Down),
        RootKey::Left => Some(ViewKey::Left),
        RootKey::Right => Some(ViewKey::Right),
        RootKey::PageUp => Some(ViewKey::PageUp),
        RootKey::PageDown => Some(ViewKey::PageDown),
        RootKey::Home => Some(ViewKey::Home),
        RootKey::End => Some(ViewKey::End),
        _ => None,
    }
}

/// The formatted view's meaning of `key`.
pub fn view_key(key: RootKey) -> (r: Option<ViewKey>)
    ensures
        r == view_key_of(key),
{
    match key {
        RootKey::Char(c) => if c == 'f' {
            Some(ViewKey::Filters)
        } else if c == ' ' {
            Some(ViewKey::Toggle)
        } else {
            None
        },
        RootKey::Esc => Some(ViewKey::Close),
        RootKey::Up => Some(ViewKey::Up),
        RootKey::Down => Some(ViewKey::Down),
        RootKey::Left => Some(ViewKey::Left),
        RootKey::Right => Some(ViewKey::Right),
        RootKey::PageUp => Some(ViewKey::PageUp),
        RootKey::PageDown => Some(ViewKey::PageDown),
        RootKey::Home => Some(ViewKey::Home),
        RootKey::End => Some(ViewKey::End),
        _ => None,
    }
}

/// The raw view's meaning of `key`.
pub open spec fn scroll_key_of(key: RootKey) -> Option<ScrollKey> {
    match key {
        RootKey::Up => Some(ScrollKey::Up),
        RootKey::Down => Some(ScrollKey::Down),
        RootKey::Left => Some(ScrollKey::Left),
        RootKey::Right => Some(ScrollKey::Right),
        RootKey::PageUp => Some(ScrollKey::PageUp),
        RootKey::PageDown => Some(ScrollKey::PageDown),
        RootKey::Home => Some(ScrollKey::Home),
        RootKey::End => Some(ScrollKey::End),
        _ => None,
    }
}

/// The raw view's meaning of `key`.
pub fn scroll_key(key: RootKey) -> (r: Option<ScrollKey>)
    ensures
        r == scroll_key_of(key),
{
    match key {
        RootKey::Up => Some(ScrollKey::Up),
        RootKey::Down => Some(ScrollKey::Down),
        RootKey::Left => Some(ScrollKey::Left),
        RootKey::Right => Some(ScrollKey::Right),
        RootKey::PageUp => Some(ScrollKey::PageUp),
        RootKey::PageDown => Some(ScrollKey::PageDown),
        RootKey::Home => Some(ScrollKey::Home),
        RootKey::End => Some(ScrollKey::End),
        _ => None,
    }
}

/// The command editor's meaning of `key`.
pub open spec fn edit_key_of(key: RootKey) -> Option<EditKey> {
    match key {
        RootKey::Enter => Some(EditKey::Enter),
        RootKey::Backspace => Some(EditKey::Backspace),
        RootKey::Delete => Some(EditKey::Delete),
        RootKey::Insert => Some(EditKey::Insert),
        RootKey::Left => Some(EditKey::Left),
        RootKey::Right => Some(EditKey::Right),
        RootKey::Home => Some(EditKey::Home),
        RootKey::End => Some(EditKey::End),
        RootKey::Char(c) => Some(EditKey::Char(c)),
        _ => None,
    }
}

/// The command editor's meaning of `key`.
pub fn edit_key(key: RootKey) -> (r: Option<EditKey>)
    ensures
        r == edit_key_of(key),
{
    match key {
        RootKey::Enter => Some(EditKey::Enter),
        RootKey::Backspace => Some(EditKey::Backspace),
        RootKey::Delete => Some(EditKey::Delete),
        RootKey::Insert => Some(EditKey::Insert),
        RootKey::Left => Some(EditKey::Left),
        RootKey::Right => Some(EditKey::Right),
        RootKey::Home => Some(EditKey::Home),
        RootKey::End => Some(EditKey::End),
        RootKey::Char(c) => Some(EditKey::Char(c)),
        _ => None,
    }
}

/// The whole viewer's state.
#[derive(Debug)]
pub struct RootState<'a> {
    formatted_log_state: FormattedLogState<'a>,
    raw_log_state: RawLogState,
    command_input_state: Option<CommandInputState>,
    selected_widget: SelectedWidget,
    selected_tab: SelectedTab,
}

impl<'a> RootState<'a> {
    pub closed spec fn spec_formatted(&self) -> FormattedLogState<'a> {
        self.formatted_log_state
    }

    pub closed spec fn spec_raw(&self) -> RawLogState {
        self.raw_log_state
    }

    pub closed spec fn spec_command(&self) -> Option<CommandInputState> {
        self.command_input_state
    }

    pub closed spec fn spec_widget(&self) -> SelectedWidget {
        self.selected_widget
    }

    pub closed spec fn spec_tab(&self) -> SelectedTab {
        self.selected_tab
    }

    /// The views are consistent with their log, and the editor's cursor is
    /// within its text.
    pub open spec fn wf(&self) -> bool {
        &&& self.spec_formatted().wf()
        &&& (self.spec_command() matches Some(c) ==> c.wf())
    }

    /// The viewer over `log`: the formatted tab with focus on the log, and a
    /// command editor where commands can be sent.
    pub fn new(log: &'a Log, with_command_input: bool) -> (r: RootState<'a>)
        requires
            log.wf(),
        ensures
            r.wf(),
            r.spec_formatted().spec_log() == log,
            r.spec_command() is Some == with_command_input,
            r.spec_widget() == SelectedWidget::Log,
            r.spec_tab() == SelectedTab::FormattedLog,
    {
        RootState {
            formatted_log_state: FormattedLogState::new(log),
            raw_log_state: RawLogState::new(log),
            command_input_state: if with_command_input {
                Some(CommandInputState::new())
            } else {
                None
            },
            selected_widget: SelectedWidget::Log,
            selected_tab: SelectedTab::FormattedLog,
        }
    }

    /// The tab shown.
    pub fn selected_tab(&self) -> (r: SelectedTab)
        ensures
            r == self.spec_tab(),
    {
        self.selected_tab
    }

    /// The widget with focus.
    pub fn selected_widget(&self) -> (r: SelectedWidget)
        ensures
            r == self.spec_widget(),
    {
        self.selected_widget
    }

    /// The formatted view.
    pub fn formatted(&self) -> (r: &FormattedLogState<'a>)
        ensures
            *r == self.spec_formatted(),
    {
        &self.formatted_log_state
    }

    /// The raw view.
    pub fn raw(&self) -> (r: &RawLogState)
        ensures
            *r == self.spec_raw(),
    {
        &self.raw_log_state
    }

    /// The command editor, where there is one.
    pub fn command_input(&self) -> (r: &Option<CommandInputState>)
        ensures
            *r == self.spec_command(),
    {
        &self.command_input_state
    }

    /// Applies `key`; returns whether it was handled. With focus on the log,
    /// tab keys switch tabs and `i` moves focus to the editor; other keys go
    /// to the tab shown. With focus on the editor, escape moves focus back
    /// and other keys go to the editor.
    pub fn update(&mut self, key: RootKey) -> (r: bool)
        requires
            old(self).wf(),
        ensures
            final(self).wf(),
            final(self).spec_formatted().spec_log() == old(self).spec_formatted().spec_log(),
            old(self).spec_widget() == SelectedWidget::Log && (key == RootKey::Tab || key
                == RootKey::BackTab) ==> r && final(self).spec_widget() == SelectedWidget::Log
                && final(self).spec_tab() != old(self).spec_tab(),
            old(self).spec_widget() == SelectedWidget::Log && key == RootKey::Char('i') ==> r
                && final(self).spec_widget() == SelectedWidget::CommandInput && final(self).spec_tab()
                == old(self).spec_tab(),
            old(self).spec_widget() == SelectedWidget::CommandInput && key == RootKey::Esc ==> r
                && final(self).spec_widget() == SelectedWidget::Log && final(self).spec_tab()
                == old(self).spec_tab(),
            old(self).spec_widget() == SelectedWidget::CommandInput && key != RootKey::Esc ==> final(self).spec_widget() == SelectedWidget::CommandInput && final(self).spec_tab() == old(self).spec_tab() && final(self).spec_formatted() == old(self).spec_formatted() && (
            old(self).spec_command() is None ==> !r) && (edit_key_of(key) is None ==> !r),
            old(self).spec_widget() == SelectedWidget::Log && key != RootKey::Tab && key
                != RootKey::BackTab && key != RootKey::Char('i') ==> final(self).spec_widget()
                == SelectedWidget::Log && final(self).spec_tab() == old(self).spec_tab()
                && final(self).spec_command() == old(self).spec_command(),
            old(self).spec_widget() == SelectedWidget::Log && key != RootKey::Tab && key
                != RootKey::BackTab && key != RootKey::Char('i') && old(self).spec_tab()
                == SelectedTab::RawLog ==> final(self).spec_formatted() == old(self).spec_formatted()
                && match scroll_key_of(key) {
                Some(k) => r && final(self).spec_raw().spec_lines() == old(self).spec_raw().spec_lines()
                    && final(self).spec_raw().spec_paragraph() == scrolled(
                    old(self).spec_raw().spec_paragraph(),
                    k,
                ),
                None => !r && final(self).spec_raw() == old(self).spec_raw(),
            },
            old(self).spec_widget() == SelectedWidget::Log && key != RootKey::Tab && key
                != RootKey::BackTab && key != RootKey::Char('i') && old(self).spec_tab()
                == SelectedTab::FormattedLog ==> final(self).spec_raw() == old(self).spec_raw() && (
            view_key_of(key) is None ==> !r && final(self).spec_formatted() == old(self).spec_formatted()),
    {
        match self.selected_widget {
            SelectedWidget::Log => match key {
                RootKey::Tab | RootKey::BackTab => {
                    self.selected_tab =
                    match self.selected_tab {
                        SelectedTab::FormattedLog => SelectedTab::RawLog,
                        SelectedTab::RawLog => SelectedTab::FormattedLog,
                    };
                    true
                },
                RootKey::Char('i') => {
                    self.selected_widget = SelectedWidget::CommandInput;
                    true
                },
                _ => match self.selected_tab {
                    SelectedTab::FormattedLog => match view_key(key) {
                        Some(k) => self.formatted_log_state.update(k),
                        None => false,
                    },
                    SelectedTab::RawLog => match scroll_key(key) {
                        Some(k) => self.raw_log_state.update(k),
                        None => false,
                    },
                },
            },
            SelectedWidget::CommandInput => match key {
                RootKey::Esc => {
                    self.selected_widget = SelectedWidget::Log;
                    true
                },
                _ => match edit_key(key) {
                    Some(k) => match &mut self.command_input_state {
                        Some(state) => state.update(k),
                        None => false,
                    },
                    None => false,
                },
            },
        }
    }

    /// Hands out the commands submitted in the editor, oldest first.
    pub fn take_commands(&mut self) -> (r: Vec<String>)
        requires
            old(self).wf(),
        ensures
            final(self).wf(),
            final(self).spec_formatted() == old(self).spec_formatted(),
            final(self).spec_widget() == old(self).spec_widget(),
            final(self).spec_tab() == old(self).spec_tab(),
            old(self).spec_command() matches Some(c) ==> r@.map_values(|s: String| s@)
                == c.spec_submitted(),
            old(self).spec_command() is None ==> r@.len() == 0,
    {
        match &mut self.command_input_state {
            Some(state) => state.take_submitted(),
            None => Vec::new(),
        }
    }

    /// The viewer over `new_log`, keeping tabs, focus, editor, scroll
    /// positions and filter flags.
    pub fn with_log<'b>(self, new_log: &'b Log) -> (r: RootState<'b>)
        requires
            self.wf(),
            new_log.wf(),
        ensures
            r.wf(),
            r.spec_formatted().spec_log() == new_log,
            r.spec_formatted().spec_filters().spec_levels() == self.spec_formatted().spec_filters().spec_levels(),
            forall|s: Seq<char>|
                distinct_sources(new_log.spec_messages()).contains(s) ==> crate::filters::source_entry(
                    r.spec_formatted().spec_filters().spec_sources(),
                    s,
                ) == Some(
                    crate::filters::source_flag(self.spec_formatted().spec_filters().spec_sources(), s),
                ),
            r.spec_command() == self.spec_command(),
            r.spec_widget() == self.spec_widget(),
            r.spec_tab() == self.spec_tab(),
    {
        RootState {
            formatted_log_state: self.formatted_log_state.with_log(new_log),
            raw_log_state: self.raw_log_state.with_log(new_log),
            command_input_state: self.command_input_state,
            selected_widget: self.selected_widget,
            selected_tab: self.selected_tab,
        }
    }
}

} // verus!
