//! The interactive session: the pattern being typed, the selection in the
//! list of matches, the help overlay and the request to leave, driven by key
//! events and by the ticks that let the matcher work.

use crate::domain::{Org, Repo};
use crate::engine::all_matches;
use crate::matcher::{names_of, stands_for, RepoItem, RepoMatcher};
use crate::ranking::Ranked;
use vstd::prelude::*;
use vstd::string::StringExecFns;

verus! {

/// The key of a key event.
#[derive(Debug, Clone, Copy, PartialEq, Eq, Structural)]
pub enum KeyCode {
    Char(char),
    Backspace,
    Up,
    Down,
    Enter,
    Esc,
    Other,
}

/// A key event: the key, and whether Control was held.
#[derive(Debug, Clone, Copy, PartialEq, Eq, Structural)]
pub struct KeyEvent {
    pub code: KeyCode,
    pub ctrl: bool,
}

/// The page of an item that a Control shortcut opens, as the text to put
/// behind the item's address.
pub open spec fn view_suffix(c: char) -> Option<Seq<char>> {
    if c == 'a' {
        Some("/actions"@)
    } else if c == 'i' {
        Some("/issues"@)
    } else if c == 'p' {
        Some("/pulls"@)
    } else if c == 'm' {
        Some("/milestones"@)
    } else {
        None
    }
}

/// What the frame loop does after an event.
#[derive(Debug, Clone, PartialEq, Eq)]
pub enum Flow {
    /// Go on with the next frame.
    Continue,
    /// End the session and open nothing.
    Quit,
    /// End the session and open this address.
    Open(String),
}

/// The address that the frame loop is told to open, if any.
pub open spec fn opened(flow: Flow) -> Option<String> {
    match flow {
        Flow::Open(address) => Some(address),
        _ => None,
    }
}

/// Whether the event is an interrupt: Control with `c` or with `d`.
pub open spec fn is_interrupt(key: KeyEvent) -> bool {
    key.ctrl && (key.code == KeyCode::Char('c') || key.code == KeyCode::Char('d'))
}

/// The state of a session.
pub struct App {
    matcher: RepoMatcher,
    selected_index: usize,
    input_pattern: String,
    should_exit: bool,
    show_help: bool,
    total_orgs: usize,
    total_repos: usize,
}

impl App {
    /// The matcher behind the session.
    pub closed spec fn matcher(&self) -> RepoMatcher {
        self.matcher
    }

    /// The pattern typed so far.
    pub closed spec fn pattern(&self) -> Seq<char> {
        self.input_pattern@
    }

    /// The position of the selection in the list of matches.
    pub closed spec fn selected(&self) -> nat {
        self.selected_index as nat
    }

    /// Whether leaving was requested.
    pub closed spec fn exit_requested(&self) -> bool {
        self.should_exit
    }

    /// Whether the help overlay is shown.
    pub closed spec fn help_visible(&self) -> bool {
        self.show_help
    }

    /// The number of organisations and of repositories in the list.
    pub closed spec fn totals(&self) -> (nat, nat) {
        (self.total_orgs as nat, self.total_repos as nat)
    }

    /// The matches in the order in which they are shown.
    pub open spec fn shown(&self) -> Seq<Ranked> {
        self.matcher().order()
    }

    /// The number of matches.
    pub open spec fn count(&self) -> nat {
        self.matcher().results().len()
    }

    /// The selection points into the list of matches, or is zero when the
    /// list is empty.
    pub open spec fn selection_in_range(&self) -> bool {
        &&& self.count() > 0 ==> self.selected() < self.count()
        &&& self.count() == 0 ==> self.selected() == 0
    }

    /// The matcher is sound and works on the typed pattern, and the selection
    /// is in range.
    pub open spec fn wf(&self) -> bool {
        &&& self.matcher().wf()
        &&& self.matcher().pattern() == self.pattern()
        &&& self.selection_in_range()
    }

    /// The selected item, if the list of matches is not empty.
    pub open spec fn selection(&self) -> Option<RepoItem> {
        if self.selected() < self.shown().len() {
            Some(self.matcher().shown_item(self.selected() as int))
        } else {
            None
        }
    }

    /// Everything but the selection, the help overlay and the request to
    /// leave is the same in `self` and `other`.
    pub open spec fn same_search(&self, other: &App) -> bool {
        &&& self.matcher().items() == other.matcher().items()
        &&& self.matcher().now() == other.matcher().now()
        &&& self.matcher().results() == other.matcher().results()
        &&& self.matcher().is_pending() == other.matcher().is_pending()
        &&& self.pattern() == other.pattern()
        &&& self.totals() == other.totals()
    }

    /// A session over `repos` and `orgs`, with past use measured against
    /// `now`: empty pattern, selection at the top, no help, no match yet.
    pub fn new_at(repos: Vec<Repo>, orgs: Vec<Org>, now: i64) -> (app: App)
        ensures
            app.wf(),
            app.pattern().len() == 0,
            app.selected() == 0,
            !app.exit_requested(),
            !app.help_visible(),
            app.count() == 0,
            app.totals() == (orgs.len() as nat, repos.len() as nat),
            app.matcher().now() == now,
            app.matcher().items().len() == repos.len() + orgs.len(),
            forall|i: int|
                0 <= i < repos.len() ==> (#[trigger] app.matcher().items()[i]).repo == repos[i]
                    && app.matcher().items()[i].wf(),
            forall|j: int|
                0 <= j < orgs.len() ==> stands_for(
                    (#[trigger] app.matcher().items()[repos.len() + j]).repo,
                    orgs[j],
                ) && app.matcher().items()[repos.len() + j].wf(),
            app.matcher().is_pending(),
    {
        let total_orgs = orgs.len();
        let total_repos = repos.len();
        let matcher = RepoMatcher::new_at(repos, orgs, now);
        assert(matcher.pattern() =~= Seq::empty());
        App {
            matcher,
            selected_index: 0,
            input_pattern: String::new(),
            should_exit: false,
            show_help: false,
            total_orgs,
            total_repos,
        }
    }

    /// As `new_at`, with past use measured against the instant the clock
    /// shows.
    pub fn new(repos: Vec<Repo>, orgs: Vec<Org>) -> (app: App)
        ensures
            app.wf(),
            app.pattern().len() == 0,
            app.selected() == 0,
            !app.exit_requested(),
            !app.help_visible(),
            app.count() == 0,
            app.totals() == (orgs.len() as nat, repos.len() as nat),
            app.matcher().items().len() == repos.len() + orgs.len(),
            forall|i: int|
                0 <= i < repos.len() ==> (#[trigger] app.matcher().items()[i]).repo == repos[i]
                    && app.matcher().items()[i].wf(),
            forall|j: int|
                0 <= j < orgs.len() ==> stands_for(
                    (#[trigger] app.matcher().items()[repos.len() + j]).repo,
                    orgs[j],
                ) && app.matcher().items()[repos.len() + j].wf(),
            app.matcher().is_pending(),
    {
        let total_orgs = orgs.len();
        let total_repos = repos.len();
        let matcher = RepoMatcher::new(repos, orgs);
        assert(matcher.pattern() =~= Seq::empty());
        App {
            matcher,
            selected_index: 0,
            input_pattern: String::new(),
            should_exit: false,
            show_help: false,
            total_orgs,
            total_repos,
        }
    }

    /// The matches, best first.
    pub fn matches(&self) -> (shown: Vec<&RepoItem>)
        requires
            self.wf(),
        ensures
            shown.len() == self.shown().len(),
            forall|k: int|
                0 <= k < shown.len() ==> *(#[trigger] shown[k]) == self.matcher().shown_item(k),
    {
        self.matcher.matches_sorted()
    }

    /// The number of matches.
    pub fn match_count(&self) -> (count: usize)
        requires
            self.wf(),
        ensures
            count == self.count(),
            count == self.shown().len(),
    {
        self.matcher.match_count()
    }

    /// The selected item, if the list of matches is not empty.
    pub fn selected_item(&self) -> (item: Option<&RepoItem>)
        requires
            self.wf(),
        ensures
            item.is_some() == (self.count() > 0),
            match item {
                Some(found) => Some(*found) == self.selection(),
                None => self.selection().is_none(),
            },
    {
        let shown = self.matcher.matches_sorted();
        proof {
            self.matcher.lemma_order_is_ranking();
        }
        if self.selected_index < shown.len() {
            Some(shown[self.selected_index])
        } else {
            None
        }
    }

    /// A character was typed: it is added to the pattern, the matcher is told
    /// and the selection returns to the top.
    pub fn on_char(&mut self, c: char)
        requires
            old(self).wf(),
        ensures
            final(self).wf(),
            final(self).pattern() == old(self).pattern().push(c),
            final(self).selected() == 0,
            final(self).matcher().is_pending(),
            final(self).matcher().items() == old(self).matcher().items(),
            final(self).matcher().now() == old(self).matcher().now(),
            final(self).matcher().results() == old(self).matcher().results(),
            final(self).exit_requested() == old(self).exit_requested(),
            final(self).help_visible() == old(self).help_visible(),
            final(self).totals() == old(self).totals(),
    {
        self.input_pattern.push(c);
        self.matcher.update_pattern(self.input_pattern.clone());
        self.selected_index = 0;
    }

    /// The last character of the pattern, if there is one, is removed; the
    /// matcher is told and the selection returns to the top.
    pub fn on_backspace(&mut self)
        requires
            old(self).wf(),
        ensures
            final(self).wf(),
            final(self).pattern() == if old(self).pattern().len() > 0 {
                old(self).pattern().drop_last()
            } else {
                old(self).pattern()
            },
            final(self).selected() == 0,
            final(self).matcher().is_pending(),
            final(self).matcher().items() == old(self).matcher().items(),
            final(self).matcher().now() == old(self).matcher().now(),
            final(self).matcher().results() == old(self).matcher().results(),
            final(self).exit_requested() == old(self).exit_requested(),
            final(self).help_visible() == old(self).help_visible(),
            final(self).totals() == old(self).totals(),
    {
        self.input_pattern.pop();
        self.matcher.update_pattern(self.input_pattern.clone());
        self.selected_index = 0;
    }

    /// The selection moves up by one place, unless it is at the top.
    pub fn on_up(&mut self)
        requires
            old(self).wf(),
        ensures
            final(self).wf(),
            final(self).same_search(old(self)),
            final(self).exit_requested() == old(self).exit_requested(),
            final(self).help_visible() == old(self).help_visible(),
            final(self).selected() == if old(self).selected() > 0 {
                (old(self).selected() - 1) as nat
            } else {
                0
            },
    {
        let count = self.matcher.match_count();
        if count > 0 && self.selected_index > 0 {
            self.selected_index = self.selected_index - 1;
        }
    }

    /// The selection moves down by one place, unless it is at the bottom.
    pub fn on_down(&mut self)
        requires
            old(self).wf(),
        ensures
            final(self).wf(),
            final(self).same_search(old(self)),
            final(self).exit_requested() == old(self).exit_requested(),
            final(self).help_visible() == old(self).help_visible(),
            final(self).selected() == if old(self).selected() + 1 < old(self).count() {
                old(self).selected() + 1
            } else {
                old(self).selected()
            },
    {
        let count = self.matcher.match_count();
        if count > 0 && self.selected_index + 1 < count {
            self.selected_index = self.selected_index + 1;
        }
    }

    /// Confirm: the address of the selected item, or nothing when no item is
    /// selected. The session is left as it is.
    pub fn on_enter(&self) -> (target: Option<String>)
        requires
            self.wf(),
        ensures
            target.is_some() == (self.count() > 0),
            match target {
                Some(address) => self.selection().is_some() && address@
                    == self.selection().unwrap().url@,
                None => self.selection().is_none(),
            },
    {
        match self.selected_item() {
            Some(item) => Some(item.url.clone()),
            None => None,
        }
    }

    /// A Control shortcut: the address of the page of the selected item that
    /// `c` stands for, or nothing when no item is selected or `c` stands for
    /// no page. The session is left as it is.
    pub fn on_ctrl_key(&self, c: char) -> (target: Option<String>)
        requires
            self.wf(),
        ensures
            target.is_some() == (self.count() > 0 && view_suffix(c).is_some()),
            match target {
                Some(address) => self.selection().is_some() && view_suffix(c).is_some() && address@
                    == self.selection().unwrap().url@ + view_suffix(c).unwrap(),
                None => true,
            },
    {
        let item = match self.selected_item() {
            Some(item) => item,
            None => {
                return None;
            },
        };
        let suffix = if c == 'a' {
            "/actions"
        } else if c == 'i' {
            "/issues"
        } else if c == 'p' {
            "/pulls"
        } else if c == 'm' {
            "/milestones"
        } else {
            return None;
        };
        Some(item.url.clone().concat(suffix))
    }

    /// Leaving is requested.
    pub fn on_exit(&mut self)
        requires
            old(self).wf(),
        ensures
            final(self).wf(),
            final(self).exit_requested(),
            final(self).same_search(old(self)),
            final(self).selected() == old(self).selected(),
            final(self).help_visible() == old(self).help_visible(),
    {
        self.should_exit = true;
    }

    /// The help overlay is shown if it was hidden, and hidden if it was shown.
    pub fn toggle_help(&mut self)
        requires
            old(self).wf(),
        ensures
            final(self).wf(),
            final(self).help_visible() == !old(self).help_visible(),
            final(self).same_search(old(self)),
            final(self).selected() == old(self).selected(),
            final(self).exit_requested() == old(self).exit_requested(),
    {
        self.show_help = !self.show_help;
    }

    /// Whether leaving was requested.
    pub fn should_exit(&self) -> (r: bool)
        ensures
            r == self.exit_requested(),
    {
        self.should_exit
    }

    /// Whether the help overlay is shown.
    pub fn show_help(&self) -> (r: bool)
        ensures
            r == self.help_visible(),
    {
        self.show_help
    }

    /// The pattern typed so far.
    pub fn input_pattern(&self) -> (r: &str)
        ensures
            r@ == self.pattern(),
    {
        self.input_pattern.as_str()
    }

    /// The position of the selection in the list of matches.
    pub fn selected_index(&self) -> (r: usize)
        ensures
            r == self.selected(),
    {
        self.selected_index
    }

    /// The number of organisations in the list.
    pub fn total_orgs(&self) -> (r: usize)
        ensures
            r == self.totals().0,
    {
        self.total_orgs
    }

    /// The number of repositories in the list.
    pub fn total_repos(&self) -> (r: usize)
        ensures
            r == self.totals().1,
    {
        self.total_repos
    }

    /// Lets the matcher work for one tick. When a scan finishes in it, the
    /// list of matches is replaced and the selection returns to the top; with
    /// no scan to finish, nothing changes.
    pub fn tick(&mut self)
        requires
            old(self).wf(),
        ensures
            final(self).wf(),
            final(self).pattern() == old(self).pattern(),
            final(self).totals() == old(self).totals(),
            final(self).exit_requested() == old(self).exit_requested(),
            final(self).help_visible() == old(self).help_visible(),
            final(self).matcher().items() == old(self).matcher().items(),
            final(self).matcher().now() == old(self).matcher().now(),
            !old(self).matcher().is_pending() ==> final(self).same_search(old(self))
                && final(self).selected() == old(self).selected(),
            final(self).matcher().is_pending() ==> final(self).same_search(old(self))
                && final(self).selected() == old(self).selected() && final(
                self
            ).matcher().engine().progress() > old(self).matcher().engine().progress(),
            old(self).matcher().is_pending() && !final(self).matcher().is_pending() ==> final(
                self
            ).selected() == 0 && final(self).matcher().results() == all_matches(
                names_of(old(self).matcher().items()),
                old(self).pattern(),
            ),
    {
        let was_pending = self.matcher.has_pending_work();
        self.matcher.tick();
        if was_pending && !self.matcher.has_pending_work() {
            self.selected_index = 0;
        }
    }

    /// What the key event `key` makes of the session `before`: the session
    /// `after` and the address `target` to open, if any.
    ///
    /// With Control held, a character is a shortcut to a page of the selected
    /// item. Without it, `?` toggles the help overlay and any other character
    /// is typed into the pattern. Backspace, Up, Down, Enter and Esc delete,
    /// move, confirm and leave; other keys do nothing.
    pub open spec fn key_effect(
        before: &App,
        after: &App,
        key: KeyEvent,
        target: Option<String>,
    ) -> bool {
        match key.code {
            KeyCode::Char(c) => if key.ctrl {
                &&& after.same_search(before)
                &&& after.selected() == before.selected()
                &&& target.is_some() == (before.count() > 0 && view_suffix(c).is_some())
                &&& target matches Some(address) ==> address@
                    == before.selection().unwrap().url@ + view_suffix(c).unwrap()
            } else if c == '?' {
                &&& target.is_none()
                &&& after.same_search(before)
                &&& after.selected() == before.selected()
                &&& after.help_visible() == !before.help_visible()
            } else {
                &&& target.is_none()
                &&& after.pattern() == before.pattern().push(c)
                &&& after.selected() == 0
                &&& after.matcher().is_pending()
            },
            KeyCode::Backspace => {
                &&& target.is_none()
                &&& after.pattern() == if before.pattern().len() > 0 {
                    before.pattern().drop_last()
                } else {
                    before.pattern()
                }
                &&& after.selected() == 0
                &&& after.matcher().is_pending()
            },
            KeyCode::Up => {
                &&& target.is_none()
                &&& after.same_search(before)
                &&& after.selected() == if before.selected() > 0 {
                    (before.selected() - 1) as nat
                } else {
                    0
                }
            },
            KeyCode::Down => {
                &&& target.is_none()
                &&& after.same_search(before)
                &&& after.selected() == if before.selected() + 1 < before.count() {
                    before.selected() + 1
                } else {
                    before.selected()
                }
            },
            KeyCode::Enter => {
                &&& after.same_search(before)
                &&& after.selected() == before.selected()
                &&& target.is_some() == (before.count() > 0)
                &&& target matches Some(address) ==> address@ == before.selection().unwrap().url@
            },
            KeyCode::Esc => {
                &&& target.is_none()
                &&& after.same_search(before)
                &&& after.selected() == before.selected()
                &&& after.exit_requested()
            },
            KeyCode::Other => {
                &&& target.is_none()
                &&& after.same_search(before)
                &&& after.selected() == before.selected()
            },
        }
    }

    /// Handles one key event, as `key_effect` says, and returns the address
    /// to open, if the event asks for one.
    pub fn handle_key_event(&mut self, key: KeyEvent) -> (target: Option<String>)
        requires
            old(self).wf(),
        ensures
            final(self).wf(),
            final(self).totals() == old(self).totals(),
            final(self).matcher().items() == old(self).matcher().items(),
            final(self).matcher().now() == old(self).matcher().now(),
            final(self).matcher().results() == old(self).matcher().results(),
            target.is_some() ==> final(self).same_search(old(self)) && final(self).selected()
                == old(self).selected() && old(self).selection().is_some(),
            App::key_effect(old(self), final(self), key, target),
            !(key.code is Esc) ==> final(self).exit_requested() == old(self).exit_requested(),
            !(key.code matches KeyCode::Char(c) && !key.ctrl && c == '?') ==> final(
                self
            ).help_visible() == old(self).help_visible(),
    {
        match key.code {
            KeyCode::Char(c) => {
                if key.ctrl {
                    return self.on_ctrl_key(c);
                }
                if c == '?' {
                    self.toggle_help();
                } else {
                    self.on_char(c);
                }
                None
            },
            KeyCode::Backspace => {
                self.on_backspace();
                None
            },
            KeyCode::Up => {
                self.on_up();
                None
            },
            KeyCode::Down => {
                self.on_down();
                None
            },
            KeyCode::Enter => self.on_enter(),
            KeyCode::Esc => {
                self.on_exit();
                None
            },
            KeyCode::Other => None,
        }
    }

    /// Handles one event of the frame loop and says how the loop goes on: an
    /// interrupt requests leaving, as Esc does; any other event is handled
    /// as a key event, and an address that it gives ends the session.
    pub fn dispatch(&mut self, key: KeyEvent) -> (flow: Flow)
        requires
            old(self).wf(),
        ensures
            final(self).wf(),
            final(self).totals() == old(self).totals(),
            final(self).matcher().items() == old(self).matcher().items(),
            final(self).matcher().now() == old(self).matcher().now(),
            final(self).matcher().results() == old(self).matcher().results(),
            is_interrupt(key) ==> flow == Flow::Quit && final(self).exit_requested()
                && final(self).same_search(old(self)) && final(self).selected() == old(
                self
            ).selected() && final(self).help_visible() == old(self).help_visible(),
            flow == Flow::Quit <==> final(self).exit_requested() && !(flow is Open),
            flow is Open ==> !is_interrupt(key) && old(self).selection().is_some()
                && final(self).same_search(old(self)) && final(self).selected() == old(
                self
            ).selected(),
            !is_interrupt(key) ==> App::key_effect(old(self), final(self), key, opened(flow)),
            !is_interrupt(key) && !(key.code is Esc) ==> final(self).exit_requested() == old(
                self
            ).exit_requested(),
            !(key.code matches KeyCode::Char(c) && !key.ctrl && c == '?') ==> final(
                self
            ).help_visible() == old(self).help_visible(),
    {
        let interrupt = key.ctrl && match key.code {
            KeyCode::Char(c) => c == 'c' || c == 'd',
            _ => false,
        };
        if interrupt {
            self.on_exit();
            return Flow::Quit;
        }
        match self.handle_key_event(key) {
            Some(address) => Flow::Open(address),
            None => {
                if self.should_exit {
                    Flow::Quit
                } else {
                    Flow::Continue
                }
            },
        }
    }
}

} // verus!
