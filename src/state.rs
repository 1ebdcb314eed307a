use vstd::prelude::*;
use crate::catalog::{build_catalog, filtered, is_catalog};
use crate::cpu::CpuUsage;
use crate::cursor::{after_first, after_last, after_next, after_previous, effective, Cursor};
use crate::info::Info;
use crate::process::{contains_pid, has_pid, Proc};
use crate::ram::Ram;
use crate::sort::{is_permutation, lemma_sorted_same_pids, sorted_by, stable_sorted, ProcessSortStrategy};
use crate::text::{pop_char, push_char};

verus! {

/// The screen in front; every screen but `Main` is a popup over the table.
#[derive(Clone, Copy, Debug, PartialEq, Eq, Structural)]
pub enum CurrentScreen {
    Main,
    ProcInfo,
    Filter,
    SysInfo,
    Help,
    KillConfirm,
}

/// A key press, as far as the screens tell keys apart.
#[derive(Clone, Copy, Debug, PartialEq, Eq, Structural)]
pub enum Key {
    Char(char),
    Esc,
    Enter,
    Backspace,
    Other,
}

/// What the caller is to do after a key press.
#[derive(Clone, Copy, Debug, PartialEq, Eq, Structural)]
pub enum Action {
    Nothing,
    /// Send the process the termination signal, then sample the host again
    /// and hand the result to `State::refresh`.
    Terminate(u32),
}

/// Everything the monitor shows and remembers between two key presses.
///
/// `snapshot` is the provider's latest process list in enumeration order;
/// `processes` is the catalog derived from it: the processes that `filter`
/// keeps, in the order of `process_sort_strategy`. `current_pid_watch` is
/// the process that the detail or kill popup is about.
pub struct State {
    pub exit: bool,
    pub snapshot: Vec<Proc>,
    pub processes: Vec<Proc>,
    pub cpus: Vec<CpuUsage>,
    pub ram: Ram,
    pub info: Info,
    pub processes_state: Cursor,
    pub process_sort_strategy: ProcessSortStrategy,
    pub current_screen: CurrentScreen,
    pub current_pid_watch: Option<u32>,
    pub filter: String,
}

/// Whether the screen is about one process.
pub open spec fn watches_process(screen: CurrentScreen) -> bool {
    screen == CurrentScreen::ProcInfo || screen == CurrentScreen::KillConfirm
}

/// Whether the key re-derives the catalog on that screen.
pub open spec fn rebuilds(screen: CurrentScreen, key: Key) -> bool {
    match screen {
        CurrentScreen::Main => key == Key::Char('s') || key == Key::Backspace,
        CurrentScreen::Filter => key is Char || key == Key::Esc || key == Key::Backspace,
        _ => false,
    }
}

/// Whether the key closes the popup in front.
pub open spec fn closes(screen: CurrentScreen, key: Key) -> bool {
    match screen {
        CurrentScreen::Main => false,
        CurrentScreen::ProcInfo => key == Key::Char('d') || key == Key::Esc,
        CurrentScreen::Filter => key == Key::Esc || key == Key::Enter,
        CurrentScreen::SysInfo => key == Key::Esc || key == Key::Char('i'),
        CurrentScreen::Help => key == Key::Esc || key == Key::Char('h'),
        CurrentScreen::KillConfirm => key == Key::Esc || key == Key::Char('n') || key == Key::Char(
            'N',
        ) || key == Key::Char('y') || key == Key::Char('Y'),
    }
}

impl State {
    /// The catalog is derived from the snapshot, filter and strategy; a
    /// process is watched exactly while a screen about one is in front, and
    /// the watched process is one the catalog holds.
    pub open spec fn wf(&self) -> bool {
        &&& is_catalog(self.snapshot@, self.filter@, self.process_sort_strategy, self.processes@)
        &&& (self.current_pid_watch is Some <==> watches_process(self.current_screen))
        &&& (self.current_pid_watch matches Some(p) ==> has_pid(self.processes@, p))
    }

    /// This state with the selection set to `sel`.
    pub open spec fn with_selection(self, sel: Option<usize>) -> State {
        State { processes_state: Cursor { selected: sel }, ..self }
    }

    /// Whether `post`, whose catalog was derived again, kept the screen in
    /// front, but for a popup about a process that the new catalog no longer
    /// holds: that one has closed and the watch is cleared.
    pub open spec fn reconciled(&self, post: &State) -> bool {
        match self.current_pid_watch {
            Some(pid) => if has_pid(post.processes@, pid) {
                post.current_screen == self.current_screen && post.current_pid_watch
                    == self.current_pid_watch
            } else {
                post.current_screen == CurrentScreen::Main && post.current_pid_watch is None
            },
            None => post.current_screen == self.current_screen && post.current_pid_watch is None,
        }
    }

    /// The row the cursor highlights, if it lies within the catalog.
    pub open spec fn selected_row(&self) -> Option<usize> {
        effective(self.processes_state.selected, self.processes@.len())
    }

    /// The screen after `key`.
    pub open spec fn screen_after(&self, key: Key) -> CurrentScreen {
        if closes(self.current_screen, key) {
            CurrentScreen::Main
        } else if self.current_screen == CurrentScreen::Main {
            if key == Key::Char('d') && self.selected_row() is Some {
                CurrentScreen::ProcInfo
            } else if key == Key::Char('K') && self.selected_row() is Some {
                CurrentScreen::KillConfirm
            } else if key == Key::Char('i') {
                CurrentScreen::SysInfo
            } else if key == Key::Char('h') {
                CurrentScreen::Help
            } else if key == Key::Char('f') {
                CurrentScreen::Filter
            } else {
                CurrentScreen::Main
            }
        } else {
            self.current_screen
        }
    }

    /// The watched process after `key`: the selected row's pid when a popup
    /// about it opens, none once a popup about one closes.
    pub open spec fn target_after(&self, key: Key) -> Option<u32> {
        if self.current_screen == CurrentScreen::Main && (key == Key::Char('d') || key == Key::Char(
            'K',
        )) && self.selected_row() is Some {
            Some(self.processes@[self.selected_row().unwrap() as int].pid)
        } else if watches_process(self.current_screen) && closes(self.current_screen, key) {
            None
        } else {
            self.current_pid_watch
        }
    }

    /// The filter text after `key`: typing edits it on the filter screen,
    /// Esc there and Backspace on the main screen clear it.
    pub open spec fn filter_after(&self, key: Key) -> Seq<char> {
        match self.current_screen {
            CurrentScreen::Main => if key == Key::Backspace {
                Seq::empty()
            } else {
                self.filter@
            },
            CurrentScreen::Filter => match key {
                Key::Char(c) => self.filter@.push(c),
                Key::Backspace => if self.filter@.len() == 0 {
                    self.filter@
                } else {
                    self.filter@.drop_last()
                },
                Key::Esc => Seq::empty(),
                _ => self.filter@,
            },
            _ => self.filter@,
        }
    }

    /// The selection after `key`: navigation keys on the main screen move
    /// it over the catalog, Esc there clears it.
    pub open spec fn selection_after(&self, key: Key) -> Option<usize> {
        let sel = self.processes_state.selected;
        let n = self.processes@.len();
        if self.current_screen != CurrentScreen::Main {
            sel
        } else if key == Key::Char('j') {
            after_next(sel, n)
        } else if key == Key::Char('k') {
            after_previous(sel, n)
        } else if key == Key::Char('g') {
            after_first(sel, n)
        } else if key == Key::Char('G') {
            after_last(sel, n)
        } else if key == Key::Esc {
            None
        } else {
            sel
        }
    }

    /// The strategy after `key`: `s` on the main screen moves to the next.
    pub open spec fn strategy_after(&self, key: Key) -> ProcessSortStrategy {
        if self.current_screen == CurrentScreen::Main && key == Key::Char('s') {
            self.process_sort_strategy.spec_next()
        } else {
            self.process_sort_strategy
        }
    }

    /// What `key` asks of the caller: confirming the kill popup terminates
    /// the watched process if the catalog still holds it, and nothing
    /// else terminates anything.
    pub open spec fn action_after(&self, key: Key) -> Action {
        if self.current_screen == CurrentScreen::KillConfirm && (key == Key::Char('y') || key
            == Key::Char('Y')) && self.current_pid_watch is Some && has_pid(
            self.processes@,
            self.current_pid_watch.unwrap(),
        ) {
            Action::Terminate(self.current_pid_watch.unwrap())
        } else {
            Action::Nothing
        }
    }

    /// A monitor with no sample taken yet: an empty catalog sorted by CPU
    /// usage, no filter, no selection, the main screen in front.
    pub fn new() -> (r: State)
        ensures
            r.wf(),
            !r.exit,
            r.snapshot@.len() == 0,
            r.processes@.len() == 0,
            r.cpus@.len() == 0,
            r.ram.total == 0 && r.ram.total_swap == 0,
            r.processes_state.selected is None,
            r.process_sort_strategy == ProcessSortStrategy::CpuUsage,
            r.current_screen == CurrentScreen::Main,
            r.current_pid_watch is None,
            r.filter@.len() == 0,
    {
        let r = State {
            exit: false,
            snapshot: Vec::new(),
            processes: Vec::new(),
            cpus: Vec::new(),
            ram: Ram::new(),
            info: Info::unknown(),
            processes_state: Cursor::new(),
            process_sort_strategy: ProcessSortStrategy::CpuUsage,
            current_screen: CurrentScreen::Main,
            current_pid_watch: None,
            filter: String::new(),
        };
        proof {
            reveal(Seq::filter);
            let perm = Seq::<int>::empty();
            assert(is_permutation(perm, 0));
            assert(sorted_by(r.process_sort_strategy, Seq::empty(), r.processes@, perm));
            assert(filtered(r.snapshot@, r.filter@) =~= Seq::<Proc>::empty());
            assert(stable_sorted(r.process_sort_strategy, Seq::empty(), r.processes@));
        }
        r
    }

    /// Derives the catalog again from the held snapshot, then closes a
    /// popup whose process the catalog no longer holds.
    pub fn refresh_procs(&mut self)
        ensures
            is_catalog(
                final(self).snapshot@,
                final(self).filter@,
                final(self).process_sort_strategy,
                final(self).processes@,
            ),
            final(self).snapshot == old(self).snapshot,
            final(self).filter == old(self).filter,
            final(self).process_sort_strategy == old(self).process_sort_strategy,
            final(self).exit == old(self).exit,
            final(self).cpus == old(self).cpus,
            final(self).ram == old(self).ram,
            final(self).info == old(self).info,
            final(self).processes_state == old(self).processes_state,
            old(self).reconciled(final(self)),
    {
        self.processes = build_catalog(&self.snapshot, self.filter.as_str(), self.process_sort_strategy);
        match self.current_pid_watch {
            Some(pid) => {
                if !contains_pid(&self.processes, pid) {
                    self.current_pid_watch = None;
                    self.current_screen = CurrentScreen::Main;
                }
            },
            None => {},
        }
    }

    /// Takes a new sample from the provider: the process list in the
    /// provider's order, the memory figures and the CPU figures. The catalog
    /// is derived again with the filter and strategy in force, and a popup
    /// about a process that is gone closes.
    pub fn refresh(&mut self, snapshot: Vec<Proc>, ram: Ram, cpus: Vec<CpuUsage>)
        requires
            old(self).wf(),
        ensures
            final(self).wf(),
            final(self).snapshot == snapshot,
            final(self).ram == ram,
            final(self).cpus == cpus,
            final(self).filter == old(self).filter,
            final(self).process_sort_strategy == old(self).process_sort_strategy,
            final(self).exit == old(self).exit,
            final(self).info == old(self).info,
            final(self).processes_state == old(self).processes_state,
            old(self).reconciled(final(self)),
    {
        self.snapshot = snapshot;
        self.ram = ram;
        self.cpus = cpus;
        self.refresh_procs();
    }

    /// Moves to the next sort strategy and re-sorts the held snapshot.
    pub fn next_sort_strategy(&mut self)
        requires
            old(self).wf(),
        ensures
            final(self).wf(),
            final(self).process_sort_strategy == old(self).process_sort_strategy.spec_next(),
            final(self).snapshot == old(self).snapshot,
            final(self).filter == old(self).filter,
            final(self).current_screen == old(self).current_screen,
            final(self).current_pid_watch == old(self).current_pid_watch,
            final(self).processes_state == old(self).processes_state,
            final(self).exit == old(self).exit,
            final(self).cpus == old(self).cpus,
            final(self).ram == old(self).ram,
            final(self).info == old(self).info,
    {
        self.process_sort_strategy = self.process_sort_strategy.next();
        self.refresh_procs();
        proof {
            if let Some(p) = old(self).current_pid_watch {
                let kept = filtered(self.snapshot@, self.filter@);
                lemma_sorted_same_pids(old(self).process_sort_strategy, kept, old(self).processes@, p);
                lemma_sorted_same_pids(self.process_sort_strategy, kept, self.processes@, p);
            }
        }
    }

    /// Clears the selection.
    pub fn select_none(&mut self)
        ensures
            *final(self) == old(self).with_selection(None),
    {
        self.processes_state.clear();
    }

    /// Moves the selection down one row, wrapping to the first.
    pub fn next_row(&mut self)
        ensures
            *final(self) == old(self).with_selection(
                after_next(old(self).processes_state.selected, old(self).processes@.len()),
            ),
    {
        let n = self.processes.len();
        self.processes_state.next(n);
    }

    /// Moves the selection up one row, wrapping to the last.
    pub fn previous_row(&mut self)
        ensures
            *final(self) == old(self).with_selection(
                after_previous(old(self).processes_state.selected, old(self).processes@.len()),
            ),
    {
        let n = self.processes.len();
        self.processes_state.previous(n);
    }

    /// Selects the first row.
    pub fn first(&mut self)
        ensures
            *final(self) == old(self).with_selection(
                after_first(old(self).processes_state.selected, old(self).processes@.len()),
            ),
    {
        let n = self.processes.len();
        self.processes_state.first(n);
    }

    /// Selects the last row.
    pub fn last(&mut self)
        ensures
            *final(self) == old(self).with_selection(
                after_last(old(self).processes_state.selected, old(self).processes@.len()),
            ),
    {
        let n = self.processes.len();
        self.processes_state.last(n);
    }

    /// Opens a popup about the selected process, or does nothing when no
    /// row is selected.
    fn watch_selected(&mut self, screen: CurrentScreen)
        requires
            old(self).wf(),
            old(self).current_screen == CurrentScreen::Main,
            watches_process(screen),
        ensures
            final(self).wf(),
            match old(self).selected_row() {
                Some(i) => final(self).current_screen == screen && final(self).current_pid_watch
                    == Some(old(self).processes@[i as int].pid),
                None => final(self).current_screen == old(self).current_screen
                    && final(self).current_pid_watch == old(self).current_pid_watch,
            },
            final(self).processes == old(self).processes,
            final(self).snapshot == old(self).snapshot,
            final(self).filter == old(self).filter,
            final(self).process_sort_strategy == old(self).process_sort_strategy,
            final(self).processes_state == old(self).processes_state,
            final(self).exit == old(self).exit,
            final(self).cpus == old(self).cpus,
            final(self).ram == old(self).ram,
            final(self).info == old(self).info,
    {
        match self.processes_state.selected_in(self.processes.len()) {
            Some(i) => {
                self.current_pid_watch = Some(self.processes[i].pid);
                self.current_screen = screen;
            },
            None => {},
        }
    }

    /// Whether `post` and the action `r` are what `key` makes of `self`,
    /// screen by screen:
    ///
    /// - main: `q` quits; `j`, `k`, `g`, `G` move the selection; Esc clears
    ///   it; `s` moves to the next strategy; `d` and `K` open the detail and
    ///   kill popups about the selected process; `i`, `h`, `f` open the
    ///   system, help and filter screens; Backspace clears the filter;
    /// - filter: a character extends the filter and Backspace shortens it;
    ///   Enter returns to the main screen, Esc clears the filter and returns;
    /// - detail, system, help: their own key or Esc returns;
    /// - kill: Esc, `n` or `N` returns; `y` or `Y` returns and terminates the
    ///   watched process if the catalog still holds it.
    ///
    /// The catalog follows the filter and the strategy, and nothing but the
    /// keys above changes anything.
    pub open spec fn follows_key(&self, post: &State, key: Key, r: Action) -> bool {
        &&& post.wf()
        &&& r == self.action_after(key)
        &&& post.exit == (self.exit || (self.current_screen == CurrentScreen::Main && key
            == Key::Char('q')))
        &&& post.current_screen == self.screen_after(key)
        &&& post.current_pid_watch == self.target_after(key)
        &&& post.filter@ == self.filter_after(key)
        &&& post.process_sort_strategy == self.strategy_after(key)
        &&& post.processes_state.selected == self.selection_after(key)
        &&& !rebuilds(self.current_screen, key) ==> post.processes == self.processes
        &&& post.snapshot == self.snapshot
        &&& post.cpus == self.cpus
        &&& post.ram == self.ram
        &&& post.info == self.info
    }

    fn main_key(&mut self, key: Key)
        requires
            old(self).wf(),
            old(self).current_screen == CurrentScreen::Main,
        ensures
            old(self).follows_key(final(self), key, Action::Nothing),
    {
        if key == Key::Char('q') {
            self.exit = true;
        } else if key == Key::Char('j') {
            self.next_row();
        } else if key == Key::Char('k') {
            self.previous_row();
        } else if key == Key::Char('g') {
            self.first();
        } else if key == Key::Char('G') {
            self.last();
        } else if key == Key::Char('s') {
            self.next_sort_strategy();
        } else if key == Key::Esc {
            self.select_none();
        } else if key == Key::Char('d') {
            self.watch_selected(CurrentScreen::ProcInfo);
        } else if key == Key::Char('K') {
            self.watch_selected(CurrentScreen::KillConfirm);
        } else if key == Key::Char('i') {
            self.current_screen = CurrentScreen::SysInfo;
        } else if key == Key::Char('h') {
            self.current_screen = CurrentScreen::Help;
        } else if key == Key::Char('f') {
            self.current_screen = CurrentScreen::Filter;
        } else if key == Key::Backspace {
            self.filter = String::new();
            self.refresh_procs();
        }
    }

    fn filter_key(&mut self, key: Key)
        requires
            old(self).wf(),
            old(self).current_screen == CurrentScreen::Filter,
        ensures
            old(self).follows_key(final(self), key, Action::Nothing),
    {
        match key {
            Key::Esc => {
                self.filter = String::new();
                self.refresh_procs();
                self.current_screen = CurrentScreen::Main;
            },
            Key::Enter => {
                self.current_screen = CurrentScreen::Main;
            },
            Key::Char(c) => {
                push_char(&mut self.filter, c);
                self.refresh_procs();
            },
            Key::Backspace => {
                pop_char(&mut self.filter);
                self.refresh_procs();
            },
            _ => {},
        }
    }

    fn kill_confirm_key(&mut self, key: Key) -> (r: Action)
        requires
            old(self).wf(),
            old(self).current_screen == CurrentScreen::KillConfirm,
        ensures
            old(self).follows_key(final(self), key, r),
    {
        match key {
            Key::Esc | Key::Char('n') | Key::Char('N') => {
                self.current_pid_watch = None;
                self.current_screen = CurrentScreen::Main;
                Action::Nothing
            },
            Key::Char('y') | Key::Char('Y') => {
                let target = self.current_pid_watch;
                self.current_pid_watch = None;
                self.current_screen = CurrentScreen::Main;
                match target {
                    Some(pid) => if contains_pid(&self.processes, pid) {
                        Action::Terminate(pid)
                    } else {
                        Action::Nothing
                    },
                    None => Action::Nothing,
                }
            },
            _ => Action::Nothing,
        }
    }

    /// Routes a key press through the screen in front, and says what the
    /// caller is to do next.
    pub fn handle_key(&mut self, key: &Key) -> (r: Action)
        requires
            old(self).wf(),
        ensures
            old(self).follows_key(final(self), *key, r),
    {
        let key = *key;
        match self.current_screen {
            CurrentScreen::Main => {
                self.main_key(key);
                Action::Nothing
            },
            CurrentScreen::ProcInfo => {
                if key == Key::Char('d') || key == Key::Esc {
                    self.current_pid_watch = None;
                    self.current_screen = CurrentScreen::Main;
                }
                Action::Nothing
            },
            CurrentScreen::Filter => {
                self.filter_key(key);
                Action::Nothing
            },
            CurrentScreen::SysInfo => {
                if key == Key::Esc || key == Key::Char('i') {
                    self.current_screen = CurrentScreen::Main;
                }
                Action::Nothing
            },
            CurrentScreen::Help => {
                if key == Key::Esc || key == Key::Char('h') {
                    self.current_screen = CurrentScreen::Main;
                }
                Action::Nothing
            },
            CurrentScreen::KillConfirm => self.kill_confirm_key(key),
        }
    }
}

/// Confirming the kill popup about a process that the latest catalog no
/// longer holds returns to the main screen and terminates nothing.
pub proof fn lemma_confirm_vanished_terminates_nothing(st: State, key: Key)
    requires
        st.current_screen == CurrentScreen::KillConfirm,
        st.current_pid_watch is Some,
        !has_pid(st.processes@, st.current_pid_watch.unwrap()),
        key == Key::Char('y') || key == Key::Char('Y'),
    ensures
        st.action_after(key) == Action::Nothing,
        st.screen_after(key) == CurrentScreen::Main,
        st.target_after(key) is None,
{
}

} // verus!
