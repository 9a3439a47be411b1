//! The interactive session: what the screen shows, and how each key and each
//! finished piece of outside work changes it. The caller performs the work
//! that an `Action` asks for and reports its outcome back.
use vstd::prelude::*;
use crate::detector::DetectionResult;
use crate::engine::{index_after_down, index_after_up, Engine};
use crate::fixer::FixResult;
use crate::github::SearchResult;
use crate::issue::Issue;

verus! {

/// The state of the interactive screens.
#[derive(Debug, Clone, PartialEq, Eq)]
pub struct AppState {
    pub show_detail: bool,
    pub detection_result: Option<DetectionResult>,
    pub fix_result: Option<FixResult>,
    pub fixing_in_progress: bool,
    pub fix_progress: Option<i32>,
    pub search_result: Option<SearchResult>,
    pub searching: bool,
    pub show_confirm: bool,
    pub show_manual_commands: bool,
}

/// A key press, as far as the screens tell keys apart.
#[derive(Debug, Clone, Copy, PartialEq, Eq)]
pub enum Key {
    Char(char),
    Enter,
    Esc,
    Up,
    Down,
    Other,
}

/// Outside work that a key press asks for.
#[derive(Debug, Clone, PartialEq, Eq)]
pub enum Action {
    /// Nothing to do.
    Nothing,
    /// Leave the program.
    Quit,
    /// Run this detection command and report it with `record_detection`.
    Detect(String),
    /// Start this fix command in the background; report its progress with
    /// `record_progress` and its result with `record_fix_result`.
    StartFix(String),
    /// Search upstream issues for this text and report it with `record_search`
    /// (the screen is drawn once before, while `searching` is set).
    Search(String),
}

/// The state with every result and pending operation set aside.
pub open spec fn cleared(s: AppState) -> AppState {
    AppState {
        show_detail: s.show_detail,
        detection_result: None,
        fix_result: None,
        fixing_in_progress: false,
        fix_progress: None,
        search_result: None,
        searching: false,
        show_confirm: false,
        show_manual_commands: false,
    }
}

/// The detail screen is open and nothing else is going on, so an issue
/// command may be run.
pub open spec fn may_act(s: AppState) -> bool {
    s.show_detail && !s.fixing_in_progress && !s.searching && !s.show_confirm
}

/// A fix may be offered: the issue was detected and not yet fixed.
pub open spec fn fix_offered(s: AppState) -> bool {
    &&& s.detection_result is Some
    &&& s.detection_result->0.issue_found
    &&& s.fix_result is None
}

/// The text searched for an issue: its first symptom, else its name.
pub open spec fn query_for(issue: Issue) -> String {
    if issue.symptoms@.len() > 0 {
        issue.symptoms@[0]
    } else {
        issue.name
    }
}

/// The selected issue of an engine.
pub open spec fn selected_of(e: Engine) -> Option<Issue> {
    if e.selected_index < e.issues@.len() {
        Some(e.issues@[e.selected_index as int])
    } else {
        None
    }
}

/// The key moves the selection down the list.
pub open spec fn moves_down(s: AppState, key: Key) -> bool {
    !s.show_confirm && !s.show_detail && key == Key::Down
}

/// The key moves the selection up the list.
pub open spec fn moves_up(s: AppState, key: Key) -> bool {
    !s.show_confirm && !s.show_detail && key == Key::Up
}

/// The next state and the requested work after `key`, given the selected
/// issue and whether the list holds any issue.
pub open spec fn key_transition(s: AppState, selected: Option<Issue>, has_issues: bool, key: Key) -> (
    AppState,
    Action,
) {
    if s.show_confirm {
        // The confirmation dialog takes every key.
        match key {
            Key::Char(c) => if c == 'y' || c == 'Y' {
                match selected {
                    Some(issue) => (
                        AppState {
                            show_confirm: false,
                            fixing_in_progress: true,
                            fix_progress: Some(0),
                            ..s
                        },
                        Action::StartFix(issue.fix),
                    ),
                    None => (AppState { show_confirm: false, ..s }, Action::Nothing),
                }
            } else if c == 'n' || c == 'N' {
                (AppState { show_confirm: false, show_manual_commands: true, ..s }, Action::Nothing)
            } else {
                (s, Action::Nothing)
            },
            Key::Esc => (AppState { show_confirm: false, ..s }, Action::Nothing),
            _ => (s, Action::Nothing),
        }
    } else {
        match key {
            Key::Char(c) => if c == 'q' {
                if s.show_detail {
                    (AppState { show_detail: false, ..cleared(s) }, Action::Nothing)
                } else {
                    (s, Action::Quit)
                }
            } else if c == 'd' && may_act(s) && selected is Some {
                (s, Action::Detect(selected->0.detection))
            } else if c == 'f' && may_act(s) && selected is Some && fix_offered(s) {
                (AppState { show_confirm: true, ..s }, Action::Nothing)
            } else if c == 'g' && may_act(s) && selected is Some {
                (AppState { searching: true, ..s }, Action::Search(query_for(selected->0)))
            } else {
                (s, Action::Nothing)
            },
            Key::Esc => if s.show_detail {
                (AppState { show_detail: false, ..cleared(s) }, Action::Nothing)
            } else {
                (s, Action::Nothing)
            },
            Key::Enter => if !s.show_detail && has_issues {
                (AppState { show_detail: true, ..cleared(s) }, Action::Nothing)
            } else {
                (s, Action::Nothing)
            },
            _ => (s, Action::Nothing),
        }
    }
}

/// A fix is running and has reported completion (progress 100), so that
/// its result is the next thing to collect.
pub open spec fn awaiting_result(s: AppState) -> bool {
    s.fixing_in_progress && s.fix_progress == Some(100i32)
}

/// The state after a fix's result arrives: taken only once the fix has
/// reported completion, else the state is unchanged.
pub open spec fn with_fix_result(s: AppState, result: FixResult) -> AppState {
    if awaiting_result(s) {
        AppState { fix_result: Some(result), fixing_in_progress: false, ..s }
    } else {
        s
    }
}

impl AppState {
    /// The confirmation dialog only stands over the detail screen, and never
    /// while a fix or a search runs.
    pub open spec fn wf(&self) -> bool {
        self.show_confirm ==> self.show_detail && !self.fixing_in_progress && !self.searching
    }

    /// The list screen, with nothing shown and nothing going on.
    pub fn new() -> (s: AppState)
        ensures
            s == cleared(s),
            !s.show_detail,
            s.wf(),
    {
        AppState {
            show_detail: false,
            detection_result: None,
            fix_result: None,
            fixing_in_progress: false,
            fix_progress: None,
            search_result: None,
            searching: false,
            show_confirm: false,
            show_manual_commands: false,
        }
    }

    /// Sets aside every result and pending operation; the screen stays.
    pub fn clear_results(&mut self)
        ensures
            *final(self) == cleared(*old(self)),
            final(self).show_detail == old(self).show_detail,
            final(self).detection_result is None,
            final(self).fix_result is None,
            final(self).search_result is None,
            !final(self).fixing_in_progress,
            final(self).fix_progress is None,
            !final(self).searching,
            !final(self).show_confirm,
            !final(self).show_manual_commands,
    {
        self.detection_result = None;
        self.fix_result = None;
        self.fixing_in_progress = false;
        self.fix_progress = None;
        self.searching = false;
        self.search_result = None;
        self.show_confirm = false;
        self.show_manual_commands = false;
    }

    /// Handles one key press: updates the screens and the selection, and says
    /// what outside work, if any, the key asks for.
    pub fn handle_key(&mut self, engine: &mut Engine, key: Key) -> (act: Action)
        requires
            old(engine).issues@.len() == 0 || old(engine).selected_index < usize::MAX,
        ensures
            (*final(self), act) == key_transition(
                *old(self),
                selected_of(*old(engine)),
                old(engine).issues@.len() > 0,
                key,
            ),
            moves_down(*old(self), key) ==> {
                &&& final(engine).selected_index == index_after_down(
                    old(engine).issues@.len(),
                    old(engine).selected_index as nat,
                )
                &&& final(engine).issues == old(engine).issues
                &&& final(engine).loaded_from == old(engine).loaded_from
                &&& final(engine).total_loaded == old(engine).total_loaded
            },
            moves_up(*old(self), key) ==> {
                &&& final(engine).selected_index == index_after_up(
                    old(engine).issues@.len(),
                    old(engine).selected_index as nat,
                )
                &&& final(engine).issues == old(engine).issues
                &&& final(engine).loaded_from == old(engine).loaded_from
                &&& final(engine).total_loaded == old(engine).total_loaded
            },
            !moves_down(*old(self), key) && !moves_up(*old(self), key) ==> *final(engine) == *old(
                engine,
            ),
            old(engine).wf() ==> final(engine).wf(),
            old(self).wf() ==> final(self).wf(),
    {
        if self.show_confirm {
            match key {
                Key::Char(c) => {
                    if c == 'y' || c == 'Y' {
                        self.show_confirm = false;
                        match engine.selected_issue() {
                            Some(issue) => {
                                self.fixing_in_progress = true;
                                self.fix_progress = Some(0);
                                return Action::StartFix(issue.fix.clone());
                            },
                            None => {
                                return Action::Nothing;
                            },
                        }
                    } else if c == 'n' || c == 'N' {
                        self.show_confirm = false;
                        self.show_manual_commands = true;
                    }
                },
                Key::Esc => {
                    self.show_confirm = false;
                },
                _ => {},
            }
            return Action::Nothing;
        }
        match key {
            Key::Char(c) => {
                if c == 'q' {
                    if self.show_detail {
                        self.show_detail = false;
                        self.clear_results();
                    } else {
                        return Action::Quit;
                    }
                } else if c == 'd' {
                    if self.show_detail && !self.fixing_in_progress && !self.searching {
                        match engine.selected_issue() {
                            Some(issue) => {
                                return Action::Detect(issue.detection.clone());
                            },
                            None => {},
                        }
                    }
                } else if c == 'f' {
                    if self.show_detail && !self.fixing_in_progress && !self.searching {
                        if engine.selected_issue().is_some() {
                            match &self.detection_result {
                                Some(detection) => {
                                    if detection.issue_found && self.fix_result.is_none() {
                                        self.show_confirm = true;
                                    }
                                },
                                None => {},
                            }
                        }
                    }
                } else if c == 'g' {
                    if self.show_detail && !self.fixing_in_progress && !self.searching {
                        match engine.selected_issue() {
                            Some(issue) => {
                                let query = if issue.symptoms.len() > 0 {
                                    issue.symptoms[0].clone()
                                } else {
                                    issue.name.clone()
                                };
                                self.searching = true;
                                return Action::Search(query);
                            },
                            None => {},
                        }
                    }
                }
            },
            Key::Esc => {
                if self.show_detail {
                    self.show_detail = false;
                    self.clear_results();
                }
            },
            Key::Enter => {
                if !self.show_detail && engine.issues.len() > 0 {
                    self.show_detail = true;
                    self.clear_results();
                }
            },
            Key::Down => {
                if !self.show_detail {
                    engine.move_down();
                }
            },
            Key::Up => {
                if !self.show_detail {
                    engine.move_up();
                }
            },
            Key::Other => {},
        }
        Action::Nothing
    }

    /// Records the result of the detection command that `Action::Detect` asked for.
    pub fn record_detection(&mut self, result: DetectionResult)
        ensures
            *final(self) == (AppState { detection_result: Some(result), ..*old(self) }),
    {
        self.detection_result = Some(result);
    }

    /// Records the result of the search that `Action::Search` asked for.
    pub fn record_search(&mut self, result: SearchResult)
        ensures
            *final(self) == (AppState { search_result: Some(result), searching: false, ..*old(self) }),
    {
        self.search_result = Some(result);
        self.searching = false;
    }

    /// Records a progress report of the running fix.
    pub fn record_progress(&mut self, progress: i32)
        ensures
            *final(self) == (AppState { fix_progress: Some(progress), ..*old(self) }),
    {
        self.fix_progress = Some(progress);
    }

    /// Whether the running fix has reported completion, so that its result
    /// is the next thing to collect.
    pub fn awaiting_fix_result(&self) -> (r: bool)
        ensures
            r == awaiting_result(*self),
    {
        self.fixing_in_progress && match self.fix_progress {
            Some(p) => p == 100,
            None => false,
        }
    }

    /// Records the result of the fix, but only once the running fix has
    /// reported completion; then the fix is no longer running. Returns whether
    /// the result was taken (before that the state stays as it is).
    pub fn record_fix_result(&mut self, result: FixResult) -> (taken: bool)
        ensures
            taken == awaiting_result(*old(self)),
            *final(self) == with_fix_result(*old(self), result),
            old(self).wf() ==> final(self).wf(),
    {
        if self.awaiting_fix_result() {
            self.fix_result = Some(result);
            self.fixing_in_progress = false;
            true
        } else {
            false
        }
    }

    /// How long to wait for a key before looking at the screen again, in
    /// milliseconds: shorter while a fix runs, to keep its progress moving.
    pub fn poll_timeout_ms(&self) -> (ms: u64)
        ensures
            ms == (if self.fixing_in_progress { 50u64 } else { 100u64 }),
    {
        if self.fixing_in_progress {
            50
        } else {
            100
        }
    }
}

/// A fix's result is shown only after the running fix has reported progress
/// 100; taking it ends the fix.
pub proof fn lemma_fix_result_after_completion(s: AppState, result: FixResult)
    requires
        with_fix_result(s, result) != s,
    ensures
        s.fixing_in_progress,
        s.fix_progress == Some(100i32),
        with_fix_result(s, result).fix_result == Some(result),
        !with_fix_result(s, result).fixing_in_progress,
{
}

/// Clearing forgets every result and every pending operation, whatever the
/// state was; only the screen stays.
pub proof fn lemma_clearing_forgets_everything(s: AppState)
    ensures
        cleared(s).show_detail == s.show_detail,
        cleared(s).detection_result is None,
        cleared(s).fix_result is None,
        cleared(s).search_result is None,
        !cleared(s).fixing_in_progress,
        cleared(s).fix_progress is None,
        !cleared(s).searching,
        !cleared(s).show_confirm,
        !cleared(s).show_manual_commands,
{
}

/// A key that opens or leaves the detail screen leaves no result behind: the
/// screen of the next issue starts without a detection, a fix or a search.
pub proof fn lemma_changing_screen_forgets_results(
    s: AppState,
    selected: Option<Issue>,
    has_issues: bool,
    key: Key,
)
    requires
        key_transition(s, selected, has_issues, key).0.show_detail != s.show_detail,
    ensures
        key_transition(s, selected, has_issues, key).1 == Action::Nothing,
        key_transition(s, selected, has_issues, key).0.detection_result is None,
        key_transition(s, selected, has_issues, key).0.fix_result is None,
        key_transition(s, selected, has_issues, key).0.search_result is None,
        !key_transition(s, selected, has_issues, key).0.fixing_in_progress,
        !key_transition(s, selected, has_issues, key).0.searching,
        !key_transition(s, selected, has_issues, key).0.show_confirm,
        !key_transition(s, selected, has_issues, key).0.show_manual_commands,
{
}

/// Esc and 'q' on the detail screen (no dialog open) go back to the list,
/// and Enter on the list opens the detail screen when there is an issue.
pub proof fn lemma_screen_keys(s: AppState, selected: Option<Issue>, has_issues: bool)
    requires
        !s.show_confirm,
    ensures
        s.show_detail ==> !key_transition(s, selected, has_issues, Key::Esc).0.show_detail,
        s.show_detail ==> !key_transition(s, selected, has_issues, Key::Char('q')).0.show_detail,
        !s.show_detail && has_issues ==> key_transition(
            s,
            selected,
            has_issues,
            Key::Enter,
        ).0.show_detail,
{
}

/// On the detail screen with no dialog open, Enter changes nothing and asks
/// for no work.
pub proof fn lemma_enter_on_detail_does_nothing(s: AppState, selected: Option<Issue>, has_issues: bool)
    requires
        s.show_detail,
        !s.show_confirm,
    ensures
        key_transition(s, selected, has_issues, Key::Enter) == (s, Action::Nothing),
{
}

/// No fix command runs without a confirmation: a key starts a fix only when
/// the confirmation dialog is open, and only a 'y' does.
pub proof fn lemma_fix_needs_confirmation(
    s: AppState,
    selected: Option<Issue>,
    has_issues: bool,
    key: Key,
)
    requires
        key_transition(s, selected, has_issues, key).1 is StartFix,
    ensures
        s.show_confirm,
        key == Key::Char('y') || key == Key::Char('Y'),
{
}

/// The confirmation dialog opens only for a detected issue that has not been
/// fixed yet, and only while nothing else is going on.
pub proof fn lemma_confirmation_needs_detection(
    s: AppState,
    selected: Option<Issue>,
    has_issues: bool,
    key: Key,
)
    requires
        !s.show_confirm,
        key_transition(s, selected, has_issues, key).0.show_confirm,
    ensures
        fix_offered(s),
        may_act(s),
        selected is Some,
{
}

/// A fix starts with the command of the selected issue.
pub proof fn lemma_fix_runs_selected_command(
    s: AppState,
    selected: Option<Issue>,
    has_issues: bool,
    key: Key,
)
    requires
        key_transition(s, selected, has_issues, key).1 is StartFix,
    ensures
        selected is Some,
        key_transition(s, selected, has_issues, key).1 == Action::StartFix(selected->0.fix),
        key_transition(s, selected, has_issues, key).0.fixing_in_progress,
{
}

/// While a fix or a search runs, no key starts another command.
pub proof fn lemma_busy_runs_nothing(s: AppState, selected: Option<Issue>, has_issues: bool, key: Key)
    requires
        s.wf(),
        s.fixing_in_progress || s.searching,
    ensures
        !(key_transition(s, selected, has_issues, key).1 is StartFix),
        !(key_transition(s, selected, has_issues, key).1 is Detect),
        !(key_transition(s, selected, has_issues, key).1 is Search),
{
}

/// The program is left only from the list screen.
pub proof fn lemma_quit_only_from_list(s: AppState, selected: Option<Issue>, has_issues: bool, key: Key)
    requires
        key_transition(s, selected, has_issues, key).1 == Action::Quit,
    ensures
        !s.show_detail,
        !s.show_confirm,
        key == Key::Char('q'),
{
}

/// Every key keeps the screens consistent.
pub proof fn lemma_keys_keep_wf(s: AppState, selected: Option<Issue>, has_issues: bool, key: Key)
    requires
        s.wf(),
    ensures
        key_transition(s, selected, has_issues, key).0.wf(),
{
}

} // verus!
