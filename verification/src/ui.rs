//! The terminal browser's state and its response to each key. The terminal
//! itself, the scans and the actions a key asks for are the caller's work;
//! their outcomes come back through the functions at the end.
use crate::diagnostics::{Diagnostic, DiagnosticView};
use crate::control::{State, StateView};
use crate::model::{
    command_text, compatibility_of, search_text, Candidate, CandidateView, Kind, Session,
    SessionView,
};
use crate::text::{
    append, concat, debug_numbers, debug_numbers_of, has_sub, join_all, join_strings, lowercase,
    same, str_contains, to_lowercase,
};
use vstd::prelude::*;

verus! {

/// What the browser shows and edits.
#[derive(Debug)]
pub struct App {
    pub query: String,
    pub searching: bool,
    pub tab: usize,
    pub selected: usize,
    pub scroll: u16,
    pub message: String,
    pub confirm: Option<String>,
}

pub struct AppView {
    pub query: Seq<char>,
    pub searching: bool,
    pub tab: usize,
    pub selected: usize,
    pub scroll: u16,
    pub message: Seq<char>,
    pub confirm: Option<Seq<char>>,
}

impl View for App {
    type V = AppView;

    open spec fn view(&self) -> AppView {
        AppView {
            query: self.query@,
            searching: self.searching,
            tab: self.tab,
            selected: self.selected,
            scroll: self.scroll,
            message: self.message@,
            confirm: self.confirm.deep_view(),
        }
    }
}

pub open spec fn welcome_message() -> Seq<char> {
    "Discovery is read-only. Enter previews the exact switch plan."@
}

impl Default for App {
    fn default() -> (a: App)
        ensures
            a@ == (AppView {
                query: seq![],
                searching: false,
                tab: 0,
                selected: 0,
                scroll: 0,
                message: welcome_message(),
                confirm: None,
            }),
    {
        proof {
            reveal_strlit("Discovery is read-only. Enter previews the exact switch plan.");
        }
        App {
            query: String::new(),
            searching: false,
            tab: 0,
            selected: 0,
            scroll: 0,
            message: "Discovery is read-only. Enter previews the exact switch plan.".to_string(),
            confirm: None,
        }
    }
}

/// The action a confirmation dialog stands for.
#[derive(Debug, Clone, Copy, PartialEq, Eq, Structural)]
pub enum Confirming {
    Switch,
    Adopt,
    Disable,
    Release,
    Diagnostics,
    Repair,
    Recover,
}

/// A key, as the browser distinguishes them.
#[derive(Debug, Clone, Copy, PartialEq, Eq, Structural)]
pub enum Key {
    Esc,
    Enter,
    Backspace,
    Tab,
    BackTab,
    Down,
    Up,
    PageDown,
    PageUp,
    Char(char),
    Other,
}

/// What the caller must do after a key.
#[derive(Debug, Clone, Copy, PartialEq, Eq, Structural)]
pub enum UiAction {
    Nothing,
    Quit,
    Rescan,
    Plan(usize),
    Diagnose,
    Keep,
    Revert,
    Switch(usize),
    Adopt(usize),
    Disable(usize),
    Release(usize),
    Repair,
    Recover,
    /// A confirmed dialog with nothing to perform; it completes at once.
    Complete,
}

// ------------------------------------------------------------ filtering

/// Tab `tab` shows entries of kind `k`: all, shells, components, sessions or candidates.
pub open spec fn tab_admits(tab: usize, k: Kind) -> bool {
    if tab == 1 {
        k == Kind::Shell
    } else if tab == 2 {
        k == Kind::Component
    } else if tab == 3 {
        k == Kind::Session
    } else if tab == 4 {
        k == Kind::Candidate
    } else {
        true
    }
}

/// The indices of the entries shown: those whose lowercased search text
/// contains the lowercased query and whose kind the tab shows, in order.
pub open spec fn visible(cs: Seq<CandidateView>, query: Seq<char>, tab: usize) -> Seq<usize>
    decreases cs.len(),
{
    if cs.len() == 0 {
        seq![]
    } else {
        let r = visible(cs.drop_last(), query, tab);
        let c = cs.last();
        if has_sub(lowercase(search_text(c)), lowercase(query)) && tab_admits(tab, c.kind) {
            r.push((cs.len() - 1) as usize)
        } else {
            r
        }
    }
}

/// The indices of the entries the browser shows.
pub fn filtered(cands: &Vec<Candidate>, a: &App) -> (r: Vec<usize>)
    requires
        cands@.len() <= usize::MAX,
    ensures
        r@ == visible(cands.deep_view(), a@.query, a@.tab),
{
    let q = to_lowercase(a.query.as_str());
    let mut out: Vec<usize> = Vec::new();
    let mut i: usize = 0;
    while i < cands.len()
        invariant
            i <= cands.len(),
            q@ == lowercase(a@.query),
            out@ == visible(cands.deep_view().take(i as int), a@.query, a@.tab),
        decreases cands.len() - i,
    {
        let ghost t = cands.deep_view().take(i + 1);
        assert(t.drop_last() =~= cands.deep_view().take(i as int));
        assert(t.last() == cands@[i as int]@);
        let c = &cands[i];
        let text = c.searchable();
        let admits = match a.tab {
            1 => matches!(c.kind, Kind::Shell),
            2 => matches!(c.kind, Kind::Component),
            3 => matches!(c.kind, Kind::Session),
            4 => matches!(c.kind, Kind::Candidate),
            _ => true,
        };
        if str_contains(text.as_str(), q.as_str()) && admits {
            out.push(i);
        }
        i += 1;
    }
    assert(cands.deep_view().take(i as int) =~= cands.deep_view());
    out
}

// ------------------------------------------------------------ confirmation texts

pub open spec fn adopt_text(c: CandidateView) -> Seq<char> {
    "Adopt "@ + c.name + "\nMatching PIDs: "@ + debug_numbers(c.running_pids) + "\n\n"@
        + command_text(c.backend)
        + "\n\nThis grants Shellswitch control of the existing shell. Its next switch will stop it, and rollback will use the launch command above."@
}

pub open spec fn disable_text(c: CandidateView) -> Seq<char> {
    "Stop "@ + c.name
        + " and keep it disabled?\nOnly its owned processes and declared services will be stopped. Its supported startup paths stay gated.\n\nUse l to release the hold; release does not start it."@
}

pub open spec fn release_text(c: CandidateView) -> Seq<char> {
    "Release the emergency hold for "@ + c.name
        + "? It remains inactive until you select it."@
}

pub open spec fn repair_text() -> Seq<char> {
    "Archive overwritten contents and restore saved configuration and startup gates? This does not start a shell."@
}

pub open spec fn recover_text() -> Seq<char> {
    "Recover interrupted file operations and restore the previous working switch state?"@
}

// ------------------------------------------------------------ keys

/// The browser after a key while the search field has focus.
pub open spec fn searched(a: AppView, k: Key) -> AppView {
    let q = match k {
        Key::Backspace => if a.query.len() > 0 {
            a.query.drop_last()
        } else {
            a.query
        },
        Key::Char(c) => a.query.push(c),
        _ => a.query,
    };
    AppView {
        searching: if k == Key::Esc || k == Key::Enter {
            false
        } else {
            a.searching
        },
        query: q,
        selected: 0,
        scroll: 0,
        ..a
    }
}

/// The entry under the cursor.
pub open spec fn under_cursor(shown: Seq<usize>, a: AppView) -> Option<usize> {
    if a.selected < shown.len() {
        Some(shown[a.selected as int])
    } else {
        None
    }
}

/// What the confirmed dialog asks the caller to do.
pub open spec fn confirmed_action(p: Confirming, sel: Option<usize>) -> UiAction {
    match (p, sel) {
        (Confirming::Switch, Some(i)) => UiAction::Switch(i),
        (Confirming::Adopt, Some(i)) => UiAction::Adopt(i),
        (Confirming::Disable, Some(i)) => UiAction::Disable(i),
        (Confirming::Release, Some(i)) => UiAction::Release(i),
        (Confirming::Repair, _) => UiAction::Repair,
        (Confirming::Recover, _) => UiAction::Recover,
        _ => UiAction::Complete,
    }
}

/// The browser, the dialog's action and what the caller must do after key `k`.
/// `shown` are the indices of the entries shown.
pub open spec fn after_key(
    a: AppView,
    p: Confirming,
    k: Key,
    cs: Seq<CandidateView>,
    shown: Seq<usize>,
) -> (AppView, Confirming, UiAction) {
    let sel = under_cursor(shown, a);
    if a.searching {
        (searched(a, k), p, UiAction::Nothing)
    } else if a.confirm is Some {
        if k == Key::Esc {
            (AppView { confirm: None, ..a }, p, UiAction::Nothing)
        } else if k == Key::Char('y') {
            (AppView { confirm: None, ..a }, p, confirmed_action(p, sel))
        } else {
            (a, p, UiAction::Nothing)
        }
    } else {
        match k {
            Key::Char('q') | Key::Esc => (a, p, UiAction::Quit),
            Key::Char('/') => (AppView { searching: true, ..a }, p, UiAction::Nothing),
            Key::Tab => (
                AppView { tab: ((a.tab + 1) % 5) as usize, selected: 0, scroll: 0, ..a },
                p,
                UiAction::Nothing,
            ),
            Key::BackTab => (
                AppView { tab: ((a.tab + 4) % 5) as usize, selected: 0, scroll: 0, ..a },
                p,
                UiAction::Nothing,
            ),
            Key::Down | Key::Char('j') => {
                let last: int = if shown.len() > 0 {
                    shown.len() - 1
                } else {
                    0
                };
                (
                    AppView {
                        selected: (if a.selected + 1 <= last {
                            a.selected + 1
                        } else {
                            last
                        }) as usize,
                        scroll: 0,
                        ..a
                    },
                    p,
                    UiAction::Nothing,
                )
            },
            Key::Up => (
                AppView {
                    selected: (if a.selected > 0 {
                        a.selected - 1
                    } else {
                        0
                    }) as usize,
                    scroll: 0,
                    ..a
                },
                p,
                UiAction::Nothing,
            ),
            Key::PageDown => (
                AppView {
                    scroll: (if a.scroll + 6 <= u16::MAX {
                        a.scroll + 6
                    } else {
                        u16::MAX as int
                    }) as u16,
                    ..a
                },
                p,
                UiAction::Nothing,
            ),
            Key::PageUp => (
                AppView {
                    scroll: (if a.scroll >= 6 {
                        a.scroll - 6
                    } else {
                        0
                    }) as u16,
                    ..a
                },
                p,
                UiAction::Nothing,
            ),
            Key::Char('r') => (a, p, UiAction::Rescan),
            Key::Enter => match sel {
                Some(i) => (a, p, UiAction::Plan(i)),
                None => (a, p, UiAction::Nothing),
            },
            Key::Char('a') => match sel {
                Some(i) => (
                    AppView { confirm: Some(adopt_text(cs[i as int])), ..a },
                    Confirming::Adopt,
                    UiAction::Nothing,
                ),
                None => (a, p, UiAction::Nothing),
            },
            Key::Char('x') => match sel {
                Some(i) => (
                    AppView { confirm: Some(disable_text(cs[i as int])), ..a },
                    Confirming::Disable,
                    UiAction::Nothing,
                ),
                None => (a, Confirming::Disable, UiAction::Nothing),
            },
            Key::Char('l') => match sel {
                Some(i) => (
                    AppView { confirm: Some(release_text(cs[i as int])), ..a },
                    Confirming::Release,
                    UiAction::Nothing,
                ),
                None => (a, p, UiAction::Nothing),
            },
            Key::Char('d') => (a, p, UiAction::Diagnose),
            Key::Char('f') => (
                AppView { confirm: Some(repair_text()), ..a },
                Confirming::Repair,
                UiAction::Nothing,
            ),
            Key::Char('e') => (
                AppView { confirm: Some(recover_text()), ..a },
                Confirming::Recover,
                UiAction::Nothing,
            ),
            Key::Char('k') => (a, p, UiAction::Keep),
            Key::Char('u') => (a, p, UiAction::Revert),
            _ => (a, p, UiAction::Nothing),
        }
    }
}

/// Every shown index is an entry.
pub open spec fn indices_valid(shown: Seq<usize>, n: nat) -> bool {
    forall|k: int| 0 <= k < shown.len() ==> (#[trigger] shown[k]) < n
}

proof fn lemma_visible_valid(cs: Seq<CandidateView>, query: Seq<char>, tab: usize)
    ensures
        indices_valid(visible(cs, query, tab), cs.len()),
        visible(cs, query, tab).len() <= cs.len(),
    decreases cs.len(),
{
    if cs.len() > 0 {
        lemma_visible_valid(cs.drop_last(), query, tab);
    }
}

/// Responds to one key press: updates the browser and the dialog's action,
/// and says what the caller must do.
pub fn key(a: &mut App, p: &mut Confirming, k: Key, cands: &Vec<Candidate>) -> (r: UiAction)
    requires
        cands@.len() <= usize::MAX,
    ensures
        (final(a)@, *final(p), r) == after_key(
            old(a)@,
            *old(p),
            k,
            cands.deep_view(),
            visible(cands.deep_view(), old(a)@.query, old(a)@.tab),
        ),
{
    if a.searching {
        match k {
            Key::Esc | Key::Enter => {
                a.searching = false;
            },
            Key::Backspace => {
                let ghost q = a.query@;
                let mut v = crate::text::chars_of(a.query.as_str());
                if v.len() > 0 {
                    v.pop();
                    assert(v@ =~= q.drop_last());
                }
                a.query = crate::text::string_of(v.as_slice());
            },
            Key::Char(c) => {
                let ghost q = a.query@;
                let mut v = crate::text::chars_of(a.query.as_str());
                v.push(c);
                assert(v@ =~= q.push(c));
                a.query = crate::text::string_of(v.as_slice());
            },
            _ => {},
        }
        a.selected = 0;
        a.scroll = 0;
        return UiAction::Nothing;
    }
    let shown = filtered(cands, a);
    proof {
        lemma_visible_valid(cands.deep_view(), a@.query, a@.tab);
    }
    let sel = if a.selected < shown.len() {
        Some(shown[a.selected])
    } else {
        None
    };
    if a.confirm.is_some() {
        if k == Key::Esc {
            a.confirm = None;
            return UiAction::Nothing;
        }
        if k == Key::Char('y') {
            a.confirm = None;
            return match (*p, sel) {
                (Confirming::Switch, Some(i)) => UiAction::Switch(i),
                (Confirming::Adopt, Some(i)) => UiAction::Adopt(i),
                (Confirming::Disable, Some(i)) => UiAction::Disable(i),
                (Confirming::Release, Some(i)) => UiAction::Release(i),
                (Confirming::Repair, _) => UiAction::Repair,
                (Confirming::Recover, _) => UiAction::Recover,
                _ => UiAction::Complete,
            };
        }
        return UiAction::Nothing;
    }
    match k {
        Key::Char('q') | Key::Esc => UiAction::Quit,
        Key::Char('/') => {
            a.searching = true;
            UiAction::Nothing
        },
        Key::Tab => {
            let t0 = a.tab;
            proof {
                assert((t0 + 1) % 5 == (if t0 % 5 == 4 {
                    0
                } else {
                    t0 % 5 + 1
                })) by (nonlinear_arith);
            }
            a.tab = if a.tab % 5 == 4 {
                0
            } else {
                a.tab % 5 + 1
            };
            a.selected = 0;
            a.scroll = 0;
            UiAction::Nothing
        },
        Key::BackTab => {
            let t0 = a.tab;
            a.tab = if a.tab % 5 == 0 {
                4
            } else {
                a.tab % 5 - 1
            };
            proof {
                assert((t0 + 4) % 5 == (if t0 % 5 == 0 {
                    4
                } else {
                    t0 % 5 - 1
                })) by (nonlinear_arith);
            }
            a.selected = 0;
            a.scroll = 0;
            UiAction::Nothing
        },
        Key::Down | Key::Char('j') => {
            let last: usize = if shown.len() > 0 {
                shown.len() - 1
            } else {
                0
            };
            a.selected = if a.selected < last {
                a.selected + 1
            } else {
                last
            };
            a.scroll = 0;
            UiAction::Nothing
        },
        Key::Up => {
            if a.selected > 0 {
                a.selected = a.selected - 1;
            }
            a.scroll = 0;
            UiAction::Nothing
        },
        Key::PageDown => {
            a.scroll = if a.scroll <= u16::MAX - 6 {
                a.scroll + 6
            } else {
                u16::MAX
            };
            UiAction::Nothing
        },
        Key::PageUp => {
            a.scroll = if a.scroll >= 6 {
                a.scroll - 6
            } else {
                0
            };
            UiAction::Nothing
        },
        Key::Char('r') => UiAction::Rescan,
        Key::Enter => match sel {
            Some(i) => UiAction::Plan(i),
            None => UiAction::Nothing,
        },
        Key::Char('a') => match sel {
            Some(i) => {
                let c = &cands[i];
                proof {
                    reveal_strlit("Adopt ");
                    reveal_strlit("\nMatching PIDs: ");
                    reveal_strlit("\n\n");
                    reveal_strlit("\n\nThis grants Shellswitch control of the existing shell. Its next switch will stop it, and rollback will use the launch command above.");
                }
                let mut t = concat("Adopt ", c.name.as_str());
                append(&mut t, "\nMatching PIDs: ");
                let pids = debug_numbers_of(&c.running_pids);
                append(&mut t, pids.as_str());
                append(&mut t, "\n\n");
                let cmd = c.command();
                append(&mut t, cmd.as_str());
                append(
                    &mut t,
                    "\n\nThis grants Shellswitch control of the existing shell. Its next switch will stop it, and rollback will use the launch command above.",
                );
                assert(cands.deep_view()[i as int] == c@);
                a.confirm = Some(t);
                *p = Confirming::Adopt;
                UiAction::Nothing
            },
            None => UiAction::Nothing,
        },
        Key::Char('x') => {
            *p = Confirming::Disable;
            match sel {
                Some(i) => {
                    let c = &cands[i];
                    proof {
                        reveal_strlit("Stop ");
                        reveal_strlit(" and keep it disabled?\nOnly its owned processes and declared services will be stopped. Its supported startup paths stay gated.\n\nUse l to release the hold; release does not start it.");
                    }
                    let mut t = concat("Stop ", c.name.as_str());
                    append(
                        &mut t,
                        " and keep it disabled?\nOnly its owned processes and declared services will be stopped. Its supported startup paths stay gated.\n\nUse l to release the hold; release does not start it.",
                    );
                    assert(cands.deep_view()[i as int] == c@);
                    a.confirm = Some(t);
                },
                None => {},
            }
            UiAction::Nothing
        },
        Key::Char('l') => match sel {
            Some(i) => {
                let c = &cands[i];
                proof {
                    reveal_strlit("Release the emergency hold for ");
                    reveal_strlit("? It remains inactive until you select it.");
                }
                let mut t = concat("Release the emergency hold for ", c.name.as_str());
                append(&mut t, "? It remains inactive until you select it.");
                assert(cands.deep_view()[i as int] == c@);
                a.confirm = Some(t);
                *p = Confirming::Release;
                UiAction::Nothing
            },
            None => UiAction::Nothing,
        },
        Key::Char('d') => UiAction::Diagnose,
        Key::Char('f') => {
            proof {
                reveal_strlit("Archive overwritten contents and restore saved configuration and startup gates? This does not start a shell.");
            }
            a.confirm = Some(
                "Archive overwritten contents and restore saved configuration and startup gates? This does not start a shell.".to_string(),
            );
            *p = Confirming::Repair;
            UiAction::Nothing
        },
        Key::Char('e') => {
            proof {
                reveal_strlit("Recover interrupted file operations and restore the previous working switch state?");
            }
            a.confirm = Some(
                "Recover interrupted file operations and restore the previous working switch state?".to_string(),
            );
            *p = Confirming::Recover;
            UiAction::Nothing
        },
        Key::Char('k') => UiAction::Keep,
        Key::Char('u') => UiAction::Revert,
        _ => UiAction::Nothing,
    }
}

// ------------------------------------------------------------ outcomes

/// The switch plan opens as a confirmation dialog; a refusal becomes the message.
pub fn plan_shown(a: &mut App, p: &mut Confirming, r: Result<String, String>)
    ensures
        match r {
            Ok(t) => final(a)@ == (AppView { confirm: Some(t@), ..old(a)@ }) && *final(p)
                == Confirming::Switch,
            Err(e) => final(a)@ == (AppView { message: e@, ..old(a)@ }) && *final(p) == *old(p),
        },
{
    match r {
        Ok(t) => {
            *p = Confirming::Switch;
            a.confirm = Some(t);
        },
        Err(e) => {
            a.message = e;
        },
    }
}

pub open spec fn no_drift_text() -> Seq<char> {
    "No detected ownership or lifecycle drift."@
}

/// One finding as the dialog shows it.
pub open spec fn finding_text(d: DiagnosticView) -> Seq<char> {
    d.code + ": "@ + d.detail + "\n→ "@ + d.repair
}

/// The findings dialog: each finding, separated by blank lines.
pub open spec fn findings_text(ds: Seq<DiagnosticView>) -> Seq<char> {
    if ds.len() == 0 {
        no_drift_text()
    } else {
        join_all(ds.map_values(|d: DiagnosticView| finding_text(d)), "\n\n"@)
    }
}

/// Opens the findings of the diagnostics as a dialog.
pub fn diagnostics_shown(a: &mut App, p: &mut Confirming, ds: &Vec<Diagnostic>)
    ensures
        final(a)@ == (AppView { confirm: Some(findings_text(ds.deep_view())), ..old(a)@ }),
        *final(p) == Confirming::Diagnostics,
{
    *p = Confirming::Diagnostics;
    proof {
        reveal_strlit("No detected ownership or lifecycle drift.");
        reveal_strlit(": ");
        reveal_strlit("\n→ ");
    }
    if ds.len() == 0 {
        a.confirm = Some("No detected ownership or lifecycle drift.".to_string());
        return;
    }
    let mut parts: Vec<String> = Vec::new();
    let mut i: usize = 0;
    while i < ds.len()
        invariant
            i <= ds.len(),
            parts.deep_view() == ds.deep_view().take(i as int).map_values(
                |d: DiagnosticView| finding_text(d),
            ),
        decreases ds.len() - i,
    {
        let d = &ds[i];
        let mut t = concat(d.code.as_str(), ": ");
        append(&mut t, d.detail.as_str());
        append(&mut t, "\n→ ");
        append(&mut t, d.repair.as_str());
        let ghost before = parts.deep_view();
        parts.push(t);
        assert(parts.deep_view() =~= before.push(finding_text(ds@[i as int]@)));
        assert(ds.deep_view().take(i + 1).map_values(|d: DiagnosticView| finding_text(d))
            =~= ds.deep_view().take(i as int).map_values(|d: DiagnosticView| finding_text(d)).push(
            finding_text(ds@[i as int]@),
        ));
        i += 1;
    }
    assert(ds.deep_view().take(i as int) =~= ds.deep_view());
    let t = join_strings(&parts, "\n\n");
    proof {
        reveal_strlit("\n\n");
    }
    a.confirm = Some(t);
}

pub open spec fn action_complete_message() -> Seq<char> {
    "Action complete. Trial switches require k to keep."@
}

pub open spec fn action_failed_message() -> Seq<char> {
    "Action failed; diagnostic opened."@
}

pub open spec fn failure_text(e: Seq<char>) -> Seq<char> {
    "Action failed:\n\n"@ + e + "\n\nPress Esc to close this diagnostic."@
}

/// Reports a confirmed action: a completion message, or its error opened as a dialog.
pub fn action_done(a: &mut App, r: Result<(), String>)
    ensures
        match r {
            Ok(()) => final(a)@ == (AppView { message: action_complete_message(), ..old(a)@ }),
            Err(e) => final(a)@ == (AppView {
                message: action_failed_message(),
                confirm: Some(failure_text(e@)),
                ..old(a)@
            }),
        },
{
    proof {
        reveal_strlit("Action complete. Trial switches require k to keep.");
        reveal_strlit("Action failed; diagnostic opened.");
        reveal_strlit("Action failed:\n\n");
        reveal_strlit("\n\nPress Esc to close this diagnostic.");
    }
    match r {
        Ok(()) => {
            a.message = "Action complete. Trial switches require k to keep.".to_string();
        },
        Err(e) => {
            let mut t = concat("Action failed:\n\n", e.as_str());
            append(&mut t, "\n\nPress Esc to close this diagnostic.");
            a.confirm = Some(t);
            a.message = "Action failed; diagnostic opened.".to_string();
        },
    }
}

/// Reports keeping the trial.
pub fn kept(a: &mut App, r: Result<(), String>)
    ensures
        final(a)@ == (AppView {
            message: match r {
                Ok(()) => "Trial kept"@,
                Err(e) => e@,
            },
            ..old(a)@
        }),
{
    proof {
        reveal_strlit("Trial kept");
    }
    a.message = match r {
        Ok(()) => "Trial kept".to_string(),
        Err(e) => e,
    };
}

/// Reports reverting the trial.
pub fn reverted(a: &mut App, r: Result<(), String>)
    ensures
        final(a)@ == (AppView {
            message: match r {
                Ok(()) => "Previous shell restored"@,
                Err(e) => e@,
            },
            ..old(a)@
        }),
{
    proof {
        reveal_strlit("Previous shell restored");
    }
    a.message = match r {
        Ok(()) => "Previous shell restored".to_string(),
        Err(e) => e,
    };
}

/// Reports a finished scan with its warnings.
pub fn scanned(a: &mut App, warnings: &Vec<String>)
    ensures
        final(a)@ == (AppView {
            message: "Scan complete. "@ + join_all(warnings.deep_view(), "; "@),
            ..old(a)@
        }),
{
    let w = join_strings(warnings, "; ");
    proof {
        reveal_strlit("Scan complete. ");
        reveal_strlit("; ");
    }
    a.message = concat("Scan complete. ", w.as_str());
}

/// A rescan is due: five seconds passed, no dialog is open and no switch is pending.
pub fn refresh_due(a: &App, elapsed: bool, pending: bool) -> (r: bool)
    ensures
        r == (elapsed && a@.confirm is None && !pending),
{
    elapsed && a.confirm.is_none() && !pending
}

/// An action that changes the desktop or its files is confirmed first: a
/// switch, adoption, hold, release, repair or recovery is asked for only by
/// `y` in an open confirmation dialog, never while searching.
pub proof fn law_mutations_need_confirmation(
    a: AppView,
    p: Confirming,
    k: Key,
    cs: Seq<CandidateView>,
    shown: Seq<usize>,
)
    requires
        ({
            let r = after_key(a, p, k, cs, shown).2;
            r is Switch || r is Adopt || r is Disable || r is Release || r is Repair || r is Recover
        }),
    ensures
        !a.searching,
        a.confirm is Some,
        k == Key::Char('y'),
        after_key(a, p, k, cs, shown).0.confirm is None,
{
}

} // verus!

verus! {

// ------------------------------------------------------------ catalog marks

/// How the catalog marks a candidate, in order of precedence.
#[derive(Debug, Clone, Copy, PartialEq, Eq, Structural)]
pub enum Mark {
    /// It carries an emergency hold.
    Held,
    /// It is the selected shell.
    Selected,
    /// It runs.
    Running,
    /// It suits the current session.
    Compatible,
    /// None of these.
    Other,
}

/// The mark of `c`: a hold first, then the selection, then a running
/// instance, then compatibility with the session.
pub open spec fn mark_of(s: StateView, session: SessionView, c: CandidateView) -> Mark {
    if s.disabled.contains(c.id) {
        Mark::Held
    } else if s.selected == Some(c.id) {
        Mark::Selected
    } else if c.running_pids.len() > 0 {
        Mark::Running
    } else if compatibility_of(session, c) is Ok {
        Mark::Compatible
    } else {
        Mark::Other
    }
}

/// Marks `c` in the catalog.
pub fn mark(s: &State, session: &Session, c: &Candidate) -> (m: Mark)
    ensures
        m == mark_of(s@, session@, c@),
{
    if s.is_held(c.id.as_str()) {
        return Mark::Held;
    }
    let selected = match &s.selected {
        Some(id) => same(id.as_str(), c.id.as_str()),
        None => false,
    };
    if selected {
        Mark::Selected
    } else if c.running_pids.len() > 0 {
        Mark::Running
    } else if session.compatibility(c).is_ok() {
        Mark::Compatible
    } else {
        Mark::Other
    }
}

} // verus!
