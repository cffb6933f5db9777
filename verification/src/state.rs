//! The dispatch core: the application state, the intent messages the
//! presentation layer sends, the effects handed back to the driver, and the
//! verified state machine stepping one message at a time.
//!
//! Every transition is specified by a spec function over [`SpecToolBox`],
//! the mathematical image of the state; [`ToolBox::update`] is proved to
//! step exactly as those functions say.

use vstd::prelude::*;

use crate::program::{
    status_after, view_opt_string, Programm, ProgrammManipulation, ProgrammStatus, SpecProgram,
    StatusMessageType,
};
use crate::registry::{names_of, seq_lookup, seq_set_status, Registry};
use crate::search::{filter_names, spec_filter};
use crate::strings::{drop_last_char, str_eq};

verus! {

/// The screens of the navigation state machine; `ExitProgramm` is terminal
/// and makes the driver stop the process.
#[derive(Clone, Copy, Debug, PartialEq, Eq, Structural)]
pub enum ControlMenuVariations {
    HelpMenu,
    ProgrammsMenu,
    ConfigsMenu,
    ExitProgramm,
}

/// One keystroke of the search overlay.
#[derive(Debug)]
pub enum SearchKey {
    Character(String),
    Space,
    Backspace,
    ArrowDown,
    ArrowUp,
    Enter,
    Escape,
}

/// An intent message dispatched against the core.
#[derive(Debug)]
pub enum Message {
    SelectProgrammFromList(String),
    RunProgrammDefault,
    OpenContainingFolder,
    OpenDocsOnline,
    OpenLink(String),
    ControlMenuBtn(ControlMenuVariations),
    ManipulateProgramm(ProgrammManipulation),
    /// A tracked completion: the operation kind, the program name captured
    /// at dispatch time, and the script's outcome.
    Manipulationresult(ProgrammManipulation, String, Result<(), String>),
    SearchKey(SearchKey),
    /// The driver hands back the help source; `None` when it is missing.
    HelpLoaded(Option<String>),
    /// The driver reports a failed best-effort action (open, locate, run).
    ReportError(String),
}

/// Outside work the driver performs after a dispatch step.
#[derive(Debug)]
pub enum Effect {
    /// Run the script detached; a failure comes back as `ReportError`.
    RunDetached { script: String },
    /// Run the script tracked; the driver comes back with
    /// `Manipulationresult` carrying the same kind and name.
    RunTracked { kind: ProgrammManipulation, name: String, script: String },
    OpenUrl { url: String },
    /// Locate the executable behind `call` and open its parent folder.
    OpenFolderOf { call: String },
    /// Read the help source and come back with `HelpLoaded`.
    LoadHelp,
    /// Terminate the process.
    Exit,
}

/// Mathematical image of the application state.
#[verifier::ext_equal]
pub ghost struct SpecToolBox {
    pub programms: Seq<SpecProgram>,
    pub current_programm: Option<SpecProgram>,
    pub config_name: Seq<char>,
    pub status_text: Seq<char>,
    pub status_kind: StatusMessageType,
    pub cur_menu: ControlMenuVariations,
    pub help_text: Seq<char>,
    pub search_text: Seq<char>,
    pub search_selected: bool,
    pub selected_result_index: int,
    pub search_programms_names: Seq<Seq<char>>,
}

pub open spec fn view_opt_program(o: Option<Programm>) -> Option<SpecProgram> {
    match o {
        Some(p) => Some(p@),
        None => None,
    }
}

pub open spec fn view_result(r: Result<(), String>) -> Result<(), Seq<char>> {
    match r {
        Ok(u) => Ok(u),
        Err(e) => Err(e@),
    }
}

/// The application state owned by the dispatch loop.
pub struct ToolBox {
    pub programms: Registry,
    pub current_programm: Option<Programm>,
    pub config_name: String,
    pub status_message: (String, StatusMessageType),
    pub cur_menu: ControlMenuVariations,
    pub help_text: String,
    pub search_text: String,
    pub search_selected: bool,
    pub selected_result_index: usize,
    pub search_programms_names: Vec<String>,
}

impl View for ToolBox {
    type V = SpecToolBox;

    open spec fn view(&self) -> SpecToolBox {
        SpecToolBox {
            programms: self.programms@,
            current_programm: view_opt_program(self.current_programm),
            config_name: self.config_name@,
            status_text: self.status_message.0@,
            status_kind: self.status_message.1,
            cur_menu: self.cur_menu,
            help_text: self.help_text@,
            search_text: self.search_text@,
            search_selected: self.search_selected,
            selected_result_index: self.selected_result_index as int,
            search_programms_names: self.search_programms_names.deep_view(),
        }
    }
}

/// The search cursor always lies within `[0, max(matches.len()-1, 0)]`.
pub open spec fn cursor_in_range(cursor: int, matches_len: int) -> bool {
    0 <= cursor && (if matches_len == 0 {
        cursor == 0
    } else {
        cursor <= matches_len - 1
    })
}

/// The cursor such a recomputation leaves behind: the old one, clamped to
/// the new match list.
pub open spec fn clamp_cursor(cursor: int, matches_len: int) -> int {
    if matches_len == 0 {
        0
    } else if cursor > matches_len - 1 {
        matches_len - 1
    } else {
        cursor
    }
}

/// The status channel's idle text.
pub open spec fn ok_status_text() -> Seq<char> {
    "Ok"@
}

/// Shown when the help source cannot be found.
pub open spec fn missing_help_text() -> Seq<char> {
    "Can't find a README.md file, help and docs stored in it."@
}

/// Search state after a reset: inactive, empty query, zero cursor, no
/// matches.  Applied on committing, cancelling, and navigating.
pub open spec fn spec_reset_search(s: SpecToolBox) -> SpecToolBox {
    SpecToolBox {
        search_selected: false,
        search_text: Seq::empty(),
        selected_result_index: 0,
        search_programms_names: Seq::empty(),
        ..s
    }
}

/// Selecting a program: the search overlay resets; when the name is in the
/// registry, that entry becomes the current program.
pub open spec fn spec_select(s: SpecToolBox, name: Seq<char>) -> SpecToolBox {
    let t = spec_reset_search(s);
    match seq_lookup(s.programms, name) {
        Some(p) => SpecToolBox { current_programm: Some(p), ..t },
        None => t,
    }
}

/// Overwrite the single status slot.
pub open spec fn spec_set_status(
    s: SpecToolBox,
    text: Seq<char>,
    kind: StatusMessageType,
) -> SpecToolBox {
    SpecToolBox { status_text: text, status_kind: kind, ..s }
}

/// Navigating to a screen: the search overlay resets and the screen changes.
pub open spec fn spec_navigate(s: SpecToolBox, v: ControlMenuVariations) -> SpecToolBox {
    SpecToolBox { cur_menu: v, ..spec_reset_search(s) }
}

/// The help text handed back by the driver, or the placeholder.
pub open spec fn spec_help_loaded(s: SpecToolBox, text: Option<Seq<char>>) -> SpecToolBox {
    SpecToolBox {
        help_text: match text {
            Some(t) => t,
            None => missing_help_text(),
        },
        ..s
    }
}

/// A tracked completion.  On success the program named at dispatch time gets
/// the status the operation kind leaves behind — in the registry and, when
/// the selection still shows that name, in the in-view copy — and the status
/// channel returns to idle.  On failure nothing changes but the status
/// channel, which carries the error text.
pub open spec fn spec_completion(
    s: SpecToolBox,
    kind: ProgrammManipulation,
    name: Seq<char>,
    res: Result<(), Seq<char>>,
) -> SpecToolBox {
    match res {
        Ok(_) => SpecToolBox {
            programms: seq_set_status(s.programms, name, status_after(kind)),
            current_programm: match s.current_programm {
                Some(c) => if c.name == name {
                    Some(SpecProgram { status: status_after(kind), ..c })
                } else {
                    Some(c)
                },
                None => None,
            },
            status_text: ok_status_text(),
            status_kind: StatusMessageType::Success,
            ..s
        },
        Err(e) => spec_set_status(s, e, StatusMessageType::Error),
    }
}

/// A character (or space) typed into the search overlay: activate if needed,
/// extend the query, recompute the matches, clamp the cursor to them.
pub open spec fn spec_search_input(s: SpecToolBox, txt: Seq<char>) -> SpecToolBox {
    let q = if s.search_selected {
        s.search_text + txt
    } else {
        txt
    };
    let m = spec_filter(names_of(s.programms), q);
    SpecToolBox {
        search_selected: true,
        search_text: q,
        search_programms_names: m,
        selected_result_index: clamp_cursor(s.selected_result_index, m.len() as int),
        ..s
    }
}

/// Backspace: the matches are recomputed from the query as it still stands,
/// then the query loses its last character.
pub open spec fn spec_search_backspace(s: SpecToolBox) -> SpecToolBox {
    let m = spec_filter(names_of(s.programms), s.search_text);
    SpecToolBox {
        search_text: if s.search_text.len() == 0 {
            s.search_text
        } else {
            s.search_text.take(s.search_text.len() - 1)
        },
        search_programms_names: m,
        selected_result_index: clamp_cursor(s.selected_result_index, m.len() as int),
        ..s
    }
}

/// Arrow-down: increment, clamped to `max(matches.len()-1, 0)`.
pub open spec fn spec_arrow_down(s: SpecToolBox) -> SpecToolBox {
    let len = s.search_programms_names.len() as int;
    let bound = if len == 0 {
        0
    } else {
        len - 1
    };
    SpecToolBox {
        selected_result_index: if s.selected_result_index + 1 > bound {
            bound
        } else {
            s.selected_result_index + 1
        },
        ..s
    }
}

/// Arrow-up: decrement, clamped at zero.
pub open spec fn spec_arrow_up(s: SpecToolBox) -> SpecToolBox {
    SpecToolBox {
        selected_result_index: if s.selected_result_index > 0 {
            s.selected_result_index - 1
        } else {
            0
        },
        ..s
    }
}

/// Enter: against the freshly recomputed match list, select the entry at the
/// clamped cursor; with no match, only the search overlay resets.
pub open spec fn spec_enter(s: SpecToolBox) -> SpecToolBox {
    let avail = spec_filter(names_of(s.programms), s.search_text);
    if avail.len() > 0 {
        spec_select(s, avail[clamp_cursor(s.selected_result_index, avail.len() as int)])
    } else {
        spec_reset_search(s)
    }
}

/// Escape: cancel an active search, otherwise head for the exit screen.
pub open spec fn spec_escape(s: SpecToolBox) -> SpecToolBox {
    if s.search_selected {
        spec_reset_search(s)
    } else {
        spec_navigate(s, ControlMenuVariations::ExitProgramm)
    }
}

/// The state a search keystroke leaves behind.
pub open spec fn spec_search_key(s: SpecToolBox, k: SearchKey) -> SpecToolBox {
    match k {
        SearchKey::Character(txt) => spec_search_input(s, txt@),
        SearchKey::Space => spec_search_input(s, " "@),
        SearchKey::Backspace => spec_search_backspace(s),
        SearchKey::ArrowDown => spec_arrow_down(s),
        SearchKey::ArrowUp => spec_arrow_up(s),
        SearchKey::Enter => spec_enter(s),
        SearchKey::Escape => spec_escape(s),
    }
}

impl ToolBox {
    /// Well-formedness: the registry invariant holds and the search cursor
    /// is bounded by the current match list.
    pub open spec fn wf(&self) -> bool {
        &&& self.programms.wf()
        &&& cursor_in_range(
            self@.selected_result_index,
            self@.search_programms_names.len() as int,
        )
    }

    /// The initial state over a loaded registry: program browser screen,
    /// nothing selected, idle status channel, inactive search.
    pub fn new(programms: Registry, config_name: String) -> (r: ToolBox)
        requires
            programms.wf(),
        ensures
            r.wf(),
            r@.programms == programms@,
            r@.config_name == config_name@,
            r@.current_programm is None,
            r@.cur_menu == ControlMenuVariations::ProgrammsMenu,
            r@.status_text == ok_status_text(),
            r@.status_kind == StatusMessageType::Success,
            r@.help_text == Seq::<char>::empty(),
            r@.search_selected == false,
            r@.search_text == Seq::<char>::empty(),
            r@.selected_result_index == 0,
            r@.search_programms_names == Seq::<Seq<char>>::empty(),
    {
        let r = ToolBox {
            programms,
            current_programm: None,
            config_name,
            status_message: (String::from_str("Ok"), StatusMessageType::Success),
            cur_menu: ControlMenuVariations::ProgrammsMenu,
            help_text: String::new(),
            search_text: String::new(),
            search_selected: false,
            selected_result_index: 0,
            search_programms_names: Vec::new(),
        };
        proof {
            assert(r@.search_programms_names =~= Seq::<Seq<char>>::empty());
        }
        r
    }

    /// All registry names that start with the given literal prefix, in
    /// registry order.
    pub fn programms_startswith(&self, startswith: &str) -> (r: Vec<String>)
        ensures
            r.deep_view() == spec_filter(self.programms.names(), startswith@),
    {
        let names = self.programms.ordered_names();
        filter_names(&names, startswith)
    }

    /// Reset the search overlay: deactivate, clear the query and the match
    /// list, zero the cursor.
    fn reset_search(&mut self)
        ensures
            final(self)@ == spec_reset_search(old(self)@),
    {
        self.search_selected = false;
        self.search_text = String::new();
        self.selected_result_index = 0;
        self.search_programms_names = Vec::new();
        proof {
            assert(self@.search_programms_names =~= Seq::<Seq<char>>::empty());
            assert(self@ =~= spec_reset_search(old(self)@));
        }
    }

    /// Select the program stored under `name`, resetting the search overlay.
    fn do_select(&mut self, name: &str)
        requires
            old(self).programms.wf(),
        ensures
            final(self)@ == spec_select(old(self)@, name@),
    {
        self.reset_search();
        match self.programms.lookup(name) {
            Some(p) => {
                self.current_programm = Some(p);
            },
            None => {},
        }
        proof {
            assert(self@ =~= spec_select(old(self)@, name@));
        }
    }

    /// Clamp a cursor to a match list of the given length.
    fn clamp_index(cursor: usize, len: usize) -> (r: usize)
        ensures
            r as int == clamp_cursor(cursor as int, len as int),
            cursor_in_range(r as int, len as int),
    {
        if len == 0 {
            0
        } else if cursor > len - 1 {
            len - 1
        } else {
            cursor
        }
    }

    /// Recompute the match list from the query as it stands and clamp the
    /// cursor to it.
    fn refresh_matches(&mut self)
        requires
            old(self).programms.wf(),
        ensures
            final(self)@ == (SpecToolBox {
                search_programms_names: spec_filter(
                    names_of(old(self)@.programms),
                    old(self)@.search_text,
                ),
                selected_result_index: clamp_cursor(
                    old(self)@.selected_result_index,
                    spec_filter(
                        names_of(old(self)@.programms),
                        old(self)@.search_text,
                    ).len() as int,
                ),
                ..old(self)@
            }),
            cursor_in_range(
                final(self)@.selected_result_index,
                final(self)@.search_programms_names.len() as int,
            ),
    {
        let m = self.programms_startswith(self.search_text.as_str());
        self.selected_result_index = Self::clamp_index(self.selected_result_index, m.len());
        self.search_programms_names = m;
        proof {
            assert(self@ =~= (SpecToolBox {
                search_programms_names: spec_filter(
                    names_of(old(self)@.programms),
                    old(self)@.search_text,
                ),
                selected_result_index: clamp_cursor(
                    old(self)@.selected_result_index,
                    spec_filter(
                        names_of(old(self)@.programms),
                        old(self)@.search_text,
                    ).len() as int,
                ),
                ..old(self)@
            }));
        }
    }

    /// Dispatch one message against the state, returning the outside work
    /// the driver must perform.  The state moves exactly as the spec
    /// transition functions say, and stays well-formed.
    pub fn update(&mut self, message: Message) -> (eff: Option<Effect>)
        requires
            old(self).wf(),
        ensures
            final(self).wf(),
            match message {
                Message::SelectProgrammFromList(name) => {
                    &&& final(self)@ == spec_select(old(self)@, name@)
                    &&& eff is None
                },
                Message::RunProgrammDefault => {
                    &&& final(self)@ == old(self)@
                    &&& match old(self)@.current_programm {
                        Some(p) => match p.call {
                            Some(c) => match eff {
                                Some(Effect::RunDetached { script }) => script@ == c,
                                _ => false,
                            },
                            None => eff is None,
                        },
                        None => eff is None,
                    }
                },
                Message::OpenContainingFolder => {
                    &&& final(self)@ == old(self)@
                    &&& match old(self)@.current_programm {
                        Some(p) => match p.call {
                            Some(c) => match eff {
                                Some(Effect::OpenFolderOf { call }) => call@ == c,
                                _ => false,
                            },
                            None => eff is None,
                        },
                        None => eff is None,
                    }
                },
                Message::OpenDocsOnline => {
                    &&& final(self)@ == old(self)@
                    &&& match old(self)@.current_programm {
                        Some(p) => match p.docs_link {
                            Some(d) => match eff {
                                Some(Effect::OpenUrl { url }) => url@ == d,
                                _ => false,
                            },
                            None => eff is None,
                        },
                        None => eff is None,
                    }
                },
                Message::OpenLink(link) => {
                    &&& final(self)@ == old(self)@
                    &&& match eff {
                        Some(Effect::OpenUrl { url }) => url@ == link@,
                        _ => false,
                    }
                },
                Message::ControlMenuBtn(v) => {
                    &&& final(self)@ == spec_navigate(old(self)@, v)
                    &&& match v {
                        ControlMenuVariations::ExitProgramm => eff == Some(Effect::Exit),
                        ControlMenuVariations::HelpMenu => eff == Some(Effect::LoadHelp),
                        _ => eff is None,
                    }
                },
                Message::ManipulateProgramm(kind) => {
                    &&& final(self)@ == old(self)@
                    &&& match old(self)@.current_programm {
                        Some(p) => match eff {
                            Some(Effect::RunTracked { kind: k, name, script }) => {
                                &&& k == kind
                                &&& name@ == p.name
                                &&& script@ == (match kind {
                                    ProgrammManipulation::Install => p.installation,
                                    ProgrammManipulation::Uninstall => p.deletion,
                                })
                            },
                            _ => false,
                        },
                        None => eff is None,
                    }
                },
                Message::Manipulationresult(kind, name, result) => {
                    &&& final(self)@ == spec_completion(
                        old(self)@,
                        kind,
                        name@,
                        view_result(result),
                    )
                    &&& eff is None
                },
                Message::SearchKey(k) => {
                    &&& final(self)@ == spec_search_key(old(self)@, k)
                    &&& match k {
                        SearchKey::Escape => if old(self)@.search_selected {
                            eff is None
                        } else {
                            eff == Some(Effect::Exit)
                        },
                        _ => eff is None,
                    }
                },
                Message::HelpLoaded(text) => {
                    &&& final(self)@ == spec_help_loaded(old(self)@, view_opt_string(text))
                    &&& eff is None
                },
                Message::ReportError(text) => {
                    &&& final(self)@ == spec_set_status(
                        old(self)@,
                        text@,
                        StatusMessageType::Error,
                    )
                    &&& eff is None
                },
            },
    {
        match message {
            Message::SelectProgrammFromList(name) => {
                self.do_select(name.as_str());
                None
            },
            Message::RunProgrammDefault => {
                match &self.current_programm {
                    Some(p) => match &p.call {
                        Some(c) => Some(Effect::RunDetached { script: c.clone() }),
                        None => None,
                    },
                    None => None,
                }
            },
            Message::OpenContainingFolder => {
                match &self.current_programm {
                    Some(p) => match &p.call {
                        Some(c) => Some(Effect::OpenFolderOf { call: c.clone() }),
                        None => None,
                    },
                    None => None,
                }
            },
            Message::OpenDocsOnline => {
                match &self.current_programm {
                    Some(p) => match &p.docs_link {
                        Some(d) => Some(Effect::OpenUrl { url: d.clone() }),
                        None => None,
                    },
                    None => None,
                }
            },
            Message::OpenLink(link) => Some(Effect::OpenUrl { url: link }),
            Message::ControlMenuBtn(v) => {
                self.reset_search();
                self.cur_menu = v;
                proof {
                    assert(self@ =~= spec_navigate(old(self)@, v));
                }
                match v {
                    ControlMenuVariations::ExitProgramm => Some(Effect::Exit),
                    ControlMenuVariations::HelpMenu => Some(Effect::LoadHelp),
                    _ => None,
                }
            },
            Message::ManipulateProgramm(kind) => {
                match &self.current_programm {
                    Some(p) => {
                        let script = match kind {
                            ProgrammManipulation::Install => p.installation.clone(),
                            ProgrammManipulation::Uninstall => p.deletion.clone(),
                        };
                        Some(
                            Effect::RunTracked { kind, name: p.name.clone(), script },
                        )
                    },
                    None => None,
                }
            },
            Message::Manipulationresult(kind, name, result) => {
                match result {
                    Ok(_) => {
                        let st = match kind {
                            ProgrammManipulation::Install => ProgrammStatus::Installed,
                            ProgrammManipulation::Uninstall => ProgrammStatus::NotInstalled,
                        };
                        self.programms.set_status(name.as_str(), st);
                        let updated: Option<Programm> = match &self.current_programm {
                            Some(c) => {
                                if str_eq(c.name.as_str(), name.as_str()) {
                                    Some(c.with_status(st))
                                } else {
                                    Some(c.duplicate())
                                }
                            },
                            None => None,
                        };
                        self.current_programm = updated;
                        self.status_message = (
                            String::from_str("Ok"),
                            StatusMessageType::Success,
                        );
                        proof {
                            assert(self@ =~= spec_completion(
                                old(self)@,
                                kind,
                                name@,
                                view_result(result),
                            ));
                        }
                    },
                    Err(e) => {
                        self.status_message = (e, StatusMessageType::Error);
                        proof {
                            assert(self@ =~= spec_completion(
                                old(self)@,
                                kind,
                                name@,
                                view_result(result),
                            ));
                        }
                    },
                }
                None
            },
            Message::SearchKey(k) => self.handle_search_key(k),
            Message::HelpLoaded(text) => {
                match text {
                    Some(t) => {
                        self.help_text = t;
                    },
                    None => {
                        self.help_text = String::from_str(
                            "Can't find a README.md file, help and docs stored in it.",
                        );
                    },
                }
                proof {
                    assert(self@ =~= spec_help_loaded(old(self)@, view_opt_string(text)));
                }
                None
            },
            Message::ReportError(text) => {
                self.status_message = (text, StatusMessageType::Error);
                proof {
                    assert(self@ =~= spec_set_status(
                        old(self)@,
                        text@,
                        StatusMessageType::Error,
                    ));
                }
                None
            },
        }
    }

    /// Step one search keystroke.
    fn handle_search_key(&mut self, k: SearchKey) -> (eff: Option<Effect>)
        requires
            old(self).wf(),
        ensures
            final(self).wf(),
            final(self)@ == spec_search_key(old(self)@, k),
            match k {
                SearchKey::Escape => if old(self)@.search_selected {
                    eff is None
                } else {
                    eff == Some(Effect::Exit)
                },
                _ => eff is None,
            },
    {
        match k {
            SearchKey::Character(txt) => {
                if !self.search_selected {
                    self.search_selected = true;
                    self.search_text = txt;
                } else {
                    self.search_text.append(txt.as_str());
                }
                self.refresh_matches();
                proof {
                    assert(self@ =~= spec_search_input(old(self)@, txt@));
                }
                None
            },
            SearchKey::Space => {
                if !self.search_selected {
                    self.search_selected = true;
                    self.search_text = String::from_str(" ");
                } else {
                    self.search_text.append(" ");
                }
                self.refresh_matches();
                proof {
                    assert(self@ =~= spec_search_input(old(self)@, " "@));
                }
                None
            },
            SearchKey::Backspace => {
                self.refresh_matches();
                self.search_text = drop_last_char(&self.search_text);
                proof {
                    assert(self@ =~= spec_search_backspace(old(self)@));
                }
                None
            },
            SearchKey::ArrowDown => {
                let len = self.search_programms_names.len();
                let bound: usize = if len == 0 {
                    0
                } else {
                    len - 1
                };
                if self.selected_result_index < bound {
                    self.selected_result_index = self.selected_result_index + 1;
                }
                proof {
                    assert(self@ =~= spec_arrow_down(old(self)@));
                }
                None
            },
            SearchKey::ArrowUp => {
                if self.selected_result_index > 0 {
                    self.selected_result_index = self.selected_result_index - 1;
                }
                proof {
                    assert(self@ =~= spec_arrow_up(old(self)@));
                }
                None
            },
            SearchKey::Enter => {
                let avail = self.programms_startswith(self.search_text.as_str());
                if avail.len() > 0 {
                    let idx = Self::clamp_index(self.selected_result_index, avail.len());
                    let name = avail[idx].clone();
                    self.do_select(name.as_str());
                    proof {
                        assert(avail.deep_view()[idx as int] == name@);
                        assert(self@ =~= spec_enter(old(self)@));
                    }
                } else {
                    self.reset_search();
                    proof {
                        assert(self@ =~= spec_enter(old(self)@));
                    }
                }
                None
            },
            SearchKey::Escape => {
                if self.search_selected {
                    self.reset_search();
                    proof {
                        assert(self@ =~= spec_escape(old(self)@));
                    }
                    None
                } else {
                    self.reset_search();
                    self.cur_menu = ControlMenuVariations::ExitProgramm;
                    proof {
                        assert(self@ =~= spec_escape(old(self)@));
                    }
                    Some(Effect::Exit)
                }
            },
        }
    }
}

/// The script-execution contract's outcome mapping: success exactly when
/// the process reported success, otherwise the captured stderr text behind
/// the failure notice.  The driver feeds the result back as a completion.
pub fn script_outcome(exit_success: bool, stderr: String) -> (r: Result<(), String>)
    ensures
        match r {
            Ok(_) => exit_success,
            Err(e) => !exit_success && e@ == "Installation failed: "@ + stderr@,
        },
{
    if exit_success {
        Ok(())
    } else {
        Err(String::from_str("Installation failed: ").concat(stderr.as_str()))
    }
}

/// Committing a selection with an empty match list never changes the
/// current program.
pub proof fn lemma_commit_empty_keeps_current(s: SpecToolBox)
    requires
        spec_filter(names_of(s.programms), s.search_text).len() == 0,
    ensures
        spec_enter(s).current_programm == s.current_programm,
{
}

/// A tracked completion updates exactly the programs carrying the name
/// captured at dispatch time — however the selection moved in between — and
/// leaves every other entry untouched, in place and in order.
pub proof fn lemma_completion_targets_captured_name(
    s: SpecToolBox,
    kind: ProgrammManipulation,
    name: Seq<char>,
)
    ensures
        spec_completion(s, kind, name, Ok(())).programms.len() == s.programms.len(),
        forall|i: int|
            0 <= i < s.programms.len() && s.programms[i].name != name ==> spec_completion(
                s,
                kind,
                name,
                Ok(()),
            ).programms[i] == s.programms[i],
        forall|i: int|
            0 <= i < s.programms.len() && s.programms[i].name == name ==> spec_completion(
                s,
                kind,
                name,
                Ok(()),
            ).programms[i] == (SpecProgram { status: status_after(kind), ..s.programms[i] }),
{
}

} // verus!
