//! Navigation and page state.
//!
//! The interactive application is a set of pages; what each page shows is
//! the rendering layer's business, but which page is current and what
//! state each page carries evolve by the rules here.  Everything that
//! needs the outside world (drive enumeration, a folder picker, saving
//! the configuration) is handed in as a plain value.

use crate::config::Config;
use crate::language::Language;
use crate::utils::UsbDevice;
use vstd::prelude::*;

verus! {

/// The application's pages.
#[derive(Debug, Clone, Copy)]
pub enum Page {
    Home,
    Settings,
    Info,
    Loading,
    Clean,
    Infected,
    Updating,
}

/// A value handed along with a page change: the chosen scan root, or a
/// finished scan's results.
#[derive(Debug, Clone)]
pub enum Param {
    String(String),
    Vector(Vec<String>),
}

/// One card of the infected-files listing.
#[derive(Debug, Clone)]
pub struct VirusComp {
    /// The card's heading: the matched file's name.
    pub title: String,
    /// The card's body: the matched file's full path.
    pub value: String,
    /// The glyph shown beside the card.
    pub icon: String,
}

impl VirusComp {
    pub fn new(title: String, value: String, icon: String) -> (c: VirusComp)
        ensures
            c.title == title,
            c.value == value,
            c.icon == icon,
    {
        VirusComp { title, value, icon }
    }
}

/// A path separator.
pub open spec fn is_sep(c: char) -> bool {
    c == '/' || c == '\\'
}

/// The characters after the last path separator (empty when the path
/// ends with one).
pub open spec fn tail_after_sep(s: Seq<char>) -> Seq<char>
    decreases s.len(),
{
    if s.len() == 0 {
        Seq::empty()
    } else if is_sep(s.last()) {
        Seq::empty()
    } else {
        tail_after_sep(s.drop_last()).push(s.last())
    }
}

/// The name a path is shown under: its last component, or the whole path
/// when there is no such component.
pub open spec fn display_name_spec(s: Seq<char>) -> Seq<char> {
    if tail_after_sep(s).len() == 0 {
        s
    } else {
        tail_after_sep(s)
    }
}

/// The loop invariant of the separator scan: every character from `cut`
/// up to `upto` is a non-separator, and `cut` is zero or just past a
/// separator.
pub open spec fn cut_ok(s: Seq<char>, upto: int, cut: int) -> bool {
    &&& 0 <= cut <= upto <= s.len()
    &&& forall|j: int| cut <= j < upto ==> !is_sep(#[trigger] s[j])
    &&& (cut == 0 || is_sep(s[cut - 1]))
}

proof fn lemma_tail_after_sep(s: Seq<char>, cut: int)
    requires
        cut_ok(s, s.len() as int, cut),
    ensures
        tail_after_sep(s) == s.subrange(cut, s.len() as int),
    decreases s.len(),
{
    if s.len() == 0 {
        assert(tail_after_sep(s) =~= s.subrange(0, 0));
    } else if is_sep(s.last()) {
        assert(cut == s.len());
        assert(tail_after_sep(s) =~= s.subrange(cut, s.len() as int));
    } else {
        assert(cut < s.len());
        assert(cut_ok(s.drop_last(), s.drop_last().len() as int, cut));
        lemma_tail_after_sep(s.drop_last(), cut);
        assert(tail_after_sep(s) =~= s.subrange(cut, s.len() as int));
    }
}

/// The last path component of `path`, or the whole of it when it ends
/// with a separator or has none.
pub fn display_file_name(path: &str) -> (name: String)
    ensures
        name@ == display_name_spec(path@),
{
    let n = path.unicode_len();
    let mut cut: usize = 0;
    let mut i: usize = 0;
    while i < n
        invariant
            0 <= i <= n,
            n == path@.len(),
            cut_ok(path@, i as int, cut as int),
        decreases n - i,
    {
        let c = path.get_char(i);
        if c == '/' || c == '\\' {
            cut = i + 1;
        }
        i = i + 1;
    }
    proof {
        lemma_tail_after_sep(path@, cut as int);
    }
    if cut == n {
        path.to_owned()
    } else {
        path.substring_char(cut, n).to_owned()
    }
}

/// What can happen on the home page.
#[derive(Debug, Clone)]
pub enum HomeMessage {
    LanguageSelected(Language),
    RefreshPressed,
    DriveSelected(String),
    FolderSelected,
    ShowModal,
    CloseModal,
}

/// The home page: scan-root choice and language selection.
#[derive(Debug, Clone)]
pub struct HomePage {
    /// Whether the host offers drive selection only (no folder picker).
    pub is_raspberry_pi: bool,
    pub selected_language: Language,
    /// The chosen scan root, once one is chosen.
    pub drive_path: Option<String>,
    /// The removable drives on offer, when enumeration succeeded.
    pub drives_list: Option<Vec<UsbDevice>>,
    pub show_modal: bool,
}

impl HomePage {
    /// A fresh home page over the host's architecture and the drives its
    /// enumeration found.
    pub fn new(is_raspberry_pi: bool, drives: Option<Vec<UsbDevice>>) -> (p: HomePage)
        ensures
            p.is_raspberry_pi == is_raspberry_pi,
            p.selected_language is English,
            p.drive_path is None,
            p.drives_list == drives,
            !p.show_modal,
    {
        HomePage {
            is_raspberry_pi,
            selected_language: Language::English,
            drive_path: None,
            drives_list: drives,
            show_modal: false,
        }
    }

    /// Applies one message.  `RefreshPressed` and `FolderSelected` need
    /// the outside world and change nothing here; the caller performs
    /// the enumeration or the picking and hands the outcome to
    /// `set_drives` or `set_folder`.
    pub fn apply(&mut self, message: HomeMessage)
        ensures
            message matches HomeMessage::LanguageSelected(l) ==> *final(self) == (HomePage {
                selected_language: l,
                ..*old(self)
            }),
            message matches HomeMessage::DriveSelected(path) ==> *final(self) == (HomePage {
                drive_path: Some(path),
                ..*old(self)
            }),
            message is ShowModal ==> *final(self) == (HomePage { show_modal: true, ..*old(self) }),
            message is CloseModal ==> *final(self) == (HomePage {
                show_modal: false,
                ..*old(self)
            }),
            message is RefreshPressed || message is FolderSelected ==> *final(self) == *old(self),
    {
        match message {
            HomeMessage::LanguageSelected(language) => {
                self.selected_language = language;
            },
            HomeMessage::DriveSelected(path) => {
                self.drive_path = Some(path);
            },
            HomeMessage::ShowModal => {
                self.show_modal = true;
            },
            HomeMessage::CloseModal => {
                self.show_modal = false;
            },
            HomeMessage::RefreshPressed => {},
            HomeMessage::FolderSelected => {},
        }
    }

    /// Takes in a fresh drive enumeration.
    pub fn set_drives(&mut self, drives: Option<Vec<UsbDevice>>)
        ensures
            *final(self) == (HomePage { drives_list: final(self).drives_list, ..*old(self) }),
            final(self).drives_list == drives,
    {
        self.drives_list = drives;
    }

    /// Takes in the folder the user picked, when they picked one.
    pub fn set_folder(&mut self, folder: Option<String>)
        ensures
            folder is Some ==> *final(self) == (HomePage {
                drive_path: folder,
                ..*old(self)
            }),
            folder is None ==> *final(self) == *old(self),
    {
        match folder {
            Some(path) => {
                self.drive_path = Some(path);
            },
            None => {},
        }
    }
}

/// What can happen on the infected page.
#[derive(Debug, Clone)]
pub enum InfectedMessage {
    SetScanResult(Vec<String>),
    CloseModal,
}

/// The infected page: one card per matched file.
#[derive(Debug, Clone)]
pub struct InfectedPage {
    pub virus_list: Vec<VirusComp>,
    pub show_modal: bool,
}

impl InfectedPage {
    pub fn new() -> (p: InfectedPage)
        ensures
            p.virus_list@ == Seq::<VirusComp>::empty(),
            !p.show_modal,
    {
        let p = InfectedPage { virus_list: Vec::new(), show_modal: false };
        proof {
            assert(p.virus_list@ =~= Seq::<VirusComp>::empty());
        }
        p
    }

    /// Takes in a finished scan's match list: one card per matched path,
    /// titled by the path's last component, all under the given glyph.
    /// An empty list is unexpected here and only raises the error modal.
    pub fn set_scan_result(&mut self, scan_res: &Vec<String>, icon: &str)
        ensures
            scan_res@.len() == 0 ==> final(self).virus_list == old(self).virus_list
                && final(self).show_modal,
            scan_res@.len() > 0 ==> {
                &&& final(self).show_modal == old(self).show_modal
                &&& final(self).virus_list@.len() == old(self).virus_list@.len() + scan_res@.len()
                &&& forall|i: int|
                    0 <= i < old(self).virus_list@.len() ==> #[trigger] final(self).virus_list@[i]
                        == old(self).virus_list@[i]
                &&& forall|i: int|
                    old(self).virus_list@.len() <= i < final(self).virus_list@.len() ==> {
                        let card = #[trigger] final(self).virus_list@[i];
                        let path = scan_res@[i - old(self).virus_list@.len()]@;
                        &&& card.title@ == display_name_spec(path)
                        &&& card.value@ == path
                        &&& card.icon@ == icon@
                    }
            },
    {
        if scan_res.len() == 0 {
            self.show_modal = true;
            return ;
        }
        let mut i: usize = 0;
        while i < scan_res.len()
            invariant
                0 <= i <= scan_res@.len(),
                0 < scan_res@.len(),
                self.show_modal == old(self).show_modal,
                self.virus_list@.len() == old(self).virus_list@.len() + i,
                forall|j: int|
                    0 <= j < old(self).virus_list@.len() ==> #[trigger] self.virus_list@[j] == old(
                        self,
                    ).virus_list@[j],
                forall|j: int|
                    old(self).virus_list@.len() <= j < self.virus_list@.len() ==> {
                        let card = #[trigger] self.virus_list@[j];
                        let path = scan_res@[j - old(self).virus_list@.len()]@;
                        &&& card.title@ == display_name_spec(path)
                        &&& card.value@ == path
                        &&& card.icon@ == icon@
                    },
            decreases scan_res@.len() - i,
        {
            let entry = &scan_res[i];
            let title = display_file_name(entry.as_str());
            let card = VirusComp::new(title, entry.clone(), icon.to_owned());
            self.virus_list.push(card);
            i = i + 1;
        }
    }

    pub fn close_modal(&mut self)
        ensures
            *final(self) == (InfectedPage { show_modal: false, ..*old(self) }),
    {
        self.show_modal = false;
    }
}

/// What can happen on the settings page.
#[derive(Debug, Clone)]
pub enum SettingsMessage {
    AutoUpdateTimeSet(String),
    AutoUpdateWeekSet(i32),
    LoggingToggle,
    ObfuscatedToggle,
}

/// The settings page: the configuration being edited.  Persisting it is
/// the caller's business after every change.
pub struct SettingsPage {
    pub config: Config,
}

impl SettingsPage {
    pub fn new(config: Config) -> (p: SettingsPage)
        ensures
            p.config == config,
    {
        SettingsPage { config }
    }

    /// Applies one settings change to the configuration.
    pub fn apply(&mut self, message: SettingsMessage)
        ensures
            message matches SettingsMessage::AutoUpdateTimeSet(t) ==> final(self).config == (Config {
                db_update_time: t,
                ..old(self).config
            }),
            message matches SettingsMessage::AutoUpdateWeekSet(w) ==> final(self).config == (Config {
                db_update_weekday: w,
                ..old(self).config
            }),
            message is LoggingToggle ==> final(self).config == (Config {
                logging_is_active: !old(self).config.logging_is_active,
                ..old(self).config
            }),
            message is ObfuscatedToggle ==> final(self).config == (Config {
                obfuscated_is_active: !old(self).config.obfuscated_is_active,
                ..old(self).config
            }),
    {
        match message {
            SettingsMessage::AutoUpdateTimeSet(update_time) => {
                self.config.db_update_time = update_time;
            },
            SettingsMessage::AutoUpdateWeekSet(update_week) => {
                self.config.db_update_weekday = update_week;
            },
            SettingsMessage::LoggingToggle => {
                self.config.logging_is_active = !self.config.logging_is_active;
            },
            SettingsMessage::ObfuscatedToggle => {
                self.config.obfuscated_is_active = !self.config.obfuscated_is_active;
            },
        }
    }
}

/// The clean page carries no state: it only reports that nothing was
/// found.
#[derive(Debug, Clone)]
pub struct CleanPage {}

impl CleanPage {
    pub fn new() -> CleanPage {
        CleanPage {  }
    }
}

} // verus!
