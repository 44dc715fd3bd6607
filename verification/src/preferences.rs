//! UI-only preferences: which settings are saved, when a saved file is trusted, and
//! what the interface restores from it. Reading and writing the file is the host's.
use crate::i18n::Language;
use crate::state::{Focus, Panel, Screen, Ui};
use crate::text::{chars_of, join_chars, string_of};
use crate::theme::{THEME_COUNT, theme_index, theme_name, theme_names};
use vstd::prelude::*;

verus! {

/// The largest preferences file accepted, in bytes.
pub const MAX_SETTINGS_BYTES: usize = 8192;

/// The saved preferences.
#[derive(Clone, Debug, PartialEq)]
pub struct Settings {
    pub version: u8,
    pub language: Option<Language>,
    pub theme: String,
    pub transparent: bool,
    pub plain_icons: bool,
    pub reduced_motion: bool,
    pub left_open: bool,
    pub right_open: bool,
    pub queue: bool,
    pub prefer_right: bool,
}

/// What the host found when it read the preferences file.
#[derive(Debug)]
pub enum ReadOutcome {
    /// There is no file yet.
    Missing,
    /// The file could not be opened or read; the system's message.
    Unreadable(String),
    /// The file was read: its length (up to one byte beyond the limit) and its parse.
    Read { length: usize, parsed: Result<Settings, String> },
}

impl Settings {
    /// The settings of a fresh interface, without a saved language.
    pub open spec fn is_default(self) -> bool {
        &&& self.version == 1
        &&& self.language is None
        &&& self.theme@ == "porcelain"@
        &&& !self.transparent && !self.plain_icons && !self.reduced_motion
        &&& self.left_open && self.right_open
        &&& !self.queue && !self.prefer_right
    }

    /// Whether two settings hold the same values.
    pub open spec fn same_spec(self, other: Settings) -> bool {
        &&& self.version == other.version
        &&& self.language == other.language
        &&& self.theme@ == other.theme@
        &&& self.transparent == other.transparent
        &&& self.plain_icons == other.plain_icons
        &&& self.reduced_motion == other.reduced_motion
        &&& self.left_open == other.left_open
        &&& self.right_open == other.right_open
        &&& self.queue == other.queue
        &&& self.prefer_right == other.prefer_right
    }

    /// Whether two settings hold the same values.
    pub fn same(&self, other: &Settings) -> (same: bool)
        ensures
            same == self.same_spec(*other),
    {
        self.version == other.version && self.language == other.language && self.theme
            == other.theme && self.transparent == other.transparent && self.plain_icons
            == other.plain_icons && self.reduced_motion == other.reduced_motion && self.left_open
            == other.left_open && self.right_open == other.right_open && self.queue == other.queue
            && self.prefer_right == other.prefer_right
    }

    /// What `ui` records: version 1, its language and theme name, background, icons,
    /// motion, open panels, the side panel's content and the preferred side.
    pub fn from_ui(ui: &Ui) -> (settings: Settings)
        ensures
            settings.version == 1,
            settings.language == Some(ui.language),
            settings.theme@ == theme_names()[(ui.theme % THEME_COUNT) as int],
            settings.transparent == ui.transparent,
            settings.plain_icons == ui.plain_icons,
            settings.reduced_motion == ui.reduced_motion,
            settings.left_open == ui.left_open,
            settings.right_open == ui.right_open,
            settings.queue == (ui.panel == Panel::Queue),
            settings.prefer_right == (ui.preferred == Focus::Right),
    {
        Settings {
            version: 1,
            language: Some(ui.language),
            theme: String::from_str(theme_name(ui.theme)),
            transparent: ui.transparent,
            plain_icons: ui.plain_icons,
            reduced_motion: ui.reduced_motion,
            left_open: ui.left_open,
            right_open: ui.right_open,
            queue: ui.panel == Panel::Queue,
            prefer_right: ui.preferred == Focus::Right,
        }
    }

    /// The settings of a fresh interface, without a saved language.
    pub fn defaults() -> (settings: Settings)
        ensures
            settings.is_default(),
    {
        let mut settings = Settings::from_ui(&Ui::default());
        settings.language = None;
        settings
    }
}

/// The message for a file that is read but not accepted.
pub open spec fn rejected_settings(outcome: ReadOutcome) -> Option<Seq<char>> {
    match outcome {
        ReadOutcome::Missing => None,
        ReadOutcome::Unreadable(error) => Some(error@),
        ReadOutcome::Read { length, parsed } => if length > MAX_SETTINGS_BYTES {
            Some("설정 파일이 너무 큽니다"@)
        } else {
            match parsed {
                Err(error) => Some(error@),
                Ok(settings) => if settings.version != 1 || !theme_names().contains(settings.theme@) {
                    Some("지원하지 않는 설정입니다"@)
                } else {
                    None
                },
            }
        },
    }
}

/// Accepts what the host read: a missing file gives the defaults; a file that cannot
/// be read, is too large, does not parse, has another version or an unknown theme is
/// rejected with its reason.
pub fn check_settings(outcome: ReadOutcome) -> (settings: Result<Settings, String>)
    ensures
        match settings {
            Err(message) => rejected_settings(outcome) == Some(message@),
            Ok(s) => rejected_settings(outcome) is None && match outcome {
                ReadOutcome::Read { parsed: Ok(read), .. } => s == read,
                _ => s.is_default(),
            },
        },
{
    match outcome {
        ReadOutcome::Missing => Ok(Settings::defaults()),
        ReadOutcome::Unreadable(error) => Err(error),
        ReadOutcome::Read { length, parsed } => {
            if length > MAX_SETTINGS_BYTES {
                return Err(String::from_str("설정 파일이 너무 큽니다"));
            }
            let settings = match parsed {
                Ok(settings) => settings,
                Err(error) => return Err(error),
            };
            let known = theme_index(settings.theme.as_str()).is_some();
            proof {
                if theme_names().contains(settings.theme@) {
                    let j = choose|j: int| 0 <= j < theme_names().len() && theme_names()[j] == settings.theme@;
                    assert(theme_names().len() == THEME_COUNT);
                }
            }
            if settings.version != 1 || !known {
                return Err(String::from_str("지원하지 않는 설정입니다"));
            }
            Ok(settings)
        },
    }
}


/// `prefix` followed by ": " and `detail`.
fn with_detail(prefix: &str, detail: &str) -> (message: String)
    ensures
        message@ == prefix@ + ": "@ + detail@,
{
    let mut head = chars_of(prefix);
    head.push(':');
    head.push(' ');
    let all = join_chars(&head, &chars_of(detail));
    proof {
        reveal_strlit(": ");
        assert(all@ =~= prefix@ + ": "@ + detail@);
    }
    string_of(all.as_slice())
}

/// Saved preferences and whether they may be written back.
pub struct Preferences {
    /// Whether changes are written back.
    pub writable: bool,
    /// The preferences last read or written.
    pub saved: Settings,
    pub warning: Option<String>,
}

impl Preferences {
    /// Opens the preferences the host read (`None` when it keeps none, as in demo
    /// mode). An unreadable, newer or corrupt file is never overwritten: its settings
    /// are replaced by the defaults, nothing is written back, and a warning says why.
    pub fn open(read: Option<ReadOutcome>) -> (preferences: Preferences)
        ensures
            match read {
                None => !preferences.writable && preferences.saved.is_default()
                    && preferences.warning is None,
                Some(outcome) => match rejected_settings(outcome) {
                    Some(reason) => !preferences.writable && preferences.saved.is_default()
                        && (preferences.warning matches Some(w) && w@ == "설정을 읽을 수 없어 기본값을 사용합니다"@
                        + ": "@ + reason),
                    None => preferences.writable && preferences.warning is None && match outcome {
                        ReadOutcome::Read { parsed: Ok(s), .. } => preferences.saved == s,
                        _ => preferences.saved.is_default(),
                    },
                },
            },
    {
        let outcome = match read {
            None => return Preferences { writable: false, saved: Settings::defaults(), warning: None },
            Some(outcome) => outcome,
        };
        match check_settings(outcome) {
            Ok(saved) => Preferences { writable: true, saved, warning: None },
            Err(error) => Preferences {
                writable: false,
                saved: Settings::defaults(),
                warning: Some(with_detail("설정을 읽을 수 없어 기본값을 사용합니다", error.as_str())),
            },
        }
    }

    /// The interface state the preferences restore; without a saved language the
    /// `detected` one is used, and an unknown theme falls back to the first.
    pub fn ui(&self, detected: Language) -> (ui: Ui)
        ensures
            restores(ui, self.saved, detected),
            ui.view == Screen::Songs && ui.focus == Focus::Main && ui.cursors@ == seq![0usize, 0usize],
            ui.dialog is None && ui.editor is None && ui.query@.len() == 0,
    {
        let s = &self.saved;
        let mut ui = Ui::default();
        ui.language = match s.language {
            Some(l) => l,
            None => detected,
        };
        ui.theme = match theme_index(s.theme.as_str()) {
            Some(i) => i,
            None => 0,
        };
        ui.transparent = s.transparent;
        ui.plain_icons = s.plain_icons;
        ui.reduced_motion = s.reduced_motion;
        ui.left_open = s.left_open;
        ui.right_open = s.right_open;
        ui.panel = if s.queue { Panel::Queue } else { Panel::Lyrics };
        ui.preferred = if s.prefer_right { Focus::Right } else { Focus::Nav };
        ui
    }

    /// The settings to write for `ui`: none when nothing is written back or nothing
    /// changed since the last write.
    pub fn save_request(&self, ui: &Ui) -> (settings: Option<Settings>)
        ensures
            match settings {
                Some(s) => self.writable && !records(self.saved, *ui) && records(s, *ui),
                None => !self.writable || records(self.saved, *ui),
            },
    {
        if !self.writable {
            return None;
        }
        let settings = Settings::from_ui(ui);
        if settings.same(&self.saved) {
            None
        } else {
            Some(settings)
        }
    }

    /// Records the host's attempt to write `settings`: a success becomes the saved
    /// state; a failure stops further writes and is reported.
    pub fn saved(&mut self, settings: Settings, written: Result<(), String>) -> (result: Result<(), String>)
        ensures
            match written {
                Ok(()) => result is Ok && final(self).writable == old(self).writable
                    && final(self).saved == settings,
                Err(e) => !final(self).writable && final(self).saved == old(self).saved
                    && (result matches Err(m) && m@ == "설정을 저장하지 못했습니다"@ + ": "@ + e@),
            },
            final(self).warning == old(self).warning,
    {
        match written {
            Ok(()) => {
                self.saved = settings;
                Ok(())
            },
            Err(error) => {
                self.writable = false;
                Err(with_detail("설정을 저장하지 못했습니다", error.as_str()))
            },
        }
    }
}

/// Whether `settings` record `ui`: version 1, its language and theme name, background,
/// icons, motion, open panels, the side panel's content and whether the right side is
/// preferred.
pub open spec fn records(settings: Settings, ui: Ui) -> bool {
    &&& settings.version == 1
    &&& settings.language == Some(ui.language)
    &&& settings.theme@ == theme_names()[(ui.theme % THEME_COUNT) as int]
    &&& settings.transparent == ui.transparent
    &&& settings.plain_icons == ui.plain_icons
    &&& settings.reduced_motion == ui.reduced_motion
    &&& settings.left_open == ui.left_open
    &&& settings.right_open == ui.right_open
    &&& settings.queue == (ui.panel == Panel::Queue)
    &&& settings.prefer_right == (ui.preferred == Focus::Right)
}

/// Whether `ui` is what `saved` restores: the saved language (else `detected`), the
/// named theme (else the first), the saved switches and panels, and the other fields of
/// a fresh interface.
pub open spec fn restores(ui: Ui, saved: Settings, detected: Language) -> bool {
    &&& ui.language == (match saved.language {
        Some(l) => l,
        None => detected,
    })
    &&& (exists|i: int| 0 <= i < THEME_COUNT && theme_names()[i] == saved.theme@) ==> ui.theme
        < THEME_COUNT && theme_names()[ui.theme as int] == saved.theme@
    &&& (forall|i: int| 0 <= i < THEME_COUNT ==> theme_names()[i] != saved.theme@) ==> ui.theme == 0
    &&& ui.transparent == saved.transparent
    &&& ui.plain_icons == saved.plain_icons
    &&& ui.reduced_motion == saved.reduced_motion
    &&& ui.left_open == saved.left_open
    &&& ui.right_open == saved.right_open
    &&& ui.panel == (if saved.queue { Panel::Queue } else { Panel::Lyrics })
    &&& ui.preferred == (if saved.prefer_right { Focus::Right } else { Focus::Nav })
}

/// Saving an interface state and restoring it gives back its language, theme, switches,
/// open panels and side-panel content; a preferred navigation or main focus comes back as
/// the navigation side.
pub proof fn law_preferences_round_trip(ui: Ui, saved: Settings, detected: Language, restored: Ui)
    requires
        ui.theme < THEME_COUNT,
        records(saved, ui),
        restores(restored, saved, detected),
    ensures
        restored.language == ui.language,
        restored.theme == ui.theme,
        restored.transparent == ui.transparent,
        restored.plain_icons == ui.plain_icons,
        restored.reduced_motion == ui.reduced_motion,
        restored.left_open == ui.left_open,
        restored.right_open == ui.right_open,
        restored.panel == ui.panel,
        restored.preferred == (if ui.preferred == Focus::Right { Focus::Right } else { Focus::Nav }),
{
    crate::theme::lemma_theme_names_distinct();
    assert(theme_names()[ui.theme as int] == saved.theme@);
}

} // verus!
