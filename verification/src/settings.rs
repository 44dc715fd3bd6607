//! The rows of the live settings modal, and what choosing one does to the interface.
use crate::i18n::{Language, translated};
use crate::state::{Choice, Focus, MenuRow, Panel, Ui};
use crate::text::string_of;
use crate::text::chars_of;
use crate::theme::{THEME_COUNT, theme_name, theme_names};
use vstd::prelude::*;

verus! {

#[derive(Clone, Copy, Debug, PartialEq, Eq, Structural)]
pub enum Setting {
    Theme,
    Language,
    Background,
    Icons,
    Motion,
    Navigation,
    SidePanel,
    SideContent,
}

/// What the caller still has to do after a setting changed the interface state.
#[derive(Clone, Copy, Debug, PartialEq, Eq, Structural)]
pub struct SettingEffect {
    /// The lyrics panel came back, so a full-screen lyrics view gives way to it.
    pub leave_full_lyrics: bool,
    /// The side panel changed content, so a manual lyrics scroll no longer applies.
    pub reset_lyric_scroll: bool,
}

/// The settings in menu order.
pub open spec fn setting_order() -> Seq<Setting> {
    seq![
        Setting::Theme,
        Setting::Language,
        Setting::Background,
        Setting::Icons,
        Setting::Motion,
        Setting::Navigation,
        Setting::SidePanel,
        Setting::SideContent,
    ]
}

/// The Korean label of a setting row.
pub open spec fn setting_label(setting: Setting) -> Seq<char> {
    match setting {
        Setting::Theme => "테마"@,
        Setting::Language => "언어"@,
        Setting::Background => "배경"@,
        Setting::Icons => "아이콘"@,
        Setting::Motion => "움직임 줄이기"@,
        Setting::Navigation => "탐색 패널"@,
        Setting::SidePanel => "가사·큐 패널"@,
        Setting::SideContent => "패널 내용"@,
    }
}

/// The Korean text for a switch.
pub open spec fn switch_text(on: bool) -> Seq<char> {
    if on {
        "켜짐"@
    } else {
        "꺼짐"@
    }
}

/// The Korean text of a setting's current value.
pub open spec fn setting_value(setting: Setting, ui: Ui) -> Seq<char> {
    match setting {
        Setting::Theme => theme_names()[(ui.theme % THEME_COUNT) as int],
        Setting::Language => match ui.language {
            Language::Korean => "한국어"@,
            Language::English => "English"@,
        },
        Setting::Background => if ui.transparent {
            "터미널"@
        } else {
            "테마"@
        },
        Setting::Icons => if ui.plain_icons {
            "기본"@
        } else {
            "Nerd Font"@
        },
        Setting::Motion => switch_text(ui.reduced_motion),
        Setting::Navigation => switch_text(ui.left_open),
        Setting::SidePanel => switch_text(ui.right_open),
        Setting::SideContent => if ui.panel == Panel::Lyrics {
            "가사"@
        } else {
            "재생 큐"@
        },
    }
}

/// The theme index `step` places away from `theme`, counting cyclically.
pub open spec fn stepped_theme(theme: usize, step: i32) -> int {
    ((theme as i32) + step) % (THEME_COUNT as int)
}

/// The interface state after choosing `setting` in direction `step`.
pub open spec fn applied(setting: Setting, ui: Ui, step: i32) -> Ui {
    match setting {
        Setting::Theme => Ui { theme: stepped_theme(ui.theme, step) as usize, ..ui },
        Setting::Language => Ui {
            language: match ui.language {
                Language::Korean => Language::English,
                Language::English => Language::Korean,
            },
            ..ui
        },
        Setting::Background => Ui { transparent: !ui.transparent, ..ui },
        Setting::Icons => Ui { plain_icons: !ui.plain_icons, ..ui },
        Setting::Motion => Ui { reduced_motion: !ui.reduced_motion, ..ui },
        Setting::Navigation => Ui {
            left_open: !ui.left_open,
            preferred: if !ui.left_open {
                Focus::Nav
            } else {
                ui.preferred
            },
            ..ui
        },
        Setting::SidePanel => Ui {
            right_open: !ui.right_open,
            preferred: if !ui.right_open {
                Focus::Right
            } else {
                ui.preferred
            },
            ..ui
        },
        Setting::SideContent => Ui {
            panel: if ui.panel == Panel::Lyrics {
                Panel::Queue
            } else {
                Panel::Lyrics
            },
            ..ui
        },
    }
}

/// Whether choosing `step` on the theme row stays within `i32`, as the step is taken there.
pub open spec fn step_fits(setting: Setting, ui: Ui, step: i32) -> bool {
    setting == Setting::Theme ==> i32::MIN <= (ui.theme as i32) + step <= i32::MAX
}

/// The theme index `direction` places away from `theme`, counting cyclically.
fn step_theme(theme: usize, direction: i32) -> (stepped: usize)
    requires
        i32::MIN <= (theme as i32) + direction <= i32::MAX,
    ensures
        stepped == stepped_theme(theme, direction),
{
    let sum: i64 = (theme as i32) as i64 + direction as i64;
    let rest: u64 = if sum >= 0 {
        (sum as u64) % (THEME_COUNT as u64)
    } else {
        let back: u64 = ((-sum) as u64) % (THEME_COUNT as u64);
        if back == 0 {
            0
        } else {
            THEME_COUNT as u64 - back
        }
    };
    assert(rest == (sum as int) % 5) by {
        if sum < 0 {
            let n: int = -(sum as int);
            let q: int = n / 5;
            assert(n == 5 * q + n % 5);
            assert(sum as int == 5 * (-q - 1) + (5 - n % 5));
        }
    }
    rest as usize
}

/// Flips one of the two-valued presentation settings.
fn switch(setting: Setting, ui: &mut Ui)
    requires
        setting == Setting::Language || setting == Setting::Background || setting
            == Setting::Icons || setting == Setting::Motion,
    ensures
        *final(ui) == applied(setting, *old(ui), 0),
{
    match setting {
        Setting::Language => {
            ui.language = match ui.language {
                Language::Korean => Language::English,
                Language::English => Language::Korean,
            };
        },
        Setting::Background => {
            ui.transparent = !ui.transparent;
        },
        Setting::Icons => {
            ui.plain_icons = !ui.plain_icons;
        },
        _ => {
            ui.reduced_motion = !ui.reduced_motion;
        },
    }
}

/// Opens or closes a side panel; a panel that opens becomes the preferred focus.
fn open_or_close(setting: Setting, ui: &mut Ui)
    requires
        setting == Setting::Navigation || setting == Setting::SidePanel,
    ensures
        *final(ui) == applied(setting, *old(ui), 0),
{
    if setting == Setting::Navigation {
        ui.left_open = !ui.left_open;
        if ui.left_open {
            ui.preferred = Focus::Nav;
        }
    } else {
        ui.right_open = !ui.right_open;
        if ui.right_open {
            ui.preferred = Focus::Right;
        }
    }
}

impl Setting {
    /// The setting at `index` in menu order.
    pub fn nth(index: usize) -> (setting: Option<Setting>)
        ensures
            setting == (if index < setting_order().len() {
                Some(setting_order()[index as int])
            } else {
                None
            }),
    {
        match index {
            0 => Some(Setting::Theme),
            1 => Some(Setting::Language),
            2 => Some(Setting::Background),
            3 => Some(Setting::Icons),
            4 => Some(Setting::Motion),
            5 => Some(Setting::Navigation),
            6 => Some(Setting::SidePanel),
            7 => Some(Setting::SideContent),
            _ => None,
        }
    }

    /// The menu row showing this setting and its current value, in the interface language.
    pub fn row(self, ui: &Ui) -> (row: MenuRow)
        ensures
            row.label@ == translated(ui.language, setting_label(self)),
            row.detail@ == translated(ui.language, setting_value(self, *ui)),
            !row.checked,
            row.choice == Choice::Setting(self),
    {
        let on = "켜짐";
        let off = "꺼짐";
        proof {
            reveal_strlit("켜짐");
            reveal_strlit("꺼짐");
        }
        let (label, value): (&str, &str) = match self {
            Setting::Theme => ("테마", theme_name(ui.theme)),
            Setting::Language => (
                "언어",
                match ui.language {
                    Language::Korean => "한국어",
                    Language::English => "English",
                },
            ),
            Setting::Background => ("배경", if ui.transparent {
                "터미널"
            } else {
                "테마"
            }),
            Setting::Icons => ("아이콘", if ui.plain_icons {
                "기본"
            } else {
                "Nerd Font"
            }),
            Setting::Motion => ("움직임 줄이기", if ui.reduced_motion {
                on
            } else {
                off
            }),
            Setting::Navigation => ("탐색 패널", if ui.left_open {
                on
            } else {
                off
            }),
            Setting::SidePanel => ("가사·큐 패널", if ui.right_open {
                on
            } else {
                off
            }),
            Setting::SideContent => ("패널 내용", if ui.panel == Panel::Lyrics {
                "가사"
            } else {
                "재생 큐"
            }),
        };
        let shown_label = ui.language.text(label);
        let shown_value = ui.language.text(value);
        MenuRow {
            label: string_of(chars_of(shown_label).as_slice()),
            detail: string_of(chars_of(shown_value).as_slice()),
            checked: false,
            choice: Choice::Setting(self),
        }
    }

    /// Applies this setting to the interface state; `direction` steps the theme, and the
    /// switches ignore it. Says what the caller still has to do.
    pub fn apply(self, ui: &mut Ui, direction: i32) -> (effect: SettingEffect)
        requires
            step_fits(self, *old(ui), direction),
        ensures
            *final(ui) == applied(self, *old(ui), direction),
            effect.leave_full_lyrics == (self == Setting::SidePanel && final(ui).right_open),
            effect.reset_lyric_scroll == (self == Setting::SideContent),
    {
        let quiet = SettingEffect { leave_full_lyrics: false, reset_lyric_scroll: false };
        match self {
            Setting::Theme => {
                ui.theme = step_theme(ui.theme, direction);
                quiet
            },
            Setting::Language | Setting::Background | Setting::Icons | Setting::Motion => {
                switch(self, ui);
                quiet
            },
            Setting::Navigation | Setting::SidePanel => {
                open_or_close(self, ui);
                SettingEffect {
                    leave_full_lyrics: self == Setting::SidePanel && ui.right_open,
                    reset_lyric_scroll: false,
                }
            },
            Setting::SideContent => {
                ui.panel = if ui.panel == Panel::Lyrics {
                    Panel::Queue
                } else {
                    Panel::Lyrics
                };
                SettingEffect { leave_full_lyrics: false, reset_lyric_scroll: true }
            },
        }
    }
}

} // verus!
