//! Modal menus: cursor movement and the rows each dialog offers.
use crate::data::Data;
use crate::protocol::{Command, LyricsChooseParams};
use crate::i18n::translated;
use crate::settings::{Setting, setting_label, setting_order, setting_value};
use crate::state::{Choice, Dialog, MenuRow, Ui};
use crate::target::Target;
use crate::text::{chars_of, join_chars, string_of};
use vstd::prelude::*;

verus! {

/// The decimal digits of `n`.
pub open spec fn decimal(n: nat) -> Seq<char>
    decreases n,
{
    if n < 10 {
        seq![digit(n)]
    } else {
        decimal(n / 10).push(digit(n % 10))
    }
}

/// The character of a decimal digit.
pub open spec fn digit(d: nat) -> char {
    if d == 0 { '0' }
    else if d == 1 { '1' }
    else if d == 2 { '2' }
    else if d == 3 { '3' }
    else if d == 4 { '4' }
    else if d == 5 { '5' }
    else if d == 6 { '6' }
    else if d == 7 { '7' }
    else if d == 8 { '8' }
    else { '9' }
}

/// `n` in decimal, padded with a leading zero to at least two digits.
pub open spec fn two_digits(n: nat) -> Seq<char> {
    if n < 10 { seq!['0'] + decimal(n) } else { decimal(n) }
}

/// A duration as `mm:ss`.
pub open spec fn clock_spec(ms: nat) -> Seq<char> {
    let seconds = ms / 1000;
    two_digits(seconds / 60) + seq![':'] + two_digits(seconds % 60)
}

pub(crate) fn digit_char(d: u64) -> (c: char)
    requires
        d < 10,
    ensures
        c == digit(d as nat),
{
    if d == 0 { '0' }
    else if d == 1 { '1' }
    else if d == 2 { '2' }
    else if d == 3 { '3' }
    else if d == 4 { '4' }
    else if d == 5 { '5' }
    else if d == 6 { '6' }
    else if d == 7 { '7' }
    else if d == 8 { '8' }
    else { '9' }
}

/// The decimal digits of `n`.
pub fn decimal_chars(n: u64) -> (digits: Vec<char>)
    ensures
        digits@ == decimal(n as nat),
    decreases n,
{
    if n < 10 {
        let mut digits = Vec::new();
        digits.push(digit_char(n));
        assert(digits@ =~= seq![digit(n as nat)]);
        digits
    } else {
        let mut digits = decimal_chars(n / 10);
        digits.push(digit_char(n % 10));
        digits
    }
}

fn two_digit_chars(n: u64) -> (digits: Vec<char>)
    ensures
        digits@ == two_digits(n as nat),
{
    let digits = decimal_chars(n);
    if n < 10 {
        let mut padded = Vec::new();
        padded.push('0');
        let padded = join_chars(&padded, &digits);
        assert(padded@ =~= seq!['0'] + decimal(n as nat));
        padded
    } else {
        digits
    }
}

/// A duration as `mm:ss`.
pub fn clock(ms: u64) -> (shown: String)
    ensures
        shown@ == clock_spec(ms as nat),
{
    let seconds = ms / 1000;
    let mut minutes = two_digit_chars(seconds / 60);
    minutes.push(':');
    let all = join_chars(&minutes, &two_digit_chars(seconds % 60));
    string_of(all.as_slice())
}

impl MenuRow {
    /// A row with a label and a choice, no detail, unchecked.
    pub fn new(label: String, choice: Choice) -> (row: MenuRow)
        ensures
            row.label == label,
            row.detail@.len() == 0,
            !row.checked,
            row.choice == choice,
    {
        MenuRow { label, detail: String::new(), checked: false, choice }
    }
}

/// Whether `after` is `before` with its highlight moved by `delta` rows within `count`
/// rows.
pub open spec fn dialog_moved(before: Dialog, after: Dialog, delta: int, count: int) -> bool {
    let last: int = if count > 0 { count - 1 } else { 0 };
    let wanted = before.cursor_spec() + delta;
    &&& after.cursor_spec() == if wanted < 0 {
        0
    } else if wanted > last {
        last
    } else {
        wanted
    }
    &&& match (before, after) {
        (Dialog::Menu { title: a, rows: r, .. }, Dialog::Menu { title: b, rows: s, .. }) => a == b && r == s,
        (Dialog::Lyrics { .. }, Dialog::Lyrics { .. }) => true,
        (Dialog::Settings { .. }, Dialog::Settings { .. }) => true,
        _ => false,
    }
}

impl Dialog {
    /// The highlighted row.
    pub fn cursor(&self) -> (cursor: usize)
        ensures
            cursor == (match self {
                Dialog::Menu { cursor, .. } => *cursor,
                Dialog::Lyrics { cursor } => *cursor,
                Dialog::Settings { cursor } => *cursor,
            }),
    {
        match self {
            Dialog::Menu { cursor, .. } => *cursor,
            Dialog::Lyrics { cursor } => *cursor,
            Dialog::Settings { cursor } => *cursor,
        }
    }

    /// Moves the highlight by `delta` rows, staying within `count` rows.
    pub fn move_by(&mut self, delta: i32, count: usize)
        ensures
            dialog_moved(*old(self), *final(self), delta as int, count as int),
    {
        let last: i128 = if count > 0 { count as i128 - 1 } else { 0 };
        let wanted = self.cursor() as i128 + delta as i128;
        let next: usize = if wanted < 0 {
            0
        } else if wanted > last {
            last as usize
        } else {
            wanted as usize
        };
        match self {
            Dialog::Menu { cursor, .. } => {
                *cursor = next;
            },
            Dialog::Lyrics { cursor } => {
                *cursor = next;
            },
            Dialog::Settings { cursor } => {
                *cursor = next;
            },
        }
    }

    /// The highlighted row, as a mathematical value.
    pub open spec fn cursor_spec(&self) -> int {
        match self {
            Dialog::Menu { cursor, .. } => *cursor as int,
            Dialog::Lyrics { cursor } => *cursor as int,
            Dialog::Settings { cursor } => *cursor as int,
        }
    }

    /// The rows of the dialog: a menu's own rows, one row per lyrics match of the
    /// current search (checked when it is the chosen match, choosing it for the item), or
    /// one row per setting showing its current value.
    pub fn rows(&self, ui: &Ui, data: &Data) -> (rows: Vec<MenuRow>)
        ensures
            match self {
                Dialog::Settings { .. } => rows@.len() == setting_order().len() && forall|i: int|
                    0 <= i < rows@.len() ==> {
                        let setting = #[trigger] setting_order()[i];
                        &&& rows@[i].label@ == translated(ui.language, setting_label(setting))
                        &&& rows@[i].detail@ == translated(ui.language, setting_value(setting, *ui))
                        &&& !rows@[i].checked
                        &&& rows@[i].choice == Choice::Setting(setting)
                    },
                Dialog::Menu { rows: own, .. } => rows@.len() == own@.len() && forall|i: int|
                    0 <= i < own@.len() ==> #[trigger] rows@[i].label == own@[i].label
                        && rows@[i].detail == own@[i].detail && rows@[i].checked == own@[i].checked
                        && rows@[i].choice.agrees(own@[i].choice),
                Dialog::Lyrics { .. } => match data@.matches {
                    None => rows@.len() == 0,
                    Some(result) => rows@.len() == result.matches@.len() && forall|i: int|
                        0 <= i < rows@.len() ==> {
                            let m = #[trigger] result.matches@[i];
                            &&& rows@[i].label == m.title
                            &&& rows@[i].detail@ == m.artist@ + " · "@ + m.album@ + " · "@ + match m.duration_ms {
                                Some(d) => clock_spec(d as nat),
                                None => "--:--"@,
                            }
                            &&& rows@[i].checked == (data@.lyrics matches Some(l) && l.match_id == Some(m.id))
                            &&& rows@[i].choice matches Choice::Command(Command::LyricsChoose(p), Target::Lyrics)
                                && p.item == result.item && p.match_id == m.id
                        },
                },
            },
    {
        match self {
            Dialog::Settings { .. } => {
                let mut out: Vec<MenuRow> = Vec::new();
                let mut i: usize = 0;
                while i < 8
                    invariant
                        i <= 8,
                        out@.len() == i,
                        setting_order().len() == 8,
                        forall|j: int| 0 <= j < i ==> {
                            let setting = #[trigger] setting_order()[j];
                            &&& out@[j].label@ == translated(ui.language, setting_label(setting))
                            &&& out@[j].detail@ == translated(ui.language, setting_value(setting, *ui))
                            &&& !out@[j].checked
                            &&& out@[j].choice == Choice::Setting(setting)
                        },
                    decreases 8 - i,
                {
                    let setting = match Setting::nth(i) {
                        Some(s) => s,
                        None => {
                            proof {
                                assert(false);
                            }
                            Setting::Theme
                        },
                    };
                    out.push(setting.row(ui));
                    i = i + 1;
                }
                out
            },
            Dialog::Menu { rows: own, .. } => {
                let mut copy: Vec<MenuRow> = Vec::new();
                let mut i: usize = 0;
                while i < own.len()
                    invariant
                        i <= own@.len(),
                        copy@.len() == i,
                        forall|j: int| 0 <= j < i ==> #[trigger] copy@[j].label == own@[j].label
                            && copy@[j].detail == own@[j].detail && copy@[j].checked == own@[j].checked
                            && copy@[j].choice.agrees(own@[j].choice),
                    decreases own@.len() - i,
                {
                    let row = &own[i];
                    let label = row.label.clone();
                    let detail = row.detail.clone();
                    assert(label == own@[i as int].label);
                    copy.push(MenuRow { label, detail, checked: row.checked, choice: row.choice.duplicate() });
                    i = i + 1;
                }
                copy
            },
            Dialog::Lyrics { .. } => {
                let mut out: Vec<MenuRow> = Vec::new();
                let result = match data.lyric_matches() {
                    Some(result) => result,
                    None => return out,
                };
                let separator = chars_of(" · ");
                for i in 0..result.matches.len()
                    invariant
                        data@.matches == Some(*result),
                        separator@ == " · "@,
                        out@.len() == i,
                        forall|j: int| 0 <= j < i ==> {
                            let m = #[trigger] result.matches@[j];
                            &&& out@[j].label == m.title
                            &&& out@[j].detail@ == m.artist@ + " · "@ + m.album@ + " · "@ + match m.duration_ms {
                                Some(d) => clock_spec(d as nat),
                                None => "--:--"@,
                            }
                            &&& out@[j].checked == (data@.lyrics matches Some(l) && l.match_id == Some(m.id))
                            &&& out@[j].choice matches Choice::Command(Command::LyricsChoose(p), Target::Lyrics)
                                && p.item == result.item && p.match_id == m.id
                        },
                {
                    let m = &result.matches[i];
                    let time = match m.duration_ms {
                        Some(d) => clock(d),
                        None => String::from_str("--:--"),
                    };
                    let detail = join_chars(&chars_of(m.artist.as_str()), &separator);
                    let detail = join_chars(&detail, &chars_of(m.album.as_str()));
                    let detail = join_chars(&detail, &separator);
                    let detail = join_chars(&detail, &chars_of(time.as_str()));
                    let checked = match data.shown_lyrics() {
                        Some(l) => match l.match_id {
                            Some(id) => id == m.id,
                            None => false,
                        },
                        None => false,
                    };
                    out.push(
                        MenuRow {
                            label: m.title.clone(),
                            detail: string_of(detail.as_slice()),
                            checked,
                            choice: Choice::Command(
                                Command::LyricsChoose(
                                    LyricsChooseParams { item: result.item.duplicate(), match_id: m.id },
                                ),
                                Target::Lyrics,
                            ),
                        },
                    );
                }
                out
            },
        }
    }
}

} // verus!
