//! Presentation language: locale detection, the English text catalog and plural units.
//! Song titles, lyrics and user text are never translated.
use crate::text::{chars_of, same_text, string_of};
use vstd::prelude::*;

verus! {

/// Presentation-only preference.
#[derive(Clone, Copy, Debug, PartialEq, Eq, Structural)]
pub enum Language {
    Korean,
    English,
}

/// English text for Korean application messages.
pub open spec fn catalog() -> Seq<(Seq<char>, Seq<char>)> {
    seq![
        ("검색"@, "Search"@),
        ("홈"@, "Home"@),
        ("최근 추가"@, "Recently Added"@),
        ("아티스트"@, "Artists"@),
        ("앨범"@, "Albums"@),
        ("노래"@, "Songs"@),
        ("플레이리스트"@, "Playlists"@),
        ("즐겨찾기"@, "Favorites"@),
        ("재생 이력"@, "History"@),
        ("상세"@, "Details"@),
        ("가사"@, "Lyrics"@),
        ("보관함"@, "Library"@),
        ("재생 큐"@, "Queue"@),
        ("설정"@, "Settings"@),
        ("테마"@, "Theme"@),
        ("언어"@, "Language"@),
        ("배경"@, "Background"@),
        ("터미널"@, "Terminal"@),
        ("아이콘"@, "Icons"@),
        ("기본"@, "Plain"@),
        ("움직임 줄이기"@, "Reduce motion"@),
        ("탐색 패널"@, "Navigation panel"@),
        ("가사·큐 패널"@, "Lyrics and queue panel"@),
        ("패널 내용"@, "Panel content"@),
        ("켜짐"@, "On"@),
        ("꺼짐"@, "Off"@),
        ("플레이리스트 만들기"@, "Create playlist"@),
        ("이름 변경"@, "Rename"@),
        ("설명"@, "Description"@),
        ("플레이리스트 복사"@, "Copy playlist"@),
        ("가사 찾기"@, "Find lyrics"@),
        ("가사 시간 (초)"@, "Lyrics timing (seconds)"@),
        ("음악 앱에 로그인해주세요"@, "Sign in to the Music app"@),
        ("처리 중입니다. 잠시 후 다시 시도해주세요"@, "Busy. Please try again shortly"@),
        ("요청 번호를 모두 사용했습니다"@, "Request numbers are exhausted"@),
        ("설정을 저장하지 못했습니다"@, "Could not save settings"@),
        ("설정을 읽을 수 없어 기본값을 사용합니다"@, "Could not read settings; using defaults"@),
        ("설정 파일이 너무 큽니다"@, "The settings file is too large"@),
        ("지원하지 않는 설정입니다"@, "Unsupported settings"@),
        ("설정 경로가 없습니다"@, "The settings path has no directory"@),
        ("재생 중인 곡이 없습니다"@, "Nothing is playing"@),
        ("가사를 불러오는 중"@, "Loading lyrics"@),
        ("가사를 불러오지 못했어요"@, "Could not load lyrics"@),
        ("가사를 찾지 못했어요"@, "No lyrics found"@),
        ("연주곡"@, "Instrumental"@),
        ("불러오는 중"@, "Loading"@),
        ("표시할 곡이 없습니다"@, "No songs to show"@),
        ("표시할 항목이 없습니다"@, "Nothing to show"@),
        ("검색 결과가 없습니다"@, "No results"@),
        ("다시 시도"@, "Try again"@),
        ("따라가기"@, "Follow"@),
        ("셔플"@, "Shuffle"@),
        ("반복"@, "Repeat"@),
        ("음소거"@, "Mute"@),
        ("재생"@, "Play"@),
        ("변경을 저장하지 못했습니다"@, "Could not save the change"@),
        ("접근 허용"@, "Allow access"@),
        ("구독 조회 실패"@, "Could not check the subscription"@),
        ("테마는 porcelain, graphite, linen, midnight, ink 중 하나입니다"@, "Theme must be porcelain, graphite, linen, midnight or ink"@),
        ("--fps는 15, 30, 60 중 하나입니다"@, "--fps must be 15, 30 or 60"@),
        ("MUSE_STATE_DIR에는 절대 경로를 지정해주세요"@, "MUSE_STATE_DIR must be an absolute path"@),
        ("음악 서비스 연결이 종료되었습니다"@, "The music service connection closed"@),
        ("즐겨찾기에 추가"@, "Added to favorites"@),
        ("즐겨찾기에서 제거"@, "Removed from favorites"@)
    ]
}

/// The English text catalog, as (Korean, English) pairs in order.
pub fn catalog_entries() -> (entries: Vec<(&'static str, &'static str)>)
    ensures
        entries@.map_values(|e: (&'static str, &'static str)| (e.0@, e.1@)) == catalog(),
{
    let mut entries: Vec<(&'static str, &'static str)> = Vec::new();
    entries.push(("검색", "Search"));
    entries.push(("홈", "Home"));
    entries.push(("최근 추가", "Recently Added"));
    entries.push(("아티스트", "Artists"));
    entries.push(("앨범", "Albums"));
    entries.push(("노래", "Songs"));
    entries.push(("플레이리스트", "Playlists"));
    entries.push(("즐겨찾기", "Favorites"));
    entries.push(("재생 이력", "History"));
    entries.push(("상세", "Details"));
    entries.push(("가사", "Lyrics"));
    entries.push(("보관함", "Library"));
    entries.push(("재생 큐", "Queue"));
    entries.push(("설정", "Settings"));
    entries.push(("테마", "Theme"));
    entries.push(("언어", "Language"));
    entries.push(("배경", "Background"));
    entries.push(("터미널", "Terminal"));
    entries.push(("아이콘", "Icons"));
    entries.push(("기본", "Plain"));
    entries.push(("움직임 줄이기", "Reduce motion"));
    entries.push(("탐색 패널", "Navigation panel"));
    entries.push(("가사·큐 패널", "Lyrics and queue panel"));
    entries.push(("패널 내용", "Panel content"));
    entries.push(("켜짐", "On"));
    entries.push(("꺼짐", "Off"));
    entries.push(("플레이리스트 만들기", "Create playlist"));
    entries.push(("이름 변경", "Rename"));
    entries.push(("설명", "Description"));
    entries.push(("플레이리스트 복사", "Copy playlist"));
    entries.push(("가사 찾기", "Find lyrics"));
    entries.push(("가사 시간 (초)", "Lyrics timing (seconds)"));
    entries.push(("음악 앱에 로그인해주세요", "Sign in to the Music app"));
    entries.push(("처리 중입니다. 잠시 후 다시 시도해주세요", "Busy. Please try again shortly"));
    entries.push(("요청 번호를 모두 사용했습니다", "Request numbers are exhausted"));
    entries.push(("설정을 저장하지 못했습니다", "Could not save settings"));
    entries.push(("설정을 읽을 수 없어 기본값을 사용합니다", "Could not read settings; using defaults"));
    entries.push(("설정 파일이 너무 큽니다", "The settings file is too large"));
    entries.push(("지원하지 않는 설정입니다", "Unsupported settings"));
    entries.push(("설정 경로가 없습니다", "The settings path has no directory"));
    entries.push(("재생 중인 곡이 없습니다", "Nothing is playing"));
    entries.push(("가사를 불러오는 중", "Loading lyrics"));
    entries.push(("가사를 불러오지 못했어요", "Could not load lyrics"));
    entries.push(("가사를 찾지 못했어요", "No lyrics found"));
    entries.push(("연주곡", "Instrumental"));
    entries.push(("불러오는 중", "Loading"));
    entries.push(("표시할 곡이 없습니다", "No songs to show"));
    entries.push(("표시할 항목이 없습니다", "Nothing to show"));
    entries.push(("검색 결과가 없습니다", "No results"));
    entries.push(("다시 시도", "Try again"));
    entries.push(("따라가기", "Follow"));
    entries.push(("셔플", "Shuffle"));
    entries.push(("반복", "Repeat"));
    entries.push(("음소거", "Mute"));
    entries.push(("재생", "Play"));
    entries.push(("변경을 저장하지 못했습니다", "Could not save the change"));
    entries.push(("접근 허용", "Allow access"));
    entries.push(("구독 조회 실패", "Could not check the subscription"));
    entries.push(("테마는 porcelain, graphite, linen, midnight, ink 중 하나입니다", "Theme must be porcelain, graphite, linen, midnight or ink"));
    entries.push(("--fps는 15, 30, 60 중 하나입니다", "--fps must be 15, 30 or 60"));
    entries.push(("MUSE_STATE_DIR에는 절대 경로를 지정해주세요", "MUSE_STATE_DIR must be an absolute path"));
    entries.push(("음악 서비스 연결이 종료되었습니다", "The music service connection closed"));
    entries.push(("즐겨찾기에 추가", "Added to favorites"));
    entries.push(("즐겨찾기에서 제거", "Removed from favorites"));
    assert(entries@.map_values(|e: (&'static str, &'static str)| (e.0@, e.1@)) =~= catalog());
    entries
}

/// The translation stored for `source` among `entries`, searching from the front.
pub open spec fn lookup_text(entries: Seq<(Seq<char>, Seq<char>)>, source: Seq<char>) -> Option<Seq<char>>
    decreases entries.len(),
{
    if entries.len() == 0 {
        None
    } else if entries[0].0 == source {
        Some(entries[0].1)
    } else {
        lookup_text(entries.drop_first(), source)
    }
}

/// The text shown for application message `source` in `language`.
pub open spec fn translated(language: Language, source: Seq<char>) -> Seq<char> {
    match (language, lookup_text(catalog(), source)) {
        (Language::English, Some(english)) => english,
        _ => source,
    }
}

/// The index of the first ": " in `s`, or -1.
pub open spec fn colon_split(s: Seq<char>) -> int
    decreases s.len(),
{
    if s.len() < 2 {
        -1
    } else if s[0] == ':' && s[1] == ' ' {
        0
    } else {
        let rest = colon_split(s.drop_first());
        if rest < 0 {
            -1
        } else {
            rest + 1
        }
    }
}

/// Where a ": " is found, it is inside the text.
pub proof fn lemma_colon_split(s: Seq<char>)
    ensures
        colon_split(s) >= -1,
        colon_split(s) >= 0 ==> colon_split(s) + 2 <= s.len() && s[colon_split(s)] == ':'
            && s[colon_split(s) + 1] == ' ',
    decreases s.len(),
{
    if s.len() >= 2 && !(s[0] == ':' && s[1] == ' ') {
        lemma_colon_split(s.drop_first());
    }
}

/// A message with known application errors translated and OS details after
/// the first ": " preserved (translated in turn when they are known messages).
pub open spec fn localized(language: Language, source: Seq<char>) -> Seq<char>
    decreases source.len(),
{
    let direct = translated(language, source);
    if direct != source || language == Language::Korean {
        direct
    } else {
        let i = colon_split(source);
        proof {
            lemma_colon_split(source);
        }
        if i >= 0 && translated(language, source.take(i)) != source.take(i) {
            translated(language, source.take(i)) + ": "@ + localized(language, source.skip(i + 2))
        } else {
            source
        }
    }
}

/// The part of a locale name before the first `_`, `-` or `.`.
pub open spec fn locale_language(locale: Seq<char>) -> Seq<char>
    decreases locale.len(),
{
    if locale.len() == 0 {
        Seq::empty()
    } else if locale[0] == '_' || locale[0] == '-' || locale[0] == '.' {
        Seq::empty()
    } else {
        seq![locale[0]] + locale_language(locale.drop_first())
    }
}

impl Language {
    /// Korean for `ko` locales, English otherwise.
    pub fn from_locale(locale: &str) -> (language: Language)
        ensures
            language == (if locale_language(locale@) == "ko"@ {
                Language::Korean
            } else {
                Language::English
            }),
    {
        let chars = chars_of(locale);
        let mut prefix: Vec<char> = Vec::new();
        let mut i: usize = 0;
        assert(chars@.skip(0) =~= chars@);
        while i < chars.len() && chars[i] != '_' && chars[i] != '-' && chars[i] != '.'
            invariant
                i <= chars@.len(),
                chars@ == locale@,
                locale_language(locale@) == prefix@ + locale_language(chars@.skip(i as int)),
            decreases chars@.len() - i,
        {
            assert(chars@.skip(i as int).drop_first() =~= chars@.skip(i + 1));
            assert(prefix@ + (seq![chars@[i as int]] + locale_language(chars@.skip(i + 1))) =~= prefix@.push(chars@[i as int]) + locale_language(chars@.skip(i + 1)));
            prefix.push(chars[i]);
            i = i + 1;
        }
        assert(prefix@ + locale_language(chars@.skip(i as int)) =~= prefix@);
        let name = string_of(prefix.as_slice());
        if same_text(name.as_str(), "ko") {
            Language::Korean
        } else {
            Language::English
        }
    }

    /// Parses the `--language` option.
    pub fn parse(value: &str) -> (language: Result<Language, &'static str>)
        ensures
            value@ == "ko"@ ==> language == Ok::<Language, &'static str>(Language::Korean),
            value@ == "en"@ ==> language == Ok::<Language, &'static str>(Language::English),
            value@ != "ko"@ && value@ != "en"@ ==> language == Err::<Language, &'static str>(
                "--language must be en or ko",
            ),
    {
        proof {
            reveal_strlit("ko");
            reveal_strlit("en");
            assert("ko"@[0] != "en"@[0]);
        }
        if same_text(value, "ko") {
            Ok(Language::Korean)
        } else if same_text(value, "en") {
            Ok(Language::English)
        } else {
            Err("--language must be en or ko")
        }
    }

    /// The application text `source` in this language; unknown text is kept as is.
    pub fn text<'a>(self, source: &'a str) -> (shown: &'a str)
        ensures
            shown@ == translated(self, source@),
    {
        if self == Language::Korean {
            return source;
        }
        let entries = catalog_entries();
        let ghost all = catalog();
        assert(all.skip(0) =~= all);
        for i in 0..entries.len()
            invariant
                entries@.map_values(|e: (&'static str, &'static str)| (e.0@, e.1@)) == all,
                all == catalog(),
                self == Language::English,
                lookup_text(all, source@) == lookup_text(all.skip(i as int), source@),
        {
            assert(all[i as int] == (entries@[i as int].0@, entries@[i as int].1@));
            assert(all.skip(i as int)[0] == all[i as int]);
            assert(all.skip(i as int).drop_first() =~= all.skip(i + 1));
            if same_text(entries[i].0, source) {
                return entries[i].1;
            }
        }
        assert(all.skip(all.len() as int).len() == 0);
        source
    }

    /// The unit word after a count of songs or other items.
    pub fn unit(self, count: usize, songs: bool) -> (word: &'static str)
        ensures
            word@ == (match (self, songs) {
                (Language::Korean, true) => "곡"@,
                (Language::Korean, false) => "개"@,
                (Language::English, true) => if count == 1 { " song"@ } else { " songs"@ },
                (Language::English, false) => if count == 1 { " item"@ } else { " items"@ },
            }),
    {
        match (self, songs) {
            (Language::Korean, true) => "곡",
            (Language::Korean, false) => "개",
            (Language::English, true) => if count == 1 { " song" } else { " songs" },
            (Language::English, false) => if count == 1 { " item" } else { " items" },
        }
    }

    /// Translates known application errors, preserving OS details after the colon.
    pub fn message(self, source: &str) -> (shown: String)
        ensures
            shown@ == localized(self, source@),
        decreases source@.len(),
    {
        let direct = self.text(source);
        if !same_text(direct, source) || self == Language::Korean {
            return string_of(chars_of(direct).as_slice());
        }
        let chars = chars_of(source);
        let mut i: usize = 0;
        let mut found = false;
        assert(chars@.skip(0) =~= chars@);
        while !found && chars.len() >= 2 && i < chars.len() - 1
            invariant
                chars@ == source@,
                i <= chars@.len(),
                i + 1 <= chars@.len() || chars@.len() < 2,
                found ==> i + 1 < chars@.len() && chars@[i as int] == ':' && chars@[i + 1] == ' ',
                found ==> colon_split(chars@) == i,
                !found ==> (colon_split(chars@) < 0 <==> colon_split(chars@.skip(i as int)) < 0),
                !found && colon_split(chars@) >= 0 ==> colon_split(chars@) == i + colon_split(chars@.skip(i as int)),
            decreases chars@.len() - i, if found { 0int } else { 1int },
        {
            let ghost here = chars@.skip(i as int);
            assert(here[0] == chars@[i as int] && here[1] == chars@[i + 1]);
            if chars[i] == ':' && chars[i + 1] == ' ' {
                found = true;
            } else {
                assert(here.drop_first() =~= chars@.skip(i + 1));
                i = i + 1;
            }
        }
        if !found {
            assert(chars@.skip(i as int).len() < 2);
            return string_of(chars.as_slice());
        }
        let prefix_chars = crate::text::slice_chars(&chars, 0, i);
        let detail_chars = crate::text::slice_chars(&chars, i + 2, chars.len());
        assert(prefix_chars@ =~= source@.take(i as int));
        assert(detail_chars@ =~= source@.skip(i + 2));
        let prefix = string_of(prefix_chars.as_slice());
        let detail = string_of(detail_chars.as_slice());
        let shown_prefix = self.text(prefix.as_str());
        if same_text(shown_prefix, prefix.as_str()) {
            return string_of(chars.as_slice());
        }
        let inner = self.message(detail.as_str());
        let mut out = chars_of(shown_prefix);
        out.push(':');
        out.push(' ');
        let tail = chars_of(inner.as_str());
        let joined = crate::text::join_chars(&out, &tail);
        proof {
            reveal_strlit(": ");
            assert(joined@ =~= translated(self, source@.take(i as int)) + ": "@ + localized(self, source@.skip(i + 2)));
        }
        string_of(joined.as_slice())
    }
}

} // verus!
