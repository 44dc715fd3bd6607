//! Release packaging text: the bottle file name, the Homebrew formula rendered from its
//! template, and the local-install variant of that formula.
use crate::patterns::{count_matches, occurrences, replace_all, replaced};
use crate::text::{chars_of, string_of};
use vstd::prelude::*;

verus! {

/// Whether the regular expression `pattern` compiles and matches somewhere in `text`, as
/// the `regex` crate decides it.
pub uninterp spec fn regex_match(pattern: Seq<char>, text: Seq<char>) -> bool;

/// The error text `regex::Regex::new` gives for `pattern`, or `None` when it compiles.
pub uninterp spec fn regex_rejection(pattern: Seq<char>) -> Option<Seq<char>>;

/// Whether `text` is 64 lowercase hexadecimal digits.
pub open spec fn is_checksum(text: Seq<char>) -> bool {
    &&& text.len() == 64
    &&& forall|i: int| 0 <= i < 64 ==> ('0' <= #[trigger] text[i] <= '9' || 'a' <= text[i] <= 'f')
}

/// `regex::Regex::new(pattern)` and, when it compiles, `Regex::is_match(text)`; a
/// compilation error is returned as its display text. Both results are named; for the
/// checksum pattern `^[0-9a-f]{64}$` the regex syntax (anchors at the ends of the text, a
/// class of ASCII digits and letters, exactly 64 repetitions) says that it compiles and
/// matches exactly 64 lowercase hexadecimal digits.
#[verifier::external_body]
fn pattern_matches(pattern: &str, text: &str) -> (found: Result<bool, String>)
    ensures
        match found {
            Ok(b) => regex_rejection(pattern@) is None && b == regex_match(pattern@, text@) && (pattern@
                == "^[0-9a-f]{64}$"@ ==> b == is_checksum(text@)),
            Err(e) => regex_rejection(pattern@) == Some(e@) && pattern@ != "^[0-9a-f]{64}$"@,
        },
{
    match regex::Regex::new(pattern) {
        Ok(compiled) => Ok(compiled.is_match(text)),
        Err(error) => Err(error.to_string()),
    }
}

/// The repository releases are published from.
pub open spec fn repository() -> Seq<char> {
    "songhyun-k/muse"@
}

/// The file name of the macOS bottle of `version`.
pub open spec fn bottle_name(version: Seq<char>) -> Seq<char> {
    "muse-"@ + version + ".arm64_sonoma.bottle.tar.gz"@
}

/// The file name of the macOS bottle of `version`.
pub fn filename(version: &str) -> (name: String)
    ensures
        name@ == bottle_name(version@),
{
    let mut text = chars_of("muse-");
    text.append(&mut chars_of(version));
    text.append(&mut chars_of(".arm64_sonoma.bottle.tar.gz"));
    string_of(text.as_slice())
}

/// `Ok` when `condition` holds, else the error `message`.
pub fn ensure(condition: bool, message: &str) -> (checked: Result<(), String>)
    ensures
        condition ==> checked is Ok,
        !condition ==> (checked matches Err(e) && e@ == message@),
{
    if condition {
        Ok(())
    } else {
        Err(message.to_string())
    }
}

/// The download root of the public bottle of `version`.
pub open spec fn public_root(version: Seq<char>) -> Seq<char> {
    "root_url \""@ + "https://github.com/"@ + repository() + "/releases/download/v"@ + version + "\""@
}

/// The bottle block of the formula.
pub open spec fn bottle_block(version: Seq<char>, checksum: Seq<char>) -> Seq<char> {
    "  bottle do\n    "@ + public_root(version) + "\n    sha256 cellar: :any_skip_relocation, arm64_sonoma: \""@
        + checksum + "\"\n  end\n"@
}

/// The formula `template` with its bottle block, version and archive checksum filled in.
pub open spec fn rendered(
    template: Seq<char>,
    version: Seq<char>,
    checksum: Seq<char>,
    bottle: Option<Seq<char>>,
) -> Seq<char> {
    let block = match bottle {
        Some(sum) => bottle_block(version, sum),
        None => Seq::empty(),
    };
    replaced(replaced(replaced(template, "@BOTTLE@"@, block), "@VERSION@"@, version), "@SHA256@"@, checksum)
}

fn text_of(pieces: &Vec<&str>) -> (text: Vec<char>)
    ensures
        text@ == pieces@.map_values(|p: &str| p@).flatten(),
{
    let mut text: Vec<char> = Vec::new();
    let mut i: usize = 0;
    while i < pieces.len()
        invariant
            i <= pieces@.len(),
            text@ == pieces@.take(i as int).map_values(|p: &str| p@).flatten(),
        decreases pieces@.len() - i,
    {
        let ghost before = text@;
        text.append(&mut chars_of(pieces[i]));
        assert(pieces@.take(i + 1).map_values(|p: &str| p@) =~= pieces@.take(i as int).map_values(
            |p: &str| p@,
        ).push(pieces@[i as int]@));
        proof {
            pieces@.take(i as int).map_values(|p: &str| p@).lemma_flatten_push(pieces@[i as int]@);
        }
        i = i + 1;
    }
    assert(pieces@.take(pieces@.len() as int) =~= pieces@);
    text
}

/// The formula `template` with its bottle block (when there is a bottle checksum), version
/// and archive checksum filled in.
pub fn render_formula(template: &str, version: &str, checksum: &str, bottle_checksum: Option<&str>)
    -> (formula: String)
    ensures
        formula@ == rendered(
            template@,
            version@,
            checksum@,
            match bottle_checksum {
                Some(sum) => Some(sum@),
                None => None,
            },
        ),
{
    let block: Vec<char> = match bottle_checksum {
        Some(sum) => {
            let pieces = vec![
                "  bottle do\n    ",
                "root_url \"",
                "https://github.com/",
                "songhyun-k/muse",
                "/releases/download/v",
                version,
                "\"",
                "\n    sha256 cellar: :any_skip_relocation, arm64_sonoma: \"",
                sum,
                "\"\n  end\n",
            ];
            let block = text_of(&pieces);
            proof {
                reveal_strlit("  bottle do\n    ");
                reveal_strlit("root_url \"");
                reveal_strlit("https://github.com/");
                reveal_strlit("songhyun-k/muse");
                reveal_strlit("/releases/download/v");
                reveal_strlit("\"");
                reveal_strlit("\n    sha256 cellar: :any_skip_relocation, arm64_sonoma: \"");
                reveal_strlit("\"\n  end\n");
                let views = pieces@.map_values(|p: &str| p@);
                assert(views =~= seq![
                    "  bottle do\n    "@,
                    "root_url \""@,
                    "https://github.com/"@,
                    "songhyun-k/muse"@,
                    "/releases/download/v"@,
                    version@,
                    "\""@,
                    "\n    sha256 cellar: :any_skip_relocation, arm64_sonoma: \""@,
                    sum@,
                    "\"\n  end\n"@,
                ]);
                assert(views.flatten() =~= bottle_block(version@, sum@)) by {
                    reveal_with_fuel(Seq::flatten, 11);
                }
            }
            block
        },
        None => Vec::new(),
    };
    proof {
        reveal_strlit("@BOTTLE@");
        reveal_strlit("@VERSION@");
        reveal_strlit("@SHA256@");
    }
    let with_bottle = replace_all(&chars_of(template), &chars_of("@BOTTLE@"), &block);
    let with_version = replace_all(&with_bottle, &chars_of("@VERSION@"), &chars_of(version));
    let done = replace_all(&with_version, &chars_of("@SHA256@"), &chars_of(checksum));
    string_of(done.as_slice())
}

/// What rendering the formula gives: an error for a checksum that is not 64 lowercase
/// hexadecimal digits, or the rendered formula.
pub open spec fn formula_outcome(
    template: Seq<char>,
    version: Seq<char>,
    checksum: Seq<char>,
    bottle: Option<Seq<char>>,
) -> Result<Seq<char>, Seq<char>> {
    if !is_checksum(checksum) {
        Err("Invalid archive checksum"@)
    } else {
        match bottle {
            Some(sum) => if !is_checksum(sum) {
                Err("Invalid bottle checksum"@)
            } else {
                Ok(rendered(template, version, checksum, bottle))
            },
            None => Ok(rendered(template, version, checksum, bottle)),
        }
    }
}

/// The Homebrew formula of `version` from `template`, after checking that each checksum
/// matches the checksum pattern (64 lowercase hexadecimal digits).
pub fn formula(template: &str, version: &str, checksum: &str, bottle_checksum: Option<&str>)
    -> (result: Result<String, String>)
    ensures
        match (
            result,
            formula_outcome(
                template@,
                version@,
                checksum@,
                match bottle_checksum {
                    Some(sum) => Some(sum@),
                    None => None,
                },
            ),
        ) {
            (Ok(text), Ok(expected)) => text@ == expected,
            (Err(e), Err(expected)) => e@ == expected,
            _ => false,
        },
{
    let pattern = "^[0-9a-f]{64}$";
    proof {
        reveal_strlit("^[0-9a-f]{64}$");
    }
    let archive_ok = pattern_matches(pattern, checksum)?;
    ensure(archive_ok, "Invalid archive checksum")?;
    if let Some(sum) = bottle_checksum {
        let bottle_ok = pattern_matches(pattern, sum)?;
        ensure(bottle_ok, "Invalid bottle checksum")?;
    }
    Ok(render_formula(template, version, checksum, bottle_checksum))
}

/// Whether a path byte is written as it is in a `file://` URL.
pub open spec fn unreserved(b: u8) -> bool {
    ||| 48 <= b <= 57
    ||| 65 <= b <= 90
    ||| 97 <= b <= 122
    ||| b == 47 || b == 45 || b == 46 || b == 95 || b == 126
}

/// The uppercase hexadecimal digit of `v`.
pub open spec fn hex_upper(v: int) -> char {
    if v < 10 {
        (48 + v) as char
    } else {
        (55 + v) as char
    }
}

/// A path byte as it is written in a `file://` URL.
pub open spec fn escaped(b: u8) -> Seq<char> {
    if unreserved(b) {
        seq![b as char]
    } else {
        seq!['%', hex_upper((b / 16) as int), hex_upper((b % 16) as int)]
    }
}

/// Path bytes percent-encoded for a `file://` URL.
pub open spec fn percent_encoded(bytes: Seq<u8>) -> Seq<char>
    decreases bytes.len(),
{
    if bytes.len() == 0 {
        Seq::empty()
    } else {
        percent_encoded(bytes.drop_last()) + escaped(bytes.last())
    }
}

fn hex_digit_upper(v: u8) -> (c: char)
    requires
        v < 16,
    ensures
        c == hex_upper(v as int),
{
    if v < 10 {
        (48 + v) as char
    } else {
        (55 + v) as char
    }
}

/// Path bytes percent-encoded for a `file://` URL.
pub fn percent_encode(bytes: &[u8]) -> (text: Vec<char>)
    ensures
        text@ == percent_encoded(bytes@),
{
    let mut text: Vec<char> = Vec::new();
    let mut i: usize = 0;
    while i < bytes.len()
        invariant
            i <= bytes@.len(),
            text@ == percent_encoded(bytes@.take(i as int)),
        decreases bytes@.len() - i,
    {
        let b = bytes[i];
        let plain = (48 <= b && b <= 57) || (65 <= b && b <= 90) || (97 <= b && b <= 122) || b == 47
            || b == 45 || b == 46 || b == 95 || b == 126;
        if plain {
            text.push(b as char);
        } else {
            text.push('%');
            text.push(hex_digit_upper(b / 16));
            text.push(hex_digit_upper(b % 16));
        }
        assert(bytes@.take(i + 1).drop_last() =~= bytes@.take(i as int));
        assert(text@ =~= percent_encoded(bytes@.take(i as int)) + escaped(b));
        i = i + 1;
    }
    assert(bytes@.take(bytes@.len() as int) =~= bytes@);
    text
}

/// What installing from a local bottle directory gives: the public formula with its
/// download root, which must occur exactly once, pointed at the directory.
pub open spec fn local_formula_outcome(
    template: Seq<char>,
    version: Seq<char>,
    archive: Seq<char>,
    bottle: Seq<char>,
    directory: Result<Seq<u8>, Seq<char>>,
) -> Result<Seq<char>, Seq<char>> {
    match formula_outcome(template, version, archive, Some(bottle)) {
        Err(e) => Err(e),
        Ok(public) => if occurrences(public, public_root(version)) != 1 {
            Err("Missing public bottle root"@)
        } else {
            match directory {
                Err(e) => Err(e),
                Ok(path) => Ok(
                    replaced(
                        public,
                        public_root(version),
                        "root_url \""@ + "file://"@ + percent_encoded(path) + "\""@,
                    ),
                ),
            }
        },
    }
}

/// The formula for installing `version` from a bottle in a local directory: the public
/// formula with its download root replaced by the directory's `file://` URL. `directory`
/// is the directory's canonical path, or the error resolving it gave.
pub fn install_formula(
    template: &str,
    version: &str,
    archive: &str,
    bottle: &str,
    directory: Result<Vec<u8>, String>,
) -> (result: Result<String, String>)
    ensures
        match (
            result,
            local_formula_outcome(
                template@,
                version@,
                archive@,
                bottle@,
                match directory {
                    Ok(path) => Ok(path@),
                    Err(e) => Err(e@),
                },
            ),
        ) {
            (Ok(text), Ok(expected)) => text@ == expected,
            (Err(e), Err(expected)) => e@ == expected,
            _ => false,
        },
{
    let public = formula(template, version, archive, Some(bottle))?;
    let root_pieces = vec![
        "root_url \"",
        "https://github.com/",
        "songhyun-k/muse",
        "/releases/download/v",
        version,
        "\"",
    ];
    let root = text_of(&root_pieces);
    proof {
        reveal_strlit("root_url \"");
        reveal_strlit("https://github.com/");
        reveal_strlit("songhyun-k/muse");
        reveal_strlit("/releases/download/v");
        reveal_strlit("\"");
        let views = root_pieces@.map_values(|p: &str| p@);
        assert(views =~= seq![
            "root_url \""@,
            "https://github.com/"@,
            "songhyun-k/muse"@,
            "/releases/download/v"@,
            version@,
            "\""@,
        ]);
        assert(views.flatten() =~= public_root(version@)) by {
            reveal_with_fuel(Seq::flatten, 7);
        }
    }
    let text = chars_of(public.as_str());
    ensure(count_matches(&text, &root) == 1, "Missing public bottle root")?;
    let path = directory?;
    let mut local = chars_of("root_url \"file://");
    local.append(&mut percent_encode(path.as_slice()));
    local.push('"');
    proof {
        reveal_strlit("root_url \"file://");
        reveal_strlit("root_url \"");
        reveal_strlit("file://");
        reveal_strlit("\"");
        assert(local@ =~= "root_url \""@ + "file://"@ + percent_encoded(path@) + "\""@);
    }
    Ok(string_of(replace_all(&text, &root, &local).as_slice()))
}

} // verus!
