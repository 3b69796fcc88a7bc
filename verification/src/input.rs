//! What the user typed: command-line arguments and menu answers.
use vstd::prelude::*;

use crate::source::offline::{has_video_extension, is_video_file};
use crate::text::{decimal, digit_char, chars_of, equals, has_prefix, starts_with, string_from_range, string_of, trim, trimmed};

verus! {

/// The video to play and the renderer number chosen for it.
#[derive(Debug)]
pub struct Input {
    pub source: String,
    pub renderer: usize,
}

// ---------------------------------------------------------------------------
// Numbers.
// ---------------------------------------------------------------------------

/// An ASCII decimal digit.
pub open spec fn is_digit(c: char) -> bool {
    '0' <= c <= '9'
}

/// A non-empty run of ASCII digits.
pub open spec fn all_digits(s: Seq<char>) -> bool {
    s.len() > 0 && forall|i: int| 0 <= i < s.len() ==> is_digit(#[trigger] s[i])
}

/// The value of a run of decimal digits.
pub open spec fn digits_value(s: Seq<char>) -> int
    decreases s.len(),
{
    if s.len() == 0 {
        0
    } else {
        digits_value(s.drop_last()) * 10 + (s.last() as int - '0' as int)
    }
}

/// The number `str::parse::<usize>` reads: an optional `+` and at least one digit
/// (its value may exceed `usize::MAX`, which the parser rejects).
pub open spec fn number_of(s: Seq<char>) -> Option<int> {
    let body = if s.len() > 0 && s[0] == '+' {
        s.drop_first()
    } else {
        s
    };
    if all_digits(body) {
        Some(digits_value(body))
    } else {
        None
    }
}

/// What `str::parse::<usize>` returns for `s`.
pub open spec fn usize_of(s: Seq<char>) -> Option<int> {
    match number_of(s) {
        Some(n) => if n <= usize::MAX {
            Some(n)
        } else {
            None
        },
        None => None,
    }
}

proof fn lemma_digits_value_nonneg(s: Seq<char>)
    requires
        forall|i: int| 0 <= i < s.len() ==> is_digit(#[trigger] s[i]),
    ensures
        digits_value(s) >= 0,
    decreases s.len(),
{
    if s.len() > 0 {
        lemma_digits_value_nonneg(s.drop_last());
    }
}

/// A longer run of digits is worth at least as much as its prefix.
proof fn lemma_digits_value_grows(s: Seq<char>, i: int)
    requires
        0 <= i <= s.len(),
        forall|j: int| 0 <= j < s.len() ==> is_digit(#[trigger] s[j]),
    ensures
        digits_value(s.take(i)) <= digits_value(s),
    decreases s.len() - i,
{
    if i < s.len() {
        assert(s.drop_last().take(i) =~= s.take(i));
        lemma_digits_value_grows(s.drop_last(), i);
        lemma_digits_value_nonneg(s.drop_last());
    } else {
        assert(s.take(i) =~= s);
    }
}

/// Reads a decimal number as `str::parse::<usize>` does.
pub fn parse_usize(s: &Vec<char>) -> (r: Option<usize>)
    ensures
        match (r, usize_of(s@)) {
            (Some(a), Some(b)) => a == b,
            (None, None) => true,
            _ => false,
        },
{
    let start: usize = if s.len() > 0 && s[0] == '+' { 1 } else { 0 };
    let ghost body = if s@.len() > 0 && s@[0] == '+' { s@.drop_first() } else { s@ };
    assert(body =~= s@.skip(start as int));
    if start == s.len() {
        return None;
    }
    let mut value: usize = 0;
    let mut i = start;
    while i < s.len()
        invariant
            start <= i <= s@.len(),
            start < s@.len(),
            body == s@.skip(start as int),
            body == (if s@.len() > 0 && s@[0] == '+' { s@.drop_first() } else { s@ }),
            forall|j: int| start <= j < i ==> is_digit(#[trigger] s@[j]),
            value == digits_value(s@.subrange(start as int, i as int)),
        decreases s.len() - i,
    {
        let c = s[i];
        let ghost prefix = s@.subrange(start as int, i as int);
        if !('0' <= c && c <= '9') {
            assert(!all_digits(body)) by {
                assert(body[i - start] == c);
                assert(!is_digit(body[i - start]));
            }
            return None;
        }
        let d = (c as u32 - '0' as u32) as usize;
        assert(s@.subrange(start as int, i + 1).drop_last() =~= prefix);
        match value.checked_mul(10) {
            Some(tens) => match tens.checked_add(d) {
                Some(next) => {
                    value = next;
                },
                None => {
                    proof {
                        let full = s@.subrange(start as int, i + 1);
                        assert(full.last() == c);
                        assert(digits_value(full) == value * 10 + d);
                        if all_digits(body) {
                            assert(body.take(i + 1 - start) =~= full);
                            lemma_digits_value_grows(body, i + 1 - start);
                        }
                    }
                    return None;
                },
            },
            None => {
                proof {
                    let full = s@.subrange(start as int, i + 1);
                    if all_digits(body) {
                        assert(body.take(i + 1 - start) =~= full);
                        lemma_digits_value_grows(body, i + 1 - start);
                        lemma_digits_value_nonneg(prefix);
                    }
                }
                return None;
            },
        }
        i = i + 1;
    }
    assert(s@.subrange(start as int, i as int) =~= body);
    Some(value)
}

// ---------------------------------------------------------------------------
// Renderer choice.
// ---------------------------------------------------------------------------

/// The renderer number a text names, if it names one of the five renderers.
pub open spec fn renderer_number(s: Seq<char>) -> Option<int> {
    match number_of(s) {
        Some(n) => if 1 <= n <= 5 {
            Some(n)
        } else {
            None
        },
        None => None,
    }
}

/// Reads a renderer number from 1 to 5.
pub fn parse_renderer(value: &str) -> (r: Result<usize, String>)
    ensures
        match (r, renderer_number(value@)) {
            (Ok(a), Some(b)) => a == b,
            (Err(e), None) => e@ == "Renderer must be a number from 1 to 5."@,
            _ => false,
        },
{
    let chars = chars_of(value);
    match parse_usize(&chars) {
        Some(n) => {
            if 1 <= n && n <= 5 {
                return Ok(n);
            }
        },
        None => {},
    }
    Err(string_of("Renderer must be a number from 1 to 5."))
}

/// What the command line asks for.
#[derive(Debug)]
pub enum CommandLine {
    /// No arguments: ask interactively.
    Interactive,
    /// A source and a valid renderer number.
    Ready(Input),
    /// The arguments cannot be used; the message says why.
    Rejected(String),
}

pub open spec fn usage_message() -> Seq<char> {
    "Missing renderer.\n\nUsage:\ncargo run -- <url-or-file-path> <renderer>\n\nRenderer:\n1 = ASCII Shading\n2 = MonoBlock\n3 = ColorBlock\n4 = Video + VHS CRT\n5 = TrueColor"@
}

/// Interprets the first two command-line arguments.
pub fn command_line(source: Option<String>, renderer: Option<String>) -> (c: CommandLine)
    ensures
        match (source, renderer) {
            (Some(s), Some(r)) => match renderer_number(r@) {
                Some(n) => c matches CommandLine::Ready(i) && i.source@ == s@ && i.renderer == n,
                None => c matches CommandLine::Rejected(e) && e@ == "Renderer must be a number from 1 to 5."@,
            },
            (Some(_), None) => c matches CommandLine::Rejected(e) && e@ == usage_message(),
            (None, _) => c is Interactive,
        },
{
    match (source, renderer) {
        (Some(source), Some(renderer)) => match parse_renderer(renderer.as_str()) {
            Ok(renderer) => CommandLine::Ready(Input { source, renderer }),
            Err(error) => CommandLine::Rejected(error),
        },
        (Some(_), None) => CommandLine::Rejected(
            string_of(
                "Missing renderer.\n\nUsage:\ncargo run -- <url-or-file-path> <renderer>\n\nRenderer:\n1 = ASCII Shading\n2 = MonoBlock\n3 = ColorBlock\n4 = Video + VHS CRT\n5 = TrueColor",
            ),
        ),
        (None, _) => CommandLine::Interactive,
    }
}

// ---------------------------------------------------------------------------
// Interactive menus.
// ---------------------------------------------------------------------------

/// An answer of the main menu.
#[derive(Debug, Clone, Copy, PartialEq, Eq, Structural)]
pub enum MainChoice {
    Online,
    Offline,
    Exit,
    Invalid,
}

/// An answer of the offline menu.
#[derive(Debug, Clone, Copy, PartialEq, Eq, Structural)]
pub enum OfflineChoice {
    Back,
    EnterPath,
    Browse,
    Search,
    Invalid,
}

/// An answer to the request for an online video URL.
#[derive(Debug)]
pub enum UrlEntry {
    Back,
    Empty,
    Accepted(String),
    Invalid,
}

/// An answer to a numbered list of `count` entries.
#[derive(Debug, Clone, Copy, PartialEq, Eq, Structural)]
pub enum Selection {
    Back,
    /// Not a positive number.
    Invalid,
    /// A positive number past the end of the list.
    OutOfRange,
    /// The zero-based index of the chosen entry.
    Pick(usize),
}

/// An answer of the renderer menu.
#[derive(Debug, Clone, Copy, PartialEq, Eq, Structural)]
pub enum RendererEntry {
    Back,
    Chosen(usize),
    Invalid,
}

pub open spec fn main_choice_of(answer: Seq<char>) -> MainChoice {
    let a = trimmed(answer);
    if a == "1"@ {
        MainChoice::Online
    } else if a == "2"@ {
        MainChoice::Offline
    } else if a == "0"@ {
        MainChoice::Exit
    } else {
        MainChoice::Invalid
    }
}

pub fn main_choice(answer: &str) -> (c: MainChoice)
    ensures
        c == main_choice_of(answer@),
{
    let a = chars_of(trim(answer).as_str());
    if equals(&a, "1") {
        MainChoice::Online
    } else if equals(&a, "2") {
        MainChoice::Offline
    } else if equals(&a, "0") {
        MainChoice::Exit
    } else {
        MainChoice::Invalid
    }
}

pub open spec fn offline_choice_of(answer: Seq<char>) -> OfflineChoice {
    let a = trimmed(answer);
    if a == "0"@ {
        OfflineChoice::Back
    } else if a == "1"@ {
        OfflineChoice::EnterPath
    } else if a == "2"@ {
        OfflineChoice::Browse
    } else if a == "3"@ {
        OfflineChoice::Search
    } else {
        OfflineChoice::Invalid
    }
}

pub fn offline_choice(answer: &str) -> (c: OfflineChoice)
    ensures
        c == offline_choice_of(answer@),
{
    let a = chars_of(trim(answer).as_str());
    if equals(&a, "0") {
        OfflineChoice::Back
    } else if equals(&a, "1") {
        OfflineChoice::EnterPath
    } else if equals(&a, "2") {
        OfflineChoice::Browse
    } else if equals(&a, "3") {
        OfflineChoice::Search
    } else {
        OfflineChoice::Invalid
    }
}

/// Checks an online video URL: `0` goes back, an HTTP or HTTPS URL is accepted.
pub fn url_entry(answer: &str) -> (e: UrlEntry)
    ensures
        ({
            let a = trimmed(answer@);
            if a == "0"@ {
                e is Back
            } else if a.len() == 0 {
                e is Empty
            } else if has_prefix(a, "http://"@) || has_prefix(a, "https://"@) {
                e matches UrlEntry::Accepted(u) && u@ == a
            } else {
                e is Invalid
            }
        }),
{
    let url = trim(answer);
    let a = chars_of(url.as_str());
    if equals(&a, "0") {
        return UrlEntry::Back;
    }
    if a.len() == 0 {
        return UrlEntry::Empty;
    }
    if starts_with(&a, "http://") || starts_with(&a, "https://") {
        return UrlEntry::Accepted(url);
    }
    UrlEntry::Invalid
}

pub open spec fn selection_of(answer: Seq<char>, count: nat) -> Selection {
    let a = trimmed(answer);
    if a == "0"@ {
        Selection::Back
    } else {
        match usize_of(a) {
            Some(v) => if v == 0 {
                Selection::Invalid
            } else if v - 1 < count {
                Selection::Pick((v - 1) as usize)
            } else {
                Selection::OutOfRange
            },
            None => Selection::Invalid,
        }
    }
}

/// Reads the number of an entry of a list of `count` entries; `0` goes back.
pub fn selection(answer: &str, count: usize) -> (s: Selection)
    ensures
        s == selection_of(answer@, count as nat),
{
    let a = chars_of(trim(answer).as_str());
    if equals(&a, "0") {
        return Selection::Back;
    }
    match parse_usize(&a) {
        Some(value) => {
            if value == 0 {
                Selection::Invalid
            } else if value - 1 < count {
                Selection::Pick(value - 1)
            } else {
                Selection::OutOfRange
            }
        },
        None => Selection::Invalid,
    }
}

pub open spec fn renderer_entry_of(answer: Seq<char>) -> RendererEntry {
    let a = trimmed(answer);
    if a == "0"@ {
        RendererEntry::Back
    } else {
        match renderer_number(a) {
            Some(n) => RendererEntry::Chosen(n as usize),
            None => RendererEntry::Invalid,
        }
    }
}

/// Reads an answer of the renderer menu; `0` goes back.
pub fn renderer_entry(answer: &str) -> (e: RendererEntry)
    ensures
        e == renderer_entry_of(answer@),
{
    let trimmed_answer = trim(answer);
    let a = chars_of(trimmed_answer.as_str());
    if equals(&a, "0") {
        return RendererEntry::Back;
    }
    match parse_renderer(trimmed_answer.as_str()) {
        Ok(renderer) => RendererEntry::Chosen(renderer),
        Err(_) => RendererEntry::Invalid,
    }
}

// ---------------------------------------------------------------------------
// Paths.
// ---------------------------------------------------------------------------

/// An answer to the request for a path or a search text goes back when it is
/// `0` or empty.
pub open spec fn goes_back(answer: Seq<char>) -> bool {
    let a = trimmed(answer);
    a == "0"@ || a.len() == 0
}

/// Whether an answer to the request for a path or a search text goes back.
pub fn is_back(answer: &str) -> (b: bool)
    ensures
        b == goes_back(answer@),
{
    let a = chars_of(trim(answer).as_str());
    equals(&a, "0") || a.len() == 0
}

/// What picking an entry of the folder browser does.
#[derive(Debug)]
pub enum Picked {
    /// The entry is a folder: the browser moves into it.
    Folder(String),
    /// The entry is a file: it is the video to play.
    Video(String),
}

/// The browser's answer to picking the entry at `path`, a directory when `is_dir`.
pub fn pick_entry(is_dir: bool, path: &str) -> (p: Picked)
    ensures
        match p {
            Picked::Folder(f) => is_dir && f@ == path@,
            Picked::Video(v) => !is_dir && v@ == path@,
        },
{
    if is_dir {
        Picked::Folder(string_of(path))
    } else {
        Picked::Video(string_of(path))
    }
}

/// Why a typed path cannot be played, from what is on disk: nothing there, not
/// a regular file, or a file whose name `name` has no supported video extension.
pub open spec fn path_problem_of(exists: bool, is_file: bool, name: Seq<char>) -> Option<Seq<char>> {
    if !exists {
        Some("File does not exist."@)
    } else if !is_file {
        Some("That path is not a file."@)
    } else if !has_video_extension(name) {
        Some("Unsupported video file."@)
    } else {
        None
    }
}

/// The message for a typed path that cannot be played, if it cannot.
pub fn path_problem(exists: bool, is_file: bool, name: &str) -> (m: Option<String>)
    ensures
        match (m, path_problem_of(exists, is_file, name@)) {
            (Some(a), Some(b)) => a@ == b,
            (None, None) => true,
            _ => false,
        },
{
    if !exists {
        return Some(string_of("File does not exist."));
    }
    if !is_file {
        return Some(string_of("That path is not a file."));
    }
    if !is_video_file(name) {
        return Some(string_of("Unsupported video file."));
    }
    None
}

/// `s` without trailing carriage returns and newlines.
pub open spec fn without_line_end(s: Seq<char>) -> Seq<char>
    decreases s.len(),
{
    if s.len() > 0 && (s.last() == '\r' || s.last() == '\n') {
        without_line_end(s.drop_last())
    } else {
        s
    }
}

/// Removes the line ending that `read_line` leaves on an answer.
pub fn strip_line_end(line: &str) -> (s: String)
    ensures
        s@ == without_line_end(line@),
{
    let chars = chars_of(line);
    let mut end = chars.len();
    assert(chars@.take(end as int) =~= chars@);
    while end > 0 && (chars[end - 1] == '\r' || chars[end - 1] == '\n')
        invariant
            end <= chars@.len(),
            without_line_end(chars@) == without_line_end(chars@.take(end as int)),
        decreases end,
    {
        assert(chars@.take(end as int).drop_last() =~= chars@.take(end - 1));
        end = end - 1;
    }
    let s = string_from_range(&chars, 0, end);
    assert(s@ =~= chars@.take(end as int));
    s
}

/// The text between a matching pair of quotes around `s`, if it has one.
pub open spec fn unquoted(s: Seq<char>) -> Seq<char> {
    if s.len() >= 2 && s[0] == '"' && s.last() == '"' {
        s.subrange(1, s.len() - 1)
    } else if s.len() >= 2 && s[0] == '\'' && s.last() == '\'' {
        s.subrange(1, s.len() - 1)
    } else {
        s
    }
}

/// A typed path: trimmed, unquoted, and with `~`, `$HOME`, `~/...` and
/// `$HOME/...` expanded when the home directory is known.
pub open spec fn expanded_path(input: Seq<char>, home: Option<Seq<char>>) -> Seq<char> {
    let p = unquoted(trimmed(input));
    match home {
        Some(h) => if p == "~"@ || p == "$HOME"@ {
            h
        } else if has_prefix(p, "~/"@) {
            h + seq!['/'] + p.skip(2)
        } else if has_prefix(p, "$HOME/"@) {
            h + seq!['/'] + p.skip(6)
        } else {
            p
        },
        None => p,
    }
}

/// Expands a typed path with the home directory `home`.
pub fn expand_path(input: &str, home: Option<&str>) -> (e: String)
    ensures
        e@ == expanded_path(input@, match home {
            Some(h) => Some(h@),
            None => None,
        }),
{
    let t = chars_of(trim(input).as_str());
    let (start, end) = if t.len() >= 2 && t[0] == '"' && t[t.len() - 1] == '"' {
        (1, t.len() - 1)
    } else if t.len() >= 2 && t[0] == '\'' && t[t.len() - 1] == '\'' {
        (1, t.len() - 1)
    } else {
        (0, t.len())
    };
    let p = string_from_range(&t, start, end);
    assert(p@ =~= unquoted(t@));
    let pc = chars_of(p.as_str());
    proof {
        reveal_strlit("~");
        reveal_strlit("$HOME");
        reveal_strlit("~/");
        reveal_strlit("$HOME/");
    }
    if let Some(home) = home {
        if equals(&pc, "~") || equals(&pc, "$HOME") {
            return string_of(home);
        }
        if starts_with(&pc, "~/") {
            let mut e = string_of(home);
            e.push('/');
            let rest = string_from_range(&pc, 2, pc.len());
            e.push_str(rest.as_str());
            assert(rest@ =~= p@.skip(2));
            return e;
        }
        if starts_with(&pc, "$HOME/") {
            let mut e = string_of(home);
            e.push('/');
            let rest = string_from_range(&pc, 6, pc.len());
            e.push_str(rest.as_str());
            assert(rest@ =~= p@.skip(6));
            return e;
        }
    }
    p
}

/// The parent directory of a path, as `Path::parent` computes it, or `None` at a
/// root or for an empty path.
pub uninterp spec fn path_parent(path: Seq<char>) -> Option<Seq<char>>;

/// Calls `Path::parent`; the path's component rules are not restated, so the
/// result is only named. A path built from text turns back into that text.
#[verifier::external_body]
fn parent_of(path: &str) -> (p: Option<String>)
    ensures
        match (p, path_parent(path@)) {
            (Some(a), Some(b)) => a@ == b,
            (None, None) => true,
            _ => false,
        },
{
    match std::path::Path::new(path).parent() {
        Some(parent) => Some(parent.to_string_lossy().to_string()),
        None => None,
    }
}

/// Moves `path` to its parent directory; returns whether it moved.
pub fn go_parent(path: &mut String) -> (moved: bool)
    ensures
        match path_parent(old(path)@) {
            Some(parent) => if parent != old(path)@ {
                moved && final(path)@ == parent
            } else {
                !moved && final(path)@ == old(path)@
            },
            None => !moved && final(path)@ == old(path)@,
        },
{
    if let Some(parent) = parent_of(path.as_str()) {
        let differs = !equals(&chars_of(parent.as_str()), path.as_str());
        if differs {
            *path = parent;
            return true;
        }
    }
    false
}

proof fn lemma_decimal_digits(n: nat)
    ensures
        all_digits(decimal(n)),
        digits_value(decimal(n)) == n,
    decreases n,
{
    let d = n % 10;
    assert(digit_char(d) as int == d + 48);
    if n >= 10 {
        lemma_decimal_digits(n / 10);
        let s = decimal(n);
        assert(s.drop_last() =~= decimal(n / 10));
        assert forall|i: int| 0 <= i < s.len() implies is_digit(#[trigger] s[i]) by {
            if i < s.len() - 1 {
                assert(s[i] == decimal(n / 10)[i]);
            }
        }
        assert(s.last() == digit_char(d));
        assert(digits_value(s) == digits_value(s.drop_last()) * 10 + (s.last() as int - '0' as int));
    } else {
        let s = decimal(n);
        assert(s.drop_last() =~= Seq::<char>::empty());
        assert(digits_value(s) == digits_value(s.drop_last()) * 10 + (s.last() as int - '0' as int));
    }
}

/// Reading back a number written in decimal gives the number.
pub proof fn lemma_decimal_round_trip(n: nat)
    ensures
        number_of(decimal(n)) == Some(n as int),
        n <= usize::MAX ==> usize_of(decimal(n)) == Some(n as int),
{
    lemma_decimal_digits(n);
    assert(decimal(n)[0] != '+');
}

/// The renderer menu accepts exactly the numbers 1 to 5, written in decimal.
pub proof fn lemma_renderer_numbers(n: nat)
    ensures
        1 <= n <= 5 ==> renderer_number(decimal(n)) == Some(n as int),
        n < 1 || n > 5 ==> renderer_number(decimal(n)) is None,
{
    lemma_decimal_round_trip(n);
}

} // verus!
