//! Masking of the database password in Nextcloud's `config.php`.
//!
//! The first line that assigns `dbpassword` gets the fixed placeholder in
//! place of the password; every other line stays as it is.

use vstd::prelude::*;
use crate::text::views;

verus! {

/// The pattern of a line that assigns the database password; its first group
/// ends where the password starts.
pub const PASSWORD_PATTERN: &'static str = r"(dbpassword.*=>\s*).*,";

/// What the password assignment is replaced with.
pub const PASSWORD_REPLACEMENT: &'static str = "$1'DBPASSWORD',";

/// The regular expression `pattern` compiles.
pub uninterp spec fn regex_compiles(pattern: Seq<char>) -> bool;

/// The regular expression `pattern` matches somewhere in `text`.
pub uninterp spec fn regex_finds(pattern: Seq<char>, text: Seq<char>) -> bool;

/// `text` with the leftmost match of `pattern` replaced by `replacement`.
pub uninterp spec fn regex_replaced(pattern: Seq<char>, text: Seq<char>, replacement: Seq<char>) -> Seq<char>;

/// Relies on `regex::Regex::new`: whether it accepts a pattern depends on the
/// pattern alone.
#[verifier::external_body]
fn compiles(pattern: &str) -> (r: bool)
    ensures
        r == regex_compiles(pattern@),
{
    regex::Regex::new(pattern).is_ok()
}

/// Relies on `regex::Regex::new` and `Regex::is_match`.
#[verifier::external_body]
fn finds(pattern: &str, text: &str) -> (r: bool)
    requires
        regex_compiles(pattern@),
    ensures
        r == regex_finds(pattern@, text@),
{
    regex::Regex::new(pattern).unwrap().is_match(text)
}

/// Relies on `regex::Regex::new` and `Regex::replace`, which returns the text
/// unchanged when nothing matches.
#[verifier::external_body]
fn replace_first(pattern: &str, text: &str, replacement: &str) -> (r: String)
    requires
        regex_compiles(pattern@),
    ensures
        r@ == regex_replaced(pattern@, text@, replacement@),
        !regex_finds(pattern@, text@) ==> r@ == text@,
{
    regex::Regex::new(pattern).unwrap().replace(text, replacement).into_owned()
}

/// Line `i` of `lines` is the first that assigns the password.
pub open spec fn first_password_line(lines: Seq<Seq<char>>, i: int) -> bool {
    &&& 0 <= i < lines.len()
    &&& regex_finds(PASSWORD_PATTERN@, lines[i])
    &&& forall|j: int| 0 <= j < i ==> !regex_finds(PASSWORD_PATTERN@, #[trigger] lines[j])
}

/// Some line of `lines` assigns the password.
pub open spec fn has_password_line(lines: Seq<Seq<char>>) -> bool {
    exists|i: int| 0 <= i < lines.len() && regex_finds(PASSWORD_PATTERN@, #[trigger] lines[i])
}

/// `lines` with the password of the first line that assigns it masked.
pub open spec fn masked(lines: Seq<Seq<char>>) -> Seq<Seq<char>> {
    Seq::new(
        lines.len(),
        |i: int|
            if first_password_line(lines, i) {
                regex_replaced(PASSWORD_PATTERN@, lines[i], PASSWORD_REPLACEMENT@)
            } else {
                lines[i]
            },
    )
}

/// Masks the password in the lines of a configuration. Returns the lines and
/// whether a password was found, or `None` if the pattern does not compile.
pub fn mask_password(lines: &Vec<String>) -> (r: Option<(Vec<String>, bool)>)
    ensures
        r is None <==> !regex_compiles(PASSWORD_PATTERN@),
        r matches Some((out, found)) ==> views(out@) == masked(views(lines@)) && found == has_password_line(
            views(lines@),
        ),
{
    if !compiles(PASSWORD_PATTERN) {
        return None;
    }
    let ghost input = views(lines@);
    let mut out: Vec<String> = Vec::new();
    let mut replaced = false;
    let mut i: usize = 0;
    while i < lines.len()
        invariant
            regex_compiles(PASSWORD_PATTERN@),
            input == views(lines@),
            i <= lines@.len(),
            views(out@) == masked(input).subrange(0, i as int),
            replaced == exists|j: int| 0 <= j < i && regex_finds(PASSWORD_PATTERN@, #[trigger] input[j]),
        decreases lines.len() - i,
    {
        let line = lines[i].as_str();
        let ghost before = out@;
        let ghost was_replaced = replaced;
        if !replaced && finds(PASSWORD_PATTERN, line) {
            replaced = true;
            out.push(replace_first(PASSWORD_PATTERN, line, PASSWORD_REPLACEMENT));
            assert(first_password_line(input, i as int));
        } else {
            out.push(lines[i].clone());
            proof {
                if was_replaced {
                    let j = choose|j: int| 0 <= j < i && regex_finds(PASSWORD_PATTERN@, #[trigger] input[j]);
                    assert(!first_password_line(input, i as int));
                }
            }
        }
        assert(views(out@) =~= masked(input).subrange(0, i + 1)) by {
            assert(views(out@) =~= views(before).push(views(out@).last()));
        }
        i += 1;
    }
    assert(masked(input).subrange(0, lines@.len() as int) =~= masked(input));
    Some((out, replaced))
}

/// Masking changes at most one line, the first that assigns the password;
/// without such a line the lines come back unchanged.
pub proof fn lemma_masking_touches_one_line(lines: Seq<Seq<char>>)
    ensures
        masked(lines).len() == lines.len(),
        forall|i: int| 0 <= i < lines.len() && masked(lines)[i] != lines[i] ==> first_password_line(lines, i),
        forall|i: int, j: int| first_password_line(lines, i) && first_password_line(lines, j) ==> i == j,
        !has_password_line(lines) ==> masked(lines) == lines,
{
    assert forall|i: int, j: int| first_password_line(lines, i) && first_password_line(lines, j) implies i == j by {
        if i < j {
            assert(!regex_finds(PASSWORD_PATTERN@, lines[i]));
        } else if j < i {
            assert(!regex_finds(PASSWORD_PATTERN@, lines[j]));
        }
    }
    if !has_password_line(lines) {
        assert(masked(lines) =~= lines);
    }
}

} // verus!
