//! The configuration: the notes directory and the editor, their defaults,
//! the editors offered at setup, and the expansion of the home shorthand.

use vstd::prelude::*;
use crate::text::{chars_of, string_of};

verus! {

/// Where the notes live and which editor opens them.
pub struct Config {
    pub directory: String,
    pub editor: String,
}

/// The editor offered at position `i` of the setup menu.
pub open spec fn editor_choice(i: int) -> Seq<char> {
    if i == 0 {
        "vim"@
    } else if i == 1 {
        "nano"@
    } else if i == 2 {
        "emacs"@
    } else {
        "micro"@
    }
}

/// The number of editors offered at setup.
pub const EDITOR_COUNT: usize = 4;

impl Default for Config {
    /// Notes under `~/notes`, edited with `vim`.
    fn default() -> (r: Config)
        ensures
            r.directory@ == "~/notes"@,
            r.editor@ == "vim"@,
    {
        Config { directory: String::from_str("~/notes"), editor: String::from_str("vim") }
    }
}

/// The names of the editors offered at setup, in menu order.
pub fn editor_choices() -> (r: Vec<String>)
    ensures
        r@.len() == EDITOR_COUNT,
        forall|i: int| 0 <= i < EDITOR_COUNT ==> #[trigger] r@[i]@ == editor_choice(i),
{
    let mut r: Vec<String> = Vec::new();
    r.push(String::from_str("vim"));
    r.push(String::from_str("nano"));
    r.push(String::from_str("emacs"));
    r.push(String::from_str("micro"));
    r
}

/// The configuration made at setup from the notes directory given and the
/// position of the chosen editor in the menu; `None` for a position past
/// the menu.
pub fn new_config(directory: &str, editor_index: usize) -> (r: Option<Config>)
    ensures
        editor_index < EDITOR_COUNT <==> r is Some,
        r matches Some(c) ==> c.directory@ == directory@ && c.editor@ == editor_choice(
            editor_index as int,
        ),
{
    let choices = editor_choices();
    if editor_index < choices.len() {
        Some(Config { directory: String::from_str(directory), editor: choices[editor_index].clone() })
    } else {
        None
    }
}

/// The directory that must be created before a note operation runs: the
/// configured directory when it is not a directory yet, else none.
pub fn validate_config(config: &Config, directory_is_dir: bool) -> (r: Option<String>)
    ensures
        directory_is_dir ==> r is None,
        !directory_is_dir ==> r is Some && r->0@ == config.directory@,
{
    if directory_is_dir {
        None
    } else {
        Some(config.directory.clone())
    }
}

/// `path` with a leading `~` replaced by the home directory `home`; any
/// other path unchanged.
pub open spec fn expanded(path: Seq<char>, home: Seq<char>) -> Seq<char> {
    if starts_with_home_mark(path) {
        home + path.skip(1)
    } else {
        path
    }
}

/// `path` begins with the home shorthand `~`.
pub open spec fn starts_with_home_mark(path: Seq<char>) -> bool {
    path.len() > 0 && path[0] == '~'
}

/// `path` with a leading `~` replaced by the home directory `home`.
pub fn expand_path(path: &str, home: &str) -> (r: String)
    ensures
        r@ == expanded(path@, home@),
{
    let chars = chars_of(path);
    if chars.len() == 0 || chars[0] != '~' {
        return String::from_str(path);
    }
    let mut out = chars_of(home);
    let ghost base = out@;
    let mut i: usize = 1;
    while i < chars.len()
        invariant
            1 <= i <= chars.len(),
            chars@ == path@,
            out@ == base + chars@.subrange(1, i as int),
        decreases chars.len() - i,
    {
        assert(chars@.subrange(1, i + 1) =~= chars@.subrange(1, i as int).push(chars@[i as int]));
        out.push(chars[i]);
        i = i + 1;
    }
    assert(chars@.subrange(1, i as int) =~= path@.skip(1));
    string_of(&out)
}

/// Expanding an expanded path changes nothing more, for a home directory
/// that is not empty and does not itself begin with `~`.
pub proof fn lemma_expand_idempotent(path: Seq<char>, home: Seq<char>)
    requires
        home.len() > 0,
        home[0] != '~',
    ensures
        expanded(expanded(path, home), home) == expanded(path, home),
{
    if starts_with_home_mark(path) {
        assert((home + path.skip(1))[0] == home[0]);
    }
}

/// Relies on `dirs::home_dir`: the current user's home directory, read from
/// the environment or the user database, as text when it is valid Unicode.
/// It depends on the machine, so nothing is stated of it.
#[verifier::external_body]
fn home_directory() -> (r: Option<String>) {
    match dirs::home_dir() {
        Some(p) => p.into_os_string().into_string().ok(),
        None => None,
    }
}

/// `path` with a leading `~` replaced by the current user's home directory.
/// Any other path comes back unchanged and the home directory is not looked
/// up; `None` when it is needed and cannot be found.
pub fn expand_home(path: &str) -> (r: Option<String>)
    ensures
        !starts_with_home_mark(path@) ==> r is Some && r->0@ == path@,
        r matches Some(e) ==> exists|home: Seq<char>| e@ == expanded(path@, home),
{
    let chars = chars_of(path);
    if chars.len() == 0 || chars[0] != '~' {
        proof {
            assert(path@ == expanded(path@, Seq::empty()));
        }
        return Some(String::from_str(path));
    }
    match home_directory() {
        Some(home) => Some(expand_path(path, home.as_str())),
        None => None,
    }
}

} // verus!
