//! Where notes and templates live: file names, joined paths, and the choice
//! of the template that seeds a new note.

use vstd::prelude::*;
use crate::text::{chars_of, ends_with, ends_with_exec};

verus! {

/// The extension of a note or template file.
pub open spec fn md_ext() -> Seq<char> {
    seq!['.', 'm', 'd']
}

/// The name of the subdirectory that holds the templates.
pub open spec fn templates_name() -> Seq<char> {
    seq!['t', 'e', 'm', 'p', 'l', 'a', 't', 'e', 's']
}

/// The name of the default template, without its extension.
pub open spec fn basic_name() -> Seq<char> {
    seq!['b', 'a', 's', 'i', 'c']
}

/// A note's file name: `name` itself when it already ends in `.md`, else
/// `name` followed by `.md`.
pub open spec fn note_file_name_of(name: Seq<char>) -> Seq<char> {
    if ends_with(name, md_ext()) {
        name
    } else {
        name + md_ext()
    }
}

/// `name` placed under the directory `dir`: `name` alone when `dir` is empty
/// or `name` is absolute; otherwise `dir` and `name` with one `/` between them.
pub open spec fn joined(dir: Seq<char>, name: Seq<char>) -> Seq<char> {
    if dir.len() == 0 || (name.len() > 0 && name[0] == '/') {
        name
    } else if dir.last() == '/' {
        dir + name
    } else {
        dir + seq!['/'] + name
    }
}

/// The path of the note `name` in the notes directory `dir`.
pub open spec fn note_path_of(dir: Seq<char>, name: Seq<char>) -> Seq<char> {
    joined(dir, note_file_name_of(name))
}

/// The templates directory under the notes directory `dir`.
pub open spec fn templates_dir_of(dir: Seq<char>) -> Seq<char> {
    joined(dir, templates_name())
}

/// The file of the template called `template` (given without its extension).
pub open spec fn template_path_of(dir: Seq<char>, template: Seq<char>) -> Seq<char> {
    joined(templates_dir_of(dir), template + md_ext())
}

/// The file of the default template.
pub open spec fn default_template_path_of(dir: Seq<char>) -> Seq<char> {
    template_path_of(dir, basic_name())
}

/// The file of a template created under the name `name`: like a note's,
/// `.md` is added only when missing.
pub open spec fn new_template_path_of(dir: Seq<char>, name: Seq<char>) -> Seq<char> {
    joined(templates_dir_of(dir), note_file_name_of(name))
}

/// The warning shown when the requested template `template` does not exist.
pub open spec fn missing_template_warning(template: Seq<char>) -> Seq<char> {
    "Warning: Template '"@ + template + "' not found. Using default."@
}

/// The note file name for `name`.
pub fn note_file_name(name: &str) -> (r: String)
    ensures
        r@ == note_file_name_of(name@),
{
    let ext = chars_of(".md");
    proof {
        reveal_strlit(".md");
        assert(ext@ =~= md_ext());
    }
    let mut r = String::from_str(name);
    if !ends_with_exec(&chars_of(name), &ext) {
        r.append(".md");
    }
    r
}

/// `name` placed under the directory `dir`.
pub fn join_path(dir: &str, name: &str) -> (r: String)
    ensures
        r@ == joined(dir@, name@),
{
    let d = chars_of(dir);
    let n = chars_of(name);
    if d.len() == 0 || (n.len() > 0 && n[0] == '/') {
        return String::from_str(name);
    }
    let mut r = String::from_str(dir);
    if d[d.len() - 1] != '/' {
        proof {
            reveal_strlit("/");
        }
        r.append("/");
    }
    r.append(name);
    r
}

/// The path of the note `name` in the notes directory `dir`.
pub fn note_path(dir: &str, name: &str) -> (r: String)
    ensures
        r@ == note_path_of(dir@, name@),
{
    let file = note_file_name(name);
    join_path(dir, file.as_str())
}

/// The templates directory under the notes directory `dir`.
pub fn templates_dir(dir: &str) -> (r: String)
    ensures
        r@ == templates_dir_of(dir@),
{
    proof {
        reveal_strlit("templates");
    }
    join_path(dir, "templates")
}

/// The file of the template called `template` (given without its extension).
pub fn template_path(dir: &str, template: &str) -> (r: String)
    ensures
        r@ == template_path_of(dir@, template@),
{
    let mut file = String::from_str(template);
    proof {
        reveal_strlit(".md");
    }
    file.append(".md");
    assert(file@ =~= template@ + md_ext());
    let tdir = templates_dir(dir);
    join_path(tdir.as_str(), file.as_str())
}

/// The file of the default template.
pub fn default_template_path(dir: &str) -> (r: String)
    ensures
        r@ == default_template_path_of(dir@),
{
    proof {
        reveal_strlit("basic");
    }
    template_path(dir, "basic")
}

/// The file of a template created under the name `name`.
pub fn new_template_path(dir: &str, name: &str) -> (r: String)
    ensures
        r@ == new_template_path_of(dir@, name@),
{
    let tdir = templates_dir(dir);
    let file = note_file_name(name);
    join_path(tdir.as_str(), file.as_str())
}

/// The template that seeds a new note, and the warning to show, if any.
pub struct TemplateChoice {
    pub path: String,
    pub warning: Option<String>,
}

/// Chooses the template for a new note in `dir`. `requested` is the template
/// asked for, if any; `requested_exists` says whether its file
/// (`template_path(dir, requested)`) exists. A missing template falls back to
/// the default one, with a warning.
pub fn choose_template(dir: &str, requested: Option<&str>, requested_exists: bool) -> (r: TemplateChoice)
    ensures
        match requested {
            Some(t) => if requested_exists {
                r.path@ == template_path_of(dir@, t@) && r.warning is None
            } else {
                &&& r.path@ == default_template_path_of(dir@)
                &&& r.warning is Some
                &&& r.warning->0@ == missing_template_warning(t@)
            },
            None => r.path@ == default_template_path_of(dir@) && r.warning is None,
        },
{
    match requested {
        Some(t) => {
            if requested_exists {
                TemplateChoice { path: template_path(dir, t), warning: None }
            } else {
                let mut w = String::from_str("Warning: Template '");
                w.append(t);
                w.append("' not found. Using default.");
                TemplateChoice { path: default_template_path(dir), warning: Some(w) }
            }
        },
        None => TemplateChoice { path: default_template_path(dir), warning: None },
    }
}

/// A note's file name ends in `.md`, and naming it again changes nothing:
/// the extension is never added twice.
pub proof fn lemma_note_file_name(name: Seq<char>)
    ensures
        ends_with(note_file_name_of(name), md_ext()),
        note_file_name_of(note_file_name_of(name)) == note_file_name_of(name),
        ends_with(name, md_ext()) ==> note_file_name_of(name) == name,
        !ends_with(name, md_ext()) ==> note_file_name_of(name) == name + md_ext(),
{
    let f = note_file_name_of(name);
    if !ends_with(name, md_ext()) {
        assert(f.subrange(f.len() - 3, f.len() as int) =~= md_ext());
    }
}

/// The note `name` is created in `dir` as `<dir>/<name>.md` when `name`
/// lacks the extension, and as `<dir>/<name>` when it has it.
pub proof fn lemma_note_path(dir: Seq<char>, name: Seq<char>)
    ensures
        ends_with(name, md_ext()) ==> note_path_of(dir, name) == joined(dir, name),
        !ends_with(name, md_ext()) ==> note_path_of(dir, name) == joined(dir, name + md_ext()),
{
    lemma_note_file_name(name);
}

} // verus!
