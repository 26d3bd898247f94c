//! Template rendering: the two placeholder tokens and their substitution.

use vstd::prelude::*;
use crate::text::{chars_of, contains, replace_all, replace_all_exec, string_of, lemma_replace_absent};

verus! {

/// The token that stands for the note's title.
pub open spec fn title_token() -> Seq<char> {
    seq!['_', 'T', 'I', 'T', 'L', 'E', '_']
}

/// The token that stands for the note's creation date.
pub open spec fn date_token() -> Seq<char> {
    seq!['_', 'C', 'R', 'E', 'A', 'T', 'I', 'O', 'N', '_', 'D', 'A', 'T', 'E', '_']
}

/// The heading that replaces the title token: `# ` followed by the title.
pub open spec fn title_heading(title: Seq<char>) -> Seq<char> {
    seq!['#', ' '] + title
}

/// The text of a new note: every title token replaced by the heading of
/// `title`, then every date token replaced by `date`.
pub open spec fn rendered(template: Seq<char>, title: Seq<char>, date: Seq<char>) -> Seq<char> {
    replace_all(replace_all(template, title_token(), title_heading(title)), date_token(), date)
}

/// Renders `template` for a note called `title` created on `date`.
pub fn render(template: &str, title: &str, date: &str) -> (r: String)
    ensures
        r@ == rendered(template@, title@, date@),
{
    let title_tok = chars_of("_TITLE_");
    let date_tok = chars_of("_CREATION_DATE_");
    proof {
        reveal_strlit("_TITLE_");
        reveal_strlit("_CREATION_DATE_");
        assert(title_tok@ =~= title_token());
        assert(date_tok@ =~= date_token());
    }
    let mut heading = chars_of("# ");
    proof {
        reveal_strlit("# ");
    }
    let title_chars = chars_of(title);
    let mut k: usize = 0;
    let ghost base = heading@;
    while k < title_chars.len()
        invariant
            k <= title_chars.len(),
            heading@ == base + title_chars@.take(k as int),
        decreases title_chars.len() - k,
    {
        assert(base + title_chars@.take(k + 1) =~= heading@.push(title_chars[k as int]));
        heading.push(title_chars[k]);
        k = k + 1;
    }
    assert(heading@ =~= title_heading(title@));
    let source = chars_of(template);
    let titled = replace_all_exec(&source, &title_tok, &heading);
    let dated = replace_all_exec(&titled, &date_tok, &chars_of(date));
    string_of(&dated)
}

/// Rendering a template that holds neither token gives the template back,
/// whatever the title and the date.
pub proof fn lemma_render_without_tokens(template: Seq<char>, title: Seq<char>, date: Seq<char>)
    requires
        !contains(template, title_token()),
        !contains(template, date_token()),
    ensures
        rendered(template, title, date) == template,
{
    lemma_replace_absent(template, title_token(), title_heading(title));
    lemma_replace_absent(template, date_token(), date);
}

} // verus!
