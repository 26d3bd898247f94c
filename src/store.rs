//! The note store: which directory entries are listed, and which file was
//! modified last.

use vstd::prelude::*;
use crate::paths::{md_ext, templates_name};
use crate::text::{chars_of, ends_with, ends_with_exec};

verus! {

/// One entry of a directory listing, as the file system reported it.
/// `modified` is the modification time in nanoseconds since the Unix epoch,
/// negative before it.
pub struct DirEntry {
    pub name: String,
    pub modified: i128,
    pub is_file: bool,
    pub is_dir: bool,
}

/// Why the store has nothing to offer.
#[derive(Debug, PartialEq, Eq, Structural)]
pub enum StoreError {
    /// The directory holds no file.
    NoFilesFound,
    /// The directory holds nothing that can be listed.
    NoNotesFound,
}

/// The index of the most recently modified file of `s`: among the files of
/// greatest modification time, the last one in listing order. `None` when
/// `s` holds no file.
pub open spec fn latest_index(s: Seq<DirEntry>) -> Option<int>
    decreases s.len(),
{
    if s.len() == 0 {
        None
    } else {
        let prev = latest_index(s.drop_last());
        if !s.last().is_file {
            prev
        } else {
            match prev {
                None => Some(s.len() - 1),
                Some(j) => if s[j].modified <= s.last().modified {
                    Some(s.len() - 1)
                } else {
                    Some(j)
                },
            }
        }
    }
}

/// `s` holds at least one file.
pub open spec fn has_file(s: Seq<DirEntry>) -> bool {
    exists|k: int| 0 <= k < s.len() && s[k].is_file
}

/// No two files of `s` share a modification time.
pub open spec fn distinct_file_times(s: Seq<DirEntry>) -> bool {
    forall|a: int, b: int|
        0 <= a < s.len() && 0 <= b < s.len() && a != b && s[a].is_file && s[b].is_file
            ==> s[a].modified != s[b].modified
}

/// Entry `j` of `s` is a file, no file of `s` is newer, and every file
/// listed after it is older.
pub open spec fn is_last_newest(s: Seq<DirEntry>, j: int) -> bool {
    &&& 0 <= j < s.len()
    &&& s[j].is_file
    &&& forall|k: int| 0 <= k < s.len() && s[k].is_file ==> s[k].modified <= s[j].modified
    &&& forall|k: int| j < k < s.len() && s[k].is_file ==> s[k].modified < s[j].modified
}

/// The name of the most recently modified file among `entries`.
pub fn most_recent(entries: &Vec<DirEntry>) -> (r: Result<String, StoreError>)
    ensures
        r is Err <==> !has_file(entries@),
        r is Err ==> r == Err::<String, StoreError>(StoreError::NoFilesFound),
        r matches Ok(n) ==> exists|j: int| is_last_newest(entries@, j) && n@ == entries@[j].name@,
        match latest_index(entries@) {
            None => r == Err::<String, StoreError>(StoreError::NoFilesFound),
            Some(j) => r is Ok && r->Ok_0@ == entries@[j].name@,
        },
{
    let mut found = false;
    let mut best: usize = 0;
    let mut i: usize = 0;
    while i < entries.len()
        invariant
            i <= entries.len(),
            found ==> best < i,
            latest_index(entries@.take(i as int)) == (if found {
                Some(best as int)
            } else {
                None
            }),
        decreases entries.len() - i,
    {
        assert(entries@.take(i + 1).drop_last() =~= entries@.take(i as int));
        if entries[i].is_file {
            if !found || entries[best].modified <= entries[i].modified {
                best = i;
                found = true;
            }
        }
        i = i + 1;
    }
    assert(entries@.take(i as int) =~= entries@);
    proof {
        lemma_latest_is_newest(entries@);
    }
    if found {
        Ok(entries[best].name.clone())
    } else {
        Err(StoreError::NoFilesFound)
    }
}

/// The most recent file is a file, no file is newer, every file listed
/// after it is older, and there is none exactly when `s` holds no file.
pub proof fn lemma_latest_is_newest(s: Seq<DirEntry>)
    ensures
        latest_index(s) is None <==> !has_file(s),
        latest_index(s) matches Some(j) ==> is_last_newest(s, j),
    decreases s.len(),
{
    if s.len() > 0 {
        let p = s.drop_last();
        lemma_latest_is_newest(p);
        assert forall|k: int| 0 <= k < p.len() implies p[k] == s[k] by {}
        if has_file(p) {
            let k = choose|k: int| 0 <= k < p.len() && p[k].is_file;
            assert(s[k].is_file);
        }
        if has_file(s) && !s.last().is_file {
            let k = choose|k: int| 0 <= k < s.len() && s[k].is_file;
            assert(p[k].is_file);
        }
    }
}

/// Which file is the most recent does not depend on the listing order: two
/// listings of the same entries whose files all differ in modification time
/// name the same entry, or both hold no file.
pub proof fn lemma_latest_ignores_order(s1: Seq<DirEntry>, s2: Seq<DirEntry>)
    requires
        s1.to_multiset() == s2.to_multiset(),
        distinct_file_times(s1),
    ensures
        latest_index(s1) is None <==> latest_index(s2) is None,
        latest_index(s1) matches Some(j1) ==> latest_index(s2) matches Some(j2) && s1[j1] == s2[j2],
{
    lemma_latest_is_newest(s1);
    lemma_latest_is_newest(s2);
    s1.to_multiset_ensures();
    s2.to_multiset_ensures();
    if has_file(s1) {
        let k = choose|k: int| 0 <= k < s1.len() && s1[k].is_file;
        assert(s1.contains(s1[k]));
        assert(s1.to_multiset().count(s1[k]) > 0);
        assert(s2.to_multiset().count(s1[k]) > 0);
        assert(s2.contains(s1[k]));
    }
    if has_file(s2) {
        let k = choose|k: int| 0 <= k < s2.len() && s2[k].is_file;
        assert(s2.contains(s2[k]));
        assert(s2.to_multiset().count(s2[k]) > 0);
        assert(s1.to_multiset().count(s2[k]) > 0);
        assert(s1.contains(s2[k]));
    }
    if let Some(j1) = latest_index(s1) {
        let j2 = latest_index(s2)->0;
        assert(s1.contains(s1[j1]));
        assert(s1.to_multiset().count(s1[j1]) > 0);
        assert(s2.to_multiset().count(s1[j1]) > 0);
        assert(s2.contains(s1[j1]));
        let a = choose|a: int| 0 <= a < s2.len() && s2[a] == s1[j1];
        assert(s2.contains(s2[j2]));
        assert(s2.to_multiset().count(s2[j2]) > 0);
        assert(s1.to_multiset().count(s2[j2]) > 0);
        assert(s1.contains(s2[j2]));
        let b = choose|b: int| 0 <= b < s1.len() && s1[b] == s2[j2];
        assert(s1[b].modified <= s1[j1].modified);
        assert(s2[a].modified <= s2[j2].modified);
        assert(b == j1);
    }
}

/// Whether an entry is listed: notes are the `.md` files; templates are the
/// `.md` files and the subdirectories.
pub open spec fn is_listed(e: DirEntry, show_templates: bool) -> bool {
    ends_with(e.name@, md_ext()) || (show_templates && e.is_dir)
}

/// The names of the listed entries of `s`, in listing order.
pub open spec fn listed_names(s: Seq<DirEntry>, show_templates: bool) -> Seq<Seq<char>>
    decreases s.len(),
{
    if s.len() == 0 {
        Seq::empty()
    } else {
        let prev = listed_names(s.drop_last(), show_templates);
        if is_listed(s.last(), show_templates) {
            prev.push(s.last().name@)
        } else {
            prev
        }
    }
}

/// `a` comes strictly before `b` in lexicographic order of code points; a
/// proper prefix comes first.
pub open spec fn name_lt(a: Seq<char>, b: Seq<char>) -> bool
    decreases a.len(),
{
    if b.len() == 0 {
        false
    } else if a.len() == 0 {
        true
    } else if a[0] != b[0] {
        (a[0] as u32) < (b[0] as u32)
    } else {
        name_lt(a.skip(1), b.skip(1))
    }
}

/// No name of `s` comes strictly before the one it follows.
pub open spec fn sorted_names(s: Seq<Seq<char>>) -> bool {
    forall|i: int| 0 <= i < s.len() - 1 ==> !#[trigger] name_lt(s[i + 1], s[i])
}

/// The texts of the strings of `v`.
pub open spec fn names_view(v: Seq<String>) -> Seq<Seq<char>> {
    Seq::new(v.len(), |i: int| v[i]@)
}

/// Two names are never each before the other.
pub proof fn lemma_name_lt_asymmetric(a: Seq<char>, b: Seq<char>)
    ensures
        name_lt(a, b) ==> !name_lt(b, a),
    decreases a.len(),
{
    if a.len() > 0 && b.len() > 0 && a[0] == b[0] {
        lemma_name_lt_asymmetric(a.skip(1), b.skip(1));
    }
}

/// Whether `a` comes strictly before `b`.
pub fn name_less(a: &Vec<char>, b: &Vec<char>) -> (r: bool)
    ensures
        r == name_lt(a@, b@),
{
    let mut i: usize = 0;
    assert(a@.skip(0) =~= a@ && b@.skip(0) =~= b@);
    while i < a.len() && i < b.len()
        invariant
            i <= a.len(),
            i <= b.len(),
            name_lt(a@, b@) == name_lt(a@.skip(i as int), b@.skip(i as int)),
        decreases a.len() - i,
    {
        assert(a@.skip(i as int)[0] == a@[i as int] && b@.skip(i as int)[0] == b@[i as int]);
        if a[i] != b[i] {
            return (a[i] as u32) < (b[i] as u32);
        }
        assert(a@.skip(i as int).skip(1) =~= a@.skip(i + 1));
        assert(b@.skip(i as int).skip(1) =~= b@.skip(i + 1));
        i = i + 1;
    }
    i < b.len()
}

/// Inserts `name` into the sorted `names` before the first name that it
/// comes strictly before.
fn insert_sorted(names: &mut Vec<String>, name: String)
    requires
        sorted_names(names_view(old(names)@)),
    ensures
        sorted_names(names_view(final(names)@)),
        names_view(final(names)@).to_multiset() == names_view(old(names)@).to_multiset().insert(
            name@,
        ),
{
    let x = chars_of(name.as_str());
    let mut p: usize = 0;
    let mut found = false;
    while p < names.len() && !found
        invariant
            p <= names.len(),
            x@ == name@,
            found ==> p < names.len() && name_lt(x@, names@[p as int]@),
            forall|k: int| 0 <= k < p ==> !name_lt(x@, #[trigger] names@[k]@),
        decreases names.len() - p, if found { 0int } else { 1int },
    {
        if name_less(&x, &chars_of(names[p].as_str())) {
            found = true;
        } else {
            p = p + 1;
        }
    }
    let ghost s = names_view(names@);
    let ghost xv = name@;
    proof {
        if p > 0 {
            assert(s[p - 1] == names@[p - 1]@);
            assert(!name_lt(xv, s[p - 1]));
        }
        if p < s.len() {
            assert(s[p as int] == names@[p as int]@);
            assert(name_lt(xv, s[p as int]));
            lemma_name_lt_asymmetric(xv, s[p as int]);
        }
    }
    names.insert(p, name);
    proof {
        let t = names_view(names@);
        assert(t =~= s.insert(p as int, xv));
        assert(sorted_names(s));
        assert forall|i: int| 0 <= i < t.len() - 1 implies !#[trigger] name_lt(t[i + 1], t[i]) by {
            if i < p - 1 {
                assert(t[i] == s[i] && t[i + 1] == s[i + 1]);
                assert(!name_lt(s[i + 1], s[i]));
            } else if i == p - 1 {
                assert(t[i] == s[i] && t[i + 1] == xv);
            } else if i == p {
                assert(t[i] == xv && t[i + 1] == s[i]);
            } else {
                let j = i - 1;
                assert(t[i] == s[j] && t[i + 1] == s[j + 1]);
                assert(!name_lt(s[j + 1], s[j]));
            }
        }
        assert(t.remove(p as int) =~= s);
        t.to_multiset_ensures();
        assert(t[p as int] == xv);
        assert(t.contains(xv));
        assert(t.to_multiset().count(xv) > 0);
        assert(t.to_multiset() =~= s.to_multiset().insert(xv));
    }
}

/// The names of the listed entries, sorted; an error when there are none.
pub fn list_entries(entries: &Vec<DirEntry>, show_templates: bool) -> (r: Result<Vec<String>, StoreError>)
    ensures
        listed_names(entries@, show_templates).len() == 0
            ==> r == Err::<Vec<String>, StoreError>(StoreError::NoNotesFound),
        listed_names(entries@, show_templates).len() > 0 ==> {
            &&& r is Ok
            &&& sorted_names(names_view(r->Ok_0@))
            &&& names_view(r->Ok_0@).to_multiset() == listed_names(
                entries@,
                show_templates,
            ).to_multiset()
        },
{
    let ext = chars_of(".md");
    proof {
        reveal_strlit(".md");
        assert(ext@ =~= md_ext());
    }
    let mut names: Vec<String> = Vec::new();
    let mut i: usize = 0;
    assert(names_view(names@) =~= listed_names(entries@.take(0), show_templates));
    while i < entries.len()
        invariant
            i <= entries.len(),
            ext@ == md_ext(),
            sorted_names(names_view(names@)),
            names_view(names@).to_multiset() == listed_names(
                entries@.take(i as int),
                show_templates,
            ).to_multiset(),
        decreases entries.len() - i,
    {
        assert(entries@.take(i + 1).drop_last() =~= entries@.take(i as int));
        let e = &entries[i];
        proof {
            listed_names(entries@.take(i as int), show_templates).to_multiset_ensures();
        }
        if ends_with_exec(&chars_of(e.name.as_str()), &ext) || (show_templates && e.is_dir) {
            insert_sorted(&mut names, e.name.clone());
        }
        i = i + 1;
    }
    assert(entries@.take(i as int) =~= entries@);
    proof {
        names_view(names@).to_multiset_ensures();
        listed_names(entries@, show_templates).to_multiset_ensures();
    }
    if names.len() == 0 {
        Err(StoreError::NoNotesFound)
    } else {
        Ok(names)
    }
}

/// The note name under which a listed entry is opened: templates are named
/// by their path relative to the notes directory.
pub fn selection_name(entry: &str, show_templates: bool) -> (r: String)
    ensures
        show_templates ==> r@ == templates_name() + seq!['/'] + entry@,
        !show_templates ==> r@ == entry@,
{
    if show_templates {
        let mut r = String::from_str("templates/");
        proof {
            reveal_strlit("templates/");
            assert("templates/"@ =~= templates_name() + seq!['/']);
        }
        r.append(entry);
        r
    } else {
        String::from_str(entry)
    }
}

} // verus!
