//! The names that migrated commands get.

use vstd::prelude::*;
use vstd::string::*;
use crate::text;

verus! {

pub const MAX_SKILL_NAME_LEN: usize = 64;

/// `s` with letters in lower case and every run of other characters made one
/// dash.
pub open spec fn collapsed(s: Seq<char>) -> Seq<char>
    decreases s.len(),
{
    if s.len() == 0 {
        Seq::empty()
    } else {
        let front = collapsed(s.drop_last());
        let c = s.last();
        if text::is_alphanumeric(c) {
            front.push(text::lower(c))
        } else if front.len() > 0 && front.last() == '-' {
            front
        } else {
            front.push('-')
        }
    }
}

/// `s` without the dashes at its start.
pub open spec fn trim_start_dashes(s: Seq<char>) -> Seq<char>
    decreases s.len(),
{
    if s.len() > 0 && s[0] == '-' {
        trim_start_dashes(s.drop_first())
    } else {
        s
    }
}

/// `s` without the dashes at its end.
pub open spec fn trim_end_dashes(s: Seq<char>) -> Seq<char>
    decreases s.len(),
{
    if s.len() > 0 && s.last() == '-' {
        trim_end_dashes(s.drop_last())
    } else {
        s
    }
}

/// The slug of `s`.
pub open spec fn slug(s: Seq<char>) -> Seq<char> {
    let kept = trim_end_dashes(trim_start_dashes(collapsed(s)));
    if kept.len() == 0 {
        "migrated"@
    } else {
        kept
    }
}

/// Lower-case ASCII letters, digits and the dash.
pub open spec fn is_slug_char(c: char) -> bool {
    text::is_digit(c) || text::is_ascii_lower(c) || c == '-'
}

/// `s` is a slug: words of lower-case letters and digits with one dash between.
pub open spec fn is_slug(s: Seq<char>) -> bool {
    &&& s.len() > 0
    &&& s[0] != '-'
    &&& s.last() != '-'
    &&& forall|i: int| 0 <= i < s.len() ==> is_slug_char(#[trigger] s[i])
    &&& has_no_double_dash(s)
}

pub open spec fn has_no_double_dash(s: Seq<char>) -> bool {
    forall|i: int, j: int| 0 <= i && j == i + 1 && j < s.len() ==> #[trigger] s[i] != '-'
        || #[trigger] s[j] != '-'
}

/// The slug of `value`.
pub fn slugify_name(value: &str) -> (result: String)
    ensures
        result@ == slug(value@),
{
    let chars = text::chars_of(value);
    let mut kept: Vec<char> = Vec::new();
    let mut last_was_dash = false;
    let mut i: usize = 0;
    while i < chars.len()
        invariant
            i <= chars@.len(),
            chars@ == value@,
            kept@ == collapsed(value@.take(i as int)),
            last_was_dash == (kept@.len() > 0 && kept@.last() == '-'),
        decreases chars@.len() - i,
    {
        assert(value@.take(i + 1).drop_last() =~= value@.take(i as int));
        let ch = chars[i];
        if text::alphanumeric(ch) {
            kept.push(text::to_lower(ch));
            last_was_dash = false;
        } else if !last_was_dash {
            kept.push('-');
            last_was_dash = true;
        }
        i += 1;
    }
    assert(value@.take(value@.len() as int) =~= value@);
    let mut from: usize = 0;
    let mut to: usize = kept.len();
    assert(kept@.skip(0) =~= kept@);
    while from < to && kept[from] == '-'
        invariant
            from <= to,
            to == kept@.len(),
            trim_start_dashes(kept@) == trim_start_dashes(kept@.skip(from as int)),
        decreases to - from,
    {
        assert(kept@.skip(from as int).drop_first() =~= kept@.skip(from + 1));
        from += 1;
    }
    let ghost rest = kept@.skip(from as int);
    assert(rest.take(to - from) =~= rest);
    while from < to && kept[to - 1] == '-'
        invariant
            from <= to <= kept@.len(),
            rest == kept@.skip(from as int),
            trim_end_dashes(rest) == trim_end_dashes(rest.take(to - from)),
        decreases to,
    {
        assert(rest.take(to - from).drop_last() =~= rest.take(to - from - 1));
        to -= 1;
    }
    assert(rest.take(to - from) =~= kept@.subrange(from as int, to as int));
    if from == to {
        "migrated".to_string()
    } else {
        text::string_of(&kept, from, to)
    }
}

/// The parts of `parts` that are text, with `separator` between them.
pub open spec fn joined(parts: Seq<Option<Seq<char>>>, separator: Seq<char>) -> Seq<char>
    decreases parts.len(),
{
    if parts.len() == 0 {
        Seq::empty()
    } else {
        let front = joined(parts.drop_last(), separator);
        match parts.last() {
            Some(part) => if has_text(parts.drop_last()) {
                front + separator + part
            } else {
                part
            },
            None => front,
        }
    }
}

/// Some of `parts` is text.
pub open spec fn has_text(parts: Seq<Option<Seq<char>>>) -> bool {
    exists|i: int| 0 <= i < parts.len() && (#[trigger] parts[i]) is Some
}

/// Where a command file stands below the folder of commands: the folders on the
/// way, and the file's name without its extension. A name that is no Unicode
/// text is `None`.
#[derive(Debug, PartialEq, Eq)]
pub struct CommandPath {
    pub folders: Vec<Option<String>>,
    pub stem: Option<String>,
}

pub struct PathModel {
    pub folders: Seq<Option<Seq<char>>>,
    pub stem: Option<Seq<char>>,
}

impl DeepView for CommandPath {
    type V = PathModel;

    open spec fn deep_view(&self) -> PathModel {
        PathModel { folders: self.folders.deep_view(), stem: self.stem.deep_view() }
    }
}

/// The components of the path without the file's extension. A stem that is a
/// single dot names the folder that it stands in, so it counts only where there
/// is no folder.
pub open spec fn name_parts(path: PathModel) -> Seq<Option<Seq<char>>> {
    if path.stem == Some("."@) && path.folders.len() > 0 {
        path.folders
    } else {
        path.folders.push(path.stem)
    }
}

/// The name of the command that the file at `path` holds.
pub open spec fn source_name(path: PathModel) -> Seq<char> {
    joined(name_parts(path), "-"@)
}

/// The name of the skill that the command becomes.
pub open spec fn skill_name(path: PathModel) -> Seq<char> {
    slug("source-command-"@ + source_name(path))
}

fn append_part(result: &mut String, some: bool, part: &str)
    ensures
        final(result)@ == (if some {
            old(result)@ + "-"@ + part@
        } else {
            old(result)@ + part@
        }),
{
    if some {
        result.append("-");
    }
    result.append(part);
}

/// The name of the command that the file at `path` holds.
pub fn command_source_name(path: &CommandPath) -> (result: String)
    ensures
        result@ == source_name(path.deep_view()),
{
    let ghost folders = path.folders.deep_view();
    let mut result = String::new();
    let mut some = false;
    let mut i: usize = 0;
    while i < path.folders.len()
        invariant
            i <= path.folders@.len(),
            folders == path.folders.deep_view(),
            result@ == joined(folders.take(i as int), "-"@),
            some == has_text(folders.take(i as int)),
            !some ==> result@.len() == 0,
        decreases path.folders@.len() - i,
    {
        let ghost before = folders.take(i as int);
        let ghost now = folders.take(i + 1);
        assert(now.drop_last() =~= before);
        assert(now.last() == folders[i as int]);
        match &path.folders[i] {
            Some(part) => {
                append_part(&mut result, some, part.as_str());
                assert(now[i as int] is Some);
                some = true;
                assert(result@ =~= joined(now, "-"@));
            },
            None => {
                assert(has_text(now) == has_text(before)) by {
                    if has_text(now) {
                        let k = choose|k: int| 0 <= k < now.len() && (#[trigger] now[k]) is Some;
                        assert(before[k] is Some);
                    }
                    if has_text(before) {
                        let k = choose|k: int|
                            0 <= k < before.len() && (#[trigger] before[k]) is Some;
                        assert(now[k] is Some);
                    }
                }
            },
        }
        i += 1;
    }
    assert(folders.take(folders.len() as int) =~= folders);
    let ghost all = folders.push(path.stem.deep_view());
    assert(all.drop_last() =~= folders);
    match &path.stem {
        Some(stem) => {
            if path.folders.len() > 0 && text::same_text(stem.as_str(), ".") {
                result
            } else {
                append_part(&mut result, some, stem.as_str());
                assert(result@ =~= joined(all, "-"@));
                result
            }
        },
        None => result,
    }
}

/// The name of the skill that the command at `path` becomes.
pub fn command_skill_name(path: &CommandPath) -> (result: String)
    ensures
        result@ == skill_name(path.deep_view()),
{
    let mut name = "source-command-".to_string();
    let source = command_source_name(path);
    name.append(source.as_str());
    slugify_name(name.as_str())
}

proof fn lemma_lower_is_slug_char(c: char)
    requires
        text::is_alphanumeric(c),
    ensures
        is_slug_char(text::lower(c)),
        text::lower(c) != '-',
{
}

proof fn lemma_collapsed(s: Seq<char>)
    ensures
        forall|i: int| 0 <= i < collapsed(s).len() ==> is_slug_char(#[trigger] collapsed(s)[i]),
        has_no_double_dash(collapsed(s)),
    decreases s.len(),
{
    if s.len() > 0 {
        let front = collapsed(s.drop_last());
        let all = collapsed(s);
        lemma_collapsed(s.drop_last());
        if text::is_alphanumeric(s.last()) {
            lemma_lower_is_slug_char(s.last());
        }
        assert forall|i: int| 0 <= i < all.len() implies is_slug_char(#[trigger] all[i]) by {
            if i < front.len() {
                assert(all[i] == front[i]);
            }
        }
        assert forall|i: int, j: int| 0 <= i && j == i + 1 && j < all.len() implies #[trigger] all[i]
            != '-' || #[trigger] all[j] != '-' by {
            assert(all[i] == front[i]);
            if j < front.len() {
                assert(all[j] == front[j]);
            }
        }
    }
}

proof fn lemma_trim_start_dashes(s: Seq<char>) -> (from: int)
    ensures
        0 <= from <= s.len(),
        trim_start_dashes(s) == s.skip(from),
        from < s.len() ==> s[from] != '-',
        forall|i: int| 0 <= i < from ==> s[i] == '-',
    decreases s.len(),
{
    if s.len() > 0 && s[0] == '-' {
        let inner = lemma_trim_start_dashes(s.drop_first());
        assert(s.drop_first().skip(inner) =~= s.skip(inner + 1));
        assert forall|i: int| 0 <= i < inner + 1 implies s[i] == '-' by {
            if i > 0 {
                assert(s.drop_first()[i - 1] == s[i]);
            }
        }
        if inner + 1 < s.len() {
            assert(s.drop_first()[inner] == s[inner + 1]);
        }
        inner + 1
    } else {
        assert(s.skip(0) =~= s);
        0
    }
}

proof fn lemma_trim_end_dashes(s: Seq<char>) -> (to: int)
    ensures
        0 <= to <= s.len(),
        trim_end_dashes(s) == s.take(to),
        to > 0 ==> s[to - 1] != '-',
        forall|i: int| to <= i < s.len() ==> s[i] == '-',
    decreases s.len(),
{
    if s.len() > 0 && s.last() == '-' {
        let to = lemma_trim_end_dashes(s.drop_last());
        assert(s.drop_last().take(to) =~= s.take(to));
        assert forall|i: int| to <= i < s.len() implies s[i] == '-' by {
            if i < s.len() - 1 {
                assert(s.drop_last()[i] == s[i]);
            }
        }
        to
    } else {
        assert(s.take(s.len() as int) =~= s);
        s.len() as int
    }
}

/// The slug of any text is a slug.
pub proof fn slugs_are_slugs(s: Seq<char>)
    ensures
        is_slug(slug(s)),
{
    let all = collapsed(s);
    lemma_collapsed(s);
    let from = lemma_trim_start_dashes(all);
    let rest = all.skip(from);
    let to = lemma_trim_end_dashes(rest);
    let kept = rest.take(to);
    if kept.len() == 0 {
        reveal_strlit("migrated");
    } else {
        assert forall|i: int| 0 <= i < kept.len() implies is_slug_char(#[trigger] kept[i]) by {
            assert(kept[i] == all[from + i]);
        }
        assert forall|i: int, j: int|
            0 <= i && j == i + 1 && j < kept.len() implies #[trigger] kept[i] != '-'
            || #[trigger] kept[j] != '-' by {
            assert(kept[i] == all[from + i]);
            assert(kept[j] == all[from + j]);
        }
        assert(kept[0] == all[from]);
        assert(kept.last() == rest[to - 1]);
    }
}

proof fn lemma_collapsing_a_slug(s: Seq<char>)
    requires
        forall|i: int| 0 <= i < s.len() ==> is_slug_char(#[trigger] s[i]),
        has_no_double_dash(s),
    ensures
        collapsed(s) == s,
    decreases s.len(),
{
    if s.len() > 0 {
        let front = s.drop_last();
        assert forall|i: int| 0 <= i < front.len() implies is_slug_char(#[trigger] front[i]) by {
            assert(front[i] == s[i]);
        }
        assert forall|i: int, j: int|
            0 <= i && j == i + 1 && j < front.len() implies #[trigger] front[i] != '-'
            || #[trigger] front[j] != '-' by {
            assert(front[i] == s[i]);
            assert(front[j] == s[j]);
        }
        lemma_collapsing_a_slug(front);
        assert(is_slug_char(s[s.len() - 1]));
        if s.last() == '-' && front.len() > 0 {
            assert(s[s.len() - 2] != '-' || s[s.len() - 1] != '-');
        }
        assert(front.push(s.last()) =~= s);
    } else {
        assert(collapsed(s) =~= s);
    }
}

/// A slug is its own slug.
pub proof fn slugs_stay_as_they_are(s: Seq<char>)
    requires
        is_slug(s),
    ensures
        slug(s) == s,
{
    lemma_collapsing_a_slug(s);
}

/// The slug of a slug is the slug itself.
pub proof fn slugging_is_idempotent(s: Seq<char>)
    ensures
        slug(slug(s)) == slug(s),
{
    slugs_are_slugs(s);
    slugs_stay_as_they_are(slug(s));
}

proof fn lemma_collapsed_grows(s: Seq<char>, more: Seq<char>)
    ensures
        collapsed(s).len() <= collapsed(s + more).len(),
        collapsed(s + more).take(collapsed(s).len() as int) == collapsed(s),
    decreases more.len(),
{
    if more.len() == 0 {
        assert(s + more =~= s);
        assert(collapsed(s).take(collapsed(s).len() as int) =~= collapsed(s));
    } else {
        let front = s + more.drop_last();
        lemma_collapsed_grows(s, more.drop_last());
        assert((s + more).drop_last() =~= front);
        let size = collapsed(s).len() as int;
        assert(collapsed(s + more).take(size) =~= collapsed(front).take(size));
    }
}

/// The name of every migrated command is `source-command`, or begins with it and
/// goes on with a dash.
pub proof fn skill_names_are_prefixed(path: PathModel)
    ensures
        is_slug(skill_name(path)),
        skill_name(path).len() >= "source-command"@.len(),
        skill_name(path).take("source-command"@.len() as int) == "source-command"@,
        skill_name(path).len() > "source-command"@.len() ==> skill_name(
            path,
        )["source-command"@.len() as int] == '-',
{
    reveal_strlit("source-command-");
    reveal_strlit("source-command");
    let start = "source-command-"@;
    let word = "source-command"@;
    let whole = start + source_name(path);
    slugs_are_slugs(whole);
    assert forall|i: int| 0 <= i < start.len() implies is_slug_char(#[trigger] start[i]) by {}
    lemma_collapsing_a_slug(start);
    lemma_collapsed_grows(start, source_name(path));
    let all = collapsed(whole);
    assert(all.take(15) == start);
    assert forall|i: int| 0 <= i < 15 implies all[i] == #[trigger] start[i] by {
        assert(all.take(15)[i] == all[i]);
    }
    assert(all[0] == start[0]);
    assert(trim_start_dashes(all) == all);
    let to = lemma_trim_end_dashes(all);
    assert(to >= 14) by {
        if to < 14 {
            assert(all[13] == start[13]);
            assert(all[13] == '-');
        }
    }
    let kept = all.take(to);
    assert(all[14] == start[14]);
    assert(kept.take(14) =~= word) by {
        assert forall|i: int| 0 <= i < 14 implies kept[i] == #[trigger] word[i] by {
            assert(all[i] == start[i]);
        }
    }
}

}
