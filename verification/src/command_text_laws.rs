//! What holds of the parts of a command file: its front matter, its names, and the
//! mentions of the agent in it.

use vstd::prelude::*;
use vstd::string::*;
use crate::agent_terms;
use crate::command_document::{self, EntryModel, NodeModel};
use crate::command_names::{self, PathModel};
use crate::text;

verus! {

/// The text of a value: that of a string without the white space around it, that of
/// a flag, and that of a number. No other value has one.
pub proof fn scalars_have_a_text(value: Seq<char>)
    ensures
        command_document::scalar_text(NodeModel::Text(value)) == Some(text::trim(value)),
        command_document::scalar_text(NodeModel::Number(value)) == Some(value),
        command_document::scalar_text(NodeModel::Bool(true)) == Some("true"@),
        command_document::scalar_text(NodeModel::Bool(false)) == Some("false"@),
        command_document::scalar_text(NodeModel::Null) is None,
        command_document::scalar_text(NodeModel::Sequence) is None,
        command_document::scalar_text(NodeModel::Mapping) is None,
        command_document::scalar_text(NodeModel::Tagged) is None,
{
}

/// The entry is a description: its key is `description`, with any white space around
/// it, and its value is a string, a flag or a number.
pub open spec fn describes(entry: EntryModel) -> bool {
    &&& entry.key matches Some(key) && text::trim(key) == "description"@
    &&& entry.value is Text || entry.value is Bool || entry.value is Number
}

/// The first entry that is a description gives it, wherever it stands, and without
/// one there is none.
pub proof fn the_first_description_counts(entries: Seq<EntryModel>, i: int)
    ensures
        0 <= i < entries.len() && describes(entries[i]) && (forall|j: int|
            0 <= j < i ==> !describes(#[trigger] entries[j]))
            ==> command_document::first_description(entries) == command_document::scalar_text(
            entries[i].value,
        ),
        (forall|j: int| 0 <= j < entries.len() ==> !describes(#[trigger] entries[j]))
            ==> command_document::first_description(entries) is None,
    decreases entries.len(),
{
    if entries.len() > 0 {
        let rest = entries.drop_first();
        the_first_description_counts(rest, i - 1);
        assert(command_document::gives_description(entries[0]) <==> describes(entries[0]));
        if (forall|j: int| 0 <= j < entries.len() ==> !describes(#[trigger] entries[j])) {
            assert(!describes(entries[0]));
            assert forall|j: int| 0 <= j < rest.len() implies !describes(#[trigger] rest[j]) by {
                assert(rest[j] == entries[j + 1]);
            }
        }
        if 0 <= i < entries.len() && describes(entries[i]) && (forall|j: int|
            0 <= j < i ==> !describes(#[trigger] entries[j])) {
            if i > 0 {
                assert(!describes(entries[0]));
                assert(rest[i - 1] == entries[i]);
                assert forall|j: int| 0 <= j < i - 1 implies !describes(#[trigger] rest[j]) by {
                    assert(rest[j] == entries[j + 1]);
                }
            }
        }
    }
}

/// A file that begins with a line of dashes and has a second such line is front
/// matter and body: what stands between the lines, up to the first place where it
/// could end, gives the description, and all that stands behind is the body. The
/// lines may end in a line feed, or in a carriage return and a line feed.
pub proof fn files_are_front_matter_and_body(
    opening: Seq<char>,
    front: Seq<char>,
    closing: Seq<char>,
    body: Seq<char>,
)
    requires
        opening == "---\n"@ || opening == "---\r\n"@,
        closing == "\n---\n"@ || closing == "\n---\r\n"@ || closing == "\r\n---\n"@ || closing
            == "\r\n---\r\n"@,
        forall|i: int|
            0 <= i < front.len() ==> !(#[trigger] text::occurs_at(
                front + closing + body,
                "\n---"@,
                i,
            )),
        forall|i: int|
            0 <= i < front.len() ==> !(#[trigger] text::occurs_at(
                front + closing + body,
                "\r\n---"@,
                i,
            )),
    ensures
        ({
            let document = command_document::parsed(opening + front + closing + body);
            &&& document.body == body
            &&& document.description == command_document::description_in(front)
        }),
{
    reveal_strlit("---\n");
    reveal_strlit("---\r\n");
    reveal_strlit("\n---\n");
    reveal_strlit("\n---\r\n");
    reveal_strlit("\r\n---\n");
    reveal_strlit("\r\n---\r\n");
    reveal_strlit("\n---");
    reveal_strlit("\r\n---");
    let content = opening + front + closing + body;
    let rest = front + closing + body;
    let width = opening.len() as int;
    assert(content =~= opening + rest);
    lemma_opening(content, opening, rest);
    assert(content.skip(width) =~= rest);
    lemma_closing(rest, front, closing, body);
    assert(content.subrange(width, width + front.len()) =~= front);
    assert(content.skip(width + front.len() + closing.len()) =~= body);
}

proof fn lemma_opening(content: Seq<char>, opening: Seq<char>, rest: Seq<char>)
    requires
        opening == "---\n"@ || opening == "---\r\n"@,
        content == opening + rest,
    ensures
        command_document::opening_width(content) == opening.len(),
{
    reveal_strlit("---\n");
    reveal_strlit("---\r\n");
    assert(content.subrange(0, opening.len() as int) =~= opening);
    assert(content[3] == opening[3]);
    if opening == "---\r\n"@ {
        if text::occurs_at(content, "---\n"@, 0) {
            assert(content.subrange(0, 4)[3] == '\n');
        }
    }
}

proof fn lemma_closing(
    rest: Seq<char>,
    front: Seq<char>,
    closing: Seq<char>,
    body: Seq<char>,
)
    requires
        closing == "\n---\n"@ || closing == "\n---\r\n"@ || closing == "\r\n---\n"@ || closing
            == "\r\n---\r\n"@,
        rest == front + closing + body,
        forall|i: int|
            0 <= i < front.len() ==> !(#[trigger] text::occurs_at(rest, "\n---"@, i)),
        forall|i: int|
            0 <= i < front.len() ==> !(#[trigger] text::occurs_at(rest, "\r\n---"@, i)),
    ensures
        command_document::frontmatter_close(rest) == Some(
            (front.len() as int, (front.len() + closing.len()) as int),
        ),
{
    reveal_strlit("\n---\n");
    reveal_strlit("\n---\r\n");
    reveal_strlit("\r\n---\n");
    reveal_strlit("\r\n---\r\n");
    reveal_strlit("\n---");
    reveal_strlit("\r\n---");
    let at = front.len() as int;
    assert(rest.subrange(at, at + closing.len()) =~= closing);
    assert(text::occurs_at(rest, closing, at));
    assert forall|k: int| 0 <= k < closing.len() implies rest[at + k] == #[trigger] closing[k] by {}
    assert(rest[at] == closing[0]);
    assert(rest[at + 1] == closing[1]);
    assert(rest[at + 4] == closing[4]);
    lemma_not_at(rest, "\r\n---\r\n"@, closing, at);
    lemma_not_at(rest, "\r\n---\n"@, closing, at);
    lemma_not_at(rest, "\n---\r\n"@, closing, at);
    lemma_not_at(rest, "\n---\n"@, closing, at);
    assert("\r\n---\r\n"@[0] == '\r' && "\r\n---\r\n"@[5] == '\r');
    assert("\r\n---\n"@[0] == '\r' && "\r\n---\n"@[5] == '\n');
    assert("\n---\r\n"@[0] == '\n' && "\n---\r\n"@[4] == '\r');
    assert("\n---\n"@[0] == '\n' && "\n---\n"@[4] == '\n');
    assert(command_document::delimiter_width(rest, at) == closing.len());
    lemma_first_close(rest, 0, at);
}

proof fn lemma_not_at(rest: Seq<char>, other: Seq<char>, closing: Seq<char>, at: int)
    requires
        text::occurs_at(rest, closing, at),
    ensures
        text::occurs_at(rest, other, at) ==> forall|k: int|
            0 <= k < other.len() && k < closing.len() ==> #[trigger] other[k] == closing[k],
{
    if text::occurs_at(rest, other, at) {
        let a = rest.subrange(at, at + other.len());
        let b = rest.subrange(at, at + closing.len());
        assert forall|k: int| 0 <= k < other.len() && k < closing.len() implies #[trigger] other[k]
            == closing[k] by {
            assert(a[k] == rest[at + k]);
            assert(b[k] == rest[at + k]);
        }
    }
}

proof fn lemma_no_close(s: Seq<char>, at: int)
    requires
        !text::occurs_at(s, "\n---"@, at),
        !text::occurs_at(s, "\r\n---"@, at),
    ensures
        command_document::delimiter_width(s, at) == 0,
{
    reveal_strlit("\n---\n");
    reveal_strlit("\n---\r\n");
    reveal_strlit("\r\n---\n");
    reveal_strlit("\r\n---\r\n");
    reveal_strlit("\n---");
    reveal_strlit("\r\n---");
    assert("\r\n---\r\n"@.take(5) =~= "\r\n---"@);
    assert("\r\n---\n"@.take(5) =~= "\r\n---"@);
    assert("\n---\r\n"@.take(4) =~= "\n---"@);
    assert("\n---\n"@.take(4) =~= "\n---"@);
    lemma_begins(s, "\r\n---\r\n"@, "\r\n---"@, at);
    lemma_begins(s, "\r\n---\n"@, "\r\n---"@, at);
    lemma_begins(s, "\n---\r\n"@, "\n---"@, at);
    lemma_begins(s, "\n---\n"@, "\n---"@, at);
}

proof fn lemma_begins(s: Seq<char>, long: Seq<char>, short: Seq<char>, at: int)
    requires
        short.len() <= long.len(),
        long.take(short.len() as int) == short,
    ensures
        text::occurs_at(s, long, at) ==> text::occurs_at(s, short, at),
{
    if text::occurs_at(s, long, at) {
        let found = s.subrange(at, at + long.len());
        assert(s.subrange(at, at + short.len()) =~= found.take(short.len() as int));
    }
}

proof fn lemma_first_close(s: Seq<char>, from: int, at: int)
    requires
        0 <= from <= at < s.len(),
        command_document::delimiter_width(s, at) > 0,
        forall|i: int| 0 <= i < at ==> !(#[trigger] text::occurs_at(s, "\n---"@, i)),
        forall|i: int| 0 <= i < at ==> !(#[trigger] text::occurs_at(s, "\r\n---"@, i)),
    ensures
        command_document::close_from(s, from) == Some(at),
    decreases at - from,
{
    if from < at {
        assert(!text::occurs_at(s, "\n---"@, from));
        assert(!text::occurs_at(s, "\r\n---"@, from));
        lemma_no_close(s, from);
        lemma_first_close(s, from + 1, at);
    }
}

/// Dashes that no line break follows end the front matter too, and what stands behind
/// them is the body.
pub proof fn front_matter_may_end_within_a_line(
    opening: Seq<char>,
    front: Seq<char>,
    closing: Seq<char>,
    body: Seq<char>,
)
    requires
        opening == "---\n"@ || opening == "---\r\n"@,
        closing == "\n---"@ || closing == "\r\n---"@,
        body.len() > 0 ==> body[0] != '\n',
        body.len() > 1 ==> !(body[0] == '\r' && body[1] == '\n'),
        forall|i: int|
            0 <= i < front.len() ==> !(#[trigger] text::occurs_at(
                front + closing + body,
                "\n---"@,
                i,
            )),
        forall|i: int|
            0 <= i < front.len() ==> !(#[trigger] text::occurs_at(
                front + closing + body,
                "\r\n---"@,
                i,
            )),
    ensures
        ({
            let document = command_document::parsed(opening + front + closing + body);
            &&& document.body == body
            &&& document.description == command_document::description_in(front)
        }),
{
    reveal_strlit("---\n");
    reveal_strlit("---\r\n");
    reveal_strlit("\n---");
    reveal_strlit("\r\n---");
    let content = opening + front + closing + body;
    let rest = front + closing + body;
    let width = opening.len() as int;
    assert(content =~= opening + rest);
    lemma_opening(content, opening, rest);
    assert(content.skip(width) =~= rest);
    lemma_short_closing(rest, front, closing, body);
    assert(content.subrange(width, width + front.len()) =~= front);
    assert(content.skip(width + front.len() + closing.len()) =~= body);
}

proof fn lemma_short_closing(
    rest: Seq<char>,
    front: Seq<char>,
    closing: Seq<char>,
    body: Seq<char>,
)
    requires
        closing == "\n---"@ || closing == "\r\n---"@,
        rest == front + closing + body,
        body.len() > 0 ==> body[0] != '\n',
        body.len() > 1 ==> !(body[0] == '\r' && body[1] == '\n'),
        forall|i: int|
            0 <= i < front.len() ==> !(#[trigger] text::occurs_at(rest, "\n---"@, i)),
        forall|i: int|
            0 <= i < front.len() ==> !(#[trigger] text::occurs_at(rest, "\r\n---"@, i)),
    ensures
        command_document::frontmatter_close(rest) == Some(
            (front.len() as int, (front.len() + closing.len()) as int),
        ),
{
    reveal_strlit("\n---\n");
    reveal_strlit("\n---\r\n");
    reveal_strlit("\r\n---\n");
    reveal_strlit("\r\n---\r\n");
    reveal_strlit("\n---");
    reveal_strlit("\r\n---");
    let at = front.len() as int;
    let size = closing.len() as int;
    assert(rest.subrange(at, at + size) =~= closing);
    assert(text::occurs_at(rest, closing, at));
    assert(rest[at] == closing[0]);
    assert forall|k: int| 0 <= k < body.len() implies rest[at + size + k] == #[trigger] body[k] by {}
    if body.len() > 0 {
        assert(rest[at + size] == body[0]);
    }
    if body.len() > 1 {
        assert(rest[at + size + 1] == body[1]);
    }
    lemma_longer(rest, "\r\n---\r\n"@, at);
    lemma_longer(rest, "\r\n---\n"@, at);
    lemma_longer(rest, "\n---\r\n"@, at);
    lemma_longer(rest, "\n---\n"@, at);
    lemma_longer(rest, "\r\n---"@, at);
    lemma_longer(rest, "\n---"@, at);
    assert("\r\n---\r\n"@[0] == '\r' && "\r\n---\r\n"@[5] == '\r'
        && "\r\n---\r\n"@[6] == '\n');
    assert("\r\n---\n"@[0] == '\r' && "\r\n---\n"@[5] == '\n');
    assert("\n---\r\n"@[0] == '\n' && "\n---\r\n"@[4] == '\r' && "\n---\r\n"@[5] == '\n');
    assert("\n---\n"@[0] == '\n' && "\n---\n"@[4] == '\n');
    assert("\r\n---"@[0] == '\r');
    assert("\n---"@[0] == '\n');
    assert(command_document::delimiter_width(rest, at) == size);
    lemma_first_close(rest, 0, at);
}

proof fn lemma_longer(rest: Seq<char>, other: Seq<char>, at: int)
    ensures
        text::occurs_at(rest, other, at) ==> at + other.len() <= rest.len() && forall|k: int|
            0 <= k < other.len() ==> #[trigger] other[k] == rest[at + k],
{
    if text::occurs_at(rest, other, at) {
        let a = rest.subrange(at, at + other.len());
        assert forall|k: int| 0 <= k < other.len() implies #[trigger] other[k] == rest[at + k] by {
            assert(a[k] == rest[at + k]);
        }
    }
}

/// A file that does not begin with a line of dashes is all body, and has no
/// description. Neither has one whose front matter does not end.
pub proof fn files_without_front_matter_are_all_body(content: Seq<char>)
    ensures
        !text::occurs_at(content, "---\n"@, 0) && !text::occurs_at(content, "---\r\n"@, 0)
            ==> command_document::parsed(content).body == content && command_document::parsed(
            content,
        ).description is None,
        (text::occurs_at(content, "---\n"@, 0) && !text::contains(content.skip(4), "\n---"@))
            ==> command_document::parsed(content).body == content && command_document::parsed(
            content,
        ).description is None,
        (text::occurs_at(content, "---\r\n"@, 0) && !text::contains(content.skip(5), "\n---"@))
            ==> command_document::parsed(content).body == content && command_document::parsed(
            content,
        ).description is None,
{
    reveal_strlit("---\n");
    reveal_strlit("---\r\n");
    if text::occurs_at(content, "---\n"@, 0) && !text::contains(content.skip(4), "\n---"@) {
        lemma_unclosed(content.skip(4));
    }
    if text::occurs_at(content, "---\r\n"@, 0) && !text::contains(content.skip(5), "\n---"@) {
        lemma_unclosed(content.skip(5));
        if text::occurs_at(content, "---\n"@, 0) {
            assert(content.subrange(0, 4)[3] == '\n');
            assert(content.subrange(0, 5)[3] == '\r');
        }
    }
}

proof fn lemma_unclosed(rest: Seq<char>)
    requires
        !text::contains(rest, "\n---"@),
    ensures
        command_document::frontmatter_close(rest) is None,
{
    command_document::front_matter_ends_at_the_first_delimiter(rest);
    reveal_strlit("\n---");
    reveal_strlit("\r\n---");
    if command_document::frontmatter_close(rest) is Some {
        let end = command_document::frontmatter_close(rest)->Some_0.0;
        if text::occurs_at(rest, "\r\n---"@, end) {
            let found = rest.subrange(end, end + 5);
            assert(rest.subrange(end + 1, end + 5) =~= "\n---"@) by {
                assert forall|k: int| 0 <= k < 4 implies rest[end + 1 + k] == "\n---"@[k] by {
                    assert(found[k + 1] == rest[end + 1 + k]);
                    assert("\r\n---"@[k + 1] == "\n---"@[k]);
                }
            }
            assert(text::occurs_at(rest, "\n---"@, end + 1));
        }
    }
}

/// The description of front matter is that of the entries that it holds, and front
/// matter that is no mapping has none.
pub proof fn descriptions_come_from_the_entries(raw: Seq<char>)
    ensures
        command_document::yaml_mapping(raw) matches Some(entries)
            ==> command_document::description_in(raw) == command_document::first_description(
            entries,
        ),
        command_document::yaml_mapping(raw) is None ==> command_document::description_in(raw)
            is None,
{
}

/// A folder more puts its name in front of what follows it, with a dash between. A
/// name that is no text is left out, and so is a file that is named by a dot, where
/// it stands in a folder.
pub proof fn names_are_joined_with_dashes(
    folders: Seq<Option<Seq<char>>>,
    folder: Seq<char>,
    stem: Seq<char>,
)
    ensures
        command_names::source_name(PathModel { folders: Seq::empty(), stem: Some(stem) }) == stem,
        command_names::source_name(PathModel { folders: Seq::empty(), stem: None }).len() == 0,
        command_names::source_name(PathModel { folders: folders.push(None), stem: None })
            == command_names::source_name(PathModel { folders, stem: None }),
        ({
            let shorter = command_names::source_name(PathModel { folders, stem: None });
            let longer = command_names::source_name(
                PathModel { folders: folders.push(Some(folder)), stem: None },
            );
            let named = command_names::source_name(PathModel { folders, stem: Some(stem) });
            let some = exists|i: int| 0 <= i < folders.len() && (#[trigger] folders[i]) is Some;
            &&& some ==> longer == shorter + "-"@ + folder
            &&& !some ==> longer == folder
            &&& stem == "."@ && folders.len() > 0 ==> named == shorter
            &&& !(stem == "."@ && folders.len() > 0) && some ==> named == shorter + "-"@ + stem
            &&& !(stem == "."@ && folders.len() > 0) && !some ==> named == stem
        }),
{
    let nothing = Seq::<Option<Seq<char>>>::empty();
    let more = folders.push(Some(folder));
    assert(nothing.push(Some(stem)).drop_last() =~= nothing);
    assert(nothing.push(None::<Seq<char>>).drop_last() =~= nothing);
    lemma_open_end(nothing);
    lemma_open_end(folders);
    lemma_open_end(more);
    lemma_open_end(folders.push(None));
    assert(more.drop_last() =~= folders);
    assert(folders.push(None).drop_last() =~= folders);
    assert(folders.push(Some(stem)).drop_last() =~= folders);
}

proof fn lemma_open_end(folders: Seq<Option<Seq<char>>>)
    ensures
        command_names::source_name(PathModel { folders, stem: None }) == command_names::joined(
            folders,
            "-"@,
        ),
{
    assert(folders.push(None::<Seq<char>>).drop_last() =~= folders);
}

/// The name of a skill is the slug of the name of its command, behind a fixed
/// beginning.
pub proof fn skills_are_named_after_their_command(path: PathModel)
    ensures
        command_names::skill_name(path) == command_names::slug(
            "source-command-"@ + command_names::source_name(path),
        ),
{
}

/// `s` holds nothing but letters and digits.
pub open spec fn is_solid(s: Seq<char>) -> bool {
    forall|i: int| 0 <= i < s.len() ==> text::is_alphanumeric(#[trigger] s[i])
}

/// `s` holds no letter and no digit.
pub open spec fn is_gap(s: Seq<char>) -> bool {
    forall|i: int| 0 <= i < s.len() ==> !text::is_alphanumeric(#[trigger] s[i])
}

/// Letters and digits stay in a slug, in lower case, and where there are none the
/// slug is a fixed word.
pub proof fn slugs_keep_letters_and_digits(s: Seq<char>)
    ensures
        is_solid(s) && s.len() > 0 ==> command_names::slug(s) == text::lower_all(s),
        is_gap(s) ==> command_names::slug(s) == "migrated"@,
{
    if is_solid(s) && s.len() > 0 {
        lemma_collapse_solid(s);
        lemma_no_dash(s);
        lemma_trims_nothing(text::lower_all(s));
    }
    if is_gap(s) {
        lemma_collapse_gap(s);
        let all = command_names::collapsed(s);
        reveal_with_fuel(command_names::trim_start_dashes, 3);
        if all.len() > 0 {
            assert(all =~= seq!['-']);
            assert(all.drop_first() =~= Seq::<char>::empty());
        }
    }
}

/// What stands between two words, however much, becomes one dash, and what stands
/// before the first or behind the last is left out.
pub proof fn slugs_join_words_with_a_dash(
    before: Seq<char>,
    word: Seq<char>,
    gap: Seq<char>,
    rest: Seq<char>,
)
    requires
        is_gap(before),
        is_solid(word),
        word.len() > 0,
        is_gap(gap),
    ensures
        command_names::slug(before + word + gap) == text::lower_all(word),
        gap.len() > 0 && rest.len() > 0 && text::is_alphanumeric(rest[0]) ==> command_names::slug(
            before + word + gap + rest,
        ) == text::lower_all(word) + seq!['-'] + command_names::slug(rest),
{
    let low = text::lower_all(word);
    lemma_no_dash(word);
    lemma_collapse_solid(word);
    lemma_collapse_gap(before);
    lemma_collapse_gap(gap);
    lemma_collapse_sum(before, word);
    lemma_collapse_sum(before + word, gap);
    let head = command_names::collapsed(before);
    let tail = command_names::collapsed(gap);
    let all = command_names::collapsed(before + word + gap);
    assert(low[0] != '-');
    assert(command_names::collapsed(before + word) =~= head + low);
    assert((head + low).last() == low.last());
    assert(all =~= head + low + tail);
    assert(head + low + tail =~= head + (low + tail));
    lemma_leading_dash(head, low + tail);
    lemma_trailing_dash(low, tail);
    if gap.len() > 0 && rest.len() > 0 && text::is_alphanumeric(rest[0]) {
        lemma_collapse_sum(before + word + gap, rest);
        lemma_collapse_head(rest);
        let end = command_names::collapsed(rest);
        let whole = command_names::collapsed(before + word + gap + rest);
        assert(whole =~= all + end);
        assert(tail =~= seq!['-']);
        assert(whole =~= head + (low + seq!['-'] + end));
        lemma_leading_dash(head, low + seq!['-'] + end);
        lemma_trim_start_nothing(end);
        lemma_trim_end_behind(low + seq!['-'], end);
        assert(command_names::trim_end_dashes(end).len() > 0);
    }
}

proof fn lemma_lower_solid(c: char)
    requires
        text::is_alphanumeric(c),
    ensures
        text::lower(c) != '-',
{
}

proof fn lemma_no_dash(s: Seq<char>)
    requires
        is_solid(s),
    ensures
        forall|i: int| 0 <= i < s.len() ==> #[trigger] text::lower_all(s)[i] != '-',
{
    assert forall|i: int| 0 <= i < s.len() implies #[trigger] text::lower_all(s)[i] != '-' by {
        assert(text::is_alphanumeric(s[i]));
        lemma_lower_solid(s[i]);
    }
}

proof fn lemma_collapse_solid(s: Seq<char>)
    requires
        is_solid(s),
    ensures
        command_names::collapsed(s) == text::lower_all(s),
    decreases s.len(),
{
    if s.len() > 0 {
        let front = s.drop_last();
        assert forall|i: int| 0 <= i < front.len() implies text::is_alphanumeric(
            #[trigger] front[i],
        ) by {
            assert(front[i] == s[i]);
        }
        lemma_collapse_solid(front);
        assert(text::is_alphanumeric(s[s.len() - 1]));
        assert(text::lower_all(front).push(text::lower(s.last())) =~= text::lower_all(s));
    } else {
        assert(text::lower_all(s) =~= Seq::<char>::empty());
    }
}

proof fn lemma_collapse_gap(s: Seq<char>)
    requires
        is_gap(s),
    ensures
        s.len() == 0 ==> command_names::collapsed(s).len() == 0,
        s.len() > 0 ==> command_names::collapsed(s) == seq!['-'],
    decreases s.len(),
{
    if s.len() > 0 {
        let front = s.drop_last();
        assert forall|i: int| 0 <= i < front.len() implies !text::is_alphanumeric(
            #[trigger] front[i],
        ) by {
            assert(front[i] == s[i]);
        }
        lemma_collapse_gap(front);
        assert(!text::is_alphanumeric(s[s.len() - 1]));
        assert(command_names::collapsed(s) =~= seq!['-']);
    }
}

/// The collapsed form of two texts, one behind the other.
proof fn lemma_collapse_sum(a: Seq<char>, b: Seq<char>)
    ensures
        ({
            let x = command_names::collapsed(a);
            let y = command_names::collapsed(b);
            let z = command_names::collapsed(a + b);
            &&& x.len() > 0 && x.last() == '-' && y.len() > 0 && y[0] == '-' ==> z == x
                + y.drop_first()
            &&& !(x.len() > 0 && x.last() == '-' && y.len() > 0 && y[0] == '-') ==> z == x + y
        }),
    decreases b.len(),
{
    let x = command_names::collapsed(a);
    if b.len() == 0 {
        assert(a + b =~= a);
        assert(x + command_names::collapsed(b) =~= x);
    } else {
        let c = b.last();
        let less = b.drop_last();
        lemma_collapse_sum(a, less);
        assert((a + b).drop_last() =~= a + less);
        assert((a + b).last() == c);
        let y = command_names::collapsed(less);
        let w = command_names::collapsed(b);
        let z = command_names::collapsed(a + less);
        let end = command_names::collapsed(a + b);
        let merges = x.len() > 0 && x.last() == '-' && y.len() > 0 && y[0] == '-';
        if text::is_alphanumeric(c) {
            assert(w == y.push(text::lower(c)));
            assert(end == z.push(text::lower(c)));
            lemma_lower_solid(c);
            if y.len() == 0 {
                assert(w[0] != '-');
                assert(end =~= x + w);
            } else if merges {
                assert(end =~= x + w.drop_first());
            } else {
                assert(end =~= x + w);
            }
        } else if y.len() == 0 {
            assert(w =~= seq!['-']);
            if x.len() > 0 && x.last() == '-' {
                assert(z =~= x);
                assert(end =~= x + w.drop_first());
            } else {
                assert(z =~= x);
                assert(end =~= x + w);
            }
        } else {
            if merges {
                assert(z.last() == (if y.len() > 1 {
                    y.last()
                } else {
                    '-'
                }));
                if y.last() == '-' {
                    assert(end =~= x + w.drop_first());
                } else {
                    assert(end =~= x + w.drop_first());
                }
            } else {
                assert(z.last() == y.last());
                assert(end =~= x + w);
            }
        }
    }
}

proof fn lemma_collapse_head(s: Seq<char>)
    requires
        s.len() > 0,
        text::is_alphanumeric(s[0]),
    ensures
        command_names::collapsed(s).len() > 0,
        command_names::collapsed(s)[0] != '-',
    decreases s.len(),
{
    if s.len() == 1 {
        assert(s.drop_last() =~= Seq::<char>::empty());
        lemma_lower_solid(s[0]);
        assert(command_names::collapsed(s.drop_last()).len() == 0);
    } else {
        lemma_collapse_head(s.drop_last());
    }
}

proof fn lemma_trims_nothing(s: Seq<char>)
    requires
        s.len() > 0,
        s[0] != '-',
        s.last() != '-',
    ensures
        command_names::trim_end_dashes(command_names::trim_start_dashes(s)) == s,
{
}

proof fn lemma_leading_dash(head: Seq<char>, rest: Seq<char>)
    requires
        head.len() == 0 || head == seq!['-'],
        rest.len() > 0,
        rest[0] != '-',
    ensures
        command_names::trim_start_dashes(head + rest) == rest,
{
    assert(command_names::trim_start_dashes(rest) == rest);
    if head.len() == 0 {
        assert(head + rest =~= rest);
    } else {
        assert((head + rest)[0] == '-');
        assert((head + rest).drop_first() =~= rest);
    }
}

proof fn lemma_trailing_dash(rest: Seq<char>, tail: Seq<char>)
    requires
        tail.len() == 0 || tail == seq!['-'],
        rest.len() > 0,
        rest.last() != '-',
    ensures
        command_names::trim_end_dashes(rest + tail) == rest,
{
    assert(command_names::trim_end_dashes(rest) == rest);
    if tail.len() == 0 {
        assert(rest + tail =~= rest);
    } else {
        assert((rest + tail).drop_last() =~= rest);
        assert((rest + tail).last() == '-');
    }
}

proof fn lemma_trim_start_nothing(s: Seq<char>)
    requires
        s.len() > 0,
        s[0] != '-',
    ensures
        command_names::trim_start_dashes(s) == s,
{
}

proof fn lemma_trim_end_behind(before: Seq<char>, s: Seq<char>)
    requires
        s.len() > 0,
        s[0] != '-',
    ensures
        command_names::trim_end_dashes(before + s) == before + command_names::trim_end_dashes(s),
        command_names::trim_end_dashes(s).len() > 0,
    decreases s.len(),
{
    assert((before + s).last() == s.last());
    if s.last() == '-' {
        assert(s.len() > 1);
        assert((before + s).drop_last() =~= before + s.drop_last());
        lemma_trim_end_behind(before, s.drop_last());
    }
}

/// A word is mentioned where its letters stand, in upper or lower case, and neither
/// the character before nor the one behind is of a word.
pub proof fn mentions_are_whole_words(s: Seq<char>, word: Seq<char>, at: int)
    ensures
        agent_terms::is_mention(s, word, at) <==> {
            &&& 0 <= at
            &&& at + word.len() <= s.len()
            &&& forall|k: int|
                0 <= k < word.len() ==> text::lower(s[at + k]) == text::lower(#[trigger] word[k])
            &&& at > 0 ==> !text::is_word(s[at - 1])
            &&& at + word.len() < s.len() ==> !text::is_word(s[at + word.len()])
        },
{
    let line = text::lower_all(s);
    let wanted = text::lower_all(word);
    if 0 <= at && at + word.len() <= s.len() {
        let found = line.subrange(at, at + wanted.len());
        if found == wanted {
            assert forall|k: int| 0 <= k < word.len() implies text::lower(s[at + k])
                == text::lower(#[trigger] word[k]) by {
                assert(found[k] == wanted[k]);
            }
        }
        if (forall|k: int|
            0 <= k < word.len() ==> text::lower(s[at + k]) == text::lower(#[trigger] word[k])) {
            assert forall|k: int| 0 <= k < wanted.len() implies found[k] == wanted[k] by {
                assert(text::lower(s[at + k]) == text::lower(word[k]));
            }
            assert(found =~= wanted);
        }
    }
}

/// Up to the first mention a text stays as it is, in place of the mention stands the
/// replacement, and behind it the text goes on in the same way. Where there is no
/// mention any more, the rest stays as it is.
pub proof fn mentions_are_replaced_one_by_one(
    s: Seq<char>,
    word: Seq<char>,
    replacement: Seq<char>,
    at: int,
    found: int,
)
    requires
        word.len() > 0,
        0 <= at <= found <= s.len(),
        forall|i: int| at <= i < found ==> !(#[trigger] agent_terms::is_mention(s, word, i)),
    ensures
        agent_terms::replaced(s, word, replacement) == agent_terms::replaced_from(
            s,
            word,
            replacement,
            0,
        ),
        agent_terms::is_mention(s, word, found) ==> agent_terms::replaced_from(
            s,
            word,
            replacement,
            at,
        ) == s.subrange(at, found) + replacement + agent_terms::replaced_from(
            s,
            word,
            replacement,
            found + word.len(),
        ),
        found == s.len() ==> agent_terms::replaced_from(s, word, replacement, at) == s.skip(at),
    decreases found - at,
{
    let whole = agent_terms::replaced_from(s, word, replacement, at);
    if at < found {
        mentions_are_replaced_one_by_one(s, word, replacement, at + 1, found);
        assert(!agent_terms::is_mention(s, word, at));
        let next = agent_terms::replaced_from(s, word, replacement, at + 1);
        assert(whole == seq![s[at]] + next);
        if agent_terms::is_mention(s, word, found) {
            let tail = agent_terms::replaced_from(s, word, replacement, found + word.len());
            assert(whole =~= s.subrange(at, found) + replacement + tail);
        }
        if found == s.len() {
            assert(whole =~= s.skip(at));
        }
    } else {
        if agent_terms::is_mention(s, word, found) {
            let tail = agent_terms::replaced_from(s, word, replacement, found + word.len());
            assert(s.subrange(at, found) =~= Seq::<char>::empty());
            assert(found < s.len());
            assert(whole =~= s.subrange(at, found) + replacement + tail);
        }
        if found == s.len() {
            assert(s.skip(at) =~= Seq::<char>::empty());
        }
    }
}

/// The terms of the agent are replaced one after the other: its instructions file by
/// ours, and then its name, with `code` behind it in any of four ways, and alone.
pub proof fn terms_are_replaced_in_turn(content: Seq<char>, agent: Seq<char>)
    ensures
        ({
            let files = agent_terms::replaced(content, agent + ".md"@, "AGENTS.md"@);
            let spaces = agent_terms::replaced(files, agent + " code"@, "Codex"@);
            let dashes = agent_terms::replaced(spaces, agent + "-code"@, "Codex"@);
            let lines = agent_terms::replaced(dashes, agent + "_code"@, "Codex"@);
            let words = agent_terms::replaced(lines, agent + "code"@, "Codex"@);
            agent_terms::rewritten(content, agent) == agent_terms::replaced(
                words,
                agent,
                "Codex"@,
            )
        }),
{
}

/// The term is nowhere mentioned in the text.
pub open spec fn is_free_of(s: Seq<char>, term: Seq<char>) -> bool {
    forall|at: int| !(#[trigger] agent_terms::is_mention(s, term, at))
}

/// No term of the agent is mentioned in the text.
pub open spec fn is_neutral(s: Seq<char>, agent: Seq<char>) -> bool {
    &&& is_free_of(s, agent + ".md"@)
    &&& is_free_of(s, agent + " code"@)
    &&& is_free_of(s, agent + "-code"@)
    &&& is_free_of(s, agent + "_code"@)
    &&& is_free_of(s, agent + "code"@)
    &&& is_free_of(s, agent)
}

/// A text that does not mention the agent stays as it is.
pub proof fn neutral_texts_stay(s: Seq<char>, agent: Seq<char>)
    requires
        is_neutral(s, agent),
    ensures
        agent_terms::rewritten(s, agent) == s,
{
    agent_terms::replacing_nothing(s, agent + ".md"@, "AGENTS.md"@);
    agent_terms::replacing_nothing(s, agent + " code"@, "Codex"@);
    agent_terms::replacing_nothing(s, agent + "-code"@, "Codex"@);
    agent_terms::replacing_nothing(s, agent + "_code"@, "Codex"@);
    agent_terms::replacing_nothing(s, agent + "code"@, "Codex"@);
    agent_terms::replacing_nothing(s, agent, "Codex"@);
}

/// A term of the agent that is mentioned at one place is replaced there, and all
/// before and behind it stays, where nothing else mentions the agent.
pub proof fn single_mentions_are_rewritten(
    before: Seq<char>,
    word: Seq<char>,
    behind: Seq<char>,
    agent: Seq<char>,
    ending: Seq<char>,
)
    requires
        agent.len() > 0,
        word.len() == agent.len() + ending.len(),
        agent_terms::is_mention(before + word + behind, agent + ending, before.len() as int),
        forall|at: int| #[trigger]
            agent_terms::is_mention(before + word + behind, agent + ending, at) ==> at
                == before.len(),
        ending == ".md"@ || ending == " code"@ || ending == "-code"@ || ending == "_code"@
            || ending == "code"@ || ending.len() == 0,
        ending != ".md"@ ==> is_free_of(before + word + behind, agent + ".md"@) && is_neutral(
            before + "Codex"@ + behind,
            agent,
        ),
        ending == ".md"@ ==> is_neutral(before + "AGENTS.md"@ + behind, agent),
        ending == "-code"@ || ending == "_code"@ || ending == "code"@ || ending.len() == 0
            ==> is_free_of(before + word + behind, agent + " code"@),
        ending == "_code"@ || ending == "code"@ || ending.len() == 0 ==> is_free_of(
            before + word + behind,
            agent + "-code"@,
        ),
        ending == "code"@ || ending.len() == 0 ==> is_free_of(
            before + word + behind,
            agent + "_code"@,
        ),
        ending.len() == 0 ==> is_free_of(before + word + behind, agent + "code"@),
    ensures
        ending == ".md"@ ==> agent_terms::rewritten(before + word + behind, agent) == before
            + "AGENTS.md"@ + behind,
        ending != ".md"@ ==> agent_terms::rewritten(before + word + behind, agent) == before
            + "Codex"@ + behind,
{
    reveal_strlit(".md");
    reveal_strlit(" code");
    reveal_strlit("-code");
    reveal_strlit("_code");
    reveal_strlit("code");
    let s = before + word + behind;
    let term = agent + ending;
    if ending.len() == 0 {
        assert(term =~= agent);
    }
    lemma_single(before, word, behind, term, "AGENTS.md"@);
    lemma_single(before, word, behind, term, "Codex"@);
    assert(".md"@[0] == '.' && " code"@[0] == ' ' && "-code"@[0] == '-' && "_code"@[0] == '_'
        && "code"@[0] == 'c');
    if ending == ".md"@ {
        lemma_rest_stays(before + "AGENTS.md"@ + behind, agent);
    } else {
        agent_terms::replacing_nothing(s, agent + ".md"@, "AGENTS.md"@);
        lemma_rest_stays(before + "Codex"@ + behind, agent);
        if ending != " code"@ {
            agent_terms::replacing_nothing(s, agent + " code"@, "Codex"@);
            if ending != "-code"@ {
                agent_terms::replacing_nothing(s, agent + "-code"@, "Codex"@);
                if ending != "_code"@ {
                    agent_terms::replacing_nothing(s, agent + "_code"@, "Codex"@);
                    if ending != "code"@ {
                        agent_terms::replacing_nothing(s, agent + "code"@, "Codex"@);
                    }
                }
            }
        }
    }
}

proof fn lemma_rest_stays(s: Seq<char>, agent: Seq<char>)
    requires
        is_neutral(s, agent),
    ensures
        agent_terms::replaced(s, agent + " code"@, "Codex"@) == s,
        agent_terms::replaced(s, agent + "-code"@, "Codex"@) == s,
        agent_terms::replaced(s, agent + "_code"@, "Codex"@) == s,
        agent_terms::replaced(s, agent + "code"@, "Codex"@) == s,
        agent_terms::replaced(s, agent, "Codex"@) == s,
{
    agent_terms::replacing_nothing(s, agent + " code"@, "Codex"@);
    agent_terms::replacing_nothing(s, agent + "-code"@, "Codex"@);
    agent_terms::replacing_nothing(s, agent + "_code"@, "Codex"@);
    agent_terms::replacing_nothing(s, agent + "code"@, "Codex"@);
    agent_terms::replacing_nothing(s, agent, "Codex"@);
}

proof fn lemma_single(
    before: Seq<char>,
    word: Seq<char>,
    behind: Seq<char>,
    term: Seq<char>,
    replacement: Seq<char>,
)
    requires
        term.len() > 0,
        word.len() == term.len(),
        agent_terms::is_mention(before + word + behind, term, before.len() as int),
        forall|at: int| #[trigger]
            agent_terms::is_mention(before + word + behind, term, at) ==> at == before.len(),
    ensures
        agent_terms::replaced(before + word + behind, term, replacement) == before + replacement
            + behind,
{
    let s = before + word + behind;
    let at = before.len() as int;
    let next = at + term.len();
    mentions_are_replaced_one_by_one(s, term, replacement, 0, at);
    mentions_are_replaced_one_by_one(s, term, replacement, next, s.len() as int);
    assert(s.subrange(0, at) =~= before);
    assert(s.skip(next) =~= behind);
}

}
