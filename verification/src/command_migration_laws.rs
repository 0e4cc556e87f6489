//! What holds of the migration of commands as a whole.

use vstd::prelude::*;
use vstd::string::*;
use crate::agent_terms;
use crate::command_document::{self, ParsedModel};
use crate::command_migration::{self, FileModel, SkillModel, SourceModel, WalkAction};
use crate::command_names::{self, PathModel};
use crate::command_text_laws;
use crate::order;
use crate::text;
use crate::text_laws;

verus! {

/// Folders are walked through, files that end in `md` are collected, and everything
/// else is left out.
pub proof fn markdown_files_are_collected(
    is_dir: bool,
    is_file: bool,
    extension: Option<Seq<char>>,
)
    ensures
        command_migration::walk_action_of(is_dir, is_file, extension) == WalkAction::Descend
            <==> is_dir,
        command_migration::walk_action_of(is_dir, is_file, extension) == WalkAction::Collect
            <==> !is_dir && is_file && extension == Some("md"@),
{
}

/// A text without backslashes and double quotes is quoted as it stands. Of a longer
/// one each character stands as it is, and behind a backslash where it is a backslash
/// or a double quote itself.
pub proof fn quoting_escapes_each_character(value: Seq<char>, c: char)
    ensures
        command_migration::quoted(value) == seq!['"'] + command_migration::escaped(value)
            + seq!['"'],
        command_migration::escaped(Seq::empty()).len() == 0,
        c == '\\' || c == '"' ==> command_migration::escaped(value.push(c))
            == command_migration::escaped(value) + seq!['\\', c],
        c != '\\' && c != '"' ==> command_migration::escaped(value.push(c))
            == command_migration::escaped(value) + seq![c],
        (forall|i: int| 0 <= i < value.len() ==> #[trigger] value[i] != '\\' && value[i] != '"')
            ==> command_migration::quoted(value) == seq!['"'] + value + seq!['"'],
{
    assert(value.push(c).drop_last() =~= value);
    let front = command_migration::escaped(value);
    assert(front.push('\\').push(c) =~= front + seq!['\\', c]);
    assert(front.push(c) =~= front + seq![c]);
    if (forall|i: int| 0 <= i < value.len() ==> #[trigger] value[i] != '\\' && value[i] != '"') {
        lemma_plain(value);
    }
}

proof fn lemma_plain(value: Seq<char>)
    requires
        forall|i: int| 0 <= i < value.len() ==> #[trigger] value[i] != '\\' && value[i] != '"',
    ensures
        command_migration::escaped(value) == value,
    decreases value.len(),
{
    if value.len() > 0 {
        let front = value.drop_last();
        assert forall|i: int| 0 <= i < front.len() implies #[trigger] front[i] != '\\' && front[i]
            != '"' by {
            assert(front[i] == value[i]);
        }
        lemma_plain(front);
        assert(value[value.len() - 1] == value.last());
        assert(front.push(value.last()) =~= value);
    } else {
        assert(command_migration::escaped(value) =~= value);
    }
}

/// What stands in a skill before its template.
pub open spec fn skill_head(
    name: Seq<char>,
    description: Seq<char>,
    source_name: Seq<char>,
) -> Seq<char> {
    "---\nname: "@ + command_migration::quoted(name) + "\ndescription: "@
        + command_migration::quoted(description) + "\n---\n\n# "@ + name
        + "\n\nUse this skill when the user asks to run the migrated source command `"@
        + source_name + "`.\n\n## Command Template\n\n"@
}

/// A skill ends with the whole of the body, however long it is, without the white
/// space around it, and one line break: so for every body that does not mention the
/// agent. Before it stands the head of the skill with the name, the description and
/// the name of the command.
pub proof fn skills_hold_the_whole_template(
    before: Seq<char>,
    kept: Seq<char>,
    behind: Seq<char>,
    name: Seq<char>,
    description: Seq<char>,
    source_name: Seq<char>,
    agent: Seq<char>,
)
    requires
        text_laws::is_blank(before),
        text_laws::is_blank(behind),
        kept.len() > 0,
        !text::is_white_space(kept[0]),
        !text::is_white_space(kept[kept.len() - 1]),
        command_text_laws::is_neutral(kept, agent),
        command_text_laws::is_neutral(description, agent),
    ensures
        command_migration::skill_text(
            before + kept + behind,
            name,
            description,
            source_name,
            agent,
        ) == skill_head(name, description, source_name) + kept + "\n"@,
{
    text_laws::trimming_keeps_what_stands_between(before, kept, behind);
    command_text_laws::neutral_texts_stay(kept, agent);
    command_text_laws::neutral_texts_stay(description, agent);
}

/// A skill made of any body is its head, with the mentions of the agent in the
/// description replaced, and the trimmed body, with the mentions in it replaced, and
/// one line break. A fixed text stands for a body of which nothing is left.
pub proof fn skills_are_head_and_template(
    body: Seq<char>,
    name: Seq<char>,
    description: Seq<char>,
    source_name: Seq<char>,
    agent: Seq<char>,
)
    ensures
        ({
            let told = agent_terms::rewritten(description, agent);
            let kept = agent_terms::rewritten(text::trim(body), agent);
            let skill = command_migration::skill_text(
                body,
                name,
                description,
                source_name,
                agent,
            );
            &&& kept.len() > 0 ==> skill == skill_head(name, told, source_name) + kept + "\n"@
            &&& kept.len() == 0 ==> skill == skill_head(name, told, source_name)
                + "No command template body was found."@ + "\n"@
        }),
{
}

/// A body of white space alone makes a skill that says so.
pub proof fn blank_bodies_are_told(
    body: Seq<char>,
    name: Seq<char>,
    description: Seq<char>,
    source_name: Seq<char>,
    agent: Seq<char>,
)
    requires
        text_laws::is_blank(body),
        command_text_laws::is_neutral(description, agent),
        agent.len() > 0,
    ensures
        command_migration::skill_text(body, name, description, source_name, agent) == skill_head(
            name,
            description,
            source_name,
        ) + "No command template body was found."@ + "\n"@,
{
    text_laws::trimming_leaves_nothing_of_white_space(body);
    command_text_laws::neutral_texts_stay(description, agent);
    let nothing = text::trim(body);
    assert forall|at: int| !(#[trigger] agent_terms::is_mention(nothing, agent, at)) by {}
    assert(command_text_laws::is_neutral(nothing, agent));
    command_text_laws::neutral_texts_stay(nothing, agent);
}

/// A template that names its arguments, runs a shell command or refers to a file is
/// not supported, wherever in it that stands.
pub proof fn features_of_commands_are_not_supported(
    before: Seq<char>,
    behind: Seq<char>,
    digit: char,
    next: char,
)
    ensures
        command_migration::is_unsupported(before + "$ARGUMENTS"@ + behind),
        command_migration::is_unsupported(before + "!`"@ + behind),
        command_migration::is_unsupported(before + "! `"@ + behind),
        48 <= digit as u32 <= 57 ==> command_migration::is_unsupported(
            before + seq!['$', digit] + behind,
        ),
        !text::is_white_space(next) && (before.len() == 0 || text::is_white_space(
            before[before.len() - 1],
        )) ==> command_migration::is_unsupported(before + seq!['@', next] + behind),
{
    text_laws::what_stands_in_a_text_is_found(before, "$ARGUMENTS"@, behind);
    text_laws::what_stands_in_a_text_is_found(before, "!`"@, behind);
    text_laws::what_stands_in_a_text_is_found(before, "! `"@, behind);
    let n = before.len() as int;
    if 48 <= digit as u32 <= 57 {
        let s = before + seq!['$', digit] + behind;
        assert(s[n] == '$');
        assert(s[n + 1] == digit);
        assert(command_migration::has_numbered_argument(s));
    }
    if !text::is_white_space(next) && (before.len() == 0 || text::is_white_space(
        before[before.len() - 1],
    )) {
        let s = before + seq!['@', next] + behind;
        assert(s[n] == '@');
        assert(s[n + 1] == next);
        if n > 0 {
            assert(s[n - 1] == before[n - 1]);
        }
        assert(command_migration::has_file_reference(s));
    }
}

/// A dollar sign and a digit behind it are found wherever they stand, and nothing is
/// found where no digit stands behind a dollar sign.
pub proof fn numbered_arguments_are_found(before: Seq<char>, digit: char, behind: Seq<char>)
    ensures
        48 <= digit as u32 <= 57 ==> command_migration::has_numbered_argument(
            before + seq!['$', digit] + behind,
        ),
        (forall|i: int|
            0 <= i < before.len() - 1 && #[trigger] before[i] == '$' ==> !(48 <= before[i + 1] as u32
                <= 57)) ==> !command_migration::has_numbered_argument(before),
{
    let n = before.len() as int;
    if 48 <= digit as u32 <= 57 {
        let s = before + seq!['$', digit] + behind;
        assert(s[n] == '$');
        assert(s[n + 1] == digit);
    }
}

/// A template that opens and closes double braces is not supported, in whatever
/// order and place they stand.
pub proof fn double_braces_are_not_supported(
    before: Seq<char>,
    between: Seq<char>,
    behind: Seq<char>,
)
    ensures
        command_migration::is_unsupported(before + "{{"@ + (between + "}}"@ + behind)),
        command_migration::is_unsupported(before + "}}"@ + (between + "{{"@ + behind)),
{
    let one = before + "{{"@ + (between + "}}"@ + behind);
    let two = before + "}}"@ + (between + "{{"@ + behind);
    text_laws::what_stands_in_a_text_is_found(before, "{{"@, between + "}}"@ + behind);
    text_laws::what_stands_in_a_text_is_found(before + "{{"@ + between, "}}"@, behind);
    assert(before + "{{"@ + between + "}}"@ + behind =~= one);
    text_laws::what_stands_in_a_text_is_found(before, "}}"@, between + "{{"@ + behind);
    text_laws::what_stands_in_a_text_is_found(before + "}}"@ + between, "{{"@, behind);
    assert(before + "}}"@ + between + "{{"@ + behind =~= two);
}

/// Every other template is supported: one in which no argument is named, no double
/// braces open and close, no shell command is run and no word begins with an at sign.
pub proof fn plain_templates_are_supported(template: Seq<char>)
    requires
        !text::contains(template, "$ARGUMENTS"@),
        !text::contains(template, "!`"@),
        !text::contains(template, "! `"@),
        !text::contains(template, "{{"@) || !text::contains(template, "}}"@),
        forall|i: int|
            0 <= i < template.len() - 1 && #[trigger] template[i] == '$' ==> !(48
                <= template[i + 1] as u32 <= 57),
        forall|i: int|
            0 <= i < template.len() - 1 && #[trigger] template[i] == '@' ==> text::is_white_space(
                template[i + 1],
            ) || (i > 0 && !text::is_white_space(template[i - 1])),
    ensures
        !command_migration::is_unsupported(template),
{
}

/// A command can become a skill exactly where its file is no README, its description
/// holds something besides white space, its name has at most 64 characters, and its
/// template is supported. The skill has that name.
pub proof fn supported_commands_have_a_name(path: PathModel, document: ParsedModel)
    ensures
        ({
            let name = command_names::skill_name(path);
            let described = document.description matches Some(description) && exists|i: int|
                0 <= i < description.len() && !text::is_white_space(#[trigger] description[i]);
            let found = command_migration::supported_name(path, document);
            &&& found is Some <==> path.stem != Some("README"@) && described && name.len() <= 64
                && !command_migration::is_unsupported(document.body)
            &&& found matches Some(given) ==> given == name
        }),
{
    match document.description {
        Some(description) => {
            let parts = text_laws::trimming_splits_a_text(description);
            let kept = text::trim(description);
            if kept.len() > 0 {
                assert(description[parts.0.len() as int] == kept[0]);
                assert(!text::is_white_space(description[parts.0.len() as int]));
            } else {
                assert forall|i: int| 0 <= i < description.len() implies text::is_white_space(
                    #[trigger] description[i],
                ) by {
                    if i < parts.0.len() {
                        assert(description[i] == parts.0[i]);
                    } else {
                        assert(description[i] == parts.1[i - parts.0.len()]);
                    }
                }
            }
        },
        None => {},
    }
}

/// The name of the skill that the file becomes, where it can become one.
pub open spec fn name_of(file: FileModel) -> Option<Seq<char>> {
    command_migration::supported_name(file.path, command_document::parsed(file.content))
}

/// The file becomes a skill that no other of the files becomes.
pub open spec fn is_migrated(files: Seq<FileModel>, i: int) -> bool {
    &&& 0 <= i < files.len()
    &&& name_of(files[i]) is Some
    &&& forall|j: int|
        0 <= j < files.len() && j != i ==> name_of(#[trigger] files[j]) != name_of(files[i])
}

proof fn lemma_one_source(files: Seq<FileModel>, i: int)
    requires
        is_migrated(files, i),
    ensures
        command_migration::has_one_source(
            command_migration::supported_names(files),
            name_of(files[i])->Some_0,
        ),
        command_migration::is_source(
            command_migration::supported_names(files),
            name_of(files[i])->Some_0,
            i,
        ),
{
    let names = command_migration::supported_names(files);
    let name = name_of(files[i])->Some_0;
    assert(command_migration::is_source(names, name, i));
    assert forall|j: int, k: int|
        #![trigger command_migration::is_source(names, name, j), command_migration::is_source(
            names,
            name,
            k,
        )]
        command_migration::is_source(names, name, j) && command_migration::is_source(
            names,
            name,
            k,
        ) implies j == k by {
        assert(name_of(files[j]) == Some(name));
        assert(name_of(files[k]) == Some(name));
    }
}

proof fn lemma_migrated(files: Seq<FileModel>, name: Seq<char>, i: int)
    requires
        command_migration::has_one_source(command_migration::supported_names(files), name),
        command_migration::is_source(command_migration::supported_names(files), name, i),
    ensures
        is_migrated(files, i),
        name_of(files[i]) == Some(name),
{
    let names = command_migration::supported_names(files);
    assert(names[i] == name_of(files[i]));
    assert forall|j: int| 0 <= j < files.len() && j != i implies name_of(#[trigger] files[j])
        != name_of(files[i]) by {
        if name_of(files[j]) == name_of(files[i]) {
            assert(names[j] == name_of(files[j]));
            assert(command_migration::is_source(names, name, j));
        }
    }
}

proof fn lemma_candidates(names: Seq<Option<Seq<char>>>, count: int) -> (found: Seq<Seq<char>>)
    requires
        0 <= count <= names.len(),
    ensures
        forall|k: int|
            0 <= k < found.len() ==> command_migration::has_one_source(
                names,
                #[trigger] found[k],
            ),
        forall|i: int, name: Seq<char>|
            0 <= i < count && #[trigger] command_migration::is_source(names, name, i)
                && command_migration::has_one_source(names, name) ==> found.contains(name),
    decreases count,
{
    if count == 0 {
        Seq::empty()
    } else {
        let fewer = lemma_candidates(names, count - 1);
        let last = names[count - 1];
        if last is Some && command_migration::has_one_source(names, last->Some_0) {
            let found = fewer.push(last->Some_0);
            assert forall|i: int, name: Seq<char>|
                0 <= i < count && #[trigger] command_migration::is_source(names, name, i)
                    && command_migration::has_one_source(
                    names,
                    name,
                ) implies found.contains(name) by {
                if i < count - 1 {
                    assert(fewer.contains(name));
                    let k = choose|k: int| 0 <= k < fewer.len() && fewer[k] == name;
                    assert(found[k] == name);
                } else {
                    assert(found[fewer.len() as int] == name);
                }
            }
            found
        } else {
            fewer
        }
    }
}

/// The names that exactly one file has can be listed.
proof fn lemma_sources_are_listed(names: Seq<Option<Seq<char>>>)
    ensures
        command_migration::lists_sources(command_migration::sources_of(names), names),
{
    let found = lemma_candidates(names, names.len() as int);
    let listing = order::sorted_distinct::<String>(found);
    order::every_sequence_has_a_listing::<String>(found);
    let sources = Seq::new(
        listing.len(),
        |k: int|
            SourceModel {
                name: listing[k],
                file: choose|i: int| command_migration::is_source(names, listing[k], i),
            },
    );
    assert(command_migration::source_names(sources) =~= listing);
    assert forall|name: Seq<char>| #[trigger] listing.contains(name)
        <==> command_migration::has_one_source(names, name) by {
        if listing.contains(name) {
            assert(found.contains(name));
            let k = choose|k: int| 0 <= k < found.len() && found[k] == name;
            assert(command_migration::has_one_source(names, found[k]));
        }
        if command_migration::has_one_source(names, name) {
            let i = choose|i: int| command_migration::is_source(names, name, i);
            assert(command_migration::is_source(names, name, i));
            assert(found.contains(name));
        }
    }
    assert forall|k: int| 0 <= k < sources.len() implies command_migration::is_source(
        names,
        (#[trigger] sources[k]).name,
        sources[k].file,
    ) by {
        assert(listing.contains(listing[k]));
        assert(command_migration::has_one_source(names, listing[k]));
    }
    assert(command_migration::lists_sources(sources, names));
    command_migration::source_listing_is_unique(sources, names);
}

/// The skill that the file becomes under the name.
pub open spec fn skill_for(file: FileModel, name: Seq<char>, agent: Seq<char>) -> SkillModel {
    let document = command_document::parsed(file.content);
    SkillModel {
        name,
        contents: command_migration::skill_text(
            document.body,
            name,
            document.description->Some_0,
            command_names::source_name(file.path),
            agent,
        ),
    }
}

/// The skills that the import writes.
pub open spec fn written(
    files: Seq<FileModel>,
    existing: Seq<Seq<char>>,
    agent: Seq<char>,
) -> Seq<SkillModel> {
    command_migration::imports(
        files,
        command_migration::sources_of(command_migration::supported_names(files)),
        existing,
        agent,
    )
}

/// The import writes a skill for every file that becomes one that no other file
/// becomes and that is not there already. Its contents are those of the file.
pub proof fn imports_write_every_migrated_command(
    files: Seq<FileModel>,
    existing: Seq<Seq<char>>,
    agent: Seq<char>,
    i: int,
)
    requires
        is_migrated(files, i),
        !existing.contains(name_of(files[i])->Some_0),
    ensures
        written(files, existing, agent).contains(
            skill_for(files[i], name_of(files[i])->Some_0, agent),
        ),
{
    let sources = command_migration::sources_of(command_migration::supported_names(files));
    let at = lemma_imports(files, sources, existing, agent);
    let k = lemma_has_source(files, i);
    assert(at.contains(k));
    let n = choose|n: int| 0 <= n < at.len() && at[n] == k;
    lemma_skill_of(files, k, agent);
    assert(written(files, existing, agent)[n] == command_migration::skill_of(
        files,
        sources[k],
        agent,
    ));
}

/// The import writes nothing else: every skill that it writes is that of a file that
/// alone becomes it, and was not there already.
pub proof fn imports_write_migrated_commands_only(
    files: Seq<FileModel>,
    existing: Seq<Seq<char>>,
    agent: Seq<char>,
    k: int,
) -> (i: int)
    requires
        0 <= k < written(files, existing, agent).len(),
    ensures
        ({
            let skill = written(files, existing, agent)[k];
            &&& !existing.contains(skill.name)
            &&& is_migrated(files, i)
            &&& name_of(files[i]) == Some(skill.name)
            &&& skill == skill_for(files[i], skill.name, agent)
        }),
{
    let sources = command_migration::sources_of(command_migration::supported_names(files));
    let at = lemma_imports(files, sources, existing, agent);
    assert(at.contains(at[k]));
    lemma_skill_of(files, at[k], agent);
    assert(written(files, existing, agent)[k] == command_migration::skill_of(
        files,
        sources[at[k]],
        agent,
    ));
    sources[at[k]].file
}

/// The import writes the skills in the order of their names.
pub proof fn imports_write_in_order(
    files: Seq<FileModel>,
    existing: Seq<Seq<char>>,
    agent: Seq<char>,
    j: int,
    k: int,
)
    requires
        0 <= j < k < written(files, existing, agent).len(),
    ensures
        order::precedes::<String>(
            written(files, existing, agent)[j].name,
            written(files, existing, agent)[k].name,
        ),
{
    let sources = command_migration::sources_of(command_migration::supported_names(files));
    let at = lemma_imports(files, sources, existing, agent);
    assert(at.contains(at[j]));
    assert(at.contains(at[k]));
    lemma_sources_in_order(files, at[j], at[k]);
    assert(written(files, existing, agent)[j] == command_migration::skill_of(
        files,
        sources[at[j]],
        agent,
    ));
    assert(written(files, existing, agent)[k] == command_migration::skill_of(
        files,
        sources[at[k]],
        agent,
    ));
}

proof fn lemma_has_source(files: Seq<FileModel>, i: int) -> (k: int)
    requires
        is_migrated(files, i),
    ensures
        ({
            let sources = command_migration::sources_of(command_migration::supported_names(files));
            0 <= k < sources.len() && sources[k].file == i && Some(sources[k].name) == name_of(
                files[i],
            )
        }),
{
    let names = command_migration::supported_names(files);
    let sources = command_migration::sources_of(names);
    let listed = command_migration::source_names(sources);
    let name = name_of(files[i])->Some_0;
    lemma_sources_are_listed(names);
    lemma_one_source(files, i);
    assert(listed.contains(name));
    let k = choose|k: int| 0 <= k < listed.len() && listed[k] == name;
    assert(command_migration::is_source(names, sources[k].name, sources[k].file));
    k
}

proof fn lemma_skill_of(files: Seq<FileModel>, k: int, agent: Seq<char>)
    requires
        0 <= k < command_migration::sources_of(command_migration::supported_names(files)).len(),
    ensures
        ({
            let source = command_migration::sources_of(
                command_migration::supported_names(files),
            )[k];
            &&& is_migrated(files, source.file)
            &&& name_of(files[source.file]) == Some(source.name)
            &&& command_migration::skill_of(files, source, agent) == skill_for(
                files[source.file],
                source.name,
                agent,
            )
        }),
{
    let names = command_migration::supported_names(files);
    let sources = command_migration::sources_of(names);
    lemma_sources_are_listed(names);
    assert(command_migration::is_source(names, sources[k].name, sources[k].file));
    assert(command_migration::source_names(sources)[k] == sources[k].name);
    assert(command_migration::source_names(sources).contains(sources[k].name));
    lemma_migrated(files, sources[k].name, sources[k].file);
}

proof fn lemma_sources_in_order(files: Seq<FileModel>, j: int, k: int)
    requires
        0 <= j < k < command_migration::sources_of(
            command_migration::supported_names(files),
        ).len(),
    ensures
        ({
            let sources = command_migration::sources_of(command_migration::supported_names(files));
            order::precedes::<String>(sources[j].name, sources[k].name)
        }),
{
    let names = command_migration::supported_names(files);
    let sources = command_migration::sources_of(names);
    let listed = command_migration::source_names(sources);
    lemma_sources_are_listed(names);
    assert(order::precedes::<String>(listed[j], listed[k]));
}

/// The written skills are those of the sources at certain ascending positions.
proof fn lemma_imports(
    files: Seq<FileModel>,
    sources: Seq<SourceModel>,
    existing: Seq<Seq<char>>,
    agent: Seq<char>,
) -> (at: Seq<int>)
    ensures
        forall|j: int, k: int| 0 <= j < k < at.len() ==> #[trigger] at[j] < #[trigger] at[k],
        forall|i: int| #[trigger]
            at.contains(i) <==> 0 <= i < sources.len() && !existing.contains(sources[i].name),
        command_migration::imports(files, sources, existing, agent).len() == at.len(),
        forall|k: int|
            0 <= k < at.len() ==> (#[trigger] command_migration::imports(
                files,
                sources,
                existing,
                agent,
            )[k]) == command_migration::skill_of(files, sources[at[k]], agent),
    decreases sources.len(),
{
    let written = command_migration::imports(files, sources, existing, agent);
    if sources.len() == 0 {
        Seq::empty()
    } else {
        let front = sources.drop_last();
        let last = sources.len() - 1;
        let fewer = lemma_imports(files, front, existing, agent);
        assert forall|k: int| 0 <= k < fewer.len() implies 0 <= #[trigger] fewer[k] < last by {
            assert(fewer.contains(fewer[k]));
        }
        if existing.contains(sources[last].name) {
            assert forall|i: int| #[trigger] fewer.contains(i) <==> 0 <= i < sources.len()
                && !existing.contains(sources[i].name) by {
                if 0 <= i < last {
                    assert(front[i] == sources[i]);
                }
            }
            fewer
        } else {
            let at = fewer.push(last);
            assert forall|i: int| #[trigger] at.contains(i) <==> 0 <= i < sources.len()
                && !existing.contains(sources[i].name) by {
                if fewer.contains(i) {
                    let k = choose|k: int| 0 <= k < fewer.len() && fewer[k] == i;
                    assert(at[k] == i);
                    assert(front[i] == sources[i]);
                }
                if i == last {
                    assert(at[fewer.len() as int] == i);
                }
                if 0 <= i < last {
                    assert(front[i] == sources[i]);
                    assert(fewer.contains(i) || existing.contains(sources[i].name));
                }
            }
            assert forall|k: int| 0 <= k < at.len() implies #[trigger] written[k]
                == command_migration::skill_of(files, sources[at[k]], agent) by {
                if k < fewer.len() {
                    assert(at[k] == fewer[k]);
                    assert(front[fewer[k]] == sources[fewer[k]]);
                }
            }
            at
        }
    }
}

/// A name is missing exactly where a file becomes the skill of that name that no
/// other file becomes, and the skill is not there already. The missing names are as
/// many as the skills that the import writes, and stand in the same order.
pub proof fn missing_names_are_those_to_be_written(
    files: Seq<FileModel>,
    existing: Seq<Seq<char>>,
    agent: Seq<char>,
    name: Seq<char>,
)
    ensures
        ({
            let missing = command_migration::missing_in(files, existing);
            let skills = written(files, existing, agent);
            &&& missing.contains(name) <==> !existing.contains(name) && exists|i: int|
                is_migrated(files, i) && name_of(#[trigger] files[i]) == Some(name)
            &&& missing.len() == skills.len()
            &&& forall|k: int| 0 <= k < skills.len() ==> #[trigger] missing[k] == skills[k].name
        }),
{
    let sources = command_migration::sources_of(command_migration::supported_names(files));
    let missing = command_migration::missing_in(files, existing);
    let skills = written(files, existing, agent);
    command_migration::imports_are_what_is_missing(files, sources, existing, agent);
    if missing.contains(name) {
        let k = choose|k: int| 0 <= k < missing.len() && missing[k] == name;
        assert(skills[k].name == name);
        let i = imports_write_migrated_commands_only(files, existing, agent, k);
        assert(name_of(files[i]) == Some(name));
    }
    if !existing.contains(name) && exists|i: int|
        is_migrated(files, i) && name_of(#[trigger] files[i]) == Some(name) {
        let i = choose|i: int| is_migrated(files, i) && name_of(#[trigger] files[i]) == Some(name);
        let skill = skill_for(files[i], name, agent);
        imports_write_every_migrated_command(files, existing, agent, i);
        let k = choose|k: int| 0 <= k < skills.len() && skills[k] == skill;
        assert(missing[k] == name);
    }
}

/// The listed sources are, in the order of the names, the files that become a skill
/// that no other file becomes.
pub proof fn sources_are_the_migrated_files(files: Seq<FileModel>)
    ensures
        ({
            let sources = command_migration::sources_of(command_migration::supported_names(files));
            &&& forall|k: int|
                0 <= k < sources.len() ==> is_migrated(files, (#[trigger] sources[k]).file)
                    && name_of(files[sources[k].file]) == Some(sources[k].name)
            &&& forall|i: int|
                #![trigger files[i]]
                is_migrated(files, i) ==> sources.contains(
                    SourceModel { file: i, name: name_of(files[i])->Some_0 },
                )
            &&& forall|j: int, k: int|
                0 <= j < k < sources.len() ==> order::precedes::<String>(
                    (#[trigger] sources[j]).name,
                    (#[trigger] sources[k]).name,
                )
        }),
{
    let sources = command_migration::sources_of(command_migration::supported_names(files));
    assert forall|k: int| 0 <= k < sources.len() implies is_migrated(
        files,
        (#[trigger] sources[k]).file,
    ) && name_of(files[sources[k].file]) == Some(sources[k].name) by {
        lemma_skill_of(files, k, Seq::empty());
    }
    assert forall|i: int|
        #![trigger files[i]]
        is_migrated(files, i) implies sources.contains(
        SourceModel { file: i, name: name_of(files[i])->Some_0 },
    ) by {
        let k = lemma_has_source(files, i);
        assert(sources[k] == (SourceModel { file: i, name: name_of(files[i])->Some_0 }));
    }
    assert forall|j: int, k: int| 0 <= j < k < sources.len() implies order::precedes::<String>(
        (#[trigger] sources[j]).name,
        (#[trigger] sources[k]).name,
    ) by {
        lemma_sources_in_order(files, j, k);
    }
}

}
