//! Migration of another agent's commands into skills.

use vstd::prelude::*;
use vstd::string::*;
use crate::agent_terms::{self, AgentName};
use crate::command_document::{self, ParsedCommand, ParsedModel};
use crate::command_names::{self, CommandPath, PathModel, MAX_SKILL_NAME_LEN};
use crate::order;
use crate::text;

verus! {

/// What the walk through the folder of commands does with an entry.
#[derive(Clone, Copy, Debug, PartialEq, Eq, Structural)]
pub enum WalkAction {
    Descend,
    Collect,
    Skip,
}

/// Folders are walked through, Markdown files are collected.
pub open spec fn walk_action_of(
    is_dir: bool,
    is_file: bool,
    extension: Option<Seq<char>>,
) -> WalkAction {
    if is_dir {
        WalkAction::Descend
    } else if is_file && extension == Some("md"@) {
        WalkAction::Collect
    } else {
        WalkAction::Skip
    }
}

/// What the walk does with an entry. An extension that is no Unicode text is
/// `None`.
pub fn walk_action(is_dir: bool, is_file: bool, extension: Option<&str>) -> (action: WalkAction)
    ensures
        action == walk_action_of(is_dir, is_file, extension.deep_view()),
{
    if is_dir {
        return WalkAction::Descend;
    }
    match extension {
        Some(name) => if is_file && text::same_text(name, "md") {
            WalkAction::Collect
        } else {
            WalkAction::Skip
        },
        None => WalkAction::Skip,
    }
}

/// A dollar sign with a digit behind it stands in `s`.
pub open spec fn has_numbered_argument(s: Seq<char>) -> bool {
    exists|i: int| 0 <= i < s.len() - 1 && #[trigger] s[i] == '$' && text::is_digit(s[i + 1])
}

/// A word of `s`, in the sense of what stands between white space, begins with
/// an at sign and goes on.
pub open spec fn has_file_reference(s: Seq<char>) -> bool {
    exists|i: int|
        0 <= i < s.len() - 1 && #[trigger] s[i] == '@' && (i == 0 || text::is_white_space(
            s[i - 1],
        )) && !text::is_white_space(s[i + 1])
}

/// The template uses something that a skill has no counterpart for.
pub open spec fn is_unsupported(template: Seq<char>) -> bool {
    ||| text::contains(template, "$ARGUMENTS"@)
    ||| has_numbered_argument(template)
    ||| text::contains(template, "{{"@) && text::contains(template, "}}"@)
    ||| text::contains(template, "!`"@)
    ||| text::contains(template, "! `"@)
    ||| has_file_reference(template)
}

/// Whether a dollar sign with a digit behind it stands in the template.
pub fn contains_numbered_argument_placeholder(template: &Vec<char>) -> (result: bool)
    ensures
        result == has_numbered_argument(template@),
{
    let mut i: usize = 0;
    while i < template.len()
        invariant
            i <= template@.len(),
            forall|j: int|
                0 <= j < i && j < template@.len() - 1 && #[trigger] template@[j] == '$'
                    ==> !text::is_digit(template@[j + 1]),
        decreases template@.len() - i,
    {
        if template[i] == '$' && template.len() - i > 1 && text::digit(template[i + 1]) {
            assert(template@[i as int] == '$');
            return true;
        }
        i += 1;
    }
    false
}

fn contains_file_reference(template: &Vec<char>) -> (result: bool)
    ensures
        result == has_file_reference(template@),
{
    let mut i: usize = 0;
    while i < template.len()
        invariant
            i <= template@.len(),
            forall|j: int|
                0 <= j < i && j < template@.len() - 1 && #[trigger] template@[j] == '@' && (j == 0
                    || text::is_white_space(template@[j - 1])) ==> text::is_white_space(
                    template@[j + 1],
                ),
        decreases template@.len() - i,
    {
        if template[i] == '@' && template.len() - i > 1 && (i == 0 || text::white_space(
            template[i - 1],
        )) && !text::white_space(template[i + 1]) {
            assert(template@[i as int] == '@');
            return true;
        }
        i += 1;
    }
    false
}

/// Whether the template uses something that a skill has no counterpart for.
pub fn has_unsupported_command_template_features(template: &str) -> (result: bool)
    ensures
        result == is_unsupported(template@),
{
    let chars = text::chars_of(template);
    text::contains_text(&chars, "$ARGUMENTS") || contains_numbered_argument_placeholder(&chars)
        || (text::contains_text(&chars, "{{") && text::contains_text(&chars, "}}"))
        || text::contains_text(&chars, "!`") || text::contains_text(&chars, "! `")
        || contains_file_reference(&chars)
}

/// The command has a description to speak of.
pub open spec fn is_described(document: ParsedModel) -> bool {
    document.description matches Some(description) && text::trim(description).len() > 0
}

/// The name of the skill that a command file becomes, where it can become one:
/// it is no README, it has a description, its name is short enough, and its
/// template uses nothing unsupported.
pub open spec fn supported_name(path: PathModel, document: ParsedModel) -> Option<Seq<char>> {
    if path.stem != Some("README"@) && is_described(document) && command_names::skill_name(
        path,
    ).len() <= MAX_SKILL_NAME_LEN && !is_unsupported(document.body) {
        Some(command_names::skill_name(path))
    } else {
        None
    }
}

/// The name of the skill that a command file becomes, where it can become one.
pub fn command_skill_name_if_supported(path: &CommandPath, document: &ParsedCommand) -> (result:
    Option<String>)
    ensures
        result.deep_view() == supported_name(path.deep_view(), document.deep_view()),
{
    let is_readme = match &path.stem {
        Some(stem) => text::same_text(stem.as_str(), "README"),
        None => false,
    };
    if is_readme {
        return None;
    }
    let described = match &document.description {
        Some(description) => {
            let kept = text::chars_of(text::trimmed(description.as_str()).as_str());
            kept.len() > 0
        },
        None => false,
    };
    if !described {
        return None;
    }
    let name = command_names::command_skill_name(path);
    let length = text::chars_of(name.as_str()).len();
    if length > MAX_SKILL_NAME_LEN || has_unsupported_command_template_features(
        document.body.as_str(),
    ) {
        return None;
    }
    Some(name)
}

/// A command file: where it stands below the folder of commands, and its text.
#[derive(Debug, PartialEq, Eq)]
pub struct CommandFile {
    pub path: CommandPath,
    pub content: String,
}

pub struct FileModel {
    pub path: PathModel,
    pub content: Seq<char>,
}

impl DeepView for CommandFile {
    type V = FileModel;

    open spec fn deep_view(&self) -> FileModel {
        FileModel { path: self.path.deep_view(), content: self.content@ }
    }
}

/// A command that can be migrated: the position of its file, and the name of its
/// skill.
#[derive(Debug, PartialEq, Eq)]
pub struct CommandSource {
    pub file: usize,
    pub name: String,
}

#[verifier::ext_equal]
pub struct SourceModel {
    pub file: int,
    pub name: Seq<char>,
}

impl DeepView for CommandSource {
    type V = SourceModel;

    open spec fn deep_view(&self) -> SourceModel {
        SourceModel { file: self.file as int, name: self.name@ }
    }
}

/// The file at position `i` becomes the skill `name`.
pub open spec fn is_source(names: Seq<Option<Seq<char>>>, name: Seq<char>, i: int) -> bool {
    0 <= i < names.len() && names[i] == Some(name)
}

/// Exactly one file becomes the skill `name`.
pub open spec fn has_one_source(names: Seq<Option<Seq<char>>>, name: Seq<char>) -> bool {
    &&& exists|i: int| is_source(names, name, i)
    &&& forall|i: int, j: int|
        #![trigger is_source(names, name, i), is_source(names, name, j)]
        is_source(names, name, i) && is_source(names, name, j) ==> i == j
}

pub open spec fn source_names(sources: Seq<SourceModel>) -> Seq<Seq<char>> {
    Seq::new(sources.len(), |k: int| sources[k].name)
}

/// `sources` lists, in the order of the names, every name that exactly one file
/// has, with that file.
pub open spec fn lists_sources(
    sources: Seq<SourceModel>,
    names: Seq<Option<Seq<char>>>,
) -> bool {
    &&& order::strictly_sorted::<String>(source_names(sources))
    &&& forall|name: Seq<char>| #[trigger]
        source_names(sources).contains(name) <==> has_one_source(names, name)
    &&& forall|k: int|
        0 <= k < sources.len() ==> is_source(
            names,
            (#[trigger] sources[k]).name,
            sources[k].file,
        )
}

/// The names that exactly one file has, in order, each with its file.
pub open spec fn sources_of(names: Seq<Option<Seq<char>>>) -> Seq<SourceModel> {
    choose|sources: Seq<SourceModel>| lists_sources(sources, names)
}

/// There is one such listing.
pub proof fn source_listing_is_unique(sources: Seq<SourceModel>, names: Seq<Option<Seq<char>>>)
    requires
        lists_sources(sources, names),
    ensures
        sources_of(names) == sources,
{
    let chosen = sources_of(names);
    assert(lists_sources(chosen, names));
    let a = source_names(chosen);
    let b = source_names(sources);
    assert forall|name: Seq<char>| #[trigger] a.contains(name) <==> b.contains(name) by {}
    order::listing_is_unique::<String>(a, b);
    assert(chosen =~= sources) by {
        assert(chosen.len() == a.len());
        assert(sources.len() == b.len());
        assert forall|k: int| 0 <= k < chosen.len() implies chosen[k] == sources[k] by {
            assert(a[k] == chosen[k].name);
            assert(b[k] == sources[k].name);
            assert(is_source(names, chosen[k].name, chosen[k].file));
            assert(is_source(names, sources[k].name, sources[k].file));
            assert(a.contains(a[k]));
            assert(has_one_source(names, a[k]));
        }
    }
}

fn count_sources(names: &Vec<Option<String>>, name: &str) -> (found: (usize, usize))
    ensures
        found.0 == 1 <==> has_one_source(names.deep_view(), name@),
        found.0 >= 1 ==> is_source(names.deep_view(), name@, found.1 as int),
{
    let ghost models = names.deep_view();
    let mut count: usize = 0;
    let mut at: usize = 0;
    let mut i: usize = 0;
    while i < names.len()
        invariant
            i <= names@.len(),
            models == names.deep_view(),
            count <= i,
            count >= 1 ==> at < i && is_source(models, name@, at as int),
            count == 0 ==> forall|j: int| 0 <= j < i ==> !is_source(models, name@, j),
            count == 1 ==> forall|j: int|
                0 <= j < i && is_source(models, name@, j) ==> j == at,
            count >= 2 ==> exists|j: int, k: int|
                j != k && is_source(models, name@, j) && is_source(models, name@, k),
        decreases names@.len() - i,
    {
        let same = match &names[i] {
            Some(other) => text::same_text(other.as_str(), name),
            None => false,
        };
        assert(models[i as int] == names@[i as int].deep_view());
        if same {
            assert(is_source(models, name@, i as int));
            if count >= 1 {
                assert(is_source(models, name@, at as int));
            }
            count += 1;
            at = i;
        }
        i += 1;
    }
    proof {
        if count == 0 {
            assert(!has_one_source(models, name@)) by {
                if has_one_source(models, name@) {
                    let j = choose|j: int| is_source(models, name@, j);
                    assert(is_source(models, name@, j));
                }
            }
        } else if count == 1 {
            assert(is_source(models, name@, at as int));
        }
    }
    (count, at)
}

/// The names that exactly one file has, in order, each with its file.
pub fn unique_sources(names: &Vec<Option<String>>) -> (sources: Vec<CommandSource>)
    ensures
        sources.deep_view() == sources_of(names.deep_view()),
        lists_sources(sources.deep_view(), names.deep_view()),
{
    let ghost models = names.deep_view();
    let mut single: Vec<String> = Vec::new();
    let mut i: usize = 0;
    while i < names.len()
        invariant
            i <= names@.len(),
            models == names.deep_view(),
            forall|k: int|
                0 <= k < single@.len() ==> has_one_source(models, #[trigger] single.deep_view()[k]),
            forall|j: int, name: Seq<char>|
                0 <= j < i && #[trigger] is_source(models, name, j) && has_one_source(models, name)
                    ==> single.deep_view().contains(name),
        decreases names@.len() - i,
    {
        let ghost before = single.deep_view();
        assert(models[i as int] == names@[i as int].deep_view());
        match &names[i] {
            Some(name) => {
                let (count, _at) = count_sources(names, name.as_str());
                if count == 1 {
                    single.push(name.clone());
                    assert(single.deep_view() =~= before.push(name@));
                    assert(single.deep_view()[before.len() as int] == name@);
                    assert forall|j: int, other: Seq<char>|
                        0 <= j < i + 1 && #[trigger] is_source(models, other, j) && has_one_source(
                            models,
                            other,
                        ) implies single.deep_view().contains(other) by {
                        if j < i {
                            assert(before.contains(other));
                            let k = choose|k: int| 0 <= k < before.len() && before[k] == other;
                            assert(single.deep_view()[k] == other);
                        }
                    }
                }
            },
            None => {},
        }
        i += 1;
    }
    let listing = order::sort_distinct(single);
    let ghost listed = listing.deep_view();
    assert forall|name: Seq<char>| #[trigger] listed.contains(name) <==> has_one_source(
        models,
        name,
    ) by {
        if listed.contains(name) {
            assert(single.deep_view().contains(name));
            let k = choose|k: int|
                0 <= k < single.deep_view().len() && single.deep_view()[k] == name;
            assert(has_one_source(models, single.deep_view()[k]));
        }
        if has_one_source(models, name) {
            let j = choose|j: int| is_source(models, name, j);
            assert(is_source(models, name, j));
            assert(single.deep_view().contains(name));
        }
    }
    let mut sources: Vec<CommandSource> = Vec::new();
    let mut k: usize = 0;
    while k < listing.len()
        invariant
            k <= listing@.len(),
            models == names.deep_view(),
            listed == listing.deep_view(),
            forall|name: Seq<char>| #[trigger]
                listed.contains(name) <==> has_one_source(models, name),
            sources@.len() == k,
            forall|j: int|
                0 <= j < k ==> (#[trigger] sources@[j]).name@ == listed[j] && is_source(
                    models,
                    listed[j],
                    sources@[j].file as int,
                ),
        decreases listing@.len() - k,
    {
        let name = &listing[k];
        assert(listed[k as int] == name@);
        assert(listed.contains(name@));
        let (_count, file) = count_sources(names, name.as_str());
        sources.push(CommandSource { file, name: name.clone() });
        k += 1;
    }
    proof {
        let all = sources.deep_view();
        assert(source_names(all) =~= listed);
        assert forall|j: int| 0 <= j < all.len() implies is_source(
            models,
            (#[trigger] all[j]).name,
            all[j].file,
        ) by {
            assert(sources@[j].name@ == listed[j]);
        }
        source_listing_is_unique(all, models);
    }
    sources
}

/// The name of the skill that each file becomes, where it can become one.
pub open spec fn supported_names(files: Seq<FileModel>) -> Seq<Option<Seq<char>>> {
    Seq::new(
        files.len(),
        |i: int|
            supported_name(files[i].path, command_document::parsed(files[i].content)),
    )
}

/// The commands in `files` that can be migrated. Of files that would become the
/// same skill none is.
pub fn unique_supported_command_sources(files: &Vec<CommandFile>) -> (sources: Vec<CommandSource>)
    ensures
        sources.deep_view() == sources_of(supported_names(files.deep_view())),
        lists_sources(sources.deep_view(), supported_names(files.deep_view())),
{
    let ghost models = files.deep_view();
    let mut names: Vec<Option<String>> = Vec::new();
    let mut i: usize = 0;
    while i < files.len()
        invariant
            i <= files@.len(),
            models == files.deep_view(),
            names@.len() == i,
            forall|j: int|
                0 <= j < i ==> (#[trigger] names@[j]).deep_view() == supported_name(
                    models[j].path,
                    command_document::parsed(models[j].content),
                ),
        decreases files@.len() - i,
    {
        let file = &files[i];
        assert(models[i as int] == file.deep_view());
        let document = command_document::parse_command_content(file.content.as_str());
        names.push(command_skill_name_if_supported(&file.path, &document));
        i += 1;
    }
    assert(names.deep_view() =~= supported_names(models));
    unique_sources(&names)
}

/// The names of `sources` that are not among `existing`, in order.
pub open spec fn missing(sources: Seq<SourceModel>, existing: Seq<Seq<char>>) -> Seq<Seq<char>>
    decreases sources.len(),
{
    if sources.len() == 0 {
        Seq::empty()
    } else {
        let front = missing(sources.drop_last(), existing);
        if existing.contains(sources.last().name) {
            front
        } else {
            front.push(sources.last().name)
        }
    }
}

/// The names of the skills that the commands in `files` would become and that
/// are not among `existing`.
pub open spec fn missing_in(files: Seq<FileModel>, existing: Seq<Seq<char>>) -> Seq<Seq<char>> {
    missing(sources_of(supported_names(files)), existing)
}

/// The names of the skills that the commands in `files` would become and that
/// are not among `existing`, the skills that are there already.
pub fn missing_command_names(files: &Vec<CommandFile>, existing: &Vec<String>) -> (names: Vec<
    String,
>)
    ensures
        names.deep_view() == missing_in(files.deep_view(), existing.deep_view()),
{
    let sources = unique_supported_command_sources(files);
    let ghost models = sources.deep_view();
    let ghost held = existing.deep_view();
    let mut names: Vec<String> = Vec::new();
    let mut i: usize = 0;
    assert(names.deep_view() =~= Seq::<Seq<char>>::empty());
    while i < sources.len()
        invariant
            i <= sources@.len(),
            models == sources.deep_view(),
            held == existing.deep_view(),
            names.deep_view() == missing(models.take(i as int), held),
        decreases sources@.len() - i,
    {
        let ghost before = names.deep_view();
        let name = &sources[i].name;
        assert(models.take(i + 1).drop_last() =~= models.take(i as int));
        assert(models[i as int].name == name@);
        if !text::lists_text(existing, name.as_str()) {
            names.push(name.clone());
            assert(names.deep_view() =~= before.push(name@));
        }
        i += 1;
    }
    assert(models.take(models.len() as int) =~= models);
    names
}

/// The number of skills that the commands in `files` would become and that are
/// not among `existing`.
pub fn count_missing_commands(files: &Vec<CommandFile>, existing: &Vec<String>) -> (count: usize)
    ensures
        count == missing_in(files.deep_view(), existing.deep_view()).len(),
{
    missing_command_names(files, existing).len()
}

/// `value` with a backslash before every backslash and double quote.
pub open spec fn escaped(value: Seq<char>) -> Seq<char>
    decreases value.len(),
{
    if value.len() == 0 {
        Seq::empty()
    } else {
        let front = escaped(value.drop_last());
        if value.last() == '\\' || value.last() == '"' {
            front.push('\\').push(value.last())
        } else {
            front.push(value.last())
        }
    }
}

/// `value` as a double-quoted YAML string.
pub open spec fn quoted(value: Seq<char>) -> Seq<char> {
    seq!['"'] + escaped(value) + seq!['"']
}

/// `value` as a double-quoted YAML string.
pub fn yaml_string(value: &str) -> (result: String)
    ensures
        result@ == quoted(value@),
{
    let chars = text::chars_of(value);
    let mut result = String::new();
    result.push('"');
    let mut i: usize = 0;
    assert(result@ =~= seq!['"'] + escaped(value@.take(0)));
    while i < chars.len()
        invariant
            i <= chars@.len(),
            chars@ == value@,
            result@ == seq!['"'] + escaped(value@.take(i as int)),
        decreases chars@.len() - i,
    {
        let ghost before = result@;
        let c = chars[i];
        assert(value@.take(i + 1).drop_last() =~= value@.take(i as int));
        if c == '\\' || c == '"' {
            result.push('\\');
        }
        result.push(c);
        assert(result@ =~= seq!['"'] + escaped(value@.take(i + 1)));
        i += 1;
    }
    assert(value@.take(value@.len() as int) =~= value@);
    result.push('"');
    assert(result@ =~= quoted(value@));
    result
}

/// The template in the skill.
pub open spec fn template_of(body: Seq<char>, agent: Seq<char>) -> Seq<char> {
    let kept = agent_terms::rewritten(text::trim(body), agent);
    if kept.len() == 0 {
        "No command template body was found."@
    } else {
        kept
    }
}

/// The skill that a command becomes.
pub open spec fn skill_text(
    body: Seq<char>,
    name: Seq<char>,
    description: Seq<char>,
    source_name: Seq<char>,
    agent: Seq<char>,
) -> Seq<char> {
    "---\nname: "@ + quoted(name) + "\ndescription: "@ + quoted(
        agent_terms::rewritten(description, agent),
    ) + "\n---\n\n# "@ + name
        + "\n\nUse this skill when the user asks to run the migrated source command `"@
        + source_name + "`.\n\n## Command Template\n\n"@ + template_of(body, agent) + "\n"@
}

/// Renders the skill that a command of the other agent becomes.
pub fn render_command_skill(
    body: &str,
    name: &str,
    description: &str,
    source_name: &str,
    agent: &AgentName,
) -> (result: String)
    ensures
        result@ == skill_text(body@, name@, description@, source_name@, agent@),
{
    let kept = agent_terms::rewrite_external_agent_terms(text::trimmed(body).as_str(), agent);
    let length = text::chars_of(kept.as_str()).len();
    let template = if length == 0 {
        "No command template body was found.".to_string()
    } else {
        kept
    };
    let quoted_name = yaml_string(name);
    let quoted_description = yaml_string(
        agent_terms::rewrite_external_agent_terms(description, agent).as_str(),
    );
    let mut result = "---\nname: ".to_string();
    result.append(quoted_name.as_str());
    result.append("\ndescription: ");
    result.append(quoted_description.as_str());
    result.append("\n---\n\n# ");
    result.append(name);
    result.append("\n\nUse this skill when the user asks to run the migrated source command `");
    result.append(source_name);
    result.append("`.\n\n## Command Template\n\n");
    result.append(template.as_str());
    result.append("\n");
    result
}

/// A skill to be written: its name, and the text of its `SKILL.md`.
#[derive(Debug, PartialEq, Eq)]
pub struct ImportedSkill {
    pub name: String,
    pub contents: String,
}

#[verifier::ext_equal]
pub struct SkillModel {
    pub name: Seq<char>,
    pub contents: Seq<char>,
}

impl DeepView for ImportedSkill {
    type V = SkillModel;

    open spec fn deep_view(&self) -> SkillModel {
        SkillModel { name: self.name@, contents: self.contents@ }
    }
}

/// The skill that the source becomes.
pub open spec fn skill_of(
    files: Seq<FileModel>,
    source: SourceModel,
    agent: Seq<char>,
) -> SkillModel {
    let file = files[source.file];
    let document = command_document::parsed(file.content);
    SkillModel {
        name: source.name,
        contents: skill_text(
            document.body,
            source.name,
            document.description->Some_0,
            command_names::source_name(file.path),
            agent,
        ),
    }
}

/// The skills that `sources` become, but for those that are there already.
pub open spec fn imports(
    files: Seq<FileModel>,
    sources: Seq<SourceModel>,
    existing: Seq<Seq<char>>,
    agent: Seq<char>,
) -> Seq<SkillModel>
    decreases sources.len(),
{
    if sources.len() == 0 {
        Seq::empty()
    } else {
        let front = imports(files, sources.drop_last(), existing, agent);
        if existing.contains(sources.last().name) {
            front
        } else {
            front.push(skill_of(files, sources.last(), agent))
        }
    }
}

/// The skills that the commands in `files` become, but for those that are there
/// already.
pub fn import_commands(
    files: &Vec<CommandFile>,
    existing: &Vec<String>,
    agent: &AgentName,
) -> (skills: Vec<ImportedSkill>)
    ensures
        skills.deep_view() == imports(
            files.deep_view(),
            sources_of(supported_names(files.deep_view())),
            existing.deep_view(),
            agent@,
        ),
{
    let sources = unique_supported_command_sources(files);
    let ghost models = sources.deep_view();
    let ghost held = existing.deep_view();
    let ghost all = files.deep_view();
    let mut skills: Vec<ImportedSkill> = Vec::new();
    let mut i: usize = 0;
    assert(skills.deep_view() =~= Seq::<SkillModel>::empty());
    while i < sources.len()
        invariant
            i <= sources@.len(),
            models == sources.deep_view(),
            held == existing.deep_view(),
            all == files.deep_view(),
            lists_sources(models, supported_names(all)),
            skills.deep_view() == imports(all, models.take(i as int), held, agent@),
        decreases sources@.len() - i,
    {
        let ghost before = skills.deep_view();
        let source = &sources[i];
        assert(models.take(i + 1).drop_last() =~= models.take(i as int));
        assert(models[i as int] == source.deep_view());
        assert(is_source(supported_names(all), models[i as int].name, models[i as int].file));
        if !text::lists_text(existing, source.name.as_str()) {
            let file = &files[source.file];
            assert(all[source.file as int] == file.deep_view());
            let document = command_document::parse_command_content(file.content.as_str());
            let source_name = command_names::command_source_name(&file.path);
            match &document.description {
                Some(description) => {
                    let contents = render_command_skill(
                        document.body.as_str(),
                        source.name.as_str(),
                        description.as_str(),
                        source_name.as_str(),
                        agent,
                    );
                    skills.push(ImportedSkill { name: source.name.clone(), contents });
                    assert(skills.deep_view() =~= before.push(
                        skill_of(all, models[i as int], agent@),
                    ));
                },
                None => {},
            }
        }
        i += 1;
    }
    assert(models.take(models.len() as int) =~= models);
    skills
}

proof fn lemma_missing(sources: Seq<SourceModel>, existing: Seq<Seq<char>>)
    ensures
        forall|name: Seq<char>| #[trigger]
            missing(sources, existing).contains(name) <==> source_names(sources).contains(name)
                && !existing.contains(name),
    decreases sources.len(),
{
    let all = missing(sources, existing);
    let names = source_names(sources);
    if sources.len() > 0 {
        let front = sources.drop_last();
        let some = missing(front, existing);
        lemma_missing(front, existing);
        let last = sources.last().name;
        assert forall|name: Seq<char>| #[trigger] all.contains(name) <==> names.contains(name)
            && !existing.contains(name) by {
            assert(names.contains(name) <==> source_names(front).contains(name) || name == last) by {
                if names.contains(name) {
                    let k = choose|k: int| 0 <= k < names.len() && names[k] == name;
                    if k < front.len() {
                        assert(source_names(front)[k] == name);
                    }
                }
                if source_names(front).contains(name) {
                    let k = choose|k: int|
                        0 <= k < source_names(front).len() && source_names(front)[k] == name;
                    assert(names[k] == name);
                }
                if name == last {
                    assert(names[names.len() - 1] == name);
                }
            }
            assert(some.contains(name) <==> source_names(front).contains(name)
                && !existing.contains(name));
            if !existing.contains(last) {
                assert(all == some.push(last));
                if all.contains(name) {
                    let k = choose|k: int| 0 <= k < all.len() && all[k] == name;
                    if k < some.len() {
                        assert(some[k] == name);
                    }
                }
                if some.contains(name) {
                    let k = choose|k: int| 0 <= k < some.len() && some[k] == name;
                    assert(all[k] == name);
                }
                if name == last {
                    assert(all[some.len() as int] == name);
                }
            }
        }
    } else {
        assert forall|name: Seq<char>| #[trigger] all.contains(name) <==> names.contains(name)
            && !existing.contains(name) by {}
    }
}

proof fn lemma_nothing_missing(sources: Seq<SourceModel>, existing: Seq<Seq<char>>)
    requires
        forall|k: int| 0 <= k < sources.len() ==> existing.contains((#[trigger] sources[k]).name),
    ensures
        missing(sources, existing) == Seq::<Seq<char>>::empty(),
        forall|files: Seq<FileModel>, agent: Seq<char>| #[trigger]
            imports(files, sources, existing, agent) == Seq::<SkillModel>::empty(),
    decreases sources.len(),
{
    if sources.len() > 0 {
        let front = sources.drop_last();
        assert forall|k: int| 0 <= k < front.len() implies existing.contains(
            (#[trigger] front[k]).name,
        ) by {
            assert(front[k] == sources[k]);
        }
        lemma_nothing_missing(front, existing);
        assert(existing.contains(sources[sources.len() - 1].name));
        assert forall|files: Seq<FileModel>, agent: Seq<char>| #[trigger]
            imports(files, sources, existing, agent) == Seq::<SkillModel>::empty() by {
            assert(imports(files, front, existing, agent) == Seq::<SkillModel>::empty());
        }
    }
}

/// The import writes exactly the skills that are missing, in the same order.
pub proof fn imports_are_what_is_missing(
    files: Seq<FileModel>,
    sources: Seq<SourceModel>,
    existing: Seq<Seq<char>>,
    agent: Seq<char>,
)
    ensures
        imports(files, sources, existing, agent).len() == missing(sources, existing).len(),
        forall|k: int|
            0 <= k < imports(files, sources, existing, agent).len() ==> (#[trigger] imports(
                files,
                sources,
                existing,
                agent,
            )[k]).name == missing(sources, existing)[k],
    decreases sources.len(),
{
    if sources.len() > 0 {
        imports_are_what_is_missing(files, sources.drop_last(), existing, agent);
    }
}

/// The import leaves the skills that are there alone, and every command that can be
/// migrated is a skill after it.
pub proof fn imports_spare_existing_skills(
    files: Seq<FileModel>,
    sources: Seq<SourceModel>,
    existing: Seq<Seq<char>>,
    agent: Seq<char>,
)
    ensures
        forall|k: int|
            0 <= k < imports(files, sources, existing, agent).len() ==> !existing.contains(
                (#[trigger] imports(files, sources, existing, agent)[k]).name,
            ),
        forall|j: int|
            0 <= j < sources.len() ==> existing.contains((#[trigger] sources[j]).name) || missing(
                sources,
                existing,
            ).contains(sources[j].name),
{
    imports_are_what_is_missing(files, sources, existing, agent);
    lemma_missing(sources, existing);
    let new = missing(sources, existing);
    assert forall|k: int|
        0 <= k < imports(files, sources, existing, agent).len() implies !existing.contains(
        (#[trigger] imports(files, sources, existing, agent)[k]).name,
    ) by {
        assert(new.contains(new[k]));
    }
    assert forall|j: int| 0 <= j < sources.len() implies existing.contains(
        (#[trigger] sources[j]).name,
    ) || new.contains(sources[j].name) by {
        assert(source_names(sources)[j] == sources[j].name);
        assert(source_names(sources).contains(sources[j].name));
    }
}

/// Once the missing skills were imported, none is missing, and importing again
/// writes nothing.
pub proof fn nothing_is_missing_after_import(
    files: Seq<FileModel>,
    existing: Seq<Seq<char>>,
    agent: Seq<char>,
)
    ensures
        ({
            let held = existing + missing_in(files, existing);
            &&& missing_in(files, held) == Seq::<Seq<char>>::empty()
            &&& imports(files, sources_of(supported_names(files)), held, agent)
                == Seq::<SkillModel>::empty()
        }),
{
    let sources = sources_of(supported_names(files));
    let new = missing(sources, existing);
    let held = existing + new;
    lemma_missing(sources, existing);
    assert forall|k: int| 0 <= k < sources.len() implies held.contains(
        (#[trigger] sources[k]).name,
    ) by {
        let name = sources[k].name;
        assert(source_names(sources)[k] == name);
        assert(source_names(sources).contains(name));
        if existing.contains(name) {
            let j = choose|j: int| 0 <= j < existing.len() && existing[j] == name;
            assert(held[j] == name);
        } else {
            assert(new.contains(name));
            let j = choose|j: int| 0 <= j < new.len() && new[j] == name;
            assert(held[existing.len() + j] == name);
        }
    }
    lemma_nothing_missing(sources, held);
    assert(imports(files, sources, held, agent) == Seq::<SkillModel>::empty());
}

proof fn lemma_one_occurrence(names: Seq<Option<Seq<char>>>, name: Seq<char>)
    ensures
        names.to_multiset().count(Some(name)) == 1 <==> has_one_source(names, name),
    decreases names.len(),
{
    broadcast use vstd::seq_lib::group_to_multiset_ensures;

    if names.len() == 0 {
        if has_one_source(names, name) {
            let i = choose|i: int| is_source(names, name, i);
            assert(is_source(names, name, i));
        }
        if names.to_multiset().count(Some(name)) >= 1 {
            assert(names.contains(Some(name)));
        }
    } else {
        let front = names.drop_last();
        let last = names.last();
        lemma_one_occurrence(front, name);
        assert(names =~= front.push(last));
        assert(names.to_multiset() =~= front.to_multiset().insert(last));
        let end = names.len() - 1;
        if last == Some(name) {
            assert(is_source(names, name, end));
            if front.contains(Some(name)) {
                let k = choose|k: int| 0 <= k < front.len() && front[k] == Some(name);
                assert(is_source(names, name, k));
                assert(front.to_multiset().count(Some(name)) >= 1);
            } else {
                assert(front.to_multiset().count(Some(name)) == 0);
                assert forall|i: int, j: int|
                    #![trigger is_source(names, name, i), is_source(names, name, j)]
                    is_source(names, name, i) && is_source(names, name, j) implies i == j by {
                    if i < end {
                        assert(front[i] == Some(name));
                        assert(front.contains(Some(name)));
                    }
                    if j < end {
                        assert(front[j] == Some(name));
                        assert(front.contains(Some(name)));
                    }
                }
            }
        } else {
            assert forall|i: int| #[trigger] is_source(names, name, i) <==> is_source(
                front,
                name,
                i,
            ) by {}
            if has_one_source(front, name) {
                let i = choose|i: int| is_source(front, name, i);
                assert(is_source(names, name, i));
            }
            if has_one_source(names, name) {
                let i = choose|i: int| is_source(names, name, i);
                assert(is_source(front, name, i));
                assert forall|j: int, k: int|
                    #![trigger is_source(front, name, j), is_source(front, name, k)]
                    is_source(front, name, j) && is_source(front, name, k) implies j == k by {
                    assert(is_source(names, name, j));
                    assert(is_source(names, name, k));
                }
            }
        }
    }
}

/// Every command that is migrated becomes a skill whose name is a slug of at most
/// 64 characters, which is `source-command` or begins with it and goes on with a
/// dash.
pub proof fn migrated_names_are_short_slugs(path: PathModel, document: ParsedModel)
    ensures
        supported_name(path, document) matches Some(name) ==> {
            &&& command_names::is_slug(name)
            &&& name.len() <= 64
            &&& name.take("source-command"@.len() as int) == "source-command"@
            &&& name.len() > "source-command"@.len() ==> name["source-command"@.len() as int]
                == '-'
        },
{
    command_names::skill_names_are_prefixed(path);
}

/// Which skills the commands become does not depend on the order of the files.
pub proof fn skills_do_not_depend_on_file_order(
    names: Seq<Option<Seq<char>>>,
    reordered: Seq<Option<Seq<char>>>,
    sources: Seq<SourceModel>,
    others: Seq<SourceModel>,
)
    requires
        names.to_multiset() == reordered.to_multiset(),
        lists_sources(sources, names),
        lists_sources(others, reordered),
    ensures
        source_names(sources) == source_names(others),
{
    let a = source_names(sources);
    let b = source_names(others);
    assert forall|name: Seq<char>| #[trigger] a.contains(name) <==> b.contains(name) by {
        lemma_one_occurrence(names, name);
        lemma_one_occurrence(reordered, name);
    }
    order::listing_is_unique::<String>(a, b);
}

/// Values that are quoted alike are the same.
pub proof fn quoting_loses_nothing(a: Seq<char>, b: Seq<char>)
    requires
        quoted(a) == quoted(b),
    ensures
        a == b,
{
    let x = quoted(a);
    let y = quoted(b);
    assert(escaped(a) =~= x.subrange(1, x.len() - 1));
    assert(escaped(b) =~= y.subrange(1, y.len() - 1));
    lemma_escaping_loses_nothing(a, b);
}

proof fn lemma_escaping_loses_nothing(a: Seq<char>, b: Seq<char>)
    requires
        escaped(a) == escaped(b),
    ensures
        a == b,
    decreases a.len(),
{
    if a.len() == 0 || b.len() == 0 {
        if a.len() > 0 {
            assert(escaped(a).len() > 0);
        }
        if b.len() > 0 {
            assert(escaped(b).len() > 0);
        }
        assert(a =~= b);
    } else {
        let x = escaped(a.drop_last());
        let y = escaped(b.drop_last());
        assert(escaped(a).last() == a.last());
        assert(escaped(b).last() == b.last());
        let c = a.last();
        if c == '\\' || c == '"' {
            assert(x =~= escaped(a).take(escaped(a).len() - 2));
            assert(y =~= escaped(b).take(escaped(b).len() - 2));
        } else {
            assert(x =~= escaped(a).drop_last());
            assert(y =~= escaped(b).drop_last());
        }
        lemma_escaping_loses_nothing(a.drop_last(), b.drop_last());
        assert(a =~= a.drop_last().push(c));
        assert(b =~= b.drop_last().push(c));
    }
}

}
