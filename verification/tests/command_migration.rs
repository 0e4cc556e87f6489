use codex_connector_core::agent_terms::{
    replace_case_insensitive_with_boundaries, rewrite_external_agent_terms, AgentName,
};
use codex_connector_core::command_document::{
    description_of_entries, frontmatter_end, parse_command_content, parse_command_description,
    yaml_scalar, YamlEntry, YamlNode,
};
use codex_connector_core::command_migration::{
    contains_numbered_argument_placeholder, count_missing_commands,
    has_unsupported_command_template_features, import_commands, missing_command_names,
    render_command_skill, unique_supported_command_sources, walk_action, yaml_string, CommandFile,
    WalkAction,
};
use codex_connector_core::command_names::{
    command_skill_name, command_source_name, slugify_name, CommandPath,
};

fn path(folders: &[&str], stem: &str) -> CommandPath {
    CommandPath {
        folders: folders.iter().map(|name| Some(name.to_string())).collect(),
        stem: Some(stem.to_string()),
    }
}

fn file(folders: &[&str], stem: &str, content: &str) -> CommandFile {
    CommandFile { path: path(folders, stem), content: content.to_string() }
}

fn agent() -> AgentName {
    AgentName::new("gemini").expect("a usable name")
}

fn chars(text: &str) -> Vec<char> {
    text.chars().collect()
}

#[test]
fn slugs_are_lower_case_words_with_single_dashes() {
    assert_eq!(slugify_name("Source Command/Review__PR"), "source-command-review-pr");
    assert_eq!(slugify_name("--a--b--"), "a-b");
    assert_eq!(slugify_name("\u{e9}!?"), "migrated");
    assert_eq!(slugify_name(""), "migrated");
    let once = slugify_name("Fix  The\tBug #12");
    assert_eq!(once, "fix-the-bug-12");
    assert_eq!(slugify_name(&once), once);
}

#[test]
fn command_names_come_from_the_path() {
    assert_eq!(command_source_name(&path(&["git", "hub"], "pr.review")), "git-hub-pr.review");
    assert_eq!(command_skill_name(&path(&["git"], "PR")), "source-command-git-pr");
    let unreadable = CommandPath {
        folders: vec![None, Some("b".to_string())],
        stem: None,
    };
    assert_eq!(command_source_name(&unreadable), "b");
    assert_eq!(command_source_name(&path(&["a"], ".")), "a");
    assert_eq!(command_source_name(&path(&[], ".")), ".");
    assert_eq!(command_source_name(&path(&["a"], "..")), "a-..");
}

#[test]
fn front_matter_is_taken_off() {
    let parsed = parse_command_content("---\ndescription: Review it\n---\nBody\n");
    assert_eq!(parsed.description, Some("Review it".to_string()));
    assert_eq!(parsed.body, "Body\n");
    let windows = parse_command_content("---\r\ndescription: Review it\r\n---\r\nBody");
    assert_eq!(windows.description, Some("Review it".to_string()));
    assert_eq!(windows.body, "Body");
    let open = parse_command_content("---\ndescription: Review it\n");
    assert_eq!(open.description, None);
    assert_eq!(open.body, "---\ndescription: Review it\n");
    let plain = parse_command_content("Body\n---\n");
    assert_eq!(plain.description, None);
    assert_eq!(plain.body, "Body\n---\n");
}

#[test]
fn front_matter_ends_at_the_first_delimiter() {
    assert_eq!(frontmatter_end(&chars("a: b\n---\nx\n---\n")), Some((4, 9)));
    assert_eq!(frontmatter_end(&chars("a: b\r\n---\r\nx")), Some((4, 11)));
    assert_eq!(frontmatter_end(&chars("a: b\r\n---\nx")), Some((4, 10)));
    assert_eq!(frontmatter_end(&chars("a: b\n---\r\nx")), Some((4, 10)));
    assert_eq!(frontmatter_end(&chars("a: b\n---more")), Some((4, 8)));
    assert_eq!(frontmatter_end(&chars("a: b\r\n---more")), Some((4, 9)));
    assert_eq!(frontmatter_end(&chars("---")), None);
}

#[test]
fn descriptions_are_yaml_scalars() {
    assert_eq!(
        parse_command_description("name: x\n\" description \": '  padded  '"),
        Some("padded".to_string())
    );
    assert_eq!(parse_command_description("description: true"), Some("true".to_string()));
    assert_eq!(parse_command_description("description: 42"), Some("42".to_string()));
    assert_eq!(parse_command_description("description: 1.5"), Some("1.5".to_string()));
    assert_eq!(parse_command_description("description:"), None);
    assert_eq!(parse_command_description("description: [a]"), None);
    assert_eq!(parse_command_description("description: {a: b}"), None);
    assert_eq!(parse_command_description("description: !tag text"), None);
    assert_eq!(parse_command_description("- description"), None);
    assert_eq!(parse_command_description("description: ["), None);
    assert_eq!(
        parse_command_description("1: x\n? [a]\n: y\ndescription: found"),
        Some("found".to_string())
    );
    assert_eq!(
        parse_command_description("description: [a]\n\"description \": second"),
        Some("second".to_string())
    );
}

#[test]
fn the_first_entry_with_a_description_counts() {
    let entry = |key: Option<&str>, value: YamlNode| YamlEntry {
        key: key.map(str::to_string),
        value,
    };
    let entries = vec![
        entry(None, YamlNode::Text("no".to_string())),
        entry(Some("description"), YamlNode::Null),
        entry(Some(" description\n"), YamlNode::Text(" yes ".to_string())),
        entry(Some("description"), YamlNode::Bool(true)),
    ];
    assert_eq!(description_of_entries(&entries), Some("yes".to_string()));
    assert_eq!(yaml_scalar(&YamlNode::Bool(false)), Some("false".to_string()));
    assert_eq!(yaml_scalar(&YamlNode::Number("7".to_string())), Some("7".to_string()));
    assert_eq!(yaml_scalar(&YamlNode::Sequence), None);
    assert_eq!(yaml_scalar(&YamlNode::Mapping), None);
    assert_eq!(yaml_scalar(&YamlNode::Tagged), None);
}

#[test]
fn templates_with_unsupported_features_are_found() {
    for template in [
        "use $ARGUMENTS here",
        "first $1",
        "a {{b}} c",
        "run !`ls`",
        "run ! `ls`",
        "see @src/lib.rs",
        "@file",
    ] {
        assert!(has_unsupported_command_template_features(template), "{template}");
    }
    for template in ["plain", "cost $ 5", "mail me@example.org", "a @ b", "{{ only", "only }}", "@"] {
        assert!(!has_unsupported_command_template_features(template), "{template}");
    }
    assert!(contains_numbered_argument_placeholder(&chars("x$9")));
    assert!(!contains_numbered_argument_placeholder(&chars("x$")));
}

#[test]
fn agent_terms_are_rewritten() {
    let agent = agent();
    let rewrite = |text: &str| rewrite_external_agent_terms(text, &agent);
    assert_eq!(
        rewrite("Ask Gemini Code about GEMINI.md, gemini-code and gemini."),
        "Ask Codex about AGENTS.md, Codex and Codex."
    );
    assert_eq!(rewrite("gemini_code geminicode"), "Codex Codex");
    assert_eq!(rewrite("geminis pregemini gemini2"), "geminis pregemini gemini2");
    assert_eq!(rewrite("\u{e9}gemini\u{e9}"), "\u{e9}Codex\u{e9}");
    let once = rewrite("gemini gemini codex gemini_code");
    assert_eq!(once, "Codex Codex codex Codex");
    assert_eq!(rewrite(&once), once);
    assert_eq!(replace_case_insensitive_with_boundaries("abc", "", "x"), "abc");
    assert_eq!(replace_case_insensitive_with_boundaries("A a ba", "a", "x"), "x x ba");
}

#[test]
fn agent_names_are_plain_words() {
    assert_eq!(AgentName::new("gemini").map(|agent| agent.as_str().to_string()), Some("gemini".to_string()));
    assert!(AgentName::new("clover").is_some());
    for name in ["", "Gemini", "gem ini", "codex", "ana", "edge"] {
        assert!(AgentName::new(name).is_none(), "{name}");
    }
}

#[test]
fn skills_are_rendered() {
    assert_eq!(
        render_command_skill(
            "  Do it with Gemini.\n",
            "source-command-x",
            "Say \"hi\" \\o",
            "x",
            &agent()
        ),
        "---\nname: \"source-command-x\"\ndescription: \"Say \\\"hi\\\" \\\\o\"\n---\n\n# source-command-x\n\nUse this skill when the user asks to run the migrated source command `x`.\n\n## Command Template\n\nDo it with Codex.\n"
    );
    assert!(render_command_skill(" \n", "n", "d", "s", &agent())
        .ends_with("\n\nNo command template body was found.\n"));
    assert_eq!(yaml_string("a\"b\\c"), "\"a\\\"b\\\\c\"");
}

#[test]
fn missing_commands_are_named_in_order() {
    let described = "---\ndescription: D\n---\nBody";
    let files = vec![
        file(&["z"], "last", described),
        file(&[], "first", described),
        file(&[], "README", described),
        file(&[], "bare", "Body"),
        file(&[], "blank", "---\ndescription: '  '\n---\nBody"),
        file(&[], "args", "---\ndescription: D\n---\n$ARGUMENTS"),
        file(&[], "same name", described),
        file(&[], "same-name", described),
        file(&[], &"long".repeat(20), described),
    ];
    let none: Vec<String> = Vec::new();
    let names = vec!["source-command-first".to_string(), "source-command-z-last".to_string()];
    assert_eq!(missing_command_names(&files, &none), names);
    assert_eq!(count_missing_commands(&files, &none), 2);
    let held = vec!["source-command-first".to_string()];
    assert_eq!(missing_command_names(&files, &held), names[1..].to_vec());
    assert_eq!(count_missing_commands(&files, &names), 0);
    let sources = unique_supported_command_sources(&files);
    assert_eq!(sources[0].file, 1);
    assert_eq!(sources[1].file, 0);
}

#[test]
fn imports_write_what_is_missing_and_then_nothing() {
    let files = vec![
        file(&[], "b", "---\ndescription: Second\n---\nRun gemini"),
        file(&[], "a", "---\ndescription: First\n---\n"),
    ];
    let none: Vec<String> = Vec::new();
    let skills = import_commands(&files, &none, &agent());
    let names: Vec<String> = skills.iter().map(|skill| skill.name.clone()).collect();
    assert_eq!(names, missing_command_names(&files, &none));
    assert_eq!(names, vec!["source-command-a".to_string(), "source-command-b".to_string()]);
    assert_eq!(
        skills[1].contents,
        render_command_skill("Run gemini", "source-command-b", "Second", "b", &agent())
    );
    assert!(import_commands(&files, &names, &agent()).is_empty());
}

#[test]
fn the_order_of_the_files_does_not_matter() {
    let described = "---\ndescription: D\n---\nBody";
    let forward = vec![file(&[], "a", described), file(&[], "b", described), file(&[], "a ", described)];
    let backward = vec![file(&[], "a ", described), file(&[], "b", described), file(&[], "a", described)];
    let none: Vec<String> = Vec::new();
    assert_eq!(missing_command_names(&forward, &none), missing_command_names(&backward, &none));
    assert_eq!(missing_command_names(&forward, &none), vec!["source-command-b".to_string()]);
}

#[test]
fn walks_collect_markdown_files() {
    assert_eq!(walk_action(true, false, Some("md")), WalkAction::Descend);
    assert_eq!(walk_action(false, true, Some("md")), WalkAction::Collect);
    assert_eq!(walk_action(false, true, Some("MD")), WalkAction::Skip);
    assert_eq!(walk_action(false, true, None), WalkAction::Skip);
    assert_eq!(walk_action(false, false, Some("md")), WalkAction::Skip);
}
