//! Command files: YAML front matter and the template that follows it.

use serde_yaml::Value;
use vstd::prelude::*;
use vstd::string::*;
use crate::text;

verus! {

/// A YAML value, as far as a description can be one. A number is its text.
#[derive(Debug, PartialEq, Eq)]
pub enum YamlNode {
    Null,
    Bool(bool),
    Number(String),
    Text(String),
    Sequence,
    Mapping,
    Tagged,
}

pub enum NodeModel {
    Null,
    Bool(bool),
    Number(Seq<char>),
    Text(Seq<char>),
    Sequence,
    Mapping,
    Tagged,
}

impl DeepView for YamlNode {
    type V = NodeModel;

    open spec fn deep_view(&self) -> NodeModel {
        match self {
            YamlNode::Null => NodeModel::Null,
            YamlNode::Bool(value) => NodeModel::Bool(*value),
            YamlNode::Number(value) => NodeModel::Number(value@),
            YamlNode::Text(value) => NodeModel::Text(value@),
            YamlNode::Sequence => NodeModel::Sequence,
            YamlNode::Mapping => NodeModel::Mapping,
            YamlNode::Tagged => NodeModel::Tagged,
        }
    }
}

/// One entry of a YAML mapping. A key that is no text is `None`.
#[derive(Debug, PartialEq, Eq)]
pub struct YamlEntry {
    pub key: Option<String>,
    pub value: YamlNode,
}

pub struct EntryModel {
    pub key: Option<Seq<char>>,
    pub value: NodeModel,
}

impl DeepView for YamlEntry {
    type V = EntryModel;

    open spec fn deep_view(&self) -> EntryModel {
        EntryModel { key: self.key.deep_view(), value: self.value.deep_view() }
    }
}

/// The entries, in order, of the mapping that `raw` is in YAML. Nothing where
/// `raw` is no YAML, or no mapping.
pub uninterp spec fn yaml_mapping(raw: Seq<char>) -> Option<Seq<EntryModel>>;

/// Calls `serde_yaml::from_str` for a `Value`, and `as_mapping` on what it gives.
/// The claim is that the outcome depends on the text alone: `yaml_mapping` names
/// it. Of every entry the key is what `as_str` gives, and the value is told by its
/// variant, a number by the text that it is displayed as.
#[verifier::external_body]
fn parse_yaml_mapping(raw: &str) -> (entries: Option<Vec<YamlEntry>>)
    ensures
        entries.deep_view() == yaml_mapping(raw@),
{
    let parsed: Value = serde_yaml::from_str(raw).ok()?;
    let entries = parsed.as_mapping()?.iter();
    Some(entries.map(|(key, value)| YamlEntry {
        key: key.as_str().map(str::to_string),
        value: match value {
            Value::Null => YamlNode::Null,
            Value::Bool(flag) => YamlNode::Bool(*flag),
            Value::Number(number) => YamlNode::Number(number.to_string()),
            Value::String(text) => YamlNode::Text(text.clone()),
            Value::Sequence(_) => YamlNode::Sequence,
            Value::Mapping(_) => YamlNode::Mapping,
            Value::Tagged(_) => YamlNode::Tagged,
        },
    }).collect())
}

/// The text of a YAML value, where it is a string, a flag or a number.
pub open spec fn scalar_text(value: NodeModel) -> Option<Seq<char>> {
    match value {
        NodeModel::Text(text) => Some(text::trim(text)),
        NodeModel::Bool(flag) => Some(
            if flag {
                "true"@
            } else {
                "false"@
            },
        ),
        NodeModel::Number(number) => Some(number),
        _ => None,
    }
}

/// The entry gives a description.
pub open spec fn gives_description(entry: EntryModel) -> bool {
    &&& entry.key matches Some(key) && text::trim(key) == "description"@
    &&& scalar_text(entry.value) is Some
}

/// The description that the first entry of those that give one gives.
pub open spec fn first_description(entries: Seq<EntryModel>) -> Option<Seq<char>>
    decreases entries.len(),
{
    if entries.len() == 0 {
        None
    } else if gives_description(entries[0]) {
        scalar_text(entries[0].value)
    } else {
        first_description(entries.drop_first())
    }
}

/// The description in the front matter `raw`.
pub open spec fn description_in(raw: Seq<char>) -> Option<Seq<char>> {
    match yaml_mapping(raw) {
        Some(entries) => first_description(entries),
        None => None,
    }
}

/// The text of a YAML value, where it is a string, a flag or a number.
pub fn yaml_scalar(value: &YamlNode) -> (text: Option<String>)
    ensures
        text.deep_view() == scalar_text(value.deep_view()),
{
    match value {
        YamlNode::Text(text) => Some(text::trimmed(text.as_str())),
        YamlNode::Bool(flag) => Some(
            if *flag {
                "true".to_string()
            } else {
                "false".to_string()
            },
        ),
        YamlNode::Number(number) => Some(number.clone()),
        YamlNode::Null | YamlNode::Sequence | YamlNode::Mapping | YamlNode::Tagged => None,
    }
}

/// The description that the first entry of those that give one gives.
pub fn description_of_entries(entries: &Vec<YamlEntry>) -> (description: Option<String>)
    ensures
        description.deep_view() == first_description(entries.deep_view()),
{
    let ghost models = entries.deep_view();
    let mut i: usize = 0;
    assert(models.skip(0) =~= models);
    while i < entries.len()
        invariant
            i <= entries@.len(),
            models == entries.deep_view(),
            first_description(models) == first_description(models.skip(i as int)),
        decreases entries@.len() - i,
    {
        let entry = &entries[i];
        let ghost rest = models.skip(i as int);
        assert(rest[0] == entry.deep_view());
        assert(rest.drop_first() =~= models.skip(i + 1));
        let named = match &entry.key {
            Some(key) => text::same_text(text::trimmed(key.as_str()).as_str(), "description"),
            None => false,
        };
        if named {
            let text = yaml_scalar(&entry.value);
            if text.is_some() {
                return text;
            }
        }
        i += 1;
    }
    None
}

/// The description in the front matter `raw_frontmatter`.
pub fn parse_command_description(raw_frontmatter: &str) -> (description: Option<String>)
    ensures
        description.deep_view() == description_in(raw_frontmatter@),
{
    match parse_yaml_mapping(raw_frontmatter) {
        Some(entries) => description_of_entries(&entries),
        None => None,
    }
}

/// The length of the delimiter that closes the front matter at position `at`,
/// zero where none does. A line break behind the dashes belongs to it.
pub open spec fn delimiter_width(s: Seq<char>, at: int) -> nat {
    if text::occurs_at(s, "\r\n---\r\n"@, at) {
        7
    } else if text::occurs_at(s, "\r\n---\n"@, at) {
        6
    } else if text::occurs_at(s, "\n---\r\n"@, at) {
        6
    } else if text::occurs_at(s, "\n---\n"@, at) {
        5
    } else if text::occurs_at(s, "\r\n---"@, at) {
        5
    } else if text::occurs_at(s, "\n---"@, at) {
        4
    } else {
        0
    }
}

/// The first position, from `at` on, at which the front matter is closed.
pub open spec fn close_from(s: Seq<char>, at: int) -> Option<int>
    decreases s.len() - at,
{
    if at < 0 || at >= s.len() {
        None
    } else if delimiter_width(s, at) > 0 {
        Some(at)
    } else {
        close_from(s, at + 1)
    }
}

/// Where the front matter `rest` ends, and where the body begins.
pub open spec fn frontmatter_close(rest: Seq<char>) -> Option<(int, int)> {
    match close_from(rest, 0) {
        Some(end) => Some((end, end + delimiter_width(rest, end))),
        None => None,
    }
}

fn close_width(chars: &Vec<char>, at: usize) -> (width: usize)
    ensures
        width == delimiter_width(chars@, at as int),
{
    if text::find_at(chars, &text::chars_of("\r\n---\r\n"), at) {
        7
    } else if text::find_at(chars, &text::chars_of("\r\n---\n"), at) {
        6
    } else if text::find_at(chars, &text::chars_of("\n---\r\n"), at) {
        6
    } else if text::find_at(chars, &text::chars_of("\n---\n"), at) {
        5
    } else if text::find_at(chars, &text::chars_of("\r\n---"), at) {
        5
    } else if text::find_at(chars, &text::chars_of("\n---"), at) {
        4
    } else {
        0
    }
}

proof fn lemma_delimiter_fits(s: Seq<char>, at: int)
    ensures
        delimiter_width(s, at) > 0 ==> at + delimiter_width(s, at) <= s.len(),
{
    reveal_strlit("\r\n---\r\n");
    reveal_strlit("\r\n---\n");
    reveal_strlit("\n---\r\n");
    reveal_strlit("\n---\n");
    reveal_strlit("\r\n---");
    reveal_strlit("\n---");
}

/// Where the front matter in `rest` ends, and where the body begins, counted in
/// characters.
pub fn frontmatter_end(rest: &Vec<char>) -> (found: Option<(usize, usize)>)
    ensures
        match found {
            Some((end, start)) => frontmatter_close(rest@) == Some((end as int, start as int))
                && end <= start <= rest@.len(),
            None => frontmatter_close(rest@) is None,
        },
{
    let mut at: usize = 0;
    while at < rest.len()
        invariant
            at <= rest@.len(),
            close_from(rest@, 0) == close_from(rest@, at as int),
        decreases rest@.len() - at,
    {
        let width = close_width(rest, at);
        if width > 0 {
            let size = rest.len();
            proof {
                lemma_delimiter_fits(rest@, at as int);
                assert(at + width <= size);
            }
            return Some((at, at + width));
        }
        at += 1;
    }
    None
}

/// A command file, taken apart.
#[derive(Debug, PartialEq, Eq)]
pub struct ParsedCommand {
    pub description: Option<String>,
    pub body: String,
}

pub struct ParsedModel {
    pub description: Option<Seq<char>>,
    pub body: Seq<char>,
}

impl DeepView for ParsedCommand {
    type V = ParsedModel;

    open spec fn deep_view(&self) -> ParsedModel {
        ParsedModel { description: self.description.deep_view(), body: self.body@ }
    }
}

/// The length of the line that opens the front matter, zero where there is none.
pub open spec fn opening_width(content: Seq<char>) -> nat {
    if text::occurs_at(content, "---\n"@, 0) {
        4
    } else if text::occurs_at(content, "---\r\n"@, 0) {
        5
    } else {
        0
    }
}

/// The positions at which the front matter begins and ends, and at which the
/// body begins. Nothing where `content` has no closed front matter.
pub open spec fn front_matter(content: Seq<char>) -> Option<(int, int, int)> {
    let width = opening_width(content) as int;
    if width == 0 {
        None
    } else {
        match frontmatter_close(content.skip(width)) {
            Some((end, start)) => Some((width, width + end, width + start)),
            None => None,
        }
    }
}

/// The parts of `content`. A file without front matter is all body.
pub open spec fn parsed(content: Seq<char>) -> ParsedModel {
    match front_matter(content) {
        Some((begin, end, start)) => ParsedModel {
            description: description_in(content.subrange(begin, end)),
            body: content.skip(start),
        },
        None => ParsedModel { description: None, body: content },
    }
}

/// Takes a command file apart.
pub fn parse_command_content(content: &str) -> (document: ParsedCommand)
    ensures
        document.deep_view() == parsed(content@),
{
    proof {
        reveal_strlit("---\n");
        reveal_strlit("---\r\n");
    }
    let chars = text::chars_of(content);
    let count: usize = chars.len();
    let width: usize = if text::find_at(&chars, &text::chars_of("---\n"), 0) {
        4
    } else if text::find_at(&chars, &text::chars_of("---\r\n"), 0) {
        5
    } else {
        0
    };
    assert(content@.subrange(0, count as int) =~= content@);
    if width == 0 {
        return ParsedCommand { description: None, body: text::string_of(&chars, 0, count) };
    }
    let opened = text::string_of(&chars, width, count);
    assert(opened@ =~= content@.skip(width as int));
    let rest = text::chars_of(opened.as_str());
    match frontmatter_end(&rest) {
        Some((end, start)) => {
            let size: usize = rest.len();
            let raw = text::string_of(&rest, 0, end);
            let body = text::string_of(&rest, start, size);
            assert(raw@ =~= content@.subrange(width as int, width + end));
            assert(body@ =~= content@.skip(width + start));
            ParsedCommand { description: parse_command_description(raw.as_str()), body }
        },
        None => ParsedCommand { description: None, body: text::string_of(&chars, 0, count) },
    }
}

proof fn lemma_close_from(s: Seq<char>, at: int)
    requires
        0 <= at,
    ensures
        match close_from(s, at) {
            Some(end) => at <= end < s.len() && delimiter_width(s, end) > 0 && forall|i: int|
                at <= i < end ==> #[trigger] delimiter_width(s, i) == 0,
            None => forall|i: int| at <= i < s.len() ==> #[trigger] delimiter_width(s, i) == 0,
        },
    decreases s.len() - at,
{
    if at < s.len() && delimiter_width(s, at) == 0 {
        lemma_close_from(s, at + 1);
    }
}

/// The front matter ends at the first line break with three dashes behind it.
pub proof fn front_matter_ends_at_the_first_delimiter(rest: Seq<char>)
    ensures
        match frontmatter_close(rest) {
            Some((end, start)) => {
                &&& 0 <= end < start <= rest.len()
                &&& text::occurs_at(rest, "\n---"@, end) || text::occurs_at(
                    rest,
                    "\r\n---"@,
                    end,
                )
                &&& forall|i: int|
                    0 <= i < end ==> !(#[trigger] text::occurs_at(rest, "\n---"@, i))
                &&& forall|i: int|
                    0 <= i < end ==> !(#[trigger] text::occurs_at(rest, "\r\n---"@, i))
            },
            None => !text::contains(rest, "\n---"@),
        },
{
    reveal_strlit("\r\n---\r\n");
    reveal_strlit("\r\n---\n");
    reveal_strlit("\n---\r\n");
    reveal_strlit("\n---\n");
    reveal_strlit("\r\n---");
    reveal_strlit("\n---");
    lemma_close_from(rest, 0);
    match close_from(rest, 0) {
        Some(end) => {
            lemma_delimiter_fits(rest, end);
            lemma_delimiter_begins(rest, end);
            assert forall|i: int| 0 <= i < end implies !(#[trigger] text::occurs_at(
                rest,
                "\n---"@,
                i,
            )) by {
                assert(delimiter_width(rest, i) == 0);
            }
            assert forall|i: int| 0 <= i < end implies !(#[trigger] text::occurs_at(
                rest,
                "\r\n---"@,
                i,
            )) by {
                assert(delimiter_width(rest, i) == 0);
            }
        },
        None => {
            assert forall|i: int| !(#[trigger] text::occurs_at(rest, "\n---"@, i)) by {
                if text::occurs_at(rest, "\n---"@, i) {
                    assert(delimiter_width(rest, i) == 0);
                }
            }
        },
    }
}

proof fn lemma_shorter_occurs(s: Seq<char>, long: Seq<char>, short: Seq<char>, at: int)
    requires
        text::occurs_at(s, long, at),
        short.len() <= long.len(),
        long.take(short.len() as int) == short,
    ensures
        text::occurs_at(s, short, at),
{
    let found = s.subrange(at, at + long.len());
    assert(s.subrange(at, at + short.len()) =~= found.take(short.len() as int));
}

proof fn lemma_delimiter_begins(s: Seq<char>, at: int)
    requires
        delimiter_width(s, at) > 0,
    ensures
        text::occurs_at(s, "\n---"@, at) || text::occurs_at(s, "\r\n---"@, at),
{
    reveal_strlit("\r\n---\r\n");
    reveal_strlit("\r\n---\n");
    reveal_strlit("\n---\r\n");
    reveal_strlit("\n---\n");
    reveal_strlit("\r\n---");
    reveal_strlit("\n---");
    assert("\r\n---\r\n"@.take(5) =~= "\r\n---"@);
    assert("\r\n---\n"@.take(5) =~= "\r\n---"@);
    assert("\n---\r\n"@.take(4) =~= "\n---"@);
    assert("\n---\n"@.take(4) =~= "\n---"@);
    if text::occurs_at(s, "\r\n---\r\n"@, at) {
        lemma_shorter_occurs(s, "\r\n---\r\n"@, "\r\n---"@, at);
    } else if text::occurs_at(s, "\r\n---\n"@, at) {
        lemma_shorter_occurs(s, "\r\n---\n"@, "\r\n---"@, at);
    } else if text::occurs_at(s, "\n---\r\n"@, at) {
        lemma_shorter_occurs(s, "\n---\r\n"@, "\n---"@, at);
    } else if text::occurs_at(s, "\n---\n"@, at) {
        lemma_shorter_occurs(s, "\n---\n"@, "\n---"@, at);
    }
}

/// Taking a file apart loses nothing of it: the body is its end, and before the
/// body stand the opening line, the front matter and the delimiter, in this
/// order.
pub proof fn parsing_keeps_the_content(content: Seq<char>)
    ensures
        match front_matter(content) {
            Some((begin, end, start)) => {
                &&& 0 < begin <= end < start <= content.len()
                &&& content == content.take(begin) + content.subrange(begin, end)
                    + content.subrange(end, start) + parsed(content).body
            },
            None => parsed(content).body == content && parsed(content).description is None,
        },
{
    let width = opening_width(content) as int;
    reveal_strlit("---\n");
    reveal_strlit("---\r\n");
    if width > 0 {
        let rest = content.skip(width);
        lemma_close_from(rest, 0);
        match close_from(rest, 0) {
            Some(end) => {
                lemma_delimiter_fits(rest, end);
                let begin = width;
                let stop = width + end;
                let start = stop + delimiter_width(rest, end);
                assert(content =~= content.take(begin) + content.subrange(begin, stop)
                    + content.subrange(stop, start) + content.skip(start));
            },
            None => {},
        }
    }
}

}
