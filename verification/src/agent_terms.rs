//! Rewriting the name of another agent in migrated text.

use vstd::prelude::*;
use vstd::string::*;
use crate::text;

verus! {

/// No word character stands before position `at`.
pub open spec fn boundary_before(s: Seq<char>, at: int) -> bool {
    at == 0 || !text::is_word(s[at - 1])
}

/// No word character stands at position `at`.
pub open spec fn boundary_after(s: Seq<char>, at: int) -> bool {
    at == s.len() || !text::is_word(s[at])
}

/// `needle` stands in `s` at position `at`, in upper or lower case, and is no
/// part of a longer word.
pub open spec fn is_mention(s: Seq<char>, needle: Seq<char>, at: int) -> bool {
    &&& text::occurs_at(text::lower_all(s), text::lower_all(needle), at)
    &&& boundary_before(s, at)
    &&& boundary_after(s, at + needle.len())
}

/// `needle` is mentioned in `s`.
pub open spec fn mentions(s: Seq<char>, needle: Seq<char>) -> bool {
    exists|at: int| #[trigger] is_mention(s, needle, at)
}

/// No two mentions share a character.
pub open spec fn mentions_apart(s: Seq<char>, needle: Seq<char>) -> bool {
    forall|i: int, j: int|
        #![trigger is_mention(s, needle, i), is_mention(s, needle, j)]
        is_mention(s, needle, i) && is_mention(s, needle, j) && i < j ==> i + needle.len() <= j
}

/// `s` from position `at` on, with every mention replaced.
pub open spec fn replaced_from(
    s: Seq<char>,
    needle: Seq<char>,
    replacement: Seq<char>,
    at: int,
) -> Seq<char>
    decreases s.len() - at,
{
    if at < 0 || at >= s.len() || needle.len() == 0 {
        Seq::empty()
    } else if is_mention(s, needle, at) {
        replacement + replaced_from(s, needle, replacement, at + needle.len())
    } else {
        seq![s[at]] + replaced_from(s, needle, replacement, at + 1)
    }
}

/// `s` with every mention of `needle` replaced.
pub open spec fn replaced(s: Seq<char>, needle: Seq<char>, replacement: Seq<char>) -> Seq<char> {
    if needle.len() == 0 {
        s
    } else {
        replaced_from(s, needle, replacement, 0)
    }
}

fn word_char(c: char) -> (result: bool)
    ensures
        result == text::is_word(c),
{
    text::alphanumeric(c) || c == '_'
}

fn lower_chars(chars: &Vec<char>) -> (result: Vec<char>)
    ensures
        result@ == text::lower_all(chars@),
{
    let mut result: Vec<char> = Vec::new();
    let mut i: usize = 0;
    while i < chars.len()
        invariant
            i <= chars@.len(),
            result@.len() == i,
            forall|j: int| 0 <= j < i ==> #[trigger] result@[j] == text::lower(chars@[j]),
        decreases chars@.len() - i,
    {
        result.push(text::to_lower(chars[i]));
        i += 1;
    }
    assert(result@ =~= text::lower_all(chars@));
    result
}

/// `input` with every mention of `needle` replaced. Mentions that share a
/// character cannot both be replaced, so there must be none, and a needle that
/// occurs at all must begin with an ASCII character.
pub fn replace_case_insensitive_with_boundaries(
    input: &str,
    needle: &str,
    replacement: &str,
) -> (output: String)
    requires
        mentions_apart(input@, needle@),
        needle@.len() > 0 ==> needle@[0] < '\u{80}' || !text::contains(
            text::lower_all(input@),
            text::lower_all(needle@),
        ),
    ensures
        output@ == replaced(input@, needle@, replacement@),
{
    let chars = text::chars_of(input);
    let wanted = lower_chars(&text::chars_of(needle));
    let count: usize = chars.len();
    let width: usize = wanted.len();
    if width == 0 {
        return text::string_of(&chars, 0, count);
    }
    let lowered = lower_chars(&chars);
    let mut output = String::new();
    let mut at: usize = 0;
    let ghost goal = replaced(input@, needle@, replacement@);
    assert(output@ + replaced_from(input@, needle@, replacement@, 0) =~= goal);
    while at < count
        invariant
            at <= count,
            count == chars.len(),
            chars@ == input@,
            lowered@ == text::lower_all(input@),
            wanted@ == text::lower_all(needle@),
            width == wanted@.len(),
            width == needle@.len(),
            width > 0,
            output@ + replaced_from(input@, needle@, replacement@, at as int) == goal,
        decreases count - at,
    {
        let ghost emitted = output@;
        let ghost tail = replaced_from(input@, needle@, replacement@, at as int);
        let mut mention = false;
        if text::find_at(&lowered, &wanted, at) {
            assert(at + width <= lowered@.len());
            assert(lowered@.len() == count);
            let before = at == 0 || !word_char(chars[at - 1]);
            let after = at + width == count || !word_char(chars[at + width]);
            mention = before && after;
        }
        assert(mention == is_mention(input@, needle@, at as int));
        if mention {
            output.append(replacement);
            at += width;
            assert(output@ + replaced_from(input@, needle@, replacement@, at as int)
                =~= emitted + tail);
        } else {
            output.push(chars[at]);
            assert(output@ + replaced_from(input@, needle@, replacement@, at + 1) =~= emitted
                + tail);
            at += 1;
        }
    }
    assert(output@ =~= goal);
    output
}

/// The occurrences of a needle that no proper end of it begins do not share a
/// character.
pub open spec fn has_no_border(needle: Seq<char>) -> bool {
    forall|shift: int|
        0 < shift < needle.len() ==> #[trigger] needle.skip(shift) != needle.take(
            needle.len() - shift,
        )
}

pub proof fn no_border_keeps_apart(s: Seq<char>, needle: Seq<char>)
    requires
        has_no_border(text::lower_all(needle)),
    ensures
        mentions_apart(s, needle),
{
    let word = text::lower_all(needle);
    let line = text::lower_all(s);
    assert forall|i: int, j: int|
        #![trigger is_mention(s, needle, i), is_mention(s, needle, j)]
        is_mention(s, needle, i) && is_mention(s, needle, j) && i < j implies i + needle.len()
        <= j by {
        if j < i + needle.len() {
            let shift = j - i;
            let first = line.subrange(i, i + word.len());
            let second = line.subrange(j, j + word.len());
            assert(word.skip(shift) =~= word.take(word.len() - shift)) by {
                assert forall|k: int| 0 <= k < word.len() - shift implies word[shift + k]
                    == #[trigger] word[k] by {
                    assert(first[shift + k] == line[j + k]);
                    assert(second[k] == line[j + k]);
                }
            }
        }
    }
}

/// Where nothing is mentioned, nothing is replaced.
pub proof fn replacing_nothing(s: Seq<char>, needle: Seq<char>, replacement: Seq<char>)
    requires
        !mentions(s, needle),
    ensures
        replaced(s, needle, replacement) == s,
{
    if needle.len() > 0 {
        lemma_replacing_nothing_from(s, needle, replacement, 0);
        assert(s.skip(0) =~= s);
    }
}

proof fn lemma_replacing_nothing_from(
    s: Seq<char>,
    needle: Seq<char>,
    replacement: Seq<char>,
    at: int,
)
    requires
        !mentions(s, needle),
        needle.len() > 0,
        0 <= at <= s.len(),
    ensures
        replaced_from(s, needle, replacement, at) == s.skip(at),
    decreases s.len() - at,
{
    if at < s.len() {
        lemma_replacing_nothing_from(s, needle, replacement, at + 1);
        assert(seq![s[at]] + s.skip(at + 1) =~= s.skip(at));
    } else {
        assert(s.skip(at) =~= Seq::empty());
    }
}

/// A replacement that cannot be part of a mention of `word`: it is made of word
/// characters, and its last one does not occur in `word`.
pub open spec fn stands_apart(replacement: Seq<char>, word: Seq<char>) -> bool {
    &&& replacement.len() > 0
    &&& forall|i: int| 0 <= i < replacement.len() ==> text::is_word(#[trigger] replacement[i])
    &&& forall|i: int|
        0 <= i < word.len() ==> text::lower(#[trigger] word[i]) != text::lower(replacement.last())
}

spec fn prefix_with_boundary(s: Seq<char>, at: int, word: Seq<char>) -> bool {
    &&& text::occurs_at(text::lower_all(s), text::lower_all(word), at)
    &&& boundary_after(s, at + word.len())
}

proof fn lemma_prefix_untouched(
    s: Seq<char>,
    needle: Seq<char>,
    replacement: Seq<char>,
    at: int,
    word: Seq<char>,
)
    requires
        needle.len() > 0,
        0 <= at <= s.len(),
        stands_apart(replacement, word),
        prefix_with_boundary(replaced_from(s, needle, replacement, at), 0, word),
    ensures
        prefix_with_boundary(s, at, word),
        word.len() > 0 ==> !is_mention(s, needle, at),
    decreases s.len() - at,
{
    let out = replaced_from(s, needle, replacement, at);
    let line = text::lower_all(out);
    let wanted = text::lower_all(word);
    let source = text::lower_all(s);
    let head = line.subrange(0, wanted.len() as int);
    if at == s.len() {
        assert(out.len() == 0);
        assert(source.subrange(at, at + wanted.len()) =~= wanted);
    } else if is_mention(s, needle, at) {
        let tail = replaced_from(s, needle, replacement, at + needle.len());
        assert(out == replacement + tail);
        if word.len() < replacement.len() {
            assert(out[word.len() as int] == replacement[word.len() as int]);
        } else {
            let last = replacement.len() - 1;
            assert(out[last] == replacement[last]);
            assert(head[last] == line[last]);
            assert(head[last] == wanted[last]);
            assert(text::lower(word[last]) == text::lower(replacement.last()));
        }
        assert(false);
    } else {
        let tail = replaced_from(s, needle, replacement, at + 1);
        assert(out == seq![s[at]] + tail);
        assert(out[0] == s[at]);
        if word.len() == 0 {
            assert(source.subrange(at, at + wanted.len()) =~= wanted);
        } else {
            let rest = word.drop_first();
            let rest_wanted = text::lower_all(rest);
            let tail_line = text::lower_all(tail);
            assert(tail_line.subrange(0, rest_wanted.len() as int) =~= rest_wanted) by {
                assert forall|k: int| 0 <= k < rest_wanted.len() implies tail_line[k]
                    == #[trigger] rest_wanted[k] by {
                    assert(out[k + 1] == tail[k]);
                    assert(head[k + 1] == line[k + 1]);
                    assert(head[k + 1] == wanted[k + 1]);
                    assert(rest[k] == word[k + 1]);
                }
            }
            if word.len() < out.len() {
                assert(out[word.len() as int] == tail[rest.len() as int]);
            }
            assert(stands_apart(replacement, rest)) by {
                assert forall|i: int| 0 <= i < rest.len() implies text::lower(#[trigger] rest[i])
                    != text::lower(replacement.last()) by {
                    assert(rest[i] == word[i + 1]);
                }
            }
            lemma_prefix_untouched(s, needle, replacement, at + 1, rest);
            assert(source.subrange(at, at + wanted.len()) =~= wanted) by {
                let found = source.subrange(at + 1, at + 1 + rest_wanted.len());
                assert forall|k: int| 0 <= k < wanted.len() implies source[at + k]
                    == #[trigger] wanted[k] by {
                    if k == 0 {
                        assert(head[0] == line[0]);
                        assert(head[0] == wanted[0]);
                    } else {
                        assert(found[k - 1] == rest_wanted[k - 1]);
                        assert(rest[k - 1] == word[k]);
                    }
                }
            }
        }
    }
}

proof fn lemma_mention_untouched(
    s: Seq<char>,
    needle: Seq<char>,
    replacement: Seq<char>,
    at: int,
    word: Seq<char>,
    place: int,
) -> (q: int)
    requires
        needle.len() > 0,
        word.len() > 0,
        0 <= at <= s.len(),
        place > 0,
        stands_apart(replacement, word),
        is_mention(replaced_from(s, needle, replacement, at), word, place),
    ensures
        at < q,
        prefix_with_boundary(s, q, word),
        boundary_before(s, q),
        !is_mention(s, needle, q),
    decreases s.len() - at,
{
    let out = replaced_from(s, needle, replacement, at);
    let line = text::lower_all(out);
    let wanted = text::lower_all(word);
    let here = line.subrange(place, place + wanted.len());
    if at == s.len() {
        assert(out.len() == 0);
        assert(false);
        at
    } else if is_mention(s, needle, at) {
        let next = at + needle.len();
        let tail = replaced_from(s, needle, replacement, next);
        let tail_line = text::lower_all(tail);
        assert(out == replacement + tail);
        let size = replacement.len();
        if place < size {
            if place + word.len() < size {
                assert(out[place + word.len()] == replacement[place + word.len()]);
            } else {
                let k = size - 1 - place;
                assert(out[size - 1] == replacement[size - 1]);
                assert(here[k] == line[size - 1]);
                assert(here[k] == wanted[k]);
                assert(text::lower(word[k]) == text::lower(replacement.last()));
            }
            assert(false);
        }
        if place == size {
            assert(out[place - 1] == replacement[size - 1]);
            assert(false);
        }
        let inner = place - size;
        assert(tail_line.subrange(inner, inner + wanted.len()) =~= wanted) by {
            assert forall|k: int| 0 <= k < wanted.len() implies tail_line[inner + k]
                == #[trigger] wanted[k] by {
                assert(out[place + k] == tail[inner + k]);
                assert(here[k] == line[place + k]);
            }
        }
        assert(out[place - 1] == tail[inner - 1]);
        if place + word.len() < out.len() {
            assert(out[place + word.len()] == tail[inner + word.len()]);
        }
        lemma_mention_untouched(s, needle, replacement, next, word, inner)
    } else {
        let tail = replaced_from(s, needle, replacement, at + 1);
        let tail_line = text::lower_all(tail);
        assert(out == seq![s[at]] + tail);
        let inner = place - 1;
        assert(tail_line.subrange(inner, inner + wanted.len()) =~= wanted) by {
            assert forall|k: int| 0 <= k < wanted.len() implies tail_line[inner + k]
                == #[trigger] wanted[k] by {
                assert(out[place + k] == tail[inner + k]);
                assert(here[k] == line[place + k]);
            }
        }
        if place + word.len() < out.len() {
            assert(out[place + word.len()] == tail[inner + word.len()]);
        }
        if inner == 0 {
            assert(out[0] == s[at]);
            lemma_prefix_untouched(s, needle, replacement, at + 1, word);
            at + 1
        } else {
            assert(out[place - 1] == tail[inner - 1]);
            lemma_mention_untouched(s, needle, replacement, at + 1, word, inner)
        }
    }
}

/// Replacing the mentions of `needle` brings no mention of `word` in, and leaves
/// none where `word` is the needle itself.
pub proof fn replacing_brings_nothing_in(
    s: Seq<char>,
    needle: Seq<char>,
    replacement: Seq<char>,
    word: Seq<char>,
)
    requires
        needle.len() > 0,
        word.len() > 0,
        stands_apart(replacement, word),
        word == needle || !mentions(s, word),
    ensures
        !mentions(replaced(s, needle, replacement), word),
{
    let out = replaced(s, needle, replacement);
    if mentions(out, word) {
        let place = choose|place: int| #[trigger] is_mention(out, word, place);
        let q = if place == 0 {
            lemma_prefix_untouched(s, needle, replacement, 0, word);
            0
        } else {
            lemma_mention_untouched(s, needle, replacement, 0, word, place)
        };
        assert(is_mention(s, word, q));
        assert(false);
    }
}

/// `agent` with `ending` behind it names something of the agent that can be told
/// apart in any text.
pub open spec fn is_term(agent: Seq<char>, ending: Seq<char>) -> bool {
    has_no_border(text::lower_all(agent + ending))
}

/// `agent` can stand for an agent: it is made of lower-case ASCII letters, none of
/// them an `x`, and no end of a term made of it begins the term.
pub open spec fn is_agent_name(agent: Seq<char>) -> bool {
    &&& agent.len() > 0
    &&& forall|i: int|
        0 <= i < agent.len() ==> text::is_ascii_lower(#[trigger] agent[i]) && agent[i] != 'x'
    &&& is_term(agent, ".md"@)
    &&& is_term(agent, " code"@)
    &&& is_term(agent, "-code"@)
    &&& is_term(agent, "_code"@)
    &&& is_term(agent, "code"@)
    &&& is_term(agent, ""@)
}

/// The name of another agent.
pub struct AgentName {
    name: String,
}

impl View for AgentName {
    type V = Seq<char>;

    closed spec fn view(&self) -> Seq<char> {
        self.name@
    }
}

impl AgentName {
    #[verifier::type_invariant]
    spec fn is_usable(&self) -> bool {
        is_agent_name(self.name@)
    }

    /// The name, where it can stand for an agent.
    pub fn new(name: &str) -> (result: Option<Self>)
        ensures
            result is Some <==> is_agent_name(name@),
            result matches Some(agent) ==> agent@ == name@,
    {
        let chars = text::chars_of(name);
        if chars.len() == 0 {
            return None;
        }
        let mut i: usize = 0;
        while i < chars.len()
            invariant
                i <= chars@.len(),
                chars@ == name@,
                forall|j: int|
                    0 <= j < i ==> text::is_ascii_lower(#[trigger] chars@[j]) && chars@[j] != 'x',
            decreases chars@.len() - i,
        {
            let c = chars[i];
            if !('a' <= c && c <= 'z') || c == 'x' {
                assert(!(text::is_ascii_lower(name@[i as int]) && name@[i as int] != 'x'));
                return None;
            }
            i += 1;
        }
        if makes_term(name, ".md") && makes_term(name, " code") && makes_term(name, "-code")
            && makes_term(name, "_code") && makes_term(name, "code") && makes_term(name, "") {
            Some(AgentName { name: name.to_string() })
        } else {
            None
        }
    }

    pub fn as_str(&self) -> (name: &str)
        ensures
            name@ == self@,
            is_agent_name(self@),
    {
        proof {
            use_type_invariant(self);
        }
        self.name.as_str()
    }
}

/// The letters that `word` begins with do not follow each other again in it, and
/// its last letter is not the first of them.
pub open spec fn has_singular_start(word: Seq<char>) -> bool {
    &&& word.len() > 1
    &&& word.last() != word[0]
    &&& forall|i: int|
        0 < i < word.len() - 1 && #[trigger] word[i] == word[0] ==> word[i + 1] != word[1]
}

proof fn lemma_singular_start(word: Seq<char>)
    requires
        has_singular_start(word),
    ensures
        has_no_border(word),
{
    assert forall|shift: int| 0 < shift < word.len() implies #[trigger] word.skip(shift)
        != word.take(word.len() - shift) by {
        let end = word.skip(shift);
        let start = word.take(word.len() - shift);
        if end == start {
            assert(end[0] == word[shift]);
            assert(start[0] == word[0]);
            assert(end[1] == word[shift + 1]);
            assert(start[1] == word[1]);
        }
    }
}

proof fn lemma_singular_term(agent: Seq<char>, ending: Seq<char>)
    requires
        has_singular_start(agent),
        forall|i: int| 0 <= i < agent.len() ==> text::is_ascii_lower(#[trigger] agent[i]),
        forall|i: int| 0 <= i < ending.len() ==> !text::is_ascii_upper(#[trigger] ending[i]),
        ending.len() > 0 ==> ending.last() != agent[0],
        forall|i: int|
            0 <= i < ending.len() - 1 && #[trigger] ending[i] == agent[0] ==> ending[i + 1]
                != agent[1],
    ensures
        is_term(agent, ending),
{
    let word = agent + ending;
    let lowered = text::lower_all(word);
    assert(lowered =~= word) by {
        assert forall|i: int| 0 <= i < word.len() implies lowered[i] == word[i] by {
            if i < agent.len() {
                assert(text::is_ascii_lower(agent[i]));
            } else {
                assert(!text::is_ascii_upper(ending[i - agent.len()]));
            }
        }
    }
    if ending.len() > 0 {
        assert(word.last() == ending.last());
    } else {
        assert(word =~= agent);
    }
    assert forall|i: int| 0 < i < word.len() - 1 && #[trigger] word[i] == word[0] implies word[i
        + 1] != word[1] by {
        if i < agent.len() - 1 {
            assert(agent[i] == agent[0]);
        } else if i >= agent.len() {
            assert(ending[i - agent.len()] == agent[0]);
        }
    }
    lemma_singular_start(word);
}

/// A name of lower-case letters without an `x` can stand for an agent where its
/// first two letters do not follow each other again in it, nor in what is put
/// behind it, and no term ends with its first letter.
pub proof fn names_with_a_singular_start_are_usable(agent: Seq<char>)
    requires
        has_singular_start(agent),
        forall|i: int|
            0 <= i < agent.len() ==> text::is_ascii_lower(#[trigger] agent[i]) && agent[i] != 'x',
        agent[0] != 'd',
        agent[0] != 'e',
        !(agent[0] == 'm' && agent[1] == 'd'),
        !(agent[0] == 'c' && agent[1] == 'o'),
        !(agent[0] == 'o' && agent[1] == 'd'),
    ensures
        is_agent_name(agent),
{
    reveal_strlit(".md");
    reveal_strlit(" code");
    reveal_strlit("-code");
    reveal_strlit("_code");
    reveal_strlit("code");
    reveal_strlit("");
    lemma_singular_term(agent, ".md"@);
    lemma_singular_term(agent, " code"@);
    lemma_singular_term(agent, "-code"@);
    lemma_singular_term(agent, "_code"@);
    lemma_singular_term(agent, "code"@);
    lemma_singular_term(agent, ""@);
}

fn term(agent: &str, ending: &str) -> (result: String)
    ensures
        result@ == agent@ + ending@,
{
    let mut result = agent.to_string();
    result.append(ending);
    result
}

fn makes_term(agent: &str, ending: &str) -> (result: bool)
    ensures
        result == is_term(agent@, ending@),
{
    let word = lower_chars(&text::chars_of(term(agent, ending).as_str()));
    let ghost goal = text::lower_all(agent@ + ending@);
    let count: usize = word.len();
    let mut shift: usize = 1;
    while shift < count
        invariant
            1 <= shift,
            count == word@.len(),
            word@ == goal,
            goal == text::lower_all(agent@ + ending@),
            forall|d: int|
                0 < d < shift && d < goal.len() ==> #[trigger] goal.skip(d) != goal.take(
                    goal.len() - d,
                ),
        decreases count - shift,
    {
        let mut same = true;
        let mut k: usize = 0;
        let ghost end = goal.skip(shift as int);
        let ghost start = goal.take(goal.len() - shift);
        while k < count - shift
            invariant
                0 < shift < count,
                count == word@.len(),
                word@ == goal,
                k <= count - shift,
                end == goal.skip(shift as int),
                start == goal.take(goal.len() - shift),
                same == forall|j: int| 0 <= j < k ==> end[j] == start[j],
            decreases count - shift - k,
        {
            assert(end[k as int] == goal[shift + k]);
            assert(start[k as int] == goal[k as int]);
            if word[shift + k] != word[k] {
                same = false;
            }
            k += 1;
        }
        if same {
            assert(end =~= start);
            assert(!has_no_border(goal));
            return false;
        }
        assert(end != start);
        shift += 1;
    }
    true
}

/// `content` with the terms that name the agent replaced one after the other.
pub open spec fn rewritten(content: Seq<char>, agent: Seq<char>) -> Seq<char> {
    let manual = replaced(content, agent + ".md"@, "AGENTS.md"@);
    let spaced = replaced(manual, agent + " code"@, "Codex"@);
    let dashed = replaced(spaced, agent + "-code"@, "Codex"@);
    let joined = replaced(dashed, agent + "_code"@, "Codex"@);
    let fused = replaced(joined, agent + "code"@, "Codex"@);
    replaced(fused, agent, "Codex"@)
}

proof fn lemma_bare_term(agent: Seq<char>)
    ensures
        agent + ""@ == agent,
{
    reveal_strlit("");
    assert(agent + ""@ =~= agent);
}

/// `content` with every mention of the agent replaced.
pub fn rewrite_external_agent_terms(content: &str, agent: &AgentName) -> (result: String)
    ensures
        result@ == rewritten(content@, agent@),
{
    let name = agent.as_str();
    proof {
        let manual = replaced(content@, name@ + ".md"@, "AGENTS.md"@);
        let spaced = replaced(manual, name@ + " code"@, "Codex"@);
        let dashed = replaced(spaced, name@ + "-code"@, "Codex"@);
        let joined = replaced(dashed, name@ + "_code"@, "Codex"@);
        let fused = replaced(joined, name@ + "code"@, "Codex"@);
        lemma_bare_term(name@);
        assert(text::is_ascii_lower(name@[0]));
        no_border_keeps_apart(content@, name@ + ".md"@);
        no_border_keeps_apart(manual, name@ + " code"@);
        no_border_keeps_apart(spaced, name@ + "-code"@);
        no_border_keeps_apart(dashed, name@ + "_code"@);
        no_border_keeps_apart(joined, name@ + "code"@);
        no_border_keeps_apart(fused, name@);
    }
    let manual = replace_case_insensitive_with_boundaries(
        content,
        term(name, ".md").as_str(),
        "AGENTS.md",
    );
    let spaced = replace_case_insensitive_with_boundaries(
        manual.as_str(),
        term(name, " code").as_str(),
        "Codex",
    );
    let dashed = replace_case_insensitive_with_boundaries(
        spaced.as_str(),
        term(name, "-code").as_str(),
        "Codex",
    );
    let joined = replace_case_insensitive_with_boundaries(
        dashed.as_str(),
        term(name, "_code").as_str(),
        "Codex",
    );
    let fused = replace_case_insensitive_with_boundaries(
        joined.as_str(),
        term(name, "code").as_str(),
        "Codex",
    );
    replace_case_insensitive_with_boundaries(fused.as_str(), name, "Codex")
}

proof fn lemma_codex_stands_apart(agent: Seq<char>)
    requires
        is_agent_name(agent),
    ensures
        stands_apart("Codex"@, agent + "_code"@),
        stands_apart("Codex"@, agent + "code"@),
        stands_apart("Codex"@, agent),
{
    reveal_strlit("Codex");
    reveal_strlit("_code");
    reveal_strlit("code");
    assert forall|i: int| 0 <= i < agent.len() implies text::lower(#[trigger] agent[i]) != 'x' by {
        assert(text::is_ascii_lower(agent[i]));
    }
    let joined = agent + "_code"@;
    assert forall|i: int| 0 <= i < joined.len() implies text::lower(#[trigger] joined[i])
        != 'x' by {
        if i < agent.len() {
            assert(joined[i] == agent[i]);
        }
    }
    let fused = agent + "code"@;
    assert forall|i: int| 0 <= i < fused.len() implies text::lower(#[trigger] fused[i]) != 'x' by {
        if i < agent.len() {
            assert(fused[i] == agent[i]);
        }
    }
}

proof fn lemma_shorter_mention(s: Seq<char>, long: Seq<char>, short: Seq<char>)
    requires
        short.len() < long.len(),
        long.take(short.len() as int) == short,
        !text::is_word(long[short.len() as int]),
        !text::is_ascii_upper(long[short.len() as int]),
        mentions(s, long),
    ensures
        mentions(s, short),
{
    let at = choose|at: int| #[trigger] is_mention(s, long, at);
    let line = text::lower_all(s);
    let found = line.subrange(at, at + long.len());
    let wanted = text::lower_all(long);
    let part = text::lower_all(short);
    assert(line.subrange(at, at + part.len()) =~= part) by {
        assert forall|k: int| 0 <= k < part.len() implies line[at + k] == #[trigger] part[k] by {
            assert(found[k] == wanted[k]);
            assert(long.take(short.len() as int)[k] == long[k]);
        }
    }
    let next = at + short.len();
    assert(found[short.len() as int] == wanted[short.len() as int]);
    assert(text::lower(s[next]) == text::lower(long[short.len() as int]));
    assert(!text::is_word(s[next]));
    assert(is_mention(s, short, at));
}

/// After the rewriting no term that names the agent is mentioned.
pub proof fn no_agent_term_remains(content: Seq<char>, agent: Seq<char>)
    requires
        is_agent_name(agent),
    ensures
        !mentions(rewritten(content, agent), agent),
        !mentions(rewritten(content, agent), agent + ".md"@),
        !mentions(rewritten(content, agent), agent + " code"@),
        !mentions(rewritten(content, agent), agent + "-code"@),
        !mentions(rewritten(content, agent), agent + "_code"@),
        !mentions(rewritten(content, agent), agent + "code"@),
{
    reveal_strlit(".md");
    reveal_strlit(" code");
    reveal_strlit("-code");
    lemma_codex_stands_apart(agent);
    let manual = replaced(content, agent + ".md"@, "AGENTS.md"@);
    let spaced = replaced(manual, agent + " code"@, "Codex"@);
    let dashed = replaced(spaced, agent + "-code"@, "Codex"@);
    let joined = replaced(dashed, agent + "_code"@, "Codex"@);
    let fused = replaced(joined, agent + "code"@, "Codex"@);
    let end = rewritten(content, agent);
    replacing_brings_nothing_in(dashed, agent + "_code"@, "Codex"@, agent + "_code"@);
    replacing_brings_nothing_in(joined, agent + "code"@, "Codex"@, agent + "_code"@);
    replacing_brings_nothing_in(fused, agent, "Codex"@, agent + "_code"@);
    replacing_brings_nothing_in(joined, agent + "code"@, "Codex"@, agent + "code"@);
    replacing_brings_nothing_in(fused, agent, "Codex"@, agent + "code"@);
    replacing_brings_nothing_in(fused, agent, "Codex"@, agent);
    let size = agent.len() as int;
    assert((agent + ".md"@).take(size) =~= agent);
    assert((agent + " code"@).take(size) =~= agent);
    assert((agent + "-code"@).take(size) =~= agent);
    assert((agent + ".md"@)[size] == '.');
    assert((agent + " code"@)[size] == ' ');
    assert((agent + "-code"@)[size] == '-');
    if mentions(end, agent + ".md"@) {
        lemma_shorter_mention(end, agent + ".md"@, agent);
    }
    if mentions(end, agent + " code"@) {
        lemma_shorter_mention(end, agent + " code"@, agent);
    }
    if mentions(end, agent + "-code"@) {
        lemma_shorter_mention(end, agent + "-code"@, agent);
    }
}

/// Rewriting a second time changes nothing.
pub proof fn rewriting_is_idempotent(content: Seq<char>, agent: Seq<char>)
    requires
        is_agent_name(agent),
    ensures
        rewritten(rewritten(content, agent), agent) == rewritten(content, agent),
{
    let end = rewritten(content, agent);
    no_agent_term_remains(content, agent);
    replacing_nothing(end, agent + ".md"@, "AGENTS.md"@);
    replacing_nothing(end, agent + " code"@, "Codex"@);
    replacing_nothing(end, agent + "-code"@, "Codex"@);
    replacing_nothing(end, agent + "_code"@, "Codex"@);
    replacing_nothing(end, agent + "code"@, "Codex"@);
    replacing_nothing(end, agent, "Codex"@);
}

}
