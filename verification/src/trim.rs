//! The trim operation: the ordered list of patterns, and the name that a file
//! gets when the first pattern found in its name is taken out.

use crate::entry::FileEntry;
use crate::text::{contains, occurs_in, remove_all, trim, trimmed, without};
use vstd::prelude::*;
use vstd::string::*;

verus! {

/// The built-in patterns, in the order in which they are tried.
pub open spec fn default_patterns() -> Seq<Seq<char>> {
    seq![
        "海量资源尽在：666java.com【海量资源： www.666java.com】"@,
        "【更多资源访问：  666java.com】"@,
        "【666资源站：666 java.com】"@,
        "【海量资源：666java.com】"@,
        "【海量一手：666java .com】"@,
        "【海量一手：666java.com】"@,
        "【666资源站：666java.com】"@,
        "海量资源尽在：666java.com"@,
        "海量资源：666java.com"@,
        "更多资源： www.666java.com"@,
        "【IT视频学习网-www.itspxx.com】"@,
    ]
}

/// The patterns in force: the caller's own pattern first, where there is one,
/// then the built-in ones.
pub open spec fn active_patterns(user: Option<Seq<char>>) -> Seq<Seq<char>> {
    match user {
        Some(pattern) => seq![pattern] + default_patterns(),
        None => default_patterns(),
    }
}

/// The name left when `pattern` is taken out of `name` and the result is
/// trimmed; `None` where `pattern` does not occur in `name`.
pub open spec fn renamed(name: Seq<char>, pattern: Seq<char>) -> Option<Seq<char>> {
    if occurs_in(name, pattern) {
        Some(trimmed(without(name, pattern)))
    } else {
        None
    }
}

/// The index of the first pattern that occurs in `name`.
pub open spec fn first_match_index(patterns: Seq<Seq<char>>, name: Seq<char>) -> Option<int>
    decreases patterns.len(),
{
    if patterns.len() == 0 {
        None
    } else if occurs_in(name, patterns[0]) {
        Some(0)
    } else {
        match first_match_index(patterns.skip(1), name) {
            Some(i) => Some(i + 1),
            None => None,
        }
    }
}

/// The name that the first matching pattern leaves; `None` where no pattern
/// occurs in `name`. Patterns behind the first match are not tried.
pub open spec fn first_renamed(patterns: Seq<Seq<char>>, name: Seq<char>) -> Option<Seq<char>> {
    match first_match_index(patterns, name) {
        Some(i) => renamed(name, patterns[i]),
        None => None,
    }
}

/// The first match is the least index whose pattern occurs in the name, and
/// there is none exactly when no pattern occurs in it.
pub proof fn lemma_first_match_is_least(patterns: Seq<Seq<char>>, name: Seq<char>)
    ensures
        match first_match_index(patterns, name) {
            Some(i) => {
                &&& 0 <= i < patterns.len()
                &&& occurs_in(name, patterns[i])
                &&& forall|j: int| 0 <= j < i ==> !occurs_in(name, #[trigger] patterns[j])
            },
            None => forall|j: int|
                0 <= j < patterns.len() ==> !occurs_in(name, #[trigger] patterns[j]),
        },
    decreases patterns.len(),
{
    if patterns.len() > 0 && !occurs_in(name, patterns[0]) {
        let rest = patterns.skip(1);
        lemma_first_match_is_least(rest, name);
        assert(forall|j: int| 0 < j < patterns.len() ==> patterns[j] == rest[j - 1]);
    }
}

/// A name in which no pattern of the list occurs is left as it is: no single
/// pattern renames it, and neither does the list, however often it is tried.
pub proof fn lemma_settled_name_is_kept(patterns: Seq<Seq<char>>, name: Seq<char>)
    requires
        forall|j: int| 0 <= j < patterns.len() ==> !occurs_in(name, #[trigger] patterns[j]),
    ensures
        forall|j: int| 0 <= j < patterns.len() ==> renamed(name, #[trigger] patterns[j]) is None,
        first_match_index(patterns, name) is None,
        first_renamed(patterns, name) is None,
{
    lemma_first_match_is_least(patterns, name);
}

/// The caller's own pattern is tried before every built-in one: a name in which
/// it occurs loses it, whatever else the name holds.
pub proof fn lemma_override_comes_first(user: Seq<char>, name: Seq<char>)
    requires
        occurs_in(name, user),
    ensures
        first_match_index(active_patterns(Some(user)), name) == Some(0int),
        first_renamed(active_patterns(Some(user)), name) == Some(trimmed(without(name, user))),
{
}

/// The ordered patterns of a trim run.
#[derive(Clone, Debug, PartialEq, Eq)]
pub struct TrimPatterns {
    patterns: Vec<String>,
}

impl View for TrimPatterns {
    type V = Seq<Seq<char>>;

    closed spec fn view(&self) -> Seq<Seq<char>> {
        Seq::new(self.patterns@.len(), |i: int| self.patterns@[i]@)
    }
}

impl TrimPatterns {
    /// The built-in patterns.
    pub fn defaults() -> (out: Self)
        ensures
            out@ == default_patterns(),
    {
        let mut patterns: Vec<String> = Vec::new();
        patterns.push(String::from_str("海量资源尽在：666java.com【海量资源： www.666java.com】"));
        patterns.push(String::from_str("【更多资源访问：  666java.com】"));
        patterns.push(String::from_str("【666资源站：666 java.com】"));
        patterns.push(String::from_str("【海量资源：666java.com】"));
        patterns.push(String::from_str("【海量一手：666java .com】"));
        patterns.push(String::from_str("【海量一手：666java.com】"));
        patterns.push(String::from_str("【666资源站：666java.com】"));
        patterns.push(String::from_str("海量资源尽在：666java.com"));
        patterns.push(String::from_str("海量资源：666java.com"));
        patterns.push(String::from_str("更多资源： www.666java.com"));
        patterns.push(String::from_str("【IT视频学习网-www.itspxx.com】"));
        let out = TrimPatterns { patterns };
        assert(out@ =~= default_patterns());
        out
    }

    /// The built-in patterns, behind the caller's own pattern where one is given.
    pub fn with_override(vchar: Option<String>) -> (out: Self)
        ensures
            out@ == active_patterns(
                match vchar {
                    Some(pattern) => Some(pattern@),
                    None => None,
                },
            ),
    {
        let mut out = Self::defaults();
        match vchar {
            Some(pattern) => {
                let ghost before = out@;
                out.patterns.insert(0, pattern);
                assert(out@ =~= seq![pattern@] + before);
            },
            None => {},
        }
        out
    }

    /// The number of patterns.
    pub fn len(&self) -> (n: usize)
        ensures
            n == self@.len(),
    {
        self.patterns.len()
    }

    /// The pattern at `index`, where there is one.
    pub fn get(&self, index: usize) -> (pattern: Option<&str>)
        ensures
            match pattern {
                Some(p) => index < self@.len() && p@ == self@[index as int],
                None => index >= self@.len(),
            },
    {
        if index < self.patterns.len() {
            Some(self.patterns[index].as_str())
        } else {
            None
        }
    }

    /// The index of the first pattern that occurs in `name`.
    pub fn first_match(&self, name: &str) -> (found: Option<usize>)
        ensures
            match found {
                Some(i) => first_match_index(self@, name@) == Some(i as int),
                None => first_match_index(self@, name@) is None,
            },
    {
        let mut i: usize = 0;
        while i < self.patterns.len()
            invariant
                i <= self.patterns.len(),
                forall|j: int| 0 <= j < i ==> !occurs_in(name@, #[trigger] self@[j]),
            decreases self.patterns.len() - i,
        {
            if contains(name, self.patterns[i].as_str()) {
                proof {
                    lemma_first_match_is_least(self@, name@);
                    assert(occurs_in(name@, self@[i as int]));
                }
                return Some(i);
            }
            i += 1;
        }
        proof {
            lemma_first_match_is_least(self@, name@);
        }
        None
    }

    /// The new name of `entry` under the list: the first pattern that occurs in
    /// its name is taken out and the rest is trimmed. Later patterns are not
    /// tried. `None` where no pattern occurs in the name.
    pub fn first_rename(&self, entry: &FileEntry) -> (target: Option<String>)
        ensures
            match target {
                Some(new_name) => first_renamed(self@, entry@.file_name) == Some(new_name@),
                None => first_renamed(self@, entry@.file_name) is None,
            },
    {
        match self.first_match(entry.file_name.as_str()) {
            Some(i) => {
                proof {
                    lemma_first_match_is_least(self@, entry@.file_name);
                }
                rename_target(entry, self.patterns[i].as_str())
            },
            None => None,
        }
    }
}

/// The new name of `entry` under one pattern: `vchar` is taken out of the name
/// wherever it stands and the rest is trimmed. `None` where `vchar` does not
/// occur in the name, and nothing is to be renamed.
pub fn rename_target(entry: &FileEntry, vchar: &str) -> (target: Option<String>)
    ensures
        match target {
            Some(new_name) => renamed(entry@.file_name, vchar@) == Some(new_name@),
            None => renamed(entry@.file_name, vchar@) is None,
        },
{
    let name = entry.file_name.as_str();
    if contains(name, vchar) {
        Some(trim(remove_all(name, vchar).as_str()))
    } else {
        None
    }
}

} // verus!
