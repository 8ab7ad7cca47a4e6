//! The path pruner: it scans source text for patterns of code paths that
//! are rarely taken, records where they stand, and suggests what to do
//! with each.
//!
//! A pattern's probability is held in parts per million.

use vstd::prelude::*;

use crate::pattern_match::{find_pattern, pattern_found};
use crate::strings::{chars_of, str_eq};
use crate::text::{decimal, push_decimal, push_str, string_from_chars, string_push};
use crate::whitespace::{
    char_views, chars_eq, chars_start_with, lines_of, split_lines, split_words, starts_with,
    trim, trim_chars, trim_end_char, trim_end_char_chars, words_of,
};

verus! {

/// The kind of a code path.
#[derive(Debug, Clone, Copy, PartialEq, Eq, Hash, Structural)]
pub enum PathType {
    /// Happy path (normal execution)
    Happy,
    /// Error handling path
    Error,
    /// Edge case handling
    EdgeCase,
    /// Panic/unreachable path
    Panic,
    /// Async await point
    Await,
}

/// The kind of a conditional branch.
#[derive(Debug, Clone, Copy, PartialEq, Eq, Hash, Structural)]
pub enum ConditionType {
    /// if/else branch
    Branch,
    /// match arm
    Match,
    /// Option/Result check
    ErrorCheck,
    /// Loop condition
    Loop,
}

/// What the pruner suggests doing with a path.
#[derive(Debug, Clone, Copy, PartialEq, Eq, Hash, Structural)]
pub enum SuggestionType {
    ReplaceWithResult,
    ImplementOrRemove,
    AddColdAttribute,
}

/// How much a suggestion would gain.
#[derive(Debug, Clone, Copy, PartialEq, Eq, Hash, Structural)]
pub enum Impact {
    High,
    Medium,
    Low,
}

/// A pruning suggestion for one path.
#[derive(Debug)]
pub struct PruningSuggestion {
    pub file: String,
    pub line: usize,
    pub suggestion_type: SuggestionType,
    pub original_code: String,
    pub suggested_code: String,
    pub impact: Impact,
}

/// A suggestion as contracts see it.
#[verifier::ext_equal]
pub struct SuggestionView {
    pub file: Seq<char>,
    pub line: nat,
    pub suggestion_type: SuggestionType,
    pub original_code: Seq<char>,
    pub suggested_code: Seq<char>,
    pub impact: Impact,
}

impl View for PruningSuggestion {
    type V = SuggestionView;

    open spec fn view(&self) -> SuggestionView {
        SuggestionView {
            file: self.file@,
            line: self.line as nat,
            suggestion_type: self.suggestion_type,
            original_code: self.original_code@,
            suggested_code: self.suggested_code@,
            impact: self.impact,
        }
    }
}

/// The kind of path that a pattern of the analyzer marks.
pub open spec fn path_type_of(pattern_name: Seq<char>) -> PathType {
    if pattern_name == "panic!"@ || pattern_name == "unreachable!"@ {
        PathType::Panic
    } else if pattern_name == "todo!"@ {
        PathType::EdgeCase
    } else if pattern_name == "unwrap_err"@ || pattern_name == "nested_error_match"@ {
        PathType::Error
    } else {
        PathType::Happy
    }
}

/// Classifies a path by the name of the pattern that found it.
pub fn classify_path_type(pattern_name: &str) -> (t: PathType)
    ensures
        t == path_type_of(pattern_name@),
{
    if str_eq(pattern_name, "panic!") || str_eq(pattern_name, "unreachable!") {
        PathType::Panic
    } else if str_eq(pattern_name, "todo!") {
        PathType::EdgeCase
    } else if str_eq(pattern_name, "unwrap_err") || str_eq(pattern_name, "nested_error_match") {
        PathType::Error
    } else {
        PathType::Happy
    }
}

/// The suggestion for a low-probability path of a kind.
pub open spec fn suggestion_of(t: PathType) -> SuggestionType {
    match t {
        PathType::Panic => SuggestionType::ReplaceWithResult,
        PathType::EdgeCase => SuggestionType::ImplementOrRemove,
        _ => SuggestionType::AddColdAttribute,
    }
}

/// The suggestion for a low-probability path of kind `t`.
pub fn suggestion_for(t: PathType) -> (s: SuggestionType)
    ensures
        s == suggestion_of(t),
{
    match t {
        PathType::Panic => SuggestionType::ReplaceWithResult,
        PathType::EdgeCase => SuggestionType::ImplementOrRemove,
        _ => SuggestionType::AddColdAttribute,
    }
}

/// The code suggested in place of a path of kind `t` whose first condition
/// reads `first_condition`.
pub open spec fn suggested_code_text(t: PathType, first_condition: Seq<char>) -> Seq<char> {
    match t {
        PathType::Panic => "return Err(anyhow::anyhow!(\"Error condition\"))"@,
        PathType::EdgeCase => "// TODO: Implement this path or remove if unnecessary"@,
        _ => "#[cold]\n"@ + first_condition,
    }
}

/// The code suggested in place of a path of kind `t` whose first condition
/// reads `first_condition` (empty when it has none).
pub fn generate_suggested_code(t: PathType, first_condition: &str) -> (s: String)
    ensures
        s@ == suggested_code_text(t, first_condition@),
{
    match t {
        PathType::Panic => String::from_str("return Err(anyhow::anyhow!(\"Error condition\"))"),
        PathType::EdgeCase => String::from_str("// TODO: Implement this path or remove if unnecessary"),
        _ => {
            let mut s = String::from_str("#[cold]\n");
            push_str(&mut s, first_condition);
            s
        },
    }
}

} // verus!

verus! {

// ---------------------------------------------------------------------------
// Patterns
// ---------------------------------------------------------------------------

/// A pattern of a rarely taken path: the text that marks it, how likely the
/// path is taken (parts per million), and whether it may be pruned.
#[derive(Debug)]
pub struct PathPattern {
    pub pattern: String,
    pub probability_ppm: u32,
    pub prune_candidate: bool,
}

impl View for PathPattern {
    type V = (Seq<char>, u32, bool);

    open spec fn view(&self) -> (Seq<char>, u32, bool) {
        (self.pattern@, self.probability_ppm, self.prune_candidate)
    }
}

/// A named pattern as contracts see it.
pub type PatternEntry = (Seq<char>, (Seq<char>, u32, bool));

/// Below this probability a path that may be pruned counts as a
/// low-probability path (one in a hundred).
pub const LOW_PROBABILITY_PPM: u32 = 10_000;

/// A pattern whose paths count as low-probability paths.
pub open spec fn is_low(p: (Seq<char>, u32, bool)) -> bool {
    p.2 && p.1 < LOW_PROBABILITY_PPM
}

/// The analyzer's own patterns, in the order they are tried.
pub open spec fn default_patterns() -> Seq<PatternEntry> {
    seq![
        ("panic!"@, ("panic!\\("@, 1000u32, true)),
        ("unreachable!"@, ("unreachable!\\("@, 100u32, true)),
        ("todo!"@, ("todo!\\("@, 0u32, true)),
        ("unwrap_err"@, ("\\.unwrap_err\\(\\)"@, 10_000u32, false)),
        ("nested_error_match"@, ("Err\\(.*Err\\("@, 50_000u32, false)),
    ]
}

/// No two patterns share a name.
pub open spec fn names_distinct(es: Seq<PatternEntry>) -> bool {
    forall|i: int, j: int| 0 <= i < j < es.len() ==> es[i].0 != es[j].0
}

/// Finds rarely taken paths in source text by matching named patterns
/// line by line.
pub struct ASTAnalyzer {
    entries: Vec<(String, PathPattern)>,
}

impl ASTAnalyzer {
    /// The named patterns, in the order they are tried.
    pub closed spec fn entries(&self) -> Seq<PatternEntry> {
        self.entries@.map_values(|e: (String, PathPattern)| (e.0@, e.1@))
    }

    /// An analyzer with its own patterns.
    pub fn new() -> (a: Self)
        ensures
            a.entries() == default_patterns(),
            names_distinct(a.entries()),
    {
        let mut entries: Vec<(String, PathPattern)> = Vec::new();
        entries.push(
            (
                String::from_str("panic!"),
                PathPattern {
                    pattern: String::from_str("panic!\\("),
                    probability_ppm: 1000,
                    prune_candidate: true,
                },
            ),
        );
        entries.push(
            (
                String::from_str("unreachable!"),
                PathPattern {
                    pattern: String::from_str("unreachable!\\("),
                    probability_ppm: 100,
                    prune_candidate: true,
                },
            ),
        );
        entries.push(
            (
                String::from_str("todo!"),
                PathPattern {
                    pattern: String::from_str("todo!\\("),
                    probability_ppm: 0,
                    prune_candidate: true,
                },
            ),
        );
        entries.push(
            (
                String::from_str("unwrap_err"),
                PathPattern {
                    pattern: String::from_str("\\.unwrap_err\\(\\)"),
                    probability_ppm: 10_000,
                    prune_candidate: false,
                },
            ),
        );
        entries.push(
            (
                String::from_str("nested_error_match"),
                PathPattern {
                    pattern: String::from_str("Err\\(.*Err\\("),
                    probability_ppm: 50_000,
                    prune_candidate: false,
                },
            ),
        );
        let a = ASTAnalyzer { entries };
        proof {
            reveal_strlit("panic!");
            reveal_strlit("unreachable!");
            reveal_strlit("todo!");
            reveal_strlit("unwrap_err");
            reveal_strlit("nested_error_match");
            assert(a.entries() =~= default_patterns());
            let es = default_patterns();
            assert(es[0].0.len() == 6);
            assert(es[1].0.len() == 12);
            assert(es[2].0.len() == 5);
            assert(es[3].0.len() == 10);
            assert(es[4].0.len() == 18);
            assert forall|i: int, j: int| 0 <= i < j < es.len() implies es[i].0 != es[j].0 by {
                assert(es[i].0.len() != es[j].0.len());
            }
        }
        a
    }

    /// Whether a pattern of this name is known.
    pub fn has_pattern(&self, name: &str) -> (r: bool)
        ensures
            r == exists|i: int| 0 <= i < self.entries().len() && #[trigger] self.entries()[i].0 == name@,
    {
        let n: usize = self.entries.len();
        let mut i: usize = 0;
        while i < n
            invariant
                i <= n,
                n == self.entries().len(),
                forall|k: int| 0 <= k < i ==> #[trigger] self.entries()[k].0 != name@,
            decreases n - i,
        {
            if str_eq(self.entries[i].0.as_str(), name) {
                assert(self.entries()[i as int].0 == name@);
                return true;
            }
            i = i + 1;
        }
        false
    }

    /// Adds a pattern under `name`, in place of the one of that name if
    /// there is one.
    pub fn add_pattern(&mut self, name: String, pattern: PathPattern)
        requires
            names_distinct(old(self).entries()),
        ensures
            names_distinct(final(self).entries()),
            forall|i: int|
                0 <= i < old(self).entries().len() && #[trigger] old(self).entries()[i].0 == name@
                    ==> final(self).entries() == old(self).entries().update(i, (name@, pattern@)),
            (forall|i: int|
                0 <= i < old(self).entries().len() ==> #[trigger] old(self).entries()[i].0 != name@)
                ==> final(self).entries() == old(self).entries().push((name@, pattern@)),
    {
        let ghost before = self.entries();
        let n: usize = self.entries.len();
        let mut i: usize = 0;
        while i < n
            invariant
                i <= n,
                n == before.len(),
                self.entries() == before,
                before == old(self).entries(),
                names_distinct(before),
                forall|k: int| 0 <= k < i ==> #[trigger] before[k].0 != name@,
            decreases n - i,
        {
            if str_eq(self.entries[i].0.as_str(), name.as_str()) {
                let ghost entry = (name@, pattern@);
                assert(before[i as int].0 == name@);
                assert forall|k: int| 0 <= k < before.len() && #[trigger] before[k].0 == name@ implies k == i by {
                    if k < i {
                        assert(before[k].0 != before[i as int].0);
                    } else if k > i {
                        assert(before[i as int].0 != before[k].0);
                    }
                }
                self.entries.set(i, (name, pattern));
                proof {
                    assert(self.entries() =~= before.update(i as int, entry));
                    let after = self.entries();
                    assert forall|a: int, b: int| 0 <= a < b < after.len() implies after[a].0 != after[b].0 by {
                        if a != i && b != i {
                            assert(before[a].0 != before[b].0);
                        }
                    }
                }
                return;
            }
            i = i + 1;
        }
        let ghost entry = (name@, pattern@);
        self.entries.push((name, pattern));
        proof {
            assert(self.entries() =~= before.push(entry));
        }
    }
}

impl Default for ASTAnalyzer {
    fn default() -> (a: Self)
        ensures
            a.entries() == default_patterns(),
            names_distinct(a.entries()),
    {
        ASTAnalyzer::new()
    }
}

} // verus!

verus! {

// ---------------------------------------------------------------------------
// The function around a line
// ---------------------------------------------------------------------------

/// The word after the first word `fn`, at or after `idx`, that has a word
/// after it, without the opening parentheses that end that word.
pub open spec fn name_after_fn(words: Seq<Seq<char>>, idx: nat) -> Option<Seq<char>>
    decreases words.len() - idx,
{
    if idx >= words.len() {
        None
    } else if words[idx as int] == "fn"@ && idx + 1 < words.len() {
        Some(trim_end_char(words[idx + 1 as int], '('))
    } else {
        name_after_fn(words, idx + 1)
    }
}

/// The function that a line declares: the line, trimmed, begins with
/// `fn ` or `pub fn `, and a word follows a word `fn`.
pub open spec fn declared_fn(line: Seq<char>) -> Option<Seq<char>> {
    if starts_with(trim(line), "fn "@) || starts_with(trim(line), "pub fn "@) {
        name_after_fn(words_of(line), 0)
    } else {
        None
    }
}

/// The function declared last among the first `n` lines.
pub open spec fn fn_declared_before(lines: Seq<Seq<char>>, n: nat) -> Option<Seq<char>>
    decreases n,
{
    if n == 0 {
        None
    } else if n - 1 < lines.len() && declared_fn(lines[n - 1]) is Some {
        declared_fn(lines[n - 1])
    } else {
        fn_declared_before(lines, (n - 1) as nat)
    }
}

/// The function in which line `line_num` (counted from 0) of `content`
/// stands: the last one declared at or above it.
pub open spec fn enclosing_fn(content: Seq<char>, line_num: nat) -> Option<Seq<char>> {
    fn_declared_before(lines_of(content), line_num + 1)
}

proof fn lemma_nothing_past_the_end(lines: Seq<Seq<char>>, n: nat)
    requires
        n >= lines.len(),
    ensures
        fn_declared_before(lines, n) == fn_declared_before(lines, lines.len()),
    decreases n,
{
    if n > lines.len() {
        lemma_nothing_past_the_end(lines, (n - 1) as nat);
    }
}

fn name_after_fn_in(words: &Vec<Vec<char>>) -> (r: Option<Vec<char>>)
    ensures
        match r {
            Some(v) => name_after_fn(char_views(words@), 0) == Some(v@),
            None => name_after_fn(char_views(words@), 0) is None,
        },
{
    let fn_word = chars_of("fn");
    let n: usize = words.len();
    let ghost ws = char_views(words@);
    let mut i: usize = 0;
    while i < n
        invariant
            i <= n,
            n == words@.len(),
            ws == char_views(words@),
            fn_word@ == "fn"@,
            name_after_fn(ws, i as nat) == name_after_fn(ws, 0),
        decreases n - i,
    {
        assert(ws[i as int] == words@[i as int]@);
        if chars_eq(&words[i], &fn_word) && i + 1 < n {
            assert(ws[i + 1] == words@[i + 1]@);
            return Some(trim_end_char_chars(&words[i + 1], '('));
        }
        i = i + 1;
    }
    None
}

fn declared_fn_in(line: &Vec<char>) -> (r: Option<Vec<char>>)
    ensures
        match r {
            Some(v) => declared_fn(line@) == Some(v@),
            None => declared_fn(line@) is None,
        },
{
    let t = trim_chars(line);
    let a = chars_of("fn ");
    let b = chars_of("pub fn ");
    if chars_start_with(&t, &a) || chars_start_with(&t, &b) {
        let words = split_words(line);
        name_after_fn_in(&words)
    } else {
        None
    }
}

fn fn_declared_before_in(lines: &Vec<Vec<char>>, n: usize) -> (r: Option<Vec<char>>)
    requires
        n <= lines@.len(),
    ensures
        match r {
            Some(v) => fn_declared_before(char_views(lines@), n as nat) == Some(v@),
            None => fn_declared_before(char_views(lines@), n as nat) is None,
        },
{
    let ghost ls = char_views(lines@);
    let mut i: usize = n;
    while i > 0
        invariant
            i <= n <= lines@.len(),
            ls == char_views(lines@),
            fn_declared_before(ls, n as nat) == fn_declared_before(ls, i as nat),
        decreases i,
    {
        assert(ls[i - 1] == lines@[i - 1]@);
        let r = declared_fn_in(&lines[i - 1]);
        if r.is_some() {
            return r;
        }
        i = i - 1;
    }
    None
}

/// The name of the function in which line `line_num` (counted from 0) of
/// `content` stands, if a declaration stands at or above it.
pub fn extract_function_name(content: &str, line_num: usize) -> (r: Option<String>)
    ensures
        match r {
            Some(s) => enclosing_fn(content@, line_num as nat) == Some(s@),
            None => enclosing_fn(content@, line_num as nat) is None,
        },
{
    let cs = chars_of(content);
    let lines = split_lines(&cs);
    let n: usize = if line_num < lines.len() { line_num + 1 } else { lines.len() };
    proof {
        if line_num >= lines@.len() {
            lemma_nothing_past_the_end(char_views(lines@), line_num as nat + 1);
        }
    }
    match fn_declared_before_in(&lines, n) {
        Some(v) => Some(string_from_chars(&v)),
        None => None,
    }
}

} // verus!

verus! {

// ---------------------------------------------------------------------------
// Paths found in a file
// ---------------------------------------------------------------------------

/// A conditional branch on a path.
#[derive(Debug)]
pub struct Condition {
    pub expression: String,
    pub line: usize,
    pub probability_ppm: u32,
    pub condition_type: ConditionType,
}

/// A condition as contracts see it.
#[verifier::ext_equal]
pub struct ConditionView {
    pub expression: Seq<char>,
    pub line: nat,
    pub probability_ppm: u32,
    pub condition_type: ConditionType,
}

impl View for Condition {
    type V = ConditionView;

    open spec fn view(&self) -> ConditionView {
        ConditionView {
            expression: self.expression@,
            line: self.line as nat,
            probability_ppm: self.probability_ppm,
            condition_type: self.condition_type,
        }
    }
}

/// The views of a sequence of conditions.
pub open spec fn condition_views(v: Seq<Condition>) -> Seq<ConditionView> {
    v.map_values(|c: Condition| c@)
}

/// A code path that a pattern found, with how likely it is taken.
#[derive(Debug)]
pub struct CodePath {
    pub path_id: String,
    pub file: String,
    pub function: String,
    pub line_start: usize,
    pub line_end: usize,
    pub probability_ppm: u32,
    pub path_type: PathType,
    pub conditions: Vec<Condition>,
}

/// A code path as contracts see it.
#[verifier::ext_equal]
pub struct CodePathView {
    pub path_id: Seq<char>,
    pub file: Seq<char>,
    pub function: Seq<char>,
    pub line_start: nat,
    pub line_end: nat,
    pub probability_ppm: u32,
    pub path_type: PathType,
    pub conditions: Seq<ConditionView>,
}

impl View for CodePath {
    type V = CodePathView;

    open spec fn view(&self) -> CodePathView {
        CodePathView {
            path_id: self.path_id@,
            file: self.file@,
            function: self.function@,
            line_start: self.line_start as nat,
            line_end: self.line_end as nat,
            probability_ppm: self.probability_ppm,
            path_type: self.path_type,
            conditions: condition_views(self.conditions@),
        }
    }
}

/// What an analysis found in one file.
#[derive(Debug)]
pub struct FileAnalysis {
    pub file_path: String,
    pub total_paths: usize,
    pub low_probability_paths: usize,
    pub paths: Vec<CodePath>,
    pub low_prob_paths: Vec<CodePath>,
}

/// The places `(line, pattern)` where the first `k` patterns of `es` are
/// found (as regular expressions, see `pattern_found`) in line `ln`, which
/// reads `line`; with `low_only`, only those of
/// low-probability patterns.
pub open spec fn line_hits(line: Seq<char>, ln: int, es: Seq<PatternEntry>, k: nat, low_only: bool) -> Seq<(int, int)>
    decreases k,
{
    if k == 0 {
        Seq::empty()
    } else {
        let j = k - 1;
        line_hits(line, ln, es, j as nat, low_only) + if pattern_found(line, es[j].1.0) && (!low_only
            || is_low(es[j].1)) {
            seq![(ln, j)]
        } else {
            Seq::empty()
        }
    }
}

/// The places where patterns occur in the first `n` lines, line by line
/// and, within a line, in the order of the patterns.
pub open spec fn hits_upto(lines: Seq<Seq<char>>, es: Seq<PatternEntry>, n: nat, low_only: bool) -> Seq<(int, int)>
    decreases n,
{
    if n == 0 {
        Seq::empty()
    } else {
        hits_upto(lines, es, (n - 1) as nat, low_only) + line_hits(
            lines[n - 1],
            n - 1,
            es,
            es.len(),
            low_only,
        )
    }
}

/// The places where patterns occur in `content`.
pub open spec fn hits(content: Seq<char>, es: Seq<PatternEntry>, low_only: bool) -> Seq<(int, int)> {
    hits_upto(lines_of(content), es, lines_of(content).len(), low_only)
}

/// The path recorded for pattern `hit.1` on line `hit.0` of a text whose
/// lines are `lines`, in the file named `file`.
pub open spec fn path_at(file: Seq<char>, lines: Seq<Seq<char>>, es: Seq<PatternEntry>, hit: (int, int)) -> CodePathView {
    let ln = hit.0;
    let name = es[hit.1].0;
    let pat = es[hit.1].1;
    CodePathView {
        path_id: file + "-"@ + name + "-"@ + decimal(ln as nat),
        file: file,
        function: match fn_declared_before(lines, (ln + 1) as nat) {
            Some(f) => f,
            None => "unknown"@,
        },
        line_start: (ln + 1) as nat,
        line_end: (ln + 1) as nat,
        probability_ppm: pat.1,
        path_type: path_type_of(name),
        conditions: seq![
            ConditionView {
                expression: trim(lines[ln]),
                line: (ln + 1) as nat,
                probability_ppm: pat.1,
                condition_type: ConditionType::Branch,
            },
        ],
    }
}

/// The paths recorded for the places `hs`.
pub open spec fn paths_at(file: Seq<char>, lines: Seq<Seq<char>>, es: Seq<PatternEntry>, hs: Seq<(int, int)>) -> Seq<CodePathView> {
    hs.map_values(|h: (int, int)| path_at(file, lines, es, h))
}

/// The views of a sequence of paths.
pub open spec fn path_views(v: Seq<CodePath>) -> Seq<CodePathView> {
    v.map_values(|p: CodePath| p@)
}

/// A path with the same view as `p`.
pub fn duplicate_path(p: &CodePath) -> (q: CodePath)
    ensures
        q@ == p@,
{
    let mut conditions: Vec<Condition> = Vec::new();
    let n: usize = p.conditions.len();
    let mut i: usize = 0;
    while i < n
        invariant
            i <= n,
            n == p.conditions@.len(),
            condition_views(conditions@) == condition_views(p.conditions@.subrange(0, i as int)),
        decreases n - i,
    {
        let c = &p.conditions[i];
        let ghost before = conditions@;
        conditions.push(
            Condition {
                expression: c.expression.clone(),
                line: c.line,
                probability_ppm: c.probability_ppm,
                condition_type: c.condition_type,
            },
        );
        i = i + 1;
        assert(condition_views(conditions@) =~= condition_views(p.conditions@.subrange(0, i as int))) by {
            assert(conditions@ == before.push(conditions@.last()));
            assert(condition_views(p.conditions@.subrange(0, i as int)) =~= condition_views(
                p.conditions@.subrange(0, i - 1),
            ).push(p.conditions@[i - 1]@));
        }
    }
    assert(p.conditions@.subrange(0, n as int) =~= p.conditions@);
    let q = CodePath {
        path_id: p.path_id.clone(),
        file: p.file.clone(),
        function: p.function.clone(),
        line_start: p.line_start,
        line_end: p.line_end,
        probability_ppm: p.probability_ppm,
        path_type: p.path_type,
        conditions,
    };
    assert(q@ =~= p@);
    q
}

} // verus!

verus! {

proof fn lemma_paths_at_push(
    file: Seq<char>,
    lines: Seq<Seq<char>>,
    es: Seq<PatternEntry>,
    hs: Seq<(int, int)>,
    h: (int, int),
)
    ensures
        paths_at(file, lines, es, hs.push(h)) == paths_at(file, lines, es, hs).push(
            path_at(file, lines, es, h),
        ),
{
    assert(paths_at(file, lines, es, hs.push(h)) =~= paths_at(file, lines, es, hs).push(
        path_at(file, lines, es, h),
    ));
}

proof fn lemma_path_views_push(v: Seq<CodePath>, p: CodePath)
    ensures
        path_views(v.push(p)) == path_views(v).push(p@),
{
    assert(path_views(v.push(p)) =~= path_views(v).push(p@));
}

impl ASTAnalyzer {
    /// The path recorded for pattern `j` on line `ln` of `lines`.
    fn path_for(&self, file: &str, lines: &Vec<Vec<char>>, ln: usize, j: usize) -> (p: CodePath)
        requires
            ln < lines@.len(),
            j < self.entries().len(),
        ensures
            p@ == path_at(file@, char_views(lines@), self.entries(), (ln as int, j as int)),
    {
        let ghost ls = char_views(lines@);
        let line_count: usize = lines.len();
        assert(ln + 1 <= line_count);
        let name = &self.entries[j].0;
        let ppm: u32 = self.entries[j].1.probability_ppm;
        assert(self.entries()[j as int] == (name@, self.entries@[j as int].1@));
        let mut id = String::new();
        push_str(&mut id, file);
        push_str(&mut id, "-");
        push_str(&mut id, name.as_str());
        push_str(&mut id, "-");
        push_decimal(&mut id, ln as u128);
        let function = match fn_declared_before_in(lines, ln + 1) {
            Some(v) => string_from_chars(&v),
            None => String::from_str("unknown"),
        };
        let expression = string_from_chars(&trim_chars(&lines[ln]));
        assert(ls[ln as int] == lines@[ln as int]@);
        let mut conditions: Vec<Condition> = Vec::new();
        conditions.push(
            Condition {
                expression,
                line: ln + 1,
                probability_ppm: ppm,
                condition_type: ConditionType::Branch,
            },
        );
        let p = CodePath {
            path_id: id,
            file: String::from_str(file),
            function,
            line_start: ln + 1,
            line_end: ln + 1,
            probability_ppm: ppm,
            path_type: classify_path_type(name.as_str()),
            conditions,
        };
        assert(condition_views(p.conditions@) =~= path_at(file@, ls, self.entries(), (ln as int, j as int)).conditions);
        assert(p.path_id@ =~= file@ + "-"@ + name@ + "-"@ + decimal(ln as nat));
        assert(p@ =~= path_at(file@, ls, self.entries(), (ln as int, j as int)));
        p
    }

    /// The paths that the patterns find in `content`, the text of the file
    /// named `file`: every line, in order, is matched against every
    /// pattern, in order; each match is a path, and the low-probability
    /// paths are listed apart as well.
    pub fn analyze_content(&self, file: &str, content: &str) -> (r: FileAnalysis)
        ensures
            r.file_path@ == file@,
            path_views(r.paths@) == paths_at(
                file@,
                lines_of(content@),
                self.entries(),
                hits(content@, self.entries(), false),
            ),
            path_views(r.low_prob_paths@) == paths_at(
                file@,
                lines_of(content@),
                self.entries(),
                hits(content@, self.entries(), true),
            ),
            r.total_paths == r.paths@.len(),
            r.low_probability_paths == r.low_prob_paths@.len(),
    {
        let cs = chars_of(content);
        let lines = split_lines(&cs);
        let ghost ls = char_views(lines@);
        let ghost es = self.entries();
        let ghost f = file@;
        let ne: usize = self.entries.len();
        let mut pats: Vec<Vec<char>> = Vec::new();
        let mut j: usize = 0;
        while j < ne
            invariant
                j <= ne,
                ne == es.len(),
                es == self.entries(),
                pats@.len() == j,
                forall|k: int| 0 <= k < j ==> #[trigger] pats@[k]@ == es[k].1.0,
            decreases ne - j,
        {
            assert(es[j as int].1.0 == self.entries@[j as int].1.pattern@);
            pats.push(chars_of(self.entries[j].1.pattern.as_str()));
            j = j + 1;
        }
        let nl: usize = lines.len();
        let mut paths: Vec<CodePath> = Vec::new();
        let mut low: Vec<CodePath> = Vec::new();
        let mut ln: usize = 0;
        assert(path_views(paths@) =~= paths_at(f, ls, es, hits_upto(ls, es, 0, false)));
        assert(path_views(low@) =~= paths_at(f, ls, es, hits_upto(ls, es, 0, true)));
        while ln < nl
            invariant
                ln <= nl,
                nl == lines@.len(),
                ls == char_views(lines@),
                ne == es.len(),
                es == self.entries(),
                f == file@,
                pats@.len() == ne,
                forall|k: int| 0 <= k < ne ==> #[trigger] pats@[k]@ == es[k].1.0,
                path_views(paths@) == paths_at(f, ls, es, hits_upto(ls, es, ln as nat, false)),
                path_views(low@) == paths_at(f, ls, es, hits_upto(ls, es, ln as nat, true)),
            decreases nl - ln,
        {
            let mut k: usize = 0;
            let ghost base = hits_upto(ls, es, ln as nat, false);
            let ghost base_low = hits_upto(ls, es, ln as nat, true);
            assert(ls[ln as int] == lines@[ln as int]@);
            assert(base + line_hits(ls[ln as int], ln as int, es, 0, false) =~= base);
            assert(base_low + line_hits(ls[ln as int], ln as int, es, 0, true) =~= base_low);
            while k < ne
                invariant
                    k <= ne,
                    ln < nl,
                    nl == lines@.len(),
                    ls == char_views(lines@),
                    ls[ln as int] == lines@[ln as int]@,
                    ne == es.len(),
                    es == self.entries(),
                    f == file@,
                    pats@.len() == ne,
                    forall|k: int| 0 <= k < ne ==> #[trigger] pats@[k]@ == es[k].1.0,
                    base == hits_upto(ls, es, ln as nat, false),
                    base_low == hits_upto(ls, es, ln as nat, true),
                    path_views(paths@) == paths_at(
                        f,
                        ls,
                        es,
                        base + line_hits(ls[ln as int], ln as int, es, k as nat, false),
                    ),
                    path_views(low@) == paths_at(
                        f,
                        ls,
                        es,
                        base_low + line_hits(ls[ln as int], ln as int, es, k as nat, true),
                    ),
                decreases ne - k,
            {
                let ghost prev = base + line_hits(ls[ln as int], ln as int, es, k as nat, false);
                let ghost prev_low = base_low + line_hits(ls[ln as int], ln as int, es, k as nat, true);
                let found = find_pattern(&lines[ln], &pats[k]);
                let ghost h = (ln as int, k as int);
                if found {
                    let p = self.path_for(file, &lines, ln, k);
                    assert(es[k as int].1 == self.entries@[k as int].1@);
                    if self.entries[k].1.prune_candidate && self.entries[k].1.probability_ppm
                        < LOW_PROBABILITY_PPM {
                        let q = duplicate_path(&p);
                        proof {
                            lemma_path_views_push(low@, q);
                            lemma_paths_at_push(f, ls, es, prev_low, h);
                            assert(base_low + line_hits(ls[ln as int], ln as int, es, (k + 1) as nat, true)
                                =~= prev_low.push(h));
                        }
                        low.push(q);
                    } else {
                        assert(base_low + line_hits(ls[ln as int], ln as int, es, (k + 1) as nat, true)
                            =~= prev_low);
                    }
                    proof {
                        lemma_path_views_push(paths@, p);
                        lemma_paths_at_push(f, ls, es, prev, h);
                        assert(base + line_hits(ls[ln as int], ln as int, es, (k + 1) as nat, false)
                            =~= prev.push(h));
                    }
                    paths.push(p);
                } else {
                    assert(base + line_hits(ls[ln as int], ln as int, es, (k + 1) as nat, false) =~= prev);
                    assert(base_low + line_hits(ls[ln as int], ln as int, es, (k + 1) as nat, true)
                        =~= prev_low);
                }
                k = k + 1;
            }
            ln = ln + 1;
        }
        let total: usize = paths.len();
        let total_low: usize = low.len();
        FileAnalysis {
            file_path: String::from_str(file),
            total_paths: total,
            low_probability_paths: total_low,
            paths,
            low_prob_paths: low,
        }
    }
}

} // verus!

verus! {

// ---------------------------------------------------------------------------
// Directories and suggestions
// ---------------------------------------------------------------------------

/// What an analysis found in a directory, file by file.
#[derive(Debug)]
pub struct DirectoryAnalysis {
    pub directory: String,
    pub files_analyzed: usize,
    pub total_paths: usize,
    pub total_low_probability_paths: usize,
    pub file_analyses: Vec<FileAnalysis>,
}

impl DirectoryAnalysis {
    /// An analysis of `directory` that has seen no file yet.
    pub fn new(directory: String) -> (d: Self)
        ensures
            d.directory@ == directory@,
            d.files_analyzed == 0,
            d.total_paths == 0,
            d.total_low_probability_paths == 0,
            d.file_analyses@.len() == 0,
    {
        DirectoryAnalysis {
            directory,
            files_analyzed: 0,
            total_paths: 0,
            total_low_probability_paths: 0,
            file_analyses: Vec::new(),
        }
    }

    /// Adds the analysis of one more file and its counts to the totals.
    pub fn add_file(&mut self, analysis: FileAnalysis)
        requires
            old(self).files_analyzed < usize::MAX,
            old(self).total_paths + analysis.total_paths <= usize::MAX,
            old(self).total_low_probability_paths + analysis.low_probability_paths <= usize::MAX,
        ensures
            final(self).directory == old(self).directory,
            final(self).files_analyzed == old(self).files_analyzed + 1,
            final(self).total_paths == old(self).total_paths + analysis.total_paths,
            final(self).total_low_probability_paths == old(self).total_low_probability_paths
                + analysis.low_probability_paths,
            final(self).file_analyses@ == old(self).file_analyses@.push(analysis),
    {
        self.files_analyzed = self.files_analyzed + 1;
        self.total_paths = self.total_paths + analysis.total_paths;
        self.total_low_probability_paths = self.total_low_probability_paths
            + analysis.low_probability_paths;
        self.file_analyses.push(analysis);
    }
}

/// How much pruning a path of this probability gains: much below one in
/// ten thousand, some below one in a hundred, little otherwise.
pub open spec fn impact_of(probability_ppm: u32) -> Impact {
    if probability_ppm < 100 {
        Impact::High
    } else if probability_ppm < 10_000 {
        Impact::Medium
    } else {
        Impact::Low
    }
}

/// The expression of a path's first condition, empty when it has none.
pub open spec fn first_condition(p: CodePathView) -> Seq<char> {
    if p.conditions.len() > 0 {
        p.conditions[0].expression
    } else {
        Seq::empty()
    }
}

/// The suggestion for a low-probability path `p` found in `file`.
pub open spec fn suggestion_at(file: Seq<char>, p: CodePathView) -> SuggestionView {
    SuggestionView {
        file: file,
        line: p.line_start,
        suggestion_type: suggestion_of(p.path_type),
        original_code: first_condition(p),
        suggested_code: suggested_code_text(p.path_type, first_condition(p)),
        impact: impact_of(p.probability_ppm),
    }
}

/// The places `(file, path)` of the low-probability paths of the first `n`
/// files, file by file.
pub open spec fn low_places(fs: Seq<FileAnalysis>, n: nat) -> Seq<(int, int)>
    decreases n,
{
    if n == 0 {
        Seq::empty()
    } else {
        low_places(fs, (n - 1) as nat) + Seq::new(
            fs[n - 1].low_prob_paths@.len(),
            |j: int| ((n - 1) as int, j),
        )
    }
}

/// The suggestions for the places `ps` of `fs`.
pub open spec fn suggestions_at(fs: Seq<FileAnalysis>, ps: Seq<(int, int)>) -> Seq<SuggestionView> {
    ps.map_values(
        |q: (int, int)| suggestion_at(fs[q.0].file_path@, fs[q.0].low_prob_paths@[q.1]@),
    )
}

/// The views of a sequence of suggestions.
pub open spec fn suggestion_views(v: Seq<PruningSuggestion>) -> Seq<SuggestionView> {
    v.map_values(|s: PruningSuggestion| s@)
}

/// How much pruning a path of this probability gains.
pub fn estimate_impact(probability_ppm: u32) -> (i: Impact)
    ensures
        i == impact_of(probability_ppm),
{
    if probability_ppm < 100 {
        Impact::High
    } else if probability_ppm < 10_000 {
        Impact::Medium
    } else {
        Impact::Low
    }
}

/// The suggestion for a low-probability path `p` found in `file`.
fn suggestion_for_path(file: &String, p: &CodePath) -> (s: PruningSuggestion)
    ensures
        s@ == suggestion_at(file@, p@),
{
    let original = if p.conditions.len() > 0 {
        p.conditions[0].expression.clone()
    } else {
        String::new()
    };
    let suggested = generate_suggested_code(p.path_type, original.as_str());
    let s = PruningSuggestion {
        file: file.clone(),
        line: p.line_start,
        suggestion_type: suggestion_for(p.path_type),
        original_code: original,
        suggested_code: suggested,
        impact: estimate_impact(p.probability_ppm),
    };
    assert(s@ =~= suggestion_at(file@, p@));
    s
}

/// Prunes rarely taken paths: an analyzer with its patterns, and the
/// threshold (parts per million) that the pruner was configured with. The
/// analysis itself counts a path as rare below one in a hundred.
pub struct PathPruner {
    analyzer: ASTAnalyzer,
    threshold_ppm: u32,
}

impl PathPruner {
    pub closed spec fn threshold_spec(&self) -> u32 {
        self.threshold_ppm
    }

    pub closed spec fn patterns(&self) -> Seq<PatternEntry> {
        self.analyzer.entries()
    }

    /// A pruner with the analyzer's own patterns.
    pub fn new(threshold_ppm: u32) -> (p: Self)
        ensures
            p.threshold_spec() == threshold_ppm,
            p.patterns() == default_patterns(),
    {
        PathPruner { analyzer: ASTAnalyzer::new(), threshold_ppm }
    }

    /// The threshold the pruner was configured with.
    pub fn threshold_ppm(&self) -> (t: u32)
        ensures
            t == self.threshold_spec(),
    {
        self.threshold_ppm
    }

    /// The analyzer that finds the paths.
    pub fn analyzer(&self) -> (a: &ASTAnalyzer)
        ensures
            a.entries() == self.patterns(),
    {
        &self.analyzer
    }

    /// One suggestion for each low-probability path of the analysis, file
    /// by file and, within a file, in the order the paths were found.
    pub fn get_suggestions(&self, analysis: &DirectoryAnalysis) -> (r: Vec<PruningSuggestion>)
        ensures
            suggestion_views(r@) == suggestions_at(
                analysis.file_analyses@,
                low_places(analysis.file_analyses@, analysis.file_analyses@.len()),
            ),
    {
        let ghost fs = analysis.file_analyses@;
        let nf: usize = analysis.file_analyses.len();
        let mut out: Vec<PruningSuggestion> = Vec::new();
        let mut i: usize = 0;
        assert(suggestion_views(out@) =~= suggestions_at(fs, low_places(fs, 0)));
        while i < nf
            invariant
                i <= nf,
                nf == fs.len(),
                fs == analysis.file_analyses@,
                suggestion_views(out@) == suggestions_at(fs, low_places(fs, i as nat)),
            decreases nf - i,
        {
            let fa = &analysis.file_analyses[i];
            let np: usize = fa.low_prob_paths.len();
            let ghost base = low_places(fs, i as nat);
            let mut j: usize = 0;
            while j < np
                invariant
                    j <= np,
                    i < nf,
                    nf == fs.len(),
                    fs == analysis.file_analyses@,
                    *fa == fs[i as int],
                    np == fa.low_prob_paths@.len(),
                    base == low_places(fs, i as nat),
                    suggestion_views(out@) == suggestions_at(
                        fs,
                        base + Seq::new(j as nat, |k: int| (i as int, k)),
                    ),
                decreases np - j,
            {
                let s = suggestion_for_path(&fa.file_path, &fa.low_prob_paths[j]);
                let ghost before = out@;
                out.push(s);
                proof {
                    let ps = base + Seq::new(j as nat, |k: int| (i as int, k));
                    let ps2 = base + Seq::new((j + 1) as nat, |k: int| (i as int, k));
                    assert(ps2 =~= ps.push((i as int, j as int)));
                    assert(suggestion_views(out@) =~= suggestion_views(before).push(s@));
                    assert(suggestions_at(fs, ps2) =~= suggestions_at(fs, ps).push(
                        suggestion_at(fs[i as int].file_path@, fs[i as int].low_prob_paths@[j as int]@),
                    ));
                }
                j = j + 1;
            }
            proof {
                assert(Seq::new(np as nat, |k: int| (i as int, k)) =~= Seq::new(
                    fs[i as int].low_prob_paths@.len(),
                    |k: int| (i as int, k),
                ));
                assert(low_places(fs, (i + 1) as nat) == base + Seq::new(
                    fs[i as int].low_prob_paths@.len(),
                    |k: int| (i as int, k),
                ));
            }
            i = i + 1;
        }
        out
    }
}

impl Default for PathPruner {
    /// A pruner with a threshold of one in a hundred.
    fn default() -> (p: Self)
        ensures
            p.threshold_spec() == 10_000,
            p.patterns() == default_patterns(),
    {
        PathPruner::new(10_000)
    }
}

} // verus!

verus! {

/// The places of a low-probability pattern.
pub open spec fn low_place(es: Seq<PatternEntry>) -> spec_fn((int, int)) -> bool {
    |h: (int, int)| is_low(es[h.1].1)
}

proof fn lemma_line_hits_filtered(line: Seq<char>, ln: int, es: Seq<PatternEntry>, k: nat)
    requires
        k <= es.len(),
    ensures
        line_hits(line, ln, es, k, true) == line_hits(line, ln, es, k, false).filter(low_place(es)),
    decreases k,
{
    if k == 0 {
        assert(line_hits(line, ln, es, 0, false).filter(low_place(es)) =~= Seq::empty());
    } else {
        let j = (k - 1) as nat;
        lemma_line_hits_filtered(line, ln, es, j);
        let x: Seq<(int, int)> = if pattern_found(line, es[j as int].1.0) {
            seq![(ln, j as int)]
        } else {
            Seq::empty()
        };
        Seq::filter_distributes_over_add(line_hits(line, ln, es, j, false), x, low_place(es));
        reveal_with_fuel(Seq::filter, 2);
        if pattern_found(line, es[j as int].1.0) {
            assert(x.drop_last() =~= Seq::<(int, int)>::empty());
        }
        assert(x.filter(low_place(es)) =~= if pattern_found(line, es[j as int].1.0) && is_low(es[j as int].1) {
            seq![(ln, j as int)]
        } else {
            Seq::empty()
        });
    }
}

proof fn lemma_hits_upto_filtered(lines: Seq<Seq<char>>, es: Seq<PatternEntry>, n: nat)
    ensures
        hits_upto(lines, es, n, true) == hits_upto(lines, es, n, false).filter(low_place(es)),
    decreases n,
{
    if n == 0 {
        assert(hits_upto(lines, es, 0, false).filter(low_place(es)) =~= Seq::empty());
    } else {
        let m = (n - 1) as nat;
        lemma_hits_upto_filtered(lines, es, m);
        lemma_line_hits_filtered(lines[m as int], m as int, es, es.len());
        Seq::filter_distributes_over_add(
            hits_upto(lines, es, m, false),
            line_hits(lines[m as int], m as int, es, es.len(), false),
            low_place(es),
        );
    }
}

/// The low-probability paths of an analysis are exactly its paths whose
/// pattern may be pruned and is taken less than once in a hundred times,
/// in the same order.
pub proof fn lemma_low_paths_are_the_rare_paths(content: Seq<char>, es: Seq<PatternEntry>)
    ensures
        hits(content, es, true) == hits(content, es, false).filter(low_place(es)),
{
    lemma_hits_upto_filtered(lines_of(content), es, lines_of(content).len());
}

} // verus!
