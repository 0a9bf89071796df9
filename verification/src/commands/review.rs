//! `review`: scanning the added lines of staged changes for potential
//! secrets, debug artifacts and markers.
use regex::Regex;
use vstd::prelude::*;
use crate::config::Config;
use crate::display::tables::{render_table, table_text};
use crate::display::theme::{dim, dim_text, error, fg_text, warning};
use crate::git::diff::{files_model, DiffSummary, FileDiff, FileModel};
use crate::text::{
    chars_of, decimal, decimal_string, lines_of, split_lines, string_from, strings_view, to_string,
    trim_chars, trim_text,
};

verus! {

broadcast use vstd::string::group_string_axioms;

#[verifier::external_type_specification]
#[verifier::external_body]
pub struct ExRegex(Regex);

/// Whether `regex::Regex::new` accepts `pattern`.
pub uninterp spec fn regex_compiles(pattern: Seq<char>) -> bool;

/// Whether the regular expression `pattern` matches somewhere in `text`
/// (what `regex::Regex::is_match` answers).
pub uninterp spec fn regex_matches(pattern: Seq<char>, text: Seq<char>) -> bool;

/// The message of the error that `regex::Regex::new` reports for `pattern`.
pub uninterp spec fn regex_error_text(pattern: Seq<char>) -> Seq<char>;

/// A compiled regular expression, together with the source it was compiled from.
pub struct Pattern {
    source: String,
    re: Regex,
}

impl View for Pattern {
    type V = Seq<char>;

    /// The source that the expression was compiled from.
    closed spec fn view(&self) -> Seq<char> {
        self.source@
    }
}

/// `regex::Regex::new`: compiles `source`. The result is a function of the
/// source alone: whether it compiles, and the error message when it does not,
/// are named rather than stated.
#[verifier::external_body]
fn compile_regex(source: &str) -> (r: Result<Pattern, String>)
    ensures
        r is Ok <==> regex_compiles(source@),
        r matches Ok(p) ==> p@ == source@,
        r matches Err(e) ==> e@ == regex_error_text(source@),
{
    match Regex::new(source) {
        Ok(re) => Ok(Pattern { source: source.to_string(), re }),
        Err(e) => Err(e.to_string()),
    }
}

/// `regex::Regex::is_match`: whether the expression matches somewhere in `text`,
/// a function, named `regex_matches`, of the expression's source and the text.
#[verifier::external_body]
fn regex_is_match(p: &Pattern, text: &str) -> (r: bool)
    ensures
        r == regex_matches(p@, text@),
{
    p.re.is_match(text)
}

impl Pattern {
    /// Compiles a regular expression.
    pub fn new(source: &str) -> (r: Result<Pattern, String>)
        ensures
            r is Ok <==> regex_compiles(source@),
            r matches Ok(p) ==> p@ == source@,
            r matches Err(e) ==> e@ == regex_error_text(source@),
    {
        compile_regex(source)
    }

    /// Whether the expression matches somewhere in `text`.
    pub fn is_match(&self, text: &str) -> (r: bool)
        ensures
            r == regex_matches(self@, text@),
    {
        regex_is_match(self, text)
    }
}

/// `s` cut to at most `max` characters: a longer string keeps its first
/// `max - 1` characters and ends in an ellipsis.
pub open spec fn truncate_text(s: Seq<char>, max: nat) -> Seq<char> {
    if s.len() <= max {
        s
    } else if max == 0 {
        seq!['…']
    } else {
        s.take(max - 1) + seq!['…']
    }
}

/// Shortens `s` to at most `max` characters, marking a cut with `…`.
pub fn truncate(s: &str, max: usize) -> (r: String)
    ensures
        r@ == truncate_text(s@, max as nat),
{
    let v = chars_of(s);
    if v.len() <= max {
        to_string(s)
    } else {
        let keep = if max == 0 {
            0
        } else {
            max - 1
        };
        let mut r = string_from(&v, 0, keep);
        r.push('…');
        r
    }
}

/// A cut text is no longer than the limit, and a text within the limit is
/// left as it is (a limit of zero still leaves room for the ellipsis).
pub proof fn truncate_respects_limit(s: Seq<char>, max: nat)
    ensures
        s.len() <= max ==> truncate_text(s, max) == s,
        max > 0 ==> truncate_text(s, max).len() <= max,
        s.len() > max ==> truncate_text(s, max).last() == '…',
{
}

/// What a review looks for: lines matching `pattern` are reported with this
/// severity and category; matches of an error rule fail the review.
pub struct Rule {
    pub severity: String,
    pub category: String,
    pub pattern: Pattern,
    pub is_error: bool,
}

/// The abstract content of a `Rule`.
pub struct RuleModel {
    pub severity: Seq<char>,
    pub category: Seq<char>,
    pub pattern: Seq<char>,
    pub is_error: bool,
}

impl View for Rule {
    type V = RuleModel;

    open spec fn view(&self) -> RuleModel {
        RuleModel {
            severity: self.severity@,
            category: self.category@,
            pattern: self.pattern@,
            is_error: self.is_error,
        }
    }
}

/// The abstract rules.
pub open spec fn rules_model(rules: Seq<Rule>) -> Seq<RuleModel> {
    rules.map_values(|r: Rule| r@)
}

/// One reported issue.
pub struct FindingRow {
    pub severity: String,
    pub category: String,
    pub file: String,
    pub line: String,
    pub snippet: String,
}

/// The abstract content of a `FindingRow`.
pub struct FindingModel {
    pub severity: Seq<char>,
    pub category: Seq<char>,
    pub file: Seq<char>,
    pub line: Seq<char>,
    pub snippet: Seq<char>,
}

impl View for FindingRow {
    type V = FindingModel;

    open spec fn view(&self) -> FindingModel {
        FindingModel {
            severity: self.severity@,
            category: self.category@,
            file: self.file@,
            line: self.line@,
            snippet: self.snippet@,
        }
    }
}

/// The abstract findings.
pub open spec fn findings_model(rows: Seq<FindingRow>) -> Seq<FindingModel> {
    rows.map_values(|f: FindingRow| f@)
}

/// The finding that `rule` reports for the added line `content`, line
/// `line_no` of the patch of `path`: the line, trimmed and cut to 60 characters.
pub open spec fn finding_for(rule: RuleModel, path: Seq<char>, line_no: nat, content: Seq<char>) -> FindingModel {
    FindingModel {
        severity: rule.severity,
        category: rule.category,
        file: path,
        line: decimal(line_no),
        snippet: truncate_text(trim_text(content), 60),
    }
}

/// The findings of the rules, in order, that match the added line `content`.
pub open spec fn line_findings(rules: Seq<RuleModel>, path: Seq<char>, line_no: nat, content: Seq<char>) -> Seq<FindingModel>
    decreases rules.len(),
{
    if rules.len() == 0 {
        seq![]
    } else if regex_matches(rules.last().pattern, content) {
        line_findings(rules.drop_last(), path, line_no, content).push(
            finding_for(rules.last(), path, line_no, content),
        )
    } else {
        line_findings(rules.drop_last(), path, line_no, content)
    }
}

/// The findings in the lines of a patch: only added lines (those starting
/// with `+`) are scanned, without their `+`; lines are numbered from 1.
pub open spec fn patch_findings(rules: Seq<RuleModel>, path: Seq<char>, lines: Seq<Seq<char>>) -> Seq<FindingModel>
    decreases lines.len(),
{
    if lines.len() == 0 {
        seq![]
    } else {
        let line = lines.last();
        patch_findings(rules, path, lines.drop_last()) + if seq!['+'].is_prefix_of(line) {
            line_findings(rules, path, lines.len(), line.skip(1))
        } else {
            seq![]
        }
    }
}

/// The findings in every file of a diff, file by file.
pub open spec fn diff_findings(rules: Seq<RuleModel>, files: Seq<FileModel>) -> Seq<FindingModel>
    decreases files.len(),
{
    if files.len() == 0 {
        seq![]
    } else {
        diff_findings(rules, files.drop_last()) + patch_findings(
            rules,
            files.last().path,
            lines_of(files.last().patch),
        )
    }
}

/// Some error rule matches the added line `content`.
pub open spec fn line_has_error(rules: Seq<RuleModel>, content: Seq<char>) -> bool {
    exists|j: int| 0 <= j < rules.len() && rules[j].is_error && regex_matches(rules[j].pattern, content)
}

/// Some added line of the patch matches an error rule.
pub open spec fn patch_has_error(rules: Seq<RuleModel>, lines: Seq<Seq<char>>) -> bool {
    exists|k: int| 0 <= k < lines.len() && seq!['+'].is_prefix_of(lines[k]) && line_has_error(rules, #[trigger] lines[k].skip(1))
}

/// Some added line of some file matches an error rule.
pub open spec fn diff_has_error(rules: Seq<RuleModel>, files: Seq<FileModel>) -> bool {
    exists|i: int| 0 <= i < files.len() && #[trigger] patch_has_error(rules, lines_of(files[i].patch))
}

fn scan_line(rules: &Vec<Rule>, path: &String, line_no: usize, content: &String, out: &mut Vec<FindingRow>) -> (has_error: bool)
    ensures
        findings_model(final(out)@) == findings_model(old(out)@) + line_findings(
            rules_model(rules@),
            path@,
            line_no as nat,
            content@,
        ),
        has_error == line_has_error(rules_model(rules@), content@),
{
    let cv = chars_of(content.as_str());
    let trimmed = trim_chars(&cv);
    let snippet_src = string_from(&trimmed, 0, trimmed.len());
    let snippet = truncate(snippet_src.as_str(), 60);
    let line = decimal_string(line_no as u128);
    let ghost start = findings_model(out@);
    let ghost rm = rules_model(rules@);
    let mut has_error = false;
    let mut j: usize = 0;
    assert(rm.take(0) =~= Seq::<RuleModel>::empty());
    assert(findings_model(out@) =~= start + line_findings(rm.take(0), path@, line_no as nat, content@));
    while j < rules.len()
        invariant
            j <= rules.len(),
            rm == rules_model(rules@),
            findings_model(out@) == start + line_findings(rm.take(j as int), path@, line_no as nat, content@),
            has_error == exists|k: int| 0 <= k < j && rm[k].is_error && regex_matches(rm[k].pattern, content@),
            snippet@ == truncate_text(trim_text(content@), 60),
            line@ == decimal(line_no as nat),
        decreases rules.len() - j,
    {
        assert(rm.take(j + 1).drop_last() =~= rm.take(j as int));
        let rule = &rules[j];
        if rule.pattern.is_match(content.as_str()) {
            let ghost before = out@;
            out.push(FindingRow {
                severity: rule.severity.clone(),
                category: rule.category.clone(),
                file: path.clone(),
                line: line.clone(),
                snippet: snippet.clone(),
            });
            assert(findings_model(out@) =~= findings_model(before).push(
                finding_for(rm[j as int], path@, line_no as nat, content@),
            ));
            if rule.is_error {
                has_error = true;
            }
        }
        j = j + 1;
    }
    assert(rm.take(rules.len() as int) =~= rm);
    has_error
}

fn scan_patch(rules: &Vec<Rule>, path: &String, patch: &String, out: &mut Vec<FindingRow>) -> (has_error: bool)
    ensures
        findings_model(final(out)@) == findings_model(old(out)@) + patch_findings(
            rules_model(rules@),
            path@,
            lines_of(patch@),
        ),
        has_error == patch_has_error(rules_model(rules@), lines_of(patch@)),
{
    let lines = split_lines(patch.as_str());
    let ghost lm = lines_of(patch@);
    let ghost rm = rules_model(rules@);
    let ghost start = findings_model(out@);
    let mut has_error = false;
    let mut k: usize = 0;
    assert(lm.take(0) =~= Seq::<Seq<char>>::empty());
    assert(findings_model(out@) =~= start + patch_findings(rm, path@, lm.take(0)));
    while k < lines.len()
        invariant
            k <= lines.len(),
            lines@.map_values(|l: String| l@) == lm,
            rm == rules_model(rules@),
            findings_model(out@) == start + patch_findings(rm, path@, lm.take(k as int)),
            has_error == exists|m: int| 0 <= m < k && seq!['+'].is_prefix_of(lm[m]) && line_has_error(rm, #[trigger] lm[m].skip(1)),
        decreases lines.len() - k,
    {
        assert(lm.take(k + 1).drop_last() =~= lm.take(k as int));
        assert(lm.take(k + 1).last() == lm[k as int]);
        let lv = chars_of(lines[k].as_str());
        assert(lv@ == lm[k as int]);
        if lv.len() > 0 && lv[0] == '+' {
            assert(seq!['+'].is_prefix_of(lm[k as int]));
            let content = string_from(&lv, 1, lv.len());
            assert(content@ =~= lm[k as int].skip(1));
            let ghost before = findings_model(out@);
            let e = scan_line(rules, path, k + 1, &content, out);
            assert(findings_model(out@) =~= start + patch_findings(rm, path@, lm.take(k + 1)));
            if e {
                has_error = true;
            }
        } else {
            assert(!seq!['+'].is_prefix_of(lm[k as int])) by {
                if seq!['+'].is_prefix_of(lm[k as int]) {
                    assert(lm[k as int].subrange(0, 1)[0] == '+');
                }
            }
            assert(findings_model(out@) =~= start + patch_findings(rm, path@, lm.take(k + 1)));
        }
        k = k + 1;
    }
    assert(lm.take(lines.len() as int) =~= lm);
    has_error
}

/// The findings of `rules` in the added lines of `files`, and whether an
/// error rule matched.
pub fn scan_diff(files: &Vec<FileDiff>, rules: &Vec<Rule>) -> (r: (Vec<FindingRow>, bool))
    ensures
        findings_model(r.0@) == diff_findings(rules_model(rules@), files_model(files@)),
        r.1 == diff_has_error(rules_model(rules@), files_model(files@)),
{
    let mut out: Vec<FindingRow> = Vec::new();
    let ghost fm = files_model(files@);
    let ghost rm = rules_model(rules@);
    let mut has_error = false;
    let mut i: usize = 0;
    assert(fm.take(0) =~= Seq::<FileModel>::empty());
    assert(findings_model(out@) =~= diff_findings(rm, fm.take(0)));
    while i < files.len()
        invariant
            i <= files.len(),
            fm == files_model(files@),
            rm == rules_model(rules@),
            findings_model(out@) == diff_findings(rm, fm.take(i as int)),
            has_error == exists|m: int| 0 <= m < i && #[trigger] patch_has_error(rm, lines_of(fm[m].patch)),
        decreases files.len() - i,
    {
        assert(fm.take(i + 1).drop_last() =~= fm.take(i as int));
        let e = scan_patch(rules, &files[i].path, &files[i].patch, &mut out);
        assert(findings_model(out@) =~= diff_findings(rm, fm.take(i + 1)));
        if e {
            has_error = true;
        }
        i = i + 1;
    }
    assert(fm.take(files.len() as int) =~= fm);
    (out, has_error)
}

/// A review fails on a potential secret in any staged file: whenever an
/// added line (one starting with `+`) of any file, without its `+`, matches
/// an error rule, the diff has an error, whatever files come before or after
/// that file.
pub proof fn review_fails_on_any_secret(rules: Seq<RuleModel>, files: Seq<FileModel>, k: int, j: int, r: int)
    requires
        0 <= k < files.len(),
        0 <= j < lines_of(files[k].patch).len(),
        seq!['+'].is_prefix_of(lines_of(files[k].patch)[j]),
        0 <= r < rules.len(),
        rules[r].is_error,
        regex_matches(rules[r].pattern, lines_of(files[k].patch)[j].skip(1)),
    ensures
        diff_has_error(rules, files),
{
    let lines = lines_of(files[k].patch);
    assert(line_has_error(rules, lines[j].skip(1)));
    assert(patch_has_error(rules, lines));
}

/// A review fails only on a potential secret: when the diff has an error,
/// some added line of some file, without its `+`, matches an error rule.
pub proof fn review_fails_only_on_a_secret(rules: Seq<RuleModel>, files: Seq<FileModel>)
    requires
        diff_has_error(rules, files),
    ensures
        exists|k: int, j: int, r: int|
            0 <= k < files.len() && 0 <= j < lines_of(files[k].patch).len() && seq!['+'].is_prefix_of(
                #[trigger] lines_of(files[k].patch)[j],
            ) && 0 <= r < rules.len() && rules[r].is_error && #[trigger] regex_matches(
                rules[r].pattern,
                lines_of(files[k].patch)[j].skip(1),
            ),
{
    let k = choose|k: int| 0 <= k < files.len() && #[trigger] patch_has_error(rules, lines_of(files[k].patch));
    let lines = lines_of(files[k].patch);
    let j = choose|j: int| 0 <= j < lines.len() && seq!['+'].is_prefix_of(lines[j]) && line_has_error(rules, #[trigger] lines[j].skip(1));
    let r = choose|r: int| 0 <= r < rules.len() && rules[r].is_error && regex_matches(rules[r].pattern, lines[j].skip(1));
    assert(regex_matches(rules[r].pattern, lines_of(files[k].patch)[j].skip(1)));
}

} // verus!

verus! {

/// The severity shown for a potential secret: "error", in red.
pub open spec fn error_severity() -> Seq<char> {
    fg_text(seq!['3', '1'], "error"@)
}

/// The severity shown for a debug artifact or a large diff: "warning", in yellow.
pub open spec fn warning_severity() -> Seq<char> {
    fg_text(seq!['3', '3'], "warning"@)
}

/// The severity shown for a marker: "info", dimmed.
pub open spec fn info_severity() -> Seq<char> {
    dim_text("info"@)
}

/// One error rule for each configured secret pattern that compiles, in order.
pub open spec fn secret_rules(patterns: Seq<Seq<char>>) -> Seq<RuleModel>
    decreases patterns.len(),
{
    if patterns.len() == 0 {
        seq![]
    } else if regex_compiles(patterns.last()) {
        secret_rules(patterns.drop_last()).push(
            RuleModel {
                severity: error_severity(),
                category: "Potential secret"@,
                pattern: patterns.last(),
                is_error: true,
            },
        )
    } else {
        secret_rules(patterns.drop_last())
    }
}

/// A warning for each configured secret pattern that does not compile, in order.
pub open spec fn pattern_warnings(patterns: Seq<Seq<char>>) -> Seq<Seq<char>>
    decreases patterns.len(),
{
    if patterns.len() == 0 {
        seq![]
    } else if regex_compiles(patterns.last()) {
        pattern_warnings(patterns.drop_last())
    } else {
        pattern_warnings(patterns.drop_last()).push(
            fg_text(
                seq!['3', '3'],
                "Invalid review pattern '"@ + patterns.last() + "': "@ + regex_error_text(
                    patterns.last(),
                ),
            ),
        )
    }
}

/// Non-error rules for labelled patterns that compile: category `prefix` + label.
pub open spec fn labelled_rules(
    checks: Seq<(Seq<char>, Seq<char>)>,
    severity: Seq<char>,
    prefix: Seq<char>,
) -> Seq<RuleModel>
    decreases checks.len(),
{
    if checks.len() == 0 {
        seq![]
    } else if regex_compiles(checks.last().1) {
        labelled_rules(checks.drop_last(), severity, prefix).push(
            RuleModel {
                severity,
                category: prefix + checks.last().0,
                pattern: checks.last().1,
                is_error: false,
            },
        )
    } else {
        labelled_rules(checks.drop_last(), severity, prefix)
    }
}

/// The debug artifacts that review looks for: (label, regular expression).
pub open spec fn debug_checks() -> Seq<(Seq<char>, Seq<char>)> {
    seq![
        ("println!"@, "println!\\s*\\("@),
        ("dbg!"@, "dbg!\\s*\\("@),
        ("console.log"@, "console\\.log\\s*\\("@),
        ("print!"@, "\\bprint!\\s*\\("@),
        ("var_dump"@, "\\bvar_dump\\s*\\("@),
    ]
}

/// The markers that review looks for: (label, regular expression).
pub open spec fn marker_checks() -> Seq<(Seq<char>, Seq<char>)> {
    seq![
        ("TODO"@, "\\bTODO\\b"@),
        ("FIXME"@, "\\bFIXME\\b"@),
        ("HACK"@, "\\bHACK\\b"@),
        ("XXX"@, "\\bXXX\\b"@),
    ]
}

/// All rules of a review, in the order in which they are tried on a line:
/// secrets, then debug artifacts, then markers.
pub open spec fn review_rules_model(patterns: Seq<Seq<char>>) -> Seq<RuleModel> {
    secret_rules(patterns) + labelled_rules(debug_checks(), warning_severity(), "Debug: "@)
        + labelled_rules(marker_checks(), info_severity(), "Marker: "@)
}

fn push_labelled_rules(
    rules: &mut Vec<Rule>,
    checks: &Vec<(&str, &str)>,
    severity: &String,
    prefix: &str,
)
    ensures
        rules_model(final(rules)@) == rules_model(old(rules)@) + labelled_rules(
            checks@.map_values(|c: (&str, &str)| (c.0@, c.1@)),
            severity@,
            prefix@,
        ),
{
    let ghost cm = checks@.map_values(|c: (&str, &str)| (c.0@, c.1@));
    let ghost start = rules_model(rules@);
    let mut i: usize = 0;
    assert(cm.take(0) =~= Seq::<(Seq<char>, Seq<char>)>::empty());
    assert(rules_model(rules@) =~= start + labelled_rules(cm.take(0), severity@, prefix@));
    while i < checks.len()
        invariant
            i <= checks.len(),
            cm == checks@.map_values(|c: (&str, &str)| (c.0@, c.1@)),
            rules_model(rules@) == start + labelled_rules(cm.take(i as int), severity@, prefix@),
        decreases checks.len() - i,
    {
        assert(cm.take(i + 1).drop_last() =~= cm.take(i as int));
        let (label, source) = checks[i];
        match Pattern::new(source) {
            Ok(pattern) => {
                let mut category = to_string(prefix);
                category.append(label);
                let ghost before = rules@;
                rules.push(Rule { severity: severity.clone(), category, pattern, is_error: false });
                assert(rules_model(rules@) =~= rules_model(before).push(
                    labelled_rules(cm.take(i + 1), severity@, prefix@).last(),
                ));
            },
            Err(_) => {},
        }
        i = i + 1;
    }
    assert(cm.take(checks.len() as int) =~= cm);
}

/// Compiles the rules of a review from the configured secret patterns,
/// with a warning for each pattern that does not compile.
pub fn review_rules(patterns: &Vec<String>) -> (r: (Vec<Rule>, Vec<String>))
    ensures
        rules_model(r.0@) == review_rules_model(strings_view(patterns@)),
        strings_view(r.1@) == pattern_warnings(strings_view(patterns@)),
{
    let ghost pm = strings_view(patterns@);
    let mut rules: Vec<Rule> = Vec::new();
    let mut warnings: Vec<String> = Vec::new();
    let error_sev = error("error");
    let mut i: usize = 0;
    assert(pm.take(0) =~= Seq::<Seq<char>>::empty());
    while i < patterns.len()
        invariant
            i <= patterns.len(),
            pm == strings_view(patterns@),
            error_sev@ == error_severity(),
            rules_model(rules@) == secret_rules(pm.take(i as int)),
            strings_view(warnings@) == pattern_warnings(pm.take(i as int)),
        decreases patterns.len() - i,
    {
        assert(pm.take(i + 1).drop_last() =~= pm.take(i as int));
        assert(pm.take(i + 1).last() == patterns@[i as int]@);
        match Pattern::new(patterns[i].as_str()) {
            Ok(pattern) => {
                let ghost before = rules@;
                rules.push(
                    Rule {
                        severity: error_sev.clone(),
                        category: to_string("Potential secret"),
                        pattern,
                        is_error: true,
                    },
                );
                assert(rules_model(rules@) =~= secret_rules(pm.take(i + 1)));
                assert(strings_view(warnings@) =~= pattern_warnings(pm.take(i + 1)));
            },
            Err(e) => {
                let mut msg = to_string("Invalid review pattern '");
                msg.append(patterns[i].as_str());
                msg.append("': ");
                msg.append(e.as_str());
                let w = warning(msg.as_str());
                let ghost before = warnings@;
                warnings.push(w);
                assert(strings_view(warnings@) =~= strings_view(before).push(w@));
                assert(strings_view(warnings@) =~= pattern_warnings(pm.take(i + 1)));
            },
        }
        i = i + 1;
    }
    assert(pm.take(patterns.len() as int) =~= pm);
    let debug: Vec<(&str, &str)> = vec![
        ("println!", "println!\\s*\\("),
        ("dbg!", "dbg!\\s*\\("),
        ("console.log", "console\\.log\\s*\\("),
        ("print!", "\\bprint!\\s*\\("),
        ("var_dump", "\\bvar_dump\\s*\\("),
    ];
    let markers: Vec<(&str, &str)> = vec![
        ("TODO", "\\bTODO\\b"),
        ("FIXME", "\\bFIXME\\b"),
        ("HACK", "\\bHACK\\b"),
        ("XXX", "\\bXXX\\b"),
    ];
    assert(debug@.map_values(|c: (&str, &str)| (c.0@, c.1@)) =~= debug_checks());
    assert(markers@.map_values(|c: (&str, &str)| (c.0@, c.1@)) =~= marker_checks());
    let warning_sev = warning("warning");
    let info_sev = dim("info");
    push_labelled_rules(&mut rules, &debug, &warning_sev, "Debug: ");
    push_labelled_rules(&mut rules, &markers, &info_sev, "Marker: ");
    (rules, warnings)
}

/// The finding reported for a staged diff of `total` changed lines that is
/// larger than the configured threshold.
pub open spec fn large_diff_finding(total: nat) -> FindingModel {
    FindingModel {
        severity: warning_severity(),
        category: "Large diff"@,
        file: Seq::empty(),
        line: Seq::empty(),
        snippet: decimal(total) + " lines changed"@,
    }
}

/// The outcome of reviewing staged changes.
pub struct ReviewReport {
    /// Nothing is staged; nothing was reviewed.
    pub nothing_staged: bool,
    /// Warnings about configured secret patterns that do not compile.
    pub pattern_warnings: Vec<String>,
    pub findings: Vec<FindingRow>,
    /// 1 when a potential secret was found, else 0.
    pub exit_code: i32,
}

/// Reviews a staged diff: a warning when more lines changed than the
/// configured threshold, then every match of a review rule in an added line.
/// The review fails (exit code 1) exactly when a potential secret is found.
pub fn review(diff: &DiffSummary, config: &Config) -> (r: ReviewReport)
    requires
        diff.wf(),
    ensures
        diff.files@.len() == 0 ==> r.nothing_staged && r.findings@.len() == 0
            && r.pattern_warnings@.len() == 0 && r.exit_code == 0,
        diff.files@.len() > 0 ==> {
            let total = diff.total_additions + diff.total_deletions;
            let rules = review_rules_model(strings_view(config.review_secrets_patterns@));
            &&& !r.nothing_staged
            &&& strings_view(r.pattern_warnings@) == pattern_warnings(
                strings_view(config.review_secrets_patterns@),
            )
            &&& findings_model(r.findings@) == (if total > config.review_diff_threshold {
                seq![large_diff_finding(total as nat)]
            } else {
                Seq::<FindingModel>::empty()
            }) + diff_findings(rules, files_model(diff.files@))
            &&& r.exit_code == (if diff_has_error(rules, files_model(diff.files@)) {
                1int
            } else {
                0int
            })
        },
{
    if diff.files.len() == 0 {
        return ReviewReport {
            nothing_staged: true,
            pattern_warnings: Vec::new(),
            findings: Vec::new(),
            exit_code: 0,
        };
    }
    let total: u128 = diff.total_additions as u128 + diff.total_deletions as u128;
    let mut findings: Vec<FindingRow> = Vec::new();
    if total > config.review_diff_threshold as u128 {
        let mut snippet = decimal_string(total);
        snippet.append(" lines changed");
        findings.push(
            FindingRow {
                severity: warning("warning"),
                category: to_string("Large diff"),
                file: String::new(),
                line: String::new(),
                snippet,
            },
        );
    }
    let (rules, pattern_warnings) = review_rules(&config.review_secrets_patterns);
    let (mut scanned, has_error) = scan_diff(&diff.files, &rules);
    let ghost large = findings_model(findings@);
    findings.append(&mut scanned);
    assert(findings_model(findings@) =~= large + diff_findings(
        review_rules_model(strings_view(config.review_secrets_patterns@)),
        files_model(diff.files@),
    ));
    let exit_code = if has_error {
        1
    } else {
        0
    };
    ReviewReport { nothing_staged: false, pattern_warnings, findings, exit_code }
}

/// The records of the table of findings: the header, then severity,
/// category, file, line and snippet of each finding.
pub open spec fn finding_records(findings: Seq<FindingModel>) -> Seq<Seq<Seq<char>>> {
    seq![seq!["Severity"@, "Category"@, "File"@, "Line"@, "Snippet"@]] + findings.map_values(
        |f: FindingModel| seq![f.severity, f.category, f.file, f.line, f.snippet],
    )
}

fn record5(a: &String, b: &String, c: &String, d: &String, e: &String) -> (r: Vec<String>)
    ensures
        r.deep_view() == seq![a@, b@, c@, d@, e@],
{
    let r = vec![a.clone(), b.clone(), c.clone(), d.clone(), e.clone()];
    assert(r.deep_view() =~= seq![a@, b@, c@, d@, e@]);
    r
}

/// The table of findings, laid out by tabled.
pub fn findings_table(findings: &Vec<FindingRow>) -> (r: String)
    ensures
        r@ == table_text(finding_records(findings_model(findings@))),
{
    let ghost fm = findings_model(findings@);
    let mut records: Vec<Vec<String>> = Vec::new();
    records.push(
        record5(
            &to_string("Severity"),
            &to_string("Category"),
            &to_string("File"),
            &to_string("Line"),
            &to_string("Snippet"),
        ),
    );
    let mut i: usize = 0;
    while i < findings.len()
        invariant
            i <= findings.len(),
            fm == findings_model(findings@),
            records.deep_view() == finding_records(fm.take(i as int)),
        decreases findings.len() - i,
    {
        let ghost before = records.deep_view();
        let f = &findings[i];
        let rec = record5(&f.severity, &f.category, &f.file, &f.line, &f.snippet);
        records.push(rec);
        assert(fm.take(i + 1).drop_last() =~= fm.take(i as int));
        assert(records.deep_view() =~= before.push(rec.deep_view()));
        assert(finding_records(fm.take(i + 1)) =~= finding_records(fm.take(i as int)).push(rec.deep_view()));
        i = i + 1;
    }
    assert(fm.take(findings.len() as int) =~= fm);
    render_table(records)
}

} // verus!
