//! The rule orchestrator: it owns the parsed files and the registered
//! rules, runs every rule over a freshly parsed file, and filters the
//! findings through the suppression engine.

use vstd::prelude::*;

use crate::ast::{File, FileV};
use crate::diag::{FileDiags, LintDiag, LintDiagV, RuleEntry, RuleEntryV};
use crate::rules::{LintRule, LintRuleV, RuleFactory, create_default_rules, file_wf, rule_diags, spec_create_rule};
use crate::suppress::{DirectiveSyntax, SyntaxV, spec_diag_ignored, diag_ignored};
use crate::text::str_eq;

verus! {

/// One parsed file of the store: its tree, its path, and its raw text.
#[derive(Debug)]
pub struct SolidFile {
    pub data: File,
    pub path: String,
    pub content: String,
}

/// Mirror of [`SolidFile`].
pub struct SolidFileV {
    pub data: FileV,
    pub path: Seq<char>,
    pub content: Seq<char>,
}

impl DeepView for SolidFile {
    type V = SolidFileV;

    open spec fn deep_view(&self) -> SolidFileV {
        SolidFileV { data: self.data.deep_view(), path: self.path@, content: self.content@ }
    }
}

/// The directive spellings the linter scans for.
pub open spec fn solidhunter_syntax() -> SyntaxV {
    SyntaxV {
        same_line: "solidhunter-disable-line"@,
        next_line: "solidhunter-disable-next-line"@,
        enable: "solidhunter-enable"@,
        disable: "solidhunter-disable"@,
    }
}

} // verus!

verus! {

// ---------------------------------------------------------------------------
// Store semantics
// ---------------------------------------------------------------------------

/// No two stored files share a path.
pub open spec fn paths_distinct(files: Seq<SolidFileV>) -> bool {
    forall|i: int, j: int|
        0 <= i < j < files.len() ==> (#[trigger] files[i]).path != (#[trigger] files[j]).path
}

/// Index of the first stored file with the given path.
pub open spec fn first_path_index(files: Seq<SolidFileV>, path: Seq<char>) -> Option<int>
    decreases files,
{
    if files.len() == 0 {
        None
    } else if files[0].path == path {
        Some(0)
    } else {
        match first_path_index(files.subrange(1, files.len() as int), path) {
            Some(k) => Some(k + 1),
            None => None,
        }
    }
}

pub proof fn lemma_first_path_index(files: Seq<SolidFileV>, path: Seq<char>)
    ensures
        match first_path_index(files, path) {
            Some(i) => 0 <= i < files.len() && files[i].path == path && (forall|k: int|
                0 <= k < i ==> (#[trigger] files[k]).path != path),
            None => forall|k: int| 0 <= k < files.len() ==> (#[trigger] files[k]).path != path,
        },
    decreases files,
{
    if files.len() > 0 && files[0].path != path {
        let tail = files.subrange(1, files.len() as int);
        lemma_first_path_index(tail, path);
        match first_path_index(files, path) {
            Some(i) => {
                assert(first_path_index(tail, path) == Some(i - 1));
                assert(tail[i - 1] == files[i]);
                assert forall|k: int| 0 <= k < i implies (#[trigger] files[k]).path != path by {
                    if k > 0 {
                        assert(tail[k - 1] == files[k]);
                        assert(tail[k - 1].path != path);
                    }
                }
            },
            None => {
                assert forall|k: int|
                    0 <= k < files.len() implies (#[trigger] files[k]).path != path by {
                    if k > 0 {
                        assert(tail[k - 1] == files[k]);
                    }
                }
            },
        }
    }
}

/// Replace-by-path: a stored file with the same path is overwritten in
/// place, a new path is appended.
pub open spec fn spec_upsert(
    files: Seq<SolidFileV>,
    path: Seq<char>,
    ast: FileV,
    content: Seq<char>,
) -> Seq<SolidFileV> {
    let newfile = SolidFileV { data: ast, path, content };
    match first_path_index(files, path) {
        Some(i) => files.update(i, newfile),
        None => files.push(newfile),
    }
}

/// How many stored files carry the path.
pub open spec fn count_path(files: Seq<SolidFileV>, path: Seq<char>) -> int
    decreases files,
{
    if files.len() == 0 {
        0
    } else {
        (if files[0].path == path { 1int } else { 0int }) + count_path(
            files.subrange(1, files.len() as int),
            path,
        )
    }
}

/// The store without any file of the given path.
pub open spec fn keep_others(files: Seq<SolidFileV>, path: Seq<char>) -> Seq<SolidFileV>
    decreases files,
{
    if files.len() == 0 {
        Seq::empty()
    } else {
        (if files[0].path != path { seq![files[0]] } else { Seq::empty() }) + keep_others(
            files.subrange(1, files.len() as int),
            path,
        )
    }
}

/// The rules a list of entries builds: entries with unknown identifiers
/// build nothing.
pub open spec fn rules_of_entries(es: Seq<RuleEntryV>) -> Seq<LintRuleV>
    decreases es,
{
    if es.len() == 0 {
        Seq::empty()
    } else {
        (match spec_create_rule(es[0]) {
            Some(r) => seq![r],
            None => Seq::empty(),
        }) + rules_of_entries(es.subrange(1, es.len() as int))
    }
}

/// The findings that survive suppression, in emission order.
pub open spec fn filter_suppressed(diags: Seq<LintDiagV>, content: Seq<char>) -> Seq<LintDiagV>
    decreases diags,
{
    if diags.len() == 0 {
        Seq::empty()
    } else {
        (if !spec_diag_ignored(
            content,
            solidhunter_syntax(),
            diags[0].range.start.line as int,
            diags[0].id,
        ) {
            seq![diags[0]]
        } else {
            Seq::empty()
        }) + filter_suppressed(diags.subrange(1, diags.len() as int), content)
    }
}

/// What one parse reports: every rule's findings on the new file, in rule
/// registration order, each filtered through the suppression engine.
pub open spec fn parse_diags(rules: Seq<LintRuleV>, file: SolidFileV) -> Seq<LintDiagV>
    decreases rules,
{
    if rules.len() == 0 {
        Seq::empty()
    } else {
        filter_suppressed(rule_diags(rules[0], file), file.content) + parse_diags(
            rules.subrange(1, rules.len() as int),
            file,
        )
    }
}

} // verus!

verus! {

/// The linter core: the file store and the registered rules.
#[derive(Debug)]
pub struct SolidLinter {
    pub files: Vec<SolidFile>,
    pub rule_factory: RuleFactory,
    pub rules: Vec<LintRule>,
}

impl SolidLinter {
    /// The store invariant every operation preserves.
    pub open spec fn wf(self) -> bool {
        paths_distinct(self.files.deep_view())
    }

    /// A linter with no files and no rules.
    pub fn new() -> (r: Self)
        ensures
            r.files@.len() == 0,
            r.rules@.len() == 0,
            r.wf(),
    {
        SolidLinter { files: Vec::new(), rule_factory: RuleFactory::default(), rules: Vec::new() }
    }

    /// A linter with no files and the default rule set.
    pub fn new_fileless() -> (r: Self)
        ensures
            r.files@.len() == 0,
            r.rules.deep_view() == rules_of_entries(
                seq![crate::rules::fml_default_entry(), crate::rules::enc_default_entry()],
            ),
            r.wf(),
    {
        let default_rules = create_default_rules();
        let mut linter = SolidLinter {
            files: Vec::new(),
            rule_factory: RuleFactory::default(),
            rules: Vec::new(),
        };
        linter.initialize_rules(default_rules);
        proof {
            assert(Seq::<LintRuleV>::empty() + rules_of_entries(
                seq![crate::rules::fml_default_entry(), crate::rules::enc_default_entry()],
            ) =~= rules_of_entries(
                seq![crate::rules::fml_default_entry(), crate::rules::enc_default_entry()],
            ));
        }
        linter
    }

    /// Register the given rule entries, in order; entries naming no known
    /// rule are dropped.
    #[verifier::loop_isolation(false)]
    pub fn initialize_rules(&mut self, entries: Vec<RuleEntry>)
        ensures
            final(self).rules.deep_view() == old(self).rules.deep_view() + rules_of_entries(
                entries.deep_view(),
            ),
            final(self).files == old(self).files,
    {
        let ghost total = old(self).rules.deep_view() + rules_of_entries(entries.deep_view());
        let mut entries = entries;
        proof {
            assert(self.rules.deep_view() + rules_of_entries(entries.deep_view()) =~~= total);
        }
        while entries.len() > 0
            invariant
                self.rules.deep_view() + rules_of_entries(entries.deep_view()) =~~= total,
                self.files == old(self).files,
            decreases entries.len(),
        {
            let ghost ev = entries.deep_view();
            let e = entries.remove(0);
            proof {
                assert(entries.deep_view() =~~= ev.subrange(1, ev.len() as int));
                assert(ev[0] == e.deep_view());
            }
            let built = self.rule_factory.create_rule(e);
            match built {
                Some(rule) => {
                    let ghost old_rules = self.rules.deep_view();
                    self.rules.push(rule);
                    proof {
                        assert(self.rules.deep_view() =~~= old_rules.push(
                            spec_create_rule(ev[0])->0,
                        ));
                        assert(self.rules.deep_view() + rules_of_entries(entries.deep_view())
                            =~~= total);
                    }
                },
                None => {
                    proof {
                        assert(self.rules.deep_view() + rules_of_entries(entries.deep_view())
                            =~~= total);
                    }
                },
            }
        }
        proof {
            assert(rules_of_entries(entries.deep_view()) =~~= Seq::<LintRuleV>::empty());
            assert(self.rules.deep_view() =~~= total);
        }
    }

    /// Whether a file with this path is stored.
    #[verifier::loop_isolation(false)]
    pub fn _file_exists(&self, path: &str) -> (r: bool)
        ensures
            r == (first_path_index(self.files.deep_view(), path@) is Some),
    {
        proof {
            lemma_first_path_index(self.files.deep_view(), path@);
        }
        let n = self.files.len();
        let mut i: usize = 0;
        while i < n
            invariant
                i <= n,
                n == self.files@.len(),
                forall|k: int|
                    0 <= k < i ==> (#[trigger] self.files.deep_view()[k]).path != path@,
            decreases n - i,
        {
            if str_eq(self.files[i].path.as_str(), path) {
                proof {
                    assert(self.files.deep_view()[i as int].path == path@);
                }
                return true;
            }
            i += 1;
        }
        false
    }

    /// Store a freshly parsed file, replacing any stored file of the same
    /// path; returns the index the file now sits at.
    #[verifier::loop_isolation(false)]
    fn _add_file(&mut self, path: &str, ast: File, content: &str) -> (idx: usize)
        ensures
            final(self).files.deep_view() == spec_upsert(
                old(self).files.deep_view(),
                path@,
                ast.deep_view(),
                content@,
            ),
            idx < final(self).files@.len(),
            final(self).files.deep_view()[idx as int] == (SolidFileV {
                data: ast.deep_view(),
                path: path@,
                content: content@,
            }),
            final(self).rules == old(self).rules,
            old(self).wf() ==> final(self).wf(),
    {
        let ghost fv = self.files.deep_view();
        proof {
            lemma_first_path_index(fv, path@);
        }
        let newfile = SolidFile {
            data: ast,
            path: String::from_str(path),
            content: String::from_str(content),
        };
        let n = self.files.len();
        let mut i: usize = 0;
        while i < n
            invariant
                i <= n,
                n == self.files@.len(),
                *self == *old(self),
                fv == self.files.deep_view(),
                forall|k: int| 0 <= k < i ==> (#[trigger] fv[k]).path != path@,
            decreases n - i,
        {
            if str_eq(self.files[i].path.as_str(), path) {
                proof {
                    assert(fv[i as int].path == path@);
                    assert(first_path_index(fv, path@) == Some(i as int));
                }
                self.files.remove(i);
                self.files.insert(i, newfile);
                proof {
                    assert(self.files.deep_view() =~~= fv.update(
                        i as int,
                        SolidFileV { data: ast.deep_view(), path: path@, content: content@ },
                    ));
                    if old(self).wf() {
                        assert(paths_distinct(self.files.deep_view())) by {
                            let cur = self.files.deep_view();
                            assert forall|a: int, b: int|
                                0 <= a < b < cur.len() implies (#[trigger] cur[a]).path
                                != (#[trigger] cur[b]).path by {
                                if a != i && b != i {
                                    assert(cur[a] == fv[a] && cur[b] == fv[b]);
                                } else if a == i {
                                    assert(cur[b] == fv[b] && fv[b].path != fv[a].path);
                                } else {
                                    assert(cur[a] == fv[a] && fv[a].path != fv[b].path);
                                }
                            }
                        }
                    }
                }
                return i;
            }
            i += 1;
        }
        proof {
            assert(first_path_index(fv, path@) is None);
        }
        let ghost old_fv = fv;
        self.files.push(newfile);
        proof {
            assert(self.files.deep_view() =~~= old_fv.push(
                SolidFileV { data: ast.deep_view(), path: path@, content: content@ },
            ));
            if old(self).wf() {
                assert(paths_distinct(self.files.deep_view())) by {
                    let cur = self.files.deep_view();
                    assert forall|a: int, b: int|
                        0 <= a < b < cur.len() implies (#[trigger] cur[a]).path
                        != (#[trigger] cur[b]).path by {
                        if b < cur.len() - 1 {
                            assert(cur[a] == old_fv[a] && cur[b] == old_fv[b]);
                        } else {
                            assert(cur[a] == old_fv[a] && old_fv[a].path != path@);
                        }
                    }
                }
            }
        }
        n
    }

    /// Whether the diagnostic falls in a disable range opened before its
    /// line and not closed again.
    pub fn _check_is_in_disable_range(&self, diag: &LintDiag, dirs: &Vec<
        crate::suppress::Directive,
    >) -> (r: bool)
        ensures
            r == crate::suppress::range_suppressed(
                dirs.deep_view(),
                diag.range.start.line as int,
                diag.id@,
            ),
    {
        let id = crate::text::chars_of(diag.id.as_str());
        let own = crate::suppress::replay_bucket(dirs, diag.range.start.line, &id);
        let empty_id: Vec<char> = Vec::new();
        let wild = crate::suppress::replay_bucket(dirs, diag.range.start.line, &empty_id);
        proof {
            assert(empty_id@ =~= Seq::<char>::empty());
        }
        own.1 > 0 || wild.1 > 0
    }

    /// Whether any directive of the file suppresses the diagnostic.
    pub fn _check_is_diag_ignored(&self, diag: &LintDiag, file: &SolidFile) -> (r: bool)
        ensures
            r == spec_diag_ignored(
                file.content@,
                solidhunter_syntax(),
                diag.range.start.line as int,
                diag.id@,
            ),
    {
        let syntax = DirectiveSyntax::solidhunter();
        proof {
            assert(syntax.deep_view() == solidhunter_syntax());
        }
        diag_ignored(file.content.as_str(), &syntax, diag.range.start.line, diag.id.as_str())
    }

    /// Lint one file's content against its already-parsed tree: store the
    /// file (replacing a previous parse of the same path), run every rule
    /// over it, and keep the findings no directive suppresses.
    #[verifier::loop_isolation(false)]
    pub fn parse_content(&mut self, filepath: &str, content: &str, data: File) -> (res: FileDiags)
        requires
            old(self).wf(),
            file_wf(data.deep_view()),
        ensures
            final(self).wf(),
            final(self).files.deep_view() == spec_upsert(
                old(self).files.deep_view(),
                filepath@,
                data.deep_view(),
                content@,
            ),
            final(self).rules == old(self).rules,
            res.source_file_content@ == content@,
            res.diags.deep_view() == parse_diags(
                old(self).rules.deep_view(),
                SolidFileV { data: data.deep_view(), path: filepath@, content: content@ },
            ),
    {
        let ghost newfilev = SolidFileV {
            data: data.deep_view(),
            path: filepath@,
            content: content@,
        };
        let ghost rulesv = self.rules.deep_view();
        let idx = self._add_file(filepath, data, content);
        let ghost total = parse_diags(rulesv, newfilev);
        let mut res: Vec<LintDiag> = Vec::new();
        let n = self.rules.len();
        proof {
            assert(rulesv.subrange(0, n as int) =~= rulesv);
            assert(res.deep_view() + parse_diags(rulesv, newfilev) =~~= total);
        }
        let mut i: usize = 0;
        while i < n
            invariant
                i <= n,
                n == self.rules@.len(),
                self.rules.deep_view() == rulesv,
                idx < self.files@.len(),
                self.files.deep_view()[idx as int] == newfilev,
                file_wf(newfilev.data),
                res.deep_view() + parse_diags(rulesv.subrange(i as int, n as int), newfilev)
                    =~~= total,
            decreases n - i,
        {
            proof {
                assert(rulesv.subrange(i as int, n as int)[0] == rulesv[i as int]);
                assert(rulesv.subrange(i as int, n as int).subrange(1, (n - i) as int)
                    =~= rulesv.subrange(i as int + 1, n as int));
            }
            let mut diags = self.rules[i].diagnose(&self.files[idx], &self.files);
            let ghost all_diags = diags.deep_view();
            proof {
                assert(all_diags == rule_diags(rulesv[i as int], newfilev));
                assert(all_diags.subrange(0, all_diags.len() as int) =~= all_diags);
            }
            while diags.len() > 0
                invariant
                    diags.deep_view().len() <= all_diags.len(),
                    diags.deep_view() =~~= all_diags.subrange(
                        all_diags.len() - diags.deep_view().len(),
                        all_diags.len() as int,
                    ),
                    idx < self.files@.len(),
                    self.files.deep_view()[idx as int] == newfilev,
                    res.deep_view() + filter_suppressed(diags.deep_view(), newfilev.content)
                        + parse_diags(rulesv.subrange(i as int + 1, n as int), newfilev)
                        =~~= total,
                decreases diags.len(),
            {
                let ghost dv = diags.deep_view();
                let d = diags.remove(0);
                proof {
                    assert(diags.deep_view() =~~= dv.subrange(1, dv.len() as int));
                    assert(dv[0] == d.deep_view());
                    assert(diags.deep_view() =~~= all_diags.subrange(
                        all_diags.len() - diags.deep_view().len(),
                        all_diags.len() as int,
                    ));
                }
                let ignored = self._check_is_diag_ignored(&d, &self.files[idx]);
                proof {
                    assert(self.files.deep_view()[idx as int].content == newfilev.content);
                }
                if !ignored {
                    let ghost old_res = res.deep_view();
                    res.push(d);
                    proof {
                        assert(res.deep_view() =~~= old_res.push(dv[0]));
                    }
                }
                proof {
                    assert(res.deep_view() + filter_suppressed(diags.deep_view(), newfilev.content)
                        + parse_diags(rulesv.subrange(i as int + 1, n as int), newfilev)
                        =~~= total);
                }
            }
            proof {
                assert(filter_suppressed(diags.deep_view(), newfilev.content)
                    =~~= Seq::<LintDiagV>::empty());
            }
            i += 1;
        }
        proof {
            assert(parse_diags(rulesv.subrange(n as int, n as int), newfilev)
                =~~= Seq::<LintDiagV>::empty());
            assert(res.deep_view() =~~= total);
        }
        FileDiags::new(String::from_str(content), res)
    }

    /// Remove every stored file with this path; removing an absent path is
    /// a no-op.
    #[verifier::loop_isolation(false)]
    pub fn delete_file(&mut self, path: &str)
        ensures
            final(self).files.deep_view() == keep_others(old(self).files.deep_view(), path@),
            final(self).rules == old(self).rules,
            old(self).wf() ==> final(self).wf(),
    {
        proof {
            if old(self).wf() {
                lemma_keep_others_distinct(old(self).files.deep_view(), path@);
            }
        }
        let ghost total = keep_others(self.files.deep_view(), path@);
        let ghost fv0 = self.files.deep_view();
        let mut old_files = self.files.split_off(0);
        proof {
            assert(old_files@ =~= old(self).files@);
            assert(old_files.deep_view() =~~= fv0);
            assert(self.files.deep_view() =~~= Seq::<SolidFileV>::empty());
            assert(keep_others(old_files.deep_view(), path@) == keep_others(fv0, path@));
            assert(self.files.deep_view() + keep_others(old_files.deep_view(), path@) =~~= total);
        }
        while old_files.len() > 0
            invariant
                self.files.deep_view() + keep_others(old_files.deep_view(), path@) =~~= total,
                self.rules == old(self).rules,
            decreases old_files.len(),
        {
            let ghost ov = old_files.deep_view();
            let f = old_files.remove(0);
            proof {
                assert(old_files.deep_view() =~~= ov.subrange(1, ov.len() as int));
                assert(ov[0] == f.deep_view());
            }
            if !str_eq(f.path.as_str(), path) {
                let ghost cur = self.files.deep_view();
                self.files.push(f);
                proof {
                    assert(self.files.deep_view() =~~= cur.push(ov[0]));
                }
            }
            proof {
                assert(self.files.deep_view() + keep_others(old_files.deep_view(), path@)
                    =~~= total);
            }
        }
        proof {
            assert(keep_others(old_files.deep_view(), path@) =~~= Seq::<SolidFileV>::empty());
            assert(self.files.deep_view() =~~= total);
        }
    }

    /// How many stored files carry this path.
    #[verifier::loop_isolation(false)]
    pub fn file_count(&self, path: &str) -> (r: usize)
        ensures
            r as int == count_path(self.files.deep_view(), path@),
    {
        let ghost fv = self.files.deep_view();
        let n = self.files.len();
        let mut r: usize = 0;
        let mut i: usize = 0;
        proof {
            assert(fv.subrange(0, n as int) =~= fv);
        }
        let mut remaining: Ghost<Seq<SolidFileV>> = Ghost(fv);
        while i < n
            invariant
                i <= n,
                n == self.files@.len(),
                r <= i,
                r as int + count_path(fv.subrange(i as int, n as int), path@) == count_path(
                    fv,
                    path@,
                ),
            decreases n - i,
        {
            proof {
                assert(fv.subrange(i as int, n as int)[0] == fv[i as int]);
                assert(fv.subrange(i as int, n as int).subrange(1, (n - i) as int) =~= fv.subrange(
                    i as int + 1,
                    n as int,
                ));
            }
            if str_eq(self.files[i].path.as_str(), path) {
                r += 1;
            }
            i += 1;
        }
        proof {
            assert(count_path(fv.subrange(n as int, n as int), path@) == 0);
        }
        r
    }
}

impl Default for SolidLinter {
    fn default() -> (r: Self)
        ensures
            r.files@.len() == 0,
            r.rules@.len() == 0,
            r.wf(),
    {
        SolidLinter::new()
    }
}

} // verus!

verus! {

// ---------------------------------------------------------------------------
// Laws of the store
// ---------------------------------------------------------------------------

/// Parsing the same path and content twice leaves the store as after the
/// first parse, with exactly one entry for that path; since the reported
/// findings are a function of the rules and the stored file alone, the two
/// parses report the same findings.
pub proof fn lemma_parse_idempotent(
    files: Seq<SolidFileV>,
    rules: Seq<LintRuleV>,
    path: Seq<char>,
    ast: FileV,
    content: Seq<char>,
)
    requires
        paths_distinct(files),
    ensures
        spec_upsert(spec_upsert(files, path, ast, content), path, ast, content) == spec_upsert(
            files,
            path,
            ast,
            content,
        ),
        paths_distinct(spec_upsert(files, path, ast, content)),
        count_path(spec_upsert(files, path, ast, content), path) == 1,
        parse_diags(rules, SolidFileV { data: ast, path, content }) == parse_diags(
            rules,
            SolidFileV { data: ast, path, content },
        ),
{
    let newfile = SolidFileV { data: ast, path, content };
    let f1 = spec_upsert(files, path, ast, content);
    lemma_first_path_index(files, path);
    match first_path_index(files, path) {
        Some(i) => {
            assert(f1 =~= files.update(i, newfile));
            assert(paths_distinct(f1)) by {
                assert forall|a: int, b: int|
                    0 <= a < b < f1.len() implies (#[trigger] f1[a]).path
                    != (#[trigger] f1[b]).path by {
                    if a != i && b != i {
                        assert(f1[a] == files[a] && f1[b] == files[b]);
                    } else if a == i {
                        assert(f1[b] == files[b] && files[b].path != files[i].path);
                    } else {
                        assert(f1[a] == files[a] && files[a].path != files[i].path);
                    }
                }
            }
            lemma_first_path_index(f1, path);
            match first_path_index(f1, path) {
                Some(j) => {
                    assert(f1[i].path == path);
                    assert(j == i) by {
                        if j < i {
                            assert(files[j] == f1[j]);
                        }
                        if i < j {
                            assert(f1[i].path != path);
                        }
                    }
                    assert(spec_upsert(f1, path, ast, content) =~= f1.update(i, newfile));
                    assert(spec_upsert(f1, path, ast, content) =~= f1);
                },
                None => {
                    assert(f1[i].path == path);
                },
            }
            lemma_count_one(f1, path, i);
        },
        None => {
            assert(f1 =~= files.push(newfile));
            let m = files.len() as int;
            assert(paths_distinct(f1)) by {
                assert forall|a: int, b: int|
                    0 <= a < b < f1.len() implies (#[trigger] f1[a]).path
                    != (#[trigger] f1[b]).path by {
                    if b < m {
                        assert(f1[a] == files[a] && f1[b] == files[b]);
                    } else {
                        assert(f1[a] == files[a] && files[a].path != path);
                    }
                }
            }
            lemma_first_path_index(f1, path);
            match first_path_index(f1, path) {
                Some(j) => {
                    assert(j == m) by {
                        if j < m {
                            assert(f1[j] == files[j]);
                        }
                    }
                    assert(spec_upsert(f1, path, ast, content) =~= f1.update(m, newfile));
                    assert(spec_upsert(f1, path, ast, content) =~= f1);
                },
                None => {
                    assert(f1[m].path == path);
                },
            }
            lemma_count_one(f1, path, m);
        },
    }
}

/// In a store with distinct paths, a path that occurs at some index occurs
/// exactly once.
pub proof fn lemma_count_one(files: Seq<SolidFileV>, path: Seq<char>, i: int)
    requires
        paths_distinct(files),
        0 <= i < files.len(),
        files[i].path == path,
    ensures
        count_path(files, path) == 1,
    decreases files.len(),
{
    if i == 0 {
        assert(forall|k: int|
            1 <= k < files.len() ==> (#[trigger] files[k]).path != path);
        lemma_count_zero(files.subrange(1, files.len() as int), path);
    } else {
        assert(files[0].path != path);
        let tail = files.subrange(1, files.len() as int);
        assert(paths_distinct(tail)) by {
            assert forall|a: int, b: int|
                0 <= a < b < tail.len() implies (#[trigger] tail[a]).path
                != (#[trigger] tail[b]).path by {
                assert(tail[a] == files[a + 1] && tail[b] == files[b + 1]);
            }
        }
        assert(tail[i - 1] == files[i]);
        lemma_count_one(tail, path, i - 1);
    }
}

/// A path matching no stored file is counted zero times.
pub proof fn lemma_count_zero(files: Seq<SolidFileV>, path: Seq<char>)
    requires
        forall|k: int| 0 <= k < files.len() ==> (#[trigger] files[k]).path != path,
    ensures
        count_path(files, path) == 0,
    decreases files.len(),
{
    if files.len() > 0 {
        let tail = files.subrange(1, files.len() as int);
        assert(forall|k: int|
            0 <= k < tail.len() ==> (#[trigger] tail[k]) == files[k + 1]);
        lemma_count_zero(tail, path);
    }
}

} // verus!

verus! {

/// Everything the deletion keeps was already stored.
pub proof fn lemma_keep_others_membership(files: Seq<SolidFileV>, path: Seq<char>, x: SolidFileV)
    requires
        keep_others(files, path).contains(x),
    ensures
        files.contains(x),
    decreases files.len(),
{
    if files.len() > 0 {
        let tail = files.subrange(1, files.len() as int);
        let kept = keep_others(files, path);
        if files[0].path != path {
            let i = choose|i: int| 0 <= i < kept.len() && kept[i] == x;
            if i == 0 {
                assert(files[0] == x);
                assert(files.contains(x)) by {
                    assert(files[0] == x);
                }
            } else {
                assert(keep_others(tail, path)[i - 1] == x);
                assert(keep_others(tail, path).contains(x));
                lemma_keep_others_membership(tail, path, x);
                let k = choose|k: int| 0 <= k < tail.len() && tail[k] == x;
                assert(files[k + 1] == x);
            }
        } else {
            lemma_keep_others_membership(tail, path, x);
            let k = choose|k: int| 0 <= k < tail.len() && tail[k] == x;
            assert(files[k + 1] == x);
        }
    }
}

/// Deletion keeps the store's paths distinct.
pub proof fn lemma_keep_others_distinct(files: Seq<SolidFileV>, path: Seq<char>)
    requires
        paths_distinct(files),
    ensures
        paths_distinct(keep_others(files, path)),
    decreases files.len(),
{
    if files.len() > 0 {
        let tail = files.subrange(1, files.len() as int);
        assert(paths_distinct(tail)) by {
            assert forall|a: int, b: int|
                0 <= a < b < tail.len() implies (#[trigger] tail[a]).path
                != (#[trigger] tail[b]).path by {
                assert(tail[a] == files[a + 1] && tail[b] == files[b + 1]);
            }
        }
        lemma_keep_others_distinct(tail, path);
        let kept = keep_others(files, path);
        if files[0].path != path {
            assert(kept[0] == files[0]);
            assert forall|a: int, b: int|
                0 <= a < b < kept.len() implies (#[trigger] kept[a]).path
                != (#[trigger] kept[b]).path by {
                if a > 0 {
                    assert(kept[a] == keep_others(tail, path)[a - 1]);
                    assert(kept[b] == keep_others(tail, path)[b - 1]);
                } else {
                    let x = kept[b];
                    assert(keep_others(tail, path)[b - 1] == x);
                    assert(keep_others(tail, path).contains(x));
                    lemma_keep_others_membership(tail, path, x);
                    let k = choose|k: int| 0 <= k < tail.len() && tail[k] == x;
                    assert(files[k + 1] == x);
                    assert(files[0].path != files[k + 1].path);
                }
            }
        }
    }
}

} // verus!
