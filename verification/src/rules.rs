//! The diagnostic rules: each inspects one parsed file and emits findings.
//! The closed set of rules is dispatched through [`LintRule`]; construction
//! from a [`RuleEntry`] stays keyed on the rule identifier.

use vstd::prelude::*;

use crate::ast::{DefV, Definition, FileV, FunctionBody, FunctionBodyV, FunctionV, Item, ItemV};
use crate::diag::{LintDiag, LintDiagV, LintRange, RuleEntry, RuleEntryV, Severity};
use crate::linter::{SolidFile, SolidFileV};
use crate::pos::{Position, Span};
use crate::text::{dec_str, str_contains_char, u64_to_string};

verus! {

/// Line budget a function body gets when no configuration names one.
pub const DEFAULT_MAX_LINES: u64 = 50;

/// The default registration entry of the line-count rule.
pub open spec fn fml_default_entry() -> RuleEntryV {
    RuleEntryV {
        id: "function-max-lines"@,
        severity: Severity::Warning,
        data: Some(DEFAULT_MAX_LINES),
    }
}

/// The default registration entry of the event-naming rule.
pub open spec fn enc_default_entry() -> RuleEntryV {
    RuleEntryV { id: "event-name-camelcase"@, severity: Severity::Warning, data: None }
}

// ---------------------------------------------------------------------------
// Well-formed spans
// ---------------------------------------------------------------------------

/// The span sanity a parser guarantees and the line-count rule relies on: a
/// body block ends no earlier than it starts, and no earlier than the
/// function's name token.
pub open spec fn function_wf(f: FunctionV) -> bool {
    match f.body {
        FunctionBodyV::Block(b) => b.span.end.line >= b.span.start.line && b.span.end.line
            >= f.name.span.start.line,
        FunctionBodyV::Empty => true,
    }
}

pub open spec fn def_wf(d: DefV) -> bool {
    match d {
        DefV::Function(f) => function_wf(f),
        _ => true,
    }
}

pub open spec fn item_wf(it: ItemV) -> bool {
    match it {
        ItemV::Contract(c) => forall|i: int| 0 <= i < c.body.len() ==> def_wf(#[trigger] c.body[i]),
        ItemV::Def(d) => def_wf(d),
        ItemV::Pragma(_) => true,
    }
}

pub open spec fn file_wf(f: FileV) -> bool {
    forall|i: int| 0 <= i < f.items.len() ==> item_wf(#[trigger] f.items[i])
}

// ---------------------------------------------------------------------------
// function-max-lines
// ---------------------------------------------------------------------------

/// The range reported for an over-long function: from its name token to
/// the end of its body block; `None` when the body fits the budget.
pub open spec fn spec_check_function_lines(f: FunctionV, max: int) -> Option<LintRange> {
    match f.body {
        FunctionBodyV::Block(b) => if b.span.end.line - b.span.start.line > max {
            Some(LintRange { start: f.name.span.start, end: b.span.end })
        } else {
            None
        },
        FunctionBodyV::Empty => None,
    }
}

pub open spec fn fml_message(range: LintRange, max: int) -> Seq<char> {
    "Function body contains "@ + dec_str(range.end.line - range.start.line)
        + " lines but allowed no more than "@ + dec_str(max) + " lines"@
}

pub open spec fn fml_diag(range: LintRange, max: int, sev: Severity, uri: Seq<char>, content: Seq<char>) -> LintDiagV {
    LintDiagV {
        id: "function-max-lines"@,
        severity: sev,
        message: fml_message(range, max),
        range,
        uri,
        source_file_content: content,
    }
}

pub open spec fn fml_defs(ds: Seq<DefV>, max: int, sev: Severity, uri: Seq<char>, content: Seq<char>) -> Seq<LintDiagV>
    decreases ds,
{
    if ds.len() == 0 {
        Seq::empty()
    } else {
        (match ds[0] {
            DefV::Function(f) => match spec_check_function_lines(f, max) {
                Some(r) => seq![fml_diag(r, max, sev, uri, content)],
                None => Seq::empty(),
            },
            _ => Seq::empty(),
        }) + fml_defs(ds.subrange(1, ds.len() as int), max, sev, uri, content)
    }
}

pub open spec fn fml_items(items: Seq<ItemV>, max: int, sev: Severity, uri: Seq<char>, content: Seq<char>) -> Seq<LintDiagV>
    decreases items,
{
    if items.len() == 0 {
        Seq::empty()
    } else {
        (match items[0] {
            ItemV::Contract(c) => fml_defs(c.body, max, sev, uri, content),
            _ => Seq::empty(),
        }) + fml_items(items.subrange(1, items.len() as int), max, sev, uri, content)
    }
}

/// Every finding of the line-count rule on one file, in traversal order.
pub open spec fn fml_diags(file: SolidFileV, max: int, sev: Severity) -> Seq<LintDiagV> {
    fml_items(file.data.items, max, sev, file.path, file.content)
}

/// Flags function bodies spanning more lines than a configured maximum.
#[derive(Debug)]
pub struct FunctionMaxLines {
    pub number_max_lines: u64,
    pub data: RuleEntry,
}

pub struct FunctionMaxLinesV {
    pub number_max_lines: u64,
    pub data: RuleEntryV,
}

impl DeepView for FunctionMaxLines {
    type V = FunctionMaxLinesV;

    open spec fn deep_view(&self) -> FunctionMaxLinesV {
        FunctionMaxLinesV { number_max_lines: self.number_max_lines, data: self.data.deep_view() }
    }
}

/// Report an over-long function, following [`spec_check_function_lines`].
pub fn check_function_lines(function: &crate::ast::ItemFunction, nb_max_line: u64) -> (r: Option<
    LintRange,
>)
    requires
        function_wf(function.deep_view()),
    ensures
        r == spec_check_function_lines(function.deep_view(), nb_max_line as int),
{
    match &function.body {
        FunctionBody::Block(block) => {
            let line_diff = block.span.end.line - block.span.start.line;
            if (line_diff as u64) > nb_max_line {
                Some(LintRange { start: function.name.span.start, end: block.span.end })
            } else {
                None
            }
        },
        FunctionBody::Empty => None,
    }
}

impl FunctionMaxLines {
    /// Builds the rule from its entry; a missing payload falls back to the
    /// documented default budget.
    pub fn create(data: RuleEntry) -> (r: Self)
        ensures
            r.data == data,
            r.number_max_lines == (match data.data {
                Some(v) => v,
                None => DEFAULT_MAX_LINES,
            }),
    {
        let max = match data.data {
            Some(v) => v,
            None => DEFAULT_MAX_LINES,
        };
        FunctionMaxLines { number_max_lines: max, data }
    }

    pub fn create_default() -> (r: RuleEntry)
        ensures
            r.id@ == "function-max-lines"@,
            r.severity == Severity::Warning,
            r.data == Some(DEFAULT_MAX_LINES),
    {
        RuleEntry {
            id: String::from_str("function-max-lines"),
            severity: Severity::Warning,
            data: Some(DEFAULT_MAX_LINES),
        }
    }

    /// Every finding on one file, following [`fml_diags`].
    #[verifier::loop_isolation(false)]
    pub fn diagnose(&self, file: &SolidFile, _files: &Vec<SolidFile>) -> (res: Vec<LintDiag>)
        requires
            file_wf(file.data.deep_view()),
        ensures
            res.deep_view() == fml_diags(
                file.deep_view(),
                self.number_max_lines as int,
                self.data.severity,
            ),
    {
        let ghost max = self.number_max_lines as int;
        let ghost sev = self.data.severity;
        let ghost uri = file.path@;
        let ghost content = file.content@;
        let ghost iv = file.data.items.deep_view();
        let mut res: Vec<LintDiag> = Vec::new();
        let n = file.data.items.len();
        proof {
            assert(iv.subrange(0, n as int) =~= iv);
            assert(res.deep_view() + fml_items(iv, max, sev, uri, content) =~~= fml_items(
                iv,
                max,
                sev,
                uri,
                content,
            ));
        }
        let mut i: usize = 0;
        while i < n
            invariant
                i <= n,
                n == file.data.items@.len(),
                res.deep_view() + fml_items(iv.subrange(i as int, n as int), max, sev, uri, content)
                    =~~= fml_items(iv, max, sev, uri, content),
            decreases n - i,
        {
            proof {
                assert(iv.subrange(i as int, n as int)[0] == iv[i as int]);
                assert(iv.subrange(i as int, n as int).subrange(1, (n - i) as int) =~= iv.subrange(
                    i as int + 1,
                    n as int,
                ));
                assert(item_wf(iv[i as int])) by {
                    assert(iv == file.data.deep_view().items);
                    assert(item_wf(file.data.deep_view().items[i as int]));
                }
            }
            match &file.data.items[i] {
                Item::Contract(c) => {
                    let ghost dv = c.body.deep_view();
                    let m = c.body.len();
                    proof {
                        assert(dv.subrange(0, m as int) =~= dv);
                    }
                    let mut j: usize = 0;
                    while j < m
                        invariant
                            j <= m,
                            m == c.body@.len(),
                            res.deep_view() + fml_defs(
                                dv.subrange(j as int, m as int),
                                max,
                                sev,
                                uri,
                                content,
                            ) + fml_items(iv.subrange(i as int + 1, n as int), max, sev, uri, content)
                                =~~= fml_items(iv, max, sev, uri, content),
                        decreases m - j,
                    {
                        proof {
                            assert(dv.subrange(j as int, m as int)[0] == dv[j as int]);
                            assert(dv.subrange(j as int, m as int).subrange(1, (m - j) as int)
                                =~= dv.subrange(j as int + 1, m as int));
                            assert(def_wf(dv[j as int]));
                        }
                        match &c.body[j] {
                            Definition::Function(f) => {
                                let report = check_function_lines(f, self.number_max_lines);
                                if let Some(range) = report {
                                    let start_line = range.start.line;
                                    let end_line = range.end.line;
                                    let diff = (end_line - start_line) as u64;
                                    let mut msg = String::from_str("Function body contains ");
                                    let ds = u64_to_string(diff);
                                    msg.append(ds.as_str());
                                    msg.append(" lines but allowed no more than ");
                                    let ms = u64_to_string(self.number_max_lines);
                                    msg.append(ms.as_str());
                                    msg.append(" lines");
                                    proof {
                                        assert(msg@ =~= fml_message(range, max));
                                    }
                                    let diag = LintDiag {
                                        id: String::from_str("function-max-lines"),
                                        severity: self.data.severity,
                                        message: msg,
                                        range,
                                        uri: file.path.clone(),
                                        source_file_content: file.content.clone(),
                                    };
                                    let ghost old_res = res.deep_view();
                                    res.push(diag);
                                    proof {
                                        assert(res.deep_view() =~~= old_res.push(
                                            fml_diag(range, max, sev, uri, content),
                                        ));
                                    }
                                }
                            },
                            _ => {},
                        }
                        j += 1;
                    }
                    proof {
                        assert(fml_defs(dv.subrange(m as int, m as int), max, sev, uri, content)
                            =~~= Seq::<LintDiagV>::empty());
                    }
                },
                _ => {},
            }
            i += 1;
        }
        proof {
            assert(fml_items(iv.subrange(n as int, n as int), max, sev, uri, content)
                =~~= Seq::<LintDiagV>::empty());
            assert(res.deep_view() =~~= fml_items(iv, max, sev, uri, content));
        }
        res
    }
}

// ---------------------------------------------------------------------------
// event-name-camelcase
// ---------------------------------------------------------------------------

/// An event name passes when it starts with an upper-case ASCII letter and
/// holds neither underscores nor hyphens.
pub open spec fn spec_is_camel_case(s: Seq<char>) -> bool {
    &&& s.len() > 0
    &&& (s[0] as u32) >= 65
    &&& (s[0] as u32) <= 90
    &&& !s.contains('_')
    &&& !s.contains('-')
}

/// Executable form of [`spec_is_camel_case`].
pub fn is_camel_case(name: &str) -> (r: bool)
    ensures
        r == spec_is_camel_case(name@),
{
    let n = name.unicode_len();
    if n == 0 {
        return false;
    }
    let c = name.get_char(0);
    let cu = c as u32;
    cu >= 65 && cu <= 90 && !str_contains_char(name, '_') && !str_contains_char(name, '-')
}

pub open spec fn enc_diag(span: Span, sev: Severity, uri: Seq<char>, content: Seq<char>) -> LintDiagV {
    LintDiagV {
        id: "event-name-camelcase"@,
        severity: sev,
        message: "Event name must be in CamelCase"@,
        range: LintRange { start: span.start, end: span.end },
        uri,
        source_file_content: content,
    }
}

pub open spec fn enc_file_items(items: Seq<ItemV>, sev: Severity, uri: Seq<char>, content: Seq<char>) -> Seq<LintDiagV>
    decreases items,
{
    if items.len() == 0 {
        Seq::empty()
    } else {
        (match items[0] {
            ItemV::Def(DefV::Event(e)) => if !spec_is_camel_case(e.name.name) {
                seq![enc_diag(e.name.span, sev, uri, content)]
            } else {
                Seq::empty()
            },
            _ => Seq::empty(),
        }) + enc_file_items(items.subrange(1, items.len() as int), sev, uri, content)
    }
}

pub open spec fn enc_defs(ds: Seq<DefV>, sev: Severity, uri: Seq<char>, content: Seq<char>) -> Seq<LintDiagV>
    decreases ds,
{
    if ds.len() == 0 {
        Seq::empty()
    } else {
        (match ds[0] {
            DefV::Event(e) => if !spec_is_camel_case(e.name.name) {
                seq![enc_diag(e.name.span, sev, uri, content)]
            } else {
                Seq::empty()
            },
            _ => Seq::empty(),
        }) + enc_defs(ds.subrange(1, ds.len() as int), sev, uri, content)
    }
}

pub open spec fn enc_contract_items(items: Seq<ItemV>, sev: Severity, uri: Seq<char>, content: Seq<char>) -> Seq<LintDiagV>
    decreases items,
{
    if items.len() == 0 {
        Seq::empty()
    } else {
        (match items[0] {
            ItemV::Contract(c) => enc_defs(c.body, sev, uri, content),
            _ => Seq::empty(),
        }) + enc_contract_items(items.subrange(1, items.len() as int), sev, uri, content)
    }
}

/// Every finding of the naming rule on one file: file-level events first,
/// then the events of each contract, in source order.
pub open spec fn enc_diags(file: SolidFileV, sev: Severity) -> Seq<LintDiagV> {
    enc_file_items(file.data.items, sev, file.path, file.content) + enc_contract_items(
        file.data.items,
        sev,
        file.path,
        file.content,
    )
}

/// Flags event names that are not in CamelCase.
#[derive(Debug)]
pub struct EventNameCamelCase {
    pub data: RuleEntry,
}

pub struct EventNameCamelCaseV {
    pub data: RuleEntryV,
}

impl DeepView for EventNameCamelCase {
    type V = EventNameCamelCaseV;

    open spec fn deep_view(&self) -> EventNameCamelCaseV {
        EventNameCamelCaseV { data: self.data.deep_view() }
    }
}

impl EventNameCamelCase {
    /// One finding, pointing at the event's name span.
    pub fn create_diag(&self, location: (Position, Position), file: &SolidFile) -> (r: LintDiag)
        ensures
            r.deep_view() == enc_diag(
                Span { start: location.0, end: location.1 },
                self.data.severity,
                file.path@,
                file.content@,
            ),
    {
        LintDiag {
            id: String::from_str("event-name-camelcase"),
            severity: self.data.severity,
            message: String::from_str("Event name must be in CamelCase"),
            range: LintRange { start: location.0, end: location.1 },
            uri: file.path.clone(),
            source_file_content: file.content.clone(),
        }
    }

    pub fn create(data: RuleEntry) -> (r: Self)
        ensures
            r.data == data,
    {
        EventNameCamelCase { data }
    }

    pub fn create_default() -> (r: RuleEntry)
        ensures
            r.id@ == "event-name-camelcase"@,
            r.severity == Severity::Warning,
            r.data is None,
    {
        RuleEntry {
            id: String::from_str("event-name-camelcase"),
            severity: Severity::Warning,
            data: None,
        }
    }

    /// Every finding on one file, following [`enc_diags`].
    #[verifier::loop_isolation(false)]
    #[verifier::rlimit(30)]
    pub fn diagnose(&self, file: &SolidFile, _files: &Vec<SolidFile>) -> (res: Vec<LintDiag>)
        ensures
            res.deep_view() == enc_diags(file.deep_view(), self.data.severity),
    {
        let ghost sev = self.data.severity;
        let ghost uri = file.path@;
        let ghost content = file.content@;
        let ghost iv = file.data.items.deep_view();
        let mut res: Vec<LintDiag> = Vec::new();
        let n = file.data.items.len();
        proof {
            assert(iv.subrange(0, n as int) =~= iv);
        }
        let mut i: usize = 0;
        while i < n
            invariant
                i <= n,
                n == file.data.items@.len(),
                res.deep_view() + enc_file_items(iv.subrange(i as int, n as int), sev, uri, content)
                    =~~= enc_file_items(iv, sev, uri, content),
            decreases n - i,
        {
            proof {
                assert(iv.subrange(i as int, n as int)[0] == iv[i as int]);
                assert(iv.subrange(i as int, n as int).subrange(1, (n - i) as int) =~= iv.subrange(
                    i as int + 1,
                    n as int,
                ));
            }
            match &file.data.items[i] {
                Item::Def(Definition::Event(e)) => {
                    if !is_camel_case(e.name.name.as_str()) {
                        let diag = self.create_diag((e.name.span.start, e.name.span.end), file);
                        let ghost old_res = res.deep_view();
                        res.push(diag);
                        proof {
                            assert(res.deep_view() =~~= old_res.push(
                                enc_diag(e.name.deep_view().span, sev, uri, content),
                            ));
                        }
                    }
                },
                _ => {},
            }
            i += 1;
        }
        proof {
            assert(enc_file_items(iv.subrange(n as int, n as int), sev, uri, content)
                =~~= Seq::<LintDiagV>::empty());
            assert(res.deep_view() =~~= enc_file_items(iv, sev, uri, content));
        }
        let mut i: usize = 0;
        while i < n
            invariant
                i <= n,
                n == file.data.items@.len(),
                res.deep_view() + enc_contract_items(
                    iv.subrange(i as int, n as int),
                    sev,
                    uri,
                    content,
                ) =~~= enc_file_items(iv, sev, uri, content) + enc_contract_items(
                    iv,
                    sev,
                    uri,
                    content,
                ),
            decreases n - i,
        {
            proof {
                assert(iv.subrange(i as int, n as int)[0] == iv[i as int]);
                assert(iv.subrange(i as int, n as int).subrange(1, (n - i) as int) =~= iv.subrange(
                    i as int + 1,
                    n as int,
                ));
            }
            match &file.data.items[i] {
                Item::Contract(c) => {
                    let ghost dv = c.body.deep_view();
                    let m = c.body.len();
                    proof {
                        assert(dv.subrange(0, m as int) =~= dv);
                    }
                    let mut j: usize = 0;
                    while j < m
                        invariant
                            j <= m,
                            m == c.body@.len(),
                            res.deep_view() + enc_defs(dv.subrange(j as int, m as int), sev, uri, content)
                                + enc_contract_items(iv.subrange(i as int + 1, n as int), sev, uri, content)
                                =~~= enc_file_items(iv, sev, uri, content) + enc_contract_items(
                                iv,
                                sev,
                                uri,
                                content,
                            ),
                        decreases m - j,
                    {
                        proof {
                            assert(dv.subrange(j as int, m as int)[0] == dv[j as int]);
                            assert(dv.subrange(j as int, m as int).subrange(1, (m - j) as int)
                                =~= dv.subrange(j as int + 1, m as int));
                        }
                        match &c.body[j] {
                            Definition::Event(e) => {
                                if !is_camel_case(e.name.name.as_str()) {
                                    let diag = self.create_diag(
                                        (e.name.span.start, e.name.span.end),
                                        file,
                                    );
                                    let ghost old_res = res.deep_view();
                                    res.push(diag);
                                    proof {
                                        assert(res.deep_view() =~~= old_res.push(
                                            enc_diag(e.name.deep_view().span, sev, uri, content),
                                        ));
                                    }
                                }
                            },
                            _ => {},
                        }
                        j += 1;
                    }
                    proof {
                        assert(enc_defs(dv.subrange(m as int, m as int), sev, uri, content)
                            =~~= Seq::<LintDiagV>::empty());
                    }
                },
                _ => {},
            }
            i += 1;
        }
        proof {
            assert(enc_contract_items(iv.subrange(n as int, n as int), sev, uri, content)
                =~~= Seq::<LintDiagV>::empty());
            assert(res.deep_view() =~~= enc_diags(file.deep_view(), sev));
        }
        res
    }
}

// ---------------------------------------------------------------------------
// The closed rule set and its factory
// ---------------------------------------------------------------------------

/// A registered rule instance.
#[derive(Debug)]
pub enum LintRule {
    FunctionMaxLines(FunctionMaxLines),
    EventNameCamelCase(EventNameCamelCase),
}

pub enum LintRuleV {
    FunctionMaxLines(FunctionMaxLinesV),
    EventNameCamelCase(EventNameCamelCaseV),
}

impl DeepView for LintRule {
    type V = LintRuleV;

    open spec fn deep_view(&self) -> LintRuleV {
        match self {
            LintRule::FunctionMaxLines(r) => LintRuleV::FunctionMaxLines(r.deep_view()),
            LintRule::EventNameCamelCase(r) => LintRuleV::EventNameCamelCase(r.deep_view()),
        }
    }
}

/// What one rule reports on one file.
pub open spec fn rule_diags(r: LintRuleV, file: SolidFileV) -> Seq<LintDiagV> {
    match r {
        LintRuleV::FunctionMaxLines(x) => fml_diags(file, x.number_max_lines as int, x.data.severity),
        LintRuleV::EventNameCamelCase(x) => enc_diags(file, x.data.severity),
    }
}

impl LintRule {
    /// Run the rule over one file; `files` carries the whole store for
    /// rules that read other files.
    pub fn diagnose(&self, file: &SolidFile, files: &Vec<SolidFile>) -> (res: Vec<LintDiag>)
        requires
            file_wf(file.data.deep_view()),
        ensures
            res.deep_view() == rule_diags(self.deep_view(), file.deep_view()),
    {
        match self {
            LintRule::FunctionMaxLines(r) => r.diagnose(file, files),
            LintRule::EventNameCamelCase(r) => r.diagnose(file, files),
        }
    }
}

/// Which rule an entry names, if any.
pub open spec fn spec_create_rule(e: RuleEntryV) -> Option<LintRuleV> {
    if e.id == "function-max-lines"@ {
        Some(
            LintRuleV::FunctionMaxLines(
                FunctionMaxLinesV {
                    number_max_lines: match e.data {
                        Some(v) => v,
                        None => DEFAULT_MAX_LINES,
                    },
                    data: e,
                },
            ),
        )
    } else if e.id == "event-name-camelcase"@ {
        Some(LintRuleV::EventNameCamelCase(EventNameCamelCaseV { data: e }))
    } else {
        None
    }
}

/// Builds rule instances from entries, keyed on the rule identifier.
#[derive(Debug)]
pub struct RuleFactory {}

impl Default for RuleFactory {
    fn default() -> (r: Self)
        ensures
            r == (RuleFactory {  }),
    {
        RuleFactory {  }
    }
}

impl RuleFactory {
    /// An entry with an unknown identifier builds nothing.
    pub fn create_rule(&self, entry: RuleEntry) -> (r: Option<LintRule>)
        ensures
            r.deep_view() == spec_create_rule(entry.deep_view()),
    {
        if crate::text::str_eq(entry.id.as_str(), "function-max-lines") {
            Some(LintRule::FunctionMaxLines(FunctionMaxLines::create(entry)))
        } else if crate::text::str_eq(entry.id.as_str(), "event-name-camelcase") {
            Some(LintRule::EventNameCamelCase(EventNameCamelCase::create(entry)))
        } else {
            None
        }
    }
}

/// The entries every fresh linter starts from.
pub fn create_default_rules() -> (r: Vec<RuleEntry>)
    ensures
        r.deep_view() =~= seq![fml_default_entry(), enc_default_entry()],
{
    let mut v: Vec<RuleEntry> = Vec::new();
    v.push(FunctionMaxLines::create_default());
    v.push(EventNameCamelCase::create_default());
    v
}

} // verus!
