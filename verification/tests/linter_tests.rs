use solidhunter::ast::{
    Block, Definition, File, FunctionBody, Ident, Item, ItemContract, ItemEvent, ItemFunction,
};
use solidhunter::diag::{LintDiag, LintRange, RuleEntry, Severity};
use solidhunter::linter::SolidLinter;
use solidhunter::pos::{Position, Span};
use solidhunter::rules::{
    EventNameCamelCase, FunctionMaxLines, RuleFactory, check_function_lines, is_camel_case,
};
use solidhunter::suppress::{DirectiveSyntax, diag_ignored, extract_directives};
use solidhunter::text::u64_to_string;

fn sp(sl: usize, sc: usize, el: usize, ec: usize) -> Span {
    Span::new(sl, sc, el, ec)
}

fn ident(sl: usize, sc: usize, el: usize, ec: usize, name: &str) -> Ident {
    Ident { span: sp(sl, sc, el, ec), name: name.to_string() }
}

/// A contract holding one function whose body block runs from the line of
/// `body_start` to the line of `body_end`.
fn contract_with_function(name_line: usize, body_start: (usize, usize), body_end: (usize, usize)) -> File {
    let f = ItemFunction {
        span: sp(name_line, 13, name_line, 16),
        name: ident(name_line, 13, name_line, 16, "fat"),
        parameters: vec![],
        returns: vec![],
        body: FunctionBody::Block(Block {
            span: Span {
                start: Position { line: body_start.0, column: body_start.1 },
                end: Position { line: body_end.0, column: body_end.1 },
            },
            stmts: vec![],
        }),
    };
    let contract = ItemContract {
        span: sp(1, 9, 1, 12),
        name: ident(1, 9, 1, 12, "Big"),
        inheritance: None,
        body: vec![Definition::Function(f)],
    };
    File { items: vec![Item::Contract(contract)] }
}

fn contract_with_event(event_name: &str) -> File {
    let e = ItemEvent {
        span: sp(3, 10, 3, 10 + event_name.len()),
        name: ident(3, 10, 3, 10 + event_name.len(), event_name),
        parameters: vec![],
    };
    let contract = ItemContract {
        span: sp(1, 9, 1, 12),
        name: ident(1, 9, 1, 12, "Evt"),
        inheritance: None,
        body: vec![Definition::Event(e)],
    };
    File { items: vec![Item::Contract(contract)] }
}

// ---------------------------------------------------------------------------
// Decimal rendering and helpers
// ---------------------------------------------------------------------------

#[test]
fn decimal_rendering_is_exact() {
    assert_eq!(u64_to_string(0), "0");
    assert_eq!(u64_to_string(9), "9");
    assert_eq!(u64_to_string(10), "10");
    assert_eq!(u64_to_string(50), "50");
    assert_eq!(u64_to_string(12345), "12345");
}

#[test]
fn camel_case_check() {
    assert!(is_camel_case("Transfer"));
    assert!(is_camel_case("T"));
    assert!(!is_camel_case("transfer"));
    assert!(!is_camel_case("Trans_fer"));
    assert!(!is_camel_case("Trans-fer"));
    assert!(!is_camel_case(""));
}

#[test]
fn function_lines_boundary() {
    // Body spanning lines 2..=4: two lines of difference.
    let file = contract_with_function(2, (2, 30), (4, 5));
    if let Item::Contract(c) = &file.items[0] {
        if let Definition::Function(f) = &c.body[0] {
            assert!(check_function_lines(f, 2).is_none());
            let r = check_function_lines(f, 1).unwrap();
            assert_eq!(r.start, Position { line: 2, column: 13 });
            assert_eq!(r.end, Position { line: 4, column: 5 });
            return;
        }
    }
    panic!("unexpected tree shape");
}

// ---------------------------------------------------------------------------
// Suppression directives
// ---------------------------------------------------------------------------

#[test]
fn next_line_directive_suppresses_only_next_line() {
    let syntax = DirectiveSyntax::solidhunter();
    let content = "line one\n// solidhunter-disable-next-line rule-x\nline three\nline four\n";
    assert!(diag_ignored(content, &syntax, 3, "rule-x"));
    assert!(!diag_ignored(content, &syntax, 4, "rule-x"));
    assert!(!diag_ignored(content, &syntax, 2, "rule-x"));
    assert!(!diag_ignored(content, &syntax, 3, "rule-y"));
}

#[test]
fn same_line_directive_suppresses_its_own_line() {
    let syntax = DirectiveSyntax::solidhunter();
    let content = "ok\nbad code // solidhunter-disable-line rule-x\nok\n";
    assert!(diag_ignored(content, &syntax, 2, "rule-x"));
    assert!(!diag_ignored(content, &syntax, 3, "rule-x"));
    assert!(!diag_ignored(content, &syntax, 2, "rule-y"));
}

#[test]
fn bare_next_line_directive_suppresses_every_rule() {
    let syntax = DirectiveSyntax::solidhunter();
    let content = "// solidhunter-disable-next-line\nanything\n";
    assert!(diag_ignored(content, &syntax, 2, "rule-x"));
    assert!(diag_ignored(content, &syntax, 2, "rule-y"));
    assert!(!diag_ignored(content, &syntax, 1, "rule-x"));
}

#[test]
fn disable_enable_range_for_one_rule() {
    let syntax = DirectiveSyntax::solidhunter();
    let content = "l1\nl2\nl3\nl4\n// solidhunter-disable rule-x\nl6\nl7\nl8\nl9\n// solidhunter-enable rule-x\nl11\n";
    assert!(!diag_ignored(content, &syntax, 4, "rule-x"));
    assert!(diag_ignored(content, &syntax, 5, "rule-x"));
    assert!(diag_ignored(content, &syntax, 7, "rule-x"));
    assert!(diag_ignored(content, &syntax, 9, "rule-x"));
    assert!(!diag_ignored(content, &syntax, 10, "rule-x"));
    assert!(!diag_ignored(content, &syntax, 11, "rule-x"));
    assert!(!diag_ignored(content, &syntax, 7, "rule-y"));
}

#[test]
fn bare_disable_enable_range_covers_every_rule() {
    let syntax = DirectiveSyntax::solidhunter();
    let content = "l1\nl2\nl3\nl4\n// solidhunter-disable\nl6\nl7\nl8\nl9\n// solidhunter-enable\nl11\n";
    assert!(diag_ignored(content, &syntax, 5, "rule-x"));
    assert!(diag_ignored(content, &syntax, 9, "rule-y"));
    assert!(!diag_ignored(content, &syntax, 10, "rule-x"));
    assert!(!diag_ignored(content, &syntax, 4, "rule-y"));
}

#[test]
fn repeated_disable_needs_matching_enables() {
    let syntax = DirectiveSyntax::solidhunter();
    let content = "// solidhunter-disable rule-x\n// solidhunter-disable rule-x\n// solidhunter-enable rule-x\nl4\n";
    // Disabled twice, enabled once: still disabled afterwards.
    assert!(diag_ignored(content, &syntax, 4, "rule-x"));
}

// ---------------------------------------------------------------------------
// Orchestrator
// ---------------------------------------------------------------------------

#[test]
fn over_long_function_produces_one_exact_diagnostic() {
    let mut linter = SolidLinter::new();
    linter.initialize_rules(vec![RuleEntry {
        id: "function-max-lines".to_string(),
        severity: Severity::Warning,
        data: Some(2),
    }]);
    let file = contract_with_function(2, (2, 30), (7, 5));
    let content = "c1\nc2\nc3\nc4\nc5\nc6\nc7\n";
    let res = linter.parse_content("big.sol", content, file);
    assert_eq!(res.diags.len(), 1);
    let d = &res.diags[0];
    assert_eq!(d.id, "function-max-lines");
    assert_eq!(d.severity, Severity::Warning);
    assert_eq!(d.message, "Function body contains 5 lines but allowed no more than 2 lines");
    assert_eq!(d.range.start, Position { line: 2, column: 13 });
    assert_eq!(d.range.end, Position { line: 7, column: 5 });
    assert_eq!(d.uri, "big.sol");
    assert_eq!(d.source_file_content, content);
}

#[test]
fn short_function_produces_no_diagnostic() {
    let mut linter = SolidLinter::new();
    linter.initialize_rules(vec![RuleEntry {
        id: "function-max-lines".to_string(),
        severity: Severity::Warning,
        data: Some(10),
    }]);
    let file = contract_with_function(2, (2, 30), (7, 5));
    let res = linter.parse_content("small.sol", "c1\nc2\nc3\nc4\nc5\nc6\nc7\n", file);
    assert_eq!(res.diags.len(), 0);
}

#[test]
fn lowercase_event_produces_one_diagnostic() {
    let mut linter = SolidLinter::new_fileless();
    let file = contract_with_event("transfer");
    let content = "e1\ne2\ne3\n";
    let res = linter.parse_content("evt.sol", content, file);
    assert_eq!(res.diags.len(), 1);
    let d = &res.diags[0];
    assert_eq!(d.id, "event-name-camelcase");
    assert_eq!(d.message, "Event name must be in CamelCase");
    assert_eq!(d.range.start, Position { line: 3, column: 10 });
    assert_eq!(d.range.end, Position { line: 3, column: 18 });
}

#[test]
fn camelcase_event_produces_no_diagnostic() {
    let mut linter = SolidLinter::new_fileless();
    let file = contract_with_event("Transfer");
    let res = linter.parse_content("evt.sol", "e1\ne2\ne3\n", file);
    assert_eq!(res.diags.len(), 0);
}

#[test]
fn directive_suppresses_rule_finding_end_to_end() {
    let mut linter = SolidLinter::new();
    linter.initialize_rules(vec![RuleEntry {
        id: "function-max-lines".to_string(),
        severity: Severity::Warning,
        data: Some(2),
    }]);
    // The finding starts at the function name on line 2; the directive on
    // line 1 targets exactly that line.
    let file = contract_with_function(2, (2, 30), (7, 5));
    let content = "// solidhunter-disable-next-line function-max-lines\nc2\nc3\nc4\nc5\nc6\nc7\n";
    let res = linter.parse_content("sup.sol", content, file);
    assert_eq!(res.diags.len(), 0);
}

#[test]
fn parse_twice_is_idempotent() {
    let mut linter = SolidLinter::new_fileless();
    let content = "e1\ne2\ne3\n";
    let first = linter.parse_content("dup.sol", content, contract_with_event("transfer"));
    let second = linter.parse_content("dup.sol", content, contract_with_event("transfer"));
    assert_eq!(first, second);
    assert_eq!(linter.file_count("dup.sol"), 1);
}

#[test]
fn delete_file_is_idempotent() {
    let mut linter = SolidLinter::new_fileless();
    linter.parse_content("gone.sol", "x\n", File { items: vec![] });
    linter.parse_content("kept.sol", "y\n", File { items: vec![] });
    assert_eq!(linter.file_count("gone.sol"), 1);
    linter.delete_file("gone.sol");
    assert_eq!(linter.file_count("gone.sol"), 0);
    assert_eq!(linter.file_count("kept.sol"), 1);
    linter.delete_file("gone.sol");
    assert_eq!(linter.file_count("gone.sol"), 0);
    assert_eq!(linter.file_count("kept.sol"), 1);
}

#[test]
fn factory_knows_its_rules() {
    let factory = RuleFactory::default();
    assert!(factory.create_rule(FunctionMaxLines::create_default()).is_some());
    assert!(factory.create_rule(EventNameCamelCase::create_default()).is_some());
    assert!(factory
        .create_rule(RuleEntry {
            id: "no-such-rule".to_string(),
            severity: Severity::Warning,
            data: None,
        })
        .is_none());
}

#[test]
fn default_entries_carry_their_configuration() {
    let fml = FunctionMaxLines::create_default();
    assert_eq!(fml.id, "function-max-lines");
    assert_eq!(fml.data, Some(50));
    let enc = EventNameCamelCase::create_default();
    assert_eq!(enc.id, "event-name-camelcase");
    assert_eq!(enc.data, None);
    let rule = FunctionMaxLines::create(RuleEntry {
        id: "function-max-lines".to_string(),
        severity: Severity::Warning,
        data: None,
    });
    assert_eq!(rule.number_max_lines, 50);
}

#[test]
fn extracted_directives_drive_the_range_stage() {
    let syntax = DirectiveSyntax::solidhunter();
    let content = "// solidhunter-disable rule-x\nl2\nl3\n// solidhunter-enable rule-x\nl5\n";
    let dirs = extract_directives(content, &syntax);
    assert_eq!(dirs.len(), 2);
    assert_eq!(dirs[0].line, 1);
    assert_eq!(dirs[1].line, 4);
    let linter = SolidLinter::new();
    let diag = |line: usize, id: &str| LintDiag {
        id: id.to_string(),
        severity: Severity::Warning,
        message: String::new(),
        range: LintRange {
            start: Position { line, column: 0 },
            end: Position { line, column: 1 },
        },
        uri: "x.sol".to_string(),
        source_file_content: content.to_string(),
    };
    assert!(linter._check_is_in_disable_range(&diag(2, "rule-x"), &dirs));
    assert!(!linter._check_is_in_disable_range(&diag(2, "rule-y"), &dirs));
    assert!(!linter._check_is_in_disable_range(&diag(5, "rule-x"), &dirs));
}
