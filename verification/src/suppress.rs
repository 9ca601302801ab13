//! The suppression engine: inline directives in the source text switch
//! individual rules (or all rules) off for one line or for a line range,
//! and diagnostics falling under them are dropped.

use vstd::prelude::*;

use crate::text::{
    chars_of, eq_chars, find_occ, first_occ, first_occ_from, lemma_first_occ_bounds, occ_at,
    rule_ids, rule_ids_of, spec_lines, split_lines,
};

verus! {

/// The four directive kinds: suppress findings on the directive's own line,
/// on the following line, or open and close a suppression range.
#[derive(Clone, Copy, PartialEq, Eq, Structural, Debug)]
pub enum Ignore {
    SameLine,
    NextLine,
    Enable,
    Disable,
}

/// The token spellings the engine scans for.  They are a configuration
/// value, not a constant of the engine: alternate comment syntaxes can be
/// substituted.
#[derive(Clone, Debug)]
pub struct DirectiveSyntax {
    pub same_line: String,
    pub next_line: String,
    pub enable: String,
    pub disable: String,
}

/// Mirror of [`DirectiveSyntax`].
pub struct SyntaxV {
    pub same_line: Seq<char>,
    pub next_line: Seq<char>,
    pub enable: Seq<char>,
    pub disable: Seq<char>,
}

impl DeepView for DirectiveSyntax {
    type V = SyntaxV;

    open spec fn deep_view(&self) -> SyntaxV {
        SyntaxV {
            same_line: self.same_line@,
            next_line: self.next_line@,
            enable: self.enable@,
            disable: self.disable@,
        }
    }
}

impl DirectiveSyntax {
    /// The spellings this linter ships with.
    pub fn solidhunter() -> (r: Self)
        ensures
            r.same_line@ == "solidhunter-disable-line"@,
            r.next_line@ == "solidhunter-disable-next-line"@,
            r.enable@ == "solidhunter-enable"@,
            r.disable@ == "solidhunter-disable"@,
    {
        DirectiveSyntax {
            same_line: String::from_str("solidhunter-disable-line"),
            next_line: String::from_str("solidhunter-disable-next-line"),
            enable: String::from_str("solidhunter-enable"),
            disable: String::from_str("solidhunter-disable"),
        }
    }
}

/// One recognised directive: the 1-based line it sits on, its kind, and the
/// rule identifiers it names (empty: it applies to every rule).
#[derive(Clone, Debug)]
pub struct Directive {
    pub line: usize,
    pub kind: Ignore,
    pub rules: Vec<Vec<char>>,
}

/// Mirror of [`Directive`].
pub struct DirectiveV {
    pub line: int,
    pub kind: Ignore,
    pub rules: Seq<Seq<char>>,
}

impl DeepView for Directive {
    type V = DirectiveV;

    open spec fn deep_view(&self) -> DirectiveV {
        DirectiveV { line: self.line as int, kind: self.kind, rules: self.rules.deep_view() }
    }
}

// ---------------------------------------------------------------------------
// Specification
// ---------------------------------------------------------------------------

/// The rule identifiers named after the first occurrence of the token, up
/// to its next occurrence or the end of the line.
pub open spec fn dir_rules(l: Seq<char>, t: Seq<char>) -> Seq<Seq<char>> {
    let p = first_occ(l, t)->0;
    let rs = p + t.len();
    let tail_end = match first_occ_from(l, t, rs) {
        Some(q) => q,
        None => l.len() as int,
    };
    rule_ids(l.subrange(rs, tail_end))
}

/// What directive, if any, a line holds.  Tokens are tried from the most
/// specific spelling to the least, so that a token that is a prefix of
/// another cannot shadow it.
pub open spec fn line_directive(l: Seq<char>, syn: SyntaxV) -> Option<(Ignore, Seq<Seq<char>>)> {
    if first_occ(l, syn.same_line) is Some {
        Some((Ignore::SameLine, dir_rules(l, syn.same_line)))
    } else if first_occ(l, syn.next_line) is Some {
        Some((Ignore::NextLine, dir_rules(l, syn.next_line)))
    } else if first_occ(l, syn.enable) is Some {
        Some((Ignore::Enable, dir_rules(l, syn.enable)))
    } else if first_occ(l, syn.disable) is Some {
        Some((Ignore::Disable, dir_rules(l, syn.disable)))
    } else {
        None
    }
}

pub open spec fn spec_directives_from(lines: Seq<Seq<char>>, syn: SyntaxV, i: int) -> Seq<DirectiveV>
    decreases lines.len() - i + 1,
{
    if i < 0 || i >= lines.len() {
        Seq::empty()
    } else {
        let rest = spec_directives_from(lines, syn, i + 1);
        match line_directive(lines[i], syn) {
            Some(d) => seq![DirectiveV { line: i + 1, kind: d.0, rules: d.1 }] + rest,
            None => rest,
        }
    }
}

/// Every directive of a text, with 1-based line numbers, in source order.
pub open spec fn spec_directives(lines: Seq<Seq<char>>, syn: SyntaxV) -> Seq<DirectiveV> {
    spec_directives_from(lines, syn, 0)
}

/// An empty rule list applies to every rule; otherwise the rule must be
/// named.
pub open spec fn rules_allow(rules: Seq<Seq<char>>, id: Seq<char>) -> bool {
    rules.len() == 0 || rules.contains(id)
}

/// A same-line directive targets its own line; a next-line directive the
/// one after it.
pub open spec fn adj_hit(d: DirectiveV, dline: int, id: Seq<char>) -> bool {
    &&& (d.kind == Ignore::SameLine && dline == d.line || d.kind == Ignore::NextLine && dline
        == d.line + 1)
    &&& rules_allow(d.rules, id)
}

pub open spec fn adjacency_suppressed(dirs: Seq<DirectiveV>, dline: int, id: Seq<char>) -> bool {
    exists|k: int| 0 <= k < dirs.len() && adj_hit(dirs[k], dline, id)
}

/// Whether a range directive names the given rule bucket; a bare directive
/// names only the wildcard bucket, written as the empty identifier.
pub open spec fn names_rule(d: DirectiveV, r: Seq<char>) -> bool {
    if d.rules.len() == 0 {
        r == Seq::<char>::empty()
    } else {
        d.rules.contains(r)
    }
}

/// Replay the enable/disable directives at or before `maxline`, in source
/// order, counting how often the bucket `r` was disabled.  A disable
/// increments the count; an enable decrements it, but only once some
/// disable has created the bucket.  The bool records whether the bucket
/// exists.
pub open spec fn replay(dirs: Seq<DirectiveV>, maxline: int, r: Seq<char>) -> (bool, int)
    decreases dirs.len(),
{
    if dirs.len() == 0 {
        (false, 0)
    } else {
        let prev = replay(dirs.drop_last(), maxline, r);
        let d = dirs.last();
        if d.line <= maxline && d.kind == Ignore::Disable && names_rule(d, r) {
            (true, prev.1 + 1)
        } else if d.line <= maxline && d.kind == Ignore::Enable && names_rule(d, r) && prev.0 {
            (true, prev.1 - 1)
        } else {
            prev
        }
    }
}

/// A diagnostic is range-suppressed when its own bucket or the wildcard
/// bucket is disabled more often than enabled at its line.
pub open spec fn range_suppressed(dirs: Seq<DirectiveV>, dline: int, id: Seq<char>) -> bool {
    replay(dirs, dline, id).1 > 0 || replay(dirs, dline, Seq::<char>::empty()).1 > 0
}

pub open spec fn suppressed_by(dirs: Seq<DirectiveV>, dline: int, id: Seq<char>) -> bool {
    adjacency_suppressed(dirs, dline, id) || range_suppressed(dirs, dline, id)
}

/// The engine's whole answer: scan the text for directives, then test the
/// diagnostic's line and rule against them.
pub open spec fn spec_diag_ignored(content: Seq<char>, syn: SyntaxV, dline: int, id: Seq<char>) -> bool {
    suppressed_by(spec_directives(spec_lines(content), syn), dline, id)
}

} // verus!

verus! {

// ---------------------------------------------------------------------------
// Executable engine
// ---------------------------------------------------------------------------

/// If the token occurs in the line, the rule identifiers following its
/// first occurrence, following [`dir_rules`].
#[verifier::loop_isolation(false)]
fn match_directive(line: &Vec<char>, tok: &Vec<char>) -> (r: Option<Vec<Vec<char>>>)
    ensures
        r is Some <==> first_occ(line@, tok@) is Some,
        r is Some ==> r->0.deep_view() == dir_rules(line@, tok@),
{
    let llen = line.len();
    match find_occ(line, tok, 0) {
        Some(p) => {
            proof {
                lemma_first_occ_bounds(line@, tok@, 0);
                assert(p + tok@.len() <= llen);
            }
            let rs = p + tok.len();
            let tail_end = match find_occ(line, tok, rs) {
                Some(q) => {
                    proof {
                        lemma_first_occ_bounds(line@, tok@, rs as int);
                    }
                    q
                },
                None => line.len(),
            };
            let mut rest: Vec<char> = Vec::new();
            let mut k: usize = rs;
            while k < tail_end
                invariant
                    rs <= k <= tail_end <= line@.len(),
                    rest@ =~= line@.subrange(rs as int, k as int),
                decreases tail_end - k,
            {
                rest.push(line[k]);
                proof {
                    assert(rest@ =~= line@.subrange(rs as int, k as int + 1));
                }
                k += 1;
            }
            proof {
                assert(rest@ =~= line@.subrange(rs as int, tail_end as int));
            }
            Some(rule_ids_of(&rest))
        },
        None => None,
    }
}

/// Scan a text line by line for directives, following [`spec_directives`].
#[verifier::loop_isolation(false)]
pub fn extract_directives(content: &str, syntax: &DirectiveSyntax) -> (out: Vec<Directive>)
    ensures
        out.deep_view() == spec_directives(spec_lines(content@), syntax.deep_view()),
{
    let lines = split_lines(content);
    let ghost lv = lines.deep_view();
    let ghost synv = syntax.deep_view();
    let tok_same = chars_of(syntax.same_line.as_str());
    let tok_next = chars_of(syntax.next_line.as_str());
    let tok_en = chars_of(syntax.enable.as_str());
    let tok_dis = chars_of(syntax.disable.as_str());
    let n = lines.len();
    let mut out: Vec<Directive> = Vec::new();
    let mut i: usize = 0;
    proof {
        assert(out.deep_view() + spec_directives_from(lv, synv, 0) =~~= spec_directives(lv, synv));
    }
    while i < n
        invariant
            i <= n,
            n == lines@.len(),
            out.deep_view() + spec_directives_from(lv, synv, i as int) =~~= spec_directives(
                lv,
                synv,
            ),
        decreases n - i,
    {
        let line = &lines[i];
        proof {
            assert(line@ =~= lv[i as int]);
        }
        let found: Option<(Ignore, Vec<Vec<char>>)> = match match_directive(line, &tok_same) {
            Some(rules) => Some((Ignore::SameLine, rules)),
            None => match match_directive(line, &tok_next) {
                Some(rules) => Some((Ignore::NextLine, rules)),
                None => match match_directive(line, &tok_en) {
                    Some(rules) => Some((Ignore::Enable, rules)),
                    None => match match_directive(line, &tok_dis) {
                        Some(rules) => Some((Ignore::Disable, rules)),
                        None => None,
                    },
                },
            },
        };
        let ghost old_out = out.deep_view();
        match found {
            Some(kr) => {
                let (kind, rules) = kr;
                out.push(Directive { line: i + 1, kind, rules });
                proof {
                    assert(out.deep_view() =~~= old_out.push(
                        DirectiveV { line: i as int + 1, kind, rules: kr.1.deep_view() },
                    ));
                    assert(line_directive(lv[i as int], synv) == Some(
                        (kind, kr.1.deep_view()),
                    ));
                }
            },
            None => {
                proof {
                    assert(line_directive(lv[i as int], synv) is None);
                }
            },
        }
        proof {
            assert(out.deep_view() + spec_directives_from(lv, synv, i as int + 1)
                =~~= spec_directives(lv, synv));
        }
        i += 1;
    }
    proof {
        assert(spec_directives_from(lv, synv, n as int) =~~= Seq::<DirectiveV>::empty());
        assert(out.deep_view() =~~= spec_directives(lv, synv));
    }
    out
}

/// Whether a list of rule identifiers names the given one.
fn rules_contain(rules: &Vec<Vec<char>>, id: &Vec<char>) -> (r: bool)
    ensures
        r == rules.deep_view().contains(id@),
{
    let n = rules.len();
    let mut i: usize = 0;
    while i < n
        invariant
            n == rules@.len(),
            i <= n,
            forall|k: int| 0 <= k < i ==> rules.deep_view()[k] != id@,
        decreases n - i,
    {
        let hit = eq_chars(&rules[i], id);
        proof {
            assert(rules.deep_view()[i as int] =~= rules@[i as int]@);
        }
        if hit {
            proof {
                assert(rules.deep_view()[i as int] == id@);
            }
            return true;
        }
        i += 1;
    }
    proof {
        assert(!rules.deep_view().contains(id@)) by {
            if rules.deep_view().contains(id@) {
                let k = choose|k: int|
                    0 <= k < rules.deep_view().len() && rules.deep_view()[k] == id@;
                assert(rules.deep_view()[k] != id@);
            }
        }
    }
    false
}

/// Replay the range directives for one bucket, following [`replay`].
#[verifier::loop_isolation(false)]
pub fn replay_bucket(dirs: &Vec<Directive>, maxline: usize, id: &Vec<char>) -> (r: (bool, i128))
    ensures
        (r.0, r.1 as int) == replay(dirs.deep_view(), maxline as int, id@),
{
    let n = dirs.len();
    let ghost dv = dirs.deep_view();
    let mut created: bool = false;
    let mut count: i128 = 0;
    let mut i: usize = 0;
    proof {
        assert(dv.take(0) =~= Seq::<DirectiveV>::empty());
    }
    while i < n
        invariant
            i <= n,
            n == dirs@.len(),
            dv.len() == n,
            -(i as int) <= count as int <= i as int,
            (created, count as int) == replay(dv.take(i as int), maxline as int, id@),
        decreases n - i,
    {
        proof {
            assert(dv.take(i as int + 1).drop_last() =~= dv.take(i as int));
            assert(dv.take(i as int + 1).last() == dv[i as int]);
        }
        let d = &dirs[i];
        let in_scope = d.line <= maxline;
        let names = if d.rules.len() == 0 {
            id.len() == 0
        } else {
            rules_contain(&d.rules, id)
        };
        proof {
            if d.rules@.len() == 0 {
                assert(d.deep_view().rules.len() == 0);
                if id@.len() == 0 {
                    assert(id@ =~= Seq::<char>::empty());
                }
            }
            assert(names == names_rule(dv[i as int], id@));
        }
        if in_scope && names {
            match d.kind {
                Ignore::Disable => {
                    created = true;
                    count = count + 1;
                },
                Ignore::Enable => {
                    if created {
                        count = count - 1;
                    }
                },
                _ => {},
            }
        }
        i += 1;
    }
    proof {
        assert(dv.take(n as int) =~= dv);
    }
    (created, count)
}

/// Whether any same-line or next-line directive targets the diagnostic.
#[verifier::loop_isolation(false)]
fn adjacency_check(dirs: &Vec<Directive>, dline: usize, id: &Vec<char>) -> (r: bool)
    ensures
        r == adjacency_suppressed(dirs.deep_view(), dline as int, id@),
{
    let n = dirs.len();
    let ghost dv = dirs.deep_view();
    let mut i: usize = 0;
    while i < n
        invariant
            i <= n,
            n == dirs@.len(),
            dv.len() == n,
            forall|k: int| 0 <= k < i ==> !adj_hit(dv[k], dline as int, id@),
        decreases n - i,
    {
        let d = &dirs[i];
        let line_hit = match d.kind {
            Ignore::SameLine => dline == d.line,
            Ignore::NextLine => dline >= 1 && dline - 1 == d.line,
            _ => false,
        };
        if line_hit {
            let allowed = if d.rules.len() == 0 {
                true
            } else {
                rules_contain(&d.rules, id)
            };
            if allowed {
                proof {
                    assert(adj_hit(dv[i as int], dline as int, id@));
                }
                return true;
            }
        }
        proof {
            assert(!adj_hit(dv[i as int], dline as int, id@));
        }
        i += 1;
    }
    proof {
        assert(!adjacency_suppressed(dv, dline as int, id@)) by {
            if adjacency_suppressed(dv, dline as int, id@) {
                let k = choose|k: int| 0 <= k < dv.len() && adj_hit(dv[k], dline as int, id@);
                assert(!adj_hit(dv[k], dline as int, id@));
            }
        }
    }
    false
}

/// Decide whether a diagnostic with the given rule identifier and 1-based
/// start line is suppressed by the directives in the text.
pub fn diag_ignored(content: &str, syntax: &DirectiveSyntax, dline: usize, rule_id: &str) -> (r:
    bool)
    ensures
        r == spec_diag_ignored(content@, syntax.deep_view(), dline as int, rule_id@),
{
    let dirs = extract_directives(content, syntax);
    let id = chars_of(rule_id);
    if adjacency_check(&dirs, dline, &id) {
        return true;
    }
    let own = replay_bucket(&dirs, dline, &id);
    let empty_id: Vec<char> = Vec::new();
    let wild = replay_bucket(&dirs, dline, &empty_id);
    proof {
        assert(empty_id@ =~= Seq::<char>::empty());
    }
    own.1 > 0 || wild.1 > 0
}

} // verus!

verus! {

// ---------------------------------------------------------------------------
// Laws of suppression
// ---------------------------------------------------------------------------

/// A next-line directive naming one rule suppresses exactly that rule on
/// exactly the line after it, and nothing else.
pub proof fn lemma_next_line_only(d: DirectiveV, rx: Seq<char>, dline: int, id: Seq<char>)
    requires
        d.kind == Ignore::NextLine,
        d.rules == seq![rx],
    ensures
        suppressed_by(seq![d], dline, id) <==> (dline == d.line + 1 && id == rx),
{
    let dirs = seq![d];
    let s0 = Seq::<DirectiveV>::empty();
    assert(dirs =~= s0.push(d));
    assert(replay(s0, dline, id) == (false, 0int));
    assert(replay(s0, dline, Seq::<char>::empty()) == (false, 0int));
    lemma_replay_step(s0, d, dline, id);
    lemma_replay_step(s0, d, dline, Seq::<char>::empty());
    assert(replay(dirs, dline, id).1 == 0);
    assert(replay(dirs, dline, Seq::<char>::empty()).1 == 0);
    if dline == d.line + 1 && id == rx {
        assert(d.rules.contains(id)) by {
            assert(d.rules[0] == id);
        }
        assert(adj_hit(dirs[0], dline, id));
    }
    if suppressed_by(dirs, dline, id) {
        let k = choose|k: int| 0 <= k < dirs.len() && adj_hit(dirs[k], dline, id);
        assert(k == 0);
        assert(rules_allow(d.rules, id));
        assert(d.rules.contains(id));
        let j = choose|j: int| 0 <= j < d.rules.len() && d.rules[j] == id;
        assert(j == 0);
    }
}

/// Replaying one more directive transforms the bucket state exactly as
/// the directive says.
pub proof fn lemma_replay_step(dirs: Seq<DirectiveV>, d: DirectiveV, maxline: int, r: Seq<char>)
    ensures
        replay(dirs.push(d), maxline, r) == {
            let prev = replay(dirs, maxline, r);
            if d.line <= maxline && d.kind == Ignore::Disable && names_rule(d, r) {
                (true, prev.1 + 1)
            } else if d.line <= maxline && d.kind == Ignore::Enable && names_rule(d, r) && prev.0 {
                (true, prev.1 - 1)
            } else {
                prev
            }
        },
{
    assert(dirs.push(d).drop_last() =~= dirs);
    assert(dirs.push(d).last() == d);
}

/// A disable directive naming one rule, followed by an enable directive
/// naming it, suppresses that rule exactly on the lines from the first
/// directive up to, and excluding, the second; other rules are untouched.
pub proof fn lemma_disable_enable_range(
    dis: DirectiveV,
    en: DirectiveV,
    rx: Seq<char>,
    dline: int,
    id: Seq<char>,
)
    requires
        dis.kind == Ignore::Disable,
        en.kind == Ignore::Enable,
        dis.rules == seq![rx],
        en.rules == seq![rx],
        dis.line < en.line,
        rx.len() > 0,
    ensures
        suppressed_by(seq![dis, en], dline, id) <==> (id == rx && dis.line <= dline < en.line),
{
    let dirs = seq![dis, en];
    let s0 = Seq::<DirectiveV>::empty();
    let s1 = s0.push(dis);
    assert(dirs =~= s1.push(en));
    assert(forall|q: Seq<char>| dis.rules.contains(q) ==> q == rx) by {
        assert forall|q: Seq<char>| dis.rules.contains(q) implies q == rx by {
            let j = choose|j: int| 0 <= j < dis.rules.len() && dis.rules[j] == q;
            assert(j == 0);
        }
    }
    assert(forall|q: Seq<char>| en.rules.contains(q) ==> q == rx) by {
        assert forall|q: Seq<char>| en.rules.contains(q) implies q == rx by {
            let j = choose|j: int| 0 <= j < en.rules.len() && en.rules[j] == q;
            assert(j == 0);
        }
    }
    assert(dis.rules[0] == rx);
    assert(dis.rules.contains(rx));
    assert(en.rules[0] == rx);
    assert(en.rules.contains(rx));
    assert(!adjacency_suppressed(dirs, dline, id)) by {
        if adjacency_suppressed(dirs, dline, id) {
            let k = choose|k: int| 0 <= k < dirs.len() && adj_hit(dirs[k], dline, id);
            assert(dirs[k].kind == Ignore::Disable || dirs[k].kind == Ignore::Enable);
        }
    }
    assert(replay(s0, dline, id) == (false, 0int));
    assert(replay(s0, dline, Seq::<char>::empty()) == (false, 0int));
    lemma_replay_step(s0, dis, dline, id);
    lemma_replay_step(s1, en, dline, id);
    lemma_replay_step(s0, dis, dline, Seq::<char>::empty());
    lemma_replay_step(s1, en, dline, Seq::<char>::empty());
    assert(!names_rule(dis, Seq::<char>::empty()));
    assert(!names_rule(en, Seq::<char>::empty()));
    assert(replay(dirs, dline, Seq::<char>::empty()).1 == 0);
    if id == rx {
        if dline < dis.line {
            assert(replay(dirs, dline, id).1 == 0);
        } else if dline < en.line {
            assert(replay(s1, dline, id) == (true, 1int));
            assert(replay(dirs, dline, id).1 == 1);
        } else {
            assert(replay(s1, dline, id) == (true, 1int));
            assert(replay(dirs, dline, id) == (true, 0int));
        }
    } else {
        assert(!names_rule(dis, id));
        assert(!names_rule(en, id));
        assert(replay(dirs, dline, id).1 == 0);
    }
}

/// A bare disable directive, followed by a bare enable, suppresses every
/// rule on the lines from the first up to, and excluding, the second.
pub proof fn lemma_bare_disable_enable_range(
    dis: DirectiveV,
    en: DirectiveV,
    dline: int,
    id: Seq<char>,
)
    requires
        dis.kind == Ignore::Disable,
        en.kind == Ignore::Enable,
        dis.rules == Seq::<Seq<char>>::empty(),
        en.rules == Seq::<Seq<char>>::empty(),
        dis.line < en.line,
    ensures
        suppressed_by(seq![dis, en], dline, id) <==> dis.line <= dline < en.line,
{
    let dirs = seq![dis, en];
    let s0 = Seq::<DirectiveV>::empty();
    let s1 = s0.push(dis);
    assert(dirs =~= s1.push(en));
    assert(!adjacency_suppressed(dirs, dline, id)) by {
        if adjacency_suppressed(dirs, dline, id) {
            let k = choose|k: int| 0 <= k < dirs.len() && adj_hit(dirs[k], dline, id);
            assert(dirs[k].kind == Ignore::Disable || dirs[k].kind == Ignore::Enable);
        }
    }
    assert(replay(s0, dline, id) == (false, 0int));
    assert(replay(s0, dline, Seq::<char>::empty()) == (false, 0int));
    lemma_replay_step(s0, dis, dline, id);
    lemma_replay_step(s1, en, dline, id);
    lemma_replay_step(s0, dis, dline, Seq::<char>::empty());
    lemma_replay_step(s1, en, dline, Seq::<char>::empty());
    assert(names_rule(dis, Seq::<char>::empty()));
    assert(names_rule(en, Seq::<char>::empty()));
    if dline < dis.line {
        assert(replay(dirs, dline, Seq::<char>::empty()).1 == 0);
        assert(replay(dirs, dline, id).1 <= 0);
    } else if dline < en.line {
        assert(replay(s1, dline, Seq::<char>::empty()) == (true, 1int));
        assert(replay(dirs, dline, Seq::<char>::empty()).1 == 1);
    } else {
        assert(replay(s1, dline, Seq::<char>::empty()) == (true, 1int));
        assert(replay(dirs, dline, Seq::<char>::empty()) == (true, 0int));
        assert(replay(dirs, dline, id).1 <= 0);
    }
}

} // verus!
