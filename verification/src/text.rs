//! Verified text utilities: line splitting, substring search, trimming and
//! decimal formatting, with their exact spec-level counterparts.

use vstd::prelude::*;

verus! {

/// The whitespace characters the engine recognises when trimming rule
/// identifiers.
pub open spec fn is_ws(c: char) -> bool {
    c == ' ' || c == '\t' || c == '\r' || c == '\n'
}

/// Index of the first occurrence of `d` at or after `i`, or the length of
/// the sequence when there is none.
pub open spec fn delim_end(s: Seq<char>, i: int, d: char) -> int
    decreases s.len() - i,
{
    if i >= s.len() {
        s.len() as int
    } else if s[i] == d {
        i
    } else {
        delim_end(s, i + 1, d)
    }
}

pub proof fn lemma_rskip_ws_le(l: Seq<char>, j: int)
    requires
        j >= 0,
    ensures
        0 <= rskip_ws(l, j) <= j,
    decreases j,
{
    if j > 0 && is_ws(l[j - 1]) {
        lemma_rskip_ws_le(l, j - 1);
    }
}

pub proof fn lemma_delim_end(s: Seq<char>, i: int, d: char)
    requires
        0 <= i <= s.len(),
    ensures
        i <= delim_end(s, i, d) <= s.len(),
    decreases s.len() - i,
{
    if i < s.len() && s[i] != d {
        lemma_delim_end(s, i + 1, d);
    }
}

/// A line without its trailing carriage return, if it has one.
pub open spec fn strip_cr(l: Seq<char>) -> Seq<char> {
    if l.len() > 0 && l[l.len() - 1] == '\r' {
        l.drop_last()
    } else {
        l
    }
}

/// The lines of a text, split at newline characters, each without a
/// trailing carriage return; a trailing newline opens no extra empty line.
pub open spec fn spec_lines_from(s: Seq<char>, i: int) -> Seq<Seq<char>>
    decreases s.len() - i + 1,
        when 0 <= i
        via spec_lines_from_decreases
{
    if i >= s.len() {
        Seq::empty()
    } else {
        seq![strip_cr(s.subrange(i, delim_end(s, i, '\n')))] + spec_lines_from(
            s,
            delim_end(s, i, '\n') + 1,
        )
    }
}

#[via_fn]
proof fn spec_lines_from_decreases(s: Seq<char>, i: int) {
    if 0 <= i < s.len() {
        lemma_delim_end(s, i, '\n');
    }
}

pub open spec fn spec_lines(s: Seq<char>) -> Seq<Seq<char>> {
    spec_lines_from(s, 0)
}

/// Whether the needle occurs in the haystack starting exactly at `j`.
pub open spec fn occ_at(l: Seq<char>, t: Seq<char>, j: int) -> bool {
    0 <= j && j + t.len() <= l.len() && l.subrange(j, j + t.len() as int) == t
}

/// Index of the first occurrence of `t` in `l` at or after `j`.
pub open spec fn first_occ_from(l: Seq<char>, t: Seq<char>, j: int) -> Option<int>
    decreases l.len() - j + 1,
{
    if j < 0 || j + t.len() > l.len() {
        None
    } else if occ_at(l, t, j) {
        Some(j)
    } else {
        first_occ_from(l, t, j + 1)
    }
}

pub open spec fn first_occ(l: Seq<char>, t: Seq<char>) -> Option<int> {
    first_occ_from(l, t, 0)
}

/// First index at or after `i` holding a non-whitespace character.
pub open spec fn skip_ws(l: Seq<char>, i: int) -> int
    decreases l.len() - i,
{
    if i >= l.len() {
        l.len() as int
    } else if is_ws(l[i]) {
        skip_ws(l, i + 1)
    } else {
        i
    }
}

/// One past the last non-whitespace character strictly before `j`.
pub open spec fn rskip_ws(l: Seq<char>, j: int) -> int
    decreases j,
{
    if j <= 0 {
        0
    } else if is_ws(l[j - 1]) {
        rskip_ws(l, j - 1)
    } else {
        j
    }
}

/// The sequence without leading and trailing whitespace.
pub open spec fn spec_trim(l: Seq<char>) -> Seq<char> {
    let a = skip_ws(l, 0);
    let b = rskip_ws(l, l.len() as int);
    if a <= b {
        l.subrange(a, b)
    } else {
        Seq::empty()
    }
}

/// Rule identifiers listed in a directive's tail: the text is split at
/// single spaces, each piece is trimmed, and empty pieces are dropped.
pub open spec fn rule_ids_from(l: Seq<char>, i: int) -> Seq<Seq<char>>
    decreases l.len() - i + 1,
        when 0 <= i
        via rule_ids_from_decreases
{
    if i >= l.len() {
        Seq::empty()
    } else {
        let e = delim_end(l, i, ' ');
        let seg = spec_trim(l.subrange(i, e));
        let rest = rule_ids_from(l, e + 1);
        if seg.len() > 0 {
            seq![seg] + rest
        } else {
            rest
        }
    }
}

#[via_fn]
proof fn rule_ids_from_decreases(l: Seq<char>, i: int) {
    if 0 <= i < l.len() {
        lemma_delim_end(l, i, ' ');
    }
}

pub open spec fn rule_ids(l: Seq<char>) -> Seq<Seq<char>> {
    rule_ids_from(l, 0)
}

/// Decimal digit characters.
pub open spec fn dec_digit(d: int) -> char {
    if d == 0 { '0' }
    else if d == 1 { '1' }
    else if d == 2 { '2' }
    else if d == 3 { '3' }
    else if d == 4 { '4' }
    else if d == 5 { '5' }
    else if d == 6 { '6' }
    else if d == 7 { '7' }
    else if d == 8 { '8' }
    else { '9' }
}

/// The usual decimal rendering of a natural number.
pub open spec fn dec_str(n: int) -> Seq<char>
    decreases n,
{
    if n < 10 {
        seq![dec_digit(n)]
    } else {
        dec_str(n / 10) + seq![dec_digit(n % 10)]
    }
}

// ---------------------------------------------------------------------------
// Executable counterparts
// ---------------------------------------------------------------------------

/// The characters of a string, as a vector for random access.
pub fn chars_of(s: &str) -> (v: Vec<char>)
    ensures
        v@ == s@,
{
    let n = s.unicode_len();
    let mut v: Vec<char> = Vec::new();
    let mut i: usize = 0;
    while i < n
        invariant
            n == s@.len(),
            i <= n,
            v@ =~= s@.subrange(0, i as int),
        decreases n - i,
    {
        v.push(s.get_char(i));
        proof {
            assert(v@ =~= s@.subrange(0, i as int + 1));
        }
        i += 1;
    }
    proof {
        assert(v@ =~= s@);
    }
    v
}

/// Character-sequence equality.
pub fn eq_chars(a: &Vec<char>, b: &Vec<char>) -> (r: bool)
    ensures
        r == (a@ == b@),
{
    if a.len() != b.len() {
        proof {
            assert(a@ != b@);
        }
        return false;
    }
    let n = a.len();
    let mut i: usize = 0;
    while i < n
        invariant
            n == a@.len() == b@.len(),
            i <= n,
            forall|k: int| 0 <= k < i ==> a@[k] == b@[k],
        decreases n - i,
    {
        if a[i] != b[i] {
            return false;
        }
        i += 1;
    }
    proof {
        assert(a@ =~= b@);
    }
    true
}

/// Split a text into lines, following [`spec_lines`].
#[verifier::loop_isolation(false)]
pub fn split_lines(s: &str) -> (out: Vec<Vec<char>>)
    ensures
        out.deep_view() == spec_lines(s@),
{
    let v = chars_of(s);
    let ghost sv = s@;
    let n = v.len();
    let mut out: Vec<Vec<char>> = Vec::new();
    let mut i: usize = 0;
    proof {
        assert(out.deep_view() + spec_lines_from(sv, 0) =~~= spec_lines(sv));
    }
    while i < n
        invariant
            i <= n,
            out.deep_view() + spec_lines_from(sv, i as int) =~~= spec_lines(sv),
        decreases n - i,
    {
        let mut j: usize = i;
        while j < n && v[j] != '\n'
            invariant
                i <= j <= n,
                delim_end(sv, i as int, '\n') == delim_end(sv, j as int, '\n'),
            decreases n - j,
        {
            j += 1;
        }
        proof {
            assert(delim_end(sv, i as int, '\n') == j as int);
        }
        let mut line: Vec<char> = Vec::new();
        let mut k: usize = i;
        while k < j
            invariant
                i <= k <= j <= n,
                line@ =~= sv.subrange(i as int, k as int),
            decreases j - k,
        {
            line.push(v[k]);
            proof {
                assert(line@ =~= sv.subrange(i as int, k as int + 1));
            }
            k += 1;
        }
        proof {
            assert(line@ =~= sv.subrange(i as int, j as int));
        }
        if line.len() > 0 && line[line.len() - 1] == '\r' {
            line.pop();
            proof {
                assert(line@ =~= strip_cr(sv.subrange(i as int, j as int)));
            }
        }
        let ghost old_out = out.deep_view();
        out.push(line);
        proof {
            assert(out.deep_view() =~~= old_out.push(line@));
            assert(line@ == strip_cr(sv.subrange(i as int, j as int)));
            assert(spec_lines_from(sv, i as int) =~~= seq![line@] + spec_lines_from(
                sv,
                j as int + 1,
            ));
            if j < n {
                assert(out.deep_view() + spec_lines_from(sv, j as int + 1) =~~= spec_lines(sv));
            } else {
                assert(spec_lines_from(sv, j as int + 1) =~~= Seq::<Seq<char>>::empty());
                assert(spec_lines_from(sv, n as int) =~~= Seq::<Seq<char>>::empty());
                assert(out.deep_view() + spec_lines_from(sv, n as int) =~~= spec_lines(sv));
            }
        }
        if j < n {
            i = j + 1;
        } else {
            i = n;
        }
    }
    proof {
        assert(spec_lines_from(sv, n as int) =~~= Seq::<Seq<char>>::empty());
        assert(out.deep_view() =~~= spec_lines(sv));
    }
    out
}

fn occ_check(l: &Vec<char>, t: &Vec<char>, j: usize) -> (r: bool)
    requires
        j + t@.len() <= l@.len(),
    ensures
        r == occ_at(l@, t@, j as int),
{
    let n = l.len();
    let m = t.len();
    let mut k: usize = 0;
    while k < m
        invariant
            n == l@.len(),
            m == t@.len(),
            j + m <= n,
            k <= m,
            forall|x: int| 0 <= x < k ==> l@[j + x] == t@[x],
        decreases m - k,
    {
        if l[j + k] != t[k] {
            proof {
                assert(l@.subrange(j as int, j + m as int)[k as int] != t@[k as int]);
            }
            return false;
        }
        k += 1;
    }
    proof {
        assert(l@.subrange(j as int, j + m as int) =~= t@);
    }
    true
}

/// First occurrence of `t` in `l` at or after `from`, following
/// [`first_occ_from`].
#[verifier::loop_isolation(false)]
pub fn find_occ(l: &Vec<char>, t: &Vec<char>, from: usize) -> (r: Option<usize>)
    ensures
        match r {
            Some(j) => first_occ_from(l@, t@, from as int) == Some(j as int),
            None => first_occ_from(l@, t@, from as int) is None,
        },
{
    let n = l.len();
    let m = t.len();
    if m > n {
        return None;
    }
    if m == 0 {
        if from <= n {
            proof {
                assert(l@.subrange(from as int, from as int) =~= t@);
            }
            return Some(from);
        }
        return None;
    }
    let mut j: usize = from;
    if j > n - m {
        return None;
    }
    while j <= n - m
        invariant
            from <= j,
            j <= n - m + 1,
            first_occ_from(l@, t@, from as int) == first_occ_from(l@, t@, j as int),
        decreases n - m - j + 1,
    {
        if occ_check(l, t, j) {
            return Some(j);
        }
        j += 1;
    }
    None
}

/// Trim whitespace from both ends, following [`spec_trim`].
#[verifier::loop_isolation(false)]
pub fn trim_chars(l: &Vec<char>) -> (r: Vec<char>)
    ensures
        r@ == spec_trim(l@),
{
    let n = l.len();
    let mut a: usize = 0;
    while a < n && (l[a] == ' ' || l[a] == '\t' || l[a] == '\r' || l[a] == '\n')
        invariant
            a <= n,
            skip_ws(l@, 0) == skip_ws(l@, a as int),
        decreases n - a,
    {
        a += 1;
    }
    proof {
        assert(skip_ws(l@, 0) == a as int);
    }
    let mut b: usize = n;
    while b > a && (l[b - 1] == ' ' || l[b - 1] == '\t' || l[b - 1] == '\r' || l[b - 1] == '\n')
        invariant
            a <= b <= n,
            rskip_ws(l@, n as int) == rskip_ws(l@, b as int),
        decreases b,
    {
        b -= 1;
    }
    proof {
        lemma_rskip_ws_le(l@, b as int);
    }
    let mut r: Vec<char> = Vec::new();
    let mut k: usize = a;
    while k < b
        invariant
            a <= k <= b <= n,
            r@ =~= l@.subrange(a as int, k as int),
        decreases b - k,
    {
        r.push(l[k]);
        proof {
            assert(r@ =~= l@.subrange(a as int, k as int + 1));
        }
        k += 1;
    }
    proof {
        let sa = skip_ws(l@, 0);
        let sb = rskip_ws(l@, l@.len() as int);
        assert(sa == a as int);
        assert(sb == rskip_ws(l@, b as int));
        if b > a {
            assert(!is_ws(l@[b - 1]));
            assert(sb == b as int);
            assert(r@ =~= spec_trim(l@));
        } else {
            assert(r@ =~= Seq::<char>::empty());
            assert(sb <= b as int);
            if sa <= sb {
                assert(sa == sb);
                assert(l@.subrange(sa, sb) =~= Seq::<char>::empty());
            }
            assert(r@ =~= spec_trim(l@));
        }
    }
    r
}

/// Split a directive tail into trimmed, non-empty rule identifiers,
/// following [`rule_ids`].
#[verifier::loop_isolation(false)]
pub fn rule_ids_of(l: &Vec<char>) -> (out: Vec<Vec<char>>)
    ensures
        out.deep_view() == rule_ids(l@),
{
    let ghost lv = l@;
    let n = l.len();
    let mut out: Vec<Vec<char>> = Vec::new();
    let mut i: usize = 0;
    proof {
        assert(out.deep_view() + rule_ids_from(lv, 0) =~~= rule_ids(lv));
    }
    while i < n
        invariant
            i <= n,
            out.deep_view() + rule_ids_from(lv, i as int) =~~= rule_ids(lv),
        decreases n - i,
    {
        let mut j: usize = i;
        while j < n && v_at(l, j) != ' '
            invariant
                i <= j <= n,
                delim_end(lv, i as int, ' ') == delim_end(lv, j as int, ' '),
            decreases n - j,
        {
            j += 1;
        }
        proof {
            assert(delim_end(lv, i as int, ' ') == j as int);
        }
        let mut seg: Vec<char> = Vec::new();
        let mut k: usize = i;
        while k < j
            invariant
                i <= k <= j <= n,
                seg@ =~= lv.subrange(i as int, k as int),
            decreases j - k,
        {
            seg.push(v_at(l, k));
            proof {
                assert(seg@ =~= lv.subrange(i as int, k as int + 1));
            }
            k += 1;
        }
        proof {
            assert(seg@ =~= lv.subrange(i as int, j as int));
        }
        let trimmed = trim_chars(&seg);
        let ghost old_out = out.deep_view();
        if trimmed.len() > 0 {
            out.push(trimmed);
            proof {
                assert(out.deep_view() =~~= old_out.push(spec_trim(lv.subrange(
                    i as int,
                    j as int,
                ))));
            }
        }
        proof {
            assert(rule_ids_from(lv, i as int) =~~= (if spec_trim(lv.subrange(i as int, j as int)).len()
                > 0 {
                seq![spec_trim(lv.subrange(i as int, j as int))] + rule_ids_from(lv, j as int + 1)
            } else {
                rule_ids_from(lv, j as int + 1)
            }));
            if j < n {
                assert(out.deep_view() + rule_ids_from(lv, j as int + 1) =~~= rule_ids(lv));
            } else {
                assert(rule_ids_from(lv, j as int + 1) =~~= Seq::<Seq<char>>::empty());
                assert(rule_ids_from(lv, n as int) =~~= Seq::<Seq<char>>::empty());
                assert(out.deep_view() + rule_ids_from(lv, n as int) =~~= rule_ids(lv));
            }
        }
        if j < n {
            i = j + 1;
        } else {
            i = n;
        }
    }
    proof {
        assert(rule_ids_from(lv, n as int) =~~= Seq::<Seq<char>>::empty());
        assert(out.deep_view() =~~= rule_ids(lv));
    }
    out
}

fn v_at(l: &Vec<char>, i: usize) -> (c: char)
    requires
        i < l@.len(),
    ensures
        c == l@[i as int],
{
    l[i]
}

/// Whether a string holds a character.
pub fn str_contains_char(s: &str, c: char) -> (r: bool)
    ensures
        r == s@.contains(c),
{
    let n = s.unicode_len();
    let mut i: usize = 0;
    while i < n
        invariant
            n == s@.len(),
            i <= n,
            forall|k: int| 0 <= k < i ==> s@[k] != c,
        decreases n - i,
    {
        if s.get_char(i) == c {
            return true;
        }
        i += 1;
    }
    proof {
        assert(!s@.contains(c)) by {
            if s@.contains(c) {
                let k = choose|k: int| 0 <= k < s@.len() && s@[k] == c;
                assert(s@[k] != c);
            }
        }
    }
    false
}

fn push_digit(s: &mut String, d: u64)
    requires
        d < 10,
    ensures
        final(s)@ == old(s)@ + seq![dec_digit(d as int)],
{
    proof {
        reveal_strlit("0");
        reveal_strlit("1");
        reveal_strlit("2");
        reveal_strlit("3");
        reveal_strlit("4");
        reveal_strlit("5");
        reveal_strlit("6");
        reveal_strlit("7");
        reveal_strlit("8");
        reveal_strlit("9");
    }
    if d == 0 {
        s.append("0");
    } else if d == 1 {
        s.append("1");
    } else if d == 2 {
        s.append("2");
    } else if d == 3 {
        s.append("3");
    } else if d == 4 {
        s.append("4");
    } else if d == 5 {
        s.append("5");
    } else if d == 6 {
        s.append("6");
    } else if d == 7 {
        s.append("7");
    } else if d == 8 {
        s.append("8");
    } else {
        s.append("9");
    }
    proof {
        assert(s@ =~= old(s)@ + seq![dec_digit(d as int)]);
    }
}

/// Decimal rendering of a number, following [`dec_str`].
pub fn u64_to_string(n: u64) -> (r: String)
    ensures
        r@ == dec_str(n as int),
    decreases n,
{
    if n < 10 {
        let mut s = String::new();
        push_digit(&mut s, n);
        proof {
            assert(s@ =~= dec_str(n as int));
        }
        s
    } else {
        let mut s = u64_to_string(n / 10);
        push_digit(&mut s, n % 10);
        proof {
            assert(s@ =~= dec_str(n as int));
        }
        s
    }
}

} // verus!

verus! {

pub proof fn lemma_first_occ_bounds(l: Seq<char>, t: Seq<char>, from: int)
    ensures
        match first_occ_from(l, t, from) {
            Some(j) => occ_at(l, t, j) && from <= j && j + t.len() <= l.len(),
            None => true,
        },
    decreases l.len() - from + 1,
{
    if from >= 0 && from + t.len() <= l.len() && !occ_at(l, t, from) {
        lemma_first_occ_bounds(l, t, from + 1);
    }
}

} // verus!

verus! {

/// String equality by characters.
pub fn str_eq(a: &str, b: &str) -> (r: bool)
    ensures
        r == (a@ == b@),
{
    let na = a.unicode_len();
    let nb = b.unicode_len();
    if na != nb {
        proof {
            assert(a@ != b@);
        }
        return false;
    }
    let mut i: usize = 0;
    while i < na
        invariant
            na == a@.len() == b@.len(),
            i <= na,
            forall|k: int| 0 <= k < i ==> a@[k] == b@[k],
        decreases na - i,
    {
        if a.get_char(i) != b.get_char(i) {
            return false;
        }
        i += 1;
    }
    proof {
        assert(a@ =~= b@);
    }
    true
}

} // verus!
