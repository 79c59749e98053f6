//! The grammar of the detail line that PostgreSQL writes when an exclusion
//! constraint refuses a row, such as
//! `Key (resource_id, timespan)=(room-1, ["2022-12-26 22:00:00+00","2022-12-30 19:00:00+00")) conflicts with ...`.
//!
//! A report is `(` name spaces `,` spaces name `)=(` name spaces `,` spaces `[` text,
//! where a name is a non-empty run of ASCII letters, digits, `_` and `-`, the
//! spaces are Unicode white space, and the text is a non-empty run of characters
//! other than `)` and `]`. Reports are read from left to right, each search
//! starting where the previous report ended, and every run takes as many
//! characters as it can.

use vstd::hash_map::StringHashMap;
use vstd::prelude::*;

verus! {

/// The kinds of character runs in a report.
#[derive(Clone, Copy, Debug, PartialEq, Eq, Structural)]
pub enum CharClass {
    /// ASCII letters, digits, `_` and `-`.
    Name,
    /// Unicode white space.
    Space,
    /// Anything but `)` and `]`.
    RangeText,
}

/// ASCII letters, digits, `_` and `-`.
pub open spec fn is_name_char(c: char) -> bool {
    ||| ('a' <= c && c <= 'z')
    ||| ('A' <= c && c <= 'Z')
    ||| ('0' <= c && c <= '9')
    ||| c == '_'
    ||| c == '-'
}

/// The characters with the Unicode `White_Space` property.
pub open spec fn is_space_char(c: char) -> bool {
    ||| ('\u{9}' <= c && c <= '\u{d}')
    ||| c == ' '
    ||| c == '\u{85}'
    ||| c == '\u{a0}'
    ||| c == '\u{1680}'
    ||| ('\u{2000}' <= c && c <= '\u{200a}')
    ||| c == '\u{2028}'
    ||| c == '\u{2029}'
    ||| c == '\u{202f}'
    ||| c == '\u{205f}'
    ||| c == '\u{3000}'
}

/// Anything but a closing parenthesis or a closing bracket.
pub open spec fn is_range_char(c: char) -> bool {
    c != ')' && c != ']'
}

impl CharClass {
    /// Whether the class takes the character.
    pub open spec fn admits(self, c: char) -> bool {
        match self {
            CharClass::Name => is_name_char(c),
            CharClass::Space => is_space_char(c),
            CharClass::RangeText => is_range_char(c),
        }
    }

    /// Whether the class takes the character.
    pub fn test(&self, c: char) -> (r: bool)
        ensures
            r == self.admits(c),
    {
        match self {
            CharClass::Name => ('a' <= c && c <= 'z') || ('A' <= c && c <= 'Z') || ('0' <= c
                && c <= '9') || c == '_' || c == '-',
            CharClass::Space => ('\u{9}' <= c && c <= '\u{d}') || c == ' ' || c == '\u{85}' || c
                == '\u{a0}' || c == '\u{1680}' || ('\u{2000}' <= c && c <= '\u{200a}') || c
                == '\u{2028}' || c == '\u{2029}' || c == '\u{202f}' || c == '\u{205f}' || c
                == '\u{3000}',
            CharClass::RangeText => c != ')' && c != ']',
        }
    }
}

/// Where the longest run of `class` characters that starts at `i` ends.
pub open spec fn run_end(s: Seq<char>, i: int, class: CharClass) -> int
    decreases s.len() - i,
{
    if 0 <= i < s.len() && class.admits(s[i]) {
        run_end(s, i + 1, class)
    } else {
        i
    }
}

/// The positions of one report in a text: where each of the two names, the
/// value after the first name and the range text start and end.
pub ghost struct Spans {
    pub key1_start: int,
    pub key1_end: int,
    pub key2_start: int,
    pub key2_end: int,
    pub value1_start: int,
    pub value1_end: int,
    pub value2_start: int,
    pub value2_end: int,
}

/// The report that starts at position `i` of `s`, if one does.
#[verifier::opaque]
pub open spec fn capture_at(s: Seq<char>, i: int) -> Option<Spans> {
    let k1s = i + 1;
    let k1e = run_end(s, k1s, CharClass::Name);
    let c1 = run_end(s, k1e, CharClass::Space);
    let k2s = run_end(s, c1 + 1, CharClass::Space);
    let k2e = run_end(s, k2s, CharClass::Name);
    let v1s = k2e + 3;
    let v1e = run_end(s, v1s, CharClass::Name);
    let c2 = run_end(s, v1e, CharClass::Space);
    let b = run_end(s, c2 + 1, CharClass::Space);
    let v2s = b + 1;
    let v2e = run_end(s, v2s, CharClass::RangeText);
    if 0 <= i < s.len() && s[i] == '(' && k1e > k1s && c1 < s.len() && s[c1] == ',' && k2e > k2s
        && k2e + 2 < s.len() && s[k2e] == ')' && s[k2e + 1] == '=' && s[k2e + 2] == '(' && v1e
        > v1s && c2 < s.len() && s[c2] == ',' && b < s.len() && s[b] == '[' && v2e > v2s {
        Some(
            Spans {
                key1_start: k1s,
                key1_end: k1e,
                key2_start: k2s,
                key2_end: k2e,
                value1_start: v1s,
                value1_end: v1e,
                value2_start: v2s,
                value2_end: v2e,
            },
        )
    } else {
        None
    }
}

/// All reports of `s` found from position `pos` on, left to right, each
/// search resuming where the previous report ended.
pub open spec fn captures_from(s: Seq<char>, pos: int) -> Seq<Spans>
    decreases s.len() - pos,
{
    if pos < 0 || pos >= s.len() {
        Seq::empty()
    } else {
        match capture_at(s, pos) {
            Some(m) => if pos < m.value2_end <= s.len() {
                seq![m] + captures_from(s, m.value2_end)
            } else {
                Seq::empty()
            },
            None => captures_from(s, pos + 1),
        }
    }
}

/// All reports of `s`.
pub open spec fn captures(s: Seq<char>) -> Seq<Spans> {
    captures_from(s, 0)
}

/// The two name/value pairs of a report, the second winning where both names agree.
pub open spec fn capture_fields(s: Seq<char>, m: Spans) -> Map<Seq<char>, Seq<char>> {
    Map::empty().insert(
        s.subrange(m.key1_start, m.key1_end),
        s.subrange(m.value1_start, m.value1_end),
    ).insert(s.subrange(m.key2_start, m.key2_end), s.subrange(m.value2_start, m.value2_end))
}

/// The text values of a map from names to strings.
pub open spec fn text_fields(m: Map<Seq<char>, String>) -> Map<Seq<char>, Seq<char>> {
    m.map_values(|v: String| v@)
}

/// A run ends at or after its start and no later than the text, takes only
/// characters of its class, and stops before one that is not.
pub proof fn lemma_run_end(s: Seq<char>, i: int, class: CharClass)
    requires
        0 <= i <= s.len(),
    ensures
        i <= run_end(s, i, class) <= s.len(),
        forall|k: int| i <= k < run_end(s, i, class) ==> class.admits(#[trigger] s[k]),
        run_end(s, i, class) < s.len() ==> !class.admits(s[run_end(s, i, class)]),
    decreases s.len() - i,
{
    if i < s.len() && class.admits(s[i]) {
        lemma_run_end(s, i + 1, class);
    }
}

/// The parts of a report lie in order inside the text, after its start.
pub proof fn lemma_capture_at_bounds(s: Seq<char>, i: int)
    requires
        capture_at(s, i) is Some,
    ensures
        ({
            let m = capture_at(s, i)->0;
            &&& 0 <= i < m.key1_start < m.key1_end < m.key2_start < m.key2_end < m.value1_start
                < m.value1_end < m.value2_start < m.value2_end <= s.len()
        }),
{
    reveal(capture_at);
    let k1s = i + 1;
    lemma_run_end(s, k1s, CharClass::Name);
    let k1e = run_end(s, k1s, CharClass::Name);
    lemma_run_end(s, k1e, CharClass::Space);
    let c1 = run_end(s, k1e, CharClass::Space);
    lemma_run_end(s, c1 + 1, CharClass::Space);
    let k2s = run_end(s, c1 + 1, CharClass::Space);
    lemma_run_end(s, k2s, CharClass::Name);
    let k2e = run_end(s, k2s, CharClass::Name);
    let v1s = k2e + 3;
    lemma_run_end(s, v1s, CharClass::Name);
    let v1e = run_end(s, v1s, CharClass::Name);
    lemma_run_end(s, v1e, CharClass::Space);
    let c2 = run_end(s, v1e, CharClass::Space);
    lemma_run_end(s, c2 + 1, CharClass::Space);
    let b = run_end(s, c2 + 1, CharClass::Space);
    lemma_run_end(s, b + 1, CharClass::RangeText);
}

/// Where the longest run of `class` characters that starts at `i` ends.
fn run_end_exec(v: &Vec<char>, i: usize, class: CharClass) -> (j: usize)
    requires
        i <= v@.len(),
    ensures
        j == run_end(v@, i as int, class),
{
    let mut j = i;
    while j < v.len() && class.test(v[j])
        invariant
            i <= j <= v@.len(),
            run_end(v@, i as int, class) == run_end(v@, j as int, class),
        decreases v@.len() - j,
    {
        j = j + 1;
    }
    j
}

/// The positions of one report in a text.
#[derive(Clone, Copy, Debug)]
pub struct MatchSpans {
    pub key1_start: usize,
    pub key1_end: usize,
    pub key2_start: usize,
    pub key2_end: usize,
    pub value1_start: usize,
    pub value1_end: usize,
    pub value2_start: usize,
    pub value2_end: usize,
}

impl View for MatchSpans {
    type V = Spans;

    open spec fn view(&self) -> Spans {
        Spans {
            key1_start: self.key1_start as int,
            key1_end: self.key1_end as int,
            key2_start: self.key2_start as int,
            key2_end: self.key2_end as int,
            value1_start: self.value1_start as int,
            value1_end: self.value1_end as int,
            value2_start: self.value2_start as int,
            value2_end: self.value2_end as int,
        }
    }
}

/// The report that starts at position `i` of `v`, if one does.
fn capture_at_exec(v: &Vec<char>, i: usize) -> (r: Option<MatchSpans>)
    requires
        i < v@.len(),
    ensures
        match r {
            Some(m) => capture_at(v@, i as int) == Some(m@),
            None => capture_at(v@, i as int) is None,
        },
{
    reveal(capture_at);
    let ghost s = v@;
    let n = v.len();
    if v[i] != '(' {
        return None;
    }
    let k1s = i + 1;
    let k1e = run_end_exec(v, k1s, CharClass::Name);
    proof { lemma_run_end(s, k1s as int, CharClass::Name); }
    if k1e == k1s {
        return None;
    }
    let c1 = run_end_exec(v, k1e, CharClass::Space);
    proof { lemma_run_end(s, k1e as int, CharClass::Space); }
    if c1 >= n || v[c1] != ',' {
        return None;
    }
    let k2s = run_end_exec(v, c1 + 1, CharClass::Space);
    proof { lemma_run_end(s, c1 + 1, CharClass::Space); }
    let k2e = run_end_exec(v, k2s, CharClass::Name);
    proof { lemma_run_end(s, k2s as int, CharClass::Name); }
    if k2e == k2s {
        return None;
    }
    if n - k2e <= 2 || v[k2e] != ')' || v[k2e + 1] != '=' || v[k2e + 2] != '(' {
        return None;
    }
    let v1s = k2e + 3;
    let v1e = run_end_exec(v, v1s, CharClass::Name);
    proof { lemma_run_end(s, v1s as int, CharClass::Name); }
    if v1e == v1s {
        return None;
    }
    let c2 = run_end_exec(v, v1e, CharClass::Space);
    proof { lemma_run_end(s, v1e as int, CharClass::Space); }
    if c2 >= n || v[c2] != ',' {
        return None;
    }
    let b = run_end_exec(v, c2 + 1, CharClass::Space);
    proof { lemma_run_end(s, c2 + 1, CharClass::Space); }
    if b >= n || v[b] != '[' {
        return None;
    }
    let v2s = b + 1;
    let v2e = run_end_exec(v, v2s, CharClass::RangeText);
    proof { lemma_run_end(s, v2s as int, CharClass::RangeText); }
    if v2e == v2s {
        return None;
    }
    Some(
        MatchSpans {
            key1_start: k1s,
            key1_end: k1e,
            key2_start: k2s,
            key2_end: k2e,
            value1_start: v1s,
            value1_end: v1e,
            value2_start: v2s,
            value2_end: v2e,
        },
    )
}

/// The characters of a string, in order.
pub fn chars_of(s: &str) -> (v: Vec<char>)
    ensures
        v@ == s@,
{
    let n = s.unicode_len();
    let mut v: Vec<char> = Vec::new();
    let mut i: usize = 0;
    while i < n
        invariant
            n == s@.len(),
            i <= n,
            v@ == s@.take(i as int),
        decreases n - i,
    {
        let c = s.get_char(i);
        v.push(c);
        proof {
            assert(s@.take(i + 1) == s@.take(i as int).push(c));
        }
        i = i + 1;
    }
    proof {
        assert(s@.take(n as int) == s@);
    }
    v
}

/// All reports of the text `v`, as positions.
fn find_captures(v: &Vec<char>) -> (r: Vec<MatchSpans>)
    ensures
        r@.map_values(|m: MatchSpans| m@) == captures(v@),
{
    let mut found: Vec<MatchSpans> = Vec::new();
    let mut pos: usize = 0;
    while pos < v.len()
        invariant
            pos <= v@.len(),
            found@.map_values(|m: MatchSpans| m@) + captures_from(v@, pos as int) == captures(v@),
        decreases v@.len() - pos,
    {
        let ghost before = found@.map_values(|m: MatchSpans| m@);
        match capture_at_exec(v, pos) {
            Some(m) => {
                proof {
                    lemma_capture_at_bounds(v@, pos as int);
                    assert(captures_from(v@, pos as int) == seq![m@] + captures_from(
                        v@,
                        m.value2_end as int,
                    ));
                }
                found.push(m);
                proof {
                    assert(found@.map_values(|m: MatchSpans| m@) == before.push(m@));
                    assert(before + (seq![m@] + captures_from(v@, m.value2_end as int)) == before.push(
                        m@,
                    ) + captures_from(v@, m.value2_end as int));
                }
                pos = m.value2_end;
            },
            None => {
                pos = pos + 1;
            },
        }
    }
    proof {
        assert(found@.map_values(|m: MatchSpans| m@) + Seq::<Spans>::empty() == found@.map_values(
            |m: MatchSpans| m@,
        ));
    }
    found
}

/// The two name/value pairs of the report `m` of the text `s`.
fn capture_fields_exec(s: &str, m: &MatchSpans) -> (r: StringHashMap<String>)
    requires
        m.key1_start <= m.key1_end <= s@.len(),
        m.key2_start <= m.key2_end <= s@.len(),
        m.value1_start <= m.value1_end <= s@.len(),
        m.value2_start <= m.value2_end <= s@.len(),
    ensures
        text_fields(r@) == capture_fields(s@, m@),
{
    let key1 = String::from_str(s.substring_char(m.key1_start, m.key1_end));
    let value1 = String::from_str(s.substring_char(m.value1_start, m.value1_end));
    let key2 = String::from_str(s.substring_char(m.key2_start, m.key2_end));
    let value2 = String::from_str(s.substring_char(m.value2_start, m.value2_end));
    let mut map: StringHashMap<String> = StringHashMap::new();
    map.insert(key1, value1);
    map.insert(key2, value2);
    proof {
        assert(text_fields(map@) =~= capture_fields(s@, m@));
    }
    map
}

/// The two reports of a conflict: the pairs of the row that was refused and
/// those of the row that it collides with.
pub struct ParseInfo {
    pub new: StringHashMap<String>,
    pub old: StringHashMap<String>,
}

impl ParseInfo {
    /// Reads the two reports of a conflict detail line. Fails unless the line
    /// holds exactly two reports.
    pub fn parse(s: &str) -> (r: Result<ParseInfo, ()>)
        ensures
            r is Ok <==> captures(s@).len() == 2,
            r matches Ok(p) ==> {
                &&& text_fields(p.new@) == capture_fields(s@, captures(s@)[0])
                &&& text_fields(p.old@) == capture_fields(s@, captures(s@)[1])
            },
    {
        let v = chars_of(s);
        let found = find_captures(&v);
        if found.len() != 2 {
            return Err(());
        }
        proof {
            assert(found@.map_values(|m: MatchSpans| m@)[0] == found@[0]@);
            assert(found@.map_values(|m: MatchSpans| m@)[1] == found@[1]@);
            lemma_captures_in_bounds(s@, 0, 0);
            lemma_captures_in_bounds(s@, 0, 1);
        }
        let new = capture_fields_exec(s, &found[0]);
        let old = capture_fields_exec(s, &found[1]);
        Ok(ParseInfo { new, old })
    }
}

/// Every report found lies in order inside the text.
pub proof fn lemma_captures_in_bounds(s: Seq<char>, pos: int, k: int)
    requires
        0 <= k < captures_from(s, pos).len(),
    ensures
        ({
            let m = captures_from(s, pos)[k];
            &&& pos < m.key1_start < m.key1_end < m.key2_start < m.key2_end < m.value1_start
                < m.value1_end < m.value2_start < m.value2_end <= s.len()
        }),
    decreases s.len() - pos,
{
    if 0 <= pos < s.len() {
        match capture_at(s, pos) {
            Some(m) => {
                lemma_capture_at_bounds(s, pos);
                if k > 0 {
                    lemma_captures_in_bounds(s, m.value2_end, k - 1);
                }
            },
            None => {
                lemma_captures_in_bounds(s, pos + 1, k);
            },
        }
    }
}

impl core::str::FromStr for ParseInfo {
    type Err = ();

    fn from_str(s: &str) -> (r: Result<ParseInfo, ()>)
        ensures
            r is Ok <==> captures(s@).len() == 2,
            r matches Ok(p) ==> {
                &&& text_fields(p.new@) == capture_fields(s@, captures(s@)[0])
                &&& text_fields(p.old@) == capture_fields(s@, captures(s@)[1])
            },
    {
        ParseInfo::parse(s)
    }
}

/// Reports do not overlap: each one found starts after the previous one ended.
pub proof fn lemma_captures_ordered(s: Seq<char>, pos: int, k: int)
    requires
        0 <= k,
        k + 1 < captures_from(s, pos).len(),
    ensures
        captures_from(s, pos)[k].value2_end < captures_from(s, pos)[k + 1].key1_start,
    decreases s.len() - pos,
{
    if 0 <= pos < s.len() {
        match capture_at(s, pos) {
            Some(m) => {
                lemma_capture_at_bounds(s, pos);
                if k > 0 {
                    lemma_captures_ordered(s, m.value2_end, k - 1);
                } else {
                    lemma_captures_in_bounds(s, m.value2_end, 0);
                }
            },
            None => {
                lemma_captures_ordered(s, pos + 1, k);
            },
        }
    }
}

/// A name is made of exactly the ASCII letters, the ten ASCII digits, `_`
/// and `-`; no white space, comma, parenthesis or bracket is part of one.
pub proof fn lemma_name_chars(c: char)
    ensures
        CharClass::Name.admits(c) <==> (('a' <= c && c <= 'z') || ('A' <= c && c <= 'Z') || (
        '0' <= c && c <= '9') || c == '_' || c == '-'),
        CharClass::Name.admits(c) ==> !CharClass::Space.admits(c),
        !CharClass::Name.admits(',') && !CharClass::Name.admits(')') && !CharClass::Name.admits(
            '(',
        ) && !CharClass::Name.admits('[') && !CharClass::Name.admits('=') && !CharClass::Name.admits(
            ' ',
        ),
        !CharClass::Space.admits(',') && !CharClass::Space.admits('[') && !CharClass::Space.admits(
            '(',
        ) && !CharClass::Space.admits(')'),
        !CharClass::RangeText.admits(')') && !CharClass::RangeText.admits(']'),
{
}

/// Where a run ends, given the characters it takes and the one that stops it.
pub proof fn lemma_run_end_exact(s: Seq<char>, i: int, j: int, class: CharClass)
    requires
        0 <= i <= j <= s.len(),
        forall|k: int| i <= k < j ==> class.admits(#[trigger] s[k]),
        j == s.len() || !class.admits(s[j]),
    ensures
        run_end(s, i, class) == j,
    decreases j - i,
{
    if i < j {
        lemma_run_end_exact(s, i + 1, j, class);
    }
}

/// Whether every character of `t` is an ASCII letter, an ASCII digit, `_` or `-`.
pub open spec fn ascii_word(t: Seq<char>) -> bool {
    forall|k: int|
        0 <= k < t.len() ==> {
            let c = #[trigger] t[k];
            ('a' <= c && c <= 'z') || ('A' <= c && c <= 'Z') || ('0' <= c && c <= '9') || c == '_'
                || c == '-'
        }
}

/// The text of one report: `(k1,k2)=(v1,[v2`.
pub open spec fn report_text(k1: Seq<char>, k2: Seq<char>, v1: Seq<char>, v2: Seq<char>) -> Seq<
    char,
> {
    seq!['('] + k1 + seq![','] + k2 + seq![')', '=', '('] + v1 + seq![',', '['] + v2
}

/// Whether `k1`, `k2`, `v1` are non-empty words of ASCII letters, digits, `_`
/// and `-`, and `v2` is non-empty text without `)` or `]`.
pub open spec fn well_formed_report(
    k1: Seq<char>,
    k2: Seq<char>,
    v1: Seq<char>,
    v2: Seq<char>,
) -> bool {
    &&& k1.len() > 0 && ascii_word(k1)
    &&& k2.len() > 0 && ascii_word(k2)
    &&& v1.len() > 0 && ascii_word(v1)
    &&& v2.len() > 0 && forall|k: int| 0 <= k < v2.len() ==> #[trigger] v2[k] != ')' && v2[k] != ']'
}

/// A well-formed report that stands at position `i` of a text, and is closed
/// by `)` or `]` or by the end of the text, is found there, with its names and
/// values where the text has them.
pub proof fn lemma_report_found(
    s: Seq<char>,
    i: int,
    k1: Seq<char>,
    k2: Seq<char>,
    v1: Seq<char>,
    v2: Seq<char>,
)
    requires
        well_formed_report(k1, k2, v1, v2),
        0 <= i,
        i + report_text(k1, k2, v1, v2).len() <= s.len(),
        s.subrange(i, i + report_text(k1, k2, v1, v2).len()) == report_text(k1, k2, v1, v2),
        i + report_text(k1, k2, v1, v2).len() == s.len() || s[i + report_text(k1, k2, v1, v2).len()]
            == ')' || s[i + report_text(k1, k2, v1, v2).len()] == ']',
    ensures
        capture_at(s, i) matches Some(m) && {
            &&& s.subrange(m.key1_start, m.key1_end) == k1
            &&& s.subrange(m.key2_start, m.key2_end) == k2
            &&& s.subrange(m.value1_start, m.value1_end) == v1
            &&& s.subrange(m.value2_start, m.value2_end) == v2
            &&& m.value2_end == i + report_text(k1, k2, v1, v2).len()
        },
{
    reveal(capture_at);
    let t = report_text(k1, k2, v1, v2);
    let a = i + 1;
    let b = a + k1.len();
    let c = b + 1;
    let d = c + k2.len();
    let e = d + 3;
    let f = e + v1.len();
    let g = f + 2;
    let h = g + v2.len();
    assert(h == i + t.len());
    assert forall|k: int| 0 <= k < t.len() implies s[i + k] == #[trigger] t[k] by {
        assert(s.subrange(i, i + t.len())[k] == s[i + k]);
    }
    assert(s[i] == '(') by { assert(t[0] == '('); }
    assert forall|k: int| a <= k < b implies CharClass::Name.admits(#[trigger] s[k]) by {
        assert(t[k - i] == k1[k - a]);
        lemma_name_chars(s[k]);
    }
    assert(s[b] == ',') by { assert(t[b - i] == ','); }
    lemma_name_chars(',');
    lemma_run_end_exact(s, a, b, CharClass::Name);
    lemma_run_end_exact(s, b, b, CharClass::Space);
    assert forall|k: int| c <= k < d implies CharClass::Name.admits(#[trigger] s[k]) by {
        assert(t[k - i] == k2[k - c]);
        lemma_name_chars(s[k]);
    }
    assert(s[c] != ' ' && !CharClass::Space.admits(s[c])) by {
        assert(t[c - i] == k2[0]);
        lemma_name_chars(s[c]);
    }
    lemma_run_end_exact(s, c, c, CharClass::Space);
    assert(s[d] == ')' && s[d + 1] == '=' && s[d + 2] == '(') by {
        assert(t[d - i] == ')');
        assert(t[d + 1 - i] == '=');
        assert(t[d + 2 - i] == '(');
    }
    lemma_name_chars(')');
    lemma_run_end_exact(s, c, d, CharClass::Name);
    assert forall|k: int| e <= k < f implies CharClass::Name.admits(#[trigger] s[k]) by {
        assert(t[k - i] == v1[k - e]);
        lemma_name_chars(s[k]);
    }
    assert(s[f] == ',' && s[f + 1] == '[') by {
        assert(t[f - i] == ',');
        assert(t[f + 1 - i] == '[');
    }
    lemma_run_end_exact(s, e, f, CharClass::Name);
    lemma_run_end_exact(s, f, f, CharClass::Space);
    lemma_run_end_exact(s, f + 1, f + 1, CharClass::Space);
    assert forall|k: int| g <= k < h implies CharClass::RangeText.admits(#[trigger] s[k]) by {
        assert(t[k - i] == v2[k - g]);
    }
    lemma_run_end_exact(s, g, h, CharClass::RangeText);
    assert(s.subrange(a, b) =~= k1) by {
        assert forall|k: int| 0 <= k < k1.len() implies s.subrange(a, b)[k] == k1[k] by {
            assert(t[a - i + k] == k1[k]);
        }
    }
    assert(s.subrange(c, d) =~= k2) by {
        assert forall|k: int| 0 <= k < k2.len() implies s.subrange(c, d)[k] == k2[k] by {
            assert(t[c - i + k] == k2[k]);
        }
    }
    assert(s.subrange(e, f) =~= v1) by {
        assert forall|k: int| 0 <= k < v1.len() implies s.subrange(e, f)[k] == v1[k] by {
            assert(t[e - i + k] == v1[k]);
        }
    }
    assert(s.subrange(g, h) =~= v2) by {
        assert forall|k: int| 0 <= k < v2.len() implies s.subrange(g, h)[k] == v2[k] by {
            assert(t[g - i + k] == v2[k]);
        }
    }
}

/// No report starts where the text has no opening parenthesis.
pub proof fn lemma_no_capture_without_paren(s: Seq<char>, i: int)
    requires
        0 <= i < s.len() ==> s[i] != '(',
    ensures
        capture_at(s, i) is None,
{
    reveal(capture_at);
}

/// Where no report starts, the search goes on at the next position; where one
/// does, it is taken and the search goes on after it.
pub proof fn lemma_captures_step(s: Seq<char>, pos: int)
    requires
        0 <= pos < s.len(),
    ensures
        capture_at(s, pos) is None ==> captures_from(s, pos) == captures_from(s, pos + 1),
        capture_at(s, pos) matches Some(m) ==> captures_from(s, pos) == seq![m] + captures_from(
            s,
            m.value2_end,
        ),
{
    if capture_at(s, pos) is Some {
        lemma_capture_at_bounds(s, pos);
    }
}

/// A text whose only reports start at `0` and at `e1 + 2`, the first ending
/// at `e1` and the second at `e2`, the last position of the text, holds
/// exactly these two reports.
proof fn lemma_captures_two(s: Seq<char>, e1: int, e2: int)
    requires
        0 < e1,
        e1 + 2 < e2,
        s.len() == e2 + 1,
        capture_at(s, 0) matches Some(m) && m.value2_end == e1,
        capture_at(s, e1) is None,
        capture_at(s, e1 + 1) is None,
        capture_at(s, e1 + 2) matches Some(m) && m.value2_end == e2,
        capture_at(s, e2) is None,
    ensures
        captures(s) == seq![capture_at(s, 0)->0, capture_at(s, e1 + 2)->0],
{
    lemma_captures_step(s, 0);
    lemma_captures_step(s, e1);
    lemma_captures_step(s, e1 + 1);
    lemma_captures_step(s, e1 + 2);
    lemma_captures_step(s, e2);
    assert(captures_from(s, e2 + 1) == Seq::<Spans>::empty());
    assert(captures(s) =~= seq![capture_at(s, 0)->0, capture_at(s, e1 + 2)->0]);
}

/// A line of two well-formed reports, each closed by `)`, is read as
/// exactly two reports, each with the name/value pairs that the line gives it.
pub proof fn lemma_two_reports_read(
    k1: Seq<char>,
    k2: Seq<char>,
    v1: Seq<char>,
    v2: Seq<char>,
    l1: Seq<char>,
    l2: Seq<char>,
    w1: Seq<char>,
    w2: Seq<char>,
)
    requires
        well_formed_report(k1, k2, v1, v2),
        well_formed_report(l1, l2, w1, w2),
    ensures
        ({
            let s = report_text(k1, k2, v1, v2) + seq![')', ' '] + report_text(l1, l2, w1, w2)
                + seq![')'];
            &&& captures(s).len() == 2
            &&& capture_fields(s, captures(s)[0]) == Map::empty().insert(k1, v1).insert(k2, v2)
            &&& capture_fields(s, captures(s)[1]) == Map::empty().insert(l1, w1).insert(l2, w2)
        }),
{
    let r1 = report_text(k1, k2, v1, v2);
    let r2 = report_text(l1, l2, w1, w2);
    let s = r1 + seq![')', ' '] + r2 + seq![')'];
    let e1 = r1.len() as int;
    let e2 = e1 + 2 + r2.len();
    assert(s.len() == e2 + 1);
    assert(s.subrange(0, e1) =~= r1);
    assert(s[e1] == ')');
    assert(s[e1 + 1] == ' ');
    assert(s.subrange(e1 + 2, e2) =~= r2);
    assert(s[e2] == ')');
    lemma_report_found(s, 0, k1, k2, v1, v2);
    lemma_report_found(s, e1 + 2, l1, l2, w1, w2);
    lemma_no_capture_without_paren(s, e1);
    lemma_no_capture_without_paren(s, e1 + 1);
    lemma_no_capture_without_paren(s, e2);
    lemma_captures_two(s, e1, e2);
}

} // verus!
