//! The MatchSpec grammar.
//!
//! Two forms are tried in turn. The implicit form is `name [version [build]]`,
//! separated by whitespace. The full form is
//! `[channel[/subdir]:[namespace]:]name[constraint][[key=value, ...]]`.
//! Either form must take the whole input: a parse never returns part of a spec.
//!
//! Each production is a spec function from the input and a position to what
//! it recognises (positions, never copies), and an executable function that
//! returns exactly that. A version that does not parse fails the whole parse,
//! with no other alternative tried.
use crate::compare::{is_valid_version, version_valid};
use crate::error::MatchSpecError;
use crate::input_table::{
    filter_char, in_class, IC_AN, IC_BA, IC_CL, IC_CO, IC_DU, IC_FS, IC_GL, IC_LB, IC_PE, IC_QU,
    IC_RB,
};
use crate::matchspec::{
    assembled, implicit_model, pairs_of, selector_of_token, CompoundSelector, Constraint,
    MatchSpec, MatchSpecModel,
};
use crate::text::chars_of;
use vstd::prelude::*;

verus! {

/// The characters of a package name or a version.
pub const NAME_CLASSES: u16 = IC_AN | IC_DU | IC_PE | IC_GL;

/// The characters of a channel, a subdir or an attribute value.
pub const DASHED_CLASSES: u16 = IC_AN | IC_DU;

/// The characters of a name or a build in the implicit form.
pub const IMPLICIT_CLASSES: u16 = IC_AN | IC_DU | IC_PE;

/// A set of characters that the grammar takes runs of.
#[derive(Clone, Copy)]
pub enum CharSet {
    /// The characters of the given classes of the class table.
    Class(u16),
    /// Space, tab, carriage return and line feed.
    Whitespace,
    /// ASCII letters and digits.
    AsciiAlnum,
}

impl CharSet {
    pub open spec fn contains(self, c: char) -> bool {
        match self {
            CharSet::Class(cl) => in_class(c, cl),
            CharSet::Whitespace => c == ' ' || c == '\t' || c == '\r' || c == '\n',
            CharSet::AsciiAlnum => ('a' <= c && c <= 'z') || ('A' <= c && c <= 'Z') || ('0' <= c
                && c <= '9'),
        }
    }

    pub fn has(&self, c: char) -> (r: bool)
        ensures
            r == self.contains(c),
    {
        match self {
            CharSet::Class(cl) => filter_char(c, *cl),
            CharSet::Whitespace => c == ' ' || c == '\t' || c == '\r' || c == '\n',
            CharSet::AsciiAlnum => ('a' <= c && c <= 'z') || ('A' <= c && c <= 'Z') || ('0' <= c
                && c <= '9'),
        }
    }
}

/// The end of the run of characters of `set` that starts at `i`.
pub open spec fn span(s: Seq<char>, i: int, set: CharSet) -> int
    decreases s.len() - i,
{
    if 0 <= i < s.len() && set.contains(s[i]) {
        span(s, i + 1, set)
    } else {
        i
    }
}

proof fn lemma_span_is(s: Seq<char>, i: int, j: int, set: CharSet)
    requires
        0 <= i <= j <= s.len(),
        forall|k: int| i <= k < j ==> set.contains(#[trigger] s[k]),
        j == s.len() || !set.contains(s[j]),
    ensures
        span(s, i, set) == j,
    decreases j - i,
{
    if i < j {
        lemma_span_is(s, i + 1, j, set);
    }
}

/// A range `start..end` of the input.
#[derive(Clone, Copy)]
pub struct Piece {
    pub start: usize,
    pub end: usize,
}

pub open spec fn piece(start: int, end: int) -> Piece {
    Piece { start: start as usize, end: end as usize }
}

/// The text of a piece of the input.
pub open spec fn slice_text(s: Seq<char>, p: Piece) -> Seq<char> {
    s.subrange(p.start as int, p.end as int)
}

/// The result of a production that holds a version: what it recognised, no
/// match, or a version that does not parse.
pub enum Scan<T> {
    Found(T),
    Absent,
    BadVersion,
}

/// The length of the operator at `i`, longest first: `===`; then `!=`, `>=`,
/// `<=`, `==`, `~=`; then `=`, `>`, `<`. Zero where there is none.
pub open spec fn operator_len(s: Seq<char>, i: int) -> int {
    if 0 <= i && i + 3 <= s.len() && s[i] == '=' && s[i + 1] == '=' && s[i + 2] == '=' {
        3
    } else if 0 <= i && i + 2 <= s.len() && s[i + 1] == '=' && (s[i] == '!' || s[i] == '>' || s[i]
        == '<' || s[i] == '=' || s[i] == '~') {
        2
    } else if 0 <= i && i + 1 <= s.len() && (s[i] == '=' || s[i] == '>' || s[i] == '<') {
        1
    } else {
        0
    }
}

/// An operator with whitespace on either side: the operator, and where the
/// whitespace after it ends.
pub open spec fn selector_at(s: Seq<char>, i: int) -> Option<(Piece, usize)> {
    let j = span(s, i, CharSet::Whitespace);
    let n = operator_len(s, j);
    if n == 0 {
        None
    } else {
        Some((piece(j, j + n), span(s, j + n, CharSet::Whitespace) as usize))
    }
}

/// A version: a non-empty run of name characters that parses as a version.
pub open spec fn version_at(s: Seq<char>, i: int) -> Scan<Piece> {
    let j = span(s, i, CharSet::Class(NAME_CLASSES));
    if j == i {
        Scan::Absent
    } else if version_valid(s.subrange(i, j)) {
        Scan::Found(piece(i, j))
    } else {
        Scan::BadVersion
    }
}

/// One comparison: an operator and a version.
#[derive(Clone, Copy)]
pub struct Clause {
    pub op: Piece,
    pub version: Piece,
}

pub open spec fn clause_at(s: Seq<char>, i: int) -> Scan<Clause> {
    match selector_at(s, i) {
        None => Scan::Absent,
        Some((op, j)) => match version_at(s, j as int) {
            Scan::Found(v) => Scan::Found(Clause { op, version: v }),
            Scan::Absent => Scan::Absent,
            Scan::BadVersion => Scan::BadVersion,
        },
    }
}

/// A version constraint: a comparison, and a second one after `,` or `|`.
/// Where no second comparison follows the joiner, the first stands alone; a
/// second version that does not parse fails the constraint.
#[derive(Clone, Copy)]
pub struct Compound {
    pub first: Clause,
    pub second: Option<(char, Clause)>,
}

impl Compound {
    pub open spec fn end(self) -> usize {
        match self.second {
            Some((_, c)) => c.version.end,
            None => self.first.version.end,
        }
    }

    fn end_position(&self) -> (r: usize)
        ensures
            r == self.end(),
    {
        match self.second {
            Some((_, c)) => c.version.end,
            None => self.first.version.end,
        }
    }
}

pub open spec fn compound_at(s: Seq<char>, i: int) -> Scan<Compound> {
    match clause_at(s, i) {
        Scan::Found(first) => {
            let k = span(s, first.version.end as int, CharSet::Whitespace);
            if k < s.len() && in_class(s[k], IC_CO | IC_BA) {
                match clause_at(s, span(s, k + 1, CharSet::Whitespace)) {
                    Scan::Found(second) => Scan::Found(
                        Compound { first, second: Some((s[k], second)) },
                    ),
                    Scan::BadVersion => Scan::BadVersion,
                    Scan::Absent => Scan::Found(Compound { first, second: None }),
                }
            } else {
                Scan::Found(Compound { first, second: None })
            }
        },
        Scan::Absent => Scan::Absent,
        Scan::BadVersion => Scan::BadVersion,
    }
}

/// The channel: a run of letters, digits, `-` and `_`, followed by `:` or `/`.
pub open spec fn channel_at(s: Seq<char>) -> Option<Piece> {
    let j = span(s, 0, CharSet::Class(DASHED_CLASSES));
    if j < s.len() && (s[j] == ':' || s[j] == '/') {
        Some(piece(0, j))
    } else {
        None
    }
}

/// The subdir: `/`, then a run of letters, digits, `-` and `_`, followed by `:`.
pub open spec fn subdir_at(s: Seq<char>, i: int) -> Option<Piece> {
    if 0 <= i < s.len() && in_class(s[i], IC_FS) {
        let j = span(s, i + 1, CharSet::Class(DASHED_CLASSES));
        if j < s.len() && in_class(s[j], IC_CL) {
            Some(piece(i + 1, j))
        } else {
            None
        }
    } else {
        None
    }
}

/// The namespace: ASCII letters and digits between two colons (it may be empty).
pub open spec fn namespace_at(s: Seq<char>, i: int) -> Option<Piece> {
    if 0 <= i < s.len() && in_class(s[i], IC_CL) {
        let j = span(s, i + 1, CharSet::AsciiAlnum);
        if j < s.len() && in_class(s[j], IC_CL) {
            Some(piece(i + 1, j))
        } else {
            None
        }
    } else {
        None
    }
}

/// The package name: a non-empty run of name characters.
pub open spec fn name_at(s: Seq<char>, i: int) -> Option<Piece> {
    let j = span(s, i, CharSet::Class(NAME_CLASSES));
    if j > i {
        Some(piece(i, j))
    } else {
        None
    }
}

/// One attribute: `key op value`, with whitespace around. The key and the
/// value are runs of letters, digits, `-` and `_`; the value may stand
/// between quotes, which are dropped.
#[derive(Clone, Copy)]
pub struct KeyValue {
    pub key: Piece,
    pub op: Piece,
    pub value: Piece,
    pub end: usize,
}

pub open spec fn key_value_at(s: Seq<char>, i: int) -> Option<KeyValue> {
    let a = span(s, i, CharSet::Whitespace);
    let b = span(s, a, CharSet::Class(DASHED_CLASSES));
    if b == a {
        None
    } else {
        match selector_at(s, b) {
            None => None,
            Some((op, m)) => {
                let v0 = if (m as int) < s.len() && in_class(s[m as int], IC_QU) {
                    m + 1
                } else {
                    m as int
                };
                let v1 = span(s, v0, CharSet::Class(DASHED_CLASSES));
                if v1 == v0 {
                    None
                } else {
                    let q = if v1 < s.len() && in_class(s[v1], IC_QU) {
                        v1 + 1
                    } else {
                        v1
                    };
                    Some(
                        KeyValue {
                            key: piece(a, b),
                            op,
                            value: piece(v0, v1),
                            end: span(s, q, CharSet::Whitespace) as usize,
                        },
                    )
                }
            },
        }
    }
}

/// The attributes after the one that ends at `j`: each after a comma, up to
/// the first comma that no attribute follows.
pub open spec fn key_value_tail(s: Seq<char>, j: int) -> Seq<KeyValue>
    decreases s.len() - j,
{
    if 0 <= j < s.len() && in_class(s[j], IC_CO) {
        match key_value_at(s, j + 1) {
            Some(kv) => if j < kv.end <= s.len() {
                seq![kv] + key_value_tail(s, kv.end as int)
            } else {
                Seq::empty()
            },
            None => Seq::empty(),
        }
    } else {
        Seq::empty()
    }
}

/// A comma-separated list of attributes, possibly empty.
pub open spec fn key_values_at(s: Seq<char>, i: int) -> Seq<KeyValue> {
    match key_value_at(s, i) {
        Some(kv) => seq![kv] + key_value_tail(s, kv.end as int),
        None => Seq::empty(),
    }
}

/// Where a list of attributes that starts at `i` ends.
pub open spec fn list_end(i: int, kvs: Seq<KeyValue>) -> int {
    if kvs.len() == 0 {
        i
    } else {
        kvs.last().end as int
    }
}

/// The attribute list: `[`, attributes, `]`; and where it ends.
pub open spec fn keys_at(s: Seq<char>, i: int) -> Option<(Seq<KeyValue>, usize)> {
    if 0 <= i < s.len() && in_class(s[i], IC_LB) {
        let kvs = key_values_at(s, i + 1);
        let e = list_end(i + 1, kvs);
        if e < s.len() && in_class(s[e], IC_RB) {
            Some((kvs, (e + 1) as usize))
        } else {
            None
        }
    } else {
        None
    }
}

/// What the full form recognises.
pub struct FullParts {
    pub channel: Option<Piece>,
    pub subdir: Option<Piece>,
    pub namespace: Option<Piece>,
    pub name: Piece,
    pub constraint: Option<Compound>,
    pub keys: Seq<KeyValue>,
}

/// The full form, or the message of its failure: the input left where no
/// package name stands, or the version failure. It stops after the last part
/// that it recognises (see `full_end`).
/// Where the package name of the full form starts: after the channel, the
/// subdir and the namespace, where they stand.
pub open spec fn full_name_start(s: Seq<char>) -> int {
    let after_channel: int = match channel_at(s) {
        Some(c) => c.end as int,
        None => 0,
    };
    let after_subdir: int = match subdir_at(s, after_channel) {
        Some(d) => d.end as int,
        None => after_channel,
    };
    match namespace_at(s, after_subdir) {
        Some(n) => n.end + 1,
        None => after_subdir,
    }
}

pub open spec fn full_at(s: Seq<char>) -> Result<FullParts, Seq<char>> {
    let channel = channel_at(s);
    let after_channel: int = match channel {
        Some(c) => c.end as int,
        None => 0,
    };
    let subdir = subdir_at(s, after_channel);
    let after_subdir: int = match subdir {
        Some(d) => d.end as int,
        None => after_channel,
    };
    let namespace = namespace_at(s, after_subdir);
    let after_namespace: int = match namespace {
        Some(n) => n.end + 1,
        None => after_subdir,
    };
    match name_at(s, after_namespace) {
        None => Err(s.subrange(after_namespace, s.len() as int)),
        Some(name) => match compound_at(s, name.end as int) {
            Scan::BadVersion => Err(version_failure()),
            Scan::Absent => Ok(
                FullParts {
                    channel,
                    subdir,
                    namespace,
                    name,
                    constraint: None,
                    keys: match keys_at(s, name.end as int) {
                        Some((kvs, _)) => kvs,
                        None => Seq::empty(),
                    },
                },
            ),
            Scan::Found(c) => Ok(
                FullParts {
                    channel,
                    subdir,
                    namespace,
                    name,
                    constraint: Some(c),
                    keys: match keys_at(s, c.end() as int) {
                        Some((kvs, _)) => kvs,
                        None => Seq::empty(),
                    },
                },
            ),
        },
    }
}

/// Where the full form stops reading: after the attribute list, or else
/// after the constraint, or else after the name.
pub open spec fn full_end(s: Seq<char>) -> int {
    match full_at(s) {
        Ok(p) => {
            let e: int = match p.constraint {
                Some(c) => c.end() as int,
                None => p.name.end as int,
            };
            match keys_at(s, e) {
                Some((_, k)) => k as int,
                None => e,
            }
        },
        Err(_) => 0,
    }
}

/// The message of a version that does not parse.
pub open spec fn version_failure() -> Seq<char> {
    "Version parse failed"@
}

/// What the implicit form recognises.
pub struct ImplicitParts {
    pub name: Piece,
    pub version: Option<Piece>,
    pub build: Option<Piece>,
}

/// The build of the implicit form, from `p`: it must reach the end of input.
pub open spec fn implicit_rest(s: Seq<char>, name: Piece, version: Option<Piece>, p: int) -> Scan<
    ImplicitParts,
> {
    let b = span(s, p, CharSet::Class(IMPLICIT_CLASSES));
    if b == s.len() {
        Scan::Found(
            ImplicitParts {
                name,
                version,
                build: if b > p {
                    Some(piece(p, b))
                } else {
                    None
                },
            },
        )
    } else {
        Scan::Absent
    }
}

/// The implicit form: a name, then optionally whitespace and a version, then
/// optionally whitespace and a build, up to the end of input.
pub open spec fn implicit_at(s: Seq<char>) -> Scan<ImplicitParts> {
    let j = span(s, 0, CharSet::Class(IMPLICIT_CLASSES));
    if j == 0 {
        Scan::Absent
    } else {
        let name = piece(0, j);
        if j < s.len() && CharSet::Whitespace.contains(s[j]) {
            match version_at(s, span(s, j, CharSet::Whitespace)) {
                Scan::BadVersion => Scan::BadVersion,
                Scan::Found(v) => implicit_rest(
                    s,
                    name,
                    Some(v),
                    span(s, v.end as int, CharSet::Whitespace),
                ),
                Scan::Absent => implicit_rest(s, name, None, j),
            }
        } else {
            implicit_rest(s, name, None, j)
        }
    }
}

pub open spec fn optional_text(s: Seq<char>, p: Option<Piece>) -> Option<Seq<char>> {
    match p {
        Some(x) => Some(slice_text(s, x)),
        None => None,
    }
}

/// The constraint that a parsed comparison, or pair of them, stands for:
/// AND after a comma, OR after a bar.
pub open spec fn compound_model(s: Seq<char>, c: Compound) -> Constraint {
    let s1 = selector_of_token(slice_text(s, c.first.op));
    let v1 = slice_text(s, c.first.version);
    match c.second {
        None => Constraint::Single(s1, v1),
        Some((j, d)) => if in_class(j, IC_CO) {
            Constraint::And(s1, v1, selector_of_token(slice_text(s, d.op)), slice_text(s, d.version))
        } else {
            Constraint::Or(s1, v1, selector_of_token(slice_text(s, d.op)), slice_text(s, d.version))
        },
    }
}

/// The key and constraint of a parsed attribute.
pub open spec fn key_value_model(s: Seq<char>, kv: KeyValue) -> (Seq<char>, Constraint) {
    (slice_text(s, kv.key), Constraint::Single(selector_of_token(slice_text(s, kv.op)), slice_text(s, kv.value)))
}

pub open spec fn full_model(s: Seq<char>, p: FullParts) -> MatchSpecModel {
    assembled(
        optional_text(s, p.channel),
        optional_text(s, p.subdir),
        optional_text(s, p.namespace),
        slice_text(s, p.name),
        match p.constraint {
            Some(c) => Some(compound_model(s, c)),
            None => None,
        },
        p.keys.map_values(|kv: KeyValue| key_value_model(s, kv)),
    )
}

/// What parsing `s` gives: the spec, or the message of the failure. Parsing
/// is all or nothing: where the full form stops before the end of the input,
/// the parse fails with the input left there.
pub open spec fn parse_result(s: Seq<char>) -> Result<MatchSpecModel, Seq<char>> {
    match implicit_at(s) {
        Scan::Found(p) => Ok(
            implicit_model(slice_text(s, p.name), optional_text(s, p.version), optional_text(s, p.build)),
        ),
        Scan::BadVersion => Err(version_failure()),
        Scan::Absent => match full_at(s) {
            Ok(p) => if full_end(s) == s.len() {
                Ok(full_model(s, p))
            } else {
                Err(rest_after(s, full_end(s)))
            },
            Err(m) => Err(m),
        },
    }
}

/// Whether a piece lies within an input of length `n`.
pub open spec fn fits(p: Piece, n: int) -> bool {
    p.start <= p.end <= n
}

pub open spec fn clause_fits(c: Clause, n: int) -> bool {
    fits(c.op, n) && fits(c.version, n)
}

pub open spec fn compound_fits(c: Compound, n: int) -> bool {
    &&& clause_fits(c.first, n)
    &&& c.end() <= n
    &&& match c.second {
        Some((_, d)) => clause_fits(d, n),
        None => true,
    }
}

pub open spec fn key_value_fits(kv: KeyValue, n: int) -> bool {
    fits(kv.key, n) && fits(kv.op, n) && fits(kv.value, n) && kv.end <= n
}

/// What a parse gives, as a value.
pub open spec fn result_model(r: Result<MatchSpec, MatchSpecError>) -> Result<
    MatchSpecModel,
    Seq<char>,
> {
    match r {
        Ok(ms) => Ok(ms@),
        Err(e) => Err(e.message@),
    }
}

fn take_while(s: &Vec<char>, i: usize, set: CharSet) -> (r: usize)
    requires
        i <= s.len(),
    ensures
        r == span(s@, i as int, set),
        i <= r <= s.len(),
{
    let mut j = i;
    while j < s.len() && set.has(s[j])
        invariant
            i <= j <= s.len(),
            forall|k: int| i <= k < j ==> set.contains(#[trigger] s@[k]),
        decreases s.len() - j,
    {
        j += 1;
    }
    proof {
        lemma_span_is(s@, i as int, j as int, set);
    }
    j
}

fn operator_length(s: &Vec<char>, i: usize) -> (r: usize)
    requires
        i <= s.len(),
    ensures
        r as int == operator_len(s@, i as int),
        i + r <= s.len(),
{
    let left = s.len() - i;
    if left >= 3 && s[i] == '=' && s[i + 1] == '=' && s[i + 2] == '=' {
        3
    } else if left >= 2 && s[i + 1] == '=' && (s[i] == '!' || s[i] == '>' || s[i] == '<' || s[i]
        == '=' || s[i] == '~') {
        2
    } else if left >= 1 && (s[i] == '=' || s[i] == '>' || s[i] == '<') {
        1
    } else {
        0
    }
}

fn selector(s: &Vec<char>, i: usize) -> (r: Option<(Piece, usize)>)
    requires
        i <= s.len(),
    ensures
        r == selector_at(s@, i as int),
        r matches Some((p, e)) ==> i <= p.start <= p.end <= e <= s.len(),
{
    let j = take_while(s, i, CharSet::Whitespace);
    let n = operator_length(s, j);
    if n == 0 {
        None
    } else {
        let e = take_while(s, j + n, CharSet::Whitespace);
        Some((Piece { start: j, end: j + n }, e))
    }
}

fn version(text: &str, s: &Vec<char>, i: usize) -> (r: Scan<Piece>)
    requires
        s@ == text@,
        i <= s.len(),
    ensures
        r == version_at(s@, i as int),
        r matches Scan::Found(p) ==> i == p.start <= p.end <= s.len(),
{
    let j = take_while(s, i, CharSet::Class(NAME_CLASSES));
    if j == i {
        Scan::Absent
    } else if is_valid_version(text.substring_char(i, j)) {
        Scan::Found(Piece { start: i, end: j })
    } else {
        Scan::BadVersion
    }
}

fn clause(text: &str, s: &Vec<char>, i: usize) -> (r: Scan<Clause>)
    requires
        s@ == text@,
        i <= s.len(),
    ensures
        r == clause_at(s@, i as int),
        r matches Scan::Found(c) ==> clause_fits(c, s.len() as int) && i <= c.version.end,
{
    match selector(s, i) {
        None => Scan::Absent,
        Some((op, j)) => match version(text, s, j) {
            Scan::Found(v) => Scan::Found(Clause { op, version: v }),
            Scan::Absent => Scan::Absent,
            Scan::BadVersion => Scan::BadVersion,
        },
    }
}

fn compound(text: &str, s: &Vec<char>, i: usize) -> (r: Scan<Compound>)
    requires
        s@ == text@,
        i <= s.len(),
    ensures
        r == compound_at(s@, i as int),
        r matches Scan::Found(c) ==> compound_fits(c, s.len() as int),
{
    match clause(text, s, i) {
        Scan::Found(first) => {
            let k = take_while(s, first.version.end, CharSet::Whitespace);
            if k < s.len() && filter_char(s[k], IC_CO | IC_BA) {
                let m = take_while(s, k + 1, CharSet::Whitespace);
                match clause(text, s, m) {
                    Scan::Found(second) => Scan::Found(
                        Compound { first, second: Some((s[k], second)) },
                    ),
                    Scan::BadVersion => Scan::BadVersion,
                    Scan::Absent => Scan::Found(Compound { first, second: None }),
                }
            } else {
                Scan::Found(Compound { first, second: None })
            }
        },
        Scan::Absent => Scan::Absent,
        Scan::BadVersion => Scan::BadVersion,
    }
}

fn channel(s: &Vec<char>) -> (r: Option<Piece>)
    ensures
        r == channel_at(s@),
        r matches Some(p) ==> p.start == 0 <= p.end < s.len(),
{
    let j = take_while(s, 0, CharSet::Class(DASHED_CLASSES));
    if j < s.len() && (s[j] == ':' || s[j] == '/') {
        Some(Piece { start: 0, end: j })
    } else {
        None
    }
}

fn subdir(s: &Vec<char>, i: usize) -> (r: Option<Piece>)
    requires
        i <= s.len(),
    ensures
        r == subdir_at(s@, i as int),
        r matches Some(p) ==> i < p.start <= p.end < s.len(),
{
    if i < s.len() && filter_char(s[i], IC_FS) {
        let j = take_while(s, i + 1, CharSet::Class(DASHED_CLASSES));
        if j < s.len() && filter_char(s[j], IC_CL) {
            Some(Piece { start: i + 1, end: j })
        } else {
            None
        }
    } else {
        None
    }
}

fn namespace(s: &Vec<char>, i: usize) -> (r: Option<Piece>)
    requires
        i <= s.len(),
    ensures
        r == namespace_at(s@, i as int),
        r matches Some(p) ==> i < p.start <= p.end < s.len(),
{
    if i < s.len() && filter_char(s[i], IC_CL) {
        let j = take_while(s, i + 1, CharSet::AsciiAlnum);
        if j < s.len() && filter_char(s[j], IC_CL) {
            Some(Piece { start: i + 1, end: j })
        } else {
            None
        }
    } else {
        None
    }
}

fn name(s: &Vec<char>, i: usize) -> (r: Option<Piece>)
    requires
        i <= s.len(),
    ensures
        r == name_at(s@, i as int),
        r matches Some(p) ==> i == p.start < p.end <= s.len(),
{
    let j = take_while(s, i, CharSet::Class(NAME_CLASSES));
    if j > i {
        Some(Piece { start: i, end: j })
    } else {
        None
    }
}

fn key_value(s: &Vec<char>, i: usize) -> (r: Option<KeyValue>)
    requires
        i <= s.len(),
    ensures
        r == key_value_at(s@, i as int),
        r matches Some(kv) ==> key_value_fits(kv, s.len() as int) && i < kv.end,
{
    let a = take_while(s, i, CharSet::Whitespace);
    let b = take_while(s, a, CharSet::Class(DASHED_CLASSES));
    if b == a {
        return None;
    }
    match selector(s, b) {
        None => None,
        Some((op, m)) => {
            let v0 = if m < s.len() && filter_char(s[m], IC_QU) {
                m + 1
            } else {
                m
            };
            let v1 = take_while(s, v0, CharSet::Class(DASHED_CLASSES));
            if v1 == v0 {
                None
            } else {
                let q = if v1 < s.len() && filter_char(s[v1], IC_QU) {
                    v1 + 1
                } else {
                    v1
                };
                let end = take_while(s, q, CharSet::Whitespace);
                Some(
                    KeyValue {
                        key: Piece { start: a, end: b },
                        op,
                        value: Piece { start: v0, end: v1 },
                        end,
                    },
                )
            }
        },
    }
}

fn key_values(s: &Vec<char>, i: usize) -> (r: Vec<KeyValue>)
    requires
        i <= s.len(),
    ensures
        r@ == key_values_at(s@, i as int),
        forall|k: int| 0 <= k < r.len() ==> key_value_fits(#[trigger] r@[k], s.len() as int),
        i <= list_end(i as int, r@) <= s.len(),
{
    match key_value(s, i) {
        None => Vec::new(),
        Some(first) => {
            let mut out: Vec<KeyValue> = Vec::new();
            out.push(first);
            let mut j = first.end;
            loop
                invariant_except_break
                    out@ + key_value_tail(s@, j as int) == seq![first] + key_value_tail(
                        s@,
                        first.end as int,
                    ),
                invariant
                    out.len() > 0,
                    j == out@.last().end,
                    i < j <= s.len(),
                    forall|k: int|
                        0 <= k < out.len() ==> key_value_fits(#[trigger] out@[k], s.len() as int),
                ensures
                    out@ == seq![first] + key_value_tail(s@, first.end as int),
                    i < j <= s.len(),
                    j == out@.last().end,
                    forall|k: int|
                        0 <= k < out.len() ==> key_value_fits(#[trigger] out@[k], s.len() as int),
                decreases s.len() - j,
            {
                if j < s.len() && filter_char(s[j], IC_CO) {
                    match key_value(s, j + 1) {
                        Some(kv) => {
                            proof {
                                assert(seq![kv] + key_value_tail(s@, kv.end as int)
                                    == key_value_tail(s@, j as int));
                                assert(out@.push(kv) + key_value_tail(s@, kv.end as int) =~= out@
                                    + (seq![kv] + key_value_tail(s@, kv.end as int)));
                            }
                            out.push(kv);
                            j = kv.end;
                        },
                        None => {
                            proof {
                                assert(key_value_tail(s@, j as int) == Seq::<KeyValue>::empty());
                                assert(out@ + Seq::<KeyValue>::empty() =~= out@);
                            }
                            break ;
                        },
                    }
                } else {
                    proof {
                        assert(key_value_tail(s@, j as int) == Seq::<KeyValue>::empty());
                        assert(out@ + Seq::<KeyValue>::empty() =~= out@);
                    }
                    break ;
                }
            }
            out
        },
    }
}

fn keys(s: &Vec<char>, i: usize) -> (r: Option<(Vec<KeyValue>, usize)>)
    requires
        i <= s.len(),
    ensures
        match r {
            Some((v, e)) => keys_at(s@, i as int) == Some((v@, e)) && forall|k: int|
                0 <= k < v.len() ==> key_value_fits(#[trigger] v@[k], s.len() as int),
            None => keys_at(s@, i as int) is None,
        },
{
    if i < s.len() && filter_char(s[i], IC_LB) {
        let kvs = key_values(s, i + 1);
        let e = if kvs.len() == 0 {
            i + 1
        } else {
            kvs[kvs.len() - 1].end
        };
        if e < s.len() && filter_char(s[e], IC_RB) {
            Some((kvs, e + 1))
        } else {
            None
        }
    } else {
        None
    }
}

fn piece_text(text: &str, p: Piece) -> (r: String)
    requires
        fits(p, text@.len() as int),
    ensures
        r@ == text@.subrange(p.start as int, p.end as int),
{
    text.substring_char(p.start, p.end).to_owned()
}

fn optional_piece_text(text: &str, p: Option<Piece>) -> (r: Option<String>)
    requires
        p matches Some(x) ==> fits(x, text@.len() as int),
    ensures
        crate::matchspec::text_of(r) == optional_text(text@, p),
{
    match p {
        Some(x) => Some(piece_text(text, x)),
        None => None,
    }
}

fn constraint(text: &str, s: &Vec<char>, c: Compound) -> (r: CompoundSelector)
    requires
        s@ == text@,
        compound_fits(c, s.len() as int),
    ensures
        r@ == compound_model(s@, c),
{
    let first_op = text.substring_char(c.first.op.start, c.first.op.end);
    let first_version = text.substring_char(c.first.version.start, c.first.version.end);
    match c.second {
        None => CompoundSelector::single(first_op, first_version),
        Some((j, d)) => {
            let second_op = text.substring_char(d.op.start, d.op.end);
            let second_version = text.substring_char(d.version.start, d.version.end);
            let joiner = if filter_char(j, IC_CO) {
                ','
            } else {
                '|'
            };
            CompoundSelector::joined(first_op, first_version, joiner, second_op, second_version)
        },
    }
}

fn attribute_pairs(text: &str, s: &Vec<char>, kvs: &Vec<KeyValue>) -> (r: Vec<
    (String, CompoundSelector),
>)
    requires
        s@ == text@,
        forall|k: int| 0 <= k < kvs.len() ==> key_value_fits(#[trigger] kvs@[k], s.len() as int),
    ensures
        pairs_of(r@) == kvs@.map_values(|kv: KeyValue| key_value_model(s@, kv)),
{
    let ghost want = kvs@.map_values(|kv: KeyValue| key_value_model(s@, kv));
    let mut out: Vec<(String, CompoundSelector)> = Vec::new();
    let mut k: usize = 0;
    while k < kvs.len()
        invariant
            k <= kvs.len(),
            s@ == text@,
            want == kvs@.map_values(|kv: KeyValue| key_value_model(s@, kv)),
            forall|m: int| 0 <= m < kvs.len() ==> key_value_fits(#[trigger] kvs@[m], s.len() as int),
            pairs_of(out@) == want.take(k as int),
        decreases kvs.len() - k,
    {
        let kv = kvs[k];
        assert(key_value_fits(kvs@[k as int], s.len() as int));
        let key = piece_text(text, kv.key);
        let op = text.substring_char(kv.op.start, kv.op.end);
        let value = text.substring_char(kv.value.start, kv.value.end);
        let cs = CompoundSelector::single(op, value);
        let ghost before = out@;
        proof {
            assert(want[k as int] == key_value_model(s@, kv));
            assert((key@, cs@) == key_value_model(s@, kv));
        }
        out.push((key, cs));
        proof {
            assert(out@ == before.push((key, cs)));
            assert(pairs_of(out@) =~= pairs_of(before).push(key_value_model(s@, kv)));
            assert(want.take(k + 1) =~= want.take(k as int).push(want[k as int]));
        }
        k += 1;
    }
    proof {
        assert(want.take(kvs.len() as int) =~= want);
    }
    out
}

fn full_form(text: &str, s: &Vec<char>) -> (r: Result<(MatchSpec, usize), MatchSpecError>)
    requires
        s@ == text@,
    ensures
        match r {
            Ok((ms, e)) => full_at(s@) matches Ok(p) && ms@ == full_model(s@, p) && e
                == full_end(s@) && e <= s.len(),
            Err(err) => full_at(s@) == Err::<FullParts, Seq<char>>(err.message@),
        },
{
    let channel = channel(s);
    let after_channel = match channel {
        Some(c) => c.end,
        None => 0,
    };
    let subdir = subdir(s, after_channel);
    let after_subdir = match subdir {
        Some(d) => d.end,
        None => after_channel,
    };
    let namespace = namespace(s, after_subdir);
    let after_namespace = match namespace {
        Some(n) => n.end + 1,
        None => after_subdir,
    };
    let name = match name(s, after_namespace) {
        None => {
            let message = text.substring_char(after_namespace, s.len()).to_owned();
            return Err(MatchSpecError { message });
        },
        Some(n) => n,
    };
    let (version, keys_from) = match compound(text, s, name.end) {
        Scan::BadVersion => {
            return Err(version_error());
        },
        Scan::Absent => (None, name.end),
        Scan::Found(c) => (Some(constraint(text, s, c)), c.end_position()),
    };
    let (kvs, end) = match keys(s, keys_from) {
        Some((kvs, e)) => (kvs, e),
        None => (Vec::new(), keys_from),
    };
    let pairs = attribute_pairs(text, s, &kvs);
    let ms = MatchSpec::from_parts(
        optional_piece_text(text, channel),
        optional_piece_text(text, subdir),
        optional_piece_text(text, namespace),
        piece_text(text, name),
        version,
        pairs,
    );
    proof {
        let parts = full_at(s@)->Ok_0;
        assert(parts.keys == kvs@);
    }
    Ok((ms, end))
}

fn implicit_rest_form(s: &Vec<char>, name: Piece, version: Option<Piece>, p: usize) -> (r: Scan<
    ImplicitParts,
>)
    requires
        p <= s.len(),
    ensures
        r == implicit_rest(s@, name, version, p as int),
        r matches Scan::Found(x) ==> (x.build matches Some(b) ==> fits(b, s.len() as int)),
{
    let b = take_while(s, p, CharSet::Class(IMPLICIT_CLASSES));
    if b == s.len() {
        Scan::Found(
            ImplicitParts {
                name,
                version,
                build: if b > p {
                    Some(Piece { start: p, end: b })
                } else {
                    None
                },
            },
        )
    } else {
        Scan::Absent
    }
}

fn implicit_form(text: &str, s: &Vec<char>) -> (r: Scan<MatchSpec>)
    requires
        s@ == text@,
    ensures
        match implicit_at(s@) {
            Scan::Found(p) => r matches Scan::Found(ms) && ms@ == implicit_model(
                slice_text(s@, p.name),
                optional_text(s@, p.version),
                optional_text(s@, p.build),
            ),
            Scan::Absent => r is Absent,
            Scan::BadVersion => r is BadVersion,
        },
{
    let j = take_while(s, 0, CharSet::Class(IMPLICIT_CLASSES));
    if j == 0 {
        return Scan::Absent;
    }
    let name = Piece { start: 0, end: j };
    let rest = if j < s.len() && CharSet::Whitespace.has(s[j]) {
        let k = take_while(s, j, CharSet::Whitespace);
        match version(text, s, k) {
            Scan::BadVersion => {
                return Scan::BadVersion;
            },
            Scan::Found(v) => {
                let e = take_while(s, v.end, CharSet::Whitespace);
                implicit_rest_form(s, name, Some(v), e)
            },
            Scan::Absent => implicit_rest_form(s, name, None, j),
        }
    } else {
        implicit_rest_form(s, name, None, j)
    };
    match rest {
        Scan::Found(parts) => {
            let package = text.substring_char(parts.name.start, parts.name.end);
            let version = match parts.version {
                Some(v) => Some(text.substring_char(v.start, v.end)),
                None => None,
            };
            let build = match parts.build {
                Some(b) => Some(text.substring_char(b.start, b.end)),
                None => None,
            };
            Scan::Found(MatchSpec::from_implicit(package, version, build))
        },
        Scan::Absent => Scan::Absent,
        Scan::BadVersion => Scan::BadVersion,
    }
}

/// Parses a MatchSpec: the implicit form first, then the full form.
pub fn parse_matchspec(text: &str) -> (r: Result<MatchSpec, MatchSpecError>)
    ensures
        result_model(r) == parse_result(text@),
{
    let s = chars_of(text);
    match implicit_form(text, &s) {
        Scan::Found(ms) => Ok(ms),
        Scan::BadVersion => Err(version_error()),
        Scan::Absent => match full_form(text, &s) {
            Ok((ms, e)) => if e == s.len() {
                Ok(ms)
            } else {
                Err(input_error(text.substring_char(e, s.len())))
            },
            Err(e) => Err(e),
        },
    }
}

proof fn lemma_span_bounds(s: Seq<char>, i: int, set: CharSet)
    requires
        0 <= i <= s.len(),
    ensures
        i <= span(s, i, set) <= s.len(),
    decreases s.len() - i,
{
    if i < s.len() && set.contains(s[i]) {
        lemma_span_bounds(s, i + 1, set);
    }
}

/// Whether every version that a constraint compares against parses as a version.
pub open spec fn versions_valid(c: Constraint) -> bool {
    match c {
        Constraint::Single(_, v) => version_valid(v),
        Constraint::And(_, v1, _, v2) => version_valid(v1) && version_valid(v2),
        Constraint::Or(_, v1, _, v2) => version_valid(v1) && version_valid(v2),
    }
}

proof fn lemma_version_found(s: Seq<char>, i: int)
    requires
        0 <= i <= s.len() <= usize::MAX,
    ensures
        version_at(s, i) matches Scan::Found(p) ==> version_valid(slice_text(s, p)) && i
            <= p.end <= s.len(),
{
    lemma_span_bounds(s, i, CharSet::Class(NAME_CLASSES));
}

proof fn lemma_clause_found(s: Seq<char>, i: int)
    requires
        0 <= i <= s.len() <= usize::MAX,
    ensures
        clause_at(s, i) matches Scan::Found(c) ==> version_valid(slice_text(s, c.version)) && i
            <= c.version.end <= s.len(),
{
    lemma_span_bounds(s, i, CharSet::Whitespace);
    let j = span(s, i, CharSet::Whitespace);
    let n = operator_len(s, j);
    if n > 0 {
        lemma_span_bounds(s, j + n, CharSet::Whitespace);
        lemma_version_found(s, span(s, j + n, CharSet::Whitespace));
    }
}

/// A spec that parses names a package, and every version it compares
/// against parses as a version: a malformed version is never accepted.
pub proof fn lemma_parsed_specs_hold_valid_versions(s: Seq<char>)
    requires
        s.len() <= usize::MAX,
    ensures
        parse_result(s) matches Ok(m) ==> m.package.len() > 0 && (m.version matches Some(c)
            ==> versions_valid(c)),
{
    lemma_span_bounds(s, 0, CharSet::Class(IMPLICIT_CLASSES));
    let j = span(s, 0, CharSet::Class(IMPLICIT_CLASSES));
    if j > 0 && j < s.len() && CharSet::Whitespace.contains(s[j]) {
        lemma_span_bounds(s, j, CharSet::Whitespace);
        lemma_version_found(s, span(s, j, CharSet::Whitespace));
    }
    if implicit_at(s) is Absent {
        lemma_span_bounds(s, 0, CharSet::Class(DASHED_CLASSES));
        let after_channel: int = match channel_at(s) {
            Some(c) => c.end as int,
            None => 0,
        };
        if after_channel < s.len() {
            lemma_span_bounds(s, after_channel + 1, CharSet::Class(DASHED_CLASSES));
        }
        let after_subdir: int = match subdir_at(s, after_channel) {
            Some(d) => d.end as int,
            None => after_channel,
        };
        if after_subdir < s.len() {
            lemma_span_bounds(s, after_subdir + 1, CharSet::AsciiAlnum);
        }
        let after_namespace: int = match namespace_at(s, after_subdir) {
            Some(n) => n.end + 1,
            None => after_subdir,
        };
        lemma_span_bounds(s, after_namespace, CharSet::Class(NAME_CLASSES));
        if let Some(name) = name_at(s, after_namespace) {
            let e = name.end as int;
            lemma_clause_found(s, e);
            if let Scan::Found(first) = clause_at(s, e) {
                let v = first.version.end as int;
                lemma_span_bounds(s, v, CharSet::Whitespace);
                let k = span(s, v, CharSet::Whitespace);
                if k < s.len() {
                    lemma_span_bounds(s, k + 1, CharSet::Whitespace);
                    lemma_clause_found(s, span(s, k + 1, CharSet::Whitespace));
                }
            }
        }
    }
}

/// A version that does not parse fails the whole parse, whatever follows
/// it, and no other reading of the input is tried: where the implicit form
/// reads a malformed version after the name and whitespace, or the full form
/// reads one in its constraint (the first comparison, or the one after `,` or
/// `|`), the result is the version failure.
pub proof fn lemma_bad_version_fails_hard(s: Seq<char>)
    ensures
        implicit_at(s) is BadVersion ==> parse_result(s) == Err::<MatchSpecModel, Seq<char>>(
            version_failure(),
        ),
        forall|i: int| #[trigger] clause_at(s, i) is BadVersion ==> compound_at(s, i) is BadVersion,
        implicit_at(s) is Absent ==> (name_at(s, full_name_start(s)) matches Some(n) ==> (
        compound_at(s, n.end as int) is BadVersion ==> parse_result(s) == Err::<
            MatchSpecModel,
            Seq<char>,
        >(version_failure()))),
{
}

/// Where the implicit form stops reading: after the build, where a version
/// was read, else after the name.
pub open spec fn implicit_stop(s: Seq<char>) -> int {
    let j = span(s, 0, CharSet::Class(IMPLICIT_CLASSES));
    if j > 0 && j < s.len() && CharSet::Whitespace.contains(s[j]) {
        match version_at(s, span(s, j, CharSet::Whitespace)) {
            Scan::Found(v) => span(
                s,
                span(s, v.end as int, CharSet::Whitespace),
                CharSet::Class(IMPLICIT_CLASSES),
            ),
            _ => j,
        }
    } else {
        j
    }
}

/// The input from position `e` on.
pub open spec fn rest_after(s: Seq<char>, e: int) -> Seq<char> {
    s.subrange(e, s.len() as int)
}

fn input_error(text: &str) -> (r: MatchSpecError)
    ensures
        r.message@ == text@,
{
    MatchSpecError { message: text.to_owned() }
}

fn version_error() -> (r: MatchSpecError)
    ensures
        r.message@ == version_failure(),
{
    MatchSpecError { message: String::from_str("Version parse failed") }
}

/// Parses an operator with the whitespace around it, at the start of `text`:
/// the rest of the input and the operator. The error carries the input.
pub fn selector_parser(text: &str) -> (r: Result<(&str, &str), MatchSpecError>)
    ensures
        match selector_at(text@, 0) {
            Some((op, e)) => r matches Ok((rest, token)) && rest@ == rest_after(text@, e as int)
                && token@ == slice_text(text@, op),
            None => r matches Err(err) && err.message@ == text@,
        },
{
    let s = chars_of(text);
    match selector(&s, 0) {
        Some((op, e)) => Ok((text.substring_char(e, s.len()), text.substring_char(op.start, op.end))),
        None => Err(input_error(text)),
    }
}

/// Parses a package name at the start of `text`: the rest of the input and
/// the name. The error carries the input.
pub fn name_parser(text: &str) -> (r: Result<(&str, &str), MatchSpecError>)
    ensures
        match name_at(text@, 0) {
            Some(p) => r matches Ok((rest, name)) && rest@ == rest_after(text@, p.end as int)
                && name@ == slice_text(text@, p),
            None => r matches Err(err) && err.message@ == text@,
        },
{
    let s = chars_of(text);
    match name(&s, 0) {
        Some(p) => Ok((text.substring_char(p.end, s.len()), text.substring_char(p.start, p.end))),
        None => Err(input_error(text)),
    }
}

/// Parses a version at the start of `text`: the rest of the input and the
/// version. A run of version characters that does not parse as a version
/// fails with `Version parse failed`; no such run at all fails with the input.
pub fn version_parser(text: &str) -> (r: Result<(&str, &str), MatchSpecError>)
    ensures
        match version_at(text@, 0) {
            Scan::Found(p) => r matches Ok((rest, v)) && rest@ == rest_after(text@, p.end as int)
                && v@ == slice_text(text@, p),
            Scan::Absent => r matches Err(err) && err.message@ == text@,
            Scan::BadVersion => r matches Err(err) && err.message@ == version_failure(),
        },
{
    let s = chars_of(text);
    match version(text, &s, 0) {
        Scan::Found(p) => Ok(
            (text.substring_char(p.end, s.len()), text.substring_char(p.start, p.end)),
        ),
        Scan::Absent => Err(input_error(text)),
        Scan::BadVersion => Err(version_error()),
    }
}

/// Parses a version constraint at the start of `text`: the rest of the
/// input and the constraint. Errors as for `version_parser`.
pub fn compound_selector_parser(text: &str) -> (r: Result<(&str, CompoundSelector), MatchSpecError>)
    ensures
        match compound_at(text@, 0) {
            Scan::Found(c) => r matches Ok((rest, cs)) && rest@ == rest_after(text@, c.end() as int)
                && cs@ == compound_model(text@, c),
            Scan::Absent => r matches Err(err) && err.message@ == text@,
            Scan::BadVersion => r matches Err(err) && err.message@ == version_failure(),
        },
{
    let s = chars_of(text);
    match compound(text, &s, 0) {
        Scan::Found(c) => {
            let cs = constraint(text, &s, c);
            Ok((text.substring_char(c.end_position(), s.len()), cs))
        },
        Scan::Absent => Err(input_error(text)),
        Scan::BadVersion => Err(version_error()),
    }
}

/// Parses a channel at the start of `text`, which a `:` or a `/` must follow:
/// the rest of the input and the channel. The error carries the input.
pub fn channel_parser(text: &str) -> (r: Result<(&str, &str), MatchSpecError>)
    ensures
        match channel_at(text@) {
            Some(p) => r matches Ok((rest, c)) && rest@ == rest_after(text@, p.end as int) && c@
                == slice_text(text@, p),
            None => r matches Err(err) && err.message@ == text@,
        },
{
    let s = chars_of(text);
    match channel(&s) {
        Some(p) => Ok((text.substring_char(p.end, s.len()), text.substring_char(p.start, p.end))),
        None => Err(input_error(text)),
    }
}

/// Parses one attribute `key op value` at the start of `text`: the rest of
/// the input, and the key, the operator and the value without its quotes.
/// The error carries the input.
pub fn key_value_pair_parser(text: &str) -> (r: Result<(&str, (&str, &str, &str)), MatchSpecError>)
    ensures
        match key_value_at(text@, 0) {
            Some(kv) => r matches Ok((rest, (k, op, v))) && rest@ == rest_after(
                text@,
                kv.end as int,
            ) && k@ == slice_text(text@, kv.key) && op@ == slice_text(text@, kv.op) && v@
                == slice_text(text@, kv.value),
            None => r matches Err(err) && err.message@ == text@,
        },
{
    let s = chars_of(text);
    match key_value(&s, 0) {
        Some(kv) => Ok(
            (
                text.substring_char(kv.end, s.len()),
                (
                    text.substring_char(kv.key.start, kv.key.end),
                    text.substring_char(kv.op.start, kv.op.end),
                    text.substring_char(kv.value.start, kv.value.end),
                ),
            ),
        ),
        None => Err(input_error(text)),
    }
}

/// Parses the implicit form `name [version [build]]`, which must take the
/// whole input: the (empty) rest and the spec. A version that does not parse
/// fails with `Version parse failed`; any other failure carries the input
/// left where the form stopped.
pub fn implicit_matchspec_parser(text: &str) -> (r: Result<(&str, MatchSpec), MatchSpecError>)
    ensures
        match implicit_at(text@) {
            Scan::Found(p) => r matches Ok((rest, ms)) && rest@.len() == 0 && ms@
                == implicit_model(
                slice_text(text@, p.name),
                optional_text(text@, p.version),
                optional_text(text@, p.build),
            ),
            Scan::Absent => r matches Err(err) && err.message@ == rest_after(
                text@,
                implicit_stop(text@),
            ),
            Scan::BadVersion => r matches Err(err) && err.message@ == version_failure(),
        },
{
    let s = chars_of(text);
    match implicit_form(text, &s) {
        Scan::Found(ms) => Ok((text.substring_char(s.len(), s.len()), ms)),
        Scan::BadVersion => Err(version_error()),
        Scan::Absent => {
            let j = take_while(&s, 0, CharSet::Class(IMPLICIT_CLASSES));
            let mut stop = j;
            if j > 0 && j < s.len() && CharSet::Whitespace.has(s[j]) {
                let k = take_while(&s, j, CharSet::Whitespace);
                if let Scan::Found(v) = version(text, &s, k) {
                    let e = take_while(&s, v.end, CharSet::Whitespace);
                    stop = take_while(&s, e, CharSet::Class(IMPLICIT_CLASSES));
                }
            }
            Err(input_error(text.substring_char(stop, s.len())))
        },
    }
}

/// Parses the full form at the start of `text`: the input left after the
/// last part it recognised, and the spec. Fails where no package name
/// stands (carrying the input left there) or a version does not parse.
pub fn full_matchspec_parser(text: &str) -> (r: Result<(&str, MatchSpec), MatchSpecError>)
    ensures
        match full_at(text@) {
            Ok(p) => r matches Ok((rest, ms)) && rest@ == rest_after(text@, full_end(text@))
                && ms@ == full_model(text@, p),
            Err(m) => r matches Err(err) && err.message@ == m,
        },
{
    let s = chars_of(text);
    match full_form(text, &s) {
        Ok((ms, e)) => Ok((text.substring_char(e, s.len()), ms)),
        Err(err) => Err(err),
    }
}

impl core::str::FromStr for MatchSpec {
    type Err = MatchSpecError;

    fn from_str(s: &str) -> (r: Result<MatchSpec, MatchSpecError>)
        ensures
            result_model(r) == parse_result(s@),
    {
        parse_matchspec(s)
    }
}

} // verus!
