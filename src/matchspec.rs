//! The MatchSpec data model and the rules that match it against packages.
use crate::compare::{compare_versions, version_order};
use crate::input_table::{dashed_alnum, is_alphanumeric_with_dashes};
use crate::package_candidate::{CandidateModel, PackageCandidate};
use crate::text::{chars_of, decimal, decimal_string, same_text};
use core::cmp::Ordering;
use vstd::prelude::*;

verus! {

/// A comparison operator of a version constraint.
#[derive(Clone, Copy, Debug, PartialEq, Eq, Structural)]
pub enum Selector {
    GreaterThan,
    GreaterThanOrEqualTo,
    LessThan,
    LessThanOrEqualTo,
    NotEqualTo,
    EqualTo,
}

/// The selector that an operator token stands for. `=`, `==`, `===` and
/// `~=` mean equality, and so does any token that is not recognised.
pub open spec fn selector_of_token(t: Seq<char>) -> Selector {
    if t == seq!['>'] {
        Selector::GreaterThan
    } else if t == seq!['>', '='] {
        Selector::GreaterThanOrEqualTo
    } else if t == seq!['<'] {
        Selector::LessThan
    } else if t == seq!['<', '='] {
        Selector::LessThanOrEqualTo
    } else if t == seq!['!', '='] {
        Selector::NotEqualTo
    } else {
        Selector::EqualTo
    }
}

/// Whether `sel` holds between the versions `a` and `b` (`a sel b`), by the
/// version ordering. Where either side is not a version, it does not hold.
pub open spec fn selector_holds(sel: Selector, a: Seq<char>, b: Seq<char>) -> bool {
    match version_order(a, b) {
        None => false,
        Some(o) => match sel {
            Selector::EqualTo => o == Ordering::Equal,
            Selector::NotEqualTo => o != Ordering::Equal,
            Selector::LessThan => o == Ordering::Less,
            Selector::LessThanOrEqualTo => o != Ordering::Greater,
            Selector::GreaterThan => o == Ordering::Greater,
            Selector::GreaterThanOrEqualTo => o != Ordering::Less,
        },
    }
}

/// Each operator token compares two versions by the version ordering, not
/// as text: `>` holds exactly where the first version orders after the
/// second, `>=` where it orders after or equal, `<` and `<=` likewise, `!=`
/// where the two order apart, and `=`, `==`, `===` and `~=` where they order
/// equal. Where either side is not a version, no operator holds.
pub proof fn lemma_tokens_compare_by_version_order(a: Seq<char>, b: Seq<char>)
    ensures
        selector_holds(selector_of_token(seq!['>']), a, b) == (version_order(a, b) == Some(
            Ordering::Greater,
        )),
        selector_holds(selector_of_token(seq!['>', '=']), a, b) == (version_order(a, b) == Some(
            Ordering::Greater,
        ) || version_order(a, b) == Some(Ordering::Equal)),
        selector_holds(selector_of_token(seq!['<']), a, b) == (version_order(a, b) == Some(
            Ordering::Less,
        )),
        selector_holds(selector_of_token(seq!['<', '=']), a, b) == (version_order(a, b) == Some(
            Ordering::Less,
        ) || version_order(a, b) == Some(Ordering::Equal)),
        selector_holds(selector_of_token(seq!['!', '=']), a, b) == (version_order(a, b) == Some(
            Ordering::Less,
        ) || version_order(a, b) == Some(Ordering::Greater)),
        selector_holds(selector_of_token(seq!['=']), a, b) == (version_order(a, b) == Some(
            Ordering::Equal,
        )),
        selector_holds(selector_of_token(seq!['=', '=']), a, b) == (version_order(a, b) == Some(
            Ordering::Equal,
        )),
        selector_holds(selector_of_token(seq!['=', '=', '=']), a, b) == (version_order(a, b)
            == Some(Ordering::Equal)),
        selector_holds(selector_of_token(seq!['~', '=']), a, b) == (version_order(a, b) == Some(
            Ordering::Equal,
        )),
        version_order(a, b) is None ==> forall|sel: Selector| !selector_holds(sel, a, b),
{
    assert(seq!['=', '='] != seq!['>', '=']) by {
        assert(seq!['=', '='][0] != seq!['>', '='][0]);
    }
    assert(seq!['=', '='] != seq!['<', '=']) by {
        assert(seq!['=', '='][0] != seq!['<', '='][0]);
    }
    assert(seq!['=', '='] != seq!['!', '=']) by {
        assert(seq!['=', '='][0] != seq!['!', '='][0]);
    }
    assert(seq!['~', '='] != seq!['>', '=']) by {
        assert(seq!['~', '='][0] != seq!['>', '='][0]);
    }
    assert(seq!['~', '='] != seq!['<', '=']) by {
        assert(seq!['~', '='][0] != seq!['<', '='][0]);
    }
    assert(seq!['~', '='] != seq!['!', '=']) by {
        assert(seq!['~', '='][0] != seq!['!', '='][0]);
    }
    assert(seq!['<'] != seq!['>']) by {
        assert(seq!['<'][0] != seq!['>'][0]);
    }
    assert(seq!['='] != seq!['>']) by {
        assert(seq!['='][0] != seq!['>'][0]);
    }
    assert(seq!['='] != seq!['<']) by {
        assert(seq!['='][0] != seq!['<'][0]);
    }
    assert(seq!['<', '='] != seq!['>', '=']) by {
        assert(seq!['<', '='][0] != seq!['>', '='][0]);
    }
    assert(seq!['!', '='] != seq!['>', '=']) by {
        assert(seq!['!', '='][0] != seq!['>', '='][0]);
    }
    assert(seq!['!', '='] != seq!['<', '=']) by {
        assert(seq!['!', '='][0] != seq!['<', '='][0]);
    }
    assert(seq!['>', '='] != seq!['>']) by {
        assert(seq!['>', '='].len() != seq!['>'].len());
    }
    assert(seq!['<', '='] != seq!['>']) by {
        assert(seq!['<', '='].len() != seq!['>'].len());
    }
    assert(seq!['<', '='] != seq!['<']) by {
        assert(seq!['<', '='].len() != seq!['<'].len());
    }
}

impl<'a> From<&'a str> for Selector {
    fn from(token: &'a str) -> (r: Selector) {
        let n = token.unicode_len();
        let c0 = if n > 0 { token.get_char(0) } else { ' ' };
        let c1 = if n > 1 { token.get_char(1) } else { ' ' };
        if n == 1 && c0 == '>' {
            proof { assert(token@ =~= seq!['>']); }
            Selector::GreaterThan
        } else if n == 2 && c0 == '>' && c1 == '=' {
            proof { assert(token@ =~= seq!['>', '=']); }
            Selector::GreaterThanOrEqualTo
        } else if n == 1 && c0 == '<' {
            proof { assert(token@ =~= seq!['<']); }
            Selector::LessThan
        } else if n == 2 && c0 == '<' && c1 == '=' {
            proof { assert(token@ =~= seq!['<', '=']); }
            Selector::LessThanOrEqualTo
        } else if n == 2 && c0 == '!' && c1 == '=' {
            proof { assert(token@ =~= seq!['!', '=']); }
            Selector::NotEqualTo
        } else {
            Selector::EqualTo
        }
    }
}

impl<'a> vstd::std_specs::convert::FromSpecImpl<&'a str> for Selector {
    open spec fn obeys_from_spec() -> bool {
        true
    }

    open spec fn from_spec(token: &'a str) -> Selector {
        selector_of_token(token@)
    }
}

impl Selector {
    /// Compares the version `a` with the version `b` by this operator
    /// (`a > b` for `GreaterThan`). False where either is not a version.
    pub fn boolean_operator(&self, a: &str, b: &str) -> (r: bool)
        ensures
            r == selector_holds(*self, a@, b@),
    {
        match compare_versions(a, b) {
            None => false,
            Some(o) => {
                let less = matches!(o, Ordering::Less);
                let greater = matches!(o, Ordering::Greater);
                match self {
                    Selector::EqualTo => !less && !greater,
                    Selector::NotEqualTo => less || greater,
                    Selector::LessThan => less,
                    Selector::LessThanOrEqualTo => !greater,
                    Selector::GreaterThan => greater,
                    Selector::GreaterThanOrEqualTo => !less,
                }
            },
        }
    }
}

/// A version constraint: one comparison, or two joined by AND (`,`) or OR (`|`).
#[derive(Clone, Debug)]
pub enum CompoundSelector {
    Single { selector: Selector, version: String },
    And {
        first_selector: Selector,
        first_version: String,
        second_selector: Selector,
        second_version: String,
    },
    Or {
        first_selector: Selector,
        first_version: String,
        second_selector: Selector,
        second_version: String,
    },
}

/// The mathematical value of a `CompoundSelector`.
pub enum Constraint {
    Single(Selector, Seq<char>),
    And(Selector, Seq<char>, Selector, Seq<char>),
    Or(Selector, Seq<char>, Selector, Seq<char>),
}

impl View for CompoundSelector {
    type V = Constraint;

    open spec fn view(&self) -> Constraint {
        match self {
            CompoundSelector::Single { selector, version } => Constraint::Single(
                *selector,
                version@,
            ),
            CompoundSelector::And {
                first_selector,
                first_version,
                second_selector,
                second_version,
            } => Constraint::And(
                *first_selector,
                first_version@,
                *second_selector,
                second_version@,
            ),
            CompoundSelector::Or {
                first_selector,
                first_version,
                second_selector,
                second_version,
            } => Constraint::Or(*first_selector, first_version@, *second_selector, second_version@),
        }
    }
}

impl Constraint {
    /// The version of a single `EqualTo` comparison.
    pub open spec fn equal_value(self) -> Option<Seq<char>> {
        match self {
            Constraint::Single(Selector::EqualTo, v) => Some(v),
            _ => None,
        }
    }

    /// Whether the version `v` meets this constraint.
    pub open spec fn admits(self, v: Seq<char>) -> bool {
        match self {
            Constraint::Single(s, a) => selector_holds(s, v, a),
            Constraint::And(s1, a1, s2, a2) => selector_holds(s1, v, a1) && selector_holds(
                s2,
                v,
                a2,
            ),
            Constraint::Or(s1, a1, s2, a2) => selector_holds(s1, v, a1) || selector_holds(
                s2,
                v,
                a2,
            ),
        }
    }
}

impl PartialEq for CompoundSelector {
    fn eq(&self, other: &CompoundSelector) -> (r: bool) {
        match (self, other) {
            (
                CompoundSelector::Single { selector: s1, version: v1 },
                CompoundSelector::Single { selector: s2, version: v2 },
            ) => *s1 == *s2 && *v1 == *v2,
            (
                CompoundSelector::And {
                    first_selector: a1,
                    first_version: b1,
                    second_selector: c1,
                    second_version: d1,
                },
                CompoundSelector::And {
                    first_selector: a2,
                    first_version: b2,
                    second_selector: c2,
                    second_version: d2,
                },
            ) => *a1 == *a2 && *b1 == *b2 && *c1 == *c2 && *d1 == *d2,
            (
                CompoundSelector::Or {
                    first_selector: a1,
                    first_version: b1,
                    second_selector: c1,
                    second_version: d1,
                },
                CompoundSelector::Or {
                    first_selector: a2,
                    first_version: b2,
                    second_selector: c2,
                    second_version: d2,
                },
            ) => *a1 == *a2 && *b1 == *b2 && *c1 == *c2 && *d1 == *d2,
            _ => false,
        }
    }
}

impl vstd::std_specs::cmp::PartialEqSpecImpl for CompoundSelector {
    open spec fn obeys_eq_spec() -> bool {
        true
    }

    open spec fn eq_spec(&self, other: &CompoundSelector) -> bool {
        self@ == other@
    }
}

impl Eq for CompoundSelector {

}

impl Default for CompoundSelector {
    /// The constraint that every version meets: `>= 0`.
    fn default() -> (r: CompoundSelector)
        ensures
            r@ == Constraint::Single(Selector::GreaterThanOrEqualTo, seq!['0']),
    {
        let version = String::from_str("0");
        proof {
            reveal_strlit("0");
            assert(version@ =~= seq!['0']);
        }
        CompoundSelector::Single { selector: Selector::GreaterThanOrEqualTo, version }
    }
}

impl CompoundSelector {
    /// One comparison, from an operator token and a version.
    pub fn single(token: &str, version: &str) -> (r: CompoundSelector)
        ensures
            r@ == Constraint::Single(selector_of_token(token@), version@),
    {
        CompoundSelector::Single { selector: Selector::from(token), version: version.to_owned() }
    }

    /// Two comparisons joined by `joiner`: `,` for AND, `|` for OR.
    pub fn joined(
        first_token: &str,
        first_version: &str,
        joiner: char,
        second_token: &str,
        second_version: &str,
    ) -> (r: CompoundSelector)
        requires
            joiner == ',' || joiner == '|',
        ensures
            joiner == ',' ==> r@ == Constraint::And(
                selector_of_token(first_token@),
                first_version@,
                selector_of_token(second_token@),
                second_version@,
            ),
            joiner == '|' ==> r@ == Constraint::Or(
                selector_of_token(first_token@),
                first_version@,
                selector_of_token(second_token@),
                second_version@,
            ),
    {
        if joiner == '|' {
            CompoundSelector::Or {
                first_selector: Selector::from(first_token),
                first_version: first_version.to_owned(),
                second_selector: Selector::from(second_token),
                second_version: second_version.to_owned(),
            }
        } else {
            CompoundSelector::And {
                first_selector: Selector::from(first_token),
                first_version: first_version.to_owned(),
                second_selector: Selector::from(second_token),
                second_version: second_version.to_owned(),
            }
        }
    }

    /// A copy with the same value.
    pub fn duplicate(&self) -> (r: CompoundSelector)
        ensures
            r@ == self@,
    {
        match self {
            CompoundSelector::Single { selector, version } => CompoundSelector::Single {
                selector: *selector,
                version: version.clone(),
            },
            CompoundSelector::And {
                first_selector,
                first_version,
                second_selector,
                second_version,
            } => CompoundSelector::And {
                first_selector: *first_selector,
                first_version: first_version.clone(),
                second_selector: *second_selector,
                second_version: second_version.clone(),
            },
            CompoundSelector::Or {
                first_selector,
                first_version,
                second_selector,
                second_version,
            } => CompoundSelector::Or {
                first_selector: *first_selector,
                first_version: first_version.clone(),
                second_selector: *second_selector,
                second_version: second_version.clone(),
            },
        }
    }

    /// Whether the version `other` meets this constraint: the one comparison,
    /// both of an AND, or at least one of an OR.
    pub fn is_match(&self, other: &str) -> (r: bool)
        ensures
            r == self@.admits(other@),
    {
        match self {
            CompoundSelector::Single { selector, version } => selector.boolean_operator(
                other,
                version.as_str(),
            ),
            CompoundSelector::And {
                first_selector,
                first_version,
                second_selector,
                second_version,
            } => first_selector.boolean_operator(other, first_version.as_str())
                && second_selector.boolean_operator(other, second_version.as_str()),
            CompoundSelector::Or {
                first_selector,
                first_version,
                second_selector,
                second_version,
            } => first_selector.boolean_operator(other, first_version.as_str())
                || second_selector.boolean_operator(other, second_version.as_str()),
        }
    }
}

/// The text of an optional string.
pub open spec fn text_of(o: Option<String>) -> Option<Seq<char>> {
    match o {
        Some(t) => Some(t@),
        None => None,
    }
}

/// The value of an optional constraint.
pub open spec fn constraint_of(o: Option<CompoundSelector>) -> Option<Constraint> {
    match o {
        Some(c) => Some(c@),
        None => None,
    }
}

/// The value of a list of key/constraint pairs.
pub open spec fn pairs_of(v: Seq<(String, CompoundSelector)>) -> Seq<(Seq<char>, Constraint)> {
    v.map_values(|p: (String, CompoundSelector)| (p.0@, p.1@))
}

/// A parsed MatchSpec: which packages a dependency accepts.
#[derive(Clone, Debug)]
pub struct MatchSpec {
    pub channel: Option<String>,
    pub subdir: Option<String>,
    pub namespace: Option<String>,
    pub package: String,
    pub version: Option<CompoundSelector>,
    pub build: Option<String>,
    pub build_number: Option<CompoundSelector>,
    pub key_value_pairs: Vec<(String, CompoundSelector)>,
}

/// The mathematical value of a `MatchSpec`.
pub struct MatchSpecModel {
    pub channel: Option<Seq<char>>,
    pub subdir: Option<Seq<char>>,
    pub namespace: Option<Seq<char>>,
    pub package: Seq<char>,
    pub version: Option<Constraint>,
    pub build: Option<Seq<char>>,
    pub build_number: Option<Constraint>,
    pub key_value_pairs: Seq<(Seq<char>, Constraint)>,
}

impl View for MatchSpec {
    type V = MatchSpecModel;

    open spec fn view(&self) -> MatchSpecModel {
        MatchSpecModel {
            channel: text_of(self.channel),
            subdir: text_of(self.subdir),
            namespace: text_of(self.namespace),
            package: self.package@,
            version: constraint_of(self.version),
            build: text_of(self.build),
            build_number: constraint_of(self.build_number),
            key_value_pairs: pairs_of(self.key_value_pairs@),
        }
    }
}

impl MatchSpecModel {
    /// Equality over the named fields: channel, subdir, namespace, package,
    /// version and build. The build number and the key/value pairs do not
    /// take part.
    pub open spec fn same_named_fields(self, other: MatchSpecModel) -> bool {
        &&& self.channel == other.channel
        &&& self.subdir == other.subdir
        &&& self.namespace == other.namespace
        &&& self.package == other.package
        &&& self.version == other.version
        &&& self.build == other.build
    }
}

/// The value that the last pair with key `key` and an `EqualTo` constraint
/// gives, or `default` where no pair does.
pub open spec fn hoisted(
    pairs: Seq<(Seq<char>, Constraint)>,
    key: Seq<char>,
    default: Option<Seq<char>>,
) -> Option<Seq<char>>
    decreases pairs.len(),
{
    if pairs.len() == 0 {
        default
    } else if pairs.last().0 == key && pairs.last().1.equal_value() is Some {
        pairs.last().1.equal_value()
    } else {
        hoisted(pairs.drop_last(), key, default)
    }
}

/// The constraint of the last pair with key `build_number` and a single
/// comparison, if any.
pub open spec fn hoisted_build_number(pairs: Seq<(Seq<char>, Constraint)>) -> Option<Constraint>
    decreases pairs.len(),
{
    if pairs.len() == 0 {
        None
    } else if pairs.last().0 == "build_number"@ && pairs.last().1 is Single {
        Some(pairs.last().1)
    } else {
        hoisted_build_number(pairs.drop_last())
    }
}

/// The spec built from the parts of the full form: the pairs whose key names
/// a field (`build`, `channel`, `subdir`, `namepsace`) and whose constraint is
/// `EqualTo` set that field, `build_number` with any single comparison sets
/// the build number, and all pairs are kept in order. An empty namespace is
/// no namespace.
pub open spec fn assembled(
    channel: Option<Seq<char>>,
    subdir: Option<Seq<char>>,
    namespace: Option<Seq<char>>,
    package: Seq<char>,
    version: Option<Constraint>,
    pairs: Seq<(Seq<char>, Constraint)>,
) -> MatchSpecModel {
    let ns = match namespace {
        Some(n) => if n.len() == 0 {
            None
        } else {
            Some(n)
        },
        None => None,
    };
    MatchSpecModel {
        channel: hoisted(pairs, "channel"@, channel),
        subdir: hoisted(pairs, "subdir"@, subdir),
        namespace: hoisted(pairs, "namepsace"@, ns),
        package,
        version,
        build: hoisted(pairs, "build"@, None),
        build_number: hoisted_build_number(pairs),
        key_value_pairs: pairs,
    }
}

/// The spec of the implicit form `name [version [build]]`: the version
/// must equal the one given.
pub open spec fn implicit_model(
    package: Seq<char>,
    version: Option<Seq<char>>,
    build: Option<Seq<char>>,
) -> MatchSpecModel {
    MatchSpecModel {
        channel: None,
        subdir: None,
        namespace: None,
        package,
        version: match version {
            Some(v) => Some(Constraint::Single(Selector::EqualTo, v)),
            None => None,
        },
        build,
        build_number: None,
        key_value_pairs: Seq::empty(),
    }
}

proof fn lemma_field_keys_differ()
    ensures
        "build"@ != "channel"@,
        "build"@ != "subdir"@,
        "build"@ != "namepsace"@,
        "build"@ != "build_number"@,
        "channel"@ != "subdir"@,
        "channel"@ != "namepsace"@,
        "channel"@ != "build_number"@,
        "subdir"@ != "namepsace"@,
        "subdir"@ != "build_number"@,
        "namepsace"@ != "build_number"@,
{
    reveal_strlit("build");
    reveal_strlit("channel");
    reveal_strlit("subdir");
    reveal_strlit("namepsace");
    reveal_strlit("build_number");
    assert("build"@.len() == 5);
    assert("channel"@.len() == 7);
    assert("subdir"@.len() == 6);
    assert("namepsace"@.len() == 9);
    assert("build_number"@.len() == 12);
}

fn same_optional_text(a: &Option<String>, b: &Option<String>) -> (r: bool)
    ensures
        r == (text_of(*a) == text_of(*b)),
{
    match (a, b) {
        (Some(x), Some(y)) => *x == *y,
        (None, None) => true,
        _ => false,
    }
}

fn same_optional_constraint(a: &Option<CompoundSelector>, b: &Option<CompoundSelector>) -> (r:
    bool)
    ensures
        r == (constraint_of(*a) == constraint_of(*b)),
{
    match (a, b) {
        (Some(x), Some(y)) => *x == *y,
        (None, None) => true,
        _ => false,
    }
}

impl PartialEq for MatchSpec {
    fn eq(&self, other: &MatchSpec) -> (r: bool) {
        same_optional_text(&self.channel, &other.channel) && same_optional_text(
            &self.subdir,
            &other.subdir,
        ) && same_optional_text(&self.namespace, &other.namespace) && self.package
            == other.package && same_optional_constraint(&self.version, &other.version)
            && same_optional_text(&self.build, &other.build)
    }
}

impl vstd::std_specs::cmp::PartialEqSpecImpl for MatchSpec {
    open spec fn obeys_eq_spec() -> bool {
        true
    }

    open spec fn eq_spec(&self, other: &MatchSpec) -> bool {
        self@.same_named_fields(other@)
    }
}

impl Eq for MatchSpec {

}

impl Default for MatchSpec {
    /// The spec that any package meets: package `*`, nothing else set.
    fn default() -> (r: MatchSpec)
        ensures
            r@ == implicit_model(seq!['*'], None, None),
    {
        let package = String::from_str("*");
        proof {
            reveal_strlit("*");
            assert(package@ =~= seq!['*']);
        }
        let r = MatchSpec {
            channel: None,
            subdir: None,
            namespace: None,
            package,
            version: None,
            build: None,
            build_number: None,
            key_value_pairs: Vec::new(),
        };
        assert(r@.key_value_pairs =~= Seq::empty());
        r
    }
}

impl MatchSpec {
    /// The spec of the implicit form: a package, an optional version that
    /// must be equal, an optional build.
    pub fn from_implicit(package: &str, version: Option<&str>, build: Option<&str>) -> (r:
        MatchSpec)
        ensures
            r@ == implicit_model(
                package@,
                match version {
                    Some(v) => Some(v@),
                    None => None,
                },
                match build {
                    Some(b) => Some(b@),
                    None => None,
                },
            ),
    {
        let version = match version {
            Some(v) => Some(CompoundSelector::Single { selector: Selector::EqualTo, version: v.to_owned() }),
            None => None,
        };
        let build = match build {
            Some(b) => Some(b.to_owned()),
            None => None,
        };
        let r = MatchSpec {
            channel: None,
            subdir: None,
            namespace: None,
            package: package.to_owned(),
            version,
            build,
            build_number: None,
            key_value_pairs: Vec::new(),
        };
        assert(r@.key_value_pairs =~= Seq::empty());
        r
    }

    /// The spec of the full form, from its parts: see `assembled`.
    pub fn from_parts(
        channel: Option<String>,
        subdir: Option<String>,
        namespace: Option<String>,
        package: String,
        version: Option<CompoundSelector>,
        key_value_pairs: Vec<(String, CompoundSelector)>,
    ) -> (r: MatchSpec)
        ensures
            r@ == assembled(
                text_of(channel),
                text_of(subdir),
                text_of(namespace),
                package@,
                constraint_of(version),
                pairs_of(key_value_pairs@),
            ),
    {
        let ghost pairs = pairs_of(key_value_pairs@);
        let ghost channel0 = text_of(channel);
        let ghost subdir0 = text_of(subdir);
        let namespace = match namespace {
            Some(n) => if n.as_str().unicode_len() == 0 {
                None
            } else {
                Some(n)
            },
            None => None,
        };
        let ghost namespace0 = text_of(namespace);
        let ghost package0 = package@;
        let ghost version0 = constraint_of(version);
        let mut ms = MatchSpec {
            channel,
            subdir,
            namespace,
            package,
            version,
            build: None,
            build_number: None,
            key_value_pairs: Vec::new(),
        };
        let mut i: usize = 0;
        while i < key_value_pairs.len()
            invariant
                i <= key_value_pairs.len(),
                pairs == pairs_of(key_value_pairs@),
                text_of(ms.channel) == hoisted(pairs.take(i as int), "channel"@, channel0),
                text_of(ms.subdir) == hoisted(pairs.take(i as int), "subdir"@, subdir0),
                text_of(ms.namespace) == hoisted(pairs.take(i as int), "namepsace"@, namespace0),
                text_of(ms.build) == hoisted(pairs.take(i as int), "build"@, None),
                constraint_of(ms.build_number) == hoisted_build_number(pairs.take(i as int)),
                ms.package@ == package0,
                constraint_of(ms.version) == version0,
                ms.key_value_pairs@.len() == 0,
            decreases key_value_pairs.len() - i,
        {
            let key = key_value_pairs[i].0.as_str();
            let cs = &key_value_pairs[i].1;
            proof {
                lemma_field_keys_differ();
                assert(pairs.take(i + 1).drop_last() =~= pairs.take(i as int));
                assert(pairs.take(i + 1).last() == pairs[i as int]);
                assert(pairs[i as int] == (key@, cs@));
            }
            match cs {
                CompoundSelector::Single { selector: Selector::EqualTo, version } => {
                    if same_text(key, "build") {
                        ms.build = Some(version.clone());

                    } else if same_text(key, "channel") {
                        ms.channel = Some(version.clone());
                    } else if same_text(key, "subdir") {
                        ms.subdir = Some(version.clone());
                    } else if same_text(key, "namepsace") {
                        ms.namespace = Some(version.clone());
                    }
                },
                _ => {},
            }
            if same_text(key, "build_number") {
                if let CompoundSelector::Single { .. } = cs {
                    ms.build_number = Some(cs.duplicate());
                }
            }
            i += 1;
        }
        proof {
            assert(pairs.take(key_value_pairs.len() as int) =~= pairs);
        }
        ms.key_value_pairs = key_value_pairs;
        ms
    }
}

/// The end of the literal segment of a package pattern that starts at `i`:
/// the next `*`, or the end of the pattern.
pub open spec fn segment_end(p: Seq<char>, i: int) -> int
    decreases p.len() - i,
{
    if 0 <= i < p.len() && p[i] != '*' {
        segment_end(p, i + 1)
    } else {
        i
    }
}

pub proof fn lemma_segment_end(p: Seq<char>, i: int)
    requires
        0 <= i <= p.len(),
    ensures
        i <= segment_end(p, i) <= p.len(),
        segment_end(p, i) < p.len() ==> p[segment_end(p, i)] == '*',
    decreases p.len() - i,
{
    if i < p.len() && p[i] != '*' {
        lemma_segment_end(p, i + 1);
    }
}

/// Whether `seg` occurs in `t` at position `k`.
pub open spec fn occurs_at(t: Seq<char>, k: int, seg: Seq<char>) -> bool {
    0 <= k && k + seg.len() <= t.len() && t.subrange(k, k + seg.len()) == seg
}

/// The first position at or after `from` where `seg` occurs in `t`.
pub open spec fn first_occurrence(t: Seq<char>, from: int, seg: Seq<char>) -> Option<int>
    decreases t.len() + 1 - from,
{
    if from < 0 || from + seg.len() > t.len() {
        None
    } else if occurs_at(t, from, seg) {
        Some(from)
    } else {
        first_occurrence(t, from + 1, seg)
    }
}

/// Whether the pattern `p`, from the segment that starts at `i`, matches the
/// text `t` from `cursor` on. The first segment must start the text and the
/// last must end it; each one between is sought from the cursor on, and the
/// cursor moves past where it is found. A pattern with no `*` must equal the
/// text.
pub open spec fn glob_rest(p: Seq<char>, i: int, t: Seq<char>, cursor: int) -> bool
    decreases p.len() - i,
{
    if !(0 <= i <= p.len()) {
        false
    } else {
        let e = segment_end(p, i);
        let seg = p.subrange(i, e);
        if e >= p.len() {
            if i == 0 {
                t == seg
            } else {
                cursor + seg.len() <= t.len() && t.subrange(t.len() - seg.len(), t.len() as int)
                    == seg
            }
        } else {
            proof {
                lemma_segment_end(p, i);
            }
            if i == 0 {
                occurs_at(t, 0, seg) && glob_rest(p, e + 1, t, seg.len() as int)
            } else {
                match first_occurrence(t, cursor, seg) {
                    Some(k) => glob_rest(p, e + 1, t, k + seg.len()),
                    None => false,
                }
            }
        }
    }
}

/// Whether the package pattern `p` (where `*` stands for any run of
/// characters) matches the name `t`.
pub open spec fn glob_matches(p: Seq<char>, t: Seq<char>) -> bool {
    glob_rest(p, 0, t, 0)
}

fn segment_end_at(p: &Vec<char>, i: usize) -> (r: usize)
    requires
        i <= p.len(),
    ensures
        r == segment_end(p@, i as int),
        i <= r <= p.len(),
{
    let mut e = i;
    while e < p.len() && p[e] != '*'
        invariant
            i <= e <= p.len(),
            segment_end(p@, e as int) == segment_end(p@, i as int),
        decreases p.len() - e,
    {
        e += 1;
    }
    e
}

/// Whether `p[i..e]` occurs in `t` at `k`.
fn occurs(t: &Vec<char>, k: usize, p: &Vec<char>, i: usize, e: usize) -> (r: bool)
    requires
        i <= e <= p.len(),
    ensures
        r == occurs_at(t@, k as int, p@.subrange(i as int, e as int)),
{
    let m = e - i;
    if k > t.len() || t.len() - k < m {
        return false;
    }
    let mut j: usize = 0;
    while j < m
        invariant
            m == e - i,
            i <= e <= p.len(),
            k + m <= t.len(),
            j <= m,
            t@.subrange(k as int, k + j) == p@.subrange(i as int, i + j),
        decreases m - j,
    {
        if t[k + j] != p[i + j] {
            proof {
                assert(t@.subrange(k as int, k + m)[j as int] != p@.subrange(i as int, e as int)[j as int]);
            }
            return false;
        }
        proof {
            assert(t@.subrange(k as int, k + j + 1) =~= t@.subrange(k as int, k + j).push(t@[k + j]));
            assert(p@.subrange(i as int, i + j + 1) =~= p@.subrange(i as int, i + j).push(p@[i + j]));
        }
        j += 1;
    }
    true
}

/// The first position at or after `from` where `p[i..e]` occurs in `t`.
fn find_from(t: &Vec<char>, from: usize, p: &Vec<char>, i: usize, e: usize) -> (r: Option<usize>)
    requires
        i <= e <= p.len(),
    ensures
        r matches Some(k) ==> first_occurrence(t@, from as int, p@.subrange(i as int, e as int))
            == Some(k as int) && k + (e - i) <= t.len(),
        r is None ==> first_occurrence(t@, from as int, p@.subrange(i as int, e as int)) is None,
{
    let ghost seg = p@.subrange(i as int, e as int);
    let m = e - i;
    if from > t.len() {
        return None;
    }
    let mut k = from;
    while t.len() - k >= m
        invariant
            k <= t.len(),
            i <= e <= p.len(),
            m == e - i,
            seg == p@.subrange(i as int, e as int),
            from <= k,
            first_occurrence(t@, k as int, seg) == first_occurrence(t@, from as int, seg),
        decreases t.len() + 1 - k,
    {
        if occurs(t, k, p, i, e) {
            return Some(k);
        }
        if k == t.len() {
            assert(first_occurrence(t@, k + 1, seg) is None);
            return None;
        }
        k += 1;
    }
    None
}

/// Matches a name against a pattern that may hold globs (`*`).
fn is_match_glob_str(glob_str: &str, match_str: &str) -> (r: bool)
    ensures
        r == glob_matches(glob_str@, match_str@),
{
    let p = chars_of(glob_str);
    let t = chars_of(match_str);
    let mut i: usize = 0;
    let mut cursor: usize = 0;
    loop
        invariant
            i <= p.len(),
            cursor <= t.len(),
            p@ == glob_str@,
            t@ == match_str@,
            i == 0 ==> cursor == 0,
            glob_rest(p@, i as int, t@, cursor as int) == glob_matches(p@, t@),
        decreases p.len() - i,
    {
        let e = segment_end_at(&p, i);
        let m = e - i;
        let ghost seg = p@.subrange(i as int, e as int);
        if e >= p.len() {
            if i == 0 {
                let same = t.len() == m && occurs(&t, 0, &p, i, e);
                proof {
                    if same {
                        assert(t@ =~= t@.subrange(0, m as int));
                    }
                    if t@ == seg {
                        assert(t@.subrange(0, m as int) =~= t@);
                    }
                }
                return same;
            } else {
                if t.len() - cursor < m {
                    return false;
                }
                return occurs(&t, t.len() - m, &p, i, e);
            }
        } else if i == 0 {
            if !occurs(&t, 0, &p, i, e) {
                return false;
            }
            cursor = m;
            i = e + 1;
        } else {
            match find_from(&t, cursor, &p, i, e) {
                None => {
                    return false;
                },
                Some(k) => {
                    cursor = k + m;
                    i = e + 1;
                },
            }
        }
    }
}

/// Whether the pattern from position `i` matches the text from position `j`,
/// where `*` stands for any run of characters (none included) and any other
/// character for itself.
pub open spec fn wildcard_match(p: Seq<char>, i: int, t: Seq<char>, j: int) -> bool
    decreases p.len() - i, t.len() - j,
{
    if i < 0 || j < 0 || i >= p.len() {
        i == p.len() && j == t.len()
    } else if p[i] == '*' {
        wildcard_match(p, i + 1, t, j) || (j < t.len() && wildcard_match(p, i, t, j + 1))
    } else {
        j < t.len() && t[j] == p[i] && wildcard_match(p, i + 1, t, j + 1)
    }
}

/// A literal segment matches where the text holds it, and the rest of the
/// pattern matches after it.
proof fn lemma_literal_segment(p: Seq<char>, i: int, t: Seq<char>, j: int)
    requires
        0 <= i <= p.len(),
        0 <= j <= t.len(),
    ensures
        wildcard_match(p, i, t, j) == (occurs_at(t, j, p.subrange(i, segment_end(p, i)))
            && wildcard_match(p, segment_end(p, i), t, j + (segment_end(p, i) - i))),
    decreases p.len() - i,
{
    lemma_segment_end(p, i);
    let e = segment_end(p, i);
    if i < e {
        lemma_segment_end(p, i + 1);
        if j < t.len() {
            lemma_literal_segment(p, i + 1, t, j + 1);
            let seg = p.subrange(i, e);
            let tail = p.subrange(i + 1, e);
            if occurs_at(t, j, seg) {
                assert(t.subrange(j + 1, j + 1 + tail.len()) =~= t.subrange(j, j + seg.len()).drop_first());
                assert(seg.drop_first() =~= tail);
                assert(t[j] == seg[0]);
            }
            if t[j] == p[i] && occurs_at(t, j + 1, tail) {
                assert(t.subrange(j, j + seg.len()) =~= seq![t[j]] + t.subrange(j + 1, j + 1 + tail.len()));
                assert(seg =~= seq![p[i]] + tail);
            }
        } else {
            assert(!occurs_at(t, j, p.subrange(i, e)));
        }
    } else {
        assert(t.subrange(j, j) =~= p.subrange(i, e));
    }
}

/// A `*` matches where the rest of the pattern matches at some position on.
proof fn lemma_star(p: Seq<char>, i: int, t: Seq<char>, j: int)
    requires
        0 <= i < p.len(),
        p[i] == '*',
        0 <= j <= t.len(),
    ensures
        wildcard_match(p, i, t, j) == exists|k: int|
            j <= k <= t.len() && #[trigger] wildcard_match(p, i + 1, t, k),
    decreases t.len() - j,
{
    if wildcard_match(p, i + 1, t, j) {
        assert(j <= j <= t.len() && wildcard_match(p, i + 1, t, j));
    }
    if j < t.len() {
        lemma_star(p, i, t, j + 1);
        if wildcard_match(p, i, t, j) && !wildcard_match(p, i + 1, t, j) {
            let k = choose|k: int| j + 1 <= k <= t.len() && #[trigger] wildcard_match(p, i + 1, t, k);
            assert(j <= k <= t.len() && wildcard_match(p, i + 1, t, k));
        }
        if exists|k: int| j <= k <= t.len() && #[trigger] wildcard_match(p, i + 1, t, k) {
            let k = choose|k: int| j <= k <= t.len() && #[trigger] wildcard_match(p, i + 1, t, k);
            if k > j {
                assert(j + 1 <= k <= t.len() && wildcard_match(p, i + 1, t, k));
            }
        }
    } else {
        if exists|k: int| j <= k <= t.len() && #[trigger] wildcard_match(p, i + 1, t, k) {
            let k = choose|k: int| j <= k <= t.len() && #[trigger] wildcard_match(p, i + 1, t, k);
            assert(k == j);
        }
    }
}

proof fn lemma_first_occurrence(t: Seq<char>, from: int, seg: Seq<char>)
    requires
        0 <= from,
    ensures
        first_occurrence(t, from, seg) matches Some(k) ==> from <= k && occurs_at(t, k, seg) && (
        forall|m: int| from <= m < k ==> !#[trigger] occurs_at(t, m, seg)),
        first_occurrence(t, from, seg) is None ==> forall|m: int|
            from <= m ==> !#[trigger] occurs_at(t, m, seg),
    decreases t.len() + 1 - from,
{
    if from + seg.len() <= t.len() && !occurs_at(t, from, seg) {
        lemma_first_occurrence(t, from + 1, seg);
    }
}

/// From the segment that starts at `i`, just after a `*`, the segment rules
/// answer as the wildcard reading of the `*` and what follows it.
proof fn lemma_glob_rest(p: Seq<char>, i: int, t: Seq<char>, c: int)
    requires
        0 < i <= p.len(),
        p[i - 1] == '*',
        0 <= c <= t.len(),
    ensures
        glob_rest(p, i, t, c) == wildcard_match(p, i - 1, t, c),
    decreases p.len() - i,
{
    lemma_segment_end(p, i);
    let e = segment_end(p, i);
    let seg = p.subrange(i, e);
    let m = e - i;
    lemma_star(p, i - 1, t, c);
    if e >= p.len() {
        if glob_rest(p, i, t, c) {
            let k = t.len() - m;
            lemma_literal_segment(p, i, t, k);
            assert(t.subrange(k, k + seg.len()) == seg);
            assert(wildcard_match(p, i, t, k));
        }
        if wildcard_match(p, i - 1, t, c) {
            let k = choose|k: int| c <= k <= t.len() && #[trigger] wildcard_match(p, i, t, k);
            lemma_literal_segment(p, i, t, k);
        }
    } else {
        lemma_first_occurrence(t, c, seg);
        match first_occurrence(t, c, seg) {
            Some(k0) => {
                lemma_glob_rest(p, e + 1, t, k0 + m);
                lemma_literal_segment(p, i, t, k0);
                if wildcard_match(p, i - 1, t, c) {
                    let k = choose|k: int| c <= k <= t.len() && #[trigger] wildcard_match(p, i, t, k);
                    lemma_literal_segment(p, i, t, k);
                    assert(occurs_at(t, k, seg));
                    assert(k0 <= k);
                    lemma_star(p, e, t, k + m);
                    lemma_star(p, e, t, k0 + m);
                    let k2 = choose|k2: int| k + m <= k2 <= t.len() && #[trigger] wildcard_match(p, e + 1, t, k2);
                    assert(k0 + m <= k2 <= t.len() && wildcard_match(p, e + 1, t, k2));
                }
            },
            None => {
                if wildcard_match(p, i - 1, t, c) {
                    let k = choose|k: int| c <= k <= t.len() && #[trigger] wildcard_match(p, i, t, k);
                    lemma_literal_segment(p, i, t, k);
                    assert(occurs_at(t, k, seg));
                }
            },
        }
    }
}

/// The package pattern rules are those of wildcards: `*` stands for any run
/// of characters, none included, and any other character for itself, so a
/// pattern without `*` matches only itself.
pub proof fn lemma_glob_is_wildcard(p: Seq<char>, t: Seq<char>)
    ensures
        glob_matches(p, t) == wildcard_match(p, 0, t, 0),
{
    lemma_segment_end(p, 0);
    let e = segment_end(p, 0);
    let seg = p.subrange(0, e);
    lemma_literal_segment(p, 0, t, 0);
    if e >= p.len() {
        if t == seg {
            assert(t.subrange(0, seg.len() as int) =~= seg);
        }
        if occurs_at(t, 0, seg) && wildcard_match(p, e, t, e) {
            assert(t =~= t.subrange(0, seg.len() as int));
        }
    } else {
        if occurs_at(t, 0, seg) {
            lemma_glob_rest(p, e + 1, t, seg.len() as int);
        }
    }
}

impl MatchSpecModel {
    /// Whether a package name meets this spec: it holds only letters, digits,
    /// `-` and `_`, and the package pattern matches it.
    pub open spec fn admits_package(self, name: Seq<char>) -> bool {
        (forall|k: int| 0 <= k < name.len() ==> dashed_alnum(#[trigger] name[k]))
            && wildcard_match(self.package, 0, name, 0)
    }

    /// Whether a version meets this spec: always where it has no version constraint.
    pub open spec fn admits_version(self, version: Seq<char>) -> bool {
        match self.version {
            Some(c) => c.admits(version),
            None => true,
        }
    }

    /// Whether a build number meets this spec: always where either side has none.
    pub open spec fn admits_build_number(self, build_number: Option<u32>) -> bool {
        match (build_number, self.build_number) {
            (Some(n), Some(c)) => c.admits(decimal(n as nat)),
            _ => true,
        }
    }

    /// Whether a package record meets this spec: its name and version (an
    /// absent version reads as empty), its build number, and its subdir and
    /// build where this spec sets them. Channel and namespace are not checked.
    pub open spec fn admits(self, c: CandidateModel) -> bool {
        &&& self.admits_package(c.name)
        &&& self.admits_version(
            match c.version {
                Some(v) => v,
                None => Seq::empty(),
            },
        )
        &&& self.admits_build_number(c.build_number)
        &&& (self.subdir is None || self.subdir == c.subdir)
        &&& (self.build is None || self.build == c.build)
    }
}

fn all_dashed_alnum(name: &str) -> (r: bool)
    ensures
        r == forall|k: int| 0 <= k < name@.len() ==> dashed_alnum(#[trigger] name@[k]),
{
    let v = chars_of(name);
    let mut k: usize = 0;
    while k < v.len()
        invariant
            v@ == name@,
            k <= v.len(),
            forall|j: int| 0 <= j < k ==> dashed_alnum(#[trigger] name@[j]),
        decreases v.len() - k,
    {
        if !is_alphanumeric_with_dashes(v[k]) {
            return false;
        }
        k += 1;
    }
    true
}

fn unset_or_same(a: &Option<String>, b: &Option<String>) -> (r: bool)
    ensures
        r == (a is None || text_of(*a) == text_of(*b)),
{
    match a {
        None => true,
        Some(_) => same_optional_text(a, b),
    }
}

impl MatchSpec {
    /// Matches a package name against the package pattern, which may hold globs.
    pub fn is_package_match(&self, package: String) -> (r: bool)
        ensures
            r == self@.admits_package(package@),
    {
        proof {
            lemma_glob_is_wildcard(self.package@, package@);
        }
        all_dashed_alnum(package.as_str()) && is_match_glob_str(self.package.as_str(), package.as_str())
    }

    /// Matches a version against the version constraint, if there is one.
    pub fn is_version_match(&self, version: &str) -> (r: bool)
        ensures
            r == self@.admits_version(version@),
    {
        match &self.version {
            Some(v) => v.is_match(version),
            None => true,
        }
    }

    /// Matches a package name and a version.
    pub fn is_package_version_match(&self, package: &str, version: &str) -> (r: bool)
        ensures
            r == (self@.admits_package(package@) && self@.admits_version(version@)),
    {
        proof {
            lemma_glob_is_wildcard(self.package@, package@);
        }
        all_dashed_alnum(package) && is_match_glob_str(self.package.as_str(), package)
            && self.is_version_match(version)
    }

    /// Matches a build number, written in decimal, against the build number
    /// constraint.
    pub fn is_build_number_match(&self, build_number: &Option<u32>) -> (r: bool)
        ensures
            r == self@.admits_build_number(*build_number),
    {
        match build_number {
            Some(number) => match &self.build_number {
                Some(c) => {
                    let digits = decimal_string(*number);
                    c.is_match(digits.as_str())
                },
                None => true,
            },
            None => true,
        }
    }

    /// Matches a whole package record.
    pub fn is_match(&self, pc: &PackageCandidate) -> (r: bool)
        ensures
            r == self@.admits(pc@),
    {
        let empty = String::new();
        let version = match &pc.version {
            Some(v) => v,
            None => &empty,
        };
        self.is_package_version_match(pc.name.as_str(), version.as_str())
            && self.is_build_number_match(&pc.build_number) && unset_or_same(
            &self.subdir,
            &pc.subdir,
        ) && unset_or_same(&self.build, &pc.build)
    }
}

} // verus!
