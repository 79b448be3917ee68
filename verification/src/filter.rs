//! Wallpaper filters. A rule tests one property of a wallpaper; rules of one
//! group must all hold, and pairs of groups are joined as asked.

use crate::seqs;
use crate::text::{self, to_ascii_lowercase};
use vstd::prelude::*;

verus! {

broadcast use seqs::group_views;

/// Property that a rule speaks of.
#[derive(Debug, Clone, Copy, PartialEq, Eq, Structural)]
pub enum WallpaperFilterType {
    Unspecified,
    Name,
    WpType,
    Library,
    Format,
    Width,
    Height,
    Size,
    Aspect,
}

#[derive(Debug, Clone, Copy, PartialEq, Eq, Structural)]
pub enum StringCondition {
    Unspecified,
    Is,
    IsNot,
    Contains,
    ContainsNot,
}

#[derive(Debug, Clone, Copy, PartialEq, Eq, Structural)]
pub enum IntCondition {
    Unspecified,
    Equal,
    EqualNot,
    Less,
    LessEqual,
    Greater,
    GreaterEqual,
}

#[derive(Debug, Clone, Copy, PartialEq, Eq, Structural)]
pub enum TypeCondition {
    Unspecified,
    Is,
    IsNot,
}

#[derive(Debug, Clone, Copy, PartialEq, Eq, Structural)]
pub enum WallpaperAspect {
    Unspecified,
    Landscape,
    Portrait,
    Square,
}

#[derive(Debug, Clone, Copy, PartialEq, Eq, Structural)]
pub enum LogicOp {
    And,
    Or,
}

/// What a rule compares with.
#[allow(inconsistent_fields)]
#[derive(Debug)]
pub enum Payload {
    StringFilter { value: String, condition: StringCondition },
    IntFilter { value: i64, condition: IntCondition },
    AspectFilter { value: WallpaperAspect, condition: TypeCondition },
}

#[derive(Debug)]
pub struct WallpaperFilterRule {
    pub ty: WallpaperFilterType,
    pub group: i32,
    pub payload: Option<Payload>,
}

/// How two groups are joined.
#[derive(Debug, Clone, Copy, PartialEq, Eq, Structural)]
pub struct FilterLogic {
    pub op: LogicOp,
    pub group_a: i32,
    pub group_b: i32,
}

/// Column of a wallpaper, or of the library it lies in.
#[derive(Debug, Clone, Copy, PartialEq, Eq, Structural)]
pub enum Col {
    DisplayName,
    Ty,
    LibraryPath,
    Format,
    Width,
    Height,
    Size,
}

#[derive(Debug, Clone, Copy, PartialEq, Eq, Structural)]
pub enum Relation {
    Equal,
    NotEqual,
    Less,
    LessEqual,
    Greater,
    GreaterEqual,
}

/// One test of a column. A test of a missing value fails, but for `Missing`.
#[derive(Debug)]
pub enum Test {
    /// The text matches the pattern, in which `%` stands for anything.
    Like(Col, String),
    NotLike(Col, String),
    Is(Col, String),
    IsNot(Col, String),
    Missing(Col),
    Present(Col),
    Number(Col, Relation, i64),
    Against(Col, Relation, Col),
}

#[verifier::ext_equal]
pub enum TestView {
    Like(Col, Seq<char>),
    NotLike(Col, Seq<char>),
    Is(Col, Seq<char>),
    IsNot(Col, Seq<char>),
    Missing(Col),
    Present(Col),
    Number(Col, Relation, i64),
    Against(Col, Relation, Col),
}

impl View for Test {
    type V = TestView;

    open spec fn view(&self) -> TestView {
        match self {
            Test::Like(c, s) => TestView::Like(*c, s@),
            Test::NotLike(c, s) => TestView::NotLike(*c, s@),
            Test::Is(c, s) => TestView::Is(*c, s@),
            Test::IsNot(c, s) => TestView::IsNot(*c, s@),
            Test::Missing(c) => TestView::Missing(*c),
            Test::Present(c) => TestView::Present(*c),
            Test::Number(c, r, n) => TestView::Number(*c, *r, *n),
            Test::Against(c, r, d) => TestView::Against(*c, *r, *d),
        }
    }
}

/// Tests of which one must hold, or all.
#[derive(Debug)]
pub struct Clause {
    pub any: bool,
    pub tests: Vec<Test>,
}

#[verifier::ext_equal]
pub struct ClauseView {
    pub any: bool,
    pub tests: Seq<TestView>,
}

impl View for Clause {
    type V = ClauseView;

    open spec fn view(&self) -> ClauseView {
        ClauseView { any: self.any, tests: seqs::views(self.tests@) }
    }
}

/// Two groups of which one must hold, or both.
#[derive(Debug)]
pub struct Pair {
    pub any: bool,
    pub a: Vec<Clause>,
    pub b: Vec<Clause>,
}

#[verifier::ext_equal]
pub struct PairView {
    pub any: bool,
    pub a: Seq<ClauseView>,
    pub b: Seq<ClauseView>,
}

impl View for Pair {
    type V = PairView;

    open spec fn view(&self) -> PairView {
        PairView { any: self.any, a: seqs::views(self.a@), b: seqs::views(self.b@) }
    }
}

/// Clauses of one group, all of which must hold.
#[derive(Debug)]
pub struct Group {
    pub group: i32,
    pub clauses: Vec<Clause>,
}

#[verifier::ext_equal]
pub struct GroupView {
    pub group: i32,
    pub clauses: Seq<ClauseView>,
}

impl View for Group {
    type V = GroupView;

    open spec fn view(&self) -> GroupView {
        GroupView { group: self.group, clauses: seqs::views(self.clauses@) }
    }
}

/// A whole filter: every pair and every remaining group must hold.
#[derive(Debug)]
pub struct Condition {
    pub pairs: Vec<Pair>,
    pub rest: Vec<Group>,
}

#[verifier::ext_equal]
pub struct ConditionView {
    pub pairs: Seq<PairView>,
    pub rest: Seq<GroupView>,
}

impl View for Condition {
    type V = ConditionView;

    open spec fn view(&self) -> ConditionView {
        ConditionView { pairs: seqs::views(self.pairs@), rest: seqs::views(self.rest@) }
    }
}

// ---------------------------------------------------------------------------
// One rule
// ---------------------------------------------------------------------------

pub open spec fn all_of(tests: Seq<TestView>) -> Option<ClauseView> {
    Some(ClauseView { any: false, tests })
}

pub open spec fn any_of(tests: Seq<TestView>) -> Option<ClauseView> {
    Some(ClauseView { any: true, tests })
}

/// Pattern of all texts that hold the value.
pub open spec fn pattern(value: Seq<char>) -> Seq<char> {
    "%"@ + value + "%"@
}

/// A text rule. Where a missing value counts as different, a negative rule
/// takes it too.
pub open spec fn text_clause(
    col: Col,
    cond: StringCondition,
    value: Seq<char>,
    null_matches_negative: bool,
) -> Option<ClauseView> {
    match cond {
        StringCondition::Unspecified => None,
        StringCondition::Contains => all_of(seq![TestView::Like(col, pattern(value))]),
        StringCondition::Is => all_of(seq![TestView::Is(col, value)]),
        StringCondition::ContainsNot => if null_matches_negative {
            any_of(seq![TestView::Missing(col), TestView::NotLike(col, pattern(value))])
        } else {
            all_of(seq![TestView::NotLike(col, pattern(value))])
        },
        StringCondition::IsNot => if null_matches_negative {
            any_of(seq![TestView::Missing(col), TestView::IsNot(col, value)])
        } else {
            all_of(seq![TestView::IsNot(col, value)])
        },
    }
}

pub open spec fn relation_of(cond: IntCondition) -> Option<Relation> {
    match cond {
        IntCondition::Unspecified => None,
        IntCondition::Equal => Some(Relation::Equal),
        IntCondition::EqualNot => Some(Relation::NotEqual),
        IntCondition::Less => Some(Relation::Less),
        IntCondition::LessEqual => Some(Relation::LessEqual),
        IntCondition::Greater => Some(Relation::Greater),
        IntCondition::GreaterEqual => Some(Relation::GreaterEqual),
    }
}

pub open spec fn number_clause(col: Col, cond: IntCondition, value: i64) -> Option<ClauseView> {
    match relation_of(cond) {
        Some(r) => all_of(seq![TestView::Number(col, r, value)]),
        None => None,
    }
}

/// How width relates to height in an aspect.
pub open spec fn aspect_relation(aspect: WallpaperAspect) -> Option<Relation> {
    match aspect {
        WallpaperAspect::Unspecified => None,
        WallpaperAspect::Landscape => Some(Relation::Greater),
        WallpaperAspect::Portrait => Some(Relation::Less),
        WallpaperAspect::Square => Some(Relation::Equal),
    }
}

pub open spec fn opposite(r: Relation) -> Relation {
    match r {
        Relation::Equal => Relation::NotEqual,
        Relation::NotEqual => Relation::Equal,
        Relation::Less => Relation::GreaterEqual,
        Relation::LessEqual => Relation::Greater,
        Relation::Greater => Relation::LessEqual,
        Relation::GreaterEqual => Relation::Less,
    }
}

pub open spec fn aspect_clause(aspect: WallpaperAspect, cond: TypeCondition) -> Option<ClauseView> {
    match (cond, aspect_relation(aspect)) {
        (TypeCondition::Is, Some(r)) => all_of(
            seq![
                TestView::Present(Col::Width),
                TestView::Present(Col::Height),
                TestView::Against(Col::Width, r, Col::Height),
            ],
        ),
        (TypeCondition::IsNot, Some(r)) => any_of(
            seq![
                TestView::Missing(Col::Width),
                TestView::Missing(Col::Height),
                TestView::Against(Col::Width, opposite(r), Col::Height),
            ],
        ),
        _ => None,
    }
}

/// What a rule asks for; nothing where it is incomplete.
pub open spec fn rule_clause(f: WallpaperFilterRule) -> Option<ClauseView> {
    match (f.ty, f.payload) {
        (WallpaperFilterType::Name, Some(Payload::StringFilter { value, condition })) =>
            text_clause(Col::DisplayName, condition, value@, false),
        (WallpaperFilterType::WpType, Some(Payload::StringFilter { value, condition })) =>
            text_clause(Col::Ty, condition, text::lower_text(value@), false),
        (WallpaperFilterType::Library, Some(Payload::StringFilter { value, condition })) =>
            text_clause(Col::LibraryPath, condition, value@, false),
        (WallpaperFilterType::Format, Some(Payload::StringFilter { value, condition })) =>
            text_clause(Col::Format, condition, value@, true),
        (WallpaperFilterType::Width, Some(Payload::IntFilter { value, condition })) =>
            number_clause(Col::Width, condition, value),
        (WallpaperFilterType::Height, Some(Payload::IntFilter { value, condition })) =>
            number_clause(Col::Height, condition, value),
        (WallpaperFilterType::Size, Some(Payload::IntFilter { value, condition })) =>
            number_clause(Col::Size, condition, value),
        (WallpaperFilterType::Aspect, Some(Payload::AspectFilter { value, condition })) =>
            aspect_clause(value, condition),
        _ => None,
    }
}

pub open spec fn opt_clause(c: Option<Clause>) -> Option<ClauseView> {
    match c {
        Some(c) => Some(c@),
        None => None,
    }
}

fn one_test(t: Test) -> (c: Clause)
    ensures
        c@ == (ClauseView { any: false, tests: seq![t@] }),
{
    let mut tests: Vec<Test> = Vec::new();
    tests.push(t);
    assert(seqs::views(tests@) =~= seq![t@]);
    Clause { any: false, tests }
}

fn missing_or(col: Col, t: Test) -> (c: Clause)
    ensures
        c@ == (ClauseView { any: true, tests: seq![TestView::Missing(col), t@] }),
{
    let mut tests: Vec<Test> = Vec::new();
    tests.push(Test::Missing(col));
    tests.push(t);
    assert(seqs::views(tests@) =~= seq![TestView::Missing(col), t@]);
    Clause { any: true, tests }
}

fn pattern_for(value: &str) -> (s: String)
    ensures
        s@ == pattern(value@),
{
    let mut s = "%".to_owned();
    s.append(value);
    s.append("%");
    s
}

fn string_condition_to_condition(
    col: Col,
    cond: StringCondition,
    value: &str,
    null_matches_negative: bool,
) -> (r: Option<Clause>)
    ensures
        opt_clause(r) == text_clause(col, cond, value@, null_matches_negative),
{
    match cond {
        StringCondition::Contains => Some(one_test(Test::Like(col, pattern_for(value)))),
        StringCondition::ContainsNot => {
            let t = Test::NotLike(col, pattern_for(value));
            if null_matches_negative {
                Some(missing_or(col, t))
            } else {
                Some(one_test(t))
            }
        },
        StringCondition::Is => Some(one_test(Test::Is(col, value.to_owned()))),
        StringCondition::IsNot => {
            let t = Test::IsNot(col, value.to_owned());
            if null_matches_negative {
                Some(missing_or(col, t))
            } else {
                Some(one_test(t))
            }
        },
        StringCondition::Unspecified => None,
    }
}

fn int_condition_to_condition(col: Col, cond: IntCondition, value: i64) -> (r: Option<Clause>)
    ensures
        opt_clause(r) == number_clause(col, cond, value),
{
    let relation = match cond {
        IntCondition::Equal => Relation::Equal,
        IntCondition::EqualNot => Relation::NotEqual,
        IntCondition::Less => Relation::Less,
        IntCondition::LessEqual => Relation::LessEqual,
        IntCondition::Greater => Relation::Greater,
        IntCondition::GreaterEqual => Relation::GreaterEqual,
        IntCondition::Unspecified => {
            return None;
        },
    };
    Some(one_test(Test::Number(col, relation, value)))
}

fn aspect_condition_to_condition(aspect: WallpaperAspect, cond: TypeCondition) -> (r: Option<
    Clause,
>)
    ensures
        opt_clause(r) == aspect_clause(aspect, cond),
{
    let (relation, negated) = match aspect {
        WallpaperAspect::Landscape => (Relation::Greater, Relation::LessEqual),
        WallpaperAspect::Portrait => (Relation::Less, Relation::GreaterEqual),
        WallpaperAspect::Square => (Relation::Equal, Relation::NotEqual),
        WallpaperAspect::Unspecified => {
            return None;
        },
    };
    let mut tests: Vec<Test> = Vec::new();
    match cond {
        TypeCondition::Is => {
            tests.push(Test::Present(Col::Width));
            tests.push(Test::Present(Col::Height));
            tests.push(Test::Against(Col::Width, relation, Col::Height));
            assert(seqs::views(tests@) =~= seq![
                TestView::Present(Col::Width),
                TestView::Present(Col::Height),
                TestView::Against(Col::Width, relation, Col::Height),
            ]);
            Some(Clause { any: false, tests })
        },
        TypeCondition::IsNot => {
            tests.push(Test::Missing(Col::Width));
            tests.push(Test::Missing(Col::Height));
            tests.push(Test::Against(Col::Width, negated, Col::Height));
            assert(seqs::views(tests@) =~= seq![
                TestView::Missing(Col::Width),
                TestView::Missing(Col::Height),
                TestView::Against(Col::Width, negated, Col::Height),
            ]);
            Some(Clause { any: true, tests })
        },
        TypeCondition::Unspecified => None,
    }
}

/// What a rule asks for; nothing where it is incomplete.
pub fn wallpaper_filter_to_condition(filter: &WallpaperFilterRule) -> (r: Option<Clause>)
    ensures
        opt_clause(r) == rule_clause(*filter),
{
    match (filter.ty, &filter.payload) {
        (WallpaperFilterType::Name, Some(Payload::StringFilter { value, condition })) =>
            string_condition_to_condition(Col::DisplayName, *condition, value.as_str(), false),
        (WallpaperFilterType::WpType, Some(Payload::StringFilter { value, condition })) => {
            let lower = to_ascii_lowercase(value.as_str());
            string_condition_to_condition(Col::Ty, *condition, lower.as_str(), false)
        },
        (WallpaperFilterType::Library, Some(Payload::StringFilter { value, condition })) =>
            string_condition_to_condition(Col::LibraryPath, *condition, value.as_str(), false),
        (WallpaperFilterType::Format, Some(Payload::StringFilter { value, condition })) =>
            string_condition_to_condition(Col::Format, *condition, value.as_str(), true),
        (WallpaperFilterType::Width, Some(Payload::IntFilter { value, condition })) =>
            int_condition_to_condition(Col::Width, *condition, *value),
        (WallpaperFilterType::Height, Some(Payload::IntFilter { value, condition })) =>
            int_condition_to_condition(Col::Height, *condition, *value),
        (WallpaperFilterType::Size, Some(Payload::IntFilter { value, condition })) =>
            int_condition_to_condition(Col::Size, *condition, *value),
        (WallpaperFilterType::Aspect, Some(Payload::AspectFilter { value, condition })) =>
            aspect_condition_to_condition(*value, *condition),
        _ => None,
    }
}

// ---------------------------------------------------------------------------
// Copies
// ---------------------------------------------------------------------------

fn copy_test(t: &Test) -> (r: Test)
    ensures
        r@ == t@,
{
    match t {
        Test::Like(c, s) => Test::Like(*c, s.clone()),
        Test::NotLike(c, s) => Test::NotLike(*c, s.clone()),
        Test::Is(c, s) => Test::Is(*c, s.clone()),
        Test::IsNot(c, s) => Test::IsNot(*c, s.clone()),
        Test::Missing(c) => Test::Missing(*c),
        Test::Present(c) => Test::Present(*c),
        Test::Number(c, r, n) => Test::Number(*c, *r, *n),
        Test::Against(c, r, d) => Test::Against(*c, *r, *d),
    }
}

fn copy_clause(c: &Clause) -> (r: Clause)
    ensures
        r@ == c@,
{
    let mut tests: Vec<Test> = Vec::new();
    let mut i: usize = 0;
    while i < c.tests.len()
        invariant
            i <= c.tests@.len(),
            seqs::views(tests@) == c@.tests.take(i as int),
        decreases c.tests.len() - i,
    {
        tests.push(copy_test(&c.tests[i]));
        i = i + 1;
        assert(seqs::views(tests@) =~= c@.tests.take(i as int));
    }
    assert(c@.tests.take(i as int) =~= c@.tests);
    Clause { any: c.any, tests }
}

// ---------------------------------------------------------------------------
// Groups
// ---------------------------------------------------------------------------

/// Clauses of a group among the first `n` rules, in order.
pub open spec fn group_clauses(rules: Seq<(i32, Option<ClauseView>)>, group: i32, n: int) -> Seq<
    ClauseView,
>
    decreases n,
{
    if n <= 0 {
        Seq::empty()
    } else {
        let rest = group_clauses(rules, group, n - 1);
        match rules[n - 1].1 {
            Some(c) => if rules[n - 1].0 == group {
                rest.push(c)
            } else {
                rest
            },
            None => rest,
        }
    }
}

pub open spec fn clauses_of(rules: Seq<(i32, Option<ClauseView>)>, group: i32) -> Seq<ClauseView> {
    group_clauses(rules, group, rules.len() as int)
}

/// Both groups of the pair have clauses.
pub open spec fn effective(rules: Seq<(i32, Option<ClauseView>)>, l: FilterLogic) -> bool {
    clauses_of(rules, l.group_a).len() > 0 && clauses_of(rules, l.group_b).len() > 0
}

/// The first `n` asked-for pairs that have both groups.
pub open spec fn joined(
    rules: Seq<(i32, Option<ClauseView>)>,
    logics: Seq<FilterLogic>,
    n: int,
) -> Seq<PairView>
    decreases n,
{
    if n <= 0 {
        Seq::empty()
    } else {
        let l = logics[n - 1];
        let rest = joined(rules, logics, n - 1);
        if effective(rules, l) {
            rest.push(
                PairView {
                    any: l.op == LogicOp::Or,
                    a: clauses_of(rules, l.group_a),
                    b: clauses_of(rules, l.group_b),
                },
            )
        } else {
            rest
        }
    }
}

/// Some pair that has both groups names the group.
pub open spec fn referenced(
    rules: Seq<(i32, Option<ClauseView>)>,
    logics: Seq<FilterLogic>,
    group: i32,
) -> bool {
    exists|i: int|
        0 <= i < logics.len() && effective(rules, #[trigger] logics[i]) && (logics[i].group_a
            == group || logics[i].group_b == group)
}

/// The condition that rules and pairs of groups make.
pub open spec fn is_grouping(
    c: ConditionView,
    rules: Seq<(i32, Option<ClauseView>)>,
    logics: Seq<FilterLogic>,
) -> bool {
    &&& c.pairs == joined(rules, logics, logics.len() as int)
    &&& forall|i: int, j: int|
        0 <= i < j < c.rest.len() ==> (#[trigger] c.rest[i]).group < (#[trigger] c.rest[j]).group
    &&& forall|i: int|
        0 <= i < c.rest.len() ==> {
            &&& (#[trigger] c.rest[i]).clauses == clauses_of(rules, c.rest[i].group)
            &&& c.rest[i].clauses.len() > 0
            &&& !referenced(rules, logics, c.rest[i].group)
        }
    &&& forall|g: i32|
        (#[trigger] clauses_of(rules, g)).len() > 0 && !referenced(rules, logics, g) ==> exists|
            i: int,
        | 0 <= i < c.rest.len() && (#[trigger] c.rest[i]).group == g
}

/// What the rules ask for, one by one.
pub open spec fn clause_views(rules: Seq<(i32, Option<Clause>)>) -> Seq<(i32, Option<ClauseView>)> {
    Seq::new(rules.len(), |i: int| (rules[i].0, opt_clause(rules[i].1)))
}

fn collect_group(rules: &Vec<(i32, Option<Clause>)>, group: i32) -> (out: Vec<Clause>)
    ensures
        seqs::views(out@) == clauses_of(clause_views(rules@), group),
{
    let mut out: Vec<Clause> = Vec::new();
    let mut i: usize = 0;
    while i < rules.len()
        invariant
            i <= rules@.len(),
            seqs::views(out@) == group_clauses(clause_views(rules@), group, i as int),
        decreases rules.len() - i,
    {
        if rules[i].0 == group {
            if let Some(c) = &rules[i].1 {
                out.push(copy_clause(c));
            }
        }
        i = i + 1;
    }
    out
}

fn is_referenced(rules: &Vec<(i32, Option<Clause>)>, logics: &Vec<FilterLogic>, group: i32) -> (r:
    bool)
    ensures
        r == referenced(clause_views(rules@), logics@, group),
{
    let mut i: usize = 0;
    while i < logics.len()
        invariant
            i <= logics@.len(),
            forall|j: int|
                0 <= j < i ==> !(effective(clause_views(rules@), #[trigger] logics@[j]) && (logics@[j].group_a
                    == group || logics@[j].group_b == group)),
        decreases logics.len() - i,
    {
        let l = logics[i];
        if l.group_a == group || l.group_b == group {
            if collect_group(rules, l.group_a).len() > 0 && collect_group(rules, l.group_b).len()
                > 0 {
                assert(effective(clause_views(rules@), logics@[i as int]));
                return true;
            }
        }
        i = i + 1;
    }
    false
}

/// Some of the first `n` rules of the group asks for something.
spec fn has_rule(rules: Seq<(i32, Option<Clause>)>, group: i32, n: int) -> bool {
    exists|i: int| 0 <= i < n && (#[trigger] rules[i]).0 == group && rules[i].1 is Some
}

proof fn lemma_has_rule(rules: Seq<(i32, Option<Clause>)>, group: i32, n: int)
    requires
        0 < n <= rules.len(),
    ensures
        has_rule(rules, group, n) <==> has_rule(rules, group, n - 1) || (rules[n - 1].0 == group
            && rules[n - 1].1 is Some),
{
    if has_rule(rules, group, n - 1) {
        let i = choose|i: int|
            0 <= i < n - 1 && (#[trigger] rules[i]).0 == group && rules[i].1 is Some;
        assert(rules[i].0 == group);
    }
}

proof fn lemma_group_has(rules: Seq<(i32, Option<Clause>)>, group: i32, n: int)
    requires
        0 <= n <= rules.len(),
    ensures
        group_clauses(clause_views(rules), group, n).len() > 0 <==> has_rule(rules, group, n),
    decreases n,
{
    if n > 0 {
        lemma_group_has(rules, group, n - 1);
        lemma_has_rule(rules, group, n);
    }
}

/// The groups found so far, in ascending order.
fn insert_group(groups: &mut Vec<i32>, g: i32)
    requires
        forall|i: int, j: int|
            0 <= i < j < old(groups)@.len() ==> #[trigger] old(groups)@[i] < #[trigger] old(
                groups,
            )@[j],
    ensures
        forall|i: int, j: int|
            0 <= i < j < final(groups)@.len() ==> #[trigger] final(groups)@[i] < #[trigger] final(groups)@[j],
        forall|x: i32| #[trigger]
            final(groups)@.contains(x) <==> old(groups)@.contains(x) || x == g,
{
    let ghost before = groups@;
    let mut i: usize = 0;
    while i < groups.len() && groups[i] < g
        invariant
            i <= groups@.len(),
            groups@ == before,
            forall|j: int| 0 <= j < i ==> groups@[j] < g,
        decreases groups.len() - i,
    {
        i = i + 1;
    }
    if i < groups.len() && groups[i] == g {
        assert(groups@[i as int] == g);
        return;
    }
    groups.insert(i, g);
    proof {
        assert(groups@ =~= before.insert(i as int, g));
        assert forall|x: i32| #[trigger] groups@.contains(x) <==> before.contains(x) || x == g by {
            if before.contains(x) {
                let k = choose|k: int| 0 <= k < before.len() && before[k] == x;
                if k < i {
                    assert(groups@[k] == x);
                } else {
                    assert(groups@[k + 1] == x);
                }
            }
            assert(groups@[i as int] == g);
            if groups@.contains(x) && x != g {
                let k = choose|k: int| 0 <= k < groups@.len() && groups@[k] == x;
                if k < i {
                    assert(before[k] == x);
                } else {
                    assert(before[k - 1] == x);
                }
            }
        }
    }
}

/// Of the first `n` groups, those that no pair names.
spec fn unjoined(
    rules: Seq<(i32, Option<ClauseView>)>,
    logics: Seq<FilterLogic>,
    groups: Seq<i32>,
    n: int,
) -> Seq<GroupView>
    decreases n,
{
    if n <= 0 {
        Seq::empty()
    } else {
        let rest = unjoined(rules, logics, groups, n - 1);
        if referenced(rules, logics, groups[n - 1]) {
            rest
        } else {
            rest.push(
                GroupView { group: groups[n - 1], clauses: clauses_of(rules, groups[n - 1]) },
            )
        }
    }
}

proof fn lemma_unjoined(
    rules: Seq<(i32, Option<ClauseView>)>,
    logics: Seq<FilterLogic>,
    groups: Seq<i32>,
    n: int,
)
    requires
        0 <= n <= groups.len(),
        forall|i: int, j: int|
            0 <= i < j < groups.len() ==> #[trigger] groups[i] < #[trigger] groups[j],
    ensures
        ({
            let rest = unjoined(rules, logics, groups, n);
            &&& forall|i: int, j: int|
                0 <= i < j < rest.len() ==> (#[trigger] rest[i]).group < (#[trigger] rest[j]).group
            &&& forall|i: int|
                0 <= i < rest.len() ==> {
                    &&& (#[trigger] rest[i]).clauses == clauses_of(rules, rest[i].group)
                    &&& !referenced(rules, logics, rest[i].group)
                    &&& exists|m: int| 0 <= m < n && #[trigger] groups[m] == rest[i].group
                }
            &&& forall|m: int|
                0 <= m < n && !referenced(rules, logics, #[trigger] groups[m]) ==> exists|i: int|
                    0 <= i < rest.len() && (#[trigger] rest[i]).group == groups[m]
        }),
    decreases n,
{
    if n > 0 {
        lemma_unjoined(rules, logics, groups, n - 1);
        let before = unjoined(rules, logics, groups, n - 1);
        let rest = unjoined(rules, logics, groups, n);
        assert forall|i: int, j: int| 0 <= i < j < rest.len() implies (#[trigger] rest[i]).group < (
        #[trigger] rest[j]).group by {
            assert(rest[i] == before[i]);
            if j == before.len() {
                let m = choose|m: int| 0 <= m < n - 1 && #[trigger] groups[m] == before[i].group;
                assert(groups[m] < groups[n - 1]);
            } else {
                assert(rest[j] == before[j]);
            }
        }
        assert forall|i: int| 0 <= i < rest.len() implies {
            &&& (#[trigger] rest[i]).clauses == clauses_of(rules, rest[i].group)
            &&& !referenced(rules, logics, rest[i].group)
            &&& exists|m: int| 0 <= m < n && #[trigger] groups[m] == rest[i].group
        } by {
            if i < before.len() {
                let m = choose|m: int| 0 <= m < n - 1 && #[trigger] groups[m] == before[i].group;
                assert(groups[m] == rest[i].group);
            } else {
                assert(groups[n - 1] == rest[i].group);
            }
        }
        assert forall|m: int|
            0 <= m < n && !referenced(rules, logics, #[trigger] groups[m]) implies exists|i: int|
            0 <= i < rest.len() && (#[trigger] rest[i]).group == groups[m] by {
            if m < n - 1 {
                let i = choose|i: int|
                    0 <= i < before.len() && (#[trigger] before[i]).group == groups[m];
                assert(rest[i].group == groups[m]);
            } else {
                assert(rest[before.len() as int].group == groups[m]);
            }
        }
    }
}

proof fn lemma_grouping(
    rules: Seq<(i32, Option<ClauseView>)>,
    logics: Seq<FilterLogic>,
    groups: Seq<i32>,
    c: ConditionView,
)
    requires
        forall|i: int, j: int|
            0 <= i < j < groups.len() ==> #[trigger] groups[i] < #[trigger] groups[j],
        forall|g: i32| #[trigger] groups.contains(g) <==> clauses_of(rules, g).len() > 0,
        c.pairs == joined(rules, logics, logics.len() as int),
        c.rest == unjoined(rules, logics, groups, groups.len() as int),
    ensures
        is_grouping(c, rules, logics),
{
    lemma_unjoined(rules, logics, groups, groups.len() as int);
    assert forall|g: i32|
        (#[trigger] clauses_of(rules, g)).len() > 0 && !referenced(rules, logics, g) implies exists|
        a: int,
    | 0 <= a < c.rest.len() && (#[trigger] c.rest[a]).group == g by {
        assert(groups.contains(g));
        let m = choose|m: int| 0 <= m < groups.len() && groups[m] == g;
        assert(!referenced(rules, logics, groups[m]));
    }
    assert forall|a: int| 0 <= a < c.rest.len() implies (#[trigger] c.rest[a]).clauses.len() > 0 by {
        let m = choose|m: int| 0 <= m < groups.len() && #[trigger] groups[m] == c.rest[a].group;
        assert(groups.contains(groups[m]));
    }
}

/// Joins rules into one condition: rules of a group must all hold, groups named
/// by a pair are joined as the pair says, and every group that no pair names
/// must hold. There is none where no rule asks for anything.
pub fn build_grouped_condition(rules: &Vec<(i32, Option<Clause>)>, logics: &Vec<FilterLogic>) -> (r:
    Option<Condition>)
    ensures
        r is None <==> forall|i: int| 0 <= i < rules@.len() ==> (#[trigger] rules@[i]).1 is None,
        r is Some ==> is_grouping(r->0@, clause_views(rules@), logics@),
{
    let mut groups: Vec<i32> = Vec::new();
    let mut i: usize = 0;
    while i < rules.len()
        invariant
            i <= rules@.len(),
            forall|a: int, b: int|
                0 <= a < b < groups@.len() ==> #[trigger] groups@[a] < #[trigger] groups@[b],
            forall|g: i32| #[trigger] groups@.contains(g) <==> has_rule(rules@, g, i as int),
        decreases rules.len() - i,
    {
        if rules[i].1.is_some() {
            insert_group(&mut groups, rules[i].0);
        }
        i = i + 1;
        assert forall|g: i32| #[trigger] groups@.contains(g) <==> has_rule(
            rules@,
            g,
            i as int,
        ) by {
            lemma_has_rule(rules@, g, i as int);
        }
    }
    assert forall|g: i32| #[trigger] groups@.contains(g) <==> clauses_of(clause_views(rules@), g).len() > 0 by {
        lemma_group_has(rules@, g, rules@.len() as int);
    }
    if groups.len() == 0 {
        assert forall|j: int| 0 <= j < rules@.len() implies (#[trigger] rules@[j]).1 is None by {
            if rules@[j].1 is Some {
                assert(has_rule(rules@, rules@[j].0, rules@.len() as int));
                assert(groups@.contains(rules@[j].0));
            }
        }
        return None;
    }
    assert(groups@.contains(groups@[0]));
    let mut pairs: Vec<Pair> = Vec::new();
    let mut k: usize = 0;
    while k < logics.len()
        invariant
            k <= logics@.len(),
            seqs::views(pairs@) == joined(clause_views(rules@), logics@, k as int),
        decreases logics.len() - k,
    {
        let l = logics[k];
        let a = collect_group(rules, l.group_a);
        let b = collect_group(rules, l.group_b);
        if a.len() > 0 && b.len() > 0 {
            let any = match l.op {
                LogicOp::Or => true,
                LogicOp::And => false,
            };
            pairs.push(Pair { any, a, b });
        }
        k = k + 1;
    }
    let mut rest: Vec<Group> = Vec::new();
    let mut n: usize = 0;
    while n < groups.len()
        invariant
            n <= groups@.len(),
            seqs::views(rest@) == unjoined(clause_views(rules@), logics@, groups@, n as int),
        decreases groups.len() - n,
    {
        let g: i32 = groups[n];
        if !is_referenced(rules, logics, g) {
            let clauses = collect_group(rules, g);
            rest.push(Group { group: g, clauses });
        }
        n = n + 1;
    }
    let c = Condition { pairs, rest };
    proof {
        lemma_grouping(clause_views(rules@), logics@, groups@, c@);
    }
    Some(c)
}

/// What the filter rules ask for, one by one.
pub open spec fn rule_clauses(filters: Seq<WallpaperFilterRule>) -> Seq<(i32, Option<ClauseView>)> {
    Seq::new(filters.len(), |i: int| (filters[i].group, rule_clause(filters[i])))
}

/// The condition that a list of rules and pairs of groups make.
pub fn wallpaper_filters_to_condition(
    filters: &Vec<WallpaperFilterRule>,
    logics: &Vec<FilterLogic>,
) -> (r: Option<Condition>)
    ensures
        r is None <==> forall|i: int|
            0 <= i < filters@.len() ==> rule_clause(#[trigger] filters@[i]) is None,
        r is Some ==> is_grouping(r->0@, rule_clauses(filters@), logics@),
{
    let mut rules: Vec<(i32, Option<Clause>)> = Vec::new();
    let mut i: usize = 0;
    while i < filters.len()
        invariant
            i <= filters@.len(),
            rules@.len() == i,
            forall|j: int|
                0 <= j < i ==> (#[trigger] rules@[j]).0 == filters@[j].group && opt_clause(
                    rules@[j].1,
                ) == rule_clause(filters@[j]),
        decreases filters.len() - i,
    {
        let c = wallpaper_filter_to_condition(&filters[i]);
        rules.push((filters[i].group, c));
        i = i + 1;
    }
    assert(clause_views(rules@) =~= rule_clauses(filters@));
    assert forall|j: int| 0 <= j < filters@.len() implies (rule_clause(#[trigger] filters@[j])
        is None <==> rules@[j].1 is None) by {}
    let r = build_grouped_condition(&rules, logics);
    proof {
        if r is None {
            assert forall|j: int| 0 <= j < filters@.len() implies rule_clause(#[trigger] filters@[j])
                is None by {
                assert(rules@[j].1 is None);
            }
        }
    }
    r
}

// ---------------------------------------------------------------------------
// What a condition selects
// ---------------------------------------------------------------------------

/// What a condition reads of a wallpaper.
pub struct Row {
    pub display_name: Seq<char>,
    pub ty: Seq<char>,
    pub library_path: Seq<char>,
    pub format: Option<Seq<char>>,
    pub width: Option<int>,
    pub height: Option<int>,
    pub size: Option<int>,
}

impl Row {
    pub open spec fn text_of(self, c: Col) -> Option<Seq<char>> {
        match c {
            Col::DisplayName => Some(self.display_name),
            Col::Ty => Some(self.ty),
            Col::LibraryPath => Some(self.library_path),
            Col::Format => self.format,
            _ => None,
        }
    }

    pub open spec fn number_of(self, c: Col) -> Option<int> {
        match c {
            Col::Width => self.width,
            Col::Height => self.height,
            Col::Size => self.size,
            _ => None,
        }
    }

    pub open spec fn missing(self, c: Col) -> bool {
        self.text_of(c) is None && self.number_of(c) is None
    }
}

pub open spec fn relates(r: Relation, a: int, b: int) -> bool {
    match r {
        Relation::Equal => a == b,
        Relation::NotEqual => a != b,
        Relation::Less => a < b,
        Relation::LessEqual => a <= b,
        Relation::Greater => a > b,
        Relation::GreaterEqual => a >= b,
    }
}

/// A row passes a test, under a meaning `like` of text patterns.
pub open spec fn passes(
    t: TestView,
    row: Row,
    like: spec_fn(Seq<char>, Seq<char>) -> bool,
) -> bool {
    match t {
        TestView::Like(c, p) => row.text_of(c) is Some && like(row.text_of(c)->0, p),
        TestView::NotLike(c, p) => row.text_of(c) is Some && !like(row.text_of(c)->0, p),
        TestView::Is(c, v) => row.text_of(c) == Some(v),
        TestView::IsNot(c, v) => row.text_of(c) is Some && row.text_of(c)->0 != v,
        TestView::Missing(c) => row.missing(c),
        TestView::Present(c) => !row.missing(c),
        TestView::Number(c, r, n) => row.number_of(c) is Some && relates(
            r,
            row.number_of(c)->0,
            n as int,
        ),
        TestView::Against(c, r, d) => row.number_of(c) is Some && row.number_of(d) is Some
            && relates(r, row.number_of(c)->0, row.number_of(d)->0),
    }
}

pub open spec fn clause_holds(
    c: ClauseView,
    row: Row,
    like: spec_fn(Seq<char>, Seq<char>) -> bool,
) -> bool {
    if c.any {
        exists|i: int| 0 <= i < c.tests.len() && passes(#[trigger] c.tests[i], row, like)
    } else {
        forall|i: int| 0 <= i < c.tests.len() ==> passes(#[trigger] c.tests[i], row, like)
    }
}

pub open spec fn all_hold(
    cs: Seq<ClauseView>,
    row: Row,
    like: spec_fn(Seq<char>, Seq<char>) -> bool,
) -> bool {
    forall|i: int| 0 <= i < cs.len() ==> clause_holds(#[trigger] cs[i], row, like)
}

/// The condition selects the row.
pub open spec fn selects(
    c: ConditionView,
    row: Row,
    like: spec_fn(Seq<char>, Seq<char>) -> bool,
) -> bool {
    &&& forall|i: int|
        0 <= i < c.pairs.len() ==> {
            let p = #[trigger] c.pairs[i];
            if p.any {
                all_hold(p.a, row, like) || all_hold(p.b, row, like)
            } else {
                all_hold(p.a, row, like) && all_hold(p.b, row, like)
            }
        }
    &&& forall|i: int| 0 <= i < c.rest.len() ==> all_hold((#[trigger] c.rest[i]).clauses, row, like)
}

/// An aspect and its negation divide all wallpapers between them, those of
/// unknown size included.
pub proof fn aspect_and_its_negation_divide_all(
    aspect: WallpaperAspect,
    row: Row,
    like: spec_fn(Seq<char>, Seq<char>) -> bool,
)
    requires
        aspect != WallpaperAspect::Unspecified,
    ensures
        aspect_clause(aspect, TypeCondition::Is) is Some,
        aspect_clause(aspect, TypeCondition::IsNot) is Some,
        clause_holds(aspect_clause(aspect, TypeCondition::Is)->0, row, like) != clause_holds(
            aspect_clause(aspect, TypeCondition::IsNot)->0,
            row,
            like,
        ),
{
    let yes = aspect_clause(aspect, TypeCondition::Is)->0;
    let no = aspect_clause(aspect, TypeCondition::IsNot)->0;
    assert(yes.tests.len() == 3 && no.tests.len() == 3);
    if row.width is None {
        assert(!passes(yes.tests[0], row, like));
        assert(passes(no.tests[0], row, like));
    } else if row.height is None {
        assert(!passes(yes.tests[1], row, like));
        assert(passes(no.tests[1], row, like));
    } else {
        assert(passes(yes.tests[0], row, like) && passes(yes.tests[1], row, like));
        assert(passes(yes.tests[2], row, like) != passes(no.tests[2], row, like));
        assert(!passes(no.tests[0], row, like) && !passes(no.tests[1], row, like));
    }
}

/// A rule on the format and its negation divide all wallpapers between them,
/// those without a known format included.
pub proof fn format_rule_and_its_negation_divide_all(
    value: Seq<char>,
    row: Row,
    like: spec_fn(Seq<char>, Seq<char>) -> bool,
)
    ensures
        clause_holds(
            text_clause(Col::Format, StringCondition::Is, value, true)->0,
            row,
            like,
        ) != clause_holds(
            text_clause(Col::Format, StringCondition::IsNot, value, true)->0,
            row,
            like,
        ),
        clause_holds(
            text_clause(Col::Format, StringCondition::Contains, value, true)->0,
            row,
            like,
        ) != clause_holds(
            text_clause(Col::Format, StringCondition::ContainsNot, value, true)->0,
            row,
            like,
        ),
{
    let a = text_clause(Col::Format, StringCondition::Is, value, true)->0;
    let b = text_clause(Col::Format, StringCondition::IsNot, value, true)->0;
    assert(a.tests.len() == 1 && b.tests.len() == 2);
    assert(passes(a.tests[0], row, like) != (passes(b.tests[0], row, like) || passes(
        b.tests[1],
        row,
        like,
    )));
    let c = text_clause(Col::Format, StringCondition::Contains, value, true)->0;
    let d = text_clause(Col::Format, StringCondition::ContainsNot, value, true)->0;
    assert(c.tests.len() == 1 && d.tests.len() == 2);
    assert(passes(c.tests[0], row, like) != (passes(d.tests[0], row, like) || passes(
        d.tests[1],
        row,
        like,
    )));
}

/// Without pairs a condition selects exactly the wallpapers for which every
/// rule holds that asks for something.
pub proof fn unpaired_rules_must_all_hold(
    c: ConditionView,
    rules: Seq<(i32, Option<ClauseView>)>,
    row: Row,
    like: spec_fn(Seq<char>, Seq<char>) -> bool,
)
    requires
        is_grouping(c, rules, Seq::empty()),
    ensures
        selects(c, row, like) <==> forall|i: int|
            0 <= i < rules.len() && (#[trigger] rules[i]).1 is Some ==> clause_holds(
                rules[i].1->0,
                row,
                like,
            ),
{
    let n = rules.len() as int;
    assert(c.pairs.len() == 0);
    if selects(c, row, like) {
        assert forall|i: int| 0 <= i < n && (#[trigger] rules[i]).1 is Some implies clause_holds(
            rules[i].1->0,
            row,
            like,
        ) by {
            lemma_clause_in_group(rules, i, n);
            let g = rules[i].0;
            let k = choose|k: int|
                0 <= k < clauses_of(rules, g).len() && (#[trigger] clauses_of(rules, g)[k])
                    == rules[i].1->0;
            assert(!referenced(rules, Seq::empty(), g));
            let a = choose|a: int| 0 <= a < c.rest.len() && (#[trigger] c.rest[a]).group == g;
            assert(all_hold(c.rest[a].clauses, row, like));
            assert(clause_holds(c.rest[a].clauses[k], row, like));
        }
    }
    if forall|i: int|
        0 <= i < rules.len() && (#[trigger] rules[i]).1 is Some ==> clause_holds(
            rules[i].1->0,
            row,
            like,
        ) {
        assert forall|a: int| 0 <= a < c.rest.len() implies all_hold(
            (#[trigger] c.rest[a]).clauses,
            row,
            like,
        ) by {
            let g = c.rest[a].group;
            assert forall|k: int| 0 <= k < c.rest[a].clauses.len() implies clause_holds(
                #[trigger] c.rest[a].clauses[k],
                row,
                like,
            ) by {
                lemma_group_from_rules(rules, g, n, k);
                let i = choose|i: int|
                    0 <= i < n && (#[trigger] rules[i]).1 == Some(clauses_of(rules, g)[k]);
                assert(clause_holds(rules[i].1->0, row, like));
            }
        }
    }
}

proof fn lemma_clause_in_group(rules: Seq<(i32, Option<ClauseView>)>, i: int, n: int)
    requires
        0 <= i < n <= rules.len(),
        rules[i].1 is Some,
    ensures
        exists|k: int|
            0 <= k < group_clauses(rules, rules[i].0, n).len() && (#[trigger] group_clauses(
                rules,
                rules[i].0,
                n,
            )[k]) == rules[i].1->0,
    decreases n,
{
    let g = rules[i].0;
    let all = group_clauses(rules, g, n);
    let rest = group_clauses(rules, g, n - 1);
    if i < n - 1 {
        lemma_clause_in_group(rules, i, n - 1);
        let k = choose|k: int| 0 <= k < rest.len() && (#[trigger] rest[k]) == rules[i].1->0;
        assert(all[k] == rules[i].1->0);
    } else {
        assert(all[rest.len() as int] == rules[i].1->0);
    }
}

proof fn lemma_group_from_rules(rules: Seq<(i32, Option<ClauseView>)>, g: i32, n: int, k: int)
    requires
        0 <= n <= rules.len(),
        0 <= k < group_clauses(rules, g, n).len(),
    ensures
        exists|i: int|
            0 <= i < n && (#[trigger] rules[i]).1 == Some(group_clauses(rules, g, n)[k]),
    decreases n,
{
    if n > 0 {
        let rest = group_clauses(rules, g, n - 1);
        let all = group_clauses(rules, g, n);
        if k < rest.len() {
            lemma_group_from_rules(rules, g, n - 1, k);
            assert(all[k] == rest[k]);
            let i = choose|i: int| 0 <= i < n - 1 && (#[trigger] rules[i]).1 == Some(rest[k]);
            assert(rules[i].1 == Some(all[k]));
        } else {
            assert(rules[n - 1].1 == Some(all[k]));
        }
    }
}

/// A rule on the aspect speaks of the numbers of a wallpaper: landscape is
/// wider than high, portrait higher than wide, square neither. A wallpaper of
/// unknown size has no aspect.
pub proof fn aspect_compares_width_and_height(
    f: WallpaperFilterRule,
    aspect: WallpaperAspect,
    condition: TypeCondition,
    row: Row,
    like: spec_fn(Seq<char>, Seq<char>) -> bool,
    c: Option<Clause>,
)
    requires
        call_ensures(wallpaper_filter_to_condition, (&f,), c),
        f.ty == WallpaperFilterType::Aspect,
        f.payload == Some(Payload::AspectFilter { value: aspect, condition }),
    ensures
        c is None <==> aspect == WallpaperAspect::Unspecified || condition
            == TypeCondition::Unspecified,
        c is Some ==> clause_holds(c->0@, row, like) == {
            let has = row.width is Some && row.height is Some && match aspect {
                WallpaperAspect::Landscape => row.width->0 > row.height->0,
                WallpaperAspect::Portrait => row.width->0 < row.height->0,
                WallpaperAspect::Square => row.width->0 == row.height->0,
                WallpaperAspect::Unspecified => false,
            };
            if condition == TypeCondition::Is {
                has
            } else {
                !has
            }
        },
{
    if c is Some {
        let t = c->0@.tests;
        assert(t.len() == 3);
        let a = passes(t[0], row, like);
        let b = passes(t[1], row, like);
        let d = passes(t[2], row, like);
        if condition == TypeCondition::Is {
            assert(clause_holds(c->0@, row, like) == (a && b && d)) by {
                assert forall|i: int| 0 <= i < 3 && a && b && d implies passes(
                    #[trigger] t[i],
                    row,
                    like,
                ) by {}
            }
        } else {
            assert(clause_holds(c->0@, row, like) == (a || b || d));
        }
    }
}

/// Each wallpaper of known size has exactly one aspect.
pub proof fn each_size_has_one_aspect(
    row: Row,
    like: spec_fn(Seq<char>, Seq<char>) -> bool,
)
    requires
        row.width is Some,
        row.height is Some,
    ensures
        ({
            let has = |a: WallpaperAspect|
                clause_holds(aspect_clause(a, TypeCondition::Is)->0, row, like);
            let l = has(WallpaperAspect::Landscape);
            let p = has(WallpaperAspect::Portrait);
            let s = has(WallpaperAspect::Square);
            &&& l == (row.width->0 > row.height->0)
            &&& p == (row.width->0 < row.height->0)
            &&& s == (row.width->0 == row.height->0)
            &&& l && !p && !s || !l && p && !s || !l && !p && s
        }),
{
    let l = aspect_clause(WallpaperAspect::Landscape, TypeCondition::Is)->0;
    let p = aspect_clause(WallpaperAspect::Portrait, TypeCondition::Is)->0;
    let s = aspect_clause(WallpaperAspect::Square, TypeCondition::Is)->0;
    assert(l.tests.len() == 3 && p.tests.len() == 3 && s.tests.len() == 3);
    assert(passes(l.tests[2], row, like) == (row.width->0 > row.height->0));
    assert(passes(p.tests[2], row, like) == (row.width->0 < row.height->0));
    assert(passes(s.tests[2], row, like) == (row.width->0 == row.height->0));
}

/// A rule on a number compares the wallpaper's own number with the one asked
/// for; a wallpaper without the number does not pass.
pub proof fn number_rule_compares_the_number(
    f: WallpaperFilterRule,
    value: i64,
    condition: IntCondition,
    row: Row,
    like: spec_fn(Seq<char>, Seq<char>) -> bool,
    c: Option<Clause>,
)
    requires
        call_ensures(wallpaper_filter_to_condition, (&f,), c),
        f.payload == Some(Payload::IntFilter { value, condition }),
    ensures
        c is Some <==> condition != IntCondition::Unspecified && (f.ty
            == WallpaperFilterType::Width || f.ty == WallpaperFilterType::Height || f.ty
            == WallpaperFilterType::Size),
        c is Some ==> clause_holds(c->0@, row, like) == {
            let n = if f.ty == WallpaperFilterType::Width {
                row.width
            } else if f.ty == WallpaperFilterType::Height {
                row.height
            } else {
                row.size
            };
            n is Some && match condition {
                IntCondition::Equal => n->0 == value,
                IntCondition::EqualNot => n->0 != value,
                IntCondition::Less => n->0 < value,
                IntCondition::LessEqual => n->0 <= value,
                IntCondition::Greater => n->0 > value,
                IntCondition::GreaterEqual => n->0 >= value,
                IntCondition::Unspecified => false,
            }
        },
{
    if c is Some {
        let t = c->0@.tests;
        assert(t.len() == 1);
        assert(clause_holds(c->0@, row, like) == passes(t[0], row, like)) by {
            assert forall|i: int| 0 <= i < 1 && passes(t[0], row, like) implies passes(
                #[trigger] t[i],
                row,
                like,
            ) by {}
        }
    }
}

/// A rule on a text compares the wallpaper's own text with the one asked for:
/// as a whole, or as a part of it, which is the pattern between two `%`. Types
/// are compared in lower case. A wallpaper without a format counts as one of
/// another format; no other text is ever missing.
pub proof fn text_rule_compares_the_text(
    f: WallpaperFilterRule,
    value: String,
    condition: StringCondition,
    row: Row,
    like: spec_fn(Seq<char>, Seq<char>) -> bool,
    c: Option<Clause>,
)
    requires
        call_ensures(wallpaper_filter_to_condition, (&f,), c),
        f.payload == Some(Payload::StringFilter { value, condition }),
    ensures
        c is Some <==> condition != StringCondition::Unspecified && (f.ty
            == WallpaperFilterType::Name || f.ty == WallpaperFilterType::WpType || f.ty
            == WallpaperFilterType::Library || f.ty == WallpaperFilterType::Format),
        c is Some ==> clause_holds(c->0@, row, like) == {
            let asked = if f.ty == WallpaperFilterType::WpType {
                text::lower_text(value@)
            } else {
                value@
            };
            let own = if f.ty == WallpaperFilterType::Name {
                Some(row.display_name)
            } else if f.ty == WallpaperFilterType::WpType {
                Some(row.ty)
            } else if f.ty == WallpaperFilterType::Library {
                Some(row.library_path)
            } else {
                row.format
            };
            let same = own == Some(asked);
            let holds = own is Some && like(own->0, "%"@ + asked + "%"@);
            match condition {
                StringCondition::Is => same,
                StringCondition::IsNot => !same,
                StringCondition::Contains => holds,
                StringCondition::ContainsNot => !holds,
                StringCondition::Unspecified => false,
            }
        },
{
    if c is Some {
        let t = c->0@.tests;
        if c->0@.any {
            assert(t.len() == 2);
            assert(clause_holds(c->0@, row, like) == (passes(t[0], row, like) || passes(
                t[1],
                row,
                like,
            )));
        } else {
            assert(t.len() == 1);
            assert(clause_holds(c->0@, row, like) == passes(t[0], row, like)) by {
                assert forall|i: int| 0 <= i < 1 && passes(t[0], row, like) implies passes(
                    #[trigger] t[i],
                    row,
                    like,
                ) by {}
            }
        }
    }
}

/// Every rule of the group that asks for something holds.
pub open spec fn group_holds(
    rules: Seq<(i32, Option<ClauseView>)>,
    group: i32,
    row: Row,
    like: spec_fn(Seq<char>, Seq<char>) -> bool,
) -> bool {
    forall|i: int|
        0 <= i < rules.len() && (#[trigger] rules[i]).0 == group && rules[i].1 is Some
            ==> clause_holds(rules[i].1->0, row, like)
}

/// Some rule of the group asks for something.
pub open spec fn group_asks(rules: Seq<(i32, Option<ClauseView>)>, group: i32) -> bool {
    exists|i: int| 0 <= i < rules.len() && (#[trigger] rules[i]).0 == group && rules[i].1 is Some
}

proof fn lemma_rule_of_group(rules: Seq<(i32, Option<ClauseView>)>, g: i32, n: int, k: int)
    requires
        0 <= n <= rules.len(),
        0 <= k < group_clauses(rules, g, n).len(),
    ensures
        exists|i: int|
            0 <= i < n && (#[trigger] rules[i]).0 == g && rules[i].1 == Some(
                group_clauses(rules, g, n)[k],
            ),
    decreases n,
{
    if n > 0 {
        let rest = group_clauses(rules, g, n - 1);
        let all = group_clauses(rules, g, n);
        if k < rest.len() {
            lemma_rule_of_group(rules, g, n - 1, k);
            assert(all[k] == rest[k]);
            let i = choose|i: int|
                0 <= i < n - 1 && (#[trigger] rules[i]).0 == g && rules[i].1 == Some(rest[k]);
            assert(rules[i].0 == g && rules[i].1 == Some(all[k]));
        } else {
            assert(rules[n - 1].0 == g && rules[n - 1].1 == Some(all[k]));
        }
    }
}

proof fn lemma_group_meaning(
    rules: Seq<(i32, Option<ClauseView>)>,
    g: i32,
    row: Row,
    like: spec_fn(Seq<char>, Seq<char>) -> bool,
)
    ensures
        all_hold(clauses_of(rules, g), row, like) == group_holds(rules, g, row, like),
        clauses_of(rules, g).len() > 0 <==> group_asks(rules, g),
{
    let n = rules.len() as int;
    let cs = clauses_of(rules, g);
    assert forall|i: int|
        0 <= i < n && (#[trigger] rules[i]).0 == g && rules[i].1 is Some implies exists|k: int|
        0 <= k < cs.len() && (#[trigger] cs[k]) == rules[i].1->0 by {
        lemma_clause_in_group(rules, i, n);
    }
    assert forall|k: int| 0 <= k < cs.len() implies exists|i: int|
        0 <= i < n && (#[trigger] rules[i]).0 == g && rules[i].1 == Some(#[trigger] cs[k]) by {
        lemma_rule_of_group(rules, g, n, k);
    }
    if cs.len() > 0 {
        lemma_rule_of_group(rules, g, n, 0);
    }
    if group_holds(rules, g, row, like) {
        assert forall|k: int| 0 <= k < cs.len() implies clause_holds(#[trigger] cs[k], row, like) by {
            let i = choose|i: int|
                0 <= i < n && (#[trigger] rules[i]).0 == g && rules[i].1 == Some(cs[k]);
            assert(clause_holds(rules[i].1->0, row, like));
        }
    }
    if all_hold(cs, row, like) {
        assert forall|i: int|
            0 <= i < n && (#[trigger] rules[i]).0 == g && rules[i].1 is Some implies clause_holds(
            rules[i].1->0,
            row,
            like,
        ) by {
            let k = choose|k: int| 0 <= k < cs.len() && (#[trigger] cs[k]) == rules[i].1->0;
            assert(clause_holds(cs[k], row, like));
        }
    }
}

/// The pair of groups counts: rules of both ask for something.
pub open spec fn pair_counts(rules: Seq<(i32, Option<ClauseView>)>, l: FilterLogic) -> bool {
    group_asks(rules, l.group_a) && group_asks(rules, l.group_b)
}

proof fn lemma_joined(
    rules: Seq<(i32, Option<ClauseView>)>,
    logics: Seq<FilterLogic>,
    n: int,
    row: Row,
    like: spec_fn(Seq<char>, Seq<char>) -> bool,
)
    requires
        0 <= n <= logics.len(),
    ensures
        (forall|i: int|
            0 <= i < joined(rules, logics, n).len() ==> {
                let p = #[trigger] joined(rules, logics, n)[i];
                if p.any {
                    all_hold(p.a, row, like) || all_hold(p.b, row, like)
                } else {
                    all_hold(p.a, row, like) && all_hold(p.b, row, like)
                }
            }) <==> (forall|i: int|
            0 <= i < n && pair_counts(rules, #[trigger] logics[i]) ==> pair_holds(
                rules,
                logics[i],
                row,
                like,
            )),
    decreases n,
{
    if n > 0 {
        lemma_joined(rules, logics, n - 1, row, like);
        let l = logics[n - 1];
        lemma_group_meaning(rules, l.group_a, row, like);
        lemma_group_meaning(rules, l.group_b, row, like);
        let before = joined(rules, logics, n - 1);
        let all = joined(rules, logics, n);
        assert forall|i: int| 0 <= i < before.len() implies all[i] == #[trigger] before[i] by {}
        let ok = |p: PairView|
            if p.any {
                all_hold(p.a, row, like) || all_hold(p.b, row, like)
            } else {
                all_hold(p.a, row, like) && all_hold(p.b, row, like)
            };
        assert(pair_counts(rules, l) <==> effective(rules, l));
        if effective(rules, l) {
            assert(ok(all[before.len() as int]) == pair_holds(rules, l, row, like));
            assert(all.len() == before.len() + 1);
        } else {
            assert(all == before);
        }
        if forall|i: int| 0 <= i < all.len() ==> ok(#[trigger] all[i]) {
            assert forall|i: int| 0 <= i < before.len() implies ok(#[trigger] before[i]) by {
                assert(ok(all[i]));
            }
        }
        if forall|i: int| 0 <= i < before.len() ==> ok(#[trigger] before[i]) {
            assert forall|i: int|
                0 <= i < all.len() && (effective(rules, l) ==> ok(all[before.len() as int])) implies ok(
                #[trigger] all[i],
            ) by {
                if i < before.len() {
                    assert(ok(before[i]));
                }
            }
        }
    }
}

/// The pair holds: one of its groups does, or both, as it asks.
pub open spec fn pair_holds(
    rules: Seq<(i32, Option<ClauseView>)>,
    l: FilterLogic,
    row: Row,
    like: spec_fn(Seq<char>, Seq<char>) -> bool,
) -> bool {
    match l.op {
        LogicOp::Or => group_holds(rules, l.group_a, row, like) || group_holds(
            rules,
            l.group_b,
            row,
            like,
        ),
        LogicOp::And => group_holds(rules, l.group_a, row, like) && group_holds(
            rules,
            l.group_b,
            row,
            like,
        ),
    }
}

/// A filter selects exactly the wallpapers for which every pair of groups that
/// counts holds as it asks, and every rule whose group is in no such pair.
pub proof fn filter_selects_as_asked(
    filters: &Vec<WallpaperFilterRule>,
    logics: &Vec<FilterLogic>,
    c: Option<Condition>,
    row: Row,
    like: spec_fn(Seq<char>, Seq<char>) -> bool,
)
    requires
        call_ensures(wallpaper_filters_to_condition, (filters, logics), c),
    ensures
        c is None <==> forall|i: int|
            0 <= i < filters@.len() ==> (#[trigger] rule_clauses(filters@)[i]).1 is None,
        c is Some ==> (selects(c->0@, row, like) <==> {
            let rules = rule_clauses(filters@);
            &&& forall|k: int|
                0 <= k < logics@.len() && pair_counts(rules, #[trigger] logics@[k]) ==> pair_holds(
                    rules,
                    logics@[k],
                    row,
                    like,
                )
            &&& forall|i: int|
                0 <= i < rules.len() && (#[trigger] rules[i]).1 is Some && (forall|k: int|
                    0 <= k < logics@.len() && pair_counts(rules, #[trigger] logics@[k])
                        ==> logics@[k].group_a != rules[i].0 && logics@[k].group_b != rules[i].0)
                    ==> clause_holds(rules[i].1->0, row, like)
        }),
{
    let rules = rule_clauses(filters@);
    assert forall|i: int| 0 <= i < filters@.len() implies (#[trigger] rules[i]).1 == rule_clause(
        filters@[i],
    ) by {}
    if forall|i: int| 0 <= i < filters@.len() ==> (#[trigger] rules[i]).1 is None {
        assert forall|i: int| 0 <= i < filters@.len() implies rule_clause(#[trigger] filters@[i])
            is None by {
            assert(rules[i].1 is None);
        }
    }
    if c is Some {
        let v = c->0@;
        lemma_joined(rules, logics@, logics@.len() as int, row, like);
        assert forall|g: i32| #[trigger] referenced(rules, logics@, g) <==> exists|k: int|
            0 <= k < logics@.len() && pair_counts(rules, #[trigger] logics@[k]) && (
            logics@[k].group_a == g || logics@[k].group_b == g) by {
            assert forall|k: int| 0 <= k < logics@.len() implies effective(rules, logics@[k])
                == pair_counts(rules, #[trigger] logics@[k]) by {
                lemma_group_meaning(rules, logics@[k].group_a, row, like);
                lemma_group_meaning(rules, logics@[k].group_b, row, like);
            }
            if referenced(rules, logics@, g) {
                let k = choose|k: int|
                    0 <= k < logics@.len() && effective(rules, #[trigger] logics@[k]) && (
                    logics@[k].group_a == g || logics@[k].group_b == g);
                assert(pair_counts(rules, logics@[k]));
            }
        }
        let rest_ok = forall|a: int|
            0 <= a < v.rest.len() ==> all_hold((#[trigger] v.rest[a]).clauses, row, like);
        let rules_ok = forall|i: int|
            0 <= i < rules.len() && (#[trigger] rules[i]).1 is Some && (forall|k: int|
                0 <= k < logics@.len() && pair_counts(rules, #[trigger] logics@[k])
                    ==> logics@[k].group_a != rules[i].0 && logics@[k].group_b != rules[i].0)
                ==> clause_holds(rules[i].1->0, row, like);
        if rest_ok {
            assert forall|i: int|
                0 <= i < rules.len() && (#[trigger] rules[i]).1 is Some && (forall|k: int|
                    0 <= k < logics@.len() && pair_counts(rules, #[trigger] logics@[k])
                        ==> logics@[k].group_a != rules[i].0 && logics@[k].group_b
                        != rules[i].0) implies clause_holds(rules[i].1->0, row, like) by {
                let g = rules[i].0;
                lemma_group_meaning(rules, g, row, like);
                assert(!referenced(rules, logics@, g));
                let a = choose|a: int| 0 <= a < v.rest.len() && (#[trigger] v.rest[a]).group == g;
                assert(all_hold(v.rest[a].clauses, row, like));
            }
        }
        if rules_ok {
            assert forall|a: int| 0 <= a < v.rest.len() implies all_hold(
                (#[trigger] v.rest[a]).clauses,
                row,
                like,
            ) by {
                let g = v.rest[a].group;
                lemma_group_meaning(rules, g, row, like);
                assert(!referenced(rules, logics@, g));
            }
        }
        assert(rest_ok == rules_ok);
    }
}

} // verus!
