//! Filter rules, and what they select.

use waywallen::filter::{
    build_grouped_condition, wallpaper_filter_to_condition, wallpaper_filters_to_condition, Clause,
    Col, Condition, FilterLogic, IntCondition, LogicOp, Payload, Relation, StringCondition, Test,
    TypeCondition, WallpaperAspect, WallpaperFilterRule, WallpaperFilterType,
};
use waywallen::filter_state::{
    pb_rule_from_settings, pb_rules_from_settings, same_filter, settings_filter_state_from_pb,
    settings_rule_from_pb, FilterLogicState, RawPayload, RawRule,
};

/// A row of the items joined with its library.
struct Row {
    name: &'static str,
    ty: &'static str,
    library: &'static str,
    format: Option<&'static str>,
    width: Option<i64>,
    height: Option<i64>,
    size: Option<i64>,
}

impl Row {
    fn text(&self, c: Col) -> Option<&'static str> {
        match c {
            Col::DisplayName => Some(self.name),
            Col::Ty => Some(self.ty),
            Col::LibraryPath => Some(self.library),
            Col::Format => self.format,
            _ => None,
        }
    }

    fn figure(&self, c: Col) -> Option<i64> {
        match c {
            Col::Width => self.width,
            Col::Height => self.height,
            Col::Size => self.size,
            _ => None,
        }
    }

    fn has(&self, c: Col) -> bool {
        self.text(c).is_some() || self.figure(c).is_some()
    }
}

fn related(a: i64, r: Relation, b: i64) -> bool {
    match r {
        Relation::Equal => a == b,
        Relation::NotEqual => a != b,
        Relation::Less => a < b,
        Relation::LessEqual => a <= b,
        Relation::Greater => a > b,
        Relation::GreaterEqual => a >= b,
    }
}

/// A comparison with a missing value holds of no row.
fn passes(t: &Test, row: &Row) -> bool {
    let like = |c: Col, p: &str| {
        row.text(c).map(|v| v.to_lowercase().contains(&p.trim_matches('%').to_lowercase()))
    };
    match t {
        Test::Like(c, p) => like(*c, p) == Some(true),
        Test::NotLike(c, p) => like(*c, p) == Some(false),
        Test::Is(c, v) => row.text(*c) == Some(v.as_str()),
        Test::IsNot(c, v) => row.text(*c).map_or(false, |x| x != v),
        Test::Missing(c) => !row.has(*c),
        Test::Present(c) => row.has(*c),
        Test::Number(c, r, v) => row.figure(*c).map_or(false, |x| related(x, *r, *v)),
        Test::Against(a, r, b) => match (row.figure(*a), row.figure(*b)) {
            (Some(x), Some(y)) => related(x, *r, y),
            _ => false,
        },
    }
}

fn clause(c: &Clause, row: &Row) -> bool {
    if c.any {
        c.tests.iter().any(|t| passes(t, row))
    } else {
        c.tests.iter().all(|t| passes(t, row))
    }
}

fn selects(c: &Condition, row: &Row) -> bool {
    let all = |cs: &Vec<Clause>| cs.iter().all(|x| clause(x, row));
    c.pairs.iter().all(|p| if p.any { all(&p.a) || all(&p.b) } else { all(&p.a) && all(&p.b) })
        && c.rest.iter().all(|g| all(&g.clauses))
}

fn seed() -> Vec<Row> {
    vec![
        Row {
            name: "City",
            ty: "image",
            library: "/lib/a",
            format: Some("png"),
            width: Some(1920),
            height: Some(1080),
            size: Some(2048),
        },
        Row {
            name: "Portrait",
            ty: "video",
            library: "/lib/b",
            format: Some("webm"),
            width: Some(900),
            height: Some(1600),
            size: Some(4096),
        },
    ]
}

fn rule(ty: WallpaperFilterType, group: i32, payload: Payload) -> WallpaperFilterRule {
    WallpaperFilterRule { ty, group, payload: Some(payload) }
}

fn words(value: &str, condition: StringCondition) -> Payload {
    Payload::StringFilter { value: value.into(), condition }
}

fn number(value: i64, condition: IntCondition) -> Payload {
    Payload::IntFilter { value, condition }
}

fn aspect(value: WallpaperAspect, condition: TypeCondition) -> Payload {
    Payload::AspectFilter { value, condition }
}

#[test]
fn wallpaper_filters_to_condition_matches_grouped_rules() {
    let rules = vec![
        rule(WallpaperFilterType::Name, 0, words("City", StringCondition::Contains)),
        rule(WallpaperFilterType::Width, 0, number(1000, IntCondition::GreaterEqual)),
    ];
    let condition = wallpaper_filters_to_condition(&rules, &vec![]).unwrap();
    let db = seed();
    let rows: Vec<&Row> = db.iter().filter(|r| selects(&condition, r)).collect();
    assert_eq!(rows.len(), 1);
    assert_eq!(rows[0].name, "City");
}

#[test]
fn wallpaper_filters_to_condition_honors_group_or_logic() {
    let rules = vec![
        rule(WallpaperFilterType::WpType, 0, words("video", StringCondition::Is)),
        rule(
            WallpaperFilterType::Aspect,
            1,
            aspect(WallpaperAspect::Landscape, TypeCondition::Is),
        ),
    ];
    let logic = FilterLogic { op: LogicOp::Or, group_a: 0, group_b: 1 };
    let condition = wallpaper_filters_to_condition(&rules, &vec![logic]).unwrap();
    let db = seed();
    assert_eq!(db.iter().filter(|r| selects(&condition, r)).count(), 2);
}

#[test]
fn groups_without_logic_must_both_hold() {
    let rules = vec![
        rule(WallpaperFilterType::WpType, 0, words("video", StringCondition::Is)),
        rule(
            WallpaperFilterType::Aspect,
            1,
            aspect(WallpaperAspect::Landscape, TypeCondition::Is),
        ),
    ];
    let condition = wallpaper_filters_to_condition(&rules, &vec![]).unwrap();
    assert!(seed().iter().all(|r| !selects(&condition, r)));
}

#[test]
fn rules_that_say_nothing_select_nothing_out() {
    let empty = WallpaperFilterRule { ty: WallpaperFilterType::Name, group: 0, payload: None };
    assert!(wallpaper_filter_to_condition(&empty).is_none());
    let mixed = rule(WallpaperFilterType::Width, 0, words("1", StringCondition::Is));
    assert!(wallpaper_filter_to_condition(&mixed).is_none());
    assert!(wallpaper_filters_to_condition(&vec![], &vec![]).is_none());
    assert!(build_grouped_condition(&vec![(0, None)], &vec![]).is_none());
}

#[test]
fn aspect_and_its_negation_split_the_rows() {
    let mut rows = seed();
    rows.push(Row { width: None, name: "Unknown", ..seed().remove(0) });
    for value in [WallpaperAspect::Landscape, WallpaperAspect::Portrait, WallpaperAspect::Square] {
        let is = rule(WallpaperFilterType::Aspect, 0, aspect(value, TypeCondition::Is));
        let not = rule(WallpaperFilterType::Aspect, 0, aspect(value, TypeCondition::IsNot));
        let (is, not) = (
            wallpaper_filter_to_condition(&is).unwrap(),
            wallpaper_filter_to_condition(&not).unwrap(),
        );
        for r in &rows {
            assert_ne!(clause(&is, r), clause(&not, r));
        }
    }
}

#[test]
fn missing_format_is_another_format() {
    let rows = [
        Row { format: None, ..seed().remove(0) },
        seed().remove(0),
    ];
    let not = rule(WallpaperFilterType::Format, 0, words("png", StringCondition::IsNot));
    let c = wallpaper_filter_to_condition(&not).unwrap();
    assert!(clause(&c, &rows[0]));
    assert!(!clause(&c, &rows[1]));
}

#[test]
fn number_rules_compare_the_column() {
    let cases = [
        (IntCondition::Equal, false),
        (IntCondition::EqualNot, true),
        (IntCondition::Less, false),
        (IntCondition::LessEqual, false),
        (IntCondition::Greater, true),
        (IntCondition::GreaterEqual, true),
    ];
    for (condition, expected) in cases {
        let r = rule(WallpaperFilterType::Size, 0, number(1000, condition));
        let c = wallpaper_filter_to_condition(&r).unwrap();
        assert_eq!(clause(&c, &seed()[0]), expected);
    }
    let r = rule(WallpaperFilterType::Size, 0, number(1000, IntCondition::Unspecified));
    assert!(wallpaper_filter_to_condition(&r).is_none());
}

fn stored_rule() -> RawRule {
    RawRule {
        ty: 1,
        group: 2,
        payload: Some(RawPayload::StringFilter { value: "x".into(), condition: 99 }),
    }
}

#[test]
fn stored_rules_come_back_as_they_were() {
    let kept = settings_rule_from_pb(&stored_rule());
    let back = pb_rule_from_settings(&kept);
    assert_eq!((back.ty, back.group), (1, 2));
    match back.payload {
        Some(RawPayload::StringFilter { value, condition }) => {
            assert_eq!((value.as_str(), condition), ("x", 99))
        }
        other => panic!("unexpected {other:?}"),
    }
    let bare = RawRule { ty: 3, group: 0, payload: None };
    assert!(pb_rule_from_settings(&settings_rule_from_pb(&bare)).payload.is_none());
}

#[test]
fn stored_filters_compare_by_content() {
    let logics = vec![FilterLogicState { op: 1, group_a: 0, group_b: 1 }];
    let a = settings_filter_state_from_pb(&vec![stored_rule()], &logics);
    let b = settings_filter_state_from_pb(&vec![stored_rule()], &logics);
    let c = settings_filter_state_from_pb(&vec![], &logics);
    assert!(same_filter(&a, &b));
    assert!(!same_filter(&a, &c));
    assert_eq!(pb_rules_from_settings(&a).len(), 1);
}
