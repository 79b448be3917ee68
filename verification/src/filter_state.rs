//! The wallpaper filter as it is kept in the settings and sent over the wire.
//! Numbers stand for words that may be unknown here; they are passed on as
//! they are.

use crate::seqs;
use crate::text;
use vstd::prelude::*;

verus! {

broadcast use seqs::group_views;

#[derive(Debug)]
pub struct StringFilterState {
    pub value: String,
    pub condition: i32,
}

#[derive(Debug, Clone, Copy, PartialEq, Eq, Structural)]
pub struct IntFilterState {
    pub value: i64,
    pub condition: i32,
}

#[derive(Debug, Clone, Copy, PartialEq, Eq, Structural)]
pub struct AspectFilterState {
    pub value: i32,
    pub condition: i32,
}

/// One stored rule.
#[derive(Debug)]
pub struct WallpaperFilterRuleState {
    pub ty: i32,
    pub group: i32,
    pub string_filter: Option<StringFilterState>,
    pub int_filter: Option<IntFilterState>,
    pub aspect_filter: Option<AspectFilterState>,
}

#[verifier::ext_equal]
pub struct RuleStateView {
    pub ty: i32,
    pub group: i32,
    pub string_filter: Option<(Seq<char>, i32)>,
    pub int_filter: Option<IntFilterState>,
    pub aspect_filter: Option<AspectFilterState>,
}

impl View for WallpaperFilterRuleState {
    type V = RuleStateView;

    open spec fn view(&self) -> RuleStateView {
        RuleStateView {
            ty: self.ty,
            group: self.group,
            string_filter: match self.string_filter {
                Some(f) => Some((f.value@, f.condition)),
                None => None,
            },
            int_filter: self.int_filter,
            aspect_filter: self.aspect_filter,
        }
    }
}

#[derive(Debug, Clone, Copy, PartialEq, Eq, Structural)]
pub struct FilterLogicState {
    pub op: i32,
    pub group_a: i32,
    pub group_b: i32,
}

/// The stored filter.
#[derive(Debug)]
pub struct WallpaperFilterState {
    pub filters: Vec<WallpaperFilterRuleState>,
    pub filter_logics: Vec<FilterLogicState>,
}

#[verifier::ext_equal]
pub struct FilterStateView {
    pub filters: Seq<RuleStateView>,
    pub filter_logics: Seq<FilterLogicState>,
}

impl View for WallpaperFilterState {
    type V = FilterStateView;

    open spec fn view(&self) -> FilterStateView {
        FilterStateView {
            filters: seqs::views(self.filters@),
            filter_logics: self.filter_logics@,
        }
    }
}

pub open spec fn no_filter() -> FilterStateView {
    FilterStateView { filters: Seq::empty(), filter_logics: Seq::empty() }
}

impl Default for WallpaperFilterState {
    fn default() -> (r: Self)
        ensures
            r@ == no_filter(),
    {
        WallpaperFilterState { filters: Vec::new(), filter_logics: Vec::new() }
    }
}

impl Clone for WallpaperFilterRuleState {
    fn clone(&self) -> (r: Self)
        ensures
            r@ == self@,
    {
        WallpaperFilterRuleState {
            ty: self.ty,
            group: self.group,
            string_filter: match &self.string_filter {
                Some(f) => Some(
                    StringFilterState { value: f.value.clone(), condition: f.condition },
                ),
                None => None,
            },
            int_filter: self.int_filter,
            aspect_filter: self.aspect_filter,
        }
    }
}

impl Clone for WallpaperFilterState {
    fn clone(&self) -> (r: Self)
        ensures
            r@ == self@,
    {
        let mut filters: Vec<WallpaperFilterRuleState> = Vec::new();
        let mut i: usize = 0;
        while i < self.filters.len()
            invariant
                i <= self.filters@.len(),
                seqs::views(filters@) == self@.filters.take(i as int),
            decreases self.filters.len() - i,
        {
            filters.push(self.filters[i].clone());
            i = i + 1;
            assert(seqs::views(filters@) =~= self@.filters.take(i as int));
        }
        assert(self@.filters.take(i as int) =~= self@.filters);
        let mut filter_logics: Vec<FilterLogicState> = Vec::new();
        let mut k: usize = 0;
        while k < self.filter_logics.len()
            invariant
                k <= self.filter_logics@.len(),
                filter_logics@ == self.filter_logics@.take(k as int),
            decreases self.filter_logics.len() - k,
        {
            filter_logics.push(self.filter_logics[k]);
            k = k + 1;
            assert(filter_logics@ =~= self.filter_logics@.take(k as int));
        }
        assert(filter_logics@ =~= self.filter_logics@);
        WallpaperFilterState { filters, filter_logics }
    }
}

fn same_rule(a: &WallpaperFilterRuleState, b: &WallpaperFilterRuleState) -> (r: bool)
    ensures
        r == (a@ == b@),
{
    let texts = match (&a.string_filter, &b.string_filter) {
        (Some(x), Some(y)) => text::str_eq(x.value.as_str(), y.value.as_str()) && x.condition
            == y.condition,
        (None, None) => true,
        _ => false,
    };
    a.ty == b.ty && a.group == b.group && texts && a.int_filter == b.int_filter && a.aspect_filter
        == b.aspect_filter
}

/// Whether two filters are the same.
pub fn same_filter(a: &WallpaperFilterState, b: &WallpaperFilterState) -> (r: bool)
    ensures
        r == (a@ == b@),
{
    if a.filters.len() != b.filters.len() || a.filter_logics.len() != b.filter_logics.len() {
        assert(a@.filters.len() != b@.filters.len() || a@.filter_logics.len()
            != b@.filter_logics.len());
        return false;
    }
    let mut i: usize = 0;
    while i < a.filters.len()
        invariant
            i <= a.filters@.len(),
            a.filters@.len() == b.filters@.len(),
            forall|j: int| 0 <= j < i ==> #[trigger] a@.filters[j] == b@.filters[j],
        decreases a.filters.len() - i,
    {
        if !same_rule(&a.filters[i], &b.filters[i]) {
            assert(a@.filters[i as int] != b@.filters[i as int]);
            return false;
        }
        i = i + 1;
    }
    let mut k: usize = 0;
    while k < a.filter_logics.len()
        invariant
            k <= a.filter_logics@.len(),
            a.filter_logics@.len() == b.filter_logics@.len(),
            forall|j: int|
                0 <= j < k ==> #[trigger] a@.filter_logics[j] == b@.filter_logics[j],
        decreases a.filter_logics.len() - k,
    {
        if a.filter_logics[k] != b.filter_logics[k] {
            assert(a@.filter_logics[k as int] != b@.filter_logics[k as int]);
            return false;
        }
        k = k + 1;
    }
    assert(a@.filters =~= b@.filters);
    assert(a@.filter_logics =~= b@.filter_logics);
    true
}

// ---------------------------------------------------------------------------
// Wire form
// ---------------------------------------------------------------------------

/// What a rule of the wire compares with.
#[allow(inconsistent_fields)]
#[derive(Debug)]
pub enum RawPayload {
    StringFilter { value: String, condition: i32 },
    IntFilter { value: i64, condition: i32 },
    AspectFilter { value: i32, condition: i32 },
}

/// A rule of the wire.
#[derive(Debug)]
pub struct RawRule {
    pub ty: i32,
    pub group: i32,
    pub payload: Option<RawPayload>,
}

#[allow(inconsistent_fields)]
#[verifier::ext_equal]
pub enum RawPayloadView {
    StringFilter { value: Seq<char>, condition: i32 },
    IntFilter { value: i64, condition: i32 },
    AspectFilter { value: i32, condition: i32 },
}

#[verifier::ext_equal]
pub struct RawRuleView {
    pub ty: i32,
    pub group: i32,
    pub payload: Option<RawPayloadView>,
}

impl View for RawRule {
    type V = RawRuleView;

    open spec fn view(&self) -> RawRuleView {
        RawRuleView {
            ty: self.ty,
            group: self.group,
            payload: match self.payload {
                Some(RawPayload::StringFilter { value, condition }) => Some(
                    RawPayloadView::StringFilter { value: value@, condition },
                ),
                Some(RawPayload::IntFilter { value, condition }) => Some(
                    RawPayloadView::IntFilter { value, condition },
                ),
                Some(RawPayload::AspectFilter { value, condition }) => Some(
                    RawPayloadView::AspectFilter { value, condition },
                ),
                None => None,
            },
        }
    }
}

/// The stored form of a rule.
pub open spec fn rule_kept(r: RawRuleView) -> RuleStateView {
    RuleStateView {
        ty: r.ty,
        group: r.group,
        string_filter: match r.payload {
            Some(RawPayloadView::StringFilter { value, condition }) => Some((value, condition)),
            _ => None,
        },
        int_filter: match r.payload {
            Some(RawPayloadView::IntFilter { value, condition }) => Some(
                IntFilterState { value, condition },
            ),
            _ => None,
        },
        aspect_filter: match r.payload {
            Some(RawPayloadView::AspectFilter { value, condition }) => Some(
                AspectFilterState { value, condition },
            ),
            _ => None,
        },
    }
}

/// The wire form of a stored rule. Of several comparisons the text goes first,
/// then the number.
pub open spec fn rule_sent(r: RuleStateView) -> RawRuleView {
    RawRuleView {
        ty: r.ty,
        group: r.group,
        payload: match (r.string_filter, r.int_filter, r.aspect_filter) {
            (Some((value, condition)), _, _) => Some(
                RawPayloadView::StringFilter { value, condition },
            ),
            (None, Some(f), _) => Some(
                RawPayloadView::IntFilter { value: f.value, condition: f.condition },
            ),
            (None, None, Some(f)) => Some(
                RawPayloadView::AspectFilter { value: f.value, condition: f.condition },
            ),
            (None, None, None) => None,
        },
    }
}

/// The stored form of a rule.
pub fn settings_rule_from_pb(rule: &RawRule) -> (r: WallpaperFilterRuleState)
    ensures
        r@ == rule_kept(rule@),
{
    let mut r = WallpaperFilterRuleState {
        ty: rule.ty,
        group: rule.group,
        string_filter: None,
        int_filter: None,
        aspect_filter: None,
    };
    match &rule.payload {
        Some(RawPayload::StringFilter { value, condition }) => {
            r.string_filter = Some(
                StringFilterState { value: value.clone(), condition: *condition },
            );
        },
        Some(RawPayload::IntFilter { value, condition }) => {
            r.int_filter = Some(IntFilterState { value: *value, condition: *condition });
        },
        Some(RawPayload::AspectFilter { value, condition }) => {
            r.aspect_filter = Some(AspectFilterState { value: *value, condition: *condition });
        },
        None => {},
    }
    r
}

/// The wire form of a stored rule.
pub fn pb_rule_from_settings(rule: &WallpaperFilterRuleState) -> (r: RawRule)
    ensures
        r@ == rule_sent(rule@),
{
    let payload = match (&rule.string_filter, rule.int_filter, rule.aspect_filter) {
        (Some(f), _, _) => Some(
            RawPayload::StringFilter { value: f.value.clone(), condition: f.condition },
        ),
        (None, Some(f), _) => Some(
            RawPayload::IntFilter { value: f.value, condition: f.condition },
        ),
        (None, None, Some(f)) => Some(
            RawPayload::AspectFilter { value: f.value, condition: f.condition },
        ),
        (None, None, None) => None,
    };
    RawRule { ty: rule.ty, group: rule.group, payload }
}

/// The stored form of a whole filter.
pub fn settings_filter_state_from_pb(filters: &Vec<RawRule>, logics: &Vec<FilterLogicState>) -> (r:
    WallpaperFilterState)
    ensures
        r@.filters == seqs::views(filters@).map_values(|f: RawRuleView| rule_kept(f)),
        r@.filter_logics == logics@,
{
    let mut out: Vec<WallpaperFilterRuleState> = Vec::new();
    let mut i: usize = 0;
    while i < filters.len()
        invariant
            i <= filters@.len(),
            out@.len() == i,
            forall|j: int| 0 <= j < i ==> (#[trigger] out@[j])@ == rule_kept(filters@[j]@),
        decreases filters.len() - i,
    {
        out.push(settings_rule_from_pb(&filters[i]));
        i = i + 1;
    }
    let mut filter_logics: Vec<FilterLogicState> = Vec::new();
    let mut k: usize = 0;
    while k < logics.len()
        invariant
            k <= logics@.len(),
            filter_logics@ == logics@.take(k as int),
        decreases logics.len() - k,
    {
        filter_logics.push(logics[k]);
        k = k + 1;
        assert(filter_logics@ =~= logics@.take(k as int));
    }
    assert(filter_logics@ =~= logics@);
    let r = WallpaperFilterState { filters: out, filter_logics };
    assert(r@.filters =~= seqs::views(filters@).map_values(|f: RawRuleView| rule_kept(f)));
    r
}

/// The wire form of all stored rules.
pub fn pb_rules_from_settings(state: &WallpaperFilterState) -> (out: Vec<RawRule>)
    ensures
        seqs::views(out@) == state@.filters.map_values(|f: RuleStateView| rule_sent(f)),
{
    let mut out: Vec<RawRule> = Vec::new();
    let mut i: usize = 0;
    while i < state.filters.len()
        invariant
            i <= state.filters@.len(),
            out@.len() == i,
            forall|j: int| 0 <= j < i ==> (#[trigger] out@[j])@ == rule_sent(state.filters@[j]@),
        decreases state.filters.len() - i,
    {
        out.push(pb_rule_from_settings(&state.filters[i]));
        i = i + 1;
    }
    assert(seqs::views(out@) =~= state@.filters.map_values(|f: RuleStateView| rule_sent(f)));
    out
}

/// A rule that is stored and sent again is the rule that came in.
pub proof fn stored_rule_reads_back(r: RawRuleView)
    ensures
        rule_sent(rule_kept(r)) == r,
{
}

/// A rule that is kept and sent back is the rule; so is a rule that is sent and
/// kept, where it compares one thing.
pub proof fn kept_rules_are_sent_back(
    rule: &RawRule,
    kept: WallpaperFilterRuleState,
    sent: RawRule,
    again: WallpaperFilterRuleState,
)
    requires
        call_ensures(settings_rule_from_pb, (rule,), kept),
        call_ensures(pb_rule_from_settings, (&kept,), sent),
        call_ensures(settings_rule_from_pb, (&sent,), again),
    ensures
        sent@ == rule@,
        again@ == kept@,
        kept.ty == rule.ty,
        kept.group == rule.group,
        kept.int_filter is Some ==> (rule.payload matches Some(RawPayload::IntFilter { value, condition })
            && value == kept.int_filter->0.value && condition == kept.int_filter->0.condition),
        kept.aspect_filter is Some ==> (rule.payload
            matches Some(RawPayload::AspectFilter { value, condition }) && value
            == kept.aspect_filter->0.value && condition == kept.aspect_filter->0.condition),
        kept.string_filter is Some ==> (rule.payload
            matches Some(RawPayload::StringFilter { value, condition }) && value@
            == kept.string_filter->0.value@ && condition == kept.string_filter->0.condition),
{
}

} // verus!
