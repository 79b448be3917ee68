//! Changing the settings.
//!
//! Values are first brought into the form that the manifests ask for; one that
//! is wrong turns the whole change down. Then the settings are put in place,
//! and running renderers are sent what changed for them.

use super::{
    route, Ask, Daemon, GlobalChange, Order, Registry, Reply, SettingCheck, SettingsSend, Turn, Wait,
};
use crate::dispatch;
use crate::error::Error;
use crate::filter_state::{self, settings_filter_state_from_pb, FilterStateView, RawRuleView};
use crate::queue::GlobalEvent;
use crate::registry::{RendererDef, SettingDef};
use crate::router::{self, events, ops, Effect, EffectView, RouterView, Step};
use crate::seqs;
use crate::settings::{
    self, same_layout, GlobalView, LayoutDefaults, Settings, SettingsView, Tables,
};
use crate::spawn::LiveRenderer;
use crate::strmap::{self, StrMap};
use crate::text::{self, push_dec, push_line, str_eq};
use vstd::prelude::*;

verus! {

broadcast use seqs::group_views;

/// The manifest of the plugin declares the setting.
pub open spec fn declared(reg: Registry, plugin: Seq<char>, key: Seq<char>) -> bool {
    match dispatch::def_named(reg.defs@, plugin) {
        Some(d) => d.settings@.contains_key(key),
        None => false,
    }
}

/// The checks are for all declared values of the tables, and for nothing else.
pub open spec fn checks_all(checks: Seq<SettingCheck>, tables: Tables, reg: Registry) -> bool {
    &&& forall|i: int|
        0 <= i < checks.len() ==> {
            &&& tables.contains_key((#[trigger] checks[i]).plugin@)
            &&& tables[checks[i].plugin@].contains_key(checks[i].key@)
            &&& tables[checks[i].plugin@][checks[i].key@] == checks[i].value@
            &&& declared(reg, checks[i].plugin@, checks[i].key@)
        }
    &&& forall|p: Seq<char>, k: Seq<char>|
        tables.contains_key(p) && #[trigger] tables[p].contains_key(k) && declared(reg, p, k)
            ==> has_check(checks, p, k)
}

pub open spec fn has_check(checks: Seq<SettingCheck>, p: Seq<char>, k: Seq<char>) -> bool {
    exists|i: int| 0 <= i < checks.len() && (#[trigger] checks[i]).plugin@ == p && checks[i].key@ == k
}

/// The tables with the first `n` checked values in their new form.
pub open spec fn coerced(
    tables: Tables,
    checks: Seq<SettingCheck>,
    results: Seq<Result<String, String>>,
    n: int,
) -> Tables
    decreases n,
{
    if n <= 0 {
        tables
    } else {
        let rest = coerced(tables, checks, results, n - 1);
        let p = checks[n - 1].plugin@;
        match results[n - 1] {
            Ok(v) => rest.insert(p, settings::table_of(rest, p).insert(checks[n - 1].key@, v@)),
            Err(_) => rest,
        }
    }
}

/// `i` is the first check that failed.
pub open spec fn first_failure(results: Seq<Result<String, String>>, i: int) -> bool {
    &&& 0 <= i < results.len()
    &&& results[i] is Err
    &&& forall|j: int| 0 <= j < i ==> (#[trigger] results[j]) is Ok
}

/// The layout with what a change gives.
pub open spec fn changed_layout(l: LayoutDefaults, g: GlobalChange) -> LayoutDefaults {
    LayoutDefaults {
        fillmode: events::or_else(g.fillmode, l.fillmode),
        align: events::or_else(g.align, l.align),
        clear_rgba: events::or_else(g.clear_rgba, l.clear_rgba),
    }
}

/// The settings after a change.
pub open spec fn changed_settings(
    v: SettingsView,
    plugins: Tables,
    global: Option<GlobalChange>,
) -> SettingsView {
    SettingsView {
        global: match global {
            Some(g) => GlobalView {
                target_extent: g.target_extent,
                render_size_policy: g.render_size_policy,
                wallpaper_filter: FilterStateView {
                    filters: seqs::views(g.wallpaper_filters@).map_values(
                        |f: RawRuleView| filter_state::rule_kept(f),
                    ),
                    filter_logics: g.wallpaper_filter_logics@,
                },
                layout: changed_layout(v.global.layout, g),
                ..v.global
            },
            None => v.global,
        },
        plugins,
        ..v
    }
}

/// Declared values of a plugin that differ from before.
pub open spec fn changed_values(
    new: Map<Seq<char>, Seq<char>>,
    old: Map<Seq<char>, Seq<char>>,
    declared: Map<Seq<char>, SettingDef>,
) -> Map<Seq<char>, Seq<char>> {
    Map::new(
        |k: Seq<char>|
            new.contains_key(k) && declared.contains_key(k) && !(old.contains_key(k) && old[k]
                == new[k]),
        |k: Seq<char>| new[k],
    )
}

#[verifier::ext_equal]
pub struct SendView {
    pub renderer_id: Seq<char>,
    pub plugin: Seq<char>,
    pub kv: Seq<(Seq<char>, Seq<char>)>,
}

impl View for SettingsSend {
    type V = SendView;

    open spec fn view(&self) -> SendView {
        SendView {
            renderer_id: self.renderer_id@,
            plugin: self.plugin@,
            kv: strmap::pairs_text(self.kv@),
        }
    }
}

/// One message to each of the first `n` renderers of the plugin.
pub open spec fn sends_to(
    live: Seq<LiveRenderer>,
    plugin: Seq<char>,
    kv: Seq<(Seq<char>, Seq<char>)>,
    n: int,
) -> Seq<SendView>
    decreases n,
{
    if n <= 0 {
        Seq::empty()
    } else {
        let rest = sends_to(live, plugin, kv, n - 1);
        if live[n - 1].name@ == plugin {
            rest.push(SendView { renderer_id: live[n - 1].id@, plugin, kv })
        } else {
            rest
        }
    }
}

/// Messages for one plugin: to each of its renderers, where any value changed.
pub open spec fn sends_for(
    reg: Registry,
    live: Seq<LiveRenderer>,
    new: Tables,
    old: Tables,
    plugin: Seq<char>,
) -> Seq<SendView> {
    match dispatch::def_named(reg.defs@, plugin) {
        Some(d) => {
            let changed = changed_values(
                settings::table_of(new, plugin),
                settings::table_of(old, plugin),
                d.settings@,
            );
            if changed == Map::<Seq<char>, Seq<char>>::empty() {
                Seq::empty()
            } else {
                sends_to(live, plugin, strmap::sorted_list(changed), live.len() as int)
            }
        },
        None => Seq::empty(),
    }
}

/// Messages for the first `n` plugins.
pub open spec fn all_sends(
    reg: Registry,
    live: Seq<LiveRenderer>,
    new: Tables,
    old: Tables,
    plugins: Seq<Seq<char>>,
    n: int,
) -> Seq<SendView>
    decreases n,
{
    if n <= 0 {
        Seq::empty()
    } else {
        all_sends(reg, live, new, old, plugins, n - 1) + sends_for(
            reg,
            live,
            new,
            old,
            plugins[n - 1],
        )
    }
}

/// The plugins of the tables, in ascending order.
pub open spec fn names_of(tables: Tables, names: Seq<Seq<char>>) -> bool {
    &&& forall|i: int, j: int|
        0 <= i < j < names.len() ==> text::text_less(#[trigger] names[i], #[trigger] names[j])
    &&& forall|k: Seq<char>| #[trigger] tables.contains_key(k) <==> names.contains(k)
}

/// The messages after a change of the tables.
pub open spec fn is_send_list(
    sends: Seq<SendView>,
    reg: Registry,
    live: Seq<LiveRenderer>,
    new: Tables,
    old: Tables,
) -> bool {
    exists|names: Seq<Seq<char>>|
        names_of(new, names) && sends == #[trigger] all_sends(
            reg,
            live,
            new,
            old,
            names,
            names.len() as int,
        )
}

/// The routing after a change of the settings: every display gets its
/// composition again, and is told of, where the default layout changed.
pub open spec fn resettled(v: RouterView, relayout: bool) -> Step {
    if relayout {
        ops::announce_all(
            events::resync_all(ops::start(v), ops::display_ids(v), v.displays.len() as int),
        )
    } else {
        ops::start(v)
    }
}

/// Text of one failed sending.
pub open spec fn failure_text(name: (String, String), message: String) -> Seq<char> {
    name.0@ + " ("@ + name.1@ + "): "@ + message@
}

/// Texts of the failures among the first `n` sendings.
pub open spec fn failures(
    names: Seq<(String, String)>,
    results: Seq<Result<(), String>>,
    n: int,
) -> Seq<Seq<char>>
    decreases n,
{
    if n <= 0 {
        Seq::empty()
    } else {
        let rest = failures(names, results, n - 1);
        match results[n - 1] {
            Ok(_) => rest,
            Err(m) => rest.push(failure_text(names[n - 1], m)),
        }
    }
}

/// Texts with semicolons between them.
pub open spec fn listed(texts: Seq<Seq<char>>, n: int) -> Seq<char>
    decreases n,
{
    if n <= 0 {
        Seq::empty()
    } else if n == 1 {
        texts[0]
    } else {
        listed(texts, n - 1) + "; "@ + texts[n - 1]
    }
}

pub open spec fn failure_report(texts: Seq<Seq<char>>) -> Seq<char> {
    text::dec_text(texts.len()) + " renderer(s): "@ + listed(texts, texts.len() as int)
}

fn list_checks(plugins: &StrMap<StrMap<String>>, reg: &Registry) -> (out: Vec<SettingCheck>)
    ensures
        checks_all(out@, settings::tables_text(plugins@), *reg),
{
    let ghost tables = settings::tables_text(plugins@);
    let names = plugins.keys();
    let mut out: Vec<SettingCheck> = Vec::new();
    let mut i: usize = 0;
    while i < names.len()
        invariant
            i <= names@.len(),
            tables == settings::tables_text(plugins@),
            forall|a: int| 0 <= a < names@.len() ==> plugins@.contains_key(#[trigger] names@[a]@),
            forall|a: int|
                0 <= a < out@.len() ==> {
                    &&& tables.contains_key((#[trigger] out@[a]).plugin@)
                    &&& tables[out@[a].plugin@].contains_key(out@[a].key@)
                    &&& tables[out@[a].plugin@][out@[a].key@] == out@[a].value@
                    &&& declared(*reg, out@[a].plugin@, out@[a].key@)
                },
            forall|a: int, k: Seq<char>|
                0 <= a < i && #[trigger] tables[(#[trigger] names@[a])@].contains_key(k) && declared(
                    *reg,
                    names@[a]@,
                    k,
                ) ==> has_check(out@, names@[a]@, k),
        decreases names.len() - i,
    {
        let ghost before = out@;
        assert(plugins@.contains_key(names@[i as int]@));
        if let (Some(table), Some(def)) = (
            plugins.get(names[i].as_str()),
            reg.resolve_by_name(names[i].as_str()),
        ) {
            add_checks(&names[i], table, def, &mut out);
        }
        proof {
            let p = names@[i as int]@;
            assert forall|a: int, k: Seq<char>|
                0 <= a < i + 1 && #[trigger] tables[(#[trigger] names@[a])@].contains_key(k)
                    && declared(*reg, names@[a]@, k) implies has_check(out@, names@[a]@, k) by {
                if a < i {
                    assert(has_check(before, names@[a]@, k));
                    let b = choose|b: int|
                        0 <= b < before.len() && (#[trigger] before[b]).plugin@ == names@[a]@
                            && before[b].key@ == k;
                    assert(out@[b].plugin@ == names@[a]@);
                }
            }
        }
        i = i + 1;
    }
    proof {
        assert forall|p: Seq<char>, k: Seq<char>|
            tables.contains_key(p) && #[trigger] tables[p].contains_key(k) && declared(
                *reg,
                p,
                k,
            ) implies has_check(out@, p, k) by {
            assert(plugins@.contains_key(p));
            let a = choose|a: int| 0 <= a < names@.len() && #[trigger] names@[a]@ == p;
            assert(tables[names@[a]@].contains_key(k));
        }
    }
    out
}

fn add_checks(
    plugin: &String,
    table: &StrMap<String>,
    def: &RendererDef,
    out: &mut Vec<SettingCheck>,
)
    ensures
        old(out)@.len() <= final(out)@.len(),
        forall|a: int| 0 <= a < old(out)@.len() ==> #[trigger] final(out)@[a] == old(out)@[a],
        forall|a: int|
            old(out)@.len() <= a < final(out)@.len() ==> {
                &&& (#[trigger] final(out)@[a]).plugin@ == plugin@
                &&& strmap::kv_text(table@).contains_key(final(out)@[a].key@)
                &&& strmap::kv_text(table@)[final(out)@[a].key@] == final(out)@[a].value@
                &&& def.settings@.contains_key(final(out)@[a].key@)
            },
        forall|k: Seq<char>|
            #[trigger] strmap::kv_text(table@).contains_key(k) && def.settings@.contains_key(k)
                ==> has_check(final(out)@, plugin@, k),
{
    let ghost before = out@;
    let ghost kv = strmap::kv_text(table@);
    let keys = table.keys();
    let mut i: usize = 0;
    while i < keys.len()
        invariant
            i <= keys@.len(),
            kv == strmap::kv_text(table@),
            before.len() <= out@.len(),
            forall|a: int| 0 <= a < before.len() ==> #[trigger] out@[a] == before[a],
            forall|a: int| 0 <= a < keys@.len() ==> table@.contains_key(#[trigger] keys@[a]@),
            forall|a: int|
                before.len() <= a < out@.len() ==> {
                    &&& (#[trigger] out@[a]).plugin@ == plugin@
                    &&& kv.contains_key(out@[a].key@)
                    &&& kv[out@[a].key@] == out@[a].value@
                    &&& def.settings@.contains_key(out@[a].key@)
                },
            forall|a: int|
                0 <= a < i && def.settings@.contains_key(#[trigger] keys@[a]@) ==> has_check(
                    out@,
                    plugin@,
                    keys@[a]@,
                ),
        decreases keys.len() - i,
    {
        let ghost mid = out@;
        assert(table@.contains_key(keys@[i as int]@));
        if def.settings.contains_key(keys[i].as_str()) {
            if let Some(v) = table.get(keys[i].as_str()) {
                out.push(
                    SettingCheck { plugin: plugin.clone(), key: keys[i].clone(), value: v.clone() },
                );
                assert(out@[mid.len() as int].key@ == keys@[i as int]@);
                assert(has_check(out@, plugin@, keys@[i as int]@));
            }
        }
        proof {
            assert forall|a: int|
                0 <= a < i + 1 && def.settings@.contains_key(#[trigger] keys@[a]@) implies has_check(
                out@,
                plugin@,
                keys@[a]@,
            ) by {
                if a < i {
                    let b = choose|b: int|
                        0 <= b < mid.len() && (#[trigger] mid[b]).plugin@ == plugin@ && mid[b].key@
                            == keys@[a]@;
                    assert(out@[b].plugin@ == plugin@);
                }
            }
        }
        i = i + 1;
    }
    proof {
        assert forall|k: Seq<char>|
            #[trigger] kv.contains_key(k) && def.settings@.contains_key(k) implies has_check(
            out@,
            plugin@,
            k,
        ) by {
            assert(table@.contains_key(k));
            let a = choose|a: int| 0 <= a < keys@.len() && #[trigger] keys@[a]@ == k;
            assert(def.settings@.contains_key(keys@[a]@));
        }
    }
}

/// Puts the checked values into the tables; the first one that is wrong ends
/// it.
fn coerce(
    plugins: StrMap<StrMap<String>>,
    checks: &Vec<SettingCheck>,
    results: Vec<Result<String, String>>,
) -> (r: Result<StrMap<StrMap<String>>, Error>)
    requires
        checks@.len() == results@.len(),
    ensures
        match r {
            Ok(t) => {
                &&& forall|i: int| 0 <= i < results@.len() ==> (#[trigger] results@[i]) is Ok
                &&& settings::tables_text(t@) == coerced(
                    settings::tables_text(plugins@),
                    checks@,
                    results@,
                    results@.len() as int,
                )
            },
            Err(e) => exists|i: int| #[trigger]
                first_failure(results@, i) && e is SettingsValidationFailed
                    && e->SettingsValidationFailed_0@ == checks@[i].plugin@ + "."@
                    + results@[i]->Err_0@,
        },
{
    let ghost tables = settings::tables_text(plugins@);
    let mut t = plugins;
    let mut i: usize = 0;
    while i < results.len()
        invariant
            i <= results@.len(),
            checks@.len() == results@.len(),
            forall|j: int| 0 <= j < i ==> (#[trigger] results@[j]) is Ok,
            settings::tables_text(t@) == coerced(tables, checks@, results@, i as int),
        decreases results.len() - i,
    {
        match &results[i] {
            Ok(v) => {
                let ghost before = t@;
                let mut table = match t.remove(checks[i].plugin.as_str()) {
                    Some(x) => x,
                    None => StrMap::new(),
                };
                let ghost was = strmap::kv_text(table@);
                assert(was =~= settings::table_of(
                    settings::tables_text(before),
                    checks@[i as int].plugin@,
                ));
                table.insert(checks[i].key.clone(), v.clone());
                assert(strmap::kv_text(table@) =~= was.insert(checks@[i as int].key@, v@));
                t.insert(checks[i].plugin.clone(), table);
                assert(settings::tables_text(t@) =~= settings::tables_text(before).insert(
                    checks@[i as int].plugin@,
                    strmap::kv_text(table@),
                ));
            },
            Err(m) => {
                let mut e = checks[i].plugin.clone();
                e.append(".");
                e.append(m.as_str());
                assert(first_failure(results@, i as int));
                return Err(Error::SettingsValidationFailed(e));
            },
        }
        i = i + 1;
    }
    Ok(t)
}

fn values_changed(
    new: Option<&StrMap<String>>,
    old: Option<&StrMap<String>>,
    declared: &StrMap<SettingDef>,
) -> (r: StrMap<String>)
    ensures
        strmap::kv_text(r@) == changed_values(
            match new {
                Some(t) => strmap::kv_text(t@),
                None => Map::empty(),
            },
            match old {
                Some(t) => strmap::kv_text(t@),
                None => Map::empty(),
            },
            declared@,
        ),
{
    let ghost want = changed_values(
        match new {
            Some(t) => strmap::kv_text(t@),
            None => Map::empty(),
        },
        match old {
            Some(t) => strmap::kv_text(t@),
            None => Map::empty(),
        },
        declared@,
    );
    let mut r: StrMap<String> = StrMap::new();
    let t = match new {
        Some(t) => t,
        None => {
            assert(strmap::kv_text(r@) =~= want);
            return r;
        },
    };
    let ghost nv = strmap::kv_text(t@);
    let ghost ov = match old {
        Some(t) => strmap::kv_text(t@),
        None => Map::empty(),
    };
    let keys = t.keys();
    let mut i: usize = 0;
    while i < keys.len()
        invariant
            i <= keys@.len(),
            nv == strmap::kv_text(t@),
            ov == (match old {
                Some(t) => strmap::kv_text(t@),
                None => Map::empty(),
            }),
            want == changed_values(nv, ov, declared@),
            forall|a: int| 0 <= a < keys@.len() ==> t@.contains_key(#[trigger] keys@[a]@),
            forall|k: Seq<char>| #[trigger]
                r@.contains_key(k) ==> want.contains_key(k) && r@[k]@ == want[k],
            forall|a: int|
                0 <= a < i && want.contains_key(#[trigger] keys@[a]@) ==> r@.contains_key(
                    keys@[a]@,
                ),
        decreases keys.len() - i,
    {
        assert(t@.contains_key(keys@[i as int]@));
        if declared.contains_key(keys[i].as_str()) {
            if let Some(v) = t.get(keys[i].as_str()) {
                let same = match old {
                    Some(o) => match o.get(keys[i].as_str()) {
                        Some(w) => str_eq(v.as_str(), w.as_str()),
                        None => false,
                    },
                    None => false,
                };
                if !same {
                    r.insert(keys[i].clone(), v.clone());
                }
            }
        }
        i = i + 1;
    }
    proof {
        assert forall|k: Seq<char>| #[trigger] strmap::kv_text(r@).contains_key(k)
            <==> want.contains_key(k) by {
            if want.contains_key(k) {
                assert(t@.contains_key(k));
                let a = choose|a: int| 0 <= a < keys@.len() && #[trigger] keys@[a]@ == k;
                assert(want.contains_key(keys@[a]@));
            }
        }
        assert(strmap::kv_text(r@) =~= want);
    }
    r
}

fn copy_pairs(kv: &Vec<(String, String)>) -> (r: Vec<(String, String)>)
    ensures
        strmap::pairs_text(r@) == strmap::pairs_text(kv@),
{
    let mut r: Vec<(String, String)> = Vec::new();
    let mut i: usize = 0;
    while i < kv.len()
        invariant
            i <= kv@.len(),
            r@.len() == i,
            forall|j: int|
                0 <= j < i ==> (#[trigger] r@[j]).0@ == kv@[j].0@ && r@[j].1@ == kv@[j].1@,
        decreases kv.len() - i,
    {
        r.push((kv[i].0.clone(), kv[i].1.clone()));
        i = i + 1;
    }
    assert(strmap::pairs_text(r@) =~= strmap::pairs_text(kv@));
    r
}

/// First turn of a change of the settings.
pub open spec fn settings_begun(
    a: Daemon,
    b: Daemon,
    plugins: StrMap<StrMap<String>>,
    global: Option<GlobalChange>,
    out_before: Seq<Order>,
    out_after: Seq<Order>,
    t: Turn,
) -> bool {
    let tables = settings::tables_text(plugins@);
    ||| {
        &&& t matches Turn::Ask(
            Ask::CheckSettings(sent),
            Wait::SettingsChecked { plugins: p, global: g, checks },
        ) && p == plugins && g == global && checks_all(checks@, tables, a.registry) && checks@.len()
            > 0 && same_checks(sent@, checks@)
        &&& b == a
        &&& out_after == out_before
    }
    ||| {
        &&& forall|p: Seq<char>, k: Seq<char>|
            tables.contains_key(p) && #[trigger] tables[p].contains_key(k) ==> !declared(
                a.registry,
                p,
                k,
            )
        &&& settings_committed(a, b, tables, global, out_before, out_after, t)
    }
}

/// The turn after the values were checked.
pub open spec fn settings_accepted(
    a: Daemon,
    b: Daemon,
    plugins: StrMap<StrMap<String>>,
    global: Option<GlobalChange>,
    checks: Vec<SettingCheck>,
    results: Vec<Result<String, String>>,
    out_before: Seq<Order>,
    out_after: Seq<Order>,
    t: Turn,
) -> bool {
    if forall|i: int| 0 <= i < results@.len() ==> (#[trigger] results@[i]) is Ok {
        let tables = settings::tables_text(plugins@);
        let n = results@.len() as int;
        settings_committed(
            a,
            b,
            coerced(tables, checks@, results@, n),
            global,
            out_before,
            out_after,
            t,
        )
    } else {
        &&& b == a
        &&& out_after == out_before
        &&& t matches Turn::Done(Err(Error::SettingsValidationFailed(m))) && exists|i: int|
             #[trigger]
            first_failure(results@, i) && m@ == checks@[i].plugin@ + "."@ + results@[i]->Err_0@
    }
}

impl Daemon {
    fn list_sends(&self, new: &StrMap<StrMap<String>>, old: &StrMap<StrMap<String>>) -> (out: Vec<
        SettingsSend,
    >)
        ensures
            is_send_list(
                seqs::views(out@),
                self.registry,
                self.manager@,
                settings::tables_text(new@),
                settings::tables_text(old@),
            ),
    {
        let ghost nt = settings::tables_text(new@);
        let ghost ot = settings::tables_text(old@);
        let ghost reg = self.registry;
        let ghost live = self.manager@;
        let names = new.keys();
        let ghost ns = text::lines(names@);
        let ids = self.manager.list();
        assert(text::lines(ids@).len() == ids@.len());
        let mut out: Vec<SettingsSend> = Vec::new();
        let mut i: usize = 0;
        while i < names.len()
            invariant
                i <= names@.len(),
                nt == settings::tables_text(new@),
                ot == settings::tables_text(old@),
                reg == self.registry,
                live == self.manager@,
                ns == text::lines(names@),
                text::lines(ids@) == Seq::new(live.len(), |i: int| live[i].id@),
                ids@.len() == live.len(),
                crate::spawn::distinct_ids(live),
                forall|a: int| 0 <= a < names@.len() ==> new@.contains_key(#[trigger] names@[a]@),
                seqs::views(out@) == all_sends(reg, live, nt, ot, ns, i as int),
            decreases names.len() - i,
        {
            let ghost before = seqs::views(out@);
            let ghost p = names@[i as int]@;
            assert(ns[i as int] == p);
            assert(new@.contains_key(p));
            if let Some(def) = self.registry.resolve_by_name(names[i].as_str()) {
                let changed = values_changed(
                    new.get(names[i].as_str()),
                    old.get(names[i].as_str()),
                    &def.settings,
                );
                proof {
                    assert(settings::table_of(nt, p) =~= strmap::kv_text(new@[p]@));
                    if old@.contains_key(p) {
                        assert(settings::table_of(ot, p) =~= strmap::kv_text(old@[p]@));
                    } else {
                        assert(settings::table_of(ot, p) =~= Map::<Seq<char>, Seq<char>>::empty());
                    }
                }
                let ghost cv = strmap::kv_text(changed@);
                if !changed.is_empty() {
                    let kv = changed.sorted_pairs();
                    let ghost list = strmap::sorted_list(cv);
                    proof {
                        assert(cv != Map::<Seq<char>, Seq<char>>::empty()) by {
                            if cv == Map::<Seq<char>, Seq<char>>::empty() {
                                assert(changed@ =~= Map::<Seq<char>, String>::empty()) by {
                                    assert forall|k: Seq<char>| !changed@.contains_key(k) by {
                                        assert(!cv.contains_key(k));
                                    }
                                }
                            }
                        }
                    }
                    let mut n: usize = 0;
                    assert(before + sends_to(live, p, list, 0) =~= before);
                    while n < ids.len()
                        invariant
                            n <= ids@.len(),
                            live == self.manager@,
                            p == names@[i as int]@,
                            i < names@.len(),
                            text::lines(ids@) == Seq::new(live.len(), |i: int| live[i].id@),
                            ids@.len() == live.len(),
                            crate::spawn::distinct_ids(live),
                            strmap::pairs_text(kv@) == list,
                            seqs::views(out@) == before + sends_to(live, p, list, n as int),
                        decreases ids.len() - n,
                    {
                        assert(text::lines(ids@)[n as int] == ids@[n as int]@);
                        assert(live[n as int].id@ == ids@[n as int]@);
                        let hit: bool = match self.manager.get(ids[n].as_str()) {
                            Some(h) => {
                                proof {
                                    let k = choose|k: int| 0 <= k < live.len() && live[k] == *h;
                                    assert(live[k].id@ == live[n as int].id@);
                                    assert(k == n);
                                }
                                str_eq(h.name.as_str(), names[i].as_str())
                            },
                            None => {
                                assert(crate::spawn::has_id(live, ids@[n as int]@)) by {
                                    assert(live[n as int].id@ == ids@[n as int]@);
                                }
                                false
                            },
                        };
                        if hit {
                            out.push(
                                SettingsSend {
                                    renderer_id: ids[n].clone(),
                                    plugin: names[i].clone(),
                                    kv: copy_pairs(&kv),
                                },
                            );
                        }
                        n = n + 1;
                        assert(seqs::views(out@) =~= before + sends_to(live, p, list, n as int));
                    }
                } else {
                    assert(cv =~= Map::<Seq<char>, Seq<char>>::empty());
                    assert(seqs::views(out@) =~= before + Seq::<SendView>::empty());
                }
            } else {
                assert(seqs::views(out@) =~= before + Seq::<SendView>::empty());
            }
            i = i + 1;
        }
        proof {
            assert(names_of(nt, ns)) by {
                assert forall|a: int, b: int| 0 <= a < b < ns.len() implies text::text_less(
                    #[trigger] ns[a],
                    #[trigger] ns[b],
                ) by {
                    assert(ns[a] == names@[a]@ && ns[b] == names@[b]@);
                }
                assert forall|k: Seq<char>| #[trigger] nt.contains_key(k) <==> ns.contains(k) by {
                    if nt.contains_key(k) {
                        assert(new@.contains_key(k));
                        let a = choose|a: int| 0 <= a < names@.len() && #[trigger] names@[a]@ == k;
                        assert(ns[a] == k);
                    }
                    if ns.contains(k) {
                        let a = choose|a: int| 0 <= a < ns.len() && ns[a] == k;
                        assert(new@.contains_key(names@[a]@));
                    }
                }
            }
        }
        out
    }

    /// Puts the settings in place.
    fn settings_commit(
        &mut self,
        plugins: StrMap<StrMap<String>>,
        global: Option<GlobalChange>,
        out: &mut Vec<Order>,
    ) -> (t: Turn)
        ensures
            settings_committed(
                *old(self),
                *final(self),
                settings::tables_text(plugins@),
                global,
                old(out)@,
                final(out)@,
                t,
            ),
    {
        let ghost before = self.store.inner@;
        let ghost start = out@;
        let ghost orig = *self;
        let mut after: Settings = self.store.snapshot();
        let prev_layout = after.global.layout;
        let mut prev_plugins: StrMap<StrMap<String>> = StrMap::new();
        std::mem::swap(&mut prev_plugins, &mut after.plugins);
        if let Some(g) = &global {
            after.global.target_extent = g.target_extent;
            after.global.render_size_policy = g.render_size_policy;
            after.global.wallpaper_filter =
            settings_filter_state_from_pb(&g.wallpaper_filters, &g.wallpaper_filter_logics);
            if let Some(fm) = g.fillmode {
                after.global.layout.fillmode = fm;
            }
            if let Some(al) = g.align {
                after.global.layout.align = al;
            }
            if let Some(c) = g.clear_rgba {
                after.global.layout.clear_rgba = c;
            }
        }
        let sends = self.list_sends(&plugins, &prev_plugins);
        after.plugins = plugins;
        let new_layout = after.global.layout;
        assert(after@ == changed_settings(before, settings::tables_text(plugins@), global));
        let _changed = self.store.update(after);
        let ghost mut fx_seen = Seq::<Effect>::empty();
        if !same_layout(&new_layout, &prev_layout) {
            let mut fx = self.router.resync_all_set_configs();
            let snap = self.router.snapshot_displays();
            let e = self.router.emit_displays_replace_for_settings_change(snap);
            fx.push(e);
            proof {
                fx_seen = fx@;
            }
            route(fx, out);
        } else {
            assert(seqs::views(fx_seen) =~= Seq::<EffectView>::empty());
            assert(out@ =~= start + dispatch::routed(fx_seen));
        }
        let ghost mid = out@;
        if sends.len() == 0 {
            out.push(Order::Publish(GlobalEvent::SettingsChanged));
            assert(out@ =~= (start + dispatch::routed(fx_seen)) + seq![
                Order::Publish(GlobalEvent::SettingsChanged),
            ]);
            return Turn::Done(Ok(Reply::SettingsSet));
        }
        let mut names: Vec<(String, String)> = Vec::new();
        let mut i: usize = 0;
        while i < sends.len()
            invariant
                i <= sends@.len(),
                names@.len() == i,
                forall|j: int|
                    0 <= j < i ==> (#[trigger] names@[j]).0 == sends@[j].renderer_id && names@[j].1
                        == sends@[j].plugin,
            decreases sends.len() - i,
        {
            names.push((sends[i].renderer_id.clone(), sends[i].plugin.clone()));
            i = i + 1;
        }
        assert(out@ =~= (start + dispatch::routed(fx_seen)) + Seq::<Order>::empty());
        Turn::Ask(Ask::SendSettings(sends), Wait::SettingsSent(names))
    }

    /// First turn of a change of the settings.
    pub fn settings_begin(
        &mut self,
        plugins: StrMap<StrMap<String>>,
        global: Option<GlobalChange>,
        out: &mut Vec<Order>,
    ) -> (t: Turn)
        ensures
            settings_begun(*old(self), *final(self), plugins, global, old(out)@, final(out)@, t),
    {
        let checks = list_checks(&plugins, &self.registry);
        let ghost tables = settings::tables_text(plugins@);
        if checks.len() == 0 {
            assert forall|p: Seq<char>, k: Seq<char>|
                tables.contains_key(p) && #[trigger] tables[p].contains_key(k) implies !declared(
                self.registry,
                p,
                k,
            ) by {
                if declared(self.registry, p, k) {
                    assert(has_check(checks@, p, k));
                }
            }
            return self.settings_commit(plugins, global, out);
        }
        let mut sent: Vec<SettingCheck> = Vec::new();
        let mut i: usize = 0;
        while i < checks.len()
            invariant
                i <= checks@.len(),
                sent@.len() == i,
                forall|j: int|
                    0 <= j < i ==> (#[trigger] sent@[j]).plugin == checks@[j].plugin && sent@[j].key
                        == checks@[j].key && sent@[j].value == checks@[j].value,
            decreases checks.len() - i,
        {
            sent.push(
                SettingCheck {
                    plugin: checks[i].plugin.clone(),
                    key: checks[i].key.clone(),
                    value: checks[i].value.clone(),
                },
            );
            i = i + 1;
        }
        Turn::Ask(Ask::CheckSettings(sent), Wait::SettingsChecked { plugins, global, checks })
    }

    /// The values were checked.
    pub fn settings_checked(
        &mut self,
        plugins: StrMap<StrMap<String>>,
        global: Option<GlobalChange>,
        checks: Vec<SettingCheck>,
        results: Vec<Result<String, String>>,
        out: &mut Vec<Order>,
    ) -> (t: Turn)
        requires
            checks@.len() == results@.len(),
        ensures
            settings_accepted(
                *old(self),
                *final(self),
                plugins,
                global,
                checks,
                results,
                old(out)@,
                final(out)@,
                t,
            ),
    {
        match coerce(plugins, &checks, results) {
            Ok(t) => self.settings_commit(t, global, out),
            Err(e) => {
                proof {
                    let i = choose|i: int| #[trigger]
                        first_failure(results@, i) && e is SettingsValidationFailed
                            && e->SettingsValidationFailed_0@ == checks@[i].plugin@ + "."@
                            + results@[i]->Err_0@;
                    assert(results@[i] is Err);
                }
                Turn::Done(Err(e))
            },
        }
    }
}

/// The checks that are handed out are those that are kept.
pub open spec fn same_checks(a: Seq<SettingCheck>, b: Seq<SettingCheck>) -> bool {
    a.len() == b.len() && forall|i: int|
        0 <= i < a.len() ==> (#[trigger] a[i]).plugin == b[i].plugin && a[i].key == b[i].key
            && a[i].value == b[i].value
}

/// The settings are in place: displays follow a new default layout, and the
/// messages to running renderers go out, or everyone is told at once where
/// there are none.
pub open spec fn settings_committed(
    a: Daemon,
    b: Daemon,
    tables: Tables,
    global: Option<GlobalChange>,
    out_before: Seq<Order>,
    out_after: Seq<Order>,
    t: Turn,
) -> bool {
    let v = a.store.inner@;
    let w = changed_settings(v, tables, global);
    let s = resettled(a.router@, !settings::layout_eq(w.global.layout, v.global.layout));
    &&& b.registry == a.registry
    &&& b.catalog == a.catalog
    &&& b.manager == a.manager
    &&& b.queue == a.queue
    &&& settings::saved(a.store, b.store, w)
    &&& b.router@ == s.v
    &&& exists|fx: Seq<Effect>|
        {
            &&& seqs::views(fx) == s.fx
            &&& out_after == #[trigger] (out_before + dispatch::routed(fx)) + (if t is Done {
                seq![Order::Publish(GlobalEvent::SettingsChanged)]
            } else {
                Seq::empty()
            })
        }
    &&& match t {
        Turn::Done(r) => r == Ok::<Reply, Error>(Reply::SettingsSet) && is_send_list(
            Seq::empty(),
            a.registry,
            a.manager@,
            tables,
            v.plugins,
        ),
        Turn::Ask(Ask::SendSettings(sends), Wait::SettingsSent(names)) => {
            &&& sends@.len() > 0
            &&& is_send_list(seqs::views(sends@), a.registry, a.manager@, tables, v.plugins)
            &&& names@.len() == sends@.len()
            &&& forall|i: int|
                0 <= i < names@.len() ==> (#[trigger] names@[i]).0 == sends@[i].renderer_id
                    && names@[i].1 == sends@[i].plugin
        },
        _ => false,
    }
}

/// The turn after the messages went out.
pub open spec fn settings_finished(
    names: Vec<(String, String)>,
    results: Vec<Result<(), String>>,
    out_before: Seq<Order>,
    out_after: Seq<Order>,
    t: Turn,
) -> bool {
    let texts = failures(names@, results@, results@.len() as int);
    &&& out_after == out_before.push(Order::Publish(GlobalEvent::SettingsChanged))
    &&& if texts.len() == 0 {
        t == Turn::Done(Ok(Reply::SettingsSet))
    } else {
        t matches Turn::Done(Err(Error::SettingsApplyFailed(m))) && m@ == failure_report(texts)
    }
}

pub proof fn lemma_no_failures(
    names: Seq<(String, String)>,
    results: Seq<Result<(), String>>,
    n: int,
)
    requires
        0 <= n <= results.len(),
    ensures
        failures(names, results, n).len() == 0 <==> forall|i: int|
            0 <= i < n ==> (#[trigger] results[i]) is Ok,
    decreases n,
{
    if n > 0 {
        lemma_no_failures(names, results, n - 1);
        if results[n - 1] is Ok {
            assert(failures(names, results, n) == failures(names, results, n - 1));
        } else {
            assert(!(results[n - 1] is Ok));
        }
    }
}

/// The messages went out, or some did not. Everyone is told of the new settings
/// in any case.
pub fn settings_sent(
    names: Vec<(String, String)>,
    results: Vec<Result<(), String>>,
    out: &mut Vec<Order>,
) -> (t: Turn)
    requires
        names@.len() == results@.len(),
    ensures
        settings_finished(names, results, old(out)@, final(out)@, t),
{
    let mut texts: Vec<String> = Vec::new();
    let mut i: usize = 0;
    assert(text::lines(texts@) =~= Seq::<Seq<char>>::empty());
    while i < results.len()
        invariant
            i <= results@.len(),
            names@.len() == results@.len(),
            text::lines(texts@) == failures(names@, results@, i as int),
        decreases results.len() - i,
    {
        match &results[i] {
            Ok(_) => {},
            Err(m) => {
                let mut s = names[i].0.clone();
                s.append(" (");
                s.append(names[i].1.as_str());
                s.append("): ");
                s.append(m.as_str());
                push_line(&mut texts, s);
            },
        }
        i = i + 1;
    }
    out.push(Order::Publish(GlobalEvent::SettingsChanged));
    assert(text::lines(texts@).len() == texts@.len());
    if texts.len() == 0 {
        return Turn::Done(Ok(Reply::SettingsSet));
    }
    let ghost all = text::lines(texts@);
    let mut s = String::new();
    push_dec(&mut s, texts.len() as u64);
    assert(s@ =~= text::dec_text(all.len()));
    s.append(" renderer(s): ");
    let ghost head = s@;
    let mut k: usize = 0;
    assert(head + listed(all, 0) =~= head);
    while k < texts.len()
        invariant
            k <= texts@.len(),
            all == text::lines(texts@),
            s@ == head + listed(all, k as int),
        decreases texts.len() - k,
    {
        let ghost before = s@;
        assert(all[k as int] == texts@[k as int]@);
        if k > 0 {
            s.append("; ");
        }
        s.append(texts[k].as_str());
        k = k + 1;
        assert(s@ =~= head + listed(all, k as int));
    }
    Turn::Done(Err(Error::SettingsApplyFailed(s)))
}

/// The message goes to a running renderer of its plugin, and holds what of the
/// plugin's declared settings changed.
pub open spec fn fits_a_renderer(
    s: SendView,
    reg: Registry,
    live: Seq<LiveRenderer>,
    new: Tables,
    old: Tables,
) -> bool {
    &&& exists|l: int|
        0 <= l < live.len() && (#[trigger] live[l]).id@ == s.renderer_id && live[l].name@ == s.plugin
    &&& forall|i: int|
        0 <= i < s.kv.len() ==> {
            let k = (#[trigger] s.kv[i]).0;
            &&& declared(reg, s.plugin, k)
            &&& settings::table_of(new, s.plugin).contains_key(k)
            &&& settings::table_of(new, s.plugin)[k] == s.kv[i].1
            &&& settings::table_of(old, s.plugin).contains_key(k) ==> settings::table_of(
                old,
                s.plugin,
            )[k] != s.kv[i].1
        }
}

proof fn lemma_sends_to(
    live: Seq<LiveRenderer>,
    plugin: Seq<char>,
    kv: Seq<(Seq<char>, Seq<char>)>,
    n: int,
)
    requires
        0 <= n <= live.len(),
    ensures
        forall|i: int|
            0 <= i < sends_to(live, plugin, kv, n).len() ==> {
                let s = #[trigger] sends_to(live, plugin, kv, n)[i];
                &&& s.plugin == plugin
                &&& s.kv == kv
                &&& exists|l: int|
                    0 <= l < live.len() && (#[trigger] live[l]).id@ == s.renderer_id
                        && live[l].name@ == plugin
            },
    decreases n,
{
    if n > 0 {
        lemma_sends_to(live, plugin, kv, n - 1);
        let rest = sends_to(live, plugin, kv, n - 1);
        let all = sends_to(live, plugin, kv, n);
        assert forall|i: int| 0 <= i < all.len() implies {
            let s = #[trigger] all[i];
            &&& s.plugin == plugin
            &&& s.kv == kv
            &&& exists|l: int|
                0 <= l < live.len() && (#[trigger] live[l]).id@ == s.renderer_id && live[l].name@
                    == plugin
        } by {
            if i < rest.len() {
                assert(all[i] == rest[i]);
            } else {
                assert(live[n - 1].id@ == all[i].renderer_id);
            }
        }
    }
}

proof fn lemma_sends_for(
    reg: Registry,
    live: Seq<LiveRenderer>,
    new: Tables,
    old: Tables,
    plugin: Seq<char>,
)
    requires
        settings::table_of(new, plugin).dom().finite(),
    ensures
        forall|i: int|
            0 <= i < sends_for(reg, live, new, old, plugin).len() ==> fits_a_renderer(
                #[trigger] sends_for(reg, live, new, old, plugin)[i],
                reg,
                live,
                new,
                old,
            ),
{
    if let Some(d) = dispatch::def_named(reg.defs@, plugin) {
        let a = settings::table_of(new, plugin);
        let b = settings::table_of(old, plugin);
        let changed = changed_values(a, b, d.settings@);
        let kv = strmap::sorted_list(changed);
        assert(changed.dom().subset_of(a.dom()));
        vstd::set_lib::lemma_len_subset(changed.dom(), a.dom());
        strmap::sorted_list_lists_the_map(changed);
        lemma_sends_to(live, plugin, kv, live.len() as int);
        let all = sends_for(reg, live, new, old, plugin);
        assert forall|i: int| 0 <= i < all.len() implies fits_a_renderer(
            #[trigger] all[i],
            reg,
            live,
            new,
            old,
        ) by {
            let s = all[i];
            assert(s == sends_to(live, plugin, kv, live.len() as int)[i]);
            assert forall|j: int| 0 <= j < s.kv.len() implies {
                let k = (#[trigger] s.kv[j]).0;
                &&& declared(reg, s.plugin, k)
                &&& a.contains_key(k)
                &&& a[k] == s.kv[j].1
                &&& b.contains_key(k) ==> b[k] != s.kv[j].1
            } by {
                assert(changed.contains_key(kv[j].0));
            }
        }
    }
}

proof fn lemma_all_sends(
    reg: Registry,
    live: Seq<LiveRenderer>,
    new: Tables,
    old: Tables,
    plugins: Seq<Seq<char>>,
    n: int,
)
    requires
        0 <= n <= plugins.len(),
        forall|p: Seq<char>| #[trigger] settings::table_of(new, p).dom().finite(),
    ensures
        forall|i: int|
            0 <= i < all_sends(reg, live, new, old, plugins, n).len() ==> fits_a_renderer(
                #[trigger] all_sends(reg, live, new, old, plugins, n)[i],
                reg,
                live,
                new,
                old,
            ),
    decreases n,
{
    if n > 0 {
        lemma_all_sends(reg, live, new, old, plugins, n - 1);
        lemma_sends_for(reg, live, new, old, plugins[n - 1]);
        let a = all_sends(reg, live, new, old, plugins, n - 1);
        let b = sends_for(reg, live, new, old, plugins[n - 1]);
        let all = all_sends(reg, live, new, old, plugins, n);
        assert forall|i: int| 0 <= i < all.len() implies fits_a_renderer(
            #[trigger] all[i],
            reg,
            live,
            new,
            old,
        ) by {
            if i < a.len() {
                assert(all[i] == a[i]);
            } else {
                assert(all[i] == b[i - a.len()]);
            }
        }
    }
}

/// Every message that goes out after a change is for a renderer that runs, and
/// holds nothing but declared settings of its plugin that the change made
/// others, each with its new value.
pub proof fn renderers_are_sent_what_changed(
    sends: Seq<SendView>,
    reg: Registry,
    live: Seq<LiveRenderer>,
    new: Tables,
    old: Tables,
    i: int,
)
    requires
        is_send_list(sends, reg, live, new, old),
        forall|p: Seq<char>| #[trigger] settings::table_of(new, p).dom().finite(),
        0 <= i < sends.len(),
    ensures
        fits_a_renderer(sends[i], reg, live, new, old),
{
    let names = choose|names: Seq<Seq<char>>|
        names_of(new, names) && sends == #[trigger] all_sends(
            reg,
            live,
            new,
            old,
            names,
            names.len() as int,
        );
    lemma_all_sends(reg, live, new, old, names, names.len() as int);
}

/// A change with a wrong value changes nothing, and is answered with the first
/// value that is wrong. Any other puts the daemon-wide values in place as they
/// were given, and keeps what the change does not name.
pub proof fn change_is_taken_whole_or_not_at_all(
    d: &mut Daemon,
    plugins: StrMap<StrMap<String>>,
    global: Option<GlobalChange>,
    checks: Vec<SettingCheck>,
    results: Vec<Result<String, String>>,
    out: &mut Vec<Order>,
    t: Turn,
    i: int,
)
    requires
        call_ensures(Daemon::settings_checked, (d, plugins, global, checks, results, out), t),
        0 <= i <= results@.len(),
        i < results@.len() ==> results@[i] is Err,
        forall|j: int| 0 <= j < i ==> (#[trigger] results@[j]) is Ok,
    ensures
        i < results@.len() ==> {
            &&& *final(d) == *old(d)
            &&& final(out)@ == old(out)@
            &&& t matches Turn::Done(Err(Error::SettingsValidationFailed(m))) && m@
                == checks@[i].plugin@ + "."@ + results@[i]->Err_0@
        },
        i == results@.len() ==> {
            let a = old(d).store.inner@;
            let b = final(d).store.inner@;
            &&& b.displays == a.displays
            &&& global is None ==> b.global == a.global
            &&& global matches Some(g) ==> {
                &&& b.global.target_extent == g.target_extent
                &&& b.global.render_size_policy == g.render_size_policy
                &&& b.global.wallpaper_filter.filter_logics == g.wallpaper_filter_logics@
                &&& b.global.wallpaper_filter.filters.len() == g.wallpaper_filters@.len()
                &&& g.fillmode matches Some(x) ==> b.global.layout.fillmode == x
                &&& g.fillmode is None ==> b.global.layout.fillmode == a.global.layout.fillmode
                &&& g.align matches Some(x) ==> b.global.layout.align == x
                &&& g.align is None ==> b.global.layout.align == a.global.layout.align
                &&& g.clear_rgba matches Some(x) ==> b.global.layout.clear_rgba == x
                &&& g.clear_rgba is None ==> b.global.layout.clear_rgba == a.global.layout.clear_rgba
                &&& b.global.last_wallpaper == a.global.last_wallpaper
                &&& b.global.playlist_mode == a.global.playlist_mode
                &&& b.global.rotation_secs == a.global.rotation_secs
                &&& b.global.active_playlist_id == a.global.active_playlist_id
            }
            &&& final(d).queue == old(d).queue
            &&& final(d).manager == old(d).manager
        },
{
    if i < results@.len() {
        assert(!(results@[i] is Ok));
        let k = choose|k: int| #[trigger]
            first_failure(results@, k) && t->Done_0->Err_0->SettingsValidationFailed_0@
                == checks@[k].plugin@ + "."@ + results@[k]->Err_0@;
        assert(first_failure(results@, k));
        if k < i {
            assert(results@[k] is Ok);
        }
        assert(k == i);
    }
}

/// A change is done when every renderer took it; everyone is told of it either
/// way.
pub proof fn change_is_done_when_all_took_it(
    names: Vec<(String, String)>,
    results: Vec<Result<(), String>>,
    out: &mut Vec<Order>,
    t: Turn,
)
    requires
        call_ensures(settings_sent, (names, results, out), t),
    ensures
        t == Turn::Done(Ok(Reply::SettingsSet)) <==> forall|i: int|
            0 <= i < results@.len() ==> (#[trigger] results@[i]) is Ok,
        t is Done,
        t->Done_0 is Err ==> t->Done_0->Err_0 is SettingsApplyFailed,
        final(out)@ == old(out)@.push(Order::Publish(GlobalEvent::SettingsChanged)),
{
    lemma_no_failures(names@, results@, results@.len() as int);
}

} // verus!
