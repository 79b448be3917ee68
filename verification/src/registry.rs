//! Renderer manifests: what a renderer plugin supports and which settings it
//! declares.

use crate::strmap::StrMap;
use crate::text::{self, copy_lines, dec_string, list_contains, parse_u32, push_int, str_eq};
use vstd::prelude::*;

verus! {

#[derive(Debug, Clone, Copy, PartialEq, Eq, Structural)]
pub enum SettingType {
    U32,
    F32,
    Bool,
    Text,
}

/// Default value of a setting as its manifest spells it. Where a value is a
/// float, the texts it is shown with are kept instead.
#[derive(Debug)]
pub enum SettingDefault {
    /// A whole number, with its text as a single-precision float.
    Integer { value: i64, as_float: String },
    /// A float: its plain text and its manifest text.
    Float { plain: String, manifest: String },
    Boolean(bool),
    Text(String),
    /// Any other value by its manifest text.
    Other { manifest: String },
}

/// One declared setting.
#[derive(Debug)]
pub struct SettingDef {
    pub ty: SettingType,
    pub default: SettingDefault,
    /// A change needs a new renderer process.
    pub identity: bool,
    /// Bounds of a whole number.
    pub min: Option<u32>,
    pub max: Option<u32>,
    /// The values to choose from, where there is a choice.
    pub choices: Option<Vec<String>>,
    /// Place among the settings of the plugin.
    pub order: i32,
}

pub open spec fn bool_text(b: bool) -> Seq<char> {
    if b {
        "true"@
    } else {
        "false"@
    }
}

impl SettingDef {
    /// `value` is of the setting's type and within its bounds and choices.
    /// Whether a float lies within its bounds is decided by the caller.
    pub open spec fn accepts(self, value: Seq<char>, float_ok: bool) -> bool {
        &&& match self.ty {
            SettingType::U32 => {
                &&& text::u32_value(value) is Some
                &&& self.min is Some ==> self.min->0 <= text::u32_value(value)->0
                &&& self.max is Some ==> text::u32_value(value)->0 <= self.max->0
            },
            SettingType::F32 => float_ok,
            SettingType::Bool => value == "true"@ || value == "false"@,
            SettingType::Text => true,
        }
        &&& self.choices is Some ==> text::lines(self.choices->0@).contains(value)
    }

    /// The form in which a value of the setting's type is kept; `None` for a
    /// value of another type. `float` is the kept form of a value that reads as
    /// a float.
    pub open spec fn coerced(self, value: Seq<char>, float: Option<Seq<char>>) -> Option<Seq<char>> {
        match self.ty {
            SettingType::U32 => match text::u32_value(value) {
                Some(n) => Some(text::dec_text(n as nat)),
                None => None,
            },
            SettingType::F32 => float,
            SettingType::Bool => if value == "true"@ || value == "false"@ {
                Some(value)
            } else {
                None
            },
            SettingType::Text => Some(value),
        }
    }

    /// Text of the default value under the setting's type.
    pub open spec fn default_value(self) -> Seq<char> {
        match self.default {
            SettingDefault::Text(s) => s@,
            SettingDefault::Boolean(b) => bool_text(b),
            SettingDefault::Integer { value, as_float } => if self.ty == SettingType::F32 {
                as_float@
            } else {
                text::int_text(value as int)
            },
            SettingDefault::Float { plain, manifest } => if self.ty == SettingType::F32 {
                plain@
            } else {
                manifest@
            },
            SettingDefault::Other { manifest } => manifest@,
        }
    }

    pub fn default_text(&self) -> (s: String)
        ensures
            s@ == self.default_value(),
    {
        match &self.default {
            SettingDefault::Text(s) => s.clone(),
            SettingDefault::Boolean(b) => if *b {
                "true".to_owned()
            } else {
                "false".to_owned()
            },
            SettingDefault::Integer { value, as_float } => if self.ty == SettingType::F32 {
                as_float.clone()
            } else {
                let mut s = String::new();
                push_int(&mut s, *value);
                assert(s@ =~= text::int_text(*value as int));
                s
            },
            SettingDefault::Float { plain, manifest } => if self.ty == SettingType::F32 {
                plain.clone()
            } else {
                manifest.clone()
            },
            SettingDefault::Other { manifest } => manifest.clone(),
        }
    }
}

/// Whether a stored value fits its declaration.
pub fn check_setting_bounds(value: &str, def: &SettingDef, float_ok: bool) -> (r: bool)
    ensures
        r == def.accepts(value@, float_ok),
{
    let typed = match def.ty {
        SettingType::U32 => match parse_u32(value) {
            None => false,
            Some(v) => {
                let above = match def.min {
                    Some(m) => m <= v,
                    None => true,
                };
                let below = match def.max {
                    Some(m) => v <= m,
                    None => true,
                };
                above && below
            },
        },
        SettingType::F32 => float_ok,
        SettingType::Bool => str_eq(value, "true") || str_eq(value, "false"),
        SettingType::Text => true,
    };
    let chosen = match &def.choices {
        Some(list) => list_contains(list, value),
        None => true,
    };
    typed && chosen
}

/// A text that reads as a float.
#[derive(Debug)]
pub struct FloatText {
    /// The form in which the float is kept.
    pub kept: String,
    /// The float lies within the bounds of its setting.
    pub in_bounds: bool,
}

pub open spec fn float_kept(float: Option<FloatText>) -> Option<Seq<char>> {
    match float {
        Some(f) => Some(f.kept@),
        None => None,
    }
}

fn coerce(value: &str, def: &SettingDef, float: &Option<FloatText>) -> (r: Option<String>)
    ensures
        text::opt_text(r) == def.coerced(value@, float_kept(*float)),
{
    match def.ty {
        SettingType::U32 => match parse_u32(value) {
            Some(n) => Some(dec_string(n as u64)),
            None => None,
        },
        SettingType::F32 => match float {
            Some(f) => Some(f.kept.clone()),
            None => None,
        },
        SettingType::Bool => if str_eq(value, "true") || str_eq(value, "false") {
            Some(value.to_owned())
        } else {
            None
        },
        SettingType::Text => Some(value.to_owned()),
    }
}

/// The complaint about a value of the setting `key`.
pub open spec fn complaint(key: Seq<char>, value: Seq<char>, fault: Seq<char>) -> Seq<char> {
    key + ": value '"@ + value + "' "@ + fault
}

fn complain(key: &str, value: &str, fault: &str) -> (s: String)
    ensures
        s@ == complaint(key@, value@, fault@),
{
    let mut s = key.to_owned();
    s.append(": value '");
    s.append(value);
    s.append("' ");
    s.append(fault);
    s
}

/// The form in which a new value of the setting `key` is kept. A value of
/// another type is turned down, and so is one outside the bounds or choices.
/// Reading a float is left to the caller.
pub fn coerce_and_validate(
    key: &str,
    value: &str,
    def: &SettingDef,
    float: &Option<FloatText>,
) -> (r: Result<String, String>)
    ensures
        match def.coerced(value@, float_kept(*float)) {
            None => r is Err && r->Err_0@ == complaint(key@, value@, "has the wrong type"@),
            Some(v) => if def.accepts(v, *float is Some && float->0.in_bounds) {
                r is Ok && r->Ok_0@ == v
            } else {
                r is Err && r->Err_0@ == complaint(key@, v, "out of range"@)
            },
        },
{
    let float_ok: bool = match float {
        Some(f) => f.in_bounds,
        None => false,
    };
    match coerce(value, def, float) {
        None => Err(complain(key, value, "has the wrong type")),
        Some(v) => if check_setting_bounds(v.as_str(), def, float_ok) {
            Ok(v)
        } else {
            Err(complain(key, v.as_str(), "out of range"))
        },
    }
}

/// Manifest of a renderer plugin.
#[derive(Debug)]
pub struct RendererDef {
    pub name: String,
    pub bin: String,
    pub types: Vec<String>,
    pub priority: i32,
    pub version: String,
    /// Version of the start-up message the renderer expects, if it names one.
    pub spawn_version: Option<u32>,
    pub extras: Vec<String>,
    pub settings: StrMap<SettingDef>,
    /// Kinds of input events the renderer wants.
    pub events: Vec<String>,
}

// ---------------------------------------------------------------------------
// The declared settings
// ---------------------------------------------------------------------------

/// Two declarations say the same.
pub open spec fn same_setting(a: SettingDef, b: SettingDef) -> bool {
    &&& a == (SettingDef { choices: a.choices, ..b })
    &&& a.choices is Some <==> b.choices is Some
    &&& a.choices is Some ==> a.choices->0@ == b.choices->0@
}

/// Two tables declare the same settings.
pub open spec fn same_settings(
    a: Map<Seq<char>, SettingDef>,
    b: Map<Seq<char>, SettingDef>,
) -> bool {
    &&& a.dom() == b.dom()
    &&& forall|k: Seq<char>| #[trigger] a.contains_key(k) ==> same_setting(a[k], b[k])
}

fn copy_default(d: &SettingDefault) -> (r: SettingDefault)
    ensures
        r == *d,
{
    match d {
        SettingDefault::Integer { value, as_float } => SettingDefault::Integer {
            value: *value,
            as_float: as_float.clone(),
        },
        SettingDefault::Float { plain, manifest } => SettingDefault::Float {
            plain: plain.clone(),
            manifest: manifest.clone(),
        },
        SettingDefault::Boolean(b) => SettingDefault::Boolean(*b),
        SettingDefault::Text(t) => SettingDefault::Text(t.clone()),
        SettingDefault::Other { manifest } => SettingDefault::Other { manifest: manifest.clone() },
    }
}

fn copy_setting(s: &SettingDef) -> (r: SettingDef)
    ensures
        same_setting(r, *s),
{
    SettingDef {
        ty: s.ty,
        default: copy_default(&s.default),
        identity: s.identity,
        min: s.min,
        max: s.max,
        choices: match &s.choices {
            Some(list) => Some(copy_lines(list)),
            None => None,
        },
        order: s.order,
    }
}

fn copy_settings(table: &StrMap<SettingDef>) -> (r: StrMap<SettingDef>)
    ensures
        same_settings(r@, table@),
{
    let keys = table.keys();
    let mut r: StrMap<SettingDef> = StrMap::new();
    let mut i: usize = 0;
    while i < keys.len()
        invariant
            i <= keys@.len(),
            forall|j: int| 0 <= j < keys@.len() ==> table@.contains_key(#[trigger] keys@[j]@),
            forall|k: Seq<char>| #[trigger]
                r@.contains_key(k) ==> table@.contains_key(k) && same_setting(r@[k], table@[k]),
            forall|j: int| 0 <= j < i ==> r@.contains_key(#[trigger] keys@[j]@),
        decreases keys.len() - i,
    {
        assert(table@.contains_key(keys@[i as int]@));
        if let Some(s) = table.get(keys[i].as_str()) {
            r.insert(keys[i].clone(), copy_setting(s));
        }
        i = i + 1;
    }
    assert(r@.dom() =~= table@.dom()) by {
        assert forall|k: Seq<char>| #[trigger] table@.contains_key(k) implies r@.contains_key(k) by {
            let j = choose|j: int| 0 <= j < keys@.len() && #[trigger] keys@[j]@ == k;
            assert(r@.contains_key(keys@[j]@));
        }
        assert forall|k: Seq<char>| r@.dom().contains(k) <==> table@.dom().contains(k) by {
            assert(r@.contains_key(k) <==> table@.contains_key(k));
        }
    }
    r
}

/// Of the first `n` manifests, `i` is the last one of that name.
pub open spec fn last_named(defs: Seq<RendererDef>, n: int, name: Seq<char>, i: int) -> bool {
    &&& 0 <= i < n
    &&& defs[i].name@ == name
    &&& forall|j: int| i < j < n ==> (#[trigger] defs[j]).name@ != name
}

/// `tables` holds the settings of each of the first `n` manifests by its name.
pub open spec fn declares(
    defs: Seq<RendererDef>,
    n: int,
    tables: Map<Seq<char>, StrMap<SettingDef>>,
) -> bool {
    &&& forall|p: Seq<char>| #[trigger]
        tables.contains_key(p) ==> exists|i: int|
            #[trigger] last_named(defs, n, p, i) && same_settings(tables[p]@, defs[i].settings@)
    &&& forall|i: int| 0 <= i < n ==> tables.contains_key((#[trigger] defs[i]).name@)
}

/// The settings that each renderer declares, by its name; of manifests with the
/// same name the last one counts.
pub fn declared_settings(defs: &Vec<RendererDef>) -> (tables: StrMap<StrMap<SettingDef>>)
    ensures
        declares(defs@, defs@.len() as int, tables@),
{
    let mut tables: StrMap<StrMap<SettingDef>> = StrMap::new();
    let mut i: usize = 0;
    while i < defs.len()
        invariant
            i <= defs@.len(),
            declares(defs@, i as int, tables@),
        decreases defs.len() - i,
    {
        let ghost before = tables@;
        let d: &RendererDef = &defs[i];
        tables.insert(d.name.clone(), copy_settings(&d.settings));
        assert forall|p: Seq<char>| #[trigger] tables@.contains_key(p) implies exists|k: int|
            #[trigger] last_named(defs@, i + 1, p, k) && same_settings(
                tables@[p]@,
                defs@[k].settings@,
            ) by {
            if p == d.name@ {
                assert(last_named(defs@, i + 1, p, i as int));
            } else {
                assert(before.contains_key(p));
                let k = choose|k: int| #[trigger]
                    last_named(defs@, i as int, p, k) && same_settings(before[p]@, defs@[k].settings@);
                assert(last_named(defs@, i + 1, p, k));
            }
        }
        i = i + 1;
    }
    tables
}

// ---------------------------------------------------------------------------
// The best renderer of a type
// ---------------------------------------------------------------------------

/// The renderer shows wallpapers of the type.
pub open spec fn serves(d: RendererDef, wp_type: Seq<char>) -> bool {
    text::lines(d.types@).contains(wp_type)
}

/// Of the first `n` manifests, `i` is the one for the type: none that serves it
/// has a higher priority, and of those with the same one it is the first.
pub open spec fn leads(defs: Seq<RendererDef>, n: int, wp_type: Seq<char>, i: int) -> bool {
    &&& 0 <= i < n
    &&& serves(defs[i], wp_type)
    &&& forall|j: int|
        0 <= j < n && serves(#[trigger] defs[j], wp_type) ==> {
            &&& defs[j].priority <= defs[i].priority
            &&& j < i ==> defs[j].priority < defs[i].priority
        }
}

/// `i` is the manifest for the type.
pub open spec fn is_best(defs: Seq<RendererDef>, wp_type: Seq<char>, i: int) -> bool {
    leads(defs, defs.len() as int, wp_type, i)
}

/// `best` holds the name of the manifest for each type that one serves, and no
/// other type.
pub open spec fn picks_best(defs: Seq<RendererDef>, best: Map<Seq<char>, String>) -> bool {
    &&& forall|t: Seq<char>| #[trigger]
        best.contains_key(t) ==> exists|i: int|
            #[trigger] is_best(defs, t, i) && best[t]@ == defs[i].name@
    &&& forall|i: int, t: Seq<char>|
        0 <= i < defs.len() && #[trigger] serves(defs[i], t) ==> best.contains_key(t)
}

/// The manifest for a type.
pub fn best_for(defs: &Vec<RendererDef>, wp_type: &str) -> (r: Option<usize>)
    ensures
        match r {
            Some(i) => is_best(defs@, wp_type@, i as int),
            None => forall|j: int| 0 <= j < defs@.len() ==> !serves(#[trigger] defs@[j], wp_type@),
        },
{
    let mut best: Option<usize> = None;
    let mut i: usize = 0;
    while i < defs.len()
        invariant
            i <= defs@.len(),
            match best {
                Some(b) => leads(defs@, i as int, wp_type@, b as int),
                None => forall|j: int| 0 <= j < i ==> !serves(#[trigger] defs@[j], wp_type@),
            },
        decreases defs.len() - i,
    {
        if list_contains(&defs[i].types, wp_type) {
            let better: bool = match best {
                Some(b) => defs[b].priority < defs[i].priority,
                None => true,
            };
            if better {
                best = Some(i);
            }
        }
        i = i + 1;
    }
    best
}

/// The name of the best renderer for each type.
pub fn best_renderers(defs: &Vec<RendererDef>) -> (best: StrMap<String>)
    ensures
        picks_best(defs@, best@),
{
    let mut best: StrMap<String> = StrMap::new();
    let mut i: usize = 0;
    while i < defs.len()
        invariant
            i <= defs@.len(),
            forall|t: Seq<char>| #[trigger]
                best@.contains_key(t) ==> exists|b: int|
                    #[trigger] is_best(defs@, t, b) && best@[t]@ == defs@[b].name@,
            forall|k: int, t: Seq<char>|
                0 <= k < i && #[trigger] serves(defs@[k], t) ==> best@.contains_key(t),
        decreases defs.len() - i,
    {
        let mut j: usize = 0;
        while j < defs[i].types.len()
            invariant
                i < defs@.len(),
                j <= defs@[i as int].types@.len(),
                forall|t: Seq<char>| #[trigger]
                    best@.contains_key(t) ==> exists|b: int|
                        #[trigger] is_best(defs@, t, b) && best@[t]@ == defs@[b].name@,
                forall|k: int, t: Seq<char>|
                    0 <= k < i && #[trigger] serves(defs@[k], t) ==> best@.contains_key(t),
                forall|m: int|
                    0 <= m < j ==> best@.contains_key(#[trigger] text::lines(defs@[i as int].types@)[m]),
            decreases defs@[i as int].types.len() - j,
        {
            let t: &String = &defs[i].types[j];
            let ghost before = best@;
            proof {
                assert(text::lines(defs@[i as int].types@)[j as int] == t@);
                assert(serves(defs@[i as int], t@));
            }
            if let Some(b) = best_for(defs, t.as_str()) {
                let name = defs[b].name.clone();
                best.insert(t.clone(), name);
                assert forall|u: Seq<char>| #[trigger] best@.contains_key(u) implies exists|c: int|
                    #[trigger] is_best(defs@, u, c) && best@[u]@ == defs@[c].name@ by {
                    if u == t@ {
                        assert(is_best(defs@, u, b as int));
                    } else {
                        assert(before.contains_key(u));
                    }
                }
            }
            j = j + 1;
        }
        assert forall|k: int, t: Seq<char>|
            0 <= k < i + 1 && #[trigger] serves(defs@[k], t) implies best@.contains_key(t) by {
            if k == i {
                let all = text::lines(defs@[i as int].types@);
                let m = choose|m: int| 0 <= m < all.len() && all[m] == t;
                assert(best@.contains_key(all[m]));
            }
        }
        i = i + 1;
    }
    best
}

/// A whole number fits its setting where it is one, and lies within the bounds
/// that the manifest gives; a switch is one of two words; any text is text. A
/// value has to be one of the choices where there are any.
pub proof fn setting_bounds_are_those_of_the_manifest(
    value: &str,
    def: &SettingDef,
    float_ok: bool,
    r: bool,
)
    requires
        call_ensures(check_setting_bounds, (value, def, float_ok), r),
    ensures
        ({
            let chosen = def.choices is None || exists|i: int|
                0 <= i < def.choices->0@.len() && (#[trigger] def.choices->0@[i])@ == value@;
            r <==> chosen && match def.ty {
                SettingType::U32 => text::u32_value(value@) is Some && {
                    let n = text::u32_value(value@)->0;
                    &&& def.min is None || def.min->0 <= n
                    &&& def.max is None || n <= def.max->0
                },
                SettingType::F32 => float_ok,
                SettingType::Bool => value@ == "true"@ || value@ == "false"@,
                SettingType::Text => true,
            }
        }),
{
    if def.choices is Some {
        let all = text::lines(def.choices->0@);
        if all.contains(value@) {
            let i = all.index_of(value@);
            assert(def.choices->0@[i]@ == value@);
        }
        if exists|i: int|
            0 <= i < def.choices->0@.len() && (#[trigger] def.choices->0@[i])@ == value@ {
            let i = choose|i: int|
                0 <= i < def.choices->0@.len() && (#[trigger] def.choices->0@[i])@ == value@;
            assert(all[i] == value@);
        }
    }
}

/// A value that is kept fits its setting, and is kept again as it is. A whole
/// number keeps its value; a switch or a text is kept as it was given.
pub proof fn kept_value_is_the_value(
    key: &str,
    value: &str,
    def: &SettingDef,
    r: Result<String, String>,
)
    requires
        call_ensures(coerce_and_validate, (key, value, def, &None), r),
    ensures
        def.ty == SettingType::F32 ==> r is Err,
        r matches Ok(v) ==> def.accepts(v@, false),
        r is Ok && def.ty != SettingType::U32 ==> r->Ok_0@ == value@,
        r is Ok && def.ty == SettingType::U32 ==> text::u32_value(value@) is Some && r->Ok_0@
            == text::dec_text(text::u32_value(value@)->0 as nat),
        r is Err && def.ty != SettingType::U32 ==> !def.accepts(value@, false),
{
}

/// The default of a setting is shown as the manifest spells it; a switch by its
/// word, and a number under the type of the setting.
pub proof fn default_is_that_of_the_manifest(def: SettingDef, s: String)
    requires
        call_ensures(SettingDef::default_text, (&def,), s),
    ensures
        def.default matches SettingDefault::Text(t) ==> s@ == t@,
        def.default matches SettingDefault::Boolean(b) ==> s@ == (if b {
            "true"@
        } else {
            "false"@
        }),
        def.default matches SettingDefault::Integer { value, as_float } ==> s@ == (if def.ty
            == SettingType::F32 {
            as_float@
        } else {
            text::int_text(value as int)
        }),
        def.default matches SettingDefault::Float { plain, manifest } ==> s@ == (if def.ty
            == SettingType::F32 {
            plain@
        } else {
            manifest@
        }),
        def.default matches SettingDefault::Other { manifest } ==> s@ == manifest@,
{
}

} // verus!
