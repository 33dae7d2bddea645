use vstd::prelude::*;

verus! {

/// Everything that can go wrong while loading, localizing, validating or
/// publishing recipes.
#[derive(Debug, Clone, PartialEq)]
pub enum Error {
    /// A recipe document (or one of this crate's machine-readable documents)
    /// could not be parsed.
    ParseError(String),
    /// A localized value holds neither the requested locale nor the default
    /// locale. From a lookup the payload is the locale that was requested;
    /// from the validators it is the name of the field whose value lacks the
    /// default locale.
    MissingLocale(String),
    /// Two recipes claim the same identifier; the payload is the identifier.
    DuplicateIdentifier(String),
    /// Two recipes claim the same slug; the payload is the slug.
    DuplicateSlug(String),
    /// A collection that must not be empty is empty; the payload names it.
    EmptyRequiredCollection(String),
    /// A filesystem operation failed.
    IoError(String),
    /// The template renderer failed.
    RenderError(String),
}

/// The locale every recipe must carry and the one lookup falls back to.
pub open spec fn default_locale() -> Seq<char> {
    "en_US"@
}

/// A per-locale text value: locale code to text, with silent fallback to the
/// default locale on lookup.
#[derive(Debug, Clone, PartialEq)]
pub struct LocalizedString {
    pub entries: Vec<(String, String)>,
}

/// Index of the first entry whose key is `key`; `entries.len()` when none
/// matches.
pub open spec fn match_index(entries: Seq<(String, String)>, key: Seq<char>) -> int
    decreases entries.len(),
{
    if entries.len() == 0 {
        0
    } else if entries[0].0@ == key {
        0
    } else {
        1 + match_index(entries.drop_first(), key)
    }
}

pub proof fn lemma_match_index(entries: Seq<(String, String)>, key: Seq<char>)
    ensures
        0 <= match_index(entries, key) <= entries.len(),
        match_index(entries, key) < entries.len() ==> entries[match_index(entries, key)].0@
            == key,
        forall|j: int|
            0 <= j < match_index(entries, key) ==> entries[j].0@ != key,
        forall|j: int|
            0 <= j < entries.len() && entries[j].0@ == key ==> match_index(entries, key) <= j,
    decreases entries.len(),
{
    if entries.len() > 0 && entries[0].0@ != key {
        lemma_match_index(entries.drop_first(), key);
        assert forall|j: int| 0 <= j < entries.len() && entries[j].0@ == key implies match_index(
            entries,
            key,
        ) <= j by {
            assert(entries.drop_first()[j - 1] == entries[j]);
        }
        assert forall|j: int| 0 <= j < match_index(entries, key) implies entries[j].0@ != key by {
            if j > 0 {
                assert(entries.drop_first()[j - 1] == entries[j]);
            }
        }
    }
}

impl LocalizedString {
    /// Some entry carries this locale code.
    pub open spec fn spec_has(self, key: Seq<char>) -> bool {
        match_index(self.entries@, key) < self.entries@.len()
    }

    /// The text of the first entry carrying this locale code.
    pub open spec fn spec_get(self, key: Seq<char>) -> Seq<char> {
        self.entries@[match_index(self.entries@, key)].1@
    }

    /// Locale codes are pairwise distinct.
    pub open spec fn wf(self) -> bool {
        forall|i: int, j: int|
            0 <= i < j < self.entries@.len() ==> self.entries@[i].0@ != self.entries@[j].0@
    }

    /// Constructs a single-locale value holding `value` under the default
    /// locale.
    pub fn new(value: &str) -> (r: LocalizedString)
        ensures
            r.entries@.len() == 1,
            r.entries@[0].0@ == default_locale(),
            r.entries@[0].1@ == value@,
            r.wf(),
    {
        let mut entries: Vec<(String, String)> = Vec::new();
        entries.push((String::from_str("en_US"), String::from_str(value)));
        LocalizedString { entries }
    }

    /// First entry's text for `key`, if any entry carries it.
    fn get_entry(&self, key: &String) -> (r: Option<&String>)
        ensures
            self.spec_has(key@) ==> (r matches Some(v) && v@ == self.spec_get(key@)),
            !self.spec_has(key@) ==> r is None,
    {
        proof {
            lemma_match_index(self.entries@, key@);
        }
        let mut i: usize = 0;
        while i < self.entries.len()
            invariant
                0 <= i <= self.entries@.len(),
                forall|j: int| 0 <= j < i ==> self.entries@[j].0@ != key@,
                0 <= match_index(self.entries@, key@) <= self.entries@.len(),
                match_index(self.entries@, key@) < self.entries@.len()
                    ==> self.entries@[match_index(self.entries@, key@)].0@ == key@,
                forall|j: int|
                    0 <= j < self.entries@.len() && self.entries@[j].0@ == key@ ==> match_index(
                        self.entries@,
                        key@,
                    ) <= j,
            decreases self.entries@.len() - i,
        {
            if self.entries[i].0 == *key {
                return Some(&self.entries[i].1);
            }
            i += 1;
        }
        None
    }

    /// The locale actually searched for: the requested one, or the default
    /// when none is requested.
    pub open spec fn search_key(locale: Option<Seq<char>>) -> Seq<char> {
        match locale {
            Some(l) => l,
            None => default_locale(),
        }
    }

    /// The lookup can produce a text: the searched locale or the default
    /// locale is present.
    pub open spec fn resolvable(self, locale: Option<Seq<char>>) -> bool {
        self.spec_has(Self::search_key(locale)) || self.spec_has(default_locale())
    }

    /// The text the lookup produces: the searched locale's when present, else
    /// the default locale's.
    pub open spec fn resolved(self, locale: Option<Seq<char>>) -> Seq<char> {
        if self.spec_has(Self::search_key(locale)) {
            self.spec_get(Self::search_key(locale))
        } else {
            self.spec_get(default_locale())
        }
    }

    /// View of an optional locale argument.
    pub open spec fn locale_view(locale: Option<String>) -> Option<Seq<char>> {
        match locale {
            Some(l) => Some(l@),
            None => None,
        }
    }

    /// Resolves this value for a locale: the requested locale's text when
    /// stored, else the default locale's text, else a `MissingLocale` error
    /// naming the requested locale. The fallback is silent.
    pub fn localized(&self, locale: Option<String>) -> (r: Result<String, Error>)
        ensures
            self.resolvable(Self::locale_view(locale)) ==> (r matches Ok(v) && v@
                == self.resolved(Self::locale_view(locale))),
            !self.resolvable(Self::locale_view(locale)) ==> (r matches Err(e) && e matches
                Error::MissingLocale(l) && l@ == Self::search_key(Self::locale_view(locale))),
    {
        let search_locale: String = match locale {
            Some(l) => l,
            None => String::from_str("en_US"),
        };
        if let Some(value) = self.get_entry(&search_locale) {
            return Ok(value.clone());
        }
        let default_key = String::from_str("en_US");
        if let Some(value) = self.get_entry(&default_key) {
            return Ok(value.clone());
        }
        Err(Error::MissingLocale(search_locale))
    }

    /// All stored texts, in stored order. The order carries no meaning; this
    /// exists for slug-collision detection during validation.
    pub fn values(&self) -> (r: Result<Vec<String>, Error>)
        ensures
            r matches Ok(vs) && vs@.len() == self.entries@.len(),
            r matches Ok(vs) ==> forall|i: int|
                0 <= i < vs@.len() ==> vs@[i]@ == self.entries@[i].1@,
    {
        let mut out: Vec<String> = Vec::new();
        let mut i: usize = 0;
        while i < self.entries.len()
            invariant
                0 <= i <= self.entries@.len(),
                out@.len() == i,
                forall|j: int| 0 <= j < i ==> out@[j]@ == self.entries@[j].1@,
            decreases self.entries@.len() - i,
        {
            out.push(self.entries[i].1.clone());
            i += 1;
        }
        Ok(out)
    }

    /// Whether some entry carries exactly this locale code.
    pub fn has_locale(&self, key: &String) -> (r: bool)
        ensures
            r == self.spec_has(key@),
    {
        self.get_entry(key).is_some()
    }
}

/// Every value stores a text for any key present in it: requesting a stored
/// locale returns that locale's own text, requesting an absent locale of a
/// value that stores the default locale returns the default locale's text,
/// and requesting anything of a value that stores neither fails. This is the
/// resolution rule `localized` obeys, stated over the stored entries.
pub proof fn lemma_localized_resolution(m: LocalizedString, key: Seq<char>)
    requires
        m.wf(),
    ensures
        m.spec_has(key) ==> m.resolvable(Some(key)) && m.resolved(Some(key)) == m.spec_get(key),
        !m.spec_has(key) && m.spec_has(default_locale()) ==> m.resolvable(Some(key))
            && m.resolved(Some(key)) == m.spec_get(default_locale()),
        !m.spec_has(key) && !m.spec_has(default_locale()) ==> !m.resolvable(Some(key)),
{
}

/// Resolves a whole list for one locale, keeping order; the first failure is
/// the result.
pub fn localied_vec(values: &Vec<LocalizedString>, locale: Option<String>) -> (r: Result<
    Vec<String>,
    Error,
>)
    ensures
        (forall|i: int|
            0 <= i < values@.len() ==> values@[i].resolvable(
                LocalizedString::locale_view(locale),
            )) <==> r is Ok,
        r matches Ok(vs) ==> vs@.len() == values@.len() && forall|i: int|
            0 <= i < vs@.len() ==> vs@[i]@ == values@[i].resolved(
                LocalizedString::locale_view(locale),
            ),
        r matches Err(e) ==> e matches Error::MissingLocale(l) && l@
            == LocalizedString::search_key(LocalizedString::locale_view(locale)),
{
    let mut results: Vec<String> = Vec::new();
    let mut i: usize = 0;
    while i < values.len()
        invariant
            0 <= i <= values@.len(),
            results@.len() == i,
            forall|j: int| 0 <= j < i ==> values@[j].resolvable(LocalizedString::locale_view(locale)),
            forall|j: int|
                0 <= j < i ==> results@[j]@ == values@[j].resolved(
                    LocalizedString::locale_view(locale),
                ),
        decreases values@.len() - i,
    {
        let v = match values[i].localized(locale.clone()) {
            Ok(v) => v,
            Err(e) => {
                return Err(e);
            },
        };
        results.push(v);
        i += 1;
    }
    Ok(results)
}

/// One ordered phase of a recipe, with its own steps and optional timings in
/// whole seconds.
#[derive(Debug, Clone, PartialEq)]
pub struct Stage {
    pub name: LocalizedString,
    pub cook_time: Option<u64>,
    pub prep_time: Option<u64>,
    pub description: Option<LocalizedString>,
    pub footer: Option<LocalizedString>,
    pub steps: Vec<LocalizedString>,
}

/// The top-level content entity: a dish with stages, ingredients and
/// metadata, published in one or more locales.
#[derive(Debug, Clone, PartialEq)]
pub struct Recipe {
    pub id: String,
    pub locales: Vec<String>,
    pub published: String,
    pub name: LocalizedString,
    pub slug: LocalizedString,
    pub category: LocalizedString,
    pub cuisine: LocalizedString,
    pub description: Option<LocalizedString>,
    pub keywords: Option<Vec<LocalizedString>>,
    pub ingredients: Vec<LocalizedString>,
    pub equipment: Option<Vec<LocalizedString>>,
    pub stages: Vec<Stage>,
}

/// The seconds of an optional duration, zero when absent.
pub open spec fn opt_secs(o: Option<u64>) -> nat {
    match o {
        Some(s) => s as nat,
        None => 0,
    }
}

impl Stage {
    pub open spec fn cook_secs(self) -> nat {
        opt_secs(self.cook_time)
    }

    pub open spec fn prep_secs(self) -> nat {
        opt_secs(self.prep_time)
    }

    /// Every localized field of this stage can be resolved for `loc`.
    pub open spec fn stage_resolvable(self, loc: Option<Seq<char>>) -> bool {
        &&& self.name.resolvable(loc)
        &&& (self.description matches Some(d) ==> d.resolvable(loc))
        &&& (self.footer matches Some(f) ==> f.resolvable(loc))
        &&& forall|i: int| 0 <= i < self.steps@.len() ==> self.steps@[i].resolvable(loc)
    }
}

/// The single-locale, rendering-ready projection of a `Stage`.
#[derive(Debug, Clone, PartialEq)]
pub struct StagePartial {
    pub name: String,
    pub cook_time: Option<String>,
    pub prep_time: Option<String>,
    pub total_time: Option<String>,
    pub description: Option<String>,
    pub footer: Option<String>,
    pub steps: Vec<String>,
}

/// The single-locale, rendering-ready projection of a `Recipe`.
#[derive(Debug, Clone, PartialEq)]
pub struct RecipePartial {
    pub id: String,
    pub alternate_locales: Vec<(String, String)>,
    pub name: String,
    pub published: String,
    pub slug: String,
    pub description: Option<String>,
    pub category: String,
    pub cuisine: String,
    pub keywords: Vec<String>,
    pub ingredients: Vec<String>,
    pub equipment: Vec<String>,
    pub stages: Vec<StagePartial>,
    pub cook_time: Option<String>,
    pub prep_time: Option<String>,
    pub total_time: Option<String>,
    pub sd_cook_time: Option<String>,
    pub sd_prep_time: Option<String>,
    pub sd_total_time: Option<String>,
    pub images: Vec<(String, String)>,
}

/// Copies an optional locale argument; the copy is the same value.
pub(crate) fn clone_locale(l: &Option<String>) -> (r: Option<String>)
    ensures
        r == *l,
{
    match l {
        Some(s) => Some(s.clone()),
        None => None,
    }
}

/// The human-readable rendering of a duration, absent when it is zero.
pub(crate) fn human_time_opt(secs: u64) -> (r: Option<String>)
    ensures
        secs == 0 ==> r is None,
        secs > 0 ==> (r matches Some(t) && t@ == crate::when::human_duration_of(secs as nat)),
{
    if secs == 0 {
        None
    } else {
        Some(crate::when::duration_human(secs))
    }
}

/// The ISO-8601-style rendering of a duration, absent when it is zero.
pub(crate) fn iso_time_opt(secs: u64) -> (r: Option<String>)
    ensures
        secs == 0 ==> r is None,
        secs > 0 ==> (r matches Some(t) && t@ == crate::when::iso8601(secs as nat)),
{
    if secs == 0 {
        None
    } else {
        Some(crate::when::duration_iso8601(secs))
    }
}

/// What holds of a stage's projection for locale view `lv` when it
/// succeeds: every localized field resolved (with silent default-locale
/// fallback), each non-zero duration rendered human-readably, each zero
/// duration absent.
pub open spec fn is_stage_projection(p: StagePartial, s: Stage, lv: Option<Seq<char>>) -> bool {
    &&& p.name@ == s.name.resolved(lv)
    &&& (s.cook_secs() == 0 ==> p.cook_time is None)
    &&& (s.cook_secs() > 0 ==> (p.cook_time matches Some(t) && t@
        == crate::when::human_duration_of(s.cook_secs())))
    &&& (s.prep_secs() == 0 ==> p.prep_time is None)
    &&& (s.prep_secs() > 0 ==> (p.prep_time matches Some(t) && t@
        == crate::when::human_duration_of(s.prep_secs())))
    &&& (s.cook_secs() + s.prep_secs() == 0 ==> p.total_time is None)
    &&& (s.cook_secs() + s.prep_secs() > 0 ==> (p.total_time matches Some(t) && t@
        == crate::when::human_duration_of((s.cook_secs() + s.prep_secs()) as nat)))
    &&& (s.description is None ==> p.description is None)
    &&& (s.description matches Some(d) ==> (p.description matches Some(t) && t@ == d.resolved(lv)))
    &&& (s.footer is None ==> p.footer is None)
    &&& (s.footer matches Some(f) ==> (p.footer matches Some(t) && t@ == f.resolved(lv)))
    &&& p.steps@.len() == s.steps@.len()
    &&& forall|i: int| 0 <= i < p.steps@.len() ==> p.steps@[i]@ == s.steps@[i].resolved(lv)
}

impl Stage {
    /// Projects this stage for one locale, as `is_stage_projection`
    /// describes. Fails with `MissingLocale` exactly when some localized
    /// field of the stage cannot be resolved.
    pub fn to_partial(&self, locale: Option<String>) -> (r: Result<StagePartial, Error>)
        requires
            self.cook_secs() + self.prep_secs() <= u64::MAX,
        ensures
            r is Ok <==> self.stage_resolvable(LocalizedString::locale_view(locale)),
            r matches Ok(p) ==> is_stage_projection(
                p,
                *self,
                LocalizedString::locale_view(locale),
            ),
            r matches Err(e) ==> e matches Error::MissingLocale(l) && l@
                == LocalizedString::search_key(LocalizedString::locale_view(locale)),
    {
        let cook_time: u64 = match self.cook_time {
            Some(t) => t,
            None => 0,
        };
        let prep_time: u64 = match self.prep_time {
            Some(t) => t,
            None => 0,
        };
        let total_time: u64 = cook_time + prep_time;

        let name = match self.name.localized(clone_locale(&locale)) {
            Ok(v) => v,
            Err(e) => {
                return Err(e);
            },
        };
        let description = match &self.description {
            Some(d) => match d.localized(clone_locale(&locale)) {
                Ok(v) => Some(v),
                Err(e) => {
                    return Err(e);
                },
            },
            None => None,
        };
        let footer = match &self.footer {
            Some(f) => match f.localized(clone_locale(&locale)) {
                Ok(v) => Some(v),
                Err(e) => {
                    return Err(e);
                },
            },
            None => None,
        };
        let steps = match localied_vec(&self.steps, clone_locale(&locale)) {
            Ok(v) => v,
            Err(e) => {
                return Err(e);
            },
        };
        let cook_h = human_time_opt(cook_time);
        let prep_h = human_time_opt(prep_time);
        let total_h = human_time_opt(total_time);
        Ok(
            StagePartial {
                name,
                cook_time: cook_h,
                prep_time: prep_h,
                total_time: total_h,
                description,
                footer,
                steps,
            },
        )
    }
}

/// Total cook seconds across stages, a stage without a cook time counting
/// zero.
pub open spec fn sum_cook(stages: Seq<Stage>) -> nat
    decreases stages.len(),
{
    if stages.len() == 0 {
        0
    } else {
        sum_cook(stages.drop_last()) + stages.last().cook_secs()
    }
}

/// Total prep seconds across stages, a stage without a prep time counting
/// zero.
pub open spec fn sum_prep(stages: Seq<Stage>) -> nat
    decreases stages.len(),
{
    if stages.len() == 0 {
        0
    } else {
        sum_prep(stages.drop_last()) + stages.last().prep_secs()
    }
}

/// A prefix sums to no more than the whole.
pub proof fn lemma_sum_prefix_bound(stages: Seq<Stage>, i: int)
    requires
        0 <= i <= stages.len(),
    ensures
        sum_cook(stages.subrange(0, i)) <= sum_cook(stages),
        sum_prep(stages.subrange(0, i)) <= sum_prep(stages),
    decreases stages.len() - i,
{
    if i == stages.len() {
        assert(stages.subrange(0, i) =~= stages);
    } else {
        assert(stages.subrange(0, i + 1).drop_last() =~= stages.subrange(0, i));
        assert(stages.subrange(0, i + 1).last() == stages[i]);
        lemma_sum_prefix_bound(stages, i + 1);
    }
}

/// Extending a prefix by one stage adds that stage's seconds.
pub proof fn lemma_sum_prefix_step(stages: Seq<Stage>, i: int)
    requires
        0 <= i < stages.len(),
    ensures
        sum_cook(stages.subrange(0, i + 1)) == sum_cook(stages.subrange(0, i))
            + stages[i].cook_secs(),
        sum_prep(stages.subrange(0, i + 1)) == sum_prep(stages.subrange(0, i))
            + stages[i].prep_secs(),
{
    assert(stages.subrange(0, i + 1).drop_last() =~= stages.subrange(0, i));
    assert(stages.subrange(0, i + 1).last() == stages[i]);
}

/// One stage's seconds are no more than the total across all stages.
pub proof fn lemma_sum_elem_bound(stages: Seq<Stage>, i: int)
    requires
        0 <= i < stages.len(),
    ensures
        stages[i].cook_secs() <= sum_cook(stages),
        stages[i].prep_secs() <= sum_prep(stages),
{
    lemma_sum_prefix_step(stages, i);
    lemma_sum_prefix_bound(stages, i + 1);
}

/// Some element of `s` reads `x`.
pub open spec fn seq_contains_str(s: Seq<String>, x: Seq<char>) -> bool {
    exists|i: int| 0 <= i < s.len() && s[i]@ == x
}

/// Whether some element of `v` reads exactly as `x`.
pub(crate) fn contains_string(v: &Vec<String>, x: &String) -> (b: bool)
    ensures
        b == seq_contains_str(v@, x@),
{
    let mut i: usize = 0;
    while i < v.len()
        invariant
            0 <= i <= v@.len(),
            forall|j: int| 0 <= j < i ==> v@[j]@ != x@,
        decreases v@.len() - i,
    {
        if v[i] == *x {
            return true;
        }
        i += 1;
    }
    false
}

/// How many locales, from the front, lie in `allowed` before the first one
/// that does not: the length of the kept alternate-locale prefix.
pub open spec fn alt_prefix_len(locales: Seq<String>, allowed: Seq<String>) -> int
    decreases locales.len(),
{
    if locales.len() == 0 {
        0
    } else if !seq_contains_str(allowed, locales[0]@) {
        0
    } else {
        1 + alt_prefix_len(locales.drop_first(), allowed)
    }
}

pub proof fn lemma_alt_prefix_len(locales: Seq<String>, allowed: Seq<String>)
    ensures
        0 <= alt_prefix_len(locales, allowed) <= locales.len(),
        forall|j: int|
            0 <= j < alt_prefix_len(locales, allowed) ==> seq_contains_str(allowed, locales[j]@),
        alt_prefix_len(locales, allowed) < locales.len() ==> !seq_contains_str(
            allowed,
            locales[alt_prefix_len(locales, allowed)]@,
        ),
    decreases locales.len(),
{
    if locales.len() > 0 && seq_contains_str(allowed, locales[0]@) {
        lemma_alt_prefix_len(locales.drop_first(), allowed);
        assert forall|j: int| 0 <= j < alt_prefix_len(locales, allowed) implies seq_contains_str(
            allowed,
            locales[j]@,
        ) by {
            if j > 0 {
                assert(locales.drop_first()[j - 1] == locales[j]);
            }
        }
        if alt_prefix_len(locales, allowed) < locales.len() {
            assert(locales.drop_first()[alt_prefix_len(locales, allowed) - 1]
                == locales[alt_prefix_len(locales, allowed)]);
        }
    }
}

/// The alternate-locale pairs for `slug`: locales kept from the front of the
/// published list while each lies in `allowed`, each paired with its
/// resolved slug. The first kept locale whose slug cannot be resolved stops
/// everything with its `MissingLocale` error.
fn take_alternates(locales: &Vec<String>, allowed: &Vec<String>, slug: &LocalizedString) -> (r:
    Result<Vec<(String, String)>, Error>)
    ensures
        r is Ok <==> (forall|j: int|
            0 <= j < alt_prefix_len(locales@, allowed@) ==> slug.resolvable(Some(locales@[j]@))),
        r matches Ok(v) ==> {
            &&& v@.len() == alt_prefix_len(locales@, allowed@)
            &&& forall|j: int|
                0 <= j < v@.len() ==> v@[j].0@ == locales@[j]@ && v@[j].1@ == slug.resolved(
                    Some(locales@[j]@),
                )
        },
        r matches Err(e) ==> e matches Error::MissingLocale(l) && exists|j: int|
            0 <= j < alt_prefix_len(locales@, allowed@) && l@ == locales@[j]@ && !slug.resolvable(
                Some(locales@[j]@),
            ),
{
    proof {
        lemma_alt_prefix_len(locales@, allowed@);
    }
    let ghost plen = alt_prefix_len(locales@, allowed@);
    let mut out: Vec<(String, String)> = Vec::new();
    let mut i: usize = 0;
    while i < locales.len()
        invariant
            0 <= i <= locales@.len(),
            out@.len() == i,
            forall|j: int| 0 <= j < i ==> seq_contains_str(allowed@, locales@[j]@),
            forall|j: int| 0 <= j < i ==> slug.resolvable(Some(locales@[j]@)),
            forall|j: int|
                0 <= j < i ==> out@[j].0@ == locales@[j]@ && out@[j].1@ == slug.resolved(
                    Some(locales@[j]@),
                ),
            0 <= plen <= locales@.len(),
            plen == alt_prefix_len(locales@, allowed@),
            forall|j: int| 0 <= j < plen ==> seq_contains_str(allowed@, locales@[j]@),
            plen < locales@.len() ==> !seq_contains_str(allowed@, locales@[plen]@),
        decreases locales@.len() - i,
    {
        if !contains_string(allowed, &locales[i]) {
            assert(i == plen);
            return Ok(out);
        }
        assert(i < plen);
        match slug.localized(Some(locales[i].clone())) {
            Ok(s) => {
                out.push((locales[i].clone(), s));
            },
            Err(e) => {
                return Err(e);
            },
        }
        i += 1;
    }
    assert(i == plen);
    Ok(out)
}

/// Each keyword resolved for the locale, a keyword that cannot be resolved
/// flattening to the empty string rather than failing.
fn keywords_localized(kws: &Vec<LocalizedString>, locale: &Option<String>) -> (r: Vec<String>)
    ensures
        r@.len() == kws@.len(),
        forall|i: int|
            0 <= i < r@.len() ==> r@[i]@ == (if kws@[i].resolvable(
                LocalizedString::locale_view(*locale),
            ) {
                kws@[i].resolved(LocalizedString::locale_view(*locale))
            } else {
                Seq::<char>::empty()
            }),
{
    let mut out: Vec<String> = Vec::new();
    let mut i: usize = 0;
    while i < kws.len()
        invariant
            0 <= i <= kws@.len(),
            out@.len() == i,
            forall|j: int|
                0 <= j < i ==> out@[j]@ == (if kws@[j].resolvable(
                    LocalizedString::locale_view(*locale),
                ) {
                    kws@[j].resolved(LocalizedString::locale_view(*locale))
                } else {
                    Seq::<char>::empty()
                }),
        decreases kws@.len() - i,
    {
        let v = match kws[i].localized(clone_locale(locale)) {
            Ok(v) => v,
            Err(_) => String::new(),
        };
        out.push(v);
        i += 1;
    }
    out
}

/// What holds of a recipe's projection for locale view `lv` and site locale
/// list `allowed` when it succeeds.
pub open spec fn is_recipe_projection(
    p: RecipePartial,
    r: Recipe,
    lv: Option<Seq<char>>,
    allowed: Seq<String>,
) -> bool {
    &&& p.id@ == r.id@
    &&& p.published@ == r.published@
    &&& p.alternate_locales@.len() == alt_prefix_len(r.locales@, allowed)
    &&& forall|j: int|
        0 <= j < p.alternate_locales@.len() ==> p.alternate_locales@[j].0@ == r.locales@[j]@
            && p.alternate_locales@[j].1@ == r.slug.resolved(Some(r.locales@[j]@))
    &&& (r.cook_total() == 0 ==> p.cook_time is None && p.sd_cook_time is None)
    &&& (r.cook_total() > 0 ==> (p.cook_time matches Some(t) && t@
        == crate::when::human_duration_of(r.cook_total())))
    &&& (r.cook_total() > 0 ==> (p.sd_cook_time matches Some(t) && t@ == crate::when::iso8601(
        r.cook_total(),
    )))
    &&& (r.prep_total() == 0 ==> p.prep_time is None && p.sd_prep_time is None)
    &&& (r.prep_total() > 0 ==> (p.prep_time matches Some(t) && t@
        == crate::when::human_duration_of(r.prep_total())))
    &&& (r.prep_total() > 0 ==> (p.sd_prep_time matches Some(t) && t@ == crate::when::iso8601(
        r.prep_total(),
    )))
    &&& (r.cook_total() + r.prep_total() == 0 ==> p.total_time is None && p.sd_total_time is None)
    &&& (r.cook_total() + r.prep_total() > 0 ==> (p.total_time matches Some(t) && t@
        == crate::when::human_duration_of((r.cook_total() + r.prep_total()) as nat)))
    &&& (r.cook_total() + r.prep_total() > 0 ==> (p.sd_total_time matches Some(t) && t@
        == crate::when::iso8601((r.cook_total() + r.prep_total()) as nat)))
    &&& p.name@ == r.name.resolved(lv)
    &&& p.slug@ == r.slug.resolved(lv)
    &&& (r.description is None ==> p.description is None)
    &&& (r.description matches Some(d) ==> (p.description matches Some(t) && t@ == d.resolved(lv)))
    &&& p.category@ == r.category.resolved(lv)
    &&& p.cuisine@ == r.cuisine.resolved(lv)
    &&& p.keywords@.len() == (match r.keywords {
        Some(k) => k@.len(),
        None => 0,
    })
    &&& (r.keywords matches Some(k) ==> forall|i: int|
        0 <= i < k@.len() ==> p.keywords@[i]@ == (if k@[i].resolvable(lv) {
            k@[i].resolved(lv)
        } else {
            Seq::<char>::empty()
        }))
    &&& p.ingredients@.len() == r.ingredients@.len()
    &&& forall|i: int|
        0 <= i < p.ingredients@.len() ==> p.ingredients@[i]@ == r.ingredients@[i].resolved(lv)
    &&& p.equipment@.len() == (match r.equipment {
        Some(e) => e@.len(),
        None => 0,
    })
    &&& (r.equipment matches Some(e) ==> forall|i: int|
        0 <= i < e@.len() ==> p.equipment@[i]@ == e@[i].resolved(lv))
    &&& p.stages@.len() == r.stages@.len()
    &&& forall|i: int|
        0 <= i < p.stages@.len() ==> is_stage_projection(p.stages@[i], r.stages@[i], lv)
}

impl Recipe {
    /// Total cook seconds, summed across stages.
    pub open spec fn cook_total(self) -> nat {
        sum_cook(self.stages@)
    }

    /// Total prep seconds, summed across stages.
    pub open spec fn prep_total(self) -> nat {
        sum_prep(self.stages@)
    }

    /// Every resolution the projection performs for this locale and site
    /// locale list succeeds.
    pub open spec fn projectable(self, lv: Option<Seq<char>>, allowed: Seq<String>) -> bool {
        &&& (forall|j: int|
            0 <= j < alt_prefix_len(self.locales@, allowed) ==> self.slug.resolvable(
                Some(self.locales@[j]@),
            ))
        &&& self.name.resolvable(lv)
        &&& self.slug.resolvable(lv)
        &&& (self.description matches Some(d) ==> d.resolvable(lv))
        &&& self.category.resolvable(lv)
        &&& self.cuisine.resolvable(lv)
        &&& (forall|i: int| 0 <= i < self.ingredients@.len() ==> self.ingredients@[i].resolvable(lv))
        &&& (self.equipment matches Some(e) ==> forall|i: int|
            0 <= i < e@.len() ==> e@[i].resolvable(lv))
        &&& (forall|i: int|
            0 <= i < self.stages@.len() ==> self.stages@[i].stage_resolvable(lv))
    }

    /// Projects this recipe into its single-locale view: sums stage
    /// durations, renders them in both calendars (absent when zero), keeps
    /// the alternate-locale prefix allowed by the site, resolves every
    /// localized field (keywords falling back to the empty string instead of
    /// failing), projects each stage, and attaches the caller-supplied image
    /// pairs verbatim. Fails with `MissingLocale` exactly when some needed
    /// resolution fails.
    pub fn to_partial(
        &self,
        locale: Option<String>,
        allowed_locales: &Vec<String>,
        images: Vec<(String, String)>,
    ) -> (r: Result<RecipePartial, Error>)
        requires
            self.cook_total() + self.prep_total() <= u64::MAX,
        ensures
            r is Ok <==> self.projectable(LocalizedString::locale_view(locale), allowed_locales@),
            r matches Ok(p) ==> is_recipe_projection(
                p,
                *self,
                LocalizedString::locale_view(locale),
                allowed_locales@,
            ) && p.images == images,
            r matches Err(e) ==> e matches Error::MissingLocale(l) && (l@
                == LocalizedString::search_key(LocalizedString::locale_view(locale)) || exists|
                j: int,
            |
                0 <= j < alt_prefix_len(self.locales@, allowed_locales@) && l@ == self.locales@[j]@
                    && !self.slug.resolvable(Some(self.locales@[j]@))),
    {
        let ghost lv = LocalizedString::locale_view(locale);
        let mut cook_time: u64 = 0;
        let mut prep_time: u64 = 0;
        let mut si: usize = 0;
        proof {
            assert(self.stages@.subrange(0, 0) =~= Seq::<Stage>::empty());
        }
        while si < self.stages.len()
            invariant
                0 <= si <= self.stages@.len(),
                cook_time == sum_cook(self.stages@.subrange(0, si as int)),
                prep_time == sum_prep(self.stages@.subrange(0, si as int)),
                sum_cook(self.stages@) + sum_prep(self.stages@) <= u64::MAX,
            decreases self.stages@.len() - si,
        {
            proof {
                lemma_sum_prefix_step(self.stages@, si as int);
                lemma_sum_prefix_bound(self.stages@, si as int + 1);
            }
            let stage = &self.stages[si];
            cook_time = cook_time + (match stage.cook_time {
                Some(t) => t,
                None => 0,
            });
            prep_time = prep_time + (match stage.prep_time {
                Some(t) => t,
                None => 0,
            });
            si += 1;
        }
        proof {
            assert(self.stages@.subrange(0, self.stages@.len() as int) =~= self.stages@);
        }
        let total_time: u64 = cook_time + prep_time;

        let alternate_locales = match take_alternates(&self.locales, allowed_locales, &self.slug) {
            Ok(v) => v,
            Err(e) => {
                return Err(e);
            },
        };
        let name = match self.name.localized(clone_locale(&locale)) {
            Ok(v) => v,
            Err(e) => {
                return Err(e);
            },
        };
        let slug = match self.slug.localized(clone_locale(&locale)) {
            Ok(v) => v,
            Err(e) => {
                return Err(e);
            },
        };
        let description = match &self.description {
            Some(d) => match d.localized(clone_locale(&locale)) {
                Ok(v) => Some(v),
                Err(e) => {
                    return Err(e);
                },
            },
            None => None,
        };
        let category = match self.category.localized(clone_locale(&locale)) {
            Ok(v) => v,
            Err(e) => {
                return Err(e);
            },
        };
        let cuisine = match self.cuisine.localized(clone_locale(&locale)) {
            Ok(v) => v,
            Err(e) => {
                return Err(e);
            },
        };
        let keywords = match &self.keywords {
            None => Vec::new(),
            Some(kws) => keywords_localized(kws, &locale),
        };
        let ingredients = match localied_vec(&self.ingredients, clone_locale(&locale)) {
            Ok(v) => v,
            Err(e) => {
                return Err(e);
            },
        };
        let equipment = match &self.equipment {
            None => Vec::new(),
            Some(eqs) => match localied_vec(eqs, clone_locale(&locale)) {
                Ok(v) => v,
                Err(e) => {
                    return Err(e);
                },
            },
        };
        let mut stages: Vec<StagePartial> = Vec::new();
        let mut i: usize = 0;
        while i < self.stages.len()
            invariant
                0 <= i <= self.stages@.len(),
                stages@.len() == i,
                sum_cook(self.stages@) + sum_prep(self.stages@) <= u64::MAX,
                forall|j: int| 0 <= j < i ==> self.stages@[j].stage_resolvable(lv),
                forall|j: int|
                    0 <= j < i ==> is_stage_projection(stages@[j], self.stages@[j], lv),
                lv == LocalizedString::locale_view(locale),
            decreases self.stages@.len() - i,
        {
            proof {
                lemma_sum_elem_bound(self.stages@, i as int);
            }
            match self.stages[i].to_partial(clone_locale(&locale)) {
                Ok(p) => {
                    stages.push(p);
                },
                Err(e) => {
                    return Err(e);
                },
            }
            i += 1;
        }
        Ok(
            RecipePartial {
                id: self.id.clone(),
                alternate_locales,
                name,
                published: self.published.clone(),
                slug,
                description,
                category,
                cuisine,
                keywords,
                ingredients,
                equipment,
                stages,
                cook_time: human_time_opt(cook_time),
                prep_time: human_time_opt(prep_time),
                total_time: human_time_opt(total_time),
                sd_cook_time: iso_time_opt(cook_time),
                sd_prep_time: iso_time_opt(prep_time),
                sd_total_time: iso_time_opt(total_time),
                images,
            },
        )
    }
}

/// A successful projection renders its total time from exactly the sum of
/// the cook and prep totals, and a recipe whose total time is zero carries
/// no time field at all — neither human-readable nor ISO-8601-style, neither
/// cook, prep nor total — rather than a zero-valued string.
pub proof fn lemma_projection_total_time(
    p: RecipePartial,
    r: Recipe,
    lv: Option<Seq<char>>,
    allowed: Seq<String>,
)
    requires
        is_recipe_projection(p, r, lv, allowed),
    ensures
        r.cook_total() + r.prep_total() == 0 ==> p.cook_time is None && p.prep_time is None
            && p.total_time is None && p.sd_cook_time is None && p.sd_prep_time is None
            && p.sd_total_time is None,
        r.cook_total() + r.prep_total() > 0 ==> (p.total_time matches Some(t) && t@
            == crate::when::human_duration_of((r.cook_total() + r.prep_total()) as nat)),
        r.cook_total() + r.prep_total() > 0 ==> (p.sd_total_time matches Some(t) && t@
            == crate::when::iso8601((r.cook_total() + r.prep_total()) as nat)),
{
}

/// What `slugify` derives from a text: a URL-safe identifier that depends on
/// the text alone.
pub uninterp spec fn slug_of(s: Seq<char>) -> Seq<char>;

/// Relies on slugify::slugify with no stop words, separator `"-"` and no
/// maximum length: the slug is a function of the input text alone.
#[verifier::external_body]
pub(crate) fn slugify_text(s: &str) -> (r: String)
    ensures
        r@ == slug_of(s@),
{
    slugify::slugify(s, "", "-", None)
}

/// An ASCII letter or digit.
pub open spec fn ascii_alphanumeric(c: char) -> bool {
    ||| 'a' <= c <= 'z'
    ||| 'A' <= c <= 'Z'
    ||| '0' <= c <= '9'
}

/// Relies on rand's `Alphanumeric` distribution through `SampleString`: the
/// sampled string holds exactly the requested number of single-byte ASCII
/// alphanumeric characters; nothing else is assumed of a random value.
#[verifier::external_body]
fn random_alphanumeric_7() -> (r: String)
    ensures
        r@.len() == 7,
        forall|i: int| 0 <= i < r@.len() ==> ascii_alphanumeric(r@[i]),
{
    rand::distr::SampleString::sample_string(&rand::distr::Alphanumeric, &mut rand::rng(), 7)
}

/// `ls` stores exactly one entry: `text` under the default locale.
pub open spec fn single_default(ls: LocalizedString, text: Seq<char>) -> bool {
    &&& ls.entries@.len() == 1
    &&& ls.entries@[0].0@ == default_locale()
    &&& ls.entries@[0].1@ == text
}

impl Stage {
    /// A stub stage: the given name under the default locale, no timings,
    /// and two placeholder steps.
    pub fn init(name: String) -> (r: Stage)
        ensures
            single_default(r.name, name@),
            r.cook_time is None,
            r.prep_time is None,
            r.description is None,
            r.footer is None,
            r.steps@.len() == 2,
            single_default(r.steps@[0], "First do this"@),
            single_default(r.steps@[1], "Then do that"@),
    {
        let mut steps: Vec<LocalizedString> = Vec::new();
        steps.push(LocalizedString::new("First do this"));
        steps.push(LocalizedString::new("Then do that"));
        Stage {
            name: LocalizedString::new(name.as_str()),
            cook_time: None,
            prep_time: None,
            description: None,
            footer: None,
            steps,
        }
    }
}

impl Recipe {
    /// A stub recipe: the given identifier or a random seven-character one,
    /// the given name or a placeholder, a slug derived from
    /// `<identifier>-<name>`, and — when `mock` is set — sample description,
    /// ingredients, equipment and a single stage.
    pub fn init(arg_recipe_id: Option<String>, arg_name: Option<String>, mock: bool) -> (r: Recipe)
        ensures
            arg_recipe_id matches Some(given) ==> r.id@ == given@,
            arg_recipe_id is None ==> r.id@.len() == 7 && (forall|i: int|
                0 <= i < r.id@.len() ==> ascii_alphanumeric(r.id@[i])),
            r.locales@.len() == 1 && r.locales@[0]@ == default_locale(),
            r.published@ == "2022-01-01"@,
            single_default(
                r.name,
                match arg_name {
                    Some(n) => n@,
                    None => "A wonderful new recipe"@,
                },
            ),
            single_default(
                r.slug,
                slug_of(
                    r.id@ + "-"@ + (match arg_name {
                        Some(n) => n@,
                        None => "A wonderful new recipe"@,
                    }),
                ),
            ),
            single_default(r.category, "Dinner"@),
            single_default(r.cuisine, "American"@),
            r.keywords matches Some(k) && k@.len() == 1 && single_default(k@[0], "favorite"@),
            mock ==> (r.description matches Some(d) && single_default(
                d,
                "This recipe is pretty neat."@,
            )),
            !mock ==> r.description is None,
            r.ingredients@.len() == (if mock {
                3int
            } else {
                0int
            }),
            mock ==> single_default(r.ingredients@[0], "celery"@) && single_default(
                r.ingredients@[1],
                "onion"@,
            ) && single_default(r.ingredients@[2], "bell pepper"@),
            r.equipment matches Some(e) && e@.len() == (if mock {
                1int
            } else {
                0int
            }),
            mock ==> (r.equipment matches Some(e) && single_default(e@[0], "dutch oven"@)),
            r.stages@.len() == (if mock {
                1int
            } else {
                0int
            }),
            mock ==> {
                let stage = r.stages@[0];
                &&& single_default(stage.name, "Cook"@)
                &&& stage.cook_time is None
                &&& stage.prep_time is None
                &&& stage.description is None
                &&& stage.footer is None
                &&& stage.steps@.len() == 2
                &&& single_default(stage.steps@[0], "First do this"@)
                &&& single_default(stage.steps@[1], "Then do that"@)
            },
    {
        let recipe_id: String = match arg_recipe_id {
            Some(value) => value,
            None => random_alphanumeric_7(),
        };
        let name: String = match arg_name {
            Some(value) => value,
            None => String::from_str("A wonderful new recipe"),
        };
        let mut slug_seed = recipe_id.clone();
        slug_seed.append("-");
        slug_seed.append(name.as_str());
        let slug_text = slugify_text(slug_seed.as_str());

        let description: Option<LocalizedString> = if mock {
            Some(LocalizedString::new("This recipe is pretty neat."))
        } else {
            None
        };
        let mut ingredients: Vec<LocalizedString> = Vec::new();
        if mock {
            ingredients.push(LocalizedString::new("celery"));
            ingredients.push(LocalizedString::new("onion"));
            ingredients.push(LocalizedString::new("bell pepper"));
        }
        let mut equipment: Vec<LocalizedString> = Vec::new();
        if mock {
            equipment.push(LocalizedString::new("dutch oven"));
        }
        let mut stages: Vec<Stage> = Vec::new();
        if mock {
            stages.push(Stage::init(String::from_str("Cook")));
        }
        let mut locales: Vec<String> = Vec::new();
        locales.push(String::from_str("en_US"));
        let mut keywords: Vec<LocalizedString> = Vec::new();
        keywords.push(LocalizedString::new("favorite"));
        Recipe {
            id: recipe_id,
            locales,
            published: String::from_str("2022-01-01"),
            name: LocalizedString::new(name.as_str()),
            slug: LocalizedString::new(slug_text.as_str()),
            category: LocalizedString::new("Dinner"),
            cuisine: LocalizedString::new("American"),
            keywords: Some(keywords),
            description,
            ingredients,
            equipment: Some(equipment),
            stages,
        }
    }
}

/// The step texts of `stages`, flattened in stage order.
pub open spec fn flat_steps_of(stages: Seq<StagePartial>) -> Seq<String>
    decreases stages.len(),
{
    if stages.len() == 0 {
        Seq::<String>::empty()
    } else {
        flat_steps_of(stages.drop_last()) + stages.last().steps@
    }
}

impl RecipePartial {
    /// All step texts across all stages, in stage order.
    pub fn flat_steps(&self) -> (r: Vec<String>)
        ensures
            r@ == flat_steps_of(self.stages@),
    {
        let mut all_steps: Vec<String> = Vec::new();
        let mut i: usize = 0;
        proof {
            assert(self.stages@.subrange(0, 0) =~= Seq::<StagePartial>::empty());
        }
        while i < self.stages.len()
            invariant
                0 <= i <= self.stages@.len(),
                all_steps@ == flat_steps_of(self.stages@.subrange(0, i as int)),
            decreases self.stages@.len() - i,
        {
            let stage = &self.stages[i];
            let mut j: usize = 0;
            while j < stage.steps.len()
                invariant
                    0 <= j <= stage.steps@.len(),
                    *stage == self.stages@[i as int],
                    0 <= i < self.stages@.len(),
                    all_steps@ == flat_steps_of(self.stages@.subrange(0, i as int))
                        + stage.steps@.subrange(0, j as int),
                decreases stage.steps@.len() - j,
            {
                all_steps.push(stage.steps[j].clone());
                proof {
                    assert(stage.steps@.subrange(0, j + 1) =~= stage.steps@.subrange(0, j as int)
                        + seq![stage.steps@[j as int]]);
                    assert(all_steps@ =~= flat_steps_of(self.stages@.subrange(0, i as int))
                        + stage.steps@.subrange(0, j + 1));
                }
                j += 1;
            }
            proof {
                assert(stage.steps@.subrange(0, stage.steps@.len() as int) =~= stage.steps@);
                assert(self.stages@.subrange(0, i + 1).drop_last() =~= self.stages@.subrange(
                    0,
                    i as int,
                ));
                assert(self.stages@.subrange(0, i + 1).last() == self.stages@[i as int]);
            }
            i += 1;
        }
        proof {
            assert(self.stages@.subrange(0, self.stages@.len() as int) =~= self.stages@);
        }
        all_steps
    }
}

/// The texts of a list of strings.
pub open spec fn str_views(s: Seq<String>) -> Seq<Seq<char>> {
    s.map(|i: int, e: String| e@)
}

/// The texts of a list of string pairs.
pub open spec fn pair_views(s: Seq<(String, String)>) -> Seq<(Seq<char>, Seq<char>)> {
    s.map(|i: int, e: (String, String)| (e.0@, e.1@))
}

/// The text of an optional string.
pub open spec fn opt_text_view(o: Option<String>) -> Option<Seq<char>> {
    match o {
        Some(s) => Some(s@),
        None => None,
    }
}

/// `a` and `b` hold the same locale-to-text entries, in the same order.
pub open spec fn ls_like(a: LocalizedString, b: LocalizedString) -> bool {
    pair_views(a.entries@) == pair_views(b.entries@)
}

/// Optional localized values that hold the same entries.
pub open spec fn opt_ls_like(a: Option<LocalizedString>, b: Option<LocalizedString>) -> bool {
    match (a, b) {
        (Some(x), Some(y)) => ls_like(x, y),
        (None, None) => true,
        _ => false,
    }
}

/// Lists of localized values that hold the same entries, pairwise.
pub open spec fn ls_vec_like(a: Seq<LocalizedString>, b: Seq<LocalizedString>) -> bool {
    a.len() == b.len() && forall|i: int| 0 <= i < a.len() ==> ls_like(a[i], b[i])
}

/// `a` and `b` read the same, field for field.
pub open spec fn stage_like(a: Stage, b: Stage) -> bool {
    &&& ls_like(a.name, b.name)
    &&& a.cook_time == b.cook_time
    &&& a.prep_time == b.prep_time
    &&& opt_ls_like(a.description, b.description)
    &&& opt_ls_like(a.footer, b.footer)
    &&& ls_vec_like(a.steps@, b.steps@)
}

/// `a` and `b` read the same, field for field.
pub open spec fn recipe_like(a: Recipe, b: Recipe) -> bool {
    &&& a.id@ == b.id@
    &&& str_views(a.locales@) == str_views(b.locales@)
    &&& a.published@ == b.published@
    &&& ls_like(a.name, b.name)
    &&& ls_like(a.slug, b.slug)
    &&& ls_like(a.category, b.category)
    &&& ls_like(a.cuisine, b.cuisine)
    &&& opt_ls_like(a.description, b.description)
    &&& (match (a.keywords, b.keywords) {
        (Some(x), Some(y)) => ls_vec_like(x@, y@),
        (None, None) => true,
        _ => false,
    })
    &&& ls_vec_like(a.ingredients@, b.ingredients@)
    &&& (match (a.equipment, b.equipment) {
        (Some(x), Some(y)) => ls_vec_like(x@, y@),
        (None, None) => true,
        _ => false,
    })
    &&& a.stages@.len() == b.stages@.len()
    &&& forall|i: int| 0 <= i < a.stages@.len() ==> stage_like(a.stages@[i], b.stages@[i])
}

/// A copy of a list of strings with the same texts.
pub(crate) fn clone_string_vec(v: &Vec<String>) -> (r: Vec<String>)
    ensures
        str_views(r@) == str_views(v@),
        r@.len() == v@.len(),
        forall|i: int| 0 <= i < r@.len() ==> r@[i]@ == v@[i]@,
{
    let r = v.clone();
    proof {
        assert forall|i: int| 0 <= i < r@.len() implies r@[i]@ == v@[i]@ by {
            assert(cloned::<String>(v@[i], r@[i]));
        }
        assert(str_views(r@) =~= str_views(v@));
    }
    r
}

/// A copy of a list of string pairs with the same texts.
pub(crate) fn clone_pair_vec(v: &Vec<(String, String)>) -> (r: Vec<(String, String)>)
    ensures
        pair_views(r@) == pair_views(v@),
        r@.len() == v@.len(),
        forall|i: int| 0 <= i < r@.len() ==> r@[i].0@ == v@[i].0@ && r@[i].1@ == v@[i].1@,
{
    let mut r: Vec<(String, String)> = Vec::new();
    let mut i: usize = 0;
    while i < v.len()
        invariant
            0 <= i <= v@.len(),
            r@.len() == i,
            forall|j: int| 0 <= j < i ==> r@[j].0@ == v@[j].0@ && r@[j].1@ == v@[j].1@,
        decreases v@.len() - i,
    {
        r.push((v[i].0.clone(), v[i].1.clone()));
        i += 1;
    }
    proof {
        assert(pair_views(r@) =~= pair_views(v@));
    }
    r
}

impl LocalizedString {
    /// A copy holding the same entries.
    pub fn duplicate(&self) -> (r: LocalizedString)
        ensures
            ls_like(r, *self),
    {
        LocalizedString { entries: clone_pair_vec(&self.entries) }
    }
}

/// A copy of an optional localized value holding the same entries.
fn duplicate_opt_ls(o: &Option<LocalizedString>) -> (r: Option<LocalizedString>)
    ensures
        opt_ls_like(r, *o),
{
    match o {
        Some(ls) => Some(ls.duplicate()),
        None => None,
    }
}

/// A copy of a list of localized values holding the same entries.
fn duplicate_ls_vec(v: &Vec<LocalizedString>) -> (r: Vec<LocalizedString>)
    ensures
        ls_vec_like(r@, v@),
{
    let mut r: Vec<LocalizedString> = Vec::new();
    let mut i: usize = 0;
    while i < v.len()
        invariant
            0 <= i <= v@.len(),
            r@.len() == i,
            forall|j: int| 0 <= j < i ==> ls_like(r@[j], v@[j]),
        decreases v@.len() - i,
    {
        r.push(v[i].duplicate());
        i += 1;
    }
    r
}

impl Stage {
    /// A copy reading the same, field for field.
    pub fn duplicate(&self) -> (r: Stage)
        ensures
            stage_like(r, *self),
    {
        Stage {
            name: self.name.duplicate(),
            cook_time: self.cook_time,
            prep_time: self.prep_time,
            description: duplicate_opt_ls(&self.description),
            footer: duplicate_opt_ls(&self.footer),
            steps: duplicate_ls_vec(&self.steps),
        }
    }
}

impl Recipe {
    /// A copy reading the same, field for field.
    pub fn duplicate(&self) -> (r: Recipe)
        ensures
            recipe_like(r, *self),
    {
        let mut stages: Vec<Stage> = Vec::new();
        let mut i: usize = 0;
        while i < self.stages.len()
            invariant
                0 <= i <= self.stages@.len(),
                stages@.len() == i,
                forall|j: int| 0 <= j < i ==> stage_like(stages@[j], self.stages@[j]),
            decreases self.stages@.len() - i,
        {
            stages.push(self.stages[i].duplicate());
            i += 1;
        }
        Recipe {
            id: self.id.clone(),
            locales: clone_string_vec(&self.locales),
            published: self.published.clone(),
            name: self.name.duplicate(),
            slug: self.slug.duplicate(),
            category: self.category.duplicate(),
            cuisine: self.cuisine.duplicate(),
            description: duplicate_opt_ls(&self.description),
            keywords: match &self.keywords {
                Some(k) => Some(duplicate_ls_vec(k)),
                None => None,
            },
            ingredients: duplicate_ls_vec(&self.ingredients),
            equipment: match &self.equipment {
                Some(e) => Some(duplicate_ls_vec(e)),
                None => None,
            },
            stages,
        }
    }
}

/// `a` and `b` read the same, field for field.
pub open spec fn stage_partial_like(a: StagePartial, b: StagePartial) -> bool {
    &&& a.name@ == b.name@
    &&& opt_text_view(a.cook_time) == opt_text_view(b.cook_time)
    &&& opt_text_view(a.prep_time) == opt_text_view(b.prep_time)
    &&& opt_text_view(a.total_time) == opt_text_view(b.total_time)
    &&& opt_text_view(a.description) == opt_text_view(b.description)
    &&& opt_text_view(a.footer) == opt_text_view(b.footer)
    &&& str_views(a.steps@) == str_views(b.steps@)
}

/// `a` and `b` read the same, field for field.
pub open spec fn partial_like(a: RecipePartial, b: RecipePartial) -> bool {
    &&& a.id@ == b.id@
    &&& pair_views(a.alternate_locales@) == pair_views(b.alternate_locales@)
    &&& a.name@ == b.name@
    &&& a.published@ == b.published@
    &&& a.slug@ == b.slug@
    &&& opt_text_view(a.description) == opt_text_view(b.description)
    &&& a.category@ == b.category@
    &&& a.cuisine@ == b.cuisine@
    &&& str_views(a.keywords@) == str_views(b.keywords@)
    &&& str_views(a.ingredients@) == str_views(b.ingredients@)
    &&& str_views(a.equipment@) == str_views(b.equipment@)
    &&& a.stages@.len() == b.stages@.len()
    &&& (forall|i: int|
        0 <= i < a.stages@.len() ==> stage_partial_like(a.stages@[i], b.stages@[i]))
    &&& opt_text_view(a.cook_time) == opt_text_view(b.cook_time)
    &&& opt_text_view(a.prep_time) == opt_text_view(b.prep_time)
    &&& opt_text_view(a.total_time) == opt_text_view(b.total_time)
    &&& opt_text_view(a.sd_cook_time) == opt_text_view(b.sd_cook_time)
    &&& opt_text_view(a.sd_prep_time) == opt_text_view(b.sd_prep_time)
    &&& opt_text_view(a.sd_total_time) == opt_text_view(b.sd_total_time)
    &&& pair_views(a.images@) == pair_views(b.images@)
}

/// A copy of an optional string with the same text.
pub(crate) fn clone_opt_string(o: &Option<String>) -> (r: Option<String>)
    ensures
        opt_text_view(r) == opt_text_view(*o),
{
    match o {
        Some(s) => Some(s.clone()),
        None => None,
    }
}

impl StagePartial {
    /// A copy reading the same, field for field.
    pub fn duplicate(&self) -> (r: StagePartial)
        ensures
            stage_partial_like(r, *self),
    {
        StagePartial {
            name: self.name.clone(),
            cook_time: clone_opt_string(&self.cook_time),
            prep_time: clone_opt_string(&self.prep_time),
            total_time: clone_opt_string(&self.total_time),
            description: clone_opt_string(&self.description),
            footer: clone_opt_string(&self.footer),
            steps: clone_string_vec(&self.steps),
        }
    }
}

impl RecipePartial {
    /// A copy reading the same, field for field.
    pub fn duplicate(&self) -> (r: RecipePartial)
        ensures
            partial_like(r, *self),
    {
        let mut stages: Vec<StagePartial> = Vec::new();
        let mut i: usize = 0;
        while i < self.stages.len()
            invariant
                0 <= i <= self.stages@.len(),
                stages@.len() == i,
                forall|j: int| 0 <= j < i ==> stage_partial_like(stages@[j], self.stages@[j]),
            decreases self.stages@.len() - i,
        {
            stages.push(self.stages[i].duplicate());
            i += 1;
        }
        RecipePartial {
            id: self.id.clone(),
            alternate_locales: clone_pair_vec(&self.alternate_locales),
            name: self.name.clone(),
            published: self.published.clone(),
            slug: self.slug.clone(),
            description: clone_opt_string(&self.description),
            category: self.category.clone(),
            cuisine: self.cuisine.clone(),
            keywords: clone_string_vec(&self.keywords),
            ingredients: clone_string_vec(&self.ingredients),
            equipment: clone_string_vec(&self.equipment),
            stages,
            cook_time: clone_opt_string(&self.cook_time),
            prep_time: clone_opt_string(&self.prep_time),
            total_time: clone_opt_string(&self.total_time),
            sd_cook_time: clone_opt_string(&self.sd_cook_time),
            sd_prep_time: clone_opt_string(&self.sd_prep_time),
            sd_total_time: clone_opt_string(&self.sd_total_time),
            images: clone_pair_vec(&self.images),
        }
    }
}

} // verus!
