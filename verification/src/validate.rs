use vstd::prelude::*;

use crate::model::{default_locale, Error, LocalizedString, Recipe, Stage, seq_contains_str};

verus! {

/// The value stores a default-locale text.
pub open spec fn has_default(ls: LocalizedString) -> bool {
    ls.spec_has(default_locale())
}

/// Absent, or stores a default-locale text.
pub open spec fn opt_has_default(o: Option<LocalizedString>) -> bool {
    match o {
        Some(ls) => has_default(ls),
        None => true,
    }
}

/// Every value stores a default-locale text.
pub open spec fn all_have_default(vs: Seq<LocalizedString>) -> bool {
    forall|i: int| 0 <= i < vs.len() ==> has_default(vs[i])
}

/// Absent, or every value stores a default-locale text.
pub open spec fn opt_all_have_default(o: Option<Vec<LocalizedString>>) -> bool {
    match o {
        Some(vs) => all_have_default(vs@),
        None => true,
    }
}

/// What `uuid` accepts as a UUID text; acceptance is a function of the text
/// alone.
pub uninterp spec fn is_uuid_text(s: Seq<char>) -> bool;

/// Relies on uuid::Uuid::parse_str: whether a text parses as a UUID depends
/// on the text alone.
#[verifier::external_body]
fn parses_as_uuid(s: &str) -> (r: bool)
    ensures
        r == is_uuid_text(s@),
{
    uuid::Uuid::parse_str(s).is_ok()
}

/// A stage is structurally valid: it has steps, and every localized field
/// carries the default locale.
pub open spec fn stage_valid(s: Stage) -> bool {
    &&& s.steps@.len() > 0
    &&& has_default(s.name)
    &&& opt_has_default(s.description)
    &&& opt_has_default(s.footer)
    &&& all_have_default(s.steps@)
}

/// A recipe is structurally valid: a UUID identifier, non-empty locales,
/// ingredients and stages, and every localized field carrying the default
/// locale.
pub open spec fn recipe_valid(r: Recipe) -> bool {
    &&& is_uuid_text(r.id@)
    &&& r.locales@.len() > 0
    &&& r.ingredients@.len() > 0
    &&& has_default(r.name)
    &&& has_default(r.slug)
    &&& opt_has_default(r.description)
    &&& all_have_default(r.ingredients@)
    &&& opt_all_have_default(r.equipment)
    &&& r.stages@.len() > 0
    &&& forall|i: int| 0 <= i < r.stages@.len() ==> stage_valid(r.stages@[i])
}

/// Checks that one localized field carries the default locale; fails with
/// `MissingLocale` naming the field (through `key`) otherwise.
pub fn validate_localized_string(key: &str, value: &LocalizedString) -> (r: Result<(), Error>)
    ensures
        r is Ok <==> has_default(*value),
        r matches Err(e) ==> e matches Error::MissingLocale(k) && k@ == key@,
{
    let default_key = String::from_str("en_US");
    if !value.has_locale(&default_key) {
        return Err(Error::MissingLocale(String::from_str(key)));
    }
    Ok(())
}

/// Checks that every value of a list carries the default locale.
pub fn validate_localized_strings(key: &str, values: &Vec<LocalizedString>) -> (r: Result<
    (),
    Error,
>)
    ensures
        r is Ok <==> all_have_default(values@),
        r matches Err(e) ==> e matches Error::MissingLocale(k) && k@ == key@,
{
    let mut i: usize = 0;
    while i < values.len()
        invariant
            0 <= i <= values@.len(),
            forall|j: int| 0 <= j < i ==> has_default(values@[j]),
        decreases values@.len() - i,
    {
        match validate_localized_string(key, &values[i]) {
            Ok(_) => {},
            Err(e) => {
                return Err(e);
            },
        }
        i += 1;
    }
    Ok(())
}

/// Checks that an optional localized field, when present, carries the
/// default locale.
pub fn validate_optional_localized_string(key: &str, value: &Option<LocalizedString>) -> (r:
    Result<(), Error>)
    ensures
        r is Ok <==> opt_has_default(*value),
        r matches Err(e) ==> e matches Error::MissingLocale(k) && k@ == key@,
{
    match value {
        Some(v) => validate_localized_string(key, v),
        None => Ok(()),
    }
}

/// Checks that an optional list of localized values, when present, carries
/// the default locale throughout.
pub fn validate_optional_localized_strings(key: &str, values: &Option<Vec<LocalizedString>>) -> (r:
    Result<(), Error>)
    ensures
        r is Ok <==> opt_all_have_default(*values),
        r matches Err(e) ==> e matches Error::MissingLocale(k) && k@ == key@,
{
    match values {
        Some(vs) => validate_localized_strings(key, vs),
        None => Ok(()),
    }
}

/// Everything `validate_recipe` checks before it reaches the stages, in
/// checking order.
pub open spec fn head_valid(r: Recipe) -> bool {
    &&& is_uuid_text(r.id@)
    &&& r.locales@.len() > 0
    &&& r.ingredients@.len() > 0
    &&& has_default(r.name)
    &&& has_default(r.slug)
    &&& opt_has_default(r.description)
    &&& all_have_default(r.ingredients@)
    &&& opt_all_have_default(r.equipment)
    &&& r.stages@.len() > 0
}

/// Structurally validates one recipe, as `recipe_valid` describes, checking
/// in order: the identifier must be a UUID (else `ParseError` naming it);
/// locales, ingredients, stages and each stage's steps must be non-empty
/// (else `EmptyRequiredCollection` naming the collection); and every
/// localized field must carry the default locale (else `MissingLocale`
/// naming the field). The first check to fail decides the error. On success
/// the recipe's slug texts come back, for corpus-wide slug-collision
/// detection.
pub fn validate_recipe(recipe: &Recipe) -> (r: Result<Vec<String>, Error>)
    ensures
        r is Ok <==> recipe_valid(*recipe),
        r matches Ok(slugs) ==> slugs@.len() == recipe.slug.entries@.len() && forall|i: int|
            0 <= i < slugs@.len() ==> slugs@[i]@ == recipe.slug.entries@[i].1@,
        !is_uuid_text(recipe.id@) ==> (r matches Err(Error::ParseError(p)) && p@ == recipe.id@),
        r matches Err(Error::ParseError(p)) ==> !is_uuid_text(recipe.id@),
        (is_uuid_text(recipe.id@) && recipe.locales@.len() == 0) ==> (r matches Err(
            Error::EmptyRequiredCollection(n),
        ) && n@ == "locales"@),
        (is_uuid_text(recipe.id@) && recipe.locales@.len() > 0 && recipe.ingredients@.len() == 0)
            ==> (r matches Err(Error::EmptyRequiredCollection(n)) && n@ == "ingredients"@),
        (is_uuid_text(recipe.id@) && recipe.locales@.len() > 0 && recipe.ingredients@.len() > 0
            && !has_default(recipe.name)) ==> (r matches Err(Error::MissingLocale(k)) && k@
            == "name"@),
        (is_uuid_text(recipe.id@) && recipe.locales@.len() > 0 && recipe.ingredients@.len() > 0
            && has_default(recipe.name) && !has_default(recipe.slug)) ==> (r matches Err(
            Error::MissingLocale(k),
        ) && k@ == "slug"@),
        (is_uuid_text(recipe.id@) && recipe.locales@.len() > 0 && recipe.ingredients@.len() > 0
            && has_default(recipe.name) && has_default(recipe.slug) && !opt_has_default(
            recipe.description,
        )) ==> (r matches Err(Error::MissingLocale(k)) && k@ == "description"@),
        (is_uuid_text(recipe.id@) && recipe.locales@.len() > 0 && recipe.ingredients@.len() > 0
            && has_default(recipe.name) && has_default(recipe.slug) && opt_has_default(
            recipe.description,
        ) && !all_have_default(recipe.ingredients@)) ==> (r matches Err(Error::MissingLocale(k))
            && k@ == "ingredients"@),
        (is_uuid_text(recipe.id@) && recipe.locales@.len() > 0 && recipe.ingredients@.len() > 0
            && has_default(recipe.name) && has_default(recipe.slug) && opt_has_default(
            recipe.description,
        ) && all_have_default(recipe.ingredients@) && !opt_all_have_default(recipe.equipment))
            ==> (r matches Err(Error::MissingLocale(k)) && k@ == "equipment"@),
        (is_uuid_text(recipe.id@) && recipe.locales@.len() > 0 && recipe.ingredients@.len() > 0
            && has_default(recipe.name) && has_default(recipe.slug) && opt_has_default(
            recipe.description,
        ) && all_have_default(recipe.ingredients@) && opt_all_have_default(recipe.equipment)
            && recipe.stages@.len() == 0) ==> (r matches Err(Error::EmptyRequiredCollection(n))
            && n@ == "stages"@),
        (head_valid(*recipe) && !(forall|i: int|
            0 <= i < recipe.stages@.len() ==> stage_valid(recipe.stages@[i]))) ==> (exists|
            fi: int,
        |
            {
                &&& 0 <= fi < recipe.stages@.len()
                &&& !stage_valid(recipe.stages@[fi])
                &&& (forall|j: int| 0 <= j < fi ==> stage_valid(recipe.stages@[j]))
                &&& (recipe.stages@[fi].steps@.len() == 0 ==> (r matches Err(
                    Error::EmptyRequiredCollection(n),
                ) && n@ == "steps"@))
                &&& (recipe.stages@[fi].steps@.len() > 0 && !has_default(recipe.stages@[fi].name)
                    ==> (r matches Err(Error::MissingLocale(k)) && k@ == "stage.name"@))
                &&& (recipe.stages@[fi].steps@.len() > 0 && has_default(recipe.stages@[fi].name)
                    && !opt_has_default(recipe.stages@[fi].description) ==> (r matches Err(
                    Error::MissingLocale(k),
                ) && k@ == "stage.description"@))
                &&& (recipe.stages@[fi].steps@.len() > 0 && has_default(recipe.stages@[fi].name)
                    && opt_has_default(recipe.stages@[fi].description) && !opt_has_default(
                    recipe.stages@[fi].footer,
                ) ==> (r matches Err(Error::MissingLocale(k)) && k@ == "stage.footer"@))
                &&& (recipe.stages@[fi].steps@.len() > 0 && has_default(recipe.stages@[fi].name)
                    && opt_has_default(recipe.stages@[fi].description) && opt_has_default(
                    recipe.stages@[fi].footer,
                ) && !all_have_default(recipe.stages@[fi].steps@) ==> (r matches Err(
                    Error::MissingLocale(k),
                ) && k@ == "stage.steps"@))
            }),
{
    if !parses_as_uuid(recipe.id.as_str()) {
        return Err(Error::ParseError(recipe.id.clone()));
    }
    if recipe.locales.len() == 0 {
        return Err(Error::EmptyRequiredCollection(String::from_str("locales")));
    }
    if recipe.ingredients.len() == 0 {
        return Err(Error::EmptyRequiredCollection(String::from_str("ingredients")));
    }
    match validate_localized_string("name", &recipe.name) {
        Ok(_) => {},
        Err(e) => {
            return Err(e);
        },
    }
    match validate_localized_string("slug", &recipe.slug) {
        Ok(_) => {},
        Err(e) => {
            return Err(e);
        },
    }
    match validate_optional_localized_string("description", &recipe.description) {
        Ok(_) => {},
        Err(e) => {
            return Err(e);
        },
    }
    match validate_localized_strings("ingredients", &recipe.ingredients) {
        Ok(_) => {},
        Err(e) => {
            return Err(e);
        },
    }
    match validate_optional_localized_strings("equipment", &recipe.equipment) {
        Ok(_) => {},
        Err(e) => {
            return Err(e);
        },
    }
    if recipe.stages.len() == 0 {
        return Err(Error::EmptyRequiredCollection(String::from_str("stages")));
    }
    let mut i: usize = 0;
    while i < recipe.stages.len()
        invariant
            0 <= i <= recipe.stages@.len(),
            is_uuid_text(recipe.id@),
            recipe.locales@.len() > 0,
            recipe.ingredients@.len() > 0,
            has_default(recipe.name),
            has_default(recipe.slug),
            opt_has_default(recipe.description),
            all_have_default(recipe.ingredients@),
            opt_all_have_default(recipe.equipment),
            recipe.stages@.len() > 0,
            forall|j: int| 0 <= j < i ==> stage_valid(recipe.stages@[j]),
        decreases recipe.stages@.len() - i,
    {
        let stage = &recipe.stages[i];
        if stage.steps.len() == 0 {
            return Err(Error::EmptyRequiredCollection(String::from_str("steps")));
        }
        match validate_localized_string("stage.name", &stage.name) {
            Ok(_) => {},
            Err(e) => {
                return Err(e);
            },
        }
        match validate_optional_localized_string("stage.description", &stage.description) {
            Ok(_) => {},
            Err(e) => {
                return Err(e);
            },
        }
        match validate_optional_localized_string("stage.footer", &stage.footer) {
            Ok(_) => {},
            Err(e) => {
                return Err(e);
            },
        }
        match validate_localized_strings("stage.steps", &stage.steps) {
            Ok(_) => {},
            Err(e) => {
                return Err(e);
            },
        }
        i += 1;
    }
    match recipe.slug.values() {
        Ok(vs) => Ok(vs),
        Err(e) => Err(e),
    }
}

/// Records one validated recipe against the identifiers and slugs already
/// seen: a repeated identifier fails with `DuplicateIdentifier` and records
/// nothing; otherwise the identifier is recorded and each slug is checked in
/// order against everything seen so far (this recipe's earlier slugs
/// included), the first repeat failing with `DuplicateSlug` after the slugs
/// before it were recorded.
pub fn register_recipe(
    seen_ids: &mut Vec<String>,
    seen_slugs: &mut Vec<String>,
    id: String,
    slugs: Vec<String>,
) -> (r: Result<(), Error>)
    ensures
        seq_contains_str(old(seen_ids)@, id@) ==> (r matches Err(e) && e matches
            Error::DuplicateIdentifier(d) && d@ == id@ && final(seen_ids)@ == old(seen_ids)@
            && final(seen_slugs)@ == old(seen_slugs)@),
        !seq_contains_str(old(seen_ids)@, id@) ==> final(seen_ids)@ == old(seen_ids)@.push(id),
        (!seq_contains_str(old(seen_ids)@, id@) && forall|k: int|
            0 <= k < slugs@.len() ==> !seq_contains_str(
                old(seen_slugs)@ + slugs@.subrange(0, k),
                slugs@[k]@,
            )) ==> (r is Ok && final(seen_slugs)@ == old(seen_slugs)@ + slugs@),
        (!seq_contains_str(old(seen_ids)@, id@) && exists|k: int|
            0 <= k < slugs@.len() && seq_contains_str(
                old(seen_slugs)@ + slugs@.subrange(0, k),
                slugs@[k]@,
            )) ==> (r matches Err(e) && e matches Error::DuplicateSlug(s) && exists|k: int|
            {
                &&& 0 <= k < slugs@.len()
                &&& s@ == slugs@[k]@
                &&& seq_contains_str(old(seen_slugs)@ + slugs@.subrange(0, k), slugs@[k]@)
                &&& (forall|j: int|
                    0 <= j < k ==> !seq_contains_str(
                        old(seen_slugs)@ + slugs@.subrange(0, j),
                        slugs@[j]@,
                    ))
                &&& final(seen_slugs)@ == old(seen_slugs)@ + slugs@.subrange(0, k)
            }),
{
    let ghost seen0 = seen_slugs@;
    if contains_string_vec(seen_ids, &id) {
        return Err(Error::DuplicateIdentifier(id));
    }
    seen_ids.push(id.clone());
    let mut k: usize = 0;
    proof {
        assert(slugs@.subrange(0, 0) =~= Seq::<String>::empty());
        assert(seen_slugs@ =~= seen0 + slugs@.subrange(0, 0));
    }
    while k < slugs.len()
        invariant
            0 <= k <= slugs@.len(),
            !seq_contains_str(old(seen_ids)@, id@),
            seen_ids@ == old(seen_ids)@.push(id),
            seen_slugs@ =~= seen0 + slugs@.subrange(0, k as int),
            seen0 == old(seen_slugs)@,
            forall|j: int|
                0 <= j < k ==> !seq_contains_str(seen0 + slugs@.subrange(0, j), slugs@[j]@),
        decreases slugs@.len() - k,
    {
        let slug = slugs[k].clone();
        if contains_string_vec(seen_slugs, &slug) {
            return Err(Error::DuplicateSlug(slug));
        }
        seen_slugs.push(slug);
        proof {
            assert(seen_slugs@ =~= seen0 + slugs@.subrange(0, k + 1));
        }
        k += 1;
    }
    proof {
        assert(slugs@.subrange(0, slugs@.len() as int) =~= slugs@);
    }
    Ok(())
}

/// Whether some element of `v` reads exactly as `x`.
fn contains_string_vec(v: &Vec<String>, x: &String) -> (b: bool)
    ensures
        b == seq_contains_str(v@, x@),
{
    let mut i: usize = 0;
    while i < v.len()
        invariant
            0 <= i <= v@.len(),
            forall|j: int| 0 <= j < i ==> v@[j]@ != x@,
        decreases v@.len() - i,
    {
        if v[i] == *x {
            return true;
        }
        i += 1;
    }
    false
}

} // verus!
