use jrb::model::{Error, LocalizedString, Recipe, Stage};

fn ls(entries: &[(&str, &str)]) -> LocalizedString {
    LocalizedString {
        entries: entries
            .iter()
            .map(|(k, v)| (k.to_string(), v.to_string()))
            .collect(),
    }
}

fn plain_recipe() -> Recipe {
    Recipe {
        id: "soup-1".to_string(),
        locales: vec!["en_US".to_string()],
        published: "2022-01-01".to_string(),
        name: ls(&[("en_US", "Soup")]),
        slug: ls(&[("en_US", "soup")]),
        category: ls(&[("en_US", "dinner")]),
        cuisine: ls(&[("en_US", "american")]),
        description: None,
        keywords: None,
        ingredients: vec![ls(&[("en_US", "water")])],
        equipment: None,
        stages: vec![Stage {
            name: ls(&[("en_US", "Cook")]),
            cook_time: None,
            prep_time: None,
            description: None,
            footer: None,
            steps: vec![ls(&[("en_US", "Boil")])],
        }],
    }
}

#[test]
fn localized_returns_exact_match() {
    let v = ls(&[("en_US", "Soup"), ("fr_FR", "Soupe")]);
    assert_eq!(v.localized(Some("fr_FR".to_string())).unwrap(), "Soupe");
    assert_eq!(v.localized(Some("en_US".to_string())).unwrap(), "Soup");
    assert_eq!(v.localized(None).unwrap(), "Soup");
}

#[test]
fn localized_falls_back_to_default_locale() {
    let v = ls(&[("en_US", "Soup"), ("fr_FR", "Soupe")]);
    assert_eq!(v.localized(Some("de_DE".to_string())).unwrap(), "Soup");
}

#[test]
fn localized_fails_when_neither_locale_is_stored() {
    let v = ls(&[("fr_FR", "Soupe")]);
    let err = v.localized(Some("de_DE".to_string())).unwrap_err();
    assert_eq!(err, Error::MissingLocale("de_DE".to_string()));
    let err = v.localized(None).unwrap_err();
    assert_eq!(err, Error::MissingLocale("en_US".to_string()));
}

#[test]
fn localized_string_new_stores_default_locale() {
    let v = LocalizedString::new("Bread");
    assert_eq!(v.entries.len(), 1);
    assert_eq!(v.entries[0].0, "en_US");
    assert_eq!(v.entries[0].1, "Bread");
    assert_eq!(v.localized(None).unwrap(), "Bread");
}

#[test]
fn values_returns_all_texts_in_stored_order() {
    let v = ls(&[("en_US", "Soup"), ("fr_FR", "Soupe")]);
    assert_eq!(v.values().unwrap(), vec!["Soup".to_string(), "Soupe".to_string()]);
}

#[test]
fn localied_vec_resolves_each_value() {
    let values = vec![ls(&[("en_US", "salt")]), ls(&[("en_US", "pepper")])];
    let out = jrb::model::localied_vec(&values, None).unwrap();
    assert_eq!(out, vec!["salt".to_string(), "pepper".to_string()]);
}

#[test]
fn localied_vec_fails_on_first_unresolvable_value() {
    let values = vec![ls(&[("en_US", "salt")]), ls(&[("fr_FR", "poivre")])];
    let err = jrb::model::localied_vec(&values, None).unwrap_err();
    assert_eq!(err, Error::MissingLocale("en_US".to_string()));
}

#[test]
fn stage_to_partial_formats_durations() {
    let stage = Stage {
        name: ls(&[("en_US", "Cook")]),
        cook_time: Some(300),
        prep_time: Some(9420),
        description: None,
        footer: None,
        steps: vec![ls(&[("en_US", "Boil")])],
    };
    let p = stage.to_partial(None).unwrap();
    assert_eq!(p.name, "Cook");
    assert_eq!(p.cook_time, Some("5m".to_string()));
    assert_eq!(p.prep_time, Some("2h 37m".to_string()));
    assert_eq!(p.total_time, Some("2h 42m".to_string()));
    assert_eq!(p.steps, vec!["Boil".to_string()]);
}

#[test]
fn stage_to_partial_zero_times_are_absent() {
    let stage = Stage {
        name: ls(&[("en_US", "Rest")]),
        cook_time: None,
        prep_time: None,
        description: None,
        footer: None,
        steps: vec![ls(&[("en_US", "Wait")])],
    };
    let p = stage.to_partial(None).unwrap();
    assert_eq!(p.cook_time, None);
    assert_eq!(p.prep_time, None);
    assert_eq!(p.total_time, None);
}

#[test]
fn recipe_total_time_is_cook_plus_prep() {
    let mut r = plain_recipe();
    r.stages = vec![
        Stage {
            name: ls(&[("en_US", "Prep")]),
            cook_time: None,
            prep_time: Some(1800),
            description: None,
            footer: None,
            steps: vec![ls(&[("en_US", "Chop")])],
        },
        Stage {
            name: ls(&[("en_US", "Cook")]),
            cook_time: Some(4200),
            prep_time: None,
            description: None,
            footer: None,
            steps: vec![ls(&[("en_US", "Simmer")])],
        },
    ];
    let p = r.to_partial(None, &vec!["en_US".to_string()], Vec::new()).unwrap();
    assert_eq!(p.cook_time, Some("1h 10m".to_string()));
    assert_eq!(p.prep_time, Some("30m".to_string()));
    assert_eq!(p.total_time, Some("1h 40m".to_string()));
    assert_eq!(p.sd_cook_time, Some("P1H10M".to_string()));
    assert_eq!(p.sd_prep_time, Some("P30M".to_string()));
    assert_eq!(p.sd_total_time, Some("P1H40M".to_string()));
}

#[test]
fn recipe_zero_total_time_has_no_time_fields() {
    let r = plain_recipe();
    let p = r.to_partial(None, &vec!["en_US".to_string()], Vec::new()).unwrap();
    assert_eq!(p.cook_time, None);
    assert_eq!(p.prep_time, None);
    assert_eq!(p.total_time, None);
    assert_eq!(p.sd_cook_time, None);
    assert_eq!(p.sd_prep_time, None);
    assert_eq!(p.sd_total_time, None);
}

#[test]
fn alternate_locales_keep_only_allowed_prefix() {
    let mut r = plain_recipe();
    r.locales = vec!["en_US".to_string(), "fr_FR".to_string()];
    r.slug = ls(&[("en_US", "soup"), ("fr_FR", "soupe")]);
    let allowed = vec!["en_US".to_string()];
    let p = r.to_partial(Some("en_US".to_string()), &allowed, Vec::new()).unwrap();
    assert_eq!(p.alternate_locales, vec![("en_US".to_string(), "soup".to_string())]);
}

#[test]
fn alternate_locales_stop_at_first_excluded_locale() {
    let mut r = plain_recipe();
    r.locales = vec!["fr_FR".to_string(), "en_US".to_string()];
    r.slug = ls(&[("en_US", "soup"), ("fr_FR", "soupe")]);
    let allowed = vec!["en_US".to_string()];
    let p = r.to_partial(Some("en_US".to_string()), &allowed, Vec::new()).unwrap();
    assert_eq!(p.alternate_locales, Vec::<(String, String)>::new());
}

#[test]
fn keywords_fall_back_to_empty_text() {
    let mut r = plain_recipe();
    r.keywords = Some(vec![ls(&[("en_US", "hearty")]), ls(&[("fr_FR", "vite")])]);
    let p = r.to_partial(None, &vec!["en_US".to_string()], Vec::new()).unwrap();
    assert_eq!(p.keywords, vec!["hearty".to_string(), "".to_string()]);
}

#[test]
fn projection_fails_closed_on_untranslated_field() {
    let mut r = plain_recipe();
    r.cuisine = ls(&[("fr_FR", "francaise")]);
    let err = r.to_partial(None, &vec!["en_US".to_string()], Vec::new()).unwrap_err();
    assert_eq!(err, Error::MissingLocale("en_US".to_string()));
}

#[test]
fn images_are_attached_verbatim() {
    let r = plain_recipe();
    let images = vec![("a_thumbnail.jpg".to_string(), "a.jpg".to_string())];
    let p = r.to_partial(None, &vec!["en_US".to_string()], images.clone()).unwrap();
    assert_eq!(p.images, images);
}

#[test]
fn flat_steps_concatenates_stage_steps_in_order() {
    let mut r = plain_recipe();
    r.stages = vec![
        Stage {
            name: ls(&[("en_US", "Prep")]),
            cook_time: None,
            prep_time: None,
            description: None,
            footer: None,
            steps: vec![ls(&[("en_US", "Chop")]), ls(&[("en_US", "Dice")])],
        },
        Stage {
            name: ls(&[("en_US", "Cook")]),
            cook_time: None,
            prep_time: None,
            description: None,
            footer: None,
            steps: vec![ls(&[("en_US", "Simmer")])],
        },
    ];
    let p = r.to_partial(None, &vec!["en_US".to_string()], Vec::new()).unwrap();
    assert_eq!(
        p.flat_steps(),
        vec!["Chop".to_string(), "Dice".to_string(), "Simmer".to_string()]
    );
}

#[test]
fn init_slugifies_identifier_and_name() {
    let r = Recipe::init(Some("ID1".to_string()), Some("Great Soup".to_string()), false);
    assert_eq!(r.id, "ID1");
    assert_eq!(r.locales, vec!["en_US".to_string()]);
    assert_eq!(r.published, "2022-01-01");
    assert_eq!(r.name.localized(None).unwrap(), "Great Soup");
    assert_eq!(r.slug.localized(None).unwrap(), "id1-great-soup");
    assert_eq!(r.category.localized(None).unwrap(), "Dinner");
    assert_eq!(r.cuisine.localized(None).unwrap(), "American");
    assert!(r.description.is_none());
    assert!(r.ingredients.is_empty());
    assert!(r.stages.is_empty());
}

#[test]
fn init_without_identifier_draws_seven_characters() {
    let r = Recipe::init(None, Some("Bread".to_string()), false);
    assert_eq!(r.id.chars().count(), 7);
}

#[test]
fn init_mock_fills_sample_content() {
    let r = Recipe::init(Some("x".to_string()), None, true);
    assert_eq!(r.name.localized(None).unwrap(), "A wonderful new recipe");
    assert_eq!(r.ingredients.len(), 3);
    assert_eq!(r.stages.len(), 1);
    assert_eq!(r.stages[0].name.localized(None).unwrap(), "Cook");
    assert_eq!(r.stages[0].steps.len(), 2);
    assert!(r.description.is_some());
}

#[test]
fn duplicate_reads_the_same() {
    let mut r = plain_recipe();
    r.keywords = Some(vec![ls(&[("en_US", "hearty")])]);
    r.description = Some(ls(&[("en_US", "Warm")]));
    let d = r.duplicate();
    assert_eq!(d, r);
}
