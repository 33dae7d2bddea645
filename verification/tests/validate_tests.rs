use jrb::model::{Error, LocalizedString, Recipe, Stage};
use jrb::validate::{
    register_recipe, validate_localized_string, validate_localized_strings,
    validate_optional_localized_string, validate_optional_localized_strings, validate_recipe,
};

fn ls1(k: &str, v: &str) -> LocalizedString {
    LocalizedString {
        entries: vec![(k.to_string(), v.to_string())],
    }
}

fn valid_recipe() -> Recipe {
    Recipe {
        id: "56b7576b-efb2-4616-b2c4-02e3f381de4e".to_string(),
        locales: vec!["en_US".to_string()],
        published: "2022-01-01".to_string(),
        name: ls1("en_US", "wonderful food"),
        slug: ls1("en_US", "02e3f381de4e-wonderful-food"),
        category: ls1("en_US", "dinner"),
        cuisine: ls1("en_US", "american"),
        description: None,
        keywords: None,
        ingredients: vec![ls1("en_US", "food_a")],
        equipment: None,
        stages: vec![Stage {
            name: ls1("en_US", "prep"),
            cook_time: None,
            prep_time: None,
            description: None,
            footer: None,
            steps: vec![ls1("en_US", "first")],
        }],
    }
}

#[test]
fn valid_recipe_passes_and_returns_slugs() {
    let slugs = validate_recipe(&valid_recipe()).unwrap();
    assert_eq!(slugs, vec!["02e3f381de4e-wonderful-food".to_string()]);
}

#[test]
fn validate_recipe_err_bad_identifier() {
    let mut r = valid_recipe();
    r.id = "not-a-uuid".to_string();
    let err = validate_recipe(&r).unwrap_err();
    assert_eq!(err, Error::ParseError("not-a-uuid".to_string()));
}

#[test]
fn validate_recipe_err_empty_locales() {
    let mut r = valid_recipe();
    r.locales = Vec::new();
    let err = validate_recipe(&r).unwrap_err();
    assert_eq!(err, Error::EmptyRequiredCollection("locales".to_string()));
}

#[test]
fn validate_recipe_err_empty_ingredients() {
    let mut r = valid_recipe();
    r.ingredients = Vec::new();
    let err = validate_recipe(&r).unwrap_err();
    assert_eq!(err, Error::EmptyRequiredCollection("ingredients".to_string()));
}

#[test]
fn validate_recipe_err_empty_stages() {
    let mut r = valid_recipe();
    r.stages = Vec::new();
    let err = validate_recipe(&r).unwrap_err();
    assert_eq!(err, Error::EmptyRequiredCollection("stages".to_string()));
}

#[test]
fn validate_recipe_err_empty_steps() {
    let mut r = valid_recipe();
    r.stages[0].steps = Vec::new();
    let err = validate_recipe(&r).unwrap_err();
    assert_eq!(err, Error::EmptyRequiredCollection("steps".to_string()));
}

#[test]
fn validate_recipe_err_name_locale() {
    let mut r = valid_recipe();
    r.name = ls1("en_GB", "wonderful food");
    let err = validate_recipe(&r).unwrap_err();
    assert_eq!(err, Error::MissingLocale("name".to_string()));
}

#[test]
fn validate_recipe_err_stage_step_locale() {
    let mut r = valid_recipe();
    r.stages[0].steps = vec![ls1("en_GB", "first")];
    let err = validate_recipe(&r).unwrap_err();
    assert_eq!(err, Error::MissingLocale("stage.steps".to_string()));
}

#[test]
fn validate_helpers_check_default_locale() {
    assert!(validate_localized_string("name", &ls1("en_US", "x")).is_ok());
    assert!(validate_localized_string("name", &ls1("en_GB", "x")).is_err());
    assert!(validate_localized_strings("xs", &vec![ls1("en_US", "x")]).is_ok());
    assert!(validate_localized_strings("xs", &vec![ls1("en_GB", "x")]).is_err());
    assert!(validate_optional_localized_string("d", &None).is_ok());
    assert!(validate_optional_localized_string("d", &Some(ls1("en_GB", "x"))).is_err());
    assert!(validate_optional_localized_strings("e", &None).is_ok());
    assert!(validate_optional_localized_strings("e", &Some(vec![ls1("en_US", "x")])).is_ok());
}

#[test]
fn register_recipe_rejects_duplicate_identifier() {
    let mut ids = vec!["r1".to_string()];
    let mut slugs = Vec::new();
    let err = register_recipe(&mut ids, &mut slugs, "r1".to_string(), vec!["s1".to_string()])
        .unwrap_err();
    assert_eq!(err, Error::DuplicateIdentifier("r1".to_string()));
    assert_eq!(ids, vec!["r1".to_string()]);
    assert!(slugs.is_empty());
}

#[test]
fn register_recipe_rejects_duplicate_slug() {
    let mut ids = vec!["r1".to_string()];
    let mut slugs = vec!["s1".to_string()];
    let err = register_recipe(
        &mut ids,
        &mut slugs,
        "r2".to_string(),
        vec!["s2".to_string(), "s1".to_string()],
    )
    .unwrap_err();
    assert_eq!(err, Error::DuplicateSlug("s1".to_string()));
    assert_eq!(ids, vec!["r1".to_string(), "r2".to_string()]);
    assert_eq!(slugs, vec!["s1".to_string(), "s2".to_string()]);
}

#[test]
fn register_recipe_records_fresh_entries() {
    let mut ids = Vec::new();
    let mut slugs = Vec::new();
    register_recipe(
        &mut ids,
        &mut slugs,
        "r1".to_string(),
        vec!["s1".to_string(), "s2".to_string()],
    )
    .unwrap();
    assert_eq!(ids, vec!["r1".to_string()]);
    assert_eq!(slugs, vec!["s1".to_string(), "s2".to_string()]);
}
