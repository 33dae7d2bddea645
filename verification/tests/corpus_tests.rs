use jrb::corpus::{dedup_recipes, sort_recipes_by_name};
use jrb::model::{Error, LocalizedString, Recipe, Stage};

fn ls1(k: &str, v: &str) -> LocalizedString {
    LocalizedString {
        entries: vec![(k.to_string(), v.to_string())],
    }
}

fn named_recipe(id: &str, name: &str) -> Recipe {
    Recipe {
        id: id.to_string(),
        locales: vec!["en_US".to_string()],
        published: "2022-01-01".to_string(),
        name: ls1("en_US", name),
        slug: ls1("en_US", id),
        category: ls1("en_US", "dinner"),
        cuisine: ls1("en_US", "american"),
        description: None,
        keywords: None,
        ingredients: vec![ls1("en_US", "water")],
        equipment: None,
        stages: vec![Stage {
            name: ls1("en_US", "Cook"),
            cook_time: None,
            prep_time: None,
            description: None,
            footer: None,
            steps: vec![ls1("en_US", "Boil")],
        }],
    }
}

#[test]
fn dedup_keeps_first_of_duplicate_identifiers() {
    let first = named_recipe("r1", "Apple Pie");
    let second = named_recipe("r1", "Imposter Pie");
    let third = named_recipe("r2", "Bread");
    let (kept, skipped) = dedup_recipes(vec![first.clone(), second, third.clone()]);
    assert_eq!(kept, vec![first, third]);
    assert_eq!(skipped, vec!["r1".to_string()]);
}

#[test]
fn dedup_without_duplicates_keeps_everything() {
    let a = named_recipe("r1", "Apple Pie");
    let b = named_recipe("r2", "Bread");
    let (kept, skipped) = dedup_recipes(vec![a.clone(), b.clone()]);
    assert_eq!(kept, vec![a, b]);
    assert!(skipped.is_empty());
}

#[test]
fn sort_orders_by_resolved_default_name() {
    let a = named_recipe("r1", "Waffles");
    let b = named_recipe("r2", "Apple Pie");
    let c = named_recipe("r3", "Muffins");
    let sorted = sort_recipes_by_name(vec![a.clone(), b.clone(), c.clone()]).unwrap();
    assert_eq!(sorted, vec![b, c, a]);
}

#[test]
fn sort_keeps_input_order_for_equal_names() {
    let a = named_recipe("r1", "Soup");
    let b = named_recipe("r2", "Soup");
    let sorted = sort_recipes_by_name(vec![a.clone(), b.clone()]).unwrap();
    assert_eq!(sorted, vec![a, b]);
}

#[test]
fn sort_fails_when_a_name_has_no_default_locale() {
    let mut bad = named_recipe("r1", "unused");
    bad.name = ls1("fr_FR", "Gaufres");
    let err = sort_recipes_by_name(vec![bad]).unwrap_err();
    assert_eq!(err, Error::MissingLocale("en_US".to_string()));
}
