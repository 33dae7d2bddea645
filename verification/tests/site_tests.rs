use jrb::model::{LocalizedString, Recipe, Stage};
use jrb::site::{plan_site, title, PageContent};
use jrb::views::SiteView;

fn ls(entries: &[(&str, &str)]) -> LocalizedString {
    LocalizedString {
        entries: entries
            .iter()
            .map(|(k, v)| (k.to_string(), v.to_string()))
            .collect(),
    }
}

fn site_recipe(id: &str, name: &str, category: &str, locales: &[&str]) -> Recipe {
    Recipe {
        id: id.to_string(),
        locales: locales.iter().map(|l| l.to_string()).collect(),
        published: "2022-01-01".to_string(),
        name: ls(&[("en_US", name)]),
        slug: ls(&[("en_US", &name.to_lowercase().replace(' ', "-"))]),
        category: ls(&[("en_US", category)]),
        cuisine: ls(&[("en_US", "american")]),
        description: None,
        keywords: None,
        ingredients: vec![ls(&[("en_US", "water")])],
        equipment: None,
        stages: vec![Stage {
            name: ls(&[("en_US", "Cook")]),
            cook_time: Some(300),
            prep_time: None,
            description: None,
            footer: None,
            steps: vec![ls(&[("en_US", "Boil")])],
        }],
    }
}

fn base_site() -> SiteView {
    SiteView::new("http://localhost:8080/", "1.0.0")
}

#[test]
fn title_uppercases_first_character() {
    assert_eq!(title("categories"), "Categories");
    assert_eq!(title("cuisines"), "Cuisines");
    assert_eq!(title(""), "");
}

#[test]
fn plan_covers_only_site_locales() {
    let recipe = site_recipe("r1", "Soup", "dinner", &["en_US", "fr_FR"]);
    let locales = vec!["en_US".to_string()];
    let plan = plan_site(vec![recipe], &Vec::new(), &locales, &base_site()).unwrap();
    assert!(!plan.pages.is_empty());
    for page in &plan.pages {
        assert_ne!(page.path[0], "fr_FR");
    }
    let mut recipe_pages = 0;
    for page in &plan.pages {
        if let PageContent::RecipePage(v) = &page.content {
            recipe_pages += 1;
            assert_eq!(v.locale, "en_US");
            assert_eq!(
                v.recipe.alternate_locales,
                vec![("en_US".to_string(), "soup".to_string())]
            );
            assert_eq!(v.self_url, "http://localhost:8080/en_US/soup/");
            assert_eq!(v.oembed_url, "http://localhost:8080/en_US/soup/oembed.json");
            assert_eq!(page.path, vec!["en_US", "soup", "index.html"]);
        }
    }
    assert_eq!(recipe_pages, 1);
}

#[test]
fn plan_covers_every_configured_locale() {
    let mut recipe = site_recipe("r1", "Soup", "dinner", &["en_US", "fr_FR"]);
    recipe.slug = ls(&[("en_US", "soup"), ("fr_FR", "soupe")]);
    let locales = vec!["en_US".to_string(), "fr_FR".to_string()];
    let plan = plan_site(vec![recipe], &Vec::new(), &locales, &base_site()).unwrap();
    let mut roots: Vec<String> = Vec::new();
    for page in &plan.pages {
        if let PageContent::RecipePage(v) = &page.content {
            roots.push(page.path[0].clone());
            assert_eq!(
                v.recipe.alternate_locales,
                vec![
                    ("en_US".to_string(), "soup".to_string()),
                    ("fr_FR".to_string(), "soupe".to_string())
                ]
            );
        }
    }
    assert_eq!(roots, vec!["en_US".to_string(), "fr_FR".to_string()]);
    assert!(plan.links.contains(&"http://localhost:8080/fr_FR/soupe/".to_string()));
}

#[test]
fn plan_skips_duplicate_identifiers_and_reports_them() {
    let a = site_recipe("r1", "Soup", "dinner", &["en_US"]);
    let b = site_recipe("r1", "Other Soup", "dinner", &["en_US"]);
    let locales = vec!["en_US".to_string()];
    let plan = plan_site(vec![a, b], &Vec::new(), &locales, &base_site()).unwrap();
    assert_eq!(plan.skipped_ids, vec!["r1".to_string()]);
    let mut recipe_pages = 0;
    for page in &plan.pages {
        if let PageContent::RecipePage(v) = &page.content {
            recipe_pages += 1;
            assert_eq!(v.recipe.name, "Soup");
        }
    }
    assert_eq!(recipe_pages, 1);
}

#[test]
fn plan_collects_links_for_the_sitemap() {
    let recipe = site_recipe("r1", "Soup", "dinner", &["en_US"]);
    let locales = vec!["en_US".to_string()];
    let plan = plan_site(vec![recipe], &Vec::new(), &locales, &base_site()).unwrap();
    assert!(plan.links.contains(&"http://localhost:8080/".to_string()));
    assert!(plan.links.contains(&"http://localhost:8080/en_US/".to_string()));
    assert!(plan.links.contains(&"http://localhost:8080/en_US/soup/".to_string()));
    let last = plan.pages.last().unwrap();
    assert_eq!(last.path, vec!["sitemap.xml"]);
    match &last.content {
        PageContent::Sitemap(sm) => assert_eq!(sm.links, plan.links),
        _ => panic!("last page is not the sitemap"),
    }
}

#[test]
fn plan_ends_with_home_about_sitemap() {
    let locales = vec!["en_US".to_string()];
    let plan = plan_site(Vec::new(), &Vec::new(), &locales, &base_site()).unwrap();
    let n = plan.pages.len();
    assert_eq!(plan.pages[n - 3].path, vec!["index.html"]);
    assert_eq!(plan.pages[n - 2].path, vec!["about", "index.html"]);
    assert_eq!(plan.pages[n - 1].path, vec!["sitemap.xml"]);
    match &plan.pages[n - 3].content {
        PageContent::Home(h) => {
            assert_eq!(h.title, "Just Recipes - Home");
            assert_eq!(h.locales, locales);
            assert_eq!(h.self_url, "http://localhost:8080/");
        }
        _ => panic!("missing home page"),
    }
    match &plan.pages[n - 2].content {
        PageContent::About(h) => {
            assert_eq!(h.title, "Just Recipes Blog - About");
            assert_eq!(h.self_url, "http://localhost:8080/about/");
        }
        _ => panic!("missing about page"),
    }
}

#[test]
fn plan_groups_by_category_with_sorted_slugged_groups() {
    let a = site_recipe("r1", "Soup", "main dish", &["en_US"]);
    let b = site_recipe("r2", "Pancakes", "breakfast", &["en_US"]);
    let locales = vec!["en_US".to_string()];
    let plan = plan_site(vec![a, b], &Vec::new(), &locales, &base_site()).unwrap();
    let mut group_paths: Vec<Vec<String>> = Vec::new();
    for page in &plan.pages {
        if page.path.len() == 4 && page.path[1] == "categories" {
            group_paths.push(page.path.clone());
        }
    }
    assert_eq!(
        group_paths,
        vec![
            vec![
                "en_US".to_string(),
                "categories".to_string(),
                "breakfast".to_string(),
                "index.html".to_string()
            ],
            vec![
                "en_US".to_string(),
                "categories".to_string(),
                "main-dish".to_string(),
                "index.html".to_string()
            ],
        ]
    );
    let mut found_index = false;
    for page in &plan.pages {
        if page.path == vec!["en_US".to_string(), "categories".to_string(), "index.html".to_string()]
        {
            found_index = true;
            match &page.content {
                PageContent::LinkList(v) => {
                    assert_eq!(v.title, "Just Recipes - Categories");
                    assert_eq!(v.links_label, "Categories");
                    assert_eq!(v.links.len(), 2);
                    assert_eq!(v.links[0].1, "breakfast");
                    assert_eq!(
                        v.links[0].0,
                        "http://localhost:8080/en_US/categories/breakfast/"
                    );
                }
                _ => panic!("categories index is not a link list"),
            }
        }
    }
    assert!(found_index);
}

#[test]
fn plan_index_lists_recipes_in_name_order() {
    let a = site_recipe("r1", "Waffles", "dinner", &["en_US"]);
    let b = site_recipe("r2", "Apple Pie", "dinner", &["en_US"]);
    let locales = vec!["en_US".to_string()];
    let plan = plan_site(vec![a, b], &Vec::new(), &locales, &base_site()).unwrap();
    let mut found = false;
    for page in &plan.pages {
        if page.path == vec!["en_US".to_string(), "index.html".to_string()] {
            found = true;
            match &page.content {
                PageContent::LinkList(v) => {
                    assert_eq!(v.links.len(), 2);
                    assert_eq!(v.links[0].1, "Apple Pie");
                    assert_eq!(v.links[0].0, "http://localhost:8080/en_US/apple-pie/");
                    assert_eq!(v.links[1].1, "Waffles");
                }
                _ => panic!("locale index is not a link list"),
            }
        }
    }
    assert!(found);
}

#[test]
fn plan_search_index_lists_recipes() {
    let recipe = site_recipe("r1", "Soup", "dinner", &["en_US"]);
    let locales = vec!["en_US".to_string()];
    let plan = plan_site(vec![recipe], &Vec::new(), &locales, &base_site()).unwrap();
    let mut found = false;
    for page in &plan.pages {
        if page.path == vec!["en_US".to_string(), "search.json".to_string()] {
            found = true;
            match &page.content {
                PageContent::SearchIndex(entries) => {
                    assert_eq!(entries.len(), 1);
                    assert_eq!(entries[0].name, "Soup");
                    assert_eq!(entries[0].link, "http://localhost:8080/en_US/soup/");
                }
                _ => panic!("search page is not a search index"),
            }
        }
    }
    assert!(found);
}

#[test]
fn plan_copies_images_for_recipes_that_have_them() {
    let recipe = site_recipe("r1", "Soup", "dinner", &["en_US"]);
    let locales = vec!["en_US".to_string()];
    let with_images = vec!["r1".to_string()];
    let plan = plan_site(vec![recipe], &with_images, &locales, &base_site()).unwrap();
    assert_eq!(plan.image_copies.len(), 2);
    assert_eq!(plan.image_copies[0].source_name, "r1.jpg");
    assert_eq!(
        plan.image_copies[0].dest_path,
        vec!["en_US".to_string(), "soup".to_string(), "r1.jpg".to_string()]
    );
    assert_eq!(plan.image_copies[1].source_name, "r1_thumbnail.jpg");
    let mut checked_meta = false;
    for page in &plan.pages {
        if let PageContent::RecipePage(v) = &page.content {
            checked_meta = true;
            assert!(v
                .meta
                .contains(&("og:image".to_string(),
                    "http://localhost:8080/en_US/soup/r1_thumbnail.jpg".to_string())));
            assert_eq!(
                v.recipe.images,
                vec![("r1_thumbnail.jpg".to_string(), "r1.jpg".to_string())]
            );
        }
    }
    assert!(checked_meta);
}

#[test]
fn plan_oembed_descriptor_is_fixed_shape() {
    let recipe = site_recipe("r1", "Soup", "dinner", &["en_US"]);
    let locales = vec!["en_US".to_string()];
    let plan = plan_site(vec![recipe], &Vec::new(), &locales, &base_site()).unwrap();
    let mut found = false;
    for page in &plan.pages {
        if let PageContent::OembedDocument(o) = &page.content {
            found = true;
            assert_eq!(o.response_type, "rich");
            assert_eq!(o.version, "1.0");
            assert_eq!(o.width, Some(550));
            assert_eq!(o.height, Some(270));
            assert!(o.html.contains("http://localhost:8080/en_US/soup/oembed.html"));
            assert_eq!(page.path, vec!["en_US", "soup", "oembed.json"]);
        }
    }
    assert!(found);
}
