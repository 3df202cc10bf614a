use rok::discovery::{
    custom_template_files, list_templates, PropDefinition, TemplateDiscovery, TemplateOutput,
    TemplateSchema, TemplateSource,
};
use rok::filters::{
    camelcase_filter, capitalize_filter, is_vowel, kebabcase_filter, lowercase_filter,
    pascalcase_filter, pluralize_filter, singularize_filter, snakecase_filter, uppercase_filter,
};
use rok::templates::{
    apply_filter, choose_template, get_builtin_template, render_template, FilterKind, TemplateChoice,
};

#[test]
fn camel_and_pascal_filters() {
    assert_eq!(camelcase_filter("hello world-foo"), "helloWorldFoo");
    assert_eq!(camelcase_filter("HTTP server"), "httpServer");
    assert_eq!(pascalcase_filter("user_profile page"), "UserProfilePage");
    assert_eq!(camelcase_filter(""), "");
    assert_eq!(pascalcase_filter("--"), "");
}

#[test]
fn snake_and_kebab_filters() {
    assert_eq!(snakecase_filter("helloWorld"), "hello_world");
    assert_eq!(snakecase_filter("Hello World"), "hello__world");
    assert_eq!(kebabcase_filter("myComponent name"), "my-component-name");
    assert_eq!(snakecase_filter("  spaced  out "), "spaced_out");
}

#[test]
fn plural_and_singular_filters() {
    assert_eq!(pluralize_filter("box"), "boxes");
    assert_eq!(pluralize_filter("church"), "churches");
    assert_eq!(pluralize_filter("city"), "cities");
    assert_eq!(pluralize_filter("day"), "days");
    assert_eq!(pluralize_filter("user"), "users");
    assert_eq!(pluralize_filter("y"), "ys");
    assert_eq!(singularize_filter("cities"), "city");
    assert_eq!(singularize_filter("boxes"), "box");
    assert_eq!(singularize_filter("users"), "user");
    assert_eq!(singularize_filter("class"), "class");
    assert_eq!(singularize_filter("data"), "data");
    assert!(is_vowel('E'));
    assert!(!is_vowel('y'));
}

#[test]
fn case_filters() {
    assert_eq!(uppercase_filter("abc"), "ABC");
    assert_eq!(lowercase_filter("ÀBC"), "àbc");
    assert_eq!(capitalize_filter("hELLO"), "Hello");
    assert_eq!(capitalize_filter(""), "");
}

#[test]
fn builtin_templates() {
    assert!(get_builtin_template("rust-module").starts_with("pub mod {{name}} {"));
    assert!(get_builtin_template("react-route").contains("createFileRoute('{{path}}')"));
    assert_eq!(get_builtin_template("nope"), "");
}

#[test]
fn rendering_uses_the_filters() {
    let vars = vec![("name".to_string(), "user profile".to_string())];
    assert_eq!(render_template("{{ name | pascalcase }}!", &vars), "UserProfile!");
    assert_eq!(render_template("{{ name | snakecase }}", &vars), "user_profile");
    assert_eq!(render_template("{% broken", &vars), "{% broken");
}

#[test]
fn rendering_plural_singular_and_pascal_forms() {
    let with = |w: &str| vec![("w".to_string(), w.to_string())];
    assert_eq!(render_template("{{ w | pluralize }}", &with("city")), "cities");
    assert_eq!(render_template("{{ w | pluralize }}", &with("day")), "days");
    assert_eq!(render_template("{{ w | pluralize }}", &with("box")), "boxes");
    assert_eq!(render_template("{{ w | singularize }}", &with("cities")), "city");
    assert_eq!(render_template("{{ w | singularize }}", &with("class")), "class");
    assert_eq!(render_template("{{ w | pascalcase }}", &with("blog_post")), "BlogPost");
    assert_eq!(render_template("{{ w | camelcase }}", &with("blog_post")), "blogPost");
    assert_eq!(render_template("{{ w | kebabcase }}", &with("BlogPost")), "blog-post");
    assert_eq!(render_template("{{ w | capitalize }}", &with("hELLO")), "Hello");
    assert_eq!(render_template("{{ w | uppercase }}-{{ w | lowercase }}", &with("Ab")), "AB-ab");
}

#[test]
fn rendering_takes_the_last_value_of_a_variable() {
    let vars = vec![("w".to_string(), "a".to_string()), ("w".to_string(), "b".to_string())];
    assert_eq!(render_template("{{ w }}", &vars), "b");
    assert_eq!(render_template("plain text", &[]), "plain text");
}

#[test]
fn each_filter_kind_applies_its_filter() {
    assert_eq!(apply_filter(FilterKind::Camelcase, "a_b"), "aB");
    assert_eq!(apply_filter(FilterKind::Snakecase, "aB"), "a_b");
    assert_eq!(apply_filter(FilterKind::Kebabcase, "aB"), "a-b");
    assert_eq!(apply_filter(FilterKind::Pascalcase, "a_b"), "AB");
    assert_eq!(apply_filter(FilterKind::Pluralize, "bus"), "buses");
    assert_eq!(apply_filter(FilterKind::Singularize, "days"), "day");
    assert_eq!(apply_filter(FilterKind::Uppercase, "ab"), "AB");
    assert_eq!(apply_filter(FilterKind::Lowercase, "AB"), "ab");
    assert_eq!(apply_filter(FilterKind::Capitalize, "aB"), "Ab");
}

#[test]
fn template_choice_order() {
    assert_eq!(choose_template("mine", "rust-module", "x"), TemplateChoice::Custom("mine".to_string()));
    match choose_template("", "rust-module", "x") {
        TemplateChoice::Builtin(t) => assert!(t.contains("greet")),
        _ => panic!("expected builtin"),
    }
    assert_eq!(choose_template("", "", "t.tpl"), TemplateChoice::SourceFile("t.tpl".to_string()));
    assert_eq!(choose_template("", "", ""), TemplateChoice::Nothing);
}

fn schema(name: &str) -> TemplateSchema {
    TemplateSchema {
        name: name.to_string(),
        description: "d".to_string(),
        version: "2.0.0".to_string(),
        author: "me".to_string(),
        tags: vec!["t".to_string()],
        output: vec![TemplateOutput { from: "main.tpl".to_string(), to: "out.rs".to_string(), condition: None }],
        props: vec![(
            "name".to_string(),
            PropDefinition {
                prop_type: "string".to_string(),
                required: false,
                description: "p".to_string(),
                example: None,
                default: Some("x".to_string()),
                values: None,
            },
        )],
    }
}

#[test]
fn discovery_lists_builtin_then_project_then_user() {
    let all = list_templates(vec![schema("proj")], vec![schema("mine")]);
    assert_eq!(all.len(), 7);
    let names: Vec<&str> = all.iter().map(|t| t.name.as_str()).collect();
    assert_eq!(
        names,
        vec!["react-route", "react-component", "api-handler", "rust-module", "test-file", "proj", "mine"]
    );
    assert_eq!(all[0].props.len(), 2);
    assert_eq!(all[0].outputs[0].to, "{{dir}}/{{kebab_case name}}.tsx");
    assert_eq!(all[3].outputs[0].to, "{{snake_case name}}.rs");
    assert_eq!(all[5].source, TemplateSource::Project);
    assert_eq!(all[6].source, TemplateSource::User);
    assert_eq!(all[6].props[0].1.default.as_deref(), Some("x"));
    assert_eq!(TemplateDiscovery::discover_builtin().len(), 5);
    let files = custom_template_files("proj", &all);
    assert_eq!(files, vec![("proj".to_string(), "main.tpl".to_string())]);
    assert!(custom_template_files("react-route", &all)[0].1 == "react-route");
}
