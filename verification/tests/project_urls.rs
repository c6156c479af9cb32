use briefing::formatting::try_format_url;
use briefing::project_urls::{mono_pages, templates, TemplateRegistry, UrlKind};

fn versioned(template: &str) -> UrlKind {
    UrlKind::VersionedTemplate(template.to_string())
}

fn mono(url: &str) -> UrlKind {
    UrlKind::MonoPage(url.to_string())
}

#[test]
fn builtin_registry_knows_templates() {
    let registry = TemplateRegistry::builtin();
    assert_eq!(
        registry.resolve_kind("vim"),
        versioned("https://github.com/vim/vim/releases/tag/v{version}")
    );
    assert_eq!(
        registry.resolve_kind("linux"),
        versioned("https://cdn.kernel.org/pub/linux/kernel/v5.x/ChangeLog-{version}")
    );
    assert_eq!(
        registry.resolve_kind("ripgrep"),
        versioned("https://github.com/BurntSushi/ripgrep/releases/tag/{version}")
    );
}

#[test]
fn builtin_registry_knows_single_pages() {
    let registry = TemplateRegistry::builtin();
    assert_eq!(registry.resolve_kind("virtualbox"), mono("https://www.virtualbox.org/wiki/Changelog"));
    assert_eq!(registry.resolve_kind("zoom"), mono("https://support.zoom.us/hc/en-us/sections/201214205-Release-Notes"));
}

#[test]
fn builtin_registry_knows_every_entry_of_its_tables() {
    let registry = TemplateRegistry::builtin();
    let templates = templates();
    let mono_pages = mono_pages();
    assert_eq!(templates.len(), 23);
    assert_eq!(mono_pages.len(), 8);
    for (name, template) in templates.iter() {
        assert_eq!(registry.resolve_kind(name), versioned(template), "{}", name);
    }
    for (name, url) in mono_pages.iter() {
        assert_eq!(registry.resolve_kind(name), mono(url), "{}", name);
    }
}

#[test]
fn no_name_stands_in_both_tables_or_twice_in_one() {
    let mut names: Vec<&str> = Vec::new();
    for (name, _) in templates().iter().chain(mono_pages().iter()) {
        assert!(!names.contains(name), "{}", name);
        names.push(name);
    }
}

#[test]
fn every_builtin_template_can_be_filled_in() {
    for (name, template) in templates().iter() {
        let url = try_format_url(template, "1.2.2", "1.2.3");
        assert!(url.is_some(), "{}", name);
        let url = url.unwrap();
        assert!(url.contains("1.2.3"), "{}", url);
        assert!(!url.contains('{') && !url.contains('}'), "{}", url);
    }
}

#[test]
fn no_single_page_has_a_placeholder() {
    for (name, url) in mono_pages().iter() {
        assert!(!url.contains('{') && !url.contains('}'), "{}", name);
    }
}

#[test]
fn names_are_matched_exactly() {
    let registry = TemplateRegistry::builtin();
    assert_eq!(registry.resolve_kind("Vim"), UrlKind::NotFound);
    assert_eq!(registry.resolve_kind("vi"), UrlKind::NotFound);
    assert_eq!(registry.resolve_kind("vim "), UrlKind::NotFound);
    assert_eq!(registry.resolve_kind("clight"), UrlKind::NotFound);
    assert_ne!(registry.resolve_kind("Clight"), UrlKind::NotFound);
    assert_eq!(registry.resolve_kind(""), UrlKind::NotFound);
    assert_eq!(registry.resolve_kind("my-local-tool"), UrlKind::NotFound);
}

#[test]
fn an_empty_registry_knows_nothing() {
    let registry = TemplateRegistry::new();
    assert_eq!(registry.resolve_kind("vim"), UrlKind::NotFound);
}

#[test]
fn a_later_entry_replaces_an_earlier_one() {
    let mut registry = TemplateRegistry::new();
    registry.add_template("a", "https://a/{version}");
    assert_eq!(registry.resolve_kind("a"), versioned("https://a/{version}"));
    registry.add_mono_page("a", "https://a/news");
    assert_eq!(registry.resolve_kind("a"), mono("https://a/news"));
    registry.add_template("a", "https://a/v{version}");
    assert_eq!(registry.resolve_kind("a"), versioned("https://a/v{version}"));
    assert_eq!(registry.resolve_kind("b"), UrlKind::NotFound);
}

#[test]
fn a_template_counts_before_a_single_page() {
    let templates = vec![("a", "https://a/{version}"), ("b", "https://b/1/{version}"), ("b", "https://b/2/{version}")];
    let mono_pages = vec![("a", "https://a/news"), ("c", "https://c/news")];
    let registry = TemplateRegistry::from_tables(&templates, &mono_pages);
    assert_eq!(registry.resolve_kind("a"), versioned("https://a/{version}"));
    assert_eq!(registry.resolve_kind("b"), versioned("https://b/2/{version}"));
    assert_eq!(registry.resolve_kind("c"), mono("https://c/news"));
    assert_eq!(registry.resolve_kind("d"), UrlKind::NotFound);
}

#[test]
fn a_clone_of_a_kind_is_the_same_kind() {
    assert_eq!(versioned("t").clone(), versioned("t"));
    assert_eq!(mono("u").clone(), mono("u"));
    assert_eq!(UrlKind::NotFound.clone(), UrlKind::NotFound);
}
