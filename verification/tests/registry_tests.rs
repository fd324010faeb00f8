use spectatui::registry::{
    integration_from_catalog, parse_catalog_urls, parse_installed_workflows, CatalogEntry,
};

fn entry_with_tags(tags: &[&str]) -> CatalogEntry {
    CatalogEntry {
        name: None,
        version: None,
        description: None,
        author: None,
        tags: tags.iter().map(|t| t.to_string()).collect(),
        templates: None,
    }
}

#[test]
fn parses_dialect_a_catalog_urls() {
    let out = "\
Active Extension Catalogs:

  default (priority 1)
     Built-in catalog of installable extensions
     URL: https://example.com/extensions/catalog.json
     Install: install allowed

  community (priority 2)
     Community-contributed extensions (discovery only)
     URL: https://example.com/extensions/catalog.community.json
     Install: discovery only

Using built-in default catalog stack.
";
    let srcs = parse_catalog_urls(out);
    assert_eq!(srcs.len(), 2);
    assert_eq!(srcs[0].name, "default");
    assert_eq!(srcs[0].url, "https://example.com/extensions/catalog.json");
    assert!(srcs[0].install_allowed);
    assert_eq!(srcs[1].name, "community");
    assert!(!srcs[1].install_allowed);
}

#[test]
fn parses_dialect_b_catalog_urls() {
    let out = "\
Workflow Catalog Sources:

  [0] default — install allowed
      https://example.com/workflows/catalog.json
      Official workflows

  [1] community — discovery only
      https://example.com/workflows/catalog.community.json
      Community-contributed workflows (discovery only)
";
    let srcs = parse_catalog_urls(out);
    assert_eq!(srcs.len(), 2);
    assert_eq!(srcs[0].name, "default");
    assert_eq!(srcs[0].url, "https://example.com/workflows/catalog.json");
    assert!(srcs[0].install_allowed);
    assert_eq!(srcs[1].name, "community");
    assert!(!srcs[1].install_allowed);
}

#[test]
fn integration_cli_required_from_tags() {
    let derive = |tags: &[&str]| integration_from_catalog("agent".to_string(), entry_with_tags(tags)).cli_required;
    assert!(derive(&["cli", "anthropic"]));
    assert!(!derive(&["ide", "github"]));
}

#[test]
fn parses_installed_workflows() {
    let out = "\
Installed Workflows:

  Full SDD Cycle (speckit) v1.0.0
    Runs specify then plan then tasks then implement with review gates
";
    let wfs = parse_installed_workflows(out);
    assert_eq!(wfs.len(), 1);
    assert_eq!(wfs[0].id, "speckit");
    assert_eq!(wfs[0].name.as_deref(), Some("Full SDD Cycle"));
    assert_eq!(wfs[0].version.as_deref(), Some("1.0.0"));
    assert!(wfs[0].installed);
    assert!(!wfs[0].description.is_empty());
}

#[test]
fn dialect_a_priority_is_kept() {
    let out = "  default (priority 7)\n     URL: https://example.com/a.json\n";
    let srcs = parse_catalog_urls(out);
    assert_eq!(srcs.len(), 1);
    assert_eq!(srcs[0].priority, Some(7));
}

#[test]
fn catalog_integration_uses_id_as_name_when_unnamed() {
    let it = integration_from_catalog("gemini".to_string(), entry_with_tags(&[]));
    assert_eq!(it.name, "gemini");
    assert_eq!(it.key, "gemini");
    assert!(!it.installed);
    assert_eq!(it.description, "");
}
