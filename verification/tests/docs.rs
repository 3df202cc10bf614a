use rok::docs::{content_type_for, crate_doc_of, read_crate_doc, render_crate_doc, render_index, resolve_docs_path, route_request, DocsRoute, DocsTarget, PackageMeta};

fn pkg(name: &str, version: Option<&str>, desc: Option<&str>, keywords: &[&str]) -> PackageMeta {
    PackageMeta {
        name: name.to_string(),
        version: version.map(|s| s.to_string()),
        description: desc.map(|s| s.to_string()),
        keywords: keywords.iter().map(|s| s.to_string()).collect(),
    }
}

#[test]
fn module_doc_lines() {
    assert_eq!(crate_doc_of("//! First\n//!   Second\n//!\nfn main() {}\n//! late"), "First\nSecond\n");
    assert_eq!(crate_doc_of("fn main() {}"), "");
    assert_eq!(crate_doc_of("//!//! twice\r\n"), "twice");
    assert_eq!(read_crate_doc(&[None, Some("fn x() {}".to_string()), Some("//! here".to_string())]), "here");
    assert_eq!(read_crate_doc(&[None]), "");
}

#[test]
fn crate_page() {
    let p = pkg("rok-utils", Some("0.1.0"), Some("Helpers"), &["util", "fs"]);
    assert_eq!(
        render_crate_doc(&p, "Overview text"),
        "# rok-utils\n\n> Helpers\n\n**Version**: `0.1.0`\n\n**Keywords**: `util`, `fs`\n\n## Installation\n\n```bash\ncargo add rok-utils\n```\n\n## Overview\n\nOverview text\n"
    );
    let q = pkg("rok-test", None, None, &[]);
    assert_eq!(
        render_crate_doc(&q, ""),
        "# rok-test\n\n**Version**: `workspace`\n\n## Installation\n\n```bash\ncargo add rok-test\n```\n\n"
    );
}

#[test]
fn index_page() {
    let members = vec![Some(pkg("a", Some("1.0"), Some("A crate"), &[])), None, Some(pkg("b", None, None, &[]))];
    let head = "# rok Ecosystem — Crate Index\n\n| Crate | Description | Version |\n|-------|-------------|--------|\n";
    assert_eq!(
        render_index(&members, &None),
        format!("{head}| [`a`](a.md) | A crate | `1.0` |\n| [`b`](b.md) |  | `workspace` |\n")
    );
    assert_eq!(
        render_index(&members, &Some("2.0".to_string())),
        format!("{head}| [`a`](a.md) | A crate | `2.0` |\n| [`b`](b.md) |  | `2.0` |\n")
    );
}

#[test]
fn docs_paths() {
    assert_eq!(resolve_docs_path("/"), DocsTarget::File("index.md".to_string()));
    assert_eq!(resolve_docs_path("//crates/a.md"), DocsTarget::File("crates/a.md".to_string()));
    assert_eq!(resolve_docs_path("/../etc/passwd"), DocsTarget::Forbidden);
}

#[test]
fn request_routes() {
    assert_eq!(route_request("GET / HTTP/1.1"), DocsRoute::Index);
    assert_eq!(route_request("GET /index.html HTTP/1.1"), DocsRoute::Index);
    assert_eq!(route_request("GET /api/x HTTP/1.1"), DocsRoute::Api);
    assert_eq!(route_request("GET /style.css HTTP/1.1"), DocsRoute::Path("style.css".to_string()));
    assert_eq!(route_request("POST / HTTP/1.1"), DocsRoute::NotFound);
    assert_eq!(content_type_for(Some("css")), "text/css");
    assert_eq!(content_type_for(Some("md")), "text/html");
    assert_eq!(content_type_for(Some("png")), "text/plain");
    assert_eq!(content_type_for(None), "text/plain");
}
