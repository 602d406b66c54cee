use unison_editor::ucm_api::{
    signature_text, Branch, CurrentContext, DefinitionSummary, NamespaceChildKind, NamespaceItem,
    Project, SearchResult, UCMApiClient,
};

#[test]
fn endpoints_hang_off_the_base_url() {
    let api = UCMApiClient::new("127.0.0.1", 5858);
    assert_eq!(api.base_url(), "http://127.0.0.1:5858/codebase/api");
    assert_eq!(api.get_projects(), "http://127.0.0.1:5858/codebase/api/projects");
    assert_eq!(api.check_connection(), "http://127.0.0.1:5858/codebase/api/projects");
    assert_eq!(api.get_branches("@me/p"), "http://127.0.0.1:5858/codebase/api/projects/@me/p/branches");
    assert_eq!(api.get_current_context(), "http://127.0.0.1:5858/codebase/api/ucm/current");
    assert_eq!(api.get_dependencies("p", "b"), "http://127.0.0.1:5858/codebase/api/projects/p/branches/b/getDefinitionDependencies");
    assert_eq!(api.get_dependents("p", "b"), "http://127.0.0.1:5858/codebase/api/projects/p/branches/b/getDefinitionDependents");
    assert_eq!(api.find_definitions("p", "b", 25), ("http://127.0.0.1:5858/codebase/api/projects/p/branches/b/find".to_string(), "25".to_string()));
    assert_eq!(UCMApiClient::new("h", 0).base_url(), "http://h:0/codebase/api");
}

#[test]
fn root_namespace_is_not_named_in_a_listing() {
    let api = UCMApiClient::new("h", 1);
    let url = "http://h:1/codebase/api/projects/p/branches/b/list".to_string();
    assert_eq!(api.list_namespace("p", "b", ""), (url.clone(), None));
    assert_eq!(api.list_namespace("p", "b", "."), (url.clone(), None));
    assert_eq!(api.list_namespace("p", "b", "lib.base"), (url.clone(), Some("lib.base")));
    assert_eq!(api.list_namespace("p", "b", ".."), (url, Some("..")));
}

#[test]
fn definition_query_says_whether_to_shorten_names() {
    let api = UCMApiClient::new("h", 1);
    assert_eq!(api.get_definition("p", "b", true).1, "true");
    assert_eq!(api.get_definition("p", "b", false), ("http://h:1/codebase/api/projects/p/branches/b/getDefinition".to_string(), "false"));
}

#[test]
fn answers_are_turned_into_what_the_editor_shows() {
    let p = Project::from_response("proj".to_string(), Some("main".to_string()));
    assert_eq!((p.name.as_str(), p.active_branch.as_deref()), ("proj", Some("main")));
    let b = Branch::from_response("main".to_string());
    assert_eq!((b.name.as_str(), b.project), ("main", None));
    for (kind, name) in [
        (NamespaceChildKind::Subnamespace, "namespace"),
        (NamespaceChildKind::TermObject, "term"),
        (NamespaceChildKind::TypeObject, "type"),
        (NamespaceChildKind::PatchObject, "patch"),
    ] {
        let item = NamespaceItem::from_child(kind, "n".to_string(), "#h".to_string());
        assert_eq!((item.name.as_str(), item.item_type.as_str(), item.hash.as_deref()), ("n", name, Some("#h")));
    }
    let t = SearchResult::term("a.b".to_string(), "#1".to_string());
    assert_eq!((t.name.as_str(), t.result_type.as_str(), t.hash.as_str()), ("a.b", "term", "#1"));
    let t = SearchResult::type_("A".to_string(), "#2".to_string());
    assert_eq!((t.name.as_str(), t.result_type.as_str(), t.hash.as_str()), ("A", "type", "#2"));
    let c = CurrentContext::from_response(Some("p".to_string()), None, ".".to_string());
    assert_eq!(c.project.map(|p| (p.name, p.active_branch)), Some(("p".to_string(), None)));
    assert!(c.branch.is_none());
    assert_eq!(c.path, ".");
}

#[test]
fn signature_is_the_pieces_in_one() {
    let pieces = vec![Some("Nat".to_string()), None, Some(" -> ".to_string()), Some("Nat".to_string())];
    assert_eq!(signature_text(&pieces), Some("Nat -> Nat".to_string()));
    assert_eq!(signature_text(&vec![]), None);
    assert_eq!(signature_text(&vec![None, Some(String::new())]), None);
    let s = DefinitionSummary::term("#h".to_string(), "f".to_string(), Vec::new(), &pieces, None, Some("Plain".to_string()));
    assert_eq!(s.signature.as_deref(), Some("Nat -> Nat"));
    assert_eq!((s.def_type.as_str(), s.tag.as_deref(), s.source, s.documentation), ("term", Some("Plain"), None, None));
    let t = DefinitionSummary::type_("#t".to_string(), "T".to_string(), Vec::new());
    assert_eq!((t.name.as_str(), t.hash.as_str(), t.def_type.as_str(), t.signature, t.tag), ("T", "#t", "type", None, None));
}
