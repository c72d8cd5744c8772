use adblock::redirect_resources::RedirectResourceStorage;
use adblock::resources::{MimeType, Resource, ResourceType};
use base64::Engine;

fn encode(s: &str) -> String {
    base64::engine::general_purpose::STANDARD.encode(s)
}

#[test]
fn get_resource_by_name() {
    let mut storage = RedirectResourceStorage::default();
    storage.add_resource(Resource {
        name: "name.js".to_owned(),
        aliases: vec![],
        kind: ResourceType::Mime(MimeType::ApplicationJavascript),
        content: encode("resource data"),
    });

    let found = storage.get_resource("name.js").expect("resource stored under its name");
    assert_eq!(found.content_type, "application/javascript".to_owned());
    assert_eq!(found.data, encode("resource data"));
}

#[test]
fn get_resource_by_alias() {
    let mut storage = RedirectResourceStorage::default();
    storage.add_resource(Resource {
        name: "name.js".to_owned(),
        aliases: vec!["alias.js".to_owned()],
        kind: ResourceType::Mime(MimeType::ApplicationJavascript),
        content: encode("resource data"),
    });

    let found = storage.get_resource("alias.js").expect("resource stored under its alias");
    assert_eq!(found.content_type, "application/javascript".to_owned());
    assert_eq!(found.data, encode("resource data"));
}

#[test]
fn templates_are_not_redirect_targets() {
    let mut storage = RedirectResourceStorage::new();
    storage.add_resource(Resource {
        name: "t.js".to_owned(),
        aliases: vec![],
        kind: ResourceType::Template,
        content: encode("x"),
    });
    assert!(storage.get_resource("t.js").is_none());
}

#[test]
fn later_resource_wins() {
    let mut storage = RedirectResourceStorage::new();
    storage.add_resource(Resource {
        name: "a".to_owned(),
        aliases: vec![],
        kind: ResourceType::Mime(MimeType::TextPlain),
        content: "first".to_owned(),
    });
    storage.add_resource(Resource {
        name: "a".to_owned(),
        aliases: vec![],
        kind: ResourceType::Mime(MimeType::TextHtml),
        content: "second".to_owned(),
    });
    let found = storage.get_resource("a").unwrap();
    assert_eq!(found.content_type, "text/html");
    assert_eq!(found.data, "second");
}
