use demonlist::documentation::{Documentation, DocumentationState};
use demonlist::error::ListError;

fn state() -> DocumentationState {
    DocumentationState {
        documentation_toc: "<ul>api</ul>".to_string(),
        documentation_topics: vec![
            ("index".to_string(), "<h1>API</h1>".to_string()),
            ("records".to_string(), "<h1>Records</h1>".to_string()),
        ],
        guidelines_toc: "<ul>rules</ul>".to_string(),
        guidelines_topics: vec![("index".to_string(), "<h1>Rules</h1>".to_string())],
    }
}

#[test]
fn api_documentation_finds_topic() {
    let s = state();
    let page = "records".to_string();
    let doc = Documentation::api_documentation(&s, &page).ok().unwrap();
    assert_eq!(doc.content, "<h1>Records</h1>");
    assert_eq!(doc.toc, "<ul>api</ul>");
    assert_eq!(doc.page, "records");
    assert_eq!(doc.title, "API Documentation");
    assert_eq!(
        doc.description,
        "The PlusGDPS Demonlist API, which allows you to programmatically interface with the Demonlist"
    );
}

#[test]
fn api_documentation_unknown_topic() {
    let s = state();
    let page = "nothing".to_string();
    assert_eq!(Documentation::api_documentation(&s, &page).err(), Some(ListError::NotFound));
}

#[test]
fn guidelines_finds_topic() {
    let s = state();
    let page = "index".to_string();
    let doc = Documentation::guidelines(&s, &page).ok().unwrap();
    assert_eq!(doc.content, "<h1>Rules</h1>");
    assert_eq!(doc.toc, "<ul>rules</ul>");
    assert_eq!(doc.title, "Guildlines");
    let missing = "records".to_string();
    assert_eq!(Documentation::guidelines(&s, &missing).err(), Some(ListError::NotFound));
}

#[test]
fn title_joins_section_and_page() {
    let s = state();
    let page = "records".to_string();
    let doc = Documentation::api_documentation(&s, &page).ok().unwrap();
    assert_eq!(doc.title(), "API Documentation - records");
}

#[test]
fn first_topic_with_a_name_wins() {
    let mut s = state();
    s.documentation_topics.push(("records".to_string(), "<h1>Later</h1>".to_string()));
    let page = "records".to_string();
    let doc = Documentation::api_documentation(&s, &page).ok().unwrap();
    assert_eq!(doc.content, "<h1>Records</h1>");
}
