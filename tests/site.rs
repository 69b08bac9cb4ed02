use made_up::config::{Configuration, RawConfiguration};
use made_up::html::{Event, Marker};
use made_up::templates::{index_title, page_title, Element};
use made_up::walker::{
    has_heading, is_accepted_markdown_file, is_excluded, MarkdownFile, MarkdownFileList,
};
use made_up::{handle_config, index_template_path, ConvError, Convertor};

fn config_with_template(template: Option<&str>) -> Configuration {
    Configuration::from(RawConfiguration {
        stylesheet: Some(vec!["style.css".to_string()]),
        gen_index: Some(false),
        index_template: template.map(|t| t.to_string()),
        out_dir: Some("output".to_string()),
        copy_resources: Some(true),
        title: Some("My Site".to_string()),
    })
}

#[test]
fn test_get_file_name() {
    let file = MarkdownFile::from("resources/tester.md");
    assert_eq!(file.get_file_name(), "tester");
}

#[test]
fn file_name_of_nested_path() {
    let file = MarkdownFile::from("a/b/second-page.md");
    assert_eq!(file.get_file_name(), "second-page");
    assert_eq!(file.get_path(), "a/b/second-page.md");
}

#[test]
fn checked_file_name() {
    assert_eq!(MarkdownFile::from("a/b.c.md").file_name(), Some("b.c".to_string()));
    assert_eq!(MarkdownFile::from("a/.md").file_name(), Some(".md".to_string()));
    assert_eq!(MarkdownFile::from("").file_name(), None);
    assert_eq!(MarkdownFile::from("a/..").file_name(), None);
}

#[test]
fn test_fail_handle_config_no_index() {
    let config = config_with_template(Some("index_test.hbs"));
    let path = index_template_path("templates", &config).unwrap();
    let found = std::path::Path::new(&path).is_file();
    assert!(handle_config(&config, found).is_err());
}

#[test]
fn handle_config_passes_when_template_found() {
    let config = config_with_template(Some("index_test.hbs"));
    assert!(handle_config(&config, true).is_ok());
}

#[test]
fn handle_config_passes_without_template() {
    let config = config_with_template(None);
    assert!(handle_config(&config, false).is_ok());
    assert_eq!(index_template_path("site", &config), None);
}

#[test]
fn missing_template_message() {
    let config = config_with_template(Some("index_test.hbs"));
    match handle_config(&config, false) {
        Err(ConvError::Fail(m)) => {
            assert_eq!(m, "Did not find index template specified in configuration")
        }
        _ => panic!("expected a failure"),
    }
}

#[test]
fn template_path_is_below_root() {
    let config = config_with_template(Some("index_test.hbs"));
    assert_eq!(index_template_path("site", &config), Some("site/index_test.hbs".to_string()));
}

#[test]
fn markdown_files_are_recognised_by_extension() {
    assert!(is_accepted_markdown_file("site/page.md"));
    assert!(is_accepted_markdown_file("site/PAGE.MD"));
    assert!(is_accepted_markdown_file("x.Md"));
    assert!(!is_accepted_markdown_file("site/page.txt"));
    assert!(!is_accepted_markdown_file("site/md"));
    assert!(!is_accepted_markdown_file("site/page.mdx"));
}

#[test]
fn underscore_entries_are_excluded() {
    assert!(is_excluded("_ignored_top.md"));
    assert!(is_excluded("_drafts"));
    assert!(!is_excluded("page_one.md"));
    assert!(!is_excluded(""));
}

#[test]
fn file_list_is_sorted_by_name() {
    let list = MarkdownFileList::new(vec![
        MarkdownFile::from("site/second-page.md"),
        MarkdownFile::from("site/nested/all_test.md"),
        MarkdownFile::from("site/b.md"),
        MarkdownFile::from("other/all_test.md"),
    ]);
    let names: Vec<String> = list.get_files().iter().map(|f| f.get_file_name()).collect();
    assert_eq!(names, vec!["all_test", "all_test", "b", "second-page"]);
    let paths: Vec<String> = list.get_files().iter().map(|f| f.get_path().clone()).collect();
    assert_eq!(paths[0], "site/nested/all_test.md");
    assert_eq!(paths[1], "other/all_test.md");
}

#[test]
fn empty_file_list() {
    let list = MarkdownFileList::new(vec![]);
    assert!(list.get_files().is_empty());
}

#[test]
fn heading_is_first_text_of_level_one() {
    let file = MarkdownFile::from("site/page.md");
    let events = vec![
        Event::Start(Marker::Paragraph),
        Event::Text("intro".to_string()),
        Event::End(Marker::Paragraph),
        Event::Start(Marker::Heading(2)),
        Event::Text("Minor".to_string()),
        Event::End(Marker::Heading(2)),
        Event::Start(Marker::Heading(1)),
        Event::Text("Main Title".to_string()),
        Event::End(Marker::Heading(1)),
    ];
    assert!(has_heading(&events));
    assert_eq!(file.get_heading(&events), "Main Title");
}

#[test]
fn no_heading_without_level_one() {
    let events = vec![Event::Start(Marker::Heading(2)), Event::Text("Minor".to_string())];
    assert!(!has_heading(&events));
    assert!(!has_heading(&vec![Event::Start(Marker::Heading(1))]));
}

#[test]
fn titles() {
    let config = config_with_template(None);
    assert_eq!(page_title(&config, "All Test"), "My Site - All Test");
    assert_eq!(index_title(&config), "My Site - Home");
}

#[test]
fn index_element() {
    let file = MarkdownFile::from("site/second-page.md");
    let e = Element::new(&file, "Second Page".to_string());
    assert_eq!(e.header(), "Second Page");
    assert_eq!(e.file_path(), "second-page");
}

#[test]
fn convertor_refuses_missing_template() {
    let config = config_with_template(Some("index_test.hbs"));
    assert!(Convertor::new("site".to_string(), config, false).is_err());
}

#[test]
fn generate_site_places_pages() {
    let config = config_with_template(None);
    let convertor = match Convertor::new("site".to_string(), config, false) {
        Ok(c) => c,
        Err(_) => panic!("expected a convertor"),
    };
    assert_eq!(convertor.root_dir(), "site");
    let list = MarkdownFileList::new(vec![
        MarkdownFile::from("site/second-page.md"),
        MarkdownFile::from("site/all_test.md"),
    ]);
    let files = convertor.generate_site(
        &list,
        vec!["<p>all</p>".to_string(), "<p>second</p>".to_string()],
        "<p>index</p>".to_string(),
    );
    assert_eq!(files.len(), 3);
    assert_eq!(files[0].path, "output/all_test.html");
    assert_eq!(files[0].content, "<p>all</p>");
    assert_eq!(files[1].path, "output/second-page.html");
    assert_eq!(files[1].content, "<p>second</p>");
    assert_eq!(files[2].path, "output/index.html");
    assert_eq!(files[2].content, "<p>index</p>");
}
