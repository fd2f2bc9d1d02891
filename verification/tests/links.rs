use news_extract::html::Element;
use news_extract::links::{
    candidate_from, extract_links, first_text_of, links_from_elements, resolve_url,
    title_is_acceptable, Candidate, MIN_TITLE_CHARS,
};

fn anchor(text: &str, href: &str) -> Element {
    Element {
        children: vec![Some(text.to_string())],
        texts: vec![text.to_string()],
        link: Some(href.to_string()),
    }
}

fn candidate(title: &str, href: &str, url: &str) -> Candidate {
    Candidate { title: title.to_string(), href: href.to_string(), url: url.to_string() }
}

#[test]
fn title_needs_fifteen_characters() {
    assert_eq!(MIN_TITLE_CHARS, 15);
    assert!(!title_is_acceptable(""));
    assert!(!title_is_acceptable("abcdefghijklmn"));
    assert!(title_is_acceptable("abcdefghijklmno"));
    assert!(title_is_acceptable("abcdefghijklmnop"));
}

#[test]
fn title_length_counts_characters() {
    assert!(!title_is_acceptable("ÄÖÜäöüßÄÖÜäöüß"));
    assert!(title_is_acceptable("ÄÖÜäöüßÄÖÜäöüßé"));
}

#[test]
fn title_of_the_navigation_is_rejected() {
    assert!(!title_is_acceptable("Zur Hauptnavigation springen"));
    assert!(!title_is_acceptable("Direkt zum Inhalt springen"));
    assert!(!title_is_acceptable("Die Subnavigation der Seite"));
    assert!(!title_is_acceptable(
        "Ein sehr langer Titel, der am Ende doch nur zur navigation gehört"
    ));
}

#[test]
fn title_filter_is_case_sensitive() {
    assert!(title_is_acceptable("Navigation und Springen im Sport"));
}

#[test]
fn absolute_link_stands_as_it_is() {
    assert_eq!(resolve_url("https://www.dw.com/de/themen/s-9077", "http://x.y/z"), "http://x.y/z");
    assert_eq!(resolve_url("https://www.tagesschau.de/", "https://a.b/c?d=e"), "https://a.b/c?d=e");
    assert_eq!(resolve_url("https://www.tagesschau.de/", "http"), "http");
    assert_eq!(resolve_url("", "httpfoo"), "httpfoo");
}

#[test]
fn relative_link_is_appended_to_the_source() {
    assert_eq!(
        resolve_url("https://www.tagesschau.de/", "/inland/regierung-101.html"),
        "https://www.tagesschau.de//inland/regierung-101.html"
    );
    assert_eq!(
        resolve_url("https://www.dw.com/de/themen/s-9077", "/de/politik/a-1"),
        "https://www.dw.com/de/themen/s-9077/de/politik/a-1"
    );
    assert_eq!(resolve_url("https://a.b", "c"), "https://a.bc");
    assert_eq!(resolve_url("https://a.b", ""), "https://a.b");
    assert_eq!(resolve_url("https://a.b/", "HTTP://c"), "https://a.b/HTTP://c");
    assert_eq!(resolve_url("https://a.b/", " http://c"), "https://a.b/ http://c");
}

#[test]
fn first_text_is_the_first_text_child() {
    assert_eq!(first_text_of(&vec![]), None);
    assert_eq!(first_text_of(&vec![None, None]), None);
    let children = vec![None, Some("eins".to_string()), None, Some("zwei".to_string())];
    assert_eq!(first_text_of(&children), Some(&"eins".to_string()));
    assert_eq!(first_text_of(&vec![Some(String::new()), Some("x".to_string())]), Some(&String::new()));
}

#[test]
fn candidate_has_trimmed_title_and_resolved_address() {
    let found = candidate_from(
        &anchor("\n   Bundestag beschließt Haushalt  \n", "/inland/haushalt-100.html"),
        "https://www.tagesschau.de/",
    );
    assert_eq!(
        found,
        Some(candidate(
            "Bundestag beschließt Haushalt",
            "/inland/haushalt-100.html",
            "https://www.tagesschau.de//inland/haushalt-100.html",
        ))
    );
}

#[test]
fn candidate_is_judged_after_trimming() {
    let padded = anchor("      kurzer Titel      ", "/a");
    assert_eq!(candidate_from(&padded, "https://s/"), None);
}

#[test]
fn candidate_needs_text_and_link() {
    let no_text = Element { children: vec![None], texts: vec![], link: Some("/a".to_string()) };
    assert_eq!(candidate_from(&no_text, "https://s/"), None);
    let no_link = Element {
        children: vec![Some("Ein Titel, der lang genug ist".to_string())],
        texts: vec![],
        link: None,
    };
    assert_eq!(candidate_from(&no_link, "https://s/"), None);
}

#[test]
fn candidate_reads_direct_text_only() {
    let nested = Element {
        children: vec![None],
        texts: vec!["Ein Titel, der lang genug ist".to_string()],
        link: Some("/a".to_string()),
    };
    assert_eq!(candidate_from(&nested, "https://s/"), None);
    let mixed = Element {
        children: vec![None, Some(" Ein Titel, der lang genug ist".to_string())],
        texts: vec!["Neu".to_string(), " Ein Titel, der lang genug ist".to_string()],
        link: Some("/a".to_string()),
    };
    assert_eq!(
        candidate_from(&mixed, "https://s/"),
        Some(candidate("Ein Titel, der lang genug ist", "/a", "https://s//a"))
    );
}

#[test]
fn candidate_is_judged_by_its_first_text() {
    let short_first = Element {
        children: vec![Some("Neu".to_string()), Some("Ein Titel, der lang genug ist".to_string())],
        texts: vec![],
        link: Some("/a".to_string()),
    };
    assert_eq!(candidate_from(&short_first, "https://s/"), None);
}

#[test]
fn skip_link_is_excluded_though_long_enough() {
    let skip = anchor("Zur Hauptnavigation springen", "#nav");
    assert!("Zur Hauptnavigation springen".chars().count() >= 15);
    assert_eq!(candidate_from(&skip, "https://www.tagesschau.de/"), None);
    assert_eq!(links_from_elements(&vec![skip], "https://www.tagesschau.de/", 20), vec![]);
}

#[test]
fn scan_limit_counts_anchors() {
    let mut anchors = Vec::new();
    for i in 0..25 {
        anchors.push(anchor(&format!("Meldung Nummer {i} des Tages"), &format!("/meldung-{i}")));
    }
    let links = links_from_elements(&anchors, "https://s", 20);
    assert_eq!(links.len(), 20);
    for (i, link) in links.iter().enumerate() {
        assert_eq!(link.title, format!("Meldung Nummer {i} des Tages"));
        assert_eq!(link.href, format!("/meldung-{i}"));
        assert_eq!(link.url, format!("https://s/meldung-{i}"));
    }
    assert_eq!(links_from_elements(&anchors, "https://s", 25).len(), 25);
    assert_eq!(links_from_elements(&anchors, "https://s", 80).len(), 25);
    assert_eq!(links_from_elements(&anchors, "https://s", 0).len(), 0);
}

#[test]
fn scan_limit_is_applied_before_the_filters() {
    let mut anchors = Vec::new();
    for _ in 0..20 {
        anchors.push(anchor("zu kurz", "/kurz"));
    }
    for i in 0..5 {
        anchors.push(anchor(&format!("Meldung Nummer {i} des Tages"), &format!("/meldung-{i}")));
    }
    assert_eq!(links_from_elements(&anchors, "https://s", 20), vec![]);
    assert_eq!(links_from_elements(&anchors, "https://s", 22).len(), 2);
}

#[test]
fn links_keep_order_and_duplicates() {
    let anchors = vec![
        anchor("Zweite Meldung des Tages", "/b"),
        anchor("kurz", "/k"),
        anchor("Erste Meldung des Tages", "/a"),
        anchor("Zweite Meldung des Tages", "/b"),
    ];
    assert_eq!(
        links_from_elements(&anchors, "https://s", 20),
        vec![
            candidate("Zweite Meldung des Tages", "/b", "https://s/b"),
            candidate("Erste Meldung des Tages", "/a", "https://s/a"),
            candidate("Zweite Meldung des Tages", "/b", "https://s/b"),
        ]
    );
}

#[test]
fn links_of_a_page() {
    let html = "<html><body>\
        <a href=\"#inhalt\">Zur Hauptnavigation springen</a>\
        <a href=\"/inland/wahl-101.html\">  Wahl in Hessen: Ergebnisse am Abend </a>\
        <a href=\"/kurz\">Kurz</a>\
        <a>Ein Anker ohne Ziel, aber mit Text</a>\
        <a href=\"https://www.dw.com/de/politik/a-1\">Politik: Neues aus Berlin heute</a>\
        <a href=\"/sport\"><span>Verschachtelter Titel im Span</span></a>\
        <a href=\"/wirtschaft\"><b>Neu</b>Wirtschaft wächst wieder leicht</a>\
        </body></html>";
    assert_eq!(
        extract_links(html, "https://www.tagesschau.de/", 20),
        vec![
            candidate(
                "Wahl in Hessen: Ergebnisse am Abend",
                "/inland/wahl-101.html",
                "https://www.tagesschau.de//inland/wahl-101.html",
            ),
            candidate(
                "Politik: Neues aus Berlin heute",
                "https://www.dw.com/de/politik/a-1",
                "https://www.dw.com/de/politik/a-1",
            ),
            candidate(
                "Wirtschaft wächst wieder leicht",
                "/wirtschaft",
                "https://www.tagesschau.de//wirtschaft",
            ),
        ]
    );
}

#[test]
fn links_of_a_page_under_a_scan_limit() {
    let mut html = String::from("<html><body>");
    for i in 0..25 {
        html.push_str(&format!("<p><a href=\"/meldung-{i}\">Meldung Nummer {i} des Tages</a></p>"));
    }
    html.push_str("</body></html>");
    let links = extract_links(&html, "https://s", 20);
    assert_eq!(links.len(), 20);
    assert_eq!(links[0], candidate("Meldung Nummer 0 des Tages", "/meldung-0", "https://s/meldung-0"));
    assert_eq!(
        links[19],
        candidate("Meldung Nummer 19 des Tages", "/meldung-19", "https://s/meldung-19")
    );
}

#[test]
fn links_of_a_page_without_anchors() {
    assert_eq!(extract_links("", "https://s", 20), vec![]);
    assert_eq!(extract_links("<p>Ein Absatz ohne jeden Anker im Text</p>", "https://s", 20), vec![]);
    assert_eq!(extract_links("kein HTML, nur Text ohne Auszeichnung", "https://s", 20), vec![]);
}
