use news_extract::article::{
    article_from_paragraphs, extract_article, paragraph_text_of, MIN_CONTENT_CHARS, MIN_PARAGRAPHS,
};
use news_extract::html::Element;

fn paragraph(texts: &[&str]) -> Element {
    Element {
        children: texts.iter().map(|t| Some(t.to_string())).collect(),
        texts: texts.iter().map(|t| t.to_string()).collect(),
        link: None,
    }
}

#[test]
fn paragraph_text_joins_and_trims() {
    assert_eq!(paragraph_text_of(&paragraph(&[])), "");
    assert_eq!(paragraph_text_of(&paragraph(&["  Ein Satz.  "])), "Ein Satz.");
    assert_eq!(paragraph_text_of(&paragraph(&["Ein", "kurzer", "Satz."])), "Ein kurzer Satz.");
    assert_eq!(paragraph_text_of(&paragraph(&["\n Ein ", "kurzer", " Satz.\n"])), "Ein  kurzer  Satz.");
    assert_eq!(paragraph_text_of(&paragraph(&[" ", "\n"])), "");
}

#[test]
fn article_needs_three_paragraphs() {
    assert_eq!(MIN_PARAGRAPHS, 3);
    let long = "x".repeat(400);
    assert_eq!(article_from_paragraphs(&vec![], 10), None);
    assert_eq!(article_from_paragraphs(&vec![paragraph(&[&long])], 10), None);
    assert_eq!(article_from_paragraphs(&vec![paragraph(&[&long]), paragraph(&[&long])], 10), None);
    let three = vec![paragraph(&[&long]), paragraph(&[]), paragraph(&[])];
    assert_eq!(article_from_paragraphs(&three, 10), Some(format!("{long}   ")));
}

#[test]
fn article_needs_more_than_three_hundred_characters() {
    assert_eq!(MIN_CONTENT_CHARS, 300);
    let page = |n: usize| vec![paragraph(&[&"a".repeat(n)]), paragraph(&["b"]), paragraph(&["c"])];
    assert_eq!(article_from_paragraphs(&page(200), 10), None);
    assert_eq!(article_from_paragraphs(&page(294), 10), None);
    assert_eq!(format!("{} b c ", "a".repeat(295)).len(), 300);
    assert_eq!(article_from_paragraphs(&page(295), 10), None);
    assert_eq!(article_from_paragraphs(&page(296), 10), Some(format!("{} b c ", "a".repeat(296))));
}

#[test]
fn article_length_counts_characters() {
    let page = |n: usize| vec![paragraph(&[&"ä".repeat(n)]), paragraph(&["ö"]), paragraph(&["ü"])];
    assert_eq!(article_from_paragraphs(&page(295), 10), None);
    assert_eq!(article_from_paragraphs(&page(296), 10), Some(format!("{} ö ü ", "ä".repeat(296))));
}

#[test]
fn article_of_three_paragraphs_with_310_characters() {
    let (first, second, third) = ("a".repeat(102), "b".repeat(102), "c".repeat(103));
    let page = vec![paragraph(&[&first]), paragraph(&[&second]), paragraph(&[&third])];
    let content = article_from_paragraphs(&page, 10).unwrap();
    assert_eq!(content.chars().count(), 310);
    assert_eq!(content, format!("{first} {second} {third} "));
}

#[test]
fn article_reads_no_more_paragraphs_than_the_limit() {
    let mut page = Vec::new();
    for i in 0..12 {
        page.push(paragraph(&[&format!("{i:02}{}", "x".repeat(38))]));
    }
    let content = article_from_paragraphs(&page, 10).unwrap();
    assert_eq!(content.chars().count(), 410);
    assert!(content.starts_with("00xx"));
    assert!(content.contains(" 09xx"));
    assert!(!content.contains("10xx"));
    assert_eq!(article_from_paragraphs(&page, 12).unwrap().chars().count(), 492);
    assert_eq!(article_from_paragraphs(&page, 100).unwrap().chars().count(), 492);
    assert_eq!(article_from_paragraphs(&page, 7), None);
    assert_eq!(article_from_paragraphs(&page, 0), None);
}

#[test]
fn article_counts_paragraphs_before_the_limit() {
    let long = "x".repeat(400);
    let page = vec![paragraph(&[&long]), paragraph(&["b"]), paragraph(&["c"])];
    assert_eq!(article_from_paragraphs(&page, 1), Some(format!("{long} ")));
    assert_eq!(article_from_paragraphs(&page[..2].to_vec(), 1), None);
}

#[test]
fn article_of_a_page() {
    let filler = "Der Bundestag hat am Donnerstag über den Haushalt beraten. ".repeat(3);
    let html = format!(
        "<html><body><h1>Haushalt</h1>\
         <p>  {filler}</p>\
         <p>Die <b>Opposition</b> übte Kritik.</p>\
         <div><p>{filler}</p></div>\
         </body></html>"
    );
    let filler = filler.trim();
    assert_eq!(
        extract_article(&html, 10),
        Some(format!("{filler} Die  Opposition  übte Kritik. {filler} "))
    );
}

#[test]
fn article_of_a_page_with_few_paragraphs() {
    let long = "x".repeat(500);
    assert_eq!(extract_article(&format!("<p>{long}</p><p>{long}</p>"), 10), None);
    assert_eq!(extract_article("", 10), None);
    assert_eq!(extract_article(&format!("<div>{long}</div>"), 10), None);
}

#[test]
fn article_of_a_page_with_short_paragraphs() {
    assert_eq!(extract_article("<p>eins</p><p>zwei</p><p>drei</p><p>vier</p>", 10), None);
}
