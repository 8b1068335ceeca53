use polymath::links::find_all_links;
use polymath::meta::{extract_meta_tags, metas_from_bags, Meta};

#[test]
fn links_extraction() {
    let html = r#"
        <body>
        <p>La vie seule... c'est dur</p>
        <p>Mais avec notre ami imaginaire, c'est mieux : <a href="https://www.gravitalia.com/">cliquez ici</a></p>
        <h1>Voir nos actualités : http://news.gravitalia.com/</h1>
        <script>
        window.open("https://youtu.be/yG-1v-_1NVM", "_blank");
        </script>
        </body>
        "#;

    assert_eq!(
        vec![
            "https://www.gravitalia.com/",
            "http://news.gravitalia.com/",
            "https://youtu.be/yG-1v-_1NVM"
        ],
        find_all_links(html)
    );
}

#[test]
fn links_extraction_keeps_duplicates_in_order() {
    let text = "https://a.example.com/ then again https://a.example.com/ done";
    assert_eq!(
        vec!["https://a.example.com/", "https://a.example.com/"],
        find_all_links(text)
    );
}

#[test]
fn links_extraction_finds_nothing_without_urls() {
    assert_eq!(find_all_links(""), Vec::<String>::new());
    assert_eq!(find_all_links("no links here, only text."), Vec::<String>::new());
}

#[test]
fn tags_extraction() {
    let html = r#"
        <!DOCTYPE html><html lang="fr"><head>
        <meta charset="utf-8">
        <title>RIP mon coeur</title>
        <link rel="stylesheet" href="/julien.css">
        <meta property="og:type" content="website">
        <meta property="description" content="Mon coeur a été brisé par un M. C... ?!">
        </head>
        <body>
        <p>j'vais cabler</p>
        </body>
        "#;

    assert_eq!(
        vec![
            Meta {
                charset: Some("utf-8".to_owned()),
                ..Default::default()
            },
            Meta {
                property: Some("og:type".to_owned()),
                content: Some("website".to_owned()),
                ..Default::default()
            },
            Meta {
                property: Some("description".to_owned()),
                content: Some("Mon coeur a été brisé par un M. C... ?!".to_owned()),
                ..Default::default()
            }
        ],
        extract_meta_tags(html).unwrap()
    )
}

#[test]
fn metas_from_bags_reads_first_binding_of_each_attribute() {
    let bags = vec![vec![
        ("charset".to_string(), "utf-8".to_string()),
        ("name".to_string(), "viewport".to_string()),
    ]];
    let metas = metas_from_bags(&bags);
    assert_eq!(metas.len(), 1);
    assert_eq!(metas[0].charset, Some("utf-8".to_string()));
    assert_eq!(metas[0].name, Some("viewport".to_string()));
    assert_eq!(metas[0].property, None);
    assert_eq!(metas[0].content, None);
    assert_eq!(metas[0].http_equiv, None);
    assert_eq!(metas[0].scheme, None);
}

#[test]
fn malformed_html_still_yields_tags() {
    let html = "<head><meta charset=\"utf-8\"><p>unclosed";
    let metas = extract_meta_tags(html).unwrap();
    assert_eq!(metas.len(), 1);
    assert_eq!(metas[0].charset, Some("utf-8".to_string()));
}
