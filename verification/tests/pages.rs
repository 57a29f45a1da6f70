use spotify_importer::json::Json;
use spotify_importer::page::{
    extract_between, extract_client_id_from_text, extract_next_data_json, extract_script_urls,
    next_data_payload,
};

const ID: &str = "0123456789abcdefABCDEF0123456789";

#[test]
fn between_two_marks() {
    assert_eq!(extract_between("x<a>é<b>y<b>", "<a>", "<b>"), Some("é"));
    assert_eq!(extract_between("<b><a>", "<a>", "<b>"), None);
    assert_eq!(extract_between("none", "<a>", "<b>"), None);
    assert_eq!(extract_between("<a><b>", "<a>", "<b>"), Some(""));
}

#[test]
fn client_identifiers() {
    assert_eq!(
        extract_client_id_from_text(&format!("{{\"clientId\":\"{ID}\"}}")),
        Some(ID.to_string())
    );
    assert_eq!(
        extract_client_id_from_text(&format!("\"client_id\":\" {ID} \"")),
        Some(ID.to_string())
    );
    assert_eq!(
        extract_client_id_from_text(&format!("clientId:\\\"{ID}\"")),
        Some(ID.to_string())
    );
    assert_eq!(
        extract_client_id_from_text(&format!("client_id:\\\"{ID}\"")),
        Some(ID.to_string())
    );
}

#[test]
fn what_is_no_client_identifier() {
    assert_eq!(extract_client_id_from_text("\"clientId\":\"short\""), None);
    assert_eq!(
        extract_client_id_from_text("\"clientId\":\"g123456789abcdefABCDEF0123456789\""),
        None
    );
    assert_eq!(extract_client_id_from_text(""), None);
    // The first place that each spelling stands at counts, and the next spelling is tried.
    assert_eq!(
        extract_client_id_from_text(&format!("\"clientId\":\"x\",\"client_id\":\"{ID}\"")),
        Some(ID.to_string())
    );
    assert_eq!(
        extract_client_id_from_text(&format!("\"clientId\":\"x\",\"clientId\":\"{ID}\"")),
        None
    );
}

#[test]
fn scripts_of_a_page() {
    let html = "<script src=\"//cdn/a.js\"></script><img src=\"/p.png\">\
                <script src=\"/b.js?v=1\"></script><script src=\"https://c/d.json\"></script>\
                <script src=\"e.js";
    assert_eq!(
        extract_script_urls(html),
        vec![
            "https://cdn/a.js".to_string(),
            "https://open.spotify.com/b.js?v=1".to_string(),
            "https://c/d.json".to_string(),
        ]
    );
    assert_eq!(extract_script_urls("nothing"), Vec::<String>::new());
}

#[test]
fn every_script_address_names_a_script() {
    for url in extract_script_urls("src=\"x.js\" src=\"y\" src=\"/z.js\"") {
        assert!(url.contains(".js"));
    }
}

#[test]
fn embedded_data() {
    let html = "<script>x</script><script id=\"__NEXT_DATA__\" type=\"application/json\">\n \
                {\"a\": [1, \"é\"]} </script>";
    assert_eq!(next_data_payload(html), Some("{\"a\": [1, \"é\"]}"));
    assert_eq!(
        extract_next_data_json(html),
        Some(Json::Object(vec![(
            "a".to_string(),
            Json::Array(vec![Json::Number(Some(1)), Json::Text("é".to_string())])
        )]))
    );
}

#[test]
fn pages_without_embedded_data() {
    assert_eq!(next_data_payload("<script>{}</script>"), None);
    assert_eq!(next_data_payload("__NEXT_DATA__ <script>{}</script>"), None);
    assert_eq!(next_data_payload("<script __NEXT_DATA__"), None);
    assert_eq!(next_data_payload("<script id=\"__NEXT_DATA__\">{}"), None);
    assert_eq!(extract_next_data_json("<script id=\"__NEXT_DATA__\">{</script>"), None);
}
