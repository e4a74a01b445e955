use visual_vocab::json::{parse_json, JsonValue};
use visual_vocab::spider::google_image::{
    extract_images, image_search_url, parse_google_image, ExtractError,
};

fn chars(s: &str) -> Vec<char> {
    s.chars().collect()
}

fn string_of(v: &Vec<char>) -> String {
    v.iter().collect()
}

#[test]
fn parse_plain_object() {
    let v = parse_json(&chars("{\"a\": 1, \"b\": [true, null]}")).expect("should parse");
    match v {
        JsonValue::Obj(ms) => {
            assert_eq!(ms.len(), 2);
            assert_eq!(string_of(&ms[0].0), "a");
            match &ms[0].1 {
                JsonValue::Num(lexeme) => assert_eq!(string_of(lexeme), "1"),
                _ => panic!("expected a number"),
            }
            match &ms[1].1 {
                JsonValue::Arr(items) => {
                    assert_eq!(items.len(), 2);
                    assert!(matches!(items[0], JsonValue::Bool(true)));
                    assert!(matches!(items[1], JsonValue::Null));
                },
                _ => panic!("expected an array"),
            }
        },
        _ => panic!("expected an object"),
    }
}

#[test]
fn parse_lenient_forms() {
    // Unquoted keys, single-quoted strings and trailing commas all parse.
    let v = parse_json(&chars("{key: 'ds:1', data: [1, 2,], }")).expect("should parse");
    match v {
        JsonValue::Obj(ms) => {
            assert_eq!(ms.len(), 2);
            assert_eq!(string_of(&ms[0].0), "key");
            match &ms[0].1 {
                JsonValue::Str(t) => assert_eq!(string_of(t), "ds:1"),
                _ => panic!("expected a string"),
            }
            match &ms[1].1 {
                JsonValue::Arr(items) => assert_eq!(items.len(), 2),
                _ => panic!("expected an array"),
            }
        },
        _ => panic!("expected an object"),
    }
}

#[test]
fn parse_string_escapes() {
    let v = parse_json(&chars("\"a\\n\\t\\\"b\\\\c\"")).expect("should parse");
    match v {
        JsonValue::Str(t) => assert_eq!(string_of(&t), "a\n\t\"b\\c"),
        _ => panic!("expected a string"),
    }
}

#[test]
fn parse_rejects_trailing_junk() {
    assert!(parse_json(&chars("{} extra")).is_none());
    assert!(parse_json(&chars("")).is_none());
    assert!(parse_json(&chars("{key 1}")).is_none());
}

#[test]
fn parse_number_lexemes_kept_raw() {
    let v = parse_json(&chars("[-1.5e3, 42]")).expect("should parse");
    match v {
        JsonValue::Arr(items) => {
            match &items[0] {
                JsonValue::Num(lexeme) => assert_eq!(string_of(lexeme), "-1.5e3"),
                _ => panic!("expected a number"),
            }
            match &items[1] {
                JsonValue::Num(lexeme) => assert_eq!(string_of(lexeme), "42"),
                _ => panic!("expected a number"),
            }
        },
        _ => panic!("expected an array"),
    }
}

/// The raw-entry text a results page embeds for one image record: the
/// record sits under the first key of the object at [0][0]; field 1
/// carries the thumbnail triple at 2, the full-image triple at 3, and an
/// object whose first array value holds the page URL at 2 and title at 3.
fn entry_text() -> &'static str {
    "[[{\"k1\": [0, [0, {\"meta\": [1, 2, \"https://page.example\", \"a cat\"]}, \
     [\"https://thumb.example/t.jpg\", 90, 120], [\"https://full.example/f.jpg\", 900, 1200]]]}]]"
}

#[test]
fn parse_entry_record() {
    let v = parse_json(&chars(entry_text())).expect("entry should parse");
    let g = parse_google_image(&v).expect("entry should yield a record");
    assert_eq!(g.url, "https://page.example");
    assert_eq!(g.title, "a cat");
    assert_eq!(g.thumb.src, "https://thumb.example/t.jpg");
    assert_eq!(g.full.src, "https://full.example/f.jpg");
    assert_eq!(g.thumb.alt, "a cat");
    assert_eq!(g.full.alt, "a cat");
}

#[test]
fn parse_entry_drops_malformed() {
    // No nested array holds an http string, so the entry yields nothing.
    let v = parse_json(&chars("[[{\"k1\": [0, [0, {\"meta\": [1, 2]}]]}]]")).unwrap();
    assert!(parse_google_image(&v).is_none());
    // Not an object at [0][0].
    let v = parse_json(&chars("[[1]]")).unwrap();
    assert!(parse_google_image(&v).is_none());
}

#[test]
fn extract_images_from_scripts() {
    // data path: data[56][1][0][0][1][0] must be the entry list.
    let mut data_outer = String::from("{key: 'ds:1', data: [");
    for _ in 0..56 {
        data_outer.push_str("0, ");
    }
    // index 56: [_, [[[_, [<entries>]]]]]
    data_outer.push_str("[0, [[[0, [[");
    data_outer.push_str(entry_text());
    data_outer.push_str("]]]]]]]}");
    let script = format!("AF_initDataCallback({});", data_outer);
    let scripts = vec![script];
    let images = extract_images(&scripts).expect("should extract");
    assert_eq!(images.len(), 1);
    assert_eq!(images[0].url, "https://page.example");
}

#[test]
fn extract_images_reports_missing_payload() {
    // The only script carries the first dataset marker, so it is not the
    // payload block.
    let scripts = vec![String::from("AF_initDataCallback({key: 'ds:0'});")];
    assert!(matches!(extract_images(&scripts), Err(ExtractError::PayloadNotFound)));
    let none: Vec<String> = Vec::new();
    assert!(matches!(extract_images(&none), Err(ExtractError::PayloadNotFound)));
}

#[test]
fn extract_images_reports_malformed_payload() {
    // Markers present, but the literal does not parse.
    let scripts = vec![String::from("ds:1 AF_initDataCallback({oops);")];
    assert!(matches!(extract_images(&scripts), Err(ExtractError::PayloadMalformed)));
    // Parses, but the data path does not end in an array.
    let scripts = vec![String::from("ds:1 AF_initDataCallback({data: 3});")];
    assert!(matches!(extract_images(&scripts), Err(ExtractError::PayloadMalformed)));
}

#[test]
fn image_search_url_encodes_query() {
    assert_eq!(
        image_search_url("cat", 0),
        "https://www.google.com/search?tbm=isch&q=cat&start=0&ijn=0"
    );
    assert_eq!(
        image_search_url("two words", 250),
        "https://www.google.com/search?tbm=isch&q=two+words&start=250&ijn=2"
    );
}
