use cove_mail::html_view::{render_html, render_tokens, HtmlToken, RenderOp, TextColor};
use cove_mail::json::{JsonNumber, JsonValue};
use cove_mail::settings_secrets::{extract_protocol_secrets, strip_secrets_from_value};

fn open(tag: &str) -> HtmlToken {
    HtmlToken::Open(tag.to_string(), None, None)
}

fn close(tag: &str) -> HtmlToken {
    HtmlToken::Close(tag.to_string())
}

fn text(t: &str) -> HtmlToken {
    HtmlToken::Text(t.to_string())
}

fn label_text(op: &RenderOp) -> Option<String> {
    match op {
        RenderOp::Label(runs) => Some(runs.iter().map(|r| r.0.as_str()).collect()),
        _ => None,
    }
}

fn shape(ops: &[RenderOp]) -> Vec<String> {
    ops.iter()
        .map(|op| match op {
            RenderOp::Label(_) => format!("label:{}", label_text(op).unwrap()),
            RenderOp::Space => "space".to_string(),
            RenderOp::Separator => "rule".to_string(),
        })
        .collect()
}

#[test]
fn paragraphs_lists_and_links() {
    let tokens = vec![
        open("html"),
        open("p"),
        text("Hello  \n "),
        open("b"),
        text("world"),
        close("b"),
        close("p"),
        open("ol"),
        open("li"),
        text("one"),
        close("li"),
        open("li"),
        text("two"),
        close("li"),
        close("ol"),
        HtmlToken::Open("a".to_string(), Some("https://x.com".to_string()), None),
        text("  site "),
        close("a"),
        close("html"),
    ];
    let plan = render_tokens(&tokens);
    assert_eq!(
        shape(&plan.ops),
        vec!["label:Hello world", "space", "space", "space", "label:  1. one", "space", "label:  2. two", "space", "label: site "]
    );
    assert!(plan.rendered);
    assert_eq!(plan.links, vec![("site".to_string(), "https://x.com".to_string())]);
    match &plan.ops[0] {
        RenderOp::Label(runs) => {
            assert!(!runs[0].1.bold);
            assert!(runs[1].1.bold);
        }
        _ => panic!("expected a label"),
    }
    match &plan.ops[8] {
        RenderOp::Label(runs) => {
            assert_eq!(runs[0].1.color, TextColor::Link);
            assert!(runs[0].1.underline);
        }
        _ => panic!("expected a label"),
    }
}

#[test]
fn scripts_are_skipped_whole() {
    let tokens = vec![open("script"), text("x"), open("b"), close("b"), close("script"), text("after"), close("b")];
    let plan = render_tokens(&tokens);
    assert_eq!(shape(&plan.ops), vec!["label:after"]);
}

#[test]
fn empty_documents_draw_nothing() {
    let plan = render_tokens(&vec![open("div"), close("div")]);
    assert!(!plan.rendered);
    assert_eq!(shape(&plan.ops), vec!["space"]);
    assert!(plan.links.is_empty());
    let spaces = render_tokens(&vec![open("div"), text("   "), close("div")]);
    assert!(spaces.rendered);
    assert_eq!(shape(&spaces.ops), vec!["label: ", "space"]);
}

#[test]
fn tables_images_and_rules() {
    let tokens = vec![
        open("table"),
        open("tr"),
        open("th"),
        text("Name"),
        close("th"),
        open("td"),
        text("Ann"),
        close("td"),
        close("tr"),
        open("tr"),
        open("td"),
        text("Bob"),
        close("td"),
        close("tr"),
        close("table"),
        open("hr"),
        close("hr"),
        HtmlToken::Open("img".to_string(), None, None),
        close("img"),
    ];
    let plan = render_tokens(&tokens);
    assert_eq!(
        shape(&plan.ops),
        vec!["label:Name  \u{2502}  Ann\nBob", "space", "space", "rule", "label:[image]"]
    );
    match &plan.ops[0] {
        RenderOp::Label(runs) => assert!(runs[0].1.bold),
        _ => panic!("expected a label"),
    }
    match &plan.ops[4] {
        RenderOp::Label(runs) => {
            assert!(runs[0].1.italics);
            assert_eq!(runs[0].1.color, TextColor::Gray);
        }
        _ => panic!("expected a label"),
    }
}

#[test]
fn preformatted_text_keeps_its_spaces() {
    let plan = render_tokens(&vec![open("pre"), text("a  b\n c"), close("pre"), open("h1"), text("T"), close("h1")]);
    assert_eq!(shape(&plan.ops), vec!["label:a  b\n c", "space", "space", "label:T", "space"]);
    match &plan.ops[0] {
        RenderOp::Label(runs) => {
            assert!(runs[0].1.monospace);
            assert!(!runs[0].1.code_background);
        }
        _ => panic!("expected a label"),
    }
    match &plan.ops[3] {
        RenderOp::Label(runs) => assert_eq!(runs[0].1.heading, 1),
        _ => panic!("expected a label"),
    }
}

#[test]
fn html_is_cleaned_and_parsed() {
    let plan = render_html("<p>Hi <script>alert(1)</script><em>there</em></p><a href=\"https://x.com/\">go</a>").expect("plan");
    let texts: Vec<String> = plan.ops.iter().filter_map(label_text).collect();
    assert_eq!(texts, vec!["Hi there".to_string(), "go".to_string()]);
    assert_eq!(plan.links, vec![("go".to_string(), "https://x.com/".to_string())]);
    let empty = render_html("<script>x</script>").expect("plan");
    assert!(!empty.rendered);
}

fn s(t: &str) -> JsonValue {
    JsonValue::String(t.to_string())
}

fn obj(entries: Vec<(&str, JsonValue)>) -> JsonValue {
    JsonValue::Object(entries.into_iter().map(|(k, v)| (k.to_string(), v)).collect())
}

fn keys(v: &JsonValue) -> Vec<String> {
    match v {
        JsonValue::Object(es) => es.iter().map(|(k, _)| k.clone()).collect(),
        _ => vec![],
    }
}

#[test]
fn secrets_are_stripped_at_any_depth() {
    let mut v = obj(vec![
        ("email", obj(vec![("imap_host", s("imap.x.com")), ("password", s("pw1")), ("access_token", JsonValue::Null)])),
        ("calendar", obj(vec![("access_token", s("tok")), ("endpoint", s("e"))])),
        ("list", JsonValue::Array(vec![obj(vec![("password", s("pw2"))])])),
        ("port", JsonValue::Number(JsonNumber::PosInt(993))),
    ]);
    let mut password = Some("old".to_string());
    let mut token = None;
    strip_secrets_from_value(&mut v, &mut password, &mut token);
    assert_eq!(password.as_deref(), Some("pw2"));
    assert_eq!(token.as_deref(), Some("tok"));
    assert_eq!(keys(&v), vec!["email", "calendar", "list", "port"]);
    match &v {
        JsonValue::Object(es) => {
            assert_eq!(keys(&es[0].1), vec!["imap_host"]);
            assert_eq!(keys(&es[1].1), vec!["endpoint"]);
            match &es[2].1 {
                JsonValue::Array(items) => assert!(keys(&items[0]).is_empty()),
                _ => panic!("expected an array"),
            }
        }
        _ => panic!("expected an object"),
    }
}

#[test]
fn outputs_keep_their_value_without_secrets() {
    let mut v = obj(vec![("password", JsonValue::Null)]);
    let mut password = Some("old".to_string());
    let mut token = None;
    strip_secrets_from_value(&mut v, &mut password, &mut token);
    assert_eq!(password.as_deref(), Some("old"));
    assert_eq!(token, None);
    assert!(keys(&v).is_empty());
}

#[test]
fn extracted_secrets_name_the_account() {
    let mut v = obj(vec![("email", obj(vec![("password", s("pw")), ("access_token", s("tok"))]))]);
    let entries = extract_protocol_secrets(0x0123_4567_89ab_cdef_0123_4567_89ab_cdef, &mut v);
    assert_eq!(entries.len(), 2);
    assert_eq!(entries[0].0.namespace, "account_password");
    assert_eq!(entries[0].0.id, "01234567-89ab-cdef-0123-456789abcdef");
    assert_eq!(entries[0].1, "pw");
    assert_eq!(entries[1].0.namespace, "oauth_access_token");
    assert_eq!(entries[1].1, "tok");
    let mut none = obj(vec![("endpoint", s("e"))]);
    assert!(extract_protocol_secrets(1, &mut none).is_empty());
}
