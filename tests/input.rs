use prompt_input::error::InputError;
use prompt_input::input::{
    BlockKind, Composition, Context, Input, LastMessage, LoadPlan, Loaded, Model, Role, TextBlock,
};
use prompt_input::media::{is_image, mime_type, read_media_to_data_url, resolve_data_url};
use prompt_input::message::{patch_system_message, FunctionDeclaration, MessageContent, MessageContentPart, Message, MessageRole, ToolResult};
use prompt_input::reference::{classify_reference, is_url_str, Reference};
use prompt_input::text::{clean_text, join_strings, summary_of};

fn model(vision: bool) -> Model {
    Model { name: "m".to_string(), supports_vision: vision, no_stream: false, no_system_message: false }
}

fn role(name: &str) -> Role {
    Role { name: name.to_string(), model: model(true) }
}

fn ctx() -> Context {
    Context { stream: true, role: role("default"), has_session: true, has_agent: false, last_message: None }
}

fn plan(raw_paths: &[&str], with_last_reply: bool) -> LoadPlan {
    LoadPlan {
        references: vec![],
        raw_paths: raw_paths.iter().map(|s| s.to_string()).collect(),
        with_last_reply,
    }
}

fn input_with(raw_text: &str, raw_paths: &[&str], loaded: Loaded) -> Input {
    Input::from_loaded(&ctx(), raw_text, plan(raw_paths, false), loaded, None).unwrap()
}

fn image_loaded(items: &[(&str, &str)]) -> Loaded {
    let mut loaded = Loaded::new();
    for (reference, payload) in items {
        loaded.add_url(reference.to_string(), payload.to_string(), true);
    }
    loaded
}

#[test]
fn url_classifies_as_remote_even_with_markers() {
    let home = Some("/home/u".to_string());
    for s in ["https://example.com/a.png", "http://h/`cmd`", "ftp://host/%%"] {
        match classify_reference(s, &home) {
            Reference::RemoteUrl(u) => assert_eq!(u, s),
            other => panic!("{s}: {other:?}"),
        }
    }
}

#[test]
fn sentinel_command_and_local_paths() {
    let home = Some("/home/u".to_string());
    assert!(matches!(classify_reference("%%", &home), Reference::Sentinel));
    match classify_reference("`ls -la`", &home) {
        Reference::ShellCommand(c) => assert_eq!(c, "ls -la"),
        other => panic!("{other:?}"),
    }
    match classify_reference("``", &home) {
        Reference::LocalPath(p) => assert_eq!(p, "``"),
        other => panic!("{other:?}"),
    }
    match classify_reference("~/notes/a.txt", &home) {
        Reference::LocalPath(p) => assert_eq!(p, "/home/u/notes/a.txt"),
        other => panic!("{other:?}"),
    }
    match classify_reference("~/a.txt", &None) {
        Reference::LocalPath(p) => assert_eq!(p, "~/a.txt"),
        other => panic!("{other:?}"),
    }
    match classify_reference("docs/*.md", &home) {
        Reference::LocalPath(p) => assert_eq!(p, "docs/*.md"),
        other => panic!("{other:?}"),
    }
}

#[test]
fn url_shape() {
    assert!(is_url_str("https://example.com"));
    assert!(is_url_str("git+ssh://host/repo"));
    assert!(!is_url_str("C:/dir/file"));
    assert!(!is_url_str("http:///nohost"));
    assert!(!is_url_str("1http://x"));
    assert!(!is_url_str(""));
    assert!(!is_url_str("notes.txt"));
}

#[test]
fn load_plan_keeps_order_and_sentinel() {
    let paths = vec!["%%".to_string(), "`echo hi`".to_string(), "https://a.b/c".to_string()];
    let p = LoadPlan::new(&paths, &None);
    assert!(p.with_last_reply);
    assert_eq!(p.references.len(), 3);
    let with_local = LoadPlan::new(&vec!["/srv/data/a.txt".to_string(), "b.txt".to_string()], &None);
    assert!(!with_local.with_last_reply);
    assert_eq!(with_local.raw_paths.len(), 2);
    assert_eq!(with_local.raw_paths[0], "/srv/data/a.txt");
    assert!(with_local.raw_paths[1].starts_with('/') && with_local.raw_paths[1].ends_with("b.txt"));
    assert!(matches!(p.references[0], Reference::Sentinel));
    assert!(matches!(&p.references[1], Reference::ShellCommand(c) if c == "echo hi"));
    assert!(matches!(&p.references[2], Reference::RemoteUrl(u) if u == "https://a.b/c"));
    assert_eq!(p.raw_paths, paths);
}

#[test]
fn image_extensions() {
    assert!(is_image("a/b/photo.PNG"));
    assert!(is_image("x.jpeg"));
    assert!(is_image("x.Jpg"));
    assert!(is_image("x.webp"));
    assert!(is_image("x.gif"));
    assert!(!is_image("x.bmp"));
    assert!(!is_image(".png"));
    assert!(!is_image("dir.png/readme"));
    assert_eq!(mime_type("y.JPG"), Some("image/jpeg"));
    assert_eq!(mime_type("noext"), None);
}

#[test]
fn bmp_is_unexpected_media_type() {
    match read_media_to_data_url("pic.bmp", b"xx") {
        Err(e) => {
            assert!(matches!(e, InputError::UnexpectedMediaType { .. }));
            assert!(e.message().contains("Unexpected media type"));
        }
        Ok(u) => panic!("{u}"),
    }
    let mut loaded = Loaded::new();
    assert!(loaded.add_image_file("pic.bmp".to_string(), b"xx").is_err());
    assert!(loaded.medias.medias().is_empty());
}

#[test]
fn data_url_encodes_bytes() {
    assert_eq!(read_media_to_data_url("a.png", b"hi").unwrap(), "data:image/png;base64,aGk=");
    assert_eq!(read_media_to_data_url("a.GIF", b"abc").unwrap(), "data:image/gif;base64,YWJj");
}

#[test]
fn identical_payloads_one_table_entry() {
    let payload = "data:image/png;base64,aGk=";
    let mut loaded = Loaded::new();
    loaded.add_image_file("one.png".to_string(), b"hi").unwrap();
    loaded.add_image_file("two.png".to_string(), b"hi").unwrap();
    assert_eq!(*loaded.medias.medias(), vec![payload.to_string(), payload.to_string()]);
    assert_eq!(loaded.medias.data_urls().len(), 1);
    let (hash, reference) = &loaded.medias.data_urls()[0];
    assert_eq!(reference, "one.png");
    assert_eq!(hash.len(), 64);
    assert!(hash.chars().all(|c| c.is_ascii_hexdigit() && !c.is_ascii_uppercase()));
    assert_ne!(hash, payload);
    loaded.add_image_file("three.png".to_string(), b"other").unwrap();
    assert_eq!(loaded.medias.data_urls().len(), 2);
    assert_eq!(loaded.medias.medias().len(), 3);
}

#[test]
fn resolve_known_and_unknown_payloads() {
    let loaded = image_loaded(&[("cat.png", "data:image/png;base64,Y2F0")]);
    let table = loaded.medias.data_urls().clone();
    assert_eq!(resolve_data_url(&table, "data:image/png;base64,Y2F0".to_string()), "cat.png");
    assert_eq!(resolve_data_url(&table, "data:image/png;base64,ZG9n".to_string()), "data:image/png;base64,ZG9n");
    assert_eq!(resolve_data_url(&table, "https://x/y.png".to_string()), "https://x/y.png");
}

#[test]
fn summary_of_long_ascii() {
    let text = "a".repeat(100);
    let s = summary_of(&text);
    assert_eq!(s, format!("{}...", "a".repeat(77)));
    assert_eq!(s.chars().count(), 80);
}

#[test]
fn summary_of_short_text_is_unchanged() {
    let text = "b".repeat(80);
    assert_eq!(summary_of(&text), text);
    assert_eq!(summary_of("  hello\tworld\n"), "hello world");
}

#[test]
fn summary_counts_wide_characters_twice() {
    let text = "中".repeat(50);
    let s = summary_of(&text);
    assert_eq!(s, format!("{}...", "中".repeat(38)));
    let fits = "中".repeat(40);
    assert_eq!(summary_of(&fits), fits);
}

#[test]
fn summary_method_uses_input_text() {
    let input = Input::from_str(&ctx(), &"z".repeat(100), None);
    assert_eq!(input.summary(), format!("{}...", "z".repeat(77)));
}

#[test]
fn clean_text_trims_and_replaces_controls() {
    assert_eq!(clean_text("\u{3000} a\u{7}b \n"), "a b");
    assert_eq!(clean_text(""), "");
}

#[test]
fn raw_reconstruction() {
    let input = input_with("summarize", &["doc.txt"], Loaded::new());
    assert_eq!(input.raw(), ".file doc.txt -- summarize");
    let only_refs = input_with("", &["a.txt", "b.txt"], Loaded::new());
    assert_eq!(only_refs.raw(), ".file a.txt b.txt");
    assert!(!only_refs.raw().contains("--"));
    let only_text = Input::from_str(&ctx(), "just text", None);
    assert_eq!(only_text.raw(), "just text");
}

#[test]
fn join_with_separator() {
    let parts = vec!["a".to_string(), "b".to_string(), "c".to_string()];
    assert_eq!(join_strings(&parts, ", "), "a, b, c");
    assert_eq!(join_strings(&vec![], ", "), "");
}

#[test]
fn render_forms() {
    let plain = Input::from_str(&ctx(), "hello", None);
    assert_eq!(plain.render(), plain.text());
    let no_text = input_with("", &[], image_loaded(&[("cat.png", "data:image/png;base64,Y2F0")]));
    assert_eq!(no_text.render(), ".file cat.png");
    let both = input_with(
        "describe",
        &[],
        image_loaded(&[("cat.png", "data:image/png;base64,Y2F0"), ("dog.png", "data:image/png;base64,ZG9n")]),
    );
    assert_eq!(both.render(), ".file cat.png dog.png -- describe");
    assert_eq!(both.render().matches(" -- ").count(), 1);
}

#[test]
fn message_content_shapes() {
    let plain = Input::from_str(&ctx(), "hello", None);
    assert!(matches!(plain.message_content(), MessageContent::Text(t) if t == "hello"));
    let both = input_with(
        "describe",
        &[],
        image_loaded(&[("cat.png", "data:image/png;base64,Y2F0"), ("dog.png", "data:image/png;base64,ZG9n")]),
    );
    match both.message_content() {
        MessageContent::Array(list) => {
            assert_eq!(list.len(), 3);
            assert!(matches!(&list[0], MessageContentPart::Text { text } if text == "describe"));
            assert!(matches!(&list[1], MessageContentPart::ImageUrl { url } if url == "data:image/png;base64,Y2F0"));
            assert!(matches!(&list[2], MessageContentPart::ImageUrl { url } if url == "data:image/png;base64,ZG9n"));
        }
        other => panic!("{other:?}"),
    }
    let no_text = input_with("", &[], image_loaded(&[("cat.png", "data:image/png;base64,Y2F0")]));
    match no_text.message_content() {
        MessageContent::Array(list) => {
            assert_eq!(list.len(), 1);
            assert!(matches!(&list[0], MessageContentPart::ImageUrl { .. }));
        }
        other => panic!("{other:?}"),
    }
}

#[test]
fn sentinel_without_last_reply_fails() {
    let r = Input::from_loaded(&ctx(), "", plan(&["%%"], true), Loaded::new(), None);
    match r {
        Err(e) => {
            assert!(matches!(e, InputError::NoLastReply));
            assert_eq!(e.message(), "No last reply found");
        }
        Ok(_) => panic!("expected an error"),
    }
}

#[test]
fn sentinel_with_files_but_no_reply_succeeds() {
    let mut loaded = Loaded::new();
    loaded.add_file_text("a.txt".to_string(), "body".to_string());
    let input = Input::from_loaded(&ctx(), "", plan(&["%%", "/w/a.txt"], true), loaded, None).unwrap();
    assert_eq!(input.text(), "\n============ FILE: a.txt ============\nbody");
}

#[test]
fn assembly_order_and_banners() {
    let mut c = ctx();
    c.last_message = Some(LastMessage { input_last_reply: None, output: "prev".to_string() });
    let mut loaded = Loaded::new();
    loaded.add_command_output("echo x".to_string(), true, "x\n".to_string(), String::new()).unwrap();
    loaded.add_file_text("a.txt".to_string(), "body".to_string());
    loaded.add_url("https://h/p".to_string(), "page".to_string(), false);
    let input = Input::from_loaded(&c, "hi", plan(&["%%"], true), loaded, None).unwrap();
    assert_eq!(
        input.text(),
        "hi\n\nprev\n\n\n============ CMD: echo x ============\nx\n\n\n============ FILE: a.txt ============\nbody\n\n============ URL: https://h/p ============\npage"
    );
}

#[test]
fn last_reply_falls_back_to_previous_input() {
    let mut c = ctx();
    c.last_message = Some(LastMessage { input_last_reply: Some("older".to_string()), output: String::new() });
    let input = Input::from_loaded(&c, "", plan(&["%%"], true), Loaded::new(), None).unwrap();
    assert_eq!(input.text(), "\nolder\n");
}

#[test]
fn failed_command_reports_output() {
    let mut loaded = Loaded::new();
    let e = loaded
        .add_command_output("make build".to_string(), false, "out".to_string(), "boom".to_string())
        .unwrap_err();
    let m = e.message();
    assert!(m.contains("make build"));
    assert!(m.contains("boom"));
    let e2 = loaded
        .add_command_output("make".to_string(), false, "only stdout".to_string(), String::new())
        .unwrap_err();
    assert_eq!(e2.message(), "Failed to run `make`\nonly stdout");
    assert!(loaded.files.is_empty());
}

#[test]
fn vision_guard() {
    let input = input_with("look", &[], image_loaded(&[("cat.png", "data:image/png;base64,Y2F0")]));
    match input.prepare_completion_data(&model(false), false, vec![], Ok(()), None) {
        Err(e) => assert!(matches!(e, InputError::VisionUnsupported)),
        Ok(_) => panic!("expected an error"),
    }
    let ok = input.prepare_completion_data(&model(true), true, vec![], Ok(()), None).unwrap();
    assert!(ok.stream);
    let plain = Input::from_str(&ctx(), "hi", None);
    assert!(plain.prepare_completion_data(&model(false), false, vec![], Ok(()), None).is_ok());
}

#[test]
fn tool_results_merge_and_build() {
    let input = Input::from_str(&ctx(), "q", None);
    let r1 = ToolResult { id: "1".to_string(), name: "f".to_string(), output: "a".to_string() };
    let r2 = ToolResult { id: "2".to_string(), name: "g".to_string(), output: "b".to_string() };
    let input = input.merge_tool_results("first".to_string(), vec![r1]);
    let input = input.merge_tool_results("second".to_string(), vec![r2]);
    let tc = input.tool_calls().as_ref().unwrap();
    assert_eq!(tc.text, "second");
    assert_eq!(tc.tool_results.iter().map(|r| r.id.as_str()).collect::<Vec<_>>(), vec!["1", "2"]);
    let composed = vec![Message::new(MessageRole::User, MessageContent::Text("q".to_string()))];
    let messages = input.build_messages(composed);
    assert_eq!(messages.len(), 2);
    assert_eq!(messages[1].role, MessageRole::Assistant);
    assert!(matches!(&messages[1].content, MessageContent::ToolCalls(t) if t.tool_results.len() == 2));
}

#[test]
fn role_and_session_resolution() {
    let ambient = Input::from_str(&ctx(), "x", None);
    assert_eq!(ambient.role().name(), "default");
    assert!(!ambient.with_agent());
    assert_eq!(ambient.session(&Some(7)), Some(&7));
    let explicit = Input::from_str(&ctx(), "x", Some(role("coder")));
    assert_eq!(explicit.role().name(), "coder");
    assert_eq!(explicit.session(&Some(7)), None);
    let mut s = Some(1);
    assert!(explicit.session_mut(&mut s).is_none());
    if let Some(v) = ambient.session_mut(&mut s) {
        *v = 2;
    }
    assert_eq!(s, Some(2));
}

#[test]
fn regenerate_adopts_only_same_named_role() {
    let mut c = ctx();
    let mut input = Input::from_str(&c, "x", None);
    c.role.model.no_stream = true;
    input.set_regenerate(&c);
    assert!(input.regenerate());
    assert!(input.role().model().no_stream);
    let mut other = Input::from_str(&c, "x", Some(role("coder")));
    other.set_regenerate(&c);
    assert_eq!(other.role().name(), "coder");
    assert!(other.stream(&c));
}

#[test]
fn continue_output_appends() {
    let mut input = Input::from_str(&ctx(), "x", None);
    assert_eq!(input.continue_output(), None);
    input.set_continue_output("ab");
    input.set_continue_output("cd");
    assert_eq!(input.continue_output(), Some("abcd"));
}

#[test]
fn patch_and_clear() {
    let mut input = Input::from_str(&ctx(), "orig", None);
    assert!(!input.is_empty());
    input.apply_rag("docs".to_string(), "patched".to_string());
    assert_eq!(input.text(), "patched");
    assert_eq!(input.rag_name(), Some("docs"));
    assert_eq!(input.render(), "patched");
    input.clear_patch();
    assert_eq!(input.text(), "orig");
    assert_eq!(input.rag_name(), None);
    input.set_text(String::new());
    assert!(input.is_empty());
}

#[test]
fn text_block_labels() {
    assert_eq!(BlockKind::Cmd.label(), "CMD");
    let b = TextBlock { kind: BlockKind::Url, path: "u".to_string(), contents: "c".to_string() };
    assert_eq!(b.kind.label(), "URL");
    let input = input_with("", &[], image_loaded(&[("a.png", "data:image/png;base64,YQ==")]));
    assert_eq!(input.data_urls().len(), 1);
    assert_eq!(input.medias().len(), 1);
}

#[test]
fn token_guard_error_is_passed_on() {
    let input = Input::from_str(&ctx(), "hi", None);
    match input.prepare_completion_data(&model(true), false, vec![], Err("too many tokens".to_string()), None) {
        Err(InputError::TokenLimitExceeded { message }) => assert_eq!(message, "too many tokens"),
        other => panic!("{other:?}"),
    }
    let with_media = input_with("look", &[], image_loaded(&[("cat.png", "data:image/png;base64,Y2F0")]));
    let r = with_media.prepare_completion_data(&model(false), false, vec![], Err("too many".to_string()), None);
    assert!(matches!(r, Err(InputError::VisionUnsupported)));
}

#[test]
fn message_content_follows_patched_text() {
    let mut empty_stored = input_with("", &[], image_loaded(&[("cat.png", "data:image/png;base64,Y2F0")]));
    empty_stored.apply_rag("docs".to_string(), "from docs".to_string());
    match empty_stored.message_content() {
        MessageContent::Array(list) => {
            assert_eq!(list.len(), 2);
            assert!(matches!(&list[0], MessageContentPart::Text { text } if text == "from docs"));
        }
        other => panic!("{other:?}"),
    }
    let mut empty_patch = input_with("stored", &[], image_loaded(&[("cat.png", "data:image/png;base64,Y2F0")]));
    empty_patch.apply_rag("docs".to_string(), String::new());
    match empty_patch.message_content() {
        MessageContent::Array(list) => {
            assert_eq!(list.len(), 1);
            assert!(matches!(&list[0], MessageContentPart::ImageUrl { .. }));
        }
        other => panic!("{other:?}"),
    }
}

#[test]
fn summary_bounds_string_width_with_overlays() {
    let text = "<\u{338}".repeat(100);
    let s = summary_of(&text);
    assert!(s.ends_with("..."));
    assert!(unicode_width::UnicodeWidthStr::width_cjk(s.as_str()) <= 80);
}

#[test]
fn composition_choice() {
    let ambient = Input::from_str(&ctx(), "x", None);
    assert_eq!(ambient.composition(true), Composition::Session);
    assert_eq!(ambient.composition(false), Composition::RoleOnly);
    let explicit = Input::from_str(&ctx(), "x", Some(role("coder")));
    assert_eq!(explicit.composition(true), Composition::RoleOnly);
}

#[test]
fn embedding_query_uses_stored_text() {
    let mut input = Input::from_str(&ctx(), "question", None);
    assert_eq!(input.embedding_query(), Some("question".to_string()));
    input.apply_rag("docs".to_string(), "patched".to_string());
    assert_eq!(input.embedding_query(), Some("question".to_string()));
    let empty = Input::from_str(&ctx(), "", None);
    assert_eq!(empty.embedding_query(), None);
}

#[test]
fn every_table_key_is_a_payload_hash() {
    let loaded = image_loaded(&[
        ("a.png", "data:image/png;base64,YQ=="),
        ("b.png", "data:image/png;base64,Yg=="),
        ("c.png", "data:image/png;base64,YQ=="),
    ]);
    assert_eq!(loaded.medias.medias().len(), 3);
    let table = loaded.medias.data_urls();
    assert_eq!(table.len(), 2);
    assert_eq!(table[0].1, "a.png");
    assert_eq!(table[1].1, "b.png");
    assert_eq!(resolve_data_url(table, "data:image/png;base64,YQ==".to_string()), "a.png");
    assert_eq!(resolve_data_url(table, "data:image/png;base64,Yg==".to_string()), "b.png");
}

fn text_message(role: MessageRole, text: &str) -> Message {
    Message::new(role, MessageContent::Text(text.to_string()))
}

#[test]
fn system_message_folds_into_next() {
    let patched = patch_system_message(vec![
        text_message(MessageRole::System, "be brief"),
        text_message(MessageRole::User, "hello"),
        text_message(MessageRole::Assistant, "hi"),
    ]);
    assert_eq!(patched.len(), 2);
    assert_eq!(patched[0].role, MessageRole::User);
    assert!(matches!(&patched[0].content, MessageContent::Text(t) if t == "be brief\n\nhello"));
    assert!(matches!(&patched[1].content, MessageContent::Text(t) if t == "hi"));
    let alone = patch_system_message(vec![text_message(MessageRole::System, "s")]);
    assert!(alone.is_empty());
    let untouched = patch_system_message(vec![text_message(MessageRole::User, "u")]);
    assert_eq!(untouched.len(), 1);
    assert!(patch_system_message(vec![]).is_empty());
}

#[test]
fn request_carries_functions_and_patched_messages() {
    let input = Input::from_str(&ctx(), "hello", None);
    let mut m = model(true);
    m.no_system_message = true;
    let composed = vec![text_message(MessageRole::System, "sys"), text_message(MessageRole::User, "hello")];
    let functions = vec![FunctionDeclaration {
        name: "search".to_string(),
        description: "look things up".to_string(),
        parameters: "{}".to_string(),
    }];
    let data = input
        .prepare_completion_data(&m, true, composed.clone(), Ok(()), Some(functions))
        .unwrap();
    assert_eq!(data.messages.len(), 1);
    assert!(matches!(&data.messages[0].content, MessageContent::Text(t) if t == "sys\n\nhello"));
    assert_eq!(data.functions.as_ref().unwrap()[0].name, "search");
    assert_eq!(input.request_messages(&m, composed).len(), 1);
}

#[test]
fn vision_check_alone() {
    let input = input_with("look", &[], image_loaded(&[("cat.png", "data:image/png;base64,Y2F0")]));
    assert!(matches!(input.check_vision(&model(false)), Err(InputError::VisionUnsupported)));
    assert!(input.check_vision(&model(true)).is_ok());
    assert!(Input::from_str(&ctx(), "t", None).check_vision(&model(false)).is_ok());
}
