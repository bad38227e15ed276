//! Hints for what the user attached.

use acowork_runtime::attachments::{build_attachment_hint, AttachedItem};

#[test]
fn test_build_attachment_hint_no_items_returns_verbatim() {
    let s = build_attachment_hint("hello", None, Some("/work"));
    assert_eq!(s, "hello");
}

#[test]
fn test_build_attachment_hint_empty_vec_returns_verbatim() {
    let s = build_attachment_hint("hello", Some(&[]), Some("/work"));
    assert_eq!(s, "hello");
}

#[test]
fn test_build_attachment_hint_workspace_file_shape_unchanged() {
    let items = vec![AttachedItem::AttachedFile {
        abs_path: "/work/src/main.rs".to_string(),
        name: "main.rs".to_string(),
        client_id: None,
    }];
    let s = build_attachment_hint("review this", Some(&items), Some("/work"));
    assert!(s.contains("- file: `/work/src/main.rs`"));
    assert!(s.contains("[Attached workspace files & uploads"));
    assert!(s.starts_with("review this\n\n"));
}

#[test]
fn test_build_attachment_hint_selection_range() {
    let items = vec![AttachedItem::AttachedSelection {
        abs_path: "/work/lib.rs".to_string(),
        name: "lib.rs".to_string(),
        start_line: 10,
        end_line: 25,
        client_id: None,
    }];
    let s = build_attachment_hint("x", Some(&items), Some("/work"));
    assert!(s.contains("- file: `/work/lib.rs` (L10-L25)"), "got: {s}");

    let items = vec![AttachedItem::AttachedSelection {
        abs_path: "/work/lib.rs".to_string(),
        name: "lib.rs".to_string(),
        start_line: 7,
        end_line: 7,
        client_id: None,
    }];
    let s = build_attachment_hint("x", Some(&items), Some("/work"));
    assert!(s.contains("- file: `/work/lib.rs` (L7)"), "got: {s}");
}

#[test]
fn test_build_attachment_hint_file_upload_emits_path_metadata() {
    let items = vec![AttachedItem::FileUpload {
        document_id: "0123456789ab-3".to_string(),
        filename: "report.pdf".to_string(),
        format: "pdf".to_string(),
        size_bytes: 12345,
        client_id: None,
    }];
    let s = build_attachment_hint("summarise this contract", Some(&items), Some("/work"));
    assert!(s.starts_with("summarise this contract\n\n"));
    assert!(
        s.contains("- file: `report.pdf` (id=0123456789ab-3, format=pdf, path=/work/files/0123456789ab-3.pdf)"),
        "got: {s}"
    );
    assert!(s.contains(".pdf)"), "docx should land with real extension, got: {s}");
    assert!(!s.contains(".bin"), "must not regress to .bin fallback, got: {s}");
}

#[test]
fn test_build_attachment_hint_office_docs_emit_real_extensions() {
    for (fmt, ext) in [("pdf", "pdf"), ("docx", "docx"), ("pptx", "pptx"), ("xlsx", "xlsx")] {
        let items = vec![AttachedItem::FileUpload {
            document_id: "0123456789ab-3".to_string(),
            filename: format!("report.{fmt}"),
            format: fmt.to_string(),
            size_bytes: 100,
        client_id: None,
        }];
        let s = build_attachment_hint("x", Some(&items), Some("/work"));
        assert!(
            s.contains(&format!("path=/work/files/0123456789ab-3.{ext}")),
            "format={fmt} must yield .{ext} suffix in hint, got: {s}"
        );
    }
}

#[test]
fn test_build_attachment_hint_falls_back_to_placeholder_path() {
    let items = vec![AttachedItem::FileUpload {
        document_id: "abc123-0".to_string(),
        filename: "report.docx".to_string(),
        format: "docx".to_string(),
        size_bytes: 1,
        client_id: None,
    }];
    let s = build_attachment_hint("x", Some(&items), None);
    assert!(
        s.contains("path=<work_dir>/files/abc123-0.docx"),
        "without work_dir hint must use placeholder, got: {s}"
    );
}

#[test]
fn test_build_attachment_hint_mixed_items_in_order() {
    let items = vec![
        AttachedItem::AttachedFile {
            abs_path: "/work/src/lib.rs".to_string(),
            name: "lib.rs".to_string(),
        client_id: None,
        },
        AttachedItem::FileUpload {
            document_id: "0123456789ab-3".to_string(),
            filename: "report.docx".to_string(),
            format: "docx".to_string(),
            size_bytes: 1,
            client_id: None,
        },
        AttachedItem::ImageUpload {
            document_id: "img1".to_string(),
            filename: "screen.png".to_string(),
            format: "png".to_string(),
            size_bytes: 1,
            width: Some(800),
            height: Some(600),
        client_id: None,
        },
    ];
    let s = build_attachment_hint("look at these", Some(&items), Some("/work"));
    let ws_idx = s.find("/work/src/lib.rs").expect("workspace hint present");
    let doc_idx = s.find("report.docx").expect("file upload hint present");
    assert!(ws_idx < doc_idx, "workspace hint must come before upload hint, got: {s}");
    assert!(!s.contains("screen.png"), "image_upload must not appear in hint (multimodal path)");
}

#[test]
fn test_build_attachment_hint_folder_is_silent() {
    let items = vec![AttachedItem::AttachedFolder {
        abs_path: "/work/src".to_string(),
        name: "src".to_string(),
        client_id: None,
    }];
    let s = build_attachment_hint("x", Some(&items), Some("/work"));
    assert_eq!(s, "x");
}
