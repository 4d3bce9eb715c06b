//! Inline span resolution: text runs, style composition, hyperlink
//! target disambiguation.

use bookmodel::fb2::{
    bold_text, code_text, italic_text, strikethrough_text, subscript_text, superscript_text,
    Context, LinkNode, Style, StyleElement, StyleLinkElement,
};
use bookmodel::{
    BaselineShift, BinaryIndex, FootnoteKind, Href, KeySet, Span, Text, BOLD_WEIGHT,
};

fn empty_ctx(binaries: &BinaryIndex) -> Context<'_> {
    Context { binaries, notes: KeySet::new(), comments: KeySet::new() }
}

fn text_el(s: &str) -> StyleElement {
    StyleElement::Text(s.to_string())
}

#[test]
fn plain_text_run() {
    let bin = BinaryIndex::new();
    let ctx = empty_ctx(&bin);
    let spans = Span::from_fb2(&text_el("hello"), &ctx);
    assert_eq!(spans.len(), 1);
    match &spans[0] {
        Span::Text(t) => {
            assert_eq!(t.value, "hello");
            assert_eq!(t.font_weight, None);
            assert!(!t.font_style.italic);
            assert!(!t.font_style.code);
            assert!(!t.decorations.line_through);
            assert_eq!(t.baseline_shift, None);
        }
        other => panic!("expected a text span, got {:?}", other),
    }
}

#[test]
fn empty_text_run_vanishes() {
    let bin = BinaryIndex::new();
    let ctx = empty_ctx(&bin);
    let spans = Span::from_fb2(&text_el(""), &ctx);
    assert!(spans.is_empty());
}

#[test]
fn style_composition_order_independent() {
    // A text leaf nested under italic, bold and subscript wrappers, in
    // two different nesting orders, carries the same three facets.
    let bin = BinaryIndex::new();
    let ctx = empty_ctx(&bin);
    let nested_a = StyleElement::Subscript(Style {
        elements: vec![StyleElement::Strong(Style {
            elements: vec![StyleElement::Emphasis(Style { elements: vec![text_el("x")] })],
        })],
    });
    let nested_b = StyleElement::Emphasis(Style {
        elements: vec![StyleElement::Subscript(Style {
            elements: vec![StyleElement::Strong(Style { elements: vec![text_el("x")] })],
        })],
    });
    for nested in [nested_a, nested_b] {
        let spans = Span::from_fb2(&nested, &ctx);
        assert_eq!(spans.len(), 1);
        match &spans[0] {
            Span::Text(t) => {
                assert_eq!(t.value, "x");
                assert!(t.font_style.italic);
                assert_eq!(t.font_weight, Some(BOLD_WEIGHT));
                assert_eq!(t.baseline_shift, Some(BaselineShift::Subscript));
            }
            other => panic!("expected a text span, got {:?}", other),
        }
    }
}

#[test]
fn strikethrough_and_code_facets() {
    let bin = BinaryIndex::new();
    let ctx = empty_ctx(&bin);
    let nested = StyleElement::Strikethrough(Style {
        elements: vec![StyleElement::Code(Style { elements: vec![text_el("y")] })],
    });
    let spans = Span::from_fb2(&nested, &ctx);
    match &spans[0] {
        Span::Text(t) => {
            assert!(t.decorations.line_through);
            assert!(t.font_style.code);
            assert!(!t.font_style.italic);
        }
        other => panic!("expected a text span, got {:?}", other),
    }
}

#[test]
fn href_local_and_remote() {
    assert_eq!(Href::from_fb2(""), None);
    assert_eq!(Href::from_fb2("#note1"), Some(Href::Local("note1".to_string())));
    // The URL crate normalizes the serialization: a trailing slash
    // appears, so handing the input back unchanged would fail here.
    assert_eq!(
        Href::from_fb2("https://example.com"),
        Some(Href::Remote("https://example.com/".to_string()))
    );
    assert_eq!(Href::from_fb2("not a url"), None);
}

#[test]
fn link_image_wins_over_footnote() {
    // The same key is bound as a binary resource and as a footnote key:
    // the image branch must win, with the text as alt.
    let mut bin = BinaryIndex::new();
    bin.insert("k".to_string(), 7);
    let mut notes = KeySet::new();
    notes.insert("k".to_string());
    let ctx = Context { binaries: &bin, notes, comments: KeySet::new() };
    let link = StyleElement::Link(LinkNode {
        href: Some("#k".to_string()),
        kind: None,
        elements: vec![StyleLinkElement::Text("alt text".to_string())],
    });
    let spans = Span::from_fb2(&link, &ctx);
    assert_eq!(spans.len(), 1);
    match &spans[0] {
        Span::Image(i) => {
            assert_eq!(i.id, 7);
            assert_eq!(i.alt, Some("alt text".to_string()));
        }
        other => panic!("expected an image span, got {:?}", other),
    }
}

#[test]
fn link_to_note_becomes_footnote_reference() {
    let bin = BinaryIndex::new();
    let mut notes = KeySet::new();
    notes.insert("n1".to_string());
    let ctx = Context { binaries: &bin, notes, comments: KeySet::new() };
    let link = StyleElement::Link(LinkNode {
        href: Some("#n1".to_string()),
        kind: None,
        elements: vec![StyleLinkElement::Text("1".to_string())],
    });
    let spans = Span::from_fb2(&link, &ctx);
    assert_eq!(spans.len(), 1);
    match &spans[0] {
        Span::Footnote(f) => {
            assert_eq!(f.id, "n1");
            assert_eq!(f.kind, FootnoteKind::Note);
            assert_eq!(f.content.len(), 1);
            assert_eq!(f.content[0].value, "1");
        }
        other => panic!("expected a footnote span, got {:?}", other),
    }
}

#[test]
fn link_to_comment_becomes_comment_reference() {
    let bin = BinaryIndex::new();
    let mut comments = KeySet::new();
    comments.insert("c1".to_string());
    let ctx = Context { binaries: &bin, notes: KeySet::new(), comments };
    let link = StyleElement::Link(LinkNode {
        href: Some("#c1".to_string()),
        kind: None,
        elements: vec![StyleLinkElement::Text("see".to_string())],
    });
    let spans = Span::from_fb2(&link, &ctx);
    match &spans[0] {
        Span::Footnote(f) => assert_eq!(f.kind, FootnoteKind::Comment),
        other => panic!("expected a footnote span, got {:?}", other),
    }
}

#[test]
fn unresolved_link_passes_children_through() {
    let bin = BinaryIndex::new();
    let ctx = empty_ctx(&bin);
    let link = StyleElement::Link(LinkNode {
        href: None,
        kind: None,
        elements: vec![StyleLinkElement::Text("plain".to_string())],
    });
    let spans = Span::from_fb2(&link, &ctx);
    assert_eq!(spans.len(), 1);
    match &spans[0] {
        Span::Text(t) => assert_eq!(t.value, "plain"),
        other => panic!("expected a text span, got {:?}", other),
    }
}

#[test]
fn note_kind_link_degrades_to_text() {
    let bin = BinaryIndex::new();
    let ctx = empty_ctx(&bin);
    let link = StyleElement::Link(LinkNode {
        href: Some("#missing".to_string()),
        kind: Some("note".to_string()),
        elements: vec![StyleLinkElement::Text("aside".to_string())],
    });
    let spans = Span::from_fb2(&link, &ctx);
    assert_eq!(spans.len(), 1);
    match &spans[0] {
        Span::Text(t) => assert_eq!(t.value, "aside"),
        other => panic!("expected a text span, got {:?}", other),
    }
}

#[test]
fn generic_link_keeps_styled_text() {
    let bin = BinaryIndex::new();
    let ctx = empty_ctx(&bin);
    let link = StyleElement::Link(LinkNode {
        href: Some("#target".to_string()),
        kind: None,
        elements: vec![StyleLinkElement::Strong(vec![StyleLinkElement::Text(
            "go".to_string(),
        )])],
    });
    let spans = Span::from_fb2(&link, &ctx);
    assert_eq!(spans.len(), 1);
    match &spans[0] {
        Span::Link(l) => {
            assert_eq!(l.href, Href::Local("target".to_string()));
            assert_eq!(l.content.len(), 1);
            assert_eq!(l.content[0].value, "go");
            assert_eq!(l.content[0].font_weight, Some(BOLD_WEIGHT));
        }
        other => panic!("expected a link span, got {:?}", other),
    }
}

#[test]
fn styling_reaches_into_footnote_content_but_not_images() {
    let mut bin = BinaryIndex::new();
    bin.insert("pic".to_string(), 9);
    let mut notes = KeySet::new();
    notes.insert("n".to_string());
    let ctx = Context { binaries: &bin, notes, comments: KeySet::new() };
    // bold wrapper around a footnote link and an inline image
    let nested = StyleElement::Strong(Style {
        elements: vec![
            StyleElement::Link(LinkNode {
                href: Some("#n".to_string()),
                kind: None,
                elements: vec![StyleLinkElement::Text("ref".to_string())],
            }),
            StyleElement::Image(bookmodel::fb2::InlineImage {
                href: Some("pic".to_string()),
                alt: None,
            }),
        ],
    });
    let spans = Span::from_fb2(&nested, &ctx);
    assert_eq!(spans.len(), 2);
    match &spans[0] {
        Span::Footnote(f) => assert_eq!(f.content[0].font_weight, Some(BOLD_WEIGHT)),
        other => panic!("expected a footnote span, got {:?}", other),
    }
    match &spans[1] {
        Span::Image(i) => assert_eq!(i.id, 9),
        other => panic!("expected an image span, got {:?}", other),
    }
}

#[test]
fn text_from_string_is_unstyled() {
    let t = Text::from("v".to_string());
    assert_eq!(t.value, "v");
    assert_eq!(t.font_weight, None);
    assert_eq!(t.baseline_shift, None);
}

#[test]
fn facet_helpers_compose_on_a_span() {
    let s = Span::Text(Text::from("z".to_string()));
    let s = subscript_text(bold_text(italic_text(s)));
    match &s {
        Span::Text(t) => {
            assert!(t.font_style.italic);
            assert_eq!(t.font_weight, Some(BOLD_WEIGHT));
            assert_eq!(t.baseline_shift, Some(BaselineShift::Subscript));
        }
        other => panic!("expected a text span, got {:?}", other),
    }
    // The outer wrapper wins for the single-valued baseline facet.
    let s = superscript_text(s);
    match &s {
        Span::Text(t) => assert_eq!(t.baseline_shift, Some(BaselineShift::Superscript)),
        other => panic!("expected a text span, got {:?}", other),
    }
}

#[test]
fn facet_helpers_reach_link_content() {
    let link = Span::Link(bookmodel::Link {
        href: Href::Local("t".to_string()),
        content: vec![Text::from("a".to_string()), Text::from("b".to_string())],
    });
    let link = strikethrough_text(code_text(link));
    match &link {
        Span::Link(l) => {
            for t in &l.content {
                assert!(t.font_style.code);
                assert!(t.decorations.line_through);
            }
        }
        other => panic!("expected a link span, got {:?}", other),
    }
}

#[test]
fn text_from_fb2_drops_empty() {
    assert_eq!(Text::from_fb2(String::new()), None);
    let t = Text::from_fb2("w".to_string()).expect("non-empty text survives");
    assert_eq!(t.value, "w");
}
