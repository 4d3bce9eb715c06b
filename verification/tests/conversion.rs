//! Block-level conversion, author assembly, table inference, and the
//! whole-book assembler.

use bookmodel::fb2::{
    AnonymousAuthor, Author, Body, Cite, CiteElement, Context, CoverPage, Description, Epigraph,
    EpigraphElement, FictionBook, InlineImage, Paragraph, Poem, PoemStanza, Section,
    SectionContent, SectionPart, Stanza, StyleElement, Table, TableCell, TableCellElement,
    TableRow, TitleInfo, VerboseAuthor,
};
use bookmodel::fb2 as src;
use bookmodel::{BinaryIndex, Content, KeySet};

fn empty_ctx(binaries: &BinaryIndex) -> Context<'_> {
    Context { binaries, notes: KeySet::new(), comments: KeySet::new() }
}

fn para(text: &str) -> Paragraph {
    Paragraph { id: None, elements: vec![StyleElement::Text(text.to_string())] }
}

fn cell(kind_head: bool, text: &str) -> TableCellElement {
    let c = TableCell { id: None, elements: vec![StyleElement::Text(text.to_string())] };
    if kind_head {
        TableCellElement::Head(c)
    } else {
        TableCellElement::Data(c)
    }
}

fn title_info(title: &str, lang: &str) -> TitleInfo {
    TitleInfo {
        book_title: title.to_string(),
        date: None,
        authors: vec![],
        lang: lang.to_string(),
        cover_page: None,
        annotation: None,
    }
}

fn section_with(parts: Vec<SectionPart>, sections: Vec<Section>) -> Section {
    Section {
        id: None,
        content: Some(SectionContent {
            title: None,
            epigraphs: vec![],
            image: None,
            annotation: None,
            content: parts,
            sections,
        }),
    }
}

#[test]
fn author_name_joining() {
    let a = Author::Verbose(VerboseAuthor {
        first_name: "Ada".to_string(),
        last_name: "Lovelace".to_string(),
        middle_name: Some("Byron".to_string()),
        nickname: None,
    });
    let out = bookmodel::Author::from_fb2(&a).expect("author should survive");
    assert_eq!(out.full_name, "Ada Byron Lovelace");
    assert_eq!(out.given_name, Some("Ada".to_string()));
    assert_eq!(out.middle_name, Some("Byron".to_string()));
    assert_eq!(out.family_name, Some("Lovelace".to_string()));
    assert_eq!(out.id, 0);
}

#[test]
fn author_without_middle_name() {
    let a = Author::Verbose(VerboseAuthor {
        first_name: "Ada".to_string(),
        last_name: "Lovelace".to_string(),
        middle_name: None,
        nickname: None,
    });
    let out = bookmodel::Author::from_fb2(&a).expect("author should survive");
    assert_eq!(out.full_name, "Ada Lovelace");
}

#[test]
fn author_nickname_fallback() {
    let a = Author::Verbose(VerboseAuthor {
        first_name: "".to_string(),
        last_name: "".to_string(),
        middle_name: None,
        nickname: Some("ada".to_string()),
    });
    let out = bookmodel::Author::from_fb2(&a).expect("author should survive");
    assert_eq!(out.full_name, "ada");
    assert_eq!(out.given_name, None);
    assert_eq!(out.family_name, None);
    assert_eq!(out.middle_name, None);
}

#[test]
fn author_with_nothing_is_dropped() {
    let a = Author::Anonymous(AnonymousAuthor { nickname: None });
    assert_eq!(bookmodel::Author::from_fb2(&a), None);
    let b = Author::Anonymous(AnonymousAuthor { nickname: Some("".to_string()) });
    assert_eq!(bookmodel::Author::from_fb2(&b), None);
}

#[test]
fn table_header_inference() {
    // 2x2 table: (0,0) and (1,0) are head, (0,1) is data.
    let bin = BinaryIndex::new();
    let ctx = empty_ctx(&bin);
    let t = Table {
        id: None,
        rows: vec![
            TableRow { cells: vec![cell(true, "a"), cell(false, "b")] },
            TableRow { cells: vec![cell(true, "c"), cell(false, "d")] },
        ],
    };
    let out = bookmodel::Table::from_fb2(&t, &ctx).expect("table should survive");
    assert!(out.header_column);
    assert!(!out.header_row);
    assert_eq!(out.rows.len(), 2);
    assert_eq!(out.rows[0].cells.len(), 2);
}

#[test]
fn empty_table_cell_is_kept() {
    let bin = BinaryIndex::new();
    let ctx = empty_ctx(&bin);
    let t = Table {
        id: None,
        rows: vec![TableRow { cells: vec![cell(false, ""), cell(false, "x")] }],
    };
    let out = bookmodel::Table::from_fb2(&t, &ctx).expect("table should survive");
    assert_eq!(out.rows[0].cells.len(), 2);
    assert!(out.rows[0].cells[0].content.is_empty());
}

#[test]
fn table_without_rows_is_dropped() {
    let bin = BinaryIndex::new();
    let ctx = empty_ctx(&bin);
    let t = Table { id: None, rows: vec![] };
    assert_eq!(bookmodel::Table::from_fb2(&t, &ctx), None);
}

#[test]
fn empty_paragraph_is_dropped() {
    let bin = BinaryIndex::new();
    let ctx = empty_ctx(&bin);
    let p = Paragraph { id: Some("a1".to_string()), elements: vec![StyleElement::Text(
        "".to_string(),
    )] };
    assert_eq!(bookmodel::Paragraph::from_fb2(&p, &ctx), None);
}

#[test]
fn empty_chapter_chain_collapses() {
    // A section whose only child section holds an empty paragraph
    // resolves to nothing at every level.
    let bin = BinaryIndex::new();
    let ctx = empty_ctx(&bin);
    let inner = section_with(vec![SectionPart::Paragraph(para(""))], vec![]);
    let outer = section_with(vec![], vec![inner]);
    assert_eq!(bookmodel::Chapter::from_fb2(&outer, &ctx), None);
}

#[test]
fn chapter_with_sub_chapter_survives() {
    let bin = BinaryIndex::new();
    let ctx = empty_ctx(&bin);
    let inner = section_with(vec![SectionPart::Paragraph(para("body"))], vec![]);
    let outer = section_with(vec![], vec![inner]);
    let out = bookmodel::Chapter::from_fb2(&outer, &ctx).expect("chapter should survive");
    assert!(out.content.is_empty());
    assert_eq!(out.sub_chapters.len(), 1);
    assert_eq!(out.sub_chapters[0].content.len(), 1);
    match &out.sub_chapters[0].content[0] {
        Content::Paragraph(p) => assert_eq!(p.content.len(), 1),
        other => panic!("expected a paragraph, got {:?}", other),
    }
}

#[test]
fn empty_line_passes_through() {
    let bin = BinaryIndex::new();
    let ctx = empty_ctx(&bin);
    let s = section_with(vec![SectionPart::EmptyLine], vec![]);
    let out = bookmodel::Chapter::from_fb2(&s, &ctx).expect("chapter should survive");
    assert_eq!(out.content.len(), 1);
    assert!(matches!(out.content[0], Content::EmptyLine));
}

#[test]
fn cover_takes_first_resolvable_image() {
    let mut bin = BinaryIndex::new();
    bin.insert("known".to_string(), 42);
    let book = FictionBook {
        description: Description {
            title_info: TitleInfo {
                cover_page: Some(CoverPage {
                    images: vec![
                        InlineImage { href: Some("missing".to_string()), alt: None },
                        InlineImage {
                            href: Some("known".to_string()),
                            alt: Some("c".to_string()),
                        },
                    ],
                }),
                ..title_info("T", "")
            },
        },
        bodies: vec![],
    };
    let out = bookmodel::Book::from_fb2(&book, 1, &bin);
    let cover = out.cover.expect("cover should resolve");
    assert_eq!(cover.id, 42);
    assert_eq!(cover.alt, Some("c".to_string()));
}

#[test]
fn empty_document_end_to_end() {
    let bin = BinaryIndex::new();
    let book = FictionBook {
        description: Description { title_info: title_info("The Title", "en") },
        bodies: vec![],
    };
    let out = bookmodel::Book::from_fb2(&book, 5, &bin);
    assert_eq!(out.id, 5);
    assert_eq!(out.short_title, "The Title");
    assert!(out.chapters.is_empty());
    assert_eq!(out.title, None);
    assert!(out.epigraphs.is_empty());
    assert_eq!(out.notes, None);
    assert_eq!(out.comments, None);
    assert_eq!(out.date, bookmodel::Date { iso_date: None, display_date: None });
    assert!(out.language.is_some());
}

#[test]
fn unparsable_language_is_absent() {
    let bin = BinaryIndex::new();
    let book = FictionBook {
        description: Description { title_info: title_info("T", "not a language tag!") },
        bodies: vec![],
    };
    let out = bookmodel::Book::from_fb2(&book, 1, &bin);
    assert!(out.language.is_none());
}

#[test]
fn body_language_overrides_title_language() {
    let bin = BinaryIndex::new();
    let fr: language_tags::LanguageTag = "fr".parse().unwrap();
    let book = FictionBook {
        description: Description { title_info: title_info("T", "en") },
        bodies: vec![Body {
            name: None,
            lang: Some(fr.clone()),
            title: None,
            epigraphs: vec![],
            sections: vec![section_with(vec![SectionPart::Paragraph(para("x"))], vec![])],
        }],
    };
    let out = bookmodel::Book::from_fb2(&book, 1, &bin);
    assert_eq!(out.language, Some(fr));
    assert_eq!(out.chapters.len(), 1);
}

#[test]
fn notes_body_feeds_footnote_links() {
    let bin = BinaryIndex::new();
    let note_section = Section {
        id: Some("n1".to_string()),
        content: Some(SectionContent {
            title: None,
            epigraphs: vec![],
            image: None,
            annotation: None,
            content: vec![SectionPart::Paragraph(para("the note"))],
            sections: vec![],
        }),
    };
    let main_para = Paragraph {
        id: None,
        elements: vec![StyleElement::Link(bookmodel::fb2::LinkNode {
            href: Some("#n1".to_string()),
            kind: None,
            elements: vec![bookmodel::fb2::StyleLinkElement::Text("1".to_string())],
        })],
    };
    let book = FictionBook {
        description: Description { title_info: title_info("T", "") },
        bodies: vec![
            Body {
                name: None,
                lang: None,
                title: None,
                epigraphs: vec![],
                sections: vec![section_with(vec![SectionPart::Paragraph(main_para)], vec![])],
            },
            Body {
                name: Some("notes".to_string()),
                lang: None,
                title: None,
                epigraphs: vec![],
                sections: vec![note_section],
            },
        ],
    };
    let out = bookmodel::Book::from_fb2(&book, 1, &bin);
    let notes = out.notes.expect("notes should survive");
    assert_eq!(notes.content.len(), 1);
    assert_eq!(notes.content[0].0, "n1");
    assert_eq!(notes.content[0].1.content.len(), 1);
    // The link in the main body resolves as a footnote reference.
    match &out.chapters[0].content[0] {
        Content::Paragraph(p) => match &p.content[0] {
            bookmodel::Span::Footnote(f) => {
                assert_eq!(f.id, "n1");
                assert_eq!(f.kind, bookmodel::FootnoteKind::Note);
            }
            other => panic!("expected a footnote span, got {:?}", other),
        },
        other => panic!("expected a paragraph, got {:?}", other),
    }
}

#[test]
fn footnote_without_key_or_content_is_skipped() {
    let bin = BinaryIndex::new();
    let ctx = empty_ctx(&bin);
    let no_key = section_with(vec![SectionPart::Paragraph(para("x"))], vec![]);
    assert_eq!(bookmodel::Footnote::from_fb2(&no_key, &ctx), None);
    let empty_body = Section { id: Some("k".to_string()), content: None };
    assert_eq!(bookmodel::Footnote::from_fb2(&empty_body, &ctx), None);
}

#[test]
fn poem_cite_and_subtitle_convert() {
    let bin = BinaryIndex::new();
    let ctx = empty_ctx(&bin);
    let poem = Poem {
        id: Some("p1".to_string()),
        title: None,
        epigraphs: vec![Epigraph {
            id: None,
            elements: vec![EpigraphElement::Paragraph(para("motto"))],
            text_authors: vec![para("someone")],
        }],
        stanzas: vec![
            PoemStanza::Subtitle(para("part one")),
            PoemStanza::Stanza(Stanza {
                title: None,
                subtitle: None,
                lines: vec![para("line a"), para("line b")],
            }),
        ],
        text_authors: vec![],
    };
    let out = bookmodel::Poem::from_fb2(&poem, &ctx).expect("poem should survive");
    assert_eq!(out.anchor, Some("p1".to_string()));
    assert_eq!(out.content.len(), 2);
    match &out.content[1] {
        bookmodel::PoemElement::Stanza(s) => assert_eq!(s.content.len(), 2),
        other => panic!("expected a stanza, got {:?}", other),
    }
    assert_eq!(out.epigraphs.len(), 1);
    assert_eq!(out.epigraphs[0].authors.len(), 1);

    let cite = Cite {
        id: None,
        elements: vec![CiteElement::Subtitle(para("quoted")), CiteElement::EmptyLine],
        text_authors: vec![para("author")],
    };
    let out = bookmodel::Cite::from_fb2(&cite, &ctx).expect("cite should survive");
    assert_eq!(out.content.len(), 2);
    assert!(matches!(out.content[1], bookmodel::CiteElement::EmptyLine));
    assert_eq!(out.authors.len(), 1);

    // A poem whose only stanza has no surviving line vanishes, and with
    // it the epigraphs it would have carried.
    let hollow = Poem {
        id: None,
        title: None,
        epigraphs: vec![],
        stanzas: vec![PoemStanza::Stanza(Stanza {
            title: None,
            subtitle: None,
            lines: vec![para("")],
        })],
        text_authors: vec![],
    };
    assert_eq!(bookmodel::Poem::from_fb2(&hollow, &ctx), None);
}

#[test]
fn comments_body_feeds_comment_links() {
    let bin = BinaryIndex::new();
    let comment_section = Section {
        id: Some("c1".to_string()),
        content: Some(SectionContent {
            title: None,
            epigraphs: vec![],
            image: None,
            annotation: None,
            content: vec![SectionPart::Paragraph(para("a remark"))],
            sections: vec![],
        }),
    };
    let main_para = Paragraph {
        id: None,
        elements: vec![StyleElement::Link(bookmodel::fb2::LinkNode {
            href: Some("#c1".to_string()),
            kind: None,
            elements: vec![bookmodel::fb2::StyleLinkElement::Text("*".to_string())],
        })],
    };
    let book = FictionBook {
        description: Description { title_info: title_info("T", "") },
        bodies: vec![
            Body {
                name: Some("comments".to_string()),
                lang: None,
                title: None,
                epigraphs: vec![],
                sections: vec![comment_section],
            },
            Body {
                name: None,
                lang: None,
                title: None,
                epigraphs: vec![],
                sections: vec![section_with(vec![SectionPart::Paragraph(main_para)], vec![])],
            },
        ],
    };
    let out = bookmodel::Book::from_fb2(&book, 1, &bin);
    assert!(out.comments.is_some());
    assert!(out.notes.is_none());
    match &out.chapters[0].content[0] {
        Content::Paragraph(p) => match &p.content[0] {
            bookmodel::Span::Footnote(f) => {
                assert_eq!(f.kind, bookmodel::FootnoteKind::Comment);
            }
            other => panic!("expected a footnote span, got {:?}", other),
        },
        other => panic!("expected a paragraph, got {:?}", other),
    }
}

#[test]
fn annotation_title_and_block_image_convert() {
    let mut bin = BinaryIndex::new();
    bin.insert("fig".to_string(), 3);
    let book = FictionBook {
        description: Description {
            title_info: TitleInfo {
                annotation: Some(src::Annotation {
                    id: Some("ann".to_string()),
                    elements: vec![src::AnnotationElement::Paragraph(para("about"))],
                }),
                ..title_info("T", "")
            },
        },
        bodies: vec![Body {
            name: None,
            lang: None,
            title: Some(src::Title {
                elements: vec![src::TitleElement::Paragraph(para("Body Title"))],
            }),
            epigraphs: vec![Epigraph {
                id: None,
                elements: vec![EpigraphElement::Paragraph(para("epi"))],
                text_authors: vec![],
            }],
            sections: vec![section_with(
                vec![SectionPart::Image(src::Image {
                    id: Some("a".to_string()),
                    href: Some("fig".to_string()),
                    alt: Some("alt".to_string()),
                    title: None,
                })],
                vec![],
            )],
        }],
    };
    let out = bookmodel::Book::from_fb2(&book, 1, &bin);
    let ann = out.annotation.expect("annotation should survive");
    assert_eq!(ann.anchor, Some("ann".to_string()));
    assert_eq!(ann.content.len(), 1);
    assert!(out.title.is_some());
    assert_eq!(out.epigraphs.len(), 1);
    match &out.chapters[0].content[0] {
        Content::Image(i) => {
            assert_eq!(i.id, 3);
            assert_eq!(i.anchor, Some("a".to_string()));
            assert_eq!(i.alt, Some("alt".to_string()));
        }
        other => panic!("expected an image, got {:?}", other),
    }
}

#[test]
fn unresolvable_block_image_is_dropped() {
    let bin = BinaryIndex::new();
    let ctx = empty_ctx(&bin);
    let s = section_with(
        vec![SectionPart::Image(src::Image {
            id: None,
            href: Some("nowhere".to_string()),
            alt: None,
            title: None,
        })],
        vec![],
    );
    // The only content item vanishes, so the whole chapter does.
    assert_eq!(bookmodel::Chapter::from_fb2(&s, &ctx), None);
}

#[test]
fn binary_index_last_binding_wins() {
    let mut bin = BinaryIndex::new();
    bin.insert("a".to_string(), 1);
    bin.insert("a".to_string(), 2);
    assert_eq!(bin.get("a"), Some(2));
    assert_eq!(bin.get("b"), None);
}
